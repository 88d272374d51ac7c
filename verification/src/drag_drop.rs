//! What a native drag-and-drop gesture carries.

use vstd::prelude::*;

verus! {

/// What is being dragged: files (folders included) dropped from the OS
/// shell, given as their paths.
#[derive(Debug, Clone, PartialEq)]
pub enum DragPayload {
    Files(Vec<String>),
}

} // verus!
