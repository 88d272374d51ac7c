//! Native context-menu entries and outcomes, and the label text a native
//! menu item shows: labels, enabled/checked state and a display-only
//! shortcut hint are the whole surface.

use vstd::prelude::*;

verus! {

/// A stable, caller-assigned identity for one menu command. `0` is
/// reserved: a native menu reports `0` both when it closes with no
/// selection and on a real failure.
#[derive(Debug, Clone, Copy, PartialEq, Eq, Hash, Structural)]
pub struct MenuCommandId(pub u32);

/// One row of a context menu, built fresh from the caller's current
/// snapshot on every call.
#[derive(Debug, Clone, PartialEq)]
pub enum MenuEntry {
    Action {
        id: MenuCommandId,
        label: String,
        enabled: bool,
        checked: bool,
        /// Display text only (e.g. `"Ctrl+S"`); no accelerator is
        /// registered.
        shortcut: Option<String>,
    },
    Separator,
}

/// What showing a context menu returns.
#[derive(Debug, Clone, Copy, PartialEq, Eq, Structural)]
pub enum ContextMenuOutcome {
    Selected(MenuCommandId),
    /// Escape, a click outside the menu, or an indistinguishable failure.
    Dismissed,
    /// No equivalent mechanism on this platform, or no window handle.
    Unavailable,
}

/// The text of a native menu item: `label`, then a tab and `shortcut` when
/// there is one (the tab right-aligns the shortcut hint).
pub open spec fn spec_menu_label(label: Seq<char>, shortcut: Option<Seq<char>>) -> Seq<char> {
    match shortcut {
        Some(hint) => label + seq!['\t'] + hint,
        None => label,
    }
}

/// Joins `label` and `shortcut` into the `"{label}\t{shortcut}"` text a
/// native menu item expects.
pub fn menu_label(label: &str, shortcut: Option<&str>) -> (res: String)
    ensures
        res@ == spec_menu_label(label@, match shortcut { Some(s) => Some(s@), None => None }),
{
    match shortcut {
        Some(hint) => {
            let mut text = label.to_owned();
            proof {
                reveal_strlit("\t");
            }
            text.append("\t");
            text.append(hint);
            text
        },
        None => label.to_owned(),
    }
}

} // verus!
