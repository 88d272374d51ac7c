//! Platform-independent core of the Florui desktop platform layer: launch
//! classification and the activation queue, appearance capability reports,
//! file-dialog filter patterns, context-menu labels, focus order, the
//! accessibility tree's stable ids and node semantics, keyboard, pointer
//! and frame-scheduling decisions of the desktop host, text-input
//! sanitizing, when a node lays its children out inline, the `view!` and
//! `#[component]` lowering rules, and the integer pixel math of the
//! painter.

pub mod accessibility;
pub mod activation;
pub mod appearance;
pub mod component;
pub mod drag_drop;
pub mod file_dialog;
pub mod focus;
pub mod gpu;
pub mod host;
pub mod input;
pub mod keyboard;
pub mod layout;
pub mod menu;
pub mod paint;
pub mod text;
pub mod view;
