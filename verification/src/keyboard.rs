//! Keyboard decisions of the desktop host: what a key press means for the
//! focused document (move focus, activate, close a modal dialog) and, when
//! an editable text input has focus, which editing command it is. The host
//! reads the key event and performs the command; the decision is here.

use vstd::prelude::*;

use crate::input::{spec_strip_disallowed, strip_disallowed_input_chars};
use crate::text::chars_of;

verus! {

/// The named keys the host reacts to; every other named key is `Other`.
#[derive(Debug, Clone, Copy, PartialEq, Eq, Structural)]
pub enum NamedKey {
    Tab,
    Escape,
    Enter,
    Space,
    ArrowLeft,
    ArrowRight,
    Home,
    End,
    Backspace,
    Delete,
    Other,
}

/// A key as the keyboard layout reports it: a named key, the text a
/// character key produces, or nothing recognizable.
#[derive(Debug, Clone, PartialEq)]
pub enum LogicalKey {
    Named(NamedKey),
    Character(String),
    Unidentified,
}

/// The physical key under the finger, where it is one that a Ctrl
/// shortcut uses (shortcuts key off the physical key, since the logical
/// one varies with layout); every other or unidentified key is `Other`.
#[derive(Debug, Clone, Copy, PartialEq, Eq, Structural)]
pub enum ShortcutKey {
    KeyA,
    KeyC,
    KeyX,
    KeyV,
    KeyZ,
    KeyY,
    Other,
}

/// An edit of a single-line text input's value, caret and selection.
#[derive(Debug, Clone, PartialEq)]
pub enum TextEditOp {
    MoveLeft,
    MoveRight,
    MoveWordLeft,
    MoveWordRight,
    SelectLeft,
    SelectRight,
    SelectWordLeft,
    SelectWordRight,
    MoveLineStart,
    MoveLineEnd,
    SelectLineStart,
    SelectLineEnd,
    Backdelete,
    BackdeleteWord,
    Delete,
    DeleteWord,
    SelectAll,
    InsertOrReplace(String),
}

/// What a key press asks of the focused text input. `Copy`, `Cut` and
/// `Paste` go through the system clipboard (a cut or paste then edits the
/// value; pasted text loses its newlines and tabs); `Undo` and `Redo` walk
/// the input's history.
#[derive(Debug, Clone, PartialEq)]
pub enum TextInputCommand {
    Edit(TextEditOp),
    Copy,
    Cut,
    Paste,
    Undo,
    Redo,
}

/// An edit with its inserted text as characters.
pub enum TextEditOpView {
    MoveLeft,
    MoveRight,
    MoveWordLeft,
    MoveWordRight,
    SelectLeft,
    SelectRight,
    SelectWordLeft,
    SelectWordRight,
    MoveLineStart,
    MoveLineEnd,
    SelectLineStart,
    SelectLineEnd,
    Backdelete,
    BackdeleteWord,
    Delete,
    DeleteWord,
    SelectAll,
    InsertOrReplace(Seq<char>),
}

impl View for TextEditOp {
    type V = TextEditOpView;

    open spec fn view(&self) -> TextEditOpView {
        match self {
            TextEditOp::MoveLeft => TextEditOpView::MoveLeft,
            TextEditOp::MoveRight => TextEditOpView::MoveRight,
            TextEditOp::MoveWordLeft => TextEditOpView::MoveWordLeft,
            TextEditOp::MoveWordRight => TextEditOpView::MoveWordRight,
            TextEditOp::SelectLeft => TextEditOpView::SelectLeft,
            TextEditOp::SelectRight => TextEditOpView::SelectRight,
            TextEditOp::SelectWordLeft => TextEditOpView::SelectWordLeft,
            TextEditOp::SelectWordRight => TextEditOpView::SelectWordRight,
            TextEditOp::MoveLineStart => TextEditOpView::MoveLineStart,
            TextEditOp::MoveLineEnd => TextEditOpView::MoveLineEnd,
            TextEditOp::SelectLineStart => TextEditOpView::SelectLineStart,
            TextEditOp::SelectLineEnd => TextEditOpView::SelectLineEnd,
            TextEditOp::Backdelete => TextEditOpView::Backdelete,
            TextEditOp::BackdeleteWord => TextEditOpView::BackdeleteWord,
            TextEditOp::Delete => TextEditOpView::Delete,
            TextEditOp::DeleteWord => TextEditOpView::DeleteWord,
            TextEditOp::SelectAll => TextEditOpView::SelectAll,
            TextEditOp::InsertOrReplace(text) => TextEditOpView::InsertOrReplace(text@),
        }
    }
}

/// A text-input command with its inserted text as characters.
pub enum TextInputCommandView {
    Edit(TextEditOpView),
    Copy,
    Cut,
    Paste,
    Undo,
    Redo,
}

impl View for TextInputCommand {
    type V = TextInputCommandView;

    open spec fn view(&self) -> TextInputCommandView {
        match self {
            TextInputCommand::Edit(op) => TextInputCommandView::Edit(op@),
            TextInputCommand::Copy => TextInputCommandView::Copy,
            TextInputCommand::Cut => TextInputCommandView::Cut,
            TextInputCommand::Paste => TextInputCommandView::Paste,
            TextInputCommand::Undo => TextInputCommandView::Undo,
            TextInputCommand::Redo => TextInputCommandView::Redo,
        }
    }
}

/// An optional command as characters.
pub open spec fn command_view(command: Option<TextInputCommand>) -> Option<TextInputCommandView> {
    match command {
        Some(c) => Some(c@),
        None => None,
    }
}

/// The editing command owed for a key press in a focused text input (see
/// [`text_input_command`]).
pub open spec fn spec_text_input_command(logical: LogicalKey, physical: ShortcutKey, ctrl: bool, shift: bool) -> Option<TextInputCommandView> {
    if ctrl && physical == ShortcutKey::KeyA {
        Some(TextInputCommandView::Edit(TextEditOpView::SelectAll))
    } else if ctrl && physical == ShortcutKey::KeyC {
        Some(TextInputCommandView::Copy)
    } else if ctrl && physical == ShortcutKey::KeyX {
        Some(TextInputCommandView::Cut)
    } else if ctrl && physical == ShortcutKey::KeyV {
        Some(TextInputCommandView::Paste)
    } else if ctrl && physical == ShortcutKey::KeyZ {
        Some(if shift { TextInputCommandView::Redo } else { TextInputCommandView::Undo })
    } else if ctrl && physical == ShortcutKey::KeyY {
        Some(TextInputCommandView::Redo)
    } else {
        match logical {
            LogicalKey::Named(NamedKey::ArrowLeft) => Some(TextInputCommandView::Edit(
                if ctrl && shift {
                    TextEditOpView::SelectWordLeft
                } else if ctrl {
                    TextEditOpView::MoveWordLeft
                } else if shift {
                    TextEditOpView::SelectLeft
                } else {
                    TextEditOpView::MoveLeft
                },
            )),
            LogicalKey::Named(NamedKey::ArrowRight) => Some(TextInputCommandView::Edit(
                if ctrl && shift {
                    TextEditOpView::SelectWordRight
                } else if ctrl {
                    TextEditOpView::MoveWordRight
                } else if shift {
                    TextEditOpView::SelectRight
                } else {
                    TextEditOpView::MoveRight
                },
            )),
            LogicalKey::Named(NamedKey::Home) => Some(TextInputCommandView::Edit(
                if shift {
                    TextEditOpView::SelectLineStart
                } else {
                    TextEditOpView::MoveLineStart
                },
            )),
            LogicalKey::Named(NamedKey::End) => Some(TextInputCommandView::Edit(
                if shift {
                    TextEditOpView::SelectLineEnd
                } else {
                    TextEditOpView::MoveLineEnd
                },
            )),
            LogicalKey::Named(NamedKey::Backspace) => Some(TextInputCommandView::Edit(
                if ctrl {
                    TextEditOpView::BackdeleteWord
                } else {
                    TextEditOpView::Backdelete
                },
            )),
            LogicalKey::Named(NamedKey::Delete) => Some(TextInputCommandView::Edit(
                if ctrl {
                    TextEditOpView::DeleteWord
                } else {
                    TextEditOpView::Delete
                },
            )),
            LogicalKey::Character(text) => if !ctrl && spec_strip_disallowed(text@).len() > 0 {
                Some(TextInputCommandView::Edit(TextEditOpView::InsertOrReplace(spec_strip_disallowed(text@))))
            } else {
                None
            },
            LogicalKey::Named(NamedKey::Space) => if !ctrl {
                Some(TextInputCommandView::Edit(TextEditOpView::InsertOrReplace(seq![' '])))
            } else {
                None
            },
            _ => None,
        }
    }
}

/// Which editing command a key press means in a focused, editable text
/// input: Ctrl+A selects all, Ctrl+C/X/V copy, cut and paste, Ctrl+Z undoes
/// (redoes with Shift), Ctrl+Y redoes, the arrows, Home, End, Backspace and
/// Delete move, select or delete (by word with Ctrl, extending the
/// selection with Shift), and a typed character or the space bar inserts
/// its text (newlines and tabs dropped) unless Ctrl is held.
pub fn text_input_command(logical: &LogicalKey, physical: ShortcutKey, ctrl: bool, shift: bool) -> (command: Option<TextInputCommand>)
    ensures
        command_view(command) == spec_text_input_command(*logical, physical, ctrl, shift),
{
    if ctrl {
        match physical {
            ShortcutKey::KeyA => {
                return Some(TextInputCommand::Edit(TextEditOp::SelectAll));
            },
            ShortcutKey::KeyC => {
                return Some(TextInputCommand::Copy);
            },
            ShortcutKey::KeyX => {
                return Some(TextInputCommand::Cut);
            },
            ShortcutKey::KeyV => {
                return Some(TextInputCommand::Paste);
            },
            ShortcutKey::KeyZ => {
                return Some(
                    if shift {
                        TextInputCommand::Redo
                    } else {
                        TextInputCommand::Undo
                    },
                );
            },
            ShortcutKey::KeyY => {
                return Some(TextInputCommand::Redo);
            },
            ShortcutKey::Other => {},
        }
    }
    let op = match logical {
        LogicalKey::Named(NamedKey::ArrowLeft) => Some(
            if ctrl && shift {
                TextEditOp::SelectWordLeft
            } else if ctrl {
                TextEditOp::MoveWordLeft
            } else if shift {
                TextEditOp::SelectLeft
            } else {
                TextEditOp::MoveLeft
            },
        ),
        LogicalKey::Named(NamedKey::ArrowRight) => Some(
            if ctrl && shift {
                TextEditOp::SelectWordRight
            } else if ctrl {
                TextEditOp::MoveWordRight
            } else if shift {
                TextEditOp::SelectRight
            } else {
                TextEditOp::MoveRight
            },
        ),
        LogicalKey::Named(NamedKey::Home) => Some(
            if shift {
                TextEditOp::SelectLineStart
            } else {
                TextEditOp::MoveLineStart
            },
        ),
        LogicalKey::Named(NamedKey::End) => Some(
            if shift {
                TextEditOp::SelectLineEnd
            } else {
                TextEditOp::MoveLineEnd
            },
        ),
        LogicalKey::Named(NamedKey::Backspace) => Some(
            if ctrl {
                TextEditOp::BackdeleteWord
            } else {
                TextEditOp::Backdelete
            },
        ),
        LogicalKey::Named(NamedKey::Delete) => Some(
            if ctrl {
                TextEditOp::DeleteWord
            } else {
                TextEditOp::Delete
            },
        ),
        LogicalKey::Character(text) => {
            if ctrl {
                None
            } else {
                let stripped = strip_disallowed_input_chars(text.as_str());
                assert(stripped@ == spec_strip_disallowed(text@));
                if chars_of(stripped.as_str()).len() > 0 {
                    Some(TextEditOp::InsertOrReplace(stripped))
                } else {
                    None
                }
            }
        },
        LogicalKey::Named(NamedKey::Space) => {
            if ctrl {
                None
            } else {
                proof {
                    reveal_strlit(" ");
                }
                let space = " ".to_owned();
                assert(space@ =~= seq![' ']);
                Some(TextEditOp::InsertOrReplace(space))
            }
        },
        _ => None,
    };
    match op {
        Some(op) => Some(TextInputCommand::Edit(op)),
        None => None,
    }
}

/// What a key press means for the window as a whole.
#[derive(Debug, Clone, Copy, PartialEq, Eq, Structural)]
pub enum KeyboardCommand {
    /// Nothing to do.
    Ignore,
    /// Handed to the focused text input (see [`text_input_command`]).
    TextInput,
    /// Shift+Tab: move focus to the previous focus stop.
    FocusPrevious,
    /// Tab: move focus to the next focus stop.
    FocusNext,
    /// Enter or Space: click the focused node.
    ActivateFocused,
    /// Escape: close the open modal dialog.
    CloseModal,
}

/// The window-level command owed for a key event (see
/// [`keyboard_command`]).
pub open spec fn spec_keyboard_command(pressed: bool, repeat: bool, key: LogicalKey, shift: bool, text_input_focused: bool) -> KeyboardCommand {
    let tab_or_escape = key == LogicalKey::Named(NamedKey::Tab) || key == LogicalKey::Named(
        NamedKey::Escape,
    );
    if !pressed {
        KeyboardCommand::Ignore
    } else if !tab_or_escape && text_input_focused {
        KeyboardCommand::TextInput
    } else if repeat {
        KeyboardCommand::Ignore
    } else if key == LogicalKey::Named(NamedKey::Tab) {
        if shift {
            KeyboardCommand::FocusPrevious
        } else {
            KeyboardCommand::FocusNext
        }
    } else if key == LogicalKey::Named(NamedKey::Enter) || key == LogicalKey::Named(NamedKey::Space) {
        KeyboardCommand::ActivateFocused
    } else if key == LogicalKey::Named(NamedKey::Escape) {
        KeyboardCommand::CloseModal
    } else {
        KeyboardCommand::Ignore
    }
}

/// What a key event means for the window: releases are ignored; with an
/// editable text input focused every key but Tab and Escape goes to it
/// (auto-repeat included, so a held Backspace or arrow repeats); otherwise
/// an auto-repeated press is ignored, Tab moves focus (backwards with
/// Shift), Enter and Space click the focused node, and Escape closes the
/// modal dialog.
pub fn keyboard_command(pressed: bool, repeat: bool, key: &LogicalKey, shift: bool, text_input_focused: bool) -> (command: KeyboardCommand)
    ensures
        command == spec_keyboard_command(pressed, repeat, *key, shift, text_input_focused),
{
    if !pressed {
        return KeyboardCommand::Ignore;
    }
    let named = match key {
        LogicalKey::Named(n) => Some(*n),
        _ => None,
    };
    let tab_or_escape = match named {
        Some(NamedKey::Tab) => true,
        Some(NamedKey::Escape) => true,
        _ => false,
    };
    if !tab_or_escape && text_input_focused {
        return KeyboardCommand::TextInput;
    }
    if repeat {
        return KeyboardCommand::Ignore;
    }
    match named {
        Some(NamedKey::Tab) => if shift {
            KeyboardCommand::FocusPrevious
        } else {
            KeyboardCommand::FocusNext
        },
        Some(NamedKey::Enter) => KeyboardCommand::ActivateFocused,
        Some(NamedKey::Space) => KeyboardCommand::ActivateFocused,
        Some(NamedKey::Escape) => KeyboardCommand::CloseModal,
        _ => KeyboardCommand::Ignore,
    }
}

/// A held key's auto-repeat never re-fires focus movement, activation or
/// dialog closing, and Tab and Escape always reach the window, never a
/// focused text input, so focus can always leave one.
pub proof fn law_repeat_never_reactivates(key: LogicalKey, shift: bool, text_input_focused: bool)
    ensures
        spec_keyboard_command(true, true, key, shift, text_input_focused) == KeyboardCommand::Ignore
            || spec_keyboard_command(true, true, key, shift, text_input_focused)
            == KeyboardCommand::TextInput,
        (key == LogicalKey::Named(NamedKey::Tab) || key == LogicalKey::Named(NamedKey::Escape))
            ==> spec_keyboard_command(true, false, key, shift, text_input_focused)
            != KeyboardCommand::TextInput,
{
}

/// Typing never puts a newline, carriage return or tab into a single-line
/// input: inserted text is free of them.
pub proof fn law_typed_text_is_single_line(logical: LogicalKey, physical: ShortcutKey, ctrl: bool, shift: bool)
    ensures
        spec_text_input_command(logical, physical, ctrl, shift) matches Some(
            TextInputCommandView::Edit(TextEditOpView::InsertOrReplace(inserted)),
        ) ==> forall|k: int|
            0 <= k < inserted.len() ==> !crate::input::is_disallowed_input_char(#[trigger] inserted[k]),
{
    if let LogicalKey::Character(text) = logical {
        crate::input::law_strip_is_clean_and_idempotent(text@);
    }
}

} // verus!

verus! {

/// The input types that take IME composition (see [`allows_ime`]).
pub open spec fn allows_ime_spec(input_type: Option<&str>) -> bool {
    !(input_type matches Some(t) && t@ == "password"@)
}

/// Whether IME composition is ever allowed in a text input of this type:
/// never in a password input, whose composing text the OS candidate
/// window would show in the clear.
pub fn allows_ime(input_type: Option<&str>) -> (allowed: bool)
    ensures
        allowed == allows_ime_spec(input_type),
{
    match input_type {
        Some(t) => !crate::text::str_eq(t, "password"),
        None => true,
    }
}

/// An input-method event for the focused text input.
#[derive(Debug, Clone, PartialEq)]
pub enum ImeEvent {
    Enabled,
    /// The composition in progress and its cursor range, if shown.
    Preedit(String, Option<(usize, usize)>),
    /// Composed text, final.
    Commit(String),
    Disabled,
}

/// What an input-method event does to the focused text input.
#[derive(Debug, Clone, PartialEq)]
pub enum ImeAction {
    /// Nothing: the input takes no composition.
    Ignore,
    /// Shows the composition in progress.
    SetCompose(String, Option<(usize, usize)>),
    /// Commits composed text like typed text.
    Commit(TextEditOp),
    /// Clears any composition in progress.
    ClearCompose,
}

/// The action for `event` in a focused text input of type `input_type`:
/// nothing in a password input; otherwise a preedit is shown, a commit is
/// inserted like typed text (without newlines and tabs), and enabling or
/// disabling the input method clears any composition left over.
pub fn ime_action(input_type: Option<&str>, event: &ImeEvent) -> (action: ImeAction)
    ensures
        !allows_ime_spec(input_type) ==> action == ImeAction::Ignore,
        allows_ime_spec(input_type) ==> match *event {
            ImeEvent::Preedit(text, cursor) => action matches ImeAction::SetCompose(shown, c) && shown@
                == text@ && c == cursor,
            ImeEvent::Commit(text) => action matches ImeAction::Commit(TextEditOp::InsertOrReplace(
                inserted,
            )) && inserted@ == spec_strip_disallowed(text@),
            _ => action == ImeAction::ClearCompose,
        },
{
    if !allows_ime(input_type) {
        return ImeAction::Ignore;
    }
    match event {
        ImeEvent::Preedit(text, cursor) => ImeAction::SetCompose(text.clone(), *cursor),
        ImeEvent::Commit(text) => ImeAction::Commit(
            TextEditOp::InsertOrReplace(strip_disallowed_input_chars(text.as_str())),
        ),
        ImeEvent::Enabled => ImeAction::ClearCompose,
        ImeEvent::Disabled => ImeAction::ClearCompose,
    }
}

} // verus!

verus! {

/// Without Ctrl, typing a character inserts its text (newlines, returns
/// and tabs dropped) whenever any text remains, and nothing otherwise;
/// Shift and the physical key make no difference, so a capital typed with
/// Shift held is inserted like any other character.
pub proof fn law_typed_characters_insert_their_text(text: String, physical: ShortcutKey, shift: bool)
    ensures
        spec_text_input_command(LogicalKey::Character(text), physical, false, shift) == (if spec_strip_disallowed(
            text@,
        ).len() > 0 {
            Some(TextInputCommandView::Edit(TextEditOpView::InsertOrReplace(spec_strip_disallowed(text@))))
        } else {
            None
        }),
        spec_text_input_command(LogicalKey::Character(text), physical, false, shift)
            == spec_text_input_command(LogicalKey::Character(text), ShortcutKey::Other, false, false),
{
}

} // verus!
