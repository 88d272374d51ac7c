use florui_platform::keyboard::{
    ImeAction, ImeEvent, KeyboardCommand, LogicalKey, allows_ime, ime_action, NamedKey, ShortcutKey, TextEditOp, TextInputCommand, keyboard_command,
    text_input_command,
};

fn named(key: NamedKey) -> LogicalKey {
    LogicalKey::Named(key)
}

fn character(text: &str) -> LogicalKey {
    LogicalKey::Character(text.to_owned())
}

fn edit(op: TextEditOp) -> Option<TextInputCommand> {
    Some(TextInputCommand::Edit(op))
}

#[test]
fn ctrl_shortcuts_key_off_the_physical_key() {
    // The logical key varies with the layout; the physical one decides.
    let q = character("q");
    assert_eq!(text_input_command(&q, ShortcutKey::KeyA, true, false), edit(TextEditOp::SelectAll));
    assert_eq!(text_input_command(&q, ShortcutKey::KeyC, true, false), Some(TextInputCommand::Copy));
    assert_eq!(text_input_command(&q, ShortcutKey::KeyX, true, false), Some(TextInputCommand::Cut));
    assert_eq!(text_input_command(&q, ShortcutKey::KeyV, true, false), Some(TextInputCommand::Paste));
    assert_eq!(text_input_command(&q, ShortcutKey::KeyZ, true, false), Some(TextInputCommand::Undo));
    assert_eq!(text_input_command(&q, ShortcutKey::KeyZ, true, true), Some(TextInputCommand::Redo));
    assert_eq!(text_input_command(&q, ShortcutKey::KeyY, true, false), Some(TextInputCommand::Redo));
}

#[test]
fn without_ctrl_a_shortcut_key_types_its_character() {
    assert_eq!(
        text_input_command(&character("a"), ShortcutKey::KeyA, false, false),
        edit(TextEditOp::InsertOrReplace("a".to_owned()))
    );
}

#[test]
fn arrows_move_or_select_by_character_or_word() {
    let left = named(NamedKey::ArrowLeft);
    let right = named(NamedKey::ArrowRight);
    let o = ShortcutKey::Other;
    assert_eq!(text_input_command(&left, o, false, false), edit(TextEditOp::MoveLeft));
    assert_eq!(text_input_command(&left, o, false, true), edit(TextEditOp::SelectLeft));
    assert_eq!(text_input_command(&left, o, true, false), edit(TextEditOp::MoveWordLeft));
    assert_eq!(text_input_command(&left, o, true, true), edit(TextEditOp::SelectWordLeft));
    assert_eq!(text_input_command(&right, o, false, false), edit(TextEditOp::MoveRight));
    assert_eq!(text_input_command(&right, o, false, true), edit(TextEditOp::SelectRight));
    assert_eq!(text_input_command(&right, o, true, false), edit(TextEditOp::MoveWordRight));
    assert_eq!(text_input_command(&right, o, true, true), edit(TextEditOp::SelectWordRight));
}

#[test]
fn home_end_backspace_and_delete() {
    let o = ShortcutKey::Other;
    assert_eq!(text_input_command(&named(NamedKey::Home), o, false, false), edit(TextEditOp::MoveLineStart));
    assert_eq!(text_input_command(&named(NamedKey::Home), o, false, true), edit(TextEditOp::SelectLineStart));
    assert_eq!(text_input_command(&named(NamedKey::End), o, false, false), edit(TextEditOp::MoveLineEnd));
    assert_eq!(text_input_command(&named(NamedKey::End), o, false, true), edit(TextEditOp::SelectLineEnd));
    assert_eq!(text_input_command(&named(NamedKey::Backspace), o, false, false), edit(TextEditOp::Backdelete));
    assert_eq!(text_input_command(&named(NamedKey::Backspace), o, true, false), edit(TextEditOp::BackdeleteWord));
    assert_eq!(text_input_command(&named(NamedKey::Delete), o, false, false), edit(TextEditOp::Delete));
    assert_eq!(text_input_command(&named(NamedKey::Delete), o, true, false), edit(TextEditOp::DeleteWord));
}

#[test]
fn typed_text_loses_newlines_and_tabs() {
    let o = ShortcutKey::Other;
    assert_eq!(
        text_input_command(&character("a\tb\n"), o, false, false),
        edit(TextEditOp::InsertOrReplace("ab".to_owned()))
    );
    assert_eq!(text_input_command(&character("\n"), o, false, false), None);
    assert_eq!(text_input_command(&character("a"), o, true, false), None);
}

#[test]
fn the_space_bar_types_a_space() {
    let o = ShortcutKey::Other;
    assert_eq!(
        text_input_command(&named(NamedKey::Space), o, false, true),
        edit(TextEditOp::InsertOrReplace(" ".to_owned()))
    );
    assert_eq!(text_input_command(&named(NamedKey::Space), o, true, false), None);
}

#[test]
fn other_keys_do_nothing_in_a_text_input() {
    let o = ShortcutKey::Other;
    assert_eq!(text_input_command(&named(NamedKey::Enter), o, false, false), None);
    assert_eq!(text_input_command(&named(NamedKey::Other), o, false, false), None);
    assert_eq!(text_input_command(&LogicalKey::Unidentified, o, false, false), None);
}

#[test]
fn releases_are_ignored() {
    assert_eq!(keyboard_command(false, false, &named(NamedKey::Tab), false, false), KeyboardCommand::Ignore);
    assert_eq!(keyboard_command(false, false, &character("a"), false, true), KeyboardCommand::Ignore);
}

#[test]
fn tab_moves_focus_and_shift_tab_moves_it_back() {
    assert_eq!(keyboard_command(true, false, &named(NamedKey::Tab), false, false), KeyboardCommand::FocusNext);
    assert_eq!(keyboard_command(true, false, &named(NamedKey::Tab), true, false), KeyboardCommand::FocusPrevious);
    // Tab still leaves a focused text input.
    assert_eq!(keyboard_command(true, false, &named(NamedKey::Tab), false, true), KeyboardCommand::FocusNext);
}

#[test]
fn enter_and_space_click_and_escape_closes_the_modal() {
    assert_eq!(keyboard_command(true, false, &named(NamedKey::Enter), false, false), KeyboardCommand::ActivateFocused);
    assert_eq!(keyboard_command(true, false, &named(NamedKey::Space), false, false), KeyboardCommand::ActivateFocused);
    assert_eq!(keyboard_command(true, false, &named(NamedKey::Escape), false, true), KeyboardCommand::CloseModal);
    assert_eq!(keyboard_command(true, false, &character("a"), false, false), KeyboardCommand::Ignore);
}

#[test]
fn a_focused_text_input_takes_every_other_key_even_repeated() {
    assert_eq!(keyboard_command(true, false, &named(NamedKey::Enter), false, true), KeyboardCommand::TextInput);
    assert_eq!(keyboard_command(true, true, &named(NamedKey::Backspace), false, true), KeyboardCommand::TextInput);
}

#[test]
fn auto_repeat_never_refires_activation() {
    assert_eq!(keyboard_command(true, true, &named(NamedKey::Enter), false, false), KeyboardCommand::Ignore);
    assert_eq!(keyboard_command(true, true, &named(NamedKey::Tab), false, true), KeyboardCommand::Ignore);
    assert_eq!(keyboard_command(true, true, &named(NamedKey::Escape), false, false), KeyboardCommand::Ignore);
}

#[test]
fn password_inputs_never_take_ime_composition() {
    assert!(!allows_ime(Some("password")));
    assert!(allows_ime(Some("text")));
    assert!(allows_ime(None));
    assert_eq!(
        ime_action(Some("password"), &ImeEvent::Commit("秘密".to_owned())),
        ImeAction::Ignore
    );
}

#[test]
fn ime_commits_insert_like_typed_text() {
    assert_eq!(
        ime_action(Some("text"), &ImeEvent::Commit("日本\n語".to_owned())),
        ImeAction::Commit(TextEditOp::InsertOrReplace("日本語".to_owned()))
    );
    assert_eq!(
        ime_action(Some("text"), &ImeEvent::Preedit("にほ".to_owned(), Some((0, 2)))),
        ImeAction::SetCompose("にほ".to_owned(), Some((0, 2)))
    );
    assert_eq!(ime_action(None, &ImeEvent::Enabled), ImeAction::ClearCompose);
    assert_eq!(ime_action(Some("text"), &ImeEvent::Disabled), ImeAction::ClearCompose);
}
