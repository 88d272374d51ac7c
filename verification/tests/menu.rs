use florui_platform::menu::menu_label;

#[test]
fn a_label_with_no_shortcut_is_unchanged() {
    assert_eq!(menu_label("Save", None), "Save");
}

#[test]
fn a_label_with_a_shortcut_gets_a_tab_separated_suffix() {
    assert_eq!(menu_label("Save", Some("Ctrl+S")), "Save\tCtrl+S");
}

#[test]
fn an_empty_shortcut_still_gets_its_tab() {
    assert_eq!(menu_label("Open", Some("")), "Open\t");
}
