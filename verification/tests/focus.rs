use florui_platform::focus::{FocusNode, focus_order, is_editable_input_type, is_focusable};

fn node(tag: &str, disabled: bool, input_type: Option<&str>) -> FocusNode {
    FocusNode {
        tag: tag.to_owned(),
        disabled,
        input_type: input_type.map(|t| t.to_owned()),
    }
}

fn text() -> FocusNode {
    node("#text", false, None)
}

#[test]
fn only_text_and_password_inputs_are_editable() {
    assert!(is_editable_input_type(Some("text")));
    assert!(is_editable_input_type(Some("password")));
    assert!(!is_editable_input_type(Some("checkbox")));
    assert!(!is_editable_input_type(Some("Text")));
    assert!(!is_editable_input_type(None));
}

#[test]
fn focus_order_collects_only_buttons_in_document_order() {
    // <div><button>First</button><span>Not focusable</span><button>Second</button></div>
    let nodes = [
        node("div", false, None),
        node("button", false, None),
        text(),
        node("span", false, None),
        text(),
        node("button", false, None),
        text(),
    ];
    let order = focus_order(&nodes);
    assert_eq!(order.len(), 2);
    assert_eq!(order[0], 1);
    assert_eq!(order[1], 5);
}

#[test]
fn a_span_is_not_focusable() {
    assert!(!is_focusable(&node("span", false, None)));
}

#[test]
fn a_disabled_button_is_not_focusable() {
    assert!(!is_focusable(&node("button", true, None)));
}

#[test]
fn an_editable_input_is_focusable() {
    assert!(is_focusable(&node("input", false, Some("text"))));
}

#[test]
fn a_checkbox_input_is_not_focusable_in_this_slice() {
    assert!(!is_focusable(&node("input", false, Some("checkbox"))));
}

#[test]
fn a_disabled_input_is_not_focusable() {
    assert!(!is_focusable(&node("input", true, Some("text"))));
}

#[test]
fn an_input_without_a_type_is_not_focusable() {
    assert!(!is_focusable(&node("input", false, None)));
}

#[test]
fn focus_order_excludes_disabled_buttons() {
    // <div><button>First</button><button disabled>Second</button></div>
    let nodes = [
        node("div", false, None),
        node("button", false, None),
        text(),
        node("button", true, None),
        text(),
    ];
    let order = focus_order(&nodes);
    assert_eq!(order.len(), 1);
    assert_eq!(order[0], 1);
}
