use florui_platform::accessibility::{prefers_reduced_motion, reduced_motion_from_os};
use florui_platform::gpu::resize_plan;
use florui_platform::input::strip_disallowed_input_chars;
use florui_platform::view::{
    AttrValue, Built, BuiltAttr, BuiltHandler, Node, ViewError, event_name, expand,
};

#[test]
fn an_on_prefixed_attribute_names_an_event() {
    assert_eq!(event_name("onclick"), Some("click"));
    assert_eq!(event_name("onmouseenter"), Some("mouseenter"));
    assert_eq!(event_name("on"), None);
    assert_eq!(event_name("class"), None);
    assert_eq!(event_name("One"), None);
}

#[test]
fn a_capitalized_tag_is_a_component() {
    assert!(Node::is_component("Button"));
    assert!(Node::is_component("Ärger"));
    assert!(!Node::is_component("button"));
    assert!(!Node::is_component(""));
    assert!(!Node::is_component("_x"));
    assert!(!Node::is_component("div"));
}

#[test]
fn single_line_input_drops_newlines_returns_and_tabs() {
    assert_eq!(strip_disallowed_input_chars("a\nb\r\tc"), "abc");
    assert_eq!(strip_disallowed_input_chars("plain text"), "plain text");
    assert_eq!(strip_disallowed_input_chars("\n\n"), "");
}

#[test]
fn no_reduced_motion_preference_without_an_os_api() {
    assert!(!prefers_reduced_motion());
    assert!(reduced_motion_from_os(Some(true)));
    assert!(!reduced_motion_from_os(Some(false)));
    assert!(!reduced_motion_from_os(None));
}

#[test]
fn resize_plan_clamps_to_one_pixel_and_skips_unchanged_sizes() {
    assert_eq!(resize_plan((800, 600), 800, 600), None);
    assert_eq!(resize_plan((800, 600), 1200, 800), Some((1200, 800)));
    assert_eq!(resize_plan((800, 600), 0, 0), Some((1, 1)));
    assert_eq!(resize_plan((1, 1), 0, 0), None);
}

fn lit(s: &str) -> AttrValue {
    AttrValue::Lit(s.to_owned())
}

fn expr(s: &str) -> AttrValue {
    AttrValue::Expr(s.to_owned())
}

fn element(tag: &str, attrs: Vec<(&str, AttrValue)>, children: Vec<Node>) -> Node {
    Node::Element {
        tag: tag.to_owned(),
        attrs: attrs.into_iter().map(|(n, v)| (n.to_owned(), v)).collect(),
        children,
        self_closing: false,
    }
}

fn text(s: &str) -> Node {
    Node::Text(s.to_owned())
}

#[test]
fn an_empty_view_is_a_compile_error() {
    assert_eq!(expand(&vec![]), Err(ViewError::Empty));
    assert_eq!(
        ViewError::Empty.message(),
        "view! requires at least one element or expression"
    );
}

#[test]
fn a_primitive_element_splits_plain_attributes_from_handlers() {
    let nodes = vec![element(
        "button",
        vec![("class", lit("primary")), ("onclick", expr("move || go()")), ("id", expr("name"))],
        vec![text("Go")],
    )];
    let built = expand(&nodes).unwrap();
    assert_eq!(
        built,
        vec![Built::Primitive {
            tag: "button".to_owned(),
            attrs: vec![
                BuiltAttr { name: "class".to_owned(), value: lit("primary"), scope: None },
                BuiltAttr { name: "id".to_owned(), value: expr("name"), scope: None },
            ],
            handlers: vec![BuiltHandler::Handler {
                event: "click".to_owned(),
                expr: "move || go()".to_owned()
            }],
            children: vec![Built::Text("Go".to_owned())],
        }]
    );
}

#[test]
fn a_literal_event_handler_is_a_compile_error() {
    let nodes = vec![element("button", vec![("onclick", lit("go"))], vec![])];
    let built = expand(&nodes).unwrap();
    let Built::Primitive { handlers, .. } = &built[0] else {
        panic!("a lowercase tag is a primitive element");
    };
    assert_eq!(handlers, &vec![BuiltHandler::LiteralError { attr: "onclick".to_owned() }]);
    assert_eq!(
        handlers[0].error_message().unwrap(),
        "event handler attribute `onclick` needs a Rust expression in braces, e.g. `onclick={move || ...}`, not a string literal"
    );
}

#[test]
fn a_scope_is_inherited_by_primitive_descendants_and_applied_to_class() {
    // <div scope={SCOPE} class="outer"><span class="inner" title="t" /></div>
    let nodes = vec![element(
        "div",
        vec![("scope", expr("SCOPE")), ("class", lit("outer"))],
        vec![element("span", vec![("class", lit("inner")), ("title", lit("t"))], vec![])],
    )];
    let built = expand(&nodes).unwrap();
    let Built::Primitive { attrs, children, .. } = &built[0] else {
        panic!("a lowercase tag is a primitive element");
    };
    assert_eq!(
        attrs,
        &vec![BuiltAttr { name: "class".to_owned(), value: lit("outer"), scope: Some(expr("SCOPE")) }]
    );
    let Built::Primitive { attrs: inner, .. } = &children[0] else {
        panic!("a lowercase tag is a primitive element");
    };
    assert_eq!(inner[0].scope, Some(expr("SCOPE")));
    assert_eq!(inner[1].scope, None);
}

#[test]
fn a_component_call_keeps_its_props_unscoped_and_its_key_apart() {
    // <div scope={S}><Card key={7} class="x" title="t"><span class="c" /></Card></div>
    let card = element(
        "Card",
        vec![("key", expr("7")), ("class", lit("x")), ("title", lit("t"))],
        vec![element("span", vec![("class", lit("c"))], vec![])],
    );
    let nodes = vec![element("div", vec![("scope", expr("S"))], vec![card])];
    let built = expand(&nodes).unwrap();
    let Built::Primitive { children, .. } = &built[0] else {
        panic!("a lowercase tag is a primitive element");
    };
    let Built::Component { tag, props, key, children: slotted } = &children[0] else {
        panic!("a capitalized tag is a component call");
    };
    assert_eq!(tag, "Card");
    assert_eq!(props, &vec![("class".to_owned(), lit("x")), ("title".to_owned(), lit("t"))]);
    assert_eq!(key, &Some(expr("7")));
    // Slotted markup keeps the caller's scope.
    let Some(slotted) = slotted else {
        panic!("a non-self-closing call passes children");
    };
    let Built::Primitive { attrs, .. } = &slotted[0] else {
        panic!("a lowercase tag is a primitive element");
    };
    assert_eq!(attrs[0].scope, Some(expr("S")));
}

#[test]
fn a_self_closing_component_call_passes_no_children() {
    let nodes = vec![Node::Element {
        tag: "Icon".to_owned(),
        attrs: vec![],
        children: vec![],
        self_closing: true,
    }];
    let built = expand(&nodes).unwrap();
    assert_eq!(
        built,
        vec![Built::Component { tag: "Icon".to_owned(), props: vec![], key: None, children: None }]
    );
}

#[test]
fn expressions_and_text_are_carried_through() {
    let nodes = vec![Node::Expr("items".to_owned()), text("hi")];
    assert_eq!(
        expand(&nodes).unwrap(),
        vec![Built::Expr("items".to_owned()), Built::Text("hi".to_owned())]
    );
}
