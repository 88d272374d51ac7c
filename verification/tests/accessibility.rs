use florui_platform::accessibility::{
    AccessRole, AccessUpdate, AccessibilityTree, DocumentNode, NodeFacts, ROOT_ID, node_semantics,
};

fn facts(tag: &str, text: &str) -> NodeFacts {
    NodeFacts {
        tag: tag.to_owned(),
        input_type: None,
        accessible_label: None,
        text_content: text.to_owned(),
        value_attr: None,
        has_children: false,
        focusable: false,
        disabled: false,
    }
}

fn button(text: &str) -> NodeFacts {
    NodeFacts {
        focusable: true,
        ..facts("button", text)
    }
}

fn input(input_type: &str, value: &str) -> NodeFacts {
    NodeFacts {
        input_type: Some(input_type.to_owned()),
        value_attr: Some(value.to_owned()),
        focusable: true,
        ..facts("input", "")
    }
}

fn doc_node(path: &[usize], facts: NodeFacts, children: &[usize]) -> DocumentNode {
    DocumentNode {
        path: path.to_vec(),
        facts: NodeFacts {
            has_children: !children.is_empty(),
            ..facts
        },
        children: children.to_vec(),
        id_attr: None,
        label_for: None,
    }
}

fn build_once(nodes: &[DocumentNode], roots: &[usize], focused: Option<usize>) -> AccessUpdate {
    let mut tree = AccessibilityTree::new();
    tree.build(nodes, roots, focused)
}

#[test]
fn a_label_with_a_for_attribute_labels_its_targets_accesskit_node() {
    // <div><label for="name-input">Name</label><input id="name-input" type="text" value="hi" /></div>
    let mut label = doc_node(&[0, 0], facts("label", "Name"), &[]);
    label.label_for = Some("name-input".to_owned());
    let mut field = doc_node(&[0, 1], input("text", "hi"), &[]);
    field.id_attr = Some("name-input".to_owned());
    let nodes = vec![doc_node(&[0], facts("div", "Name"), &[1, 2]), label, field];
    let update = build_once(&nodes, &[0], None);
    assert_eq!(update.nodes[2].labelled_by, vec![update.nodes[1].id]);
    assert!(update.nodes[0].labelled_by.is_empty());
    assert!(update.nodes[1].labelled_by.is_empty());
}

#[test]
fn a_label_with_no_matching_for_target_associates_nothing() {
    let mut label = doc_node(&[0], facts("label", "Name"), &[]);
    label.label_for = Some("missing".to_owned());
    let nodes = vec![label];
    let update = build_once(&nodes, &[0], None);
    assert!(update.nodes[0].labelled_by.is_empty());
    assert_eq!(update.nodes[0].semantics.role, AccessRole::Label);
}

#[test]
fn a_button_gets_the_button_role_and_its_text_as_label() {
    let update = build_once(&[doc_node(&[0], button("Go"), &[])], &[0], None);
    let node = &update.nodes[0];
    assert_eq!(node.semantics.role, AccessRole::Button);
    assert_eq!(node.semantics.label.as_deref(), Some("Go"));
    assert!(node.semantics.focus_action);
    assert!(node.semantics.click_action);
}

#[test]
fn an_accessible_label_overrides_an_icon_only_buttons_own_glyph_text() {
    let close = NodeFacts {
        accessible_label: Some("Close".to_owned()),
        ..button("x")
    };
    let update = build_once(&[doc_node(&[0], close, &[])], &[0], None);
    assert_eq!(update.nodes[0].semantics.label.as_deref(), Some("Close"));
}

#[test]
fn a_text_input_gets_the_text_input_role_and_its_value() {
    let update = build_once(&[doc_node(&[0], input("text", "hi"), &[])], &[0], None);
    assert_eq!(update.nodes[0].semantics.role, AccessRole::TextInput);
    assert_eq!(update.nodes[0].semantics.value.as_deref(), Some("hi"));
    assert!(update.nodes[0].semantics.focus_action);
    assert!(!update.nodes[0].semantics.click_action);
}

#[test]
fn a_password_input_gets_the_password_input_role() {
    let update = build_once(&[doc_node(&[0], input("password", "secret"), &[])], &[0], None);
    assert_eq!(update.nodes[0].semantics.role, AccessRole::PasswordInput);
}

#[test]
fn a_leaf_text_node_gets_the_label_role() {
    let update = build_once(&[doc_node(&[0], facts("span", "hello"), &[])], &[0], None);
    assert_eq!(update.nodes[0].semantics.role, AccessRole::Label);
    assert_eq!(update.nodes[0].semantics.value.as_deref(), Some("hello"));
}

#[test]
fn a_div_gets_the_generic_container_role() {
    // <div><span>x</span></div>
    let nodes = vec![
        doc_node(&[0], facts("div", "x"), &[1]),
        doc_node(&[0, 0], facts("span", "x"), &[]),
    ];
    let update = build_once(&nodes, &[0], None);
    assert_eq!(update.nodes[0].semantics.role, AccessRole::GenericContainer);
    assert_eq!(update.nodes[0].semantics.value, None);
    assert_eq!(update.nodes[0].children, vec![update.nodes[1].id]);
}

#[test]
fn an_empty_leaf_is_a_generic_container() {
    let update = build_once(&[doc_node(&[0], facts("div", ""), &[])], &[0], None);
    assert_eq!(update.nodes[0].semantics.role, AccessRole::GenericContainer);
}

#[test]
fn a_disabled_button_is_marked_disabled_and_gets_no_actions() {
    let disabled = NodeFacts {
        disabled: true,
        focusable: false,
        ..button("Go")
    };
    let update = build_once(&[doc_node(&[0], disabled, &[])], &[0], None);
    let s = &update.nodes[0].semantics;
    assert!(s.disabled);
    assert!(!s.focus_action);
    assert!(!s.click_action);
}

#[test]
fn the_root_is_a_window_containing_every_top_level_root() {
    let nodes = vec![
        doc_node(&[0], facts("div", ""), &[]),
        doc_node(&[1], facts("div", ""), &[]),
    ];
    let update = build_once(&nodes, &[0, 1], None);
    assert_eq!(update.root_children.len(), 2);
    assert_eq!(update.root_children, vec![update.nodes[0].id, update.nodes[1].id]);
    assert!(update.nodes.iter().all(|n| n.id != ROOT_ID));
}

#[test]
fn focus_defaults_to_the_root_when_nothing_is_focused() {
    let update = build_once(&[doc_node(&[0], button("Go"), &[])], &[0], None);
    assert_eq!(update.focus, ROOT_ID);
}

#[test]
fn focus_points_at_the_focused_nodes_stable_id() {
    let update = build_once(&[doc_node(&[0], button("Go"), &[])], &[0], Some(0));
    assert_eq!(update.focus, update.nodes[0].id);
}

#[test]
fn the_same_structural_position_gets_the_same_id_across_a_rebuild() {
    let nodes = vec![
        doc_node(&[0], facts("div", "FirstSecond"), &[1, 2]),
        doc_node(&[0, 0], button("First"), &[]),
        doc_node(&[0, 1], button("Second"), &[]),
    ];
    let mut tree = AccessibilityTree::new();
    let first = tree.build(&nodes, &[0], None);
    let second = tree.build(&nodes, &[0], None);
    assert_eq!(first.nodes[2].id, second.nodes[2].id);
    assert_eq!(first, second);
    assert_ne!(first.nodes[1].id, first.nodes[2].id);
    // A rebuild of the same document hands out no fresh id.
    let before = tree.fresh_id();
    tree.build(&nodes, &[0], None);
    assert_eq!(tree.fresh_id(), before);
    assert_eq!(before, 4);
}

#[test]
fn a_removed_nodes_id_is_swept_and_reused_by_nothing_else_incorrectly() {
    let mut tree = AccessibilityTree::new();
    tree.build(&[doc_node(&[0], button("Go"), &[])], &[0], None);
    assert_eq!(tree.len(), 1);
    // The div takes the button's own position: its path replaces the swept entry.
    tree.build(&[doc_node(&[0], facts("div", ""), &[])], &[0], None);
    assert_eq!(tree.len(), 1);
}

#[test]
fn a_new_position_never_takes_an_id_handed_out_before() {
    let mut tree = AccessibilityTree::new();
    let first = tree.build(&[doc_node(&[0], button("Go"), &[])], &[0], None);
    let second = tree.build(&[doc_node(&[1], button("Go"), &[])], &[0], None);
    assert_eq!(tree.len(), 1);
    assert!(second.nodes[0].id > first.nodes[0].id);
}

#[test]
fn stable_ids_are_interned_once_and_swept_by_position() {
    let mut tree = AccessibilityTree::new();
    let a = tree.stable_id(&[0]);
    let b = tree.stable_id(&[0, 1]);
    assert_eq!(a, 1);
    assert_eq!(b, 2);
    assert_eq!(tree.stable_id(&[0]), 1);
    assert_eq!(tree.len(), 2);
    tree.sweep_unseen(&[vec![0, 1]]);
    assert_eq!(tree.len(), 1);
    assert_eq!(tree.stable_id(&[0, 1]), 2);
    assert_eq!(tree.stable_id(&[0]), 3);
}

#[test]
fn node_semantics_of_a_label_with_text() {
    let s = node_semantics(&facts("label", "Name"));
    assert_eq!(s.role, AccessRole::Label);
    assert_eq!(s.value.as_deref(), Some("Name"));
    assert_eq!(s.label, None);
}
