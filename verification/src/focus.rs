//! Which nodes take part in keyboard focus traversal, and in what order:
//! a `<button>` or an editable `<input>`, not disabled, in document order,
//! with no `tabindex`.

use vstd::prelude::*;

use crate::text::str_eq;

verus! {

/// `<input>` types that get real text-editing behavior.
pub open spec fn spec_is_editable_input_type(input_type: Option<Seq<char>>) -> bool {
    match input_type {
        Some(t) => t == "text"@ || t == "password"@,
        None => false,
    }
}

/// `<input>` types that get real text-editing behavior (`text` and
/// `password`); a checkbox or radio input never gets a focus stop.
pub fn is_editable_input_type(input_type: Option<&str>) -> (res: bool)
    ensures
        res == spec_is_editable_input_type(match input_type {
            Some(t) => Some(t@),
            None => None,
        }),
{
    match input_type {
        Some(t) => str_eq(t, "text") || str_eq(t, "password"),
        None => false,
    }
}

/// What focus traversal reads of one node of the document.
#[derive(Debug, Clone, PartialEq)]
pub struct FocusNode {
    pub tag: String,
    pub disabled: bool,
    pub input_type: Option<String>,
}

/// A node is focusable when it is not disabled and is a `<button>` or an
/// editable `<input>`.
pub open spec fn spec_is_focusable(node: FocusNode) -> bool {
    &&& !node.disabled
    &&& (node.tag@ == "button"@ || (node.tag@ == "input"@ && spec_is_editable_input_type(
        node.input_type.deep_view(),
    )))
}

/// Whether `node` takes a focus stop.
pub fn is_focusable(node: &FocusNode) -> (res: bool)
    ensures
        res == spec_is_focusable(*node),
{
    if node.disabled {
        return false;
    }
    if str_eq(node.tag.as_str(), "button") {
        return true;
    }
    if str_eq(node.tag.as_str(), "input") {
        let input_type = match &node.input_type {
            Some(t) => Some(t.as_str()),
            None => None,
        };
        return is_editable_input_type(input_type);
    }
    false
}

/// The positions, in increasing order, of the focusable nodes among the
/// first `n` of `nodes`.
pub open spec fn spec_focus_order(nodes: Seq<FocusNode>, n: int) -> Seq<usize>
    decreases n,
{
    if n <= 0 {
        Seq::empty()
    } else if spec_is_focusable(nodes[n - 1]) {
        spec_focus_order(nodes, n - 1).push((n - 1) as usize)
    } else {
        spec_focus_order(nodes, n - 1)
    }
}

/// Every focusable node, in document order (`nodes` is the document in
/// document order; a node is named by its position): both the tab
/// traversal sequence and the candidates for restoring focus.
pub fn focus_order(nodes: &[FocusNode]) -> (order: Vec<usize>)
    ensures
        order@ == spec_focus_order(nodes@, nodes@.len() as int),
{
    let mut order: Vec<usize> = Vec::new();
    let mut i: usize = 0;
    while i < nodes.len()
        invariant
            i <= nodes@.len(),
            order@ == spec_focus_order(nodes@, i as int),
        decreases nodes.len() - i,
    {
        if is_focusable(&nodes[i]) {
            order.push(i);
        }
        i = i + 1;
    }
    order
}

/// The focus order lists exactly the focusable nodes, each once, in
/// document order.
pub proof fn law_focus_order_is_the_focusable_nodes_in_order(nodes: Seq<FocusNode>, n: int)
    requires
        0 <= n <= nodes.len(),
        nodes.len() <= usize::MAX,
    ensures
        forall|i: int, j: int|
            0 <= i < j < spec_focus_order(nodes, n).len() ==> #[trigger] spec_focus_order(nodes, n)[i]
                < #[trigger] spec_focus_order(nodes, n)[j],
        forall|i: int|
            0 <= i < spec_focus_order(nodes, n).len() ==> (#[trigger] spec_focus_order(nodes, n)[i]) < n
                && spec_is_focusable(nodes[spec_focus_order(nodes, n)[i] as int]),
        forall|k: int|
            0 <= k < n && spec_is_focusable(#[trigger] nodes[k]) ==> spec_focus_order(nodes, n).contains(
                k as usize,
            ),
    decreases n,
{
    if n > 0 {
        law_focus_order_is_the_focusable_nodes_in_order(nodes, n - 1);
        let prev = spec_focus_order(nodes, n - 1);
        if spec_is_focusable(nodes[n - 1]) {
            let cur = prev.push((n - 1) as usize);
            assert forall|i: int| 0 <= i < prev.len() implies #[trigger] cur[i] == prev[i] && prev[i] < n - 1 by {
                assert(prev[i] < n - 1);
            }
            assert forall|i: int, j: int| 0 <= i < j < cur.len() implies #[trigger] cur[i] < #[trigger] cur[j] by {
                if j < prev.len() {
                    assert(prev[i] < prev[j]);
                } else {
                    assert(cur[i] == prev[i]);
                }
            }
            assert forall|k: int| 0 <= k < n && spec_is_focusable(#[trigger] nodes[k]) implies cur.contains(
                k as usize,
            ) by {
                if k < n - 1 {
                    let w = choose|w: int| 0 <= w < prev.len() && prev[w] == k as usize;
                    assert(cur[w] == k as usize);
                } else {
                    assert(cur[prev.len() as int] == k as usize);
                }
            }
        }
    }
}

} // verus!

verus! {

/// An enabled `<input>` takes a focus stop exactly when its type gets
/// text-editing behavior ([`is_editable_input_type`]), so enabled text and
/// password inputs are focusable; every enabled button, text input and
/// password input is in the focus order.
pub proof fn law_editable_inputs_are_focus_stops(nodes: Seq<FocusNode>, k: int)
    requires
        0 <= k < nodes.len(),
        nodes.len() <= usize::MAX,
    ensures
        nodes[k].tag@ == "input"@ && !nodes[k].disabled ==> (spec_is_focusable(nodes[k])
            <==> spec_is_editable_input_type(nodes[k].input_type.deep_view())),
        !nodes[k].disabled && (nodes[k].tag@ == "button"@ || (nodes[k].tag@ == "input"@ && (
        nodes[k].input_type.deep_view() == Some("text"@) || nodes[k].input_type.deep_view() == Some(
            "password"@,
        )))) ==> spec_focus_order(nodes, nodes.len() as int).contains(k as usize),
{
    reveal_strlit("input");
    reveal_strlit("button");
    assert("input"@ != "button"@) by {
        assert("input"@[0] != "button"@[0]);
    }
    law_focus_order_is_the_focusable_nodes_in_order(nodes, nodes.len() as int);
}

} // verus!
