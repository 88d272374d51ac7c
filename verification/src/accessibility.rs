//! OS accessibility preferences and the accessibility tree. The host reads
//! the OS preference; what it means is decided here.

use vstd::prelude::*;

verus! {

/// Whether to reduce motion, given the OS preference as read by the host:
/// `Some(true)` when the OS asks for less motion (client-area animations
/// turned off), `Some(false)` when it does not, `None` where no OS
/// preference API exists. No preference means no reduction.
pub fn reduced_motion_from_os(os_preference: Option<bool>) -> (reduced: bool)
    ensures
        reduced == (os_preference == Some(true)),
{
    match os_preference {
        Some(reduce) => reduce,
        None => false,
    }
}

/// Whether the user asked the OS to reduce motion, on a platform with no
/// OS preference API: never (see [`reduced_motion_from_os`] for a host
/// that reads one).
pub fn prefers_reduced_motion() -> (reduced: bool)
    ensures
        !reduced,
{
    reduced_motion_from_os(None)
}

} // verus!

verus! {

/// The id of the synthetic window root every tree hangs under; never given
/// to a node.
pub const ROOT_ID: u64 = 0;

/// A node's structural position: the child index taken at each level from
/// a root down to the node. Unlike a node's place in a freshly rebuilt
/// document, it survives a rebuild.
pub type StructuralPath = Vec<usize>;

/// The id interned for `path` among `entries` (the latest entry wins).
pub open spec fn lookup(entries: Seq<(Seq<usize>, u64)>, path: Seq<usize>) -> Option<u64>
    decreases entries.len(),
{
    if entries.len() == 0 {
        None
    } else if entries.last().0 == path {
        Some(entries.last().1)
    } else {
        lookup(entries.drop_last(), path)
    }
}

/// `entries` as (position, id) pairs.
pub open spec fn entries_of(entries: Seq<(StructuralPath, u64)>) -> Seq<(Seq<usize>, u64)> {
    entries.map_values(|x: (StructuralPath, u64)| (x.0@, x.1))
}

/// Interns every node's structural position into a stable accessibility
/// id: the same position keeps its id across rebuilds, and a fresh
/// position always gets an id never handed out before (ids only grow; id
/// `0` is the window root's).
pub struct AccessibilityTree {
    interner: Vec<(StructuralPath, u64)>,
    next_id: u64,
}

impl AccessibilityTree {
    /// The interned entries as (position, id) pairs, in insertion order.
    pub closed spec fn entries(&self) -> Seq<(Seq<usize>, u64)> {
        entries_of(self.interner@)
    }

    /// The id the next fresh position gets.
    pub closed spec fn next_id(&self) -> u64 {
        self.next_id
    }

    /// The id interned for `path`, if any.
    pub open spec fn id_of(&self, path: Seq<usize>) -> Option<u64> {
        lookup(self.entries(), path)
    }

    /// The interner's own invariant: every interned id lies between 1 and
    /// the next fresh id, and no position and no id is interned twice.
    pub open spec fn well_formed(&self) -> bool {
        let e = self.entries();
        &&& 1 <= self.next_id()
        &&& forall|i: int| 0 <= i < e.len() ==> 1 <= #[trigger] e[i].1 < self.next_id()
        &&& forall|i: int, j: int| 0 <= i < j < e.len() ==> #[trigger] e[i].1 != #[trigger] e[j].1
        &&& forall|i: int, j: int| 0 <= i < j < e.len() ==> #[trigger] e[i].0 != #[trigger] e[j].0
    }

    /// An empty interner whose first fresh id is 1.
    pub fn new() -> (tree: Self)
        ensures
            tree.well_formed(),
            tree.next_id() == 1,
            forall|p: Seq<usize>| tree.id_of(p) is None,
    {
        let tree = AccessibilityTree { interner: Vec::new(), next_id: 1 };
        assert(tree.entries() =~= Seq::<(Seq<usize>, u64)>::empty());
        tree
    }

    /// How many positions are interned.
    pub fn len(&self) -> (n: usize)
        ensures
            n == self.entries().len(),
    {
        self.interner.len()
    }

    /// The id the next fresh position will get; every id handed out so far
    /// is below it.
    pub fn fresh_id(&self) -> (id: u64)
        ensures
            id == self.next_id(),
    {
        self.next_id
    }

    /// The stable id of `path`: the one already interned for it, or else
    /// the next fresh id, interned from now on.
    pub fn stable_id(&mut self, path: &[usize]) -> (id: u64)
        requires
            old(self).well_formed(),
            old(self).id_of(path@) is Some || old(self).next_id() < u64::MAX,
        ensures
            final(self).well_formed(),
            old(self).id_of(path@) matches Some(known) ==> id == known && final(self).entries()
                == old(self).entries() && final(self).next_id() == old(self).next_id(),
            old(self).id_of(path@) is None ==> id == old(self).next_id() && final(self).entries()
                == old(self).entries().push((path@, id)) && final(self).next_id() == old(
                self,
            ).next_id() + 1,
    {
        let ghost e = self.entries();
        let mut i: usize = self.interner.len();
        assert(e.take(e.len() as int) =~= e);
        while i > 0
            invariant
                i <= self.interner@.len(),
                e == self.entries(),
                self.well_formed(),
                *self == *old(self),
                lookup(e, path@) == lookup(e.take(i as int), path@),
            decreases i,
        {
            assert(e.take(i as int).drop_last() =~= e.take(i - 1));
            if paths_equal(&self.interner[i - 1].0, path) {
                return self.interner[i - 1].1;
            }
            i = i - 1;
        }
        assert(lookup(e, path@) is None);
        let id = self.next_id;
        let mut owned: Vec<usize> = Vec::new();
        let mut k: usize = 0;
        while k < path.len()
            invariant
                k <= path@.len(),
                owned@ == path@.take(k as int),
            decreases path.len() - k,
        {
            owned.push(path[k]);
            assert(owned@ =~= path@.take(k + 1));
            k = k + 1;
        }
        assert(owned@ =~= path@);
        proof {
            lemma_lookup_none_means_absent(e, path@);
        }
        self.interner.push((owned, id));
        self.next_id = self.next_id + 1;
        assert(self.entries() =~= e.push((path@, id)));
        id
    }

    /// Forgets every position not in `seen`: the positions of nodes gone
    /// from the document. Nothing else changes, and the next fresh id stays
    /// where it was, so a forgotten id is never handed out again.
    pub fn sweep_unseen(&mut self, seen: &[StructuralPath])
        requires
            old(self).well_formed(),
        ensures
            final(self).well_formed(),
            final(self).next_id() == old(self).next_id(),
            forall|p: Seq<usize>|
                #[trigger] final(self).id_of(p) == (if seen.deep_view().contains(p) {
                    old(self).id_of(p)
                } else {
                    None
                }),
    {
        let ghost e = self.entries();
        let ghost sv = seen.deep_view();
        let ghost next = self.next_id;
        let mut kept: Vec<(StructuralPath, u64)> = Vec::new();
        let ghost mut idx: Seq<int> = Seq::empty();
        let mut old_entries: Vec<(StructuralPath, u64)> = Vec::new();
        std::mem::swap(&mut old_entries, &mut self.interner);
        let mut i: usize = 0;
        while i < old_entries.len()
            invariant
                i <= old_entries@.len(),
                e == entries_of(old_entries@),
                sv == seen.deep_view(),
                idx.len() == kept@.len(),
                forall|a: int| 0 <= a < idx.len() ==> 0 <= #[trigger] idx[a] < i,
                forall|a: int, b: int| 0 <= a < b < idx.len() ==> #[trigger] idx[a] < #[trigger] idx[b],
                forall|a: int|
                    0 <= a < kept@.len() ==> (#[trigger] kept@[a].0@, kept@[a].1) == e[idx[a]],
                forall|p: Seq<usize>|
                    #[trigger] lookup(
                        entries_of(kept@),
                        p,
                    ) == (if sv.contains(p) {
                        lookup(e.take(i as int), p)
                    } else {
                        None
                    }),
            decreases old_entries.len() - i,
        {
            let ghost kv = entries_of(kept@);
            assert(e.take(i + 1).drop_last() =~= e.take(i as int));
            assert(e.take(i + 1).last() == e[i as int]);
            if contains_path(seen, &old_entries[i].0) {
                let entry = (clone_path(&old_entries[i].0), old_entries[i].1);
                kept.push(entry);
                proof {
                    idx = idx.push(i as int);
                    let kv2 = entries_of(kept@);
                    assert(kv2 =~= kv.push(e[i as int]));
                    assert(kv2.drop_last() =~= kv);
                    assert forall|p: Seq<usize>| #[trigger] lookup(kv2, p) == (if sv.contains(p) {
                        lookup(e.take(i + 1), p)
                    } else {
                        None
                    }) by {
                        assert(lookup(kv, p) == (if sv.contains(p) {
                            lookup(e.take(i as int), p)
                        } else {
                            None
                        }));
                    }
                }
            } else {
                proof {
                    assert forall|p: Seq<usize>| #[trigger] lookup(kv, p) == (if sv.contains(p) {
                        lookup(e.take(i + 1), p)
                    } else {
                        None
                    }) by {
                        if sv.contains(p) && e[i as int].0 == p {
                            assert(sv.contains(e[i as int].0));
                        }
                    }
                }
            }
            i = i + 1;
        }
        assert(e.take(e.len() as int) =~= e);
        self.interner = kept;
        proof {
            let k2 = self.entries();
            assert forall|a: int| 0 <= a < k2.len() implies 1 <= #[trigger] k2[a].1 < self.next_id() by {
                assert(k2[a] == e[idx[a]]);
            }
            assert forall|a: int, b: int| 0 <= a < b < k2.len() implies #[trigger] k2[a].1 != #[trigger] k2[b].1 by {
                assert(k2[a] == e[idx[a]]);
                assert(k2[b] == e[idx[b]]);
            }
            assert forall|a: int, b: int| 0 <= a < b < k2.len() implies #[trigger] k2[a].0 != #[trigger] k2[b].0 by {
                assert(k2[a] == e[idx[a]]);
                assert(k2[b] == e[idx[b]]);
            }
        }
    }
}

/// Whether two positions are the same.
fn paths_equal(a: &StructuralPath, b: &[usize]) -> (res: bool)
    ensures
        res == (a@ == b@),
{
    if a.len() != b.len() {
        return false;
    }
    let mut i: usize = 0;
    while i < a.len()
        invariant
            i <= a@.len(),
            a@.len() == b@.len(),
            forall|k: int| 0 <= k < i ==> a@[k] == b@[k],
        decreases a.len() - i,
    {
        if a[i] != b[i] {
            return false;
        }
        i = i + 1;
    }
    assert(a@ =~= b@);
    true
}

/// A copy of `p`.
fn clone_path(p: &StructuralPath) -> (c: StructuralPath)
    ensures
        c@ == p@,
{
    let mut c: Vec<usize> = Vec::new();
    let mut k: usize = 0;
    while k < p.len()
        invariant
            k <= p@.len(),
            c@ == p@.take(k as int),
        decreases p.len() - k,
    {
        c.push(p[k]);
        assert(c@ =~= p@.take(k + 1));
        k = k + 1;
    }
    assert(c@ =~= p@);
    c
}

/// Whether `p` is among `seen`.
fn contains_path(seen: &[StructuralPath], p: &StructuralPath) -> (res: bool)
    ensures
        res == seen.deep_view().contains(p@),
{
    let mut i: usize = 0;
    while i < seen.len()
        invariant
            i <= seen@.len(),
            forall|k: int| 0 <= k < i ==> seen.deep_view()[k] != p@,
        decreases seen.len() - i,
    {
        if paths_equal(&seen[i], p.as_slice()) {
            assert(seen.deep_view()[i as int] == p@);
            return true;
        }
        assert(seen.deep_view()[i as int] == seen@[i as int]@);
        i = i + 1;
    }
    false
}

/// A position that no entry interns has no entry at all.
proof fn lemma_lookup_none_means_absent(e: Seq<(Seq<usize>, u64)>, p: Seq<usize>)
    ensures
        lookup(e, p) is None ==> forall|i: int| 0 <= i < e.len() ==> #[trigger] e[i].0 != p,
    decreases e.len(),
{
    if e.len() > 0 {
        lemma_lookup_none_means_absent(e.drop_last(), p);
        if lookup(e, p) is None {
            assert forall|i: int| 0 <= i < e.len() implies #[trigger] e[i].0 != p by {
                if i < e.len() - 1 {
                    assert(e.drop_last()[i] == e[i]);
                }
            }
        }
    }
}

} // verus!

verus! {

/// A position that an entry list interns has an entry saying so.
proof fn lemma_lookup_some_has_entry(e: Seq<(Seq<usize>, u64)>, p: Seq<usize>)
    ensures
        lookup(e, p) matches Some(id) ==> exists|i: int| 0 <= i < e.len() && #[trigger] e[i] == (p, id),
    decreases e.len(),
{
    if e.len() > 0 && e.last().0 != p {
        lemma_lookup_some_has_entry(e.drop_last(), p);
        if let Some(id) = lookup(e, p) {
            let i = choose|i: int| 0 <= i < e.drop_last().len() && #[trigger] e.drop_last()[i] == (p, id);
            assert(e[i] == (p, id));
        }
    } else if e.len() > 0 {
        assert(e[e.len() - 1] == (p, e.last().1));
    }
}

/// Stable ids identify positions: two positions never share an id, no
/// interned id is the window root's, and every interned id is below the
/// next fresh id, so a fresh id is never one already (or ever) handed out
/// while its position was interned.
pub proof fn law_ids_identify_positions(tree: AccessibilityTree, p: Seq<usize>, q: Seq<usize>)
    requires
        tree.well_formed(),
    ensures
        tree.id_of(p) matches Some(a) ==> ROOT_ID < a < tree.next_id(),
        tree.id_of(p) is Some && tree.id_of(p) == tree.id_of(q) ==> p == q,
{
    lemma_lookup_some_has_entry(tree.entries(), p);
    lemma_lookup_some_has_entry(tree.entries(), q);
    let e = tree.entries();
    if tree.id_of(p) is Some && tree.id_of(p) == tree.id_of(q) {
        let a = tree.id_of(p)->0;
        let i = choose|i: int| 0 <= i < e.len() && #[trigger] e[i] == (p, a);
        let j = choose|j: int| 0 <= j < e.len() && #[trigger] e[j] == (q, a);
        if i < j {
            assert(e[i].1 != e[j].1);
        } else if j < i {
            assert(e[j].1 != e[i].1);
        }
    }
    if let Some(a) = tree.id_of(p) {
        let i = choose|i: int| 0 <= i < e.len() && #[trigger] e[i] == (p, a);
        assert(1 <= e[i].1 < tree.next_id());
    }
}

// ---------------------------------------------------------------------
// What each node exposes to assistive technology
// ---------------------------------------------------------------------

/// The role a node exposes to assistive technology.
#[derive(Debug, Clone, Copy, PartialEq, Eq, Structural)]
pub enum AccessRole {
    Window,
    GenericContainer,
    Button,
    TextInput,
    PasswordInput,
    Label,
}

/// What the accessibility tree reads of one document node.
#[derive(Debug, Clone, PartialEq)]
pub struct NodeFacts {
    pub tag: String,
    pub input_type: Option<String>,
    /// An author-declared accessible name, overriding the node's text.
    pub accessible_label: Option<String>,
    pub text_content: String,
    pub value_attr: Option<String>,
    pub has_children: bool,
    pub focusable: bool,
    pub disabled: bool,
}

/// What a node exposes: its role, name, value, the actions assistive
/// technology may request, and whether it is disabled.
#[derive(Debug, Clone, PartialEq)]
pub struct NodeSemantics {
    pub role: AccessRole,
    pub label: Option<String>,
    pub value: Option<String>,
    pub focus_action: bool,
    pub click_action: bool,
    pub disabled: bool,
}

/// The semantics owed for `facts`: a button is named by its accessible
/// label, else its text, and offers focus and click when focusable; an
/// input is a text or password input valued by its `value` attribute and
/// offers focus when focusable; a label, or any other childless node, with
/// text is a label valued by that text; everything else is a generic
/// container. A disabled node is marked disabled.
pub open spec fn spec_node_semantics_holds(facts: NodeFacts, s: NodeSemantics) -> bool {
    let tag = facts.tag@;
    let text = facts.text_content@;
    &&& s.disabled == facts.disabled
    &&& if tag == "button"@ {
        &&& s.role == AccessRole::Button
        &&& s.label.deep_view() == Some(
            match facts.accessible_label {
                Some(l) => l@,
                None => text,
            },
        )
        &&& s.value is None
        &&& s.focus_action == facts.focusable
        &&& s.click_action == facts.focusable
    } else if tag == "input"@ {
        &&& s.role == (if facts.input_type.deep_view() == Some("password"@) {
            AccessRole::PasswordInput
        } else {
            AccessRole::TextInput
        })
        &&& s.label is None
        &&& s.value.deep_view() == Some(
            match facts.value_attr {
                Some(v) => v@,
                None => Seq::<char>::empty(),
            },
        )
        &&& s.focus_action == facts.focusable
        &&& !s.click_action
    } else {
        &&& s.role == (if (tag == "label"@ || !facts.has_children) && text.len() > 0 {
            AccessRole::Label
        } else {
            AccessRole::GenericContainer
        })
        &&& s.label is None
        &&& s.value.deep_view() == (if (tag == "label"@ || !facts.has_children) && text.len()
            > 0 {
            Some(text)
        } else {
            None
        })
        &&& !s.focus_action
        &&& !s.click_action
    }
}

fn clone_string(s: &String) -> (c: String)
    ensures
        c@ == s@,
{
    s.clone()
}

/// The role, name, value and actions a node exposes to assistive
/// technology (see [`spec_node_semantics_holds`]).
pub fn node_semantics(facts: &NodeFacts) -> (s: NodeSemantics)
    ensures
        spec_node_semantics_holds(*facts, s),
{
    let tag = facts.tag.as_str();
    if crate::text::str_eq(tag, "button") {
        let label = match &facts.accessible_label {
            Some(l) => clone_string(l),
            None => clone_string(&facts.text_content),
        };
        NodeSemantics {
            role: AccessRole::Button,
            label: Some(label),
            value: None,
            focus_action: facts.focusable,
            click_action: facts.focusable,
            disabled: facts.disabled,
        }
    } else if crate::text::str_eq(tag, "input") {
        let password = match &facts.input_type {
            Some(t) => crate::text::str_eq(t.as_str(), "password"),
            None => false,
        };
        let value = match &facts.value_attr {
            Some(v) => clone_string(v),
            None => String::new(),
        };
        NodeSemantics {
            role: if password {
                AccessRole::PasswordInput
            } else {
                AccessRole::TextInput
            },
            label: None,
            value: Some(value),
            focus_action: facts.focusable,
            click_action: false,
            disabled: facts.disabled,
        }
    } else {
        let is_label = crate::text::str_eq(tag, "label");
        let has_text = crate::text::chars_of(facts.text_content.as_str()).len() > 0;
        if (is_label || !facts.has_children) && has_text {
            NodeSemantics {
                role: AccessRole::Label,
                label: None,
                value: Some(clone_string(&facts.text_content)),
                focus_action: false,
                click_action: false,
                disabled: facts.disabled,
            }
        } else {
            NodeSemantics {
                role: AccessRole::GenericContainer,
                label: None,
                value: None,
                focus_action: false,
                click_action: false,
                disabled: facts.disabled,
            }
        }
    }
}

/// A disabled node offers no action, since a disabled control is never
/// focusable; the role never depends on whether the node is disabled.
pub proof fn law_disabled_controls_offer_no_action(facts: NodeFacts, s: NodeSemantics, t: NodeSemantics)
    requires
        spec_node_semantics_holds(facts, s),
        spec_node_semantics_holds(NodeFacts { disabled: !facts.disabled, ..facts }, t),
        facts.disabled ==> !facts.focusable,
    ensures
        facts.disabled ==> !s.focus_action && !s.click_action,
        s.role == t.role,
{
}

} // verus!

verus! {

// ---------------------------------------------------------------------
// Building the whole tree for one render
// ---------------------------------------------------------------------

/// One node of the document, in document (preorder) position: its
/// structural position, what its semantics are read from, its children
/// (positions in the same list), its `id` attribute and, for a `<label>`,
/// the `for` attribute naming the control it labels.
#[derive(Debug, Clone, PartialEq)]
pub struct DocumentNode {
    pub path: StructuralPath,
    pub facts: NodeFacts,
    pub children: Vec<usize>,
    pub id_attr: Option<String>,
    pub label_for: Option<String>,
}

/// One node of the accessibility tree: its stable id, its semantics, the
/// ids of its children, and the ids of the labels that name it.
#[derive(Debug, Clone, PartialEq)]
pub struct AccessNode {
    pub id: u64,
    pub semantics: NodeSemantics,
    pub children: Vec<u64>,
    pub labelled_by: Vec<u64>,
}

/// A complete tree for one render. `nodes[i]` stands for the document's
/// node `i`; the synthetic window root (id [`ROOT_ID`]) holds
/// `root_children`; `focus` is the focused node's id, or the root's.
#[derive(Debug, Clone, PartialEq)]
pub struct AccessUpdate {
    pub nodes: Vec<AccessNode>,
    pub root_children: Vec<u64>,
    pub focus: u64,
}

/// The last of the first `n` nodes whose `id` attribute is `name`.
pub open spec fn spec_resolve_id(nodes: Seq<DocumentNode>, name: Seq<char>, n: int) -> Option<int>
    decreases n,
{
    if n <= 0 {
        None
    } else if nodes[n - 1].id_attr.deep_view() == Some(name) {
        Some(n - 1)
    } else {
        spec_resolve_id(nodes, name, n - 1)
    }
}

/// The node that node `l` labels: for a `<label>` whose `for` attribute
/// names an `id` in the document, the last node with that `id`.
pub open spec fn spec_label_target(nodes: Seq<DocumentNode>, l: int) -> Option<int> {
    if nodes[l].facts.tag@ == "label"@ {
        match nodes[l].label_for.deep_view() {
            Some(name) => spec_resolve_id(nodes, name, nodes.len() as int),
            None => None,
        }
    } else {
        None
    }
}

/// The labels among the first `n` nodes that label node `t`, in document
/// order.
pub open spec fn spec_labels_of(nodes: Seq<DocumentNode>, t: int, n: int) -> Seq<int>
    decreases n,
{
    if n <= 0 {
        Seq::empty()
    } else if spec_label_target(nodes, n - 1) == Some(t) {
        spec_labels_of(nodes, t, n - 1).push(n - 1)
    } else {
        spec_labels_of(nodes, t, n - 1)
    }
}

/// The structural positions of `nodes`.
pub open spec fn spec_paths(nodes: Seq<DocumentNode>) -> Seq<Seq<usize>> {
    nodes.map_values(|n: DocumentNode| n.path@)
}

/// Every child and root position names a node of the document, and a
/// focused node is one of them.
pub open spec fn document_is_closed(nodes: Seq<DocumentNode>, roots: Seq<usize>, focused: Option<usize>) -> bool {
    &&& forall|i: int, k: int|
        0 <= i < nodes.len() && 0 <= k < nodes[i].children.len() ==> #[trigger] nodes[i].children@[k]
            < nodes.len()
    &&& forall|k: int| 0 <= k < roots.len() ==> #[trigger] roots[k] < nodes.len()
    &&& focused matches Some(f) ==> f < nodes.len()
}

/// What one render's build owes: every node gets the stable id of its
/// position (the one already interned, else a fresh one from the next
/// fresh id on), the interner then holds exactly the document's positions,
/// and each node carries its semantics, its children's ids and its labels'
/// ids; the window root holds the roots' ids, and the focus is the focused
/// node's id or the root's. The next fresh id grows by at most one per
/// node.
pub open spec fn spec_build_holds(
    before: AccessibilityTree,
    after: AccessibilityTree,
    nodes: Seq<DocumentNode>,
    roots: Seq<usize>,
    focused: Option<usize>,
    update: AccessUpdate,
) -> bool {
    &&& update.nodes.len() == nodes.len()
    &&& before.next_id() <= after.next_id() <= before.next_id() + nodes.len()
    &&& (forall|i: int| 0 <= i < nodes.len() ==> (#[trigger] before.id_of(nodes[i].path@)) is Some)
        ==> after.next_id() == before.next_id()
    &&& forall|i: int|
        0 <= i < nodes.len() ==> after.id_of(#[trigger] nodes[i].path@) == Some(update.nodes[i].id)
    &&& forall|i: int|
        0 <= i < nodes.len() ==> match before.id_of(#[trigger] nodes[i].path@) {
            Some(known) => update.nodes[i].id == known,
            None => before.next_id() <= update.nodes[i].id,
        }
    &&& forall|p: Seq<usize>| #[trigger] after.id_of(p) is Some <==> spec_paths(nodes).contains(p)
    &&& forall|i: int|
        0 <= i < nodes.len() ==> spec_node_semantics_holds(
            nodes[i].facts,
            #[trigger] update.nodes[i].semantics,
        )
    &&& forall|i: int|
        0 <= i < nodes.len() ==> (#[trigger] update.nodes[i]).children@
            == nodes[i].children@.map_values(|c: usize| update.nodes[c as int].id)
    &&& forall|i: int|
        0 <= i < nodes.len() ==> (#[trigger] update.nodes[i]).labelled_by@ == spec_labels_of(
            nodes,
            i,
            nodes.len() as int,
        ).map_values(|l: int| update.nodes[l].id)
    &&& update.root_children@ == roots.map_values(|r: usize| update.nodes[r as int].id)
    &&& update.focus == match focused {
        Some(f) => update.nodes[f as int].id,
        None => ROOT_ID,
    }
}

/// Appending an entry makes it the one found for its position.
proof fn lemma_lookup_push(e: Seq<(Seq<usize>, u64)>, q: Seq<usize>, v: u64, p: Seq<usize>)
    ensures
        lookup(e.push((q, v)), p) == (if q == p {
            Some(v)
        } else {
            lookup(e, p)
        }),
{
    assert(e.push((q, v)).drop_last() =~= e);
}

/// The ids of the nodes at `positions`.
fn ids_at(positions: &[usize], ids: &Vec<u64>) -> (r: Vec<u64>)
    requires
        forall|k: int| 0 <= k < positions.len() ==> #[trigger] positions[k] < ids.len(),
    ensures
        r@ == positions@.map_values(|c: usize| ids@[c as int]),
{
    let mut r: Vec<u64> = Vec::new();
    let mut k: usize = 0;
    while k < positions.len()
        invariant
            k <= positions.len(),
            forall|j: int| 0 <= j < positions.len() ==> #[trigger] positions[j] < ids.len(),
            r@ == positions@.take(k as int).map_values(|c: usize| ids@[c as int]),
        decreases positions.len() - k,
    {
        r.push(ids[positions[k]]);
        assert(positions@.take(k + 1) =~= positions@.take(k as int).push(positions[k as int]));
        assert(r@ =~= positions@.take(k + 1).map_values(|c: usize| ids@[c as int]));
        k = k + 1;
    }
    assert(positions@.take(positions.len() as int) =~= positions@);
    r
}

/// The last node whose `id` attribute is `name`.
fn resolve_id(nodes: &[DocumentNode], name: &str) -> (r: Option<usize>)
    ensures
        match r {
            Some(k) => spec_resolve_id(nodes@, name@, nodes.len() as int) == Some(k as int),
            None => spec_resolve_id(nodes@, name@, nodes.len() as int) is None,
        },
{
    let mut i: usize = nodes.len();
    while i > 0
        invariant
            i <= nodes.len(),
            spec_resolve_id(nodes@, name@, nodes.len() as int) == spec_resolve_id(nodes@, name@, i as int),
        decreases i,
    {
        let hit = match &nodes[i - 1].id_attr {
            Some(a) => crate::text::str_eq(a.as_str(), name),
            None => false,
        };
        if hit {
            return Some(i - 1);
        }
        i = i - 1;
    }
    None
}

/// The node that node `l` labels (see [`spec_label_target`]).
fn label_target(nodes: &[DocumentNode], l: usize) -> (r: Option<usize>)
    requires
        l < nodes.len(),
    ensures
        match r {
            Some(k) => spec_label_target(nodes@, l as int) == Some(k as int),
            None => spec_label_target(nodes@, l as int) is None,
        },
{
    if !crate::text::str_eq(nodes[l].facts.tag.as_str(), "label") {
        return None;
    }
    match &nodes[l].label_for {
        Some(name) => resolve_id(nodes, name.as_str()),
        None => None,
    }
}

/// The ids of the labels that label node `t`, in document order.
fn labels_of(nodes: &[DocumentNode], targets: &Vec<Option<usize>>, ids: &Vec<u64>, t: usize) -> (r: Vec<u64>)
    requires
        targets.len() == nodes.len(),
        ids.len() == nodes.len(),
        forall|l: int|
            0 <= l < nodes.len() ==> match #[trigger] targets@[l] {
                Some(k) => spec_label_target(nodes@, l) == Some(k as int),
                None => spec_label_target(nodes@, l) is None,
            },
    ensures
        r@ == spec_labels_of(nodes@, t as int, nodes.len() as int).map_values(|l: int| ids@[l]),
{
    let mut r: Vec<u64> = Vec::new();
    let mut l: usize = 0;
    while l < nodes.len()
        invariant
            l <= nodes.len(),
            targets.len() == nodes.len(),
            ids.len() == nodes.len(),
            forall|j: int|
                0 <= j < nodes.len() ==> match #[trigger] targets@[j] {
                    Some(k) => spec_label_target(nodes@, j) == Some(k as int),
                    None => spec_label_target(nodes@, j) is None,
                },
            r@ == spec_labels_of(nodes@, t as int, l as int).map_values(|j: int| ids@[j]),
        decreases nodes.len() - l,
    {
        let hit = match targets[l] {
            Some(k) => k == t,
            None => false,
        };
        assert(hit == (spec_label_target(nodes@, l as int) == Some(t as int))) by {
            assert(targets@[l as int] == targets[l as int]);
        }
        if hit {
            r.push(ids[l]);
            assert(r@ =~= spec_labels_of(nodes@, t as int, l + 1).map_values(|j: int| ids@[j]));
        } else {
            assert(r@ =~= spec_labels_of(nodes@, t as int, l + 1).map_values(|j: int| ids@[j]));
        }
        l = l + 1;
    }
    r
}

impl AccessibilityTree {
    /// Builds the whole tree for one render of `nodes` (the document in
    /// preorder, with `roots` its top-level nodes): every node gets the
    /// stable id of its structural position, the semantics of
    /// [`node_semantics`], its children's ids and the ids of the labels
    /// that name it; positions no longer in the document are forgotten;
    /// the focus is the focused node's id, or the window root's.
    pub fn build(&mut self, nodes: &[DocumentNode], roots: &[usize], focused: Option<usize>) -> (update: AccessUpdate)
        requires
            old(self).well_formed(),
            old(self).next_id() + nodes.len() < u64::MAX,
            document_is_closed(nodes@, roots@, focused),
        ensures
            final(self).well_formed(),
            spec_build_holds(*old(self), *final(self), nodes@, roots@, focused, update),
    {
        let ghost start = *self;
        let n = nodes.len();
        // Stable ids, interned in document order.
        let mut ids: Vec<u64> = Vec::new();
        let mut i: usize = 0;
        while i < n
            invariant
                n == nodes.len(),
                i <= n,
                self.well_formed(),
                start.well_formed(),
                start.next_id() + n < u64::MAX,
                ids.len() == i,
                start.next_id() <= self.next_id() <= start.next_id() + i,
                (forall|k: int| 0 <= k < i ==> (#[trigger] start.id_of(nodes[k].path@)) is Some)
                    ==> self.next_id() == start.next_id(),
                forall|k: int| 0 <= k < i ==> self.id_of(#[trigger] nodes[k].path@) == Some(ids@[k]),
                forall|k: int|
                    0 <= k < i ==> match start.id_of(#[trigger] nodes[k].path@) {
                        Some(known) => ids@[k] == known,
                        None => start.next_id() <= ids@[k],
                    },
                forall|p: Seq<usize>| #[trigger] start.id_of(p) is Some ==> self.id_of(p) == start.id_of(p),
                forall|p: Seq<usize>|
                    #[trigger] self.id_of(p) is Some && start.id_of(p) is None ==> start.next_id()
                        <= self.id_of(p)->0,
            decreases n - i,
        {
            let ghost before = *self;
            let id = self.stable_id(nodes[i].path.as_slice());
            proof {
                let q = nodes[i as int].path@;
                if before.id_of(q) is None {
                    assert forall|p: Seq<usize>| #[trigger] self.id_of(p) == (if q == p {
                        Some(id)
                    } else {
                        before.id_of(p)
                    }) by {
                        lemma_lookup_push(before.entries(), q, id, p);
                    }
                }
            }
            ids.push(id);
            i = i + 1;
        }
        // Forget the positions that are gone.
        let mut seen: Vec<StructuralPath> = Vec::new();
        let mut k: usize = 0;
        while k < n
            invariant
                n == nodes.len(),
                k <= n,
                seen@.len() == k,
                forall|x: int| 0 <= x < k ==> (#[trigger] seen@[x])@ == nodes[x].path@,
            decreases n - k,
        {
            seen.push(clone_path(&nodes[k].path));
            k = k + 1;
        }
        assert forall|x: int| 0 <= x < n implies #[trigger] seen.deep_view()[x] == spec_paths(nodes@)[x] by {
            assert(seen@[x].deep_view() =~= seen@[x]@);
        }
        assert(seen.deep_view() =~= spec_paths(nodes@));
        let ghost interned = *self;
        self.sweep_unseen(seen.as_slice());
        proof {
            assert forall|i: int| 0 <= i < n implies self.id_of(#[trigger] nodes[i].path@) == Some(
                ids@[i],
            ) by {
                assert(spec_paths(nodes@)[i] == nodes[i].path@);
            }
            assert forall|p: Seq<usize>| #[trigger] self.id_of(p) is Some <==> spec_paths(
                nodes@,
            ).contains(p) by {
                if spec_paths(nodes@).contains(p) {
                    let j = choose|j: int| 0 <= j < n && spec_paths(nodes@)[j] == p;
                    assert(interned.id_of(nodes[j].path@) == Some(ids@[j]));
                }
            }
        }
        // Where each label points.
        let mut targets: Vec<Option<usize>> = Vec::new();
        let mut l: usize = 0;
        while l < n
            invariant
                n == nodes.len(),
                l <= n,
                targets.len() == l,
                forall|j: int|
                    0 <= j < l ==> match #[trigger] targets@[j] {
                        Some(t) => spec_label_target(nodes@, j) == Some(t as int),
                        None => spec_label_target(nodes@, j) is None,
                    },
            decreases n - l,
        {
            targets.push(label_target(nodes, l));
            l = l + 1;
        }
        // The nodes themselves.
        let mut out: Vec<AccessNode> = Vec::new();
        let mut j: usize = 0;
        while j < n
            invariant
                n == nodes.len(),
                j <= n,
                ids.len() == n,
                targets.len() == n,
                out.len() == j,
                document_is_closed(nodes@, roots@, focused),
                forall|x: int|
                    0 <= x < n ==> match #[trigger] targets@[x] {
                        Some(t) => spec_label_target(nodes@, x) == Some(t as int),
                        None => spec_label_target(nodes@, x) is None,
                    },
                forall|x: int| 0 <= x < j ==> (#[trigger] out@[x]).id == ids@[x],
                forall|x: int|
                    0 <= x < j ==> spec_node_semantics_holds(nodes[x].facts, (#[trigger] out@[x]).semantics),
                forall|x: int|
                    0 <= x < j ==> (#[trigger] out@[x]).children@ == nodes[x].children@.map_values(
                        |c: usize| ids@[c as int],
                    ),
                forall|x: int|
                    0 <= x < j ==> (#[trigger] out@[x]).labelled_by@ == spec_labels_of(
                        nodes@,
                        x,
                        n as int,
                    ).map_values(|y: int| ids@[y]),
            decreases n - j,
        {
            let semantics = node_semantics(&nodes[j].facts);
            proof {
                assert forall|c: int| 0 <= c < nodes[j as int].children.len() implies #[trigger] nodes[j as int].children@[c]
                    < ids.len() by {
                    assert(nodes[j as int].children@[c] < nodes.len());
                }
            }
            let children = ids_at(nodes[j].children.as_slice(), &ids);
            let labelled_by = labels_of(nodes, &targets, &ids, j);
            out.push(AccessNode { id: ids[j], semantics, children, labelled_by });
            j = j + 1;
        }
        let root_children = ids_at(roots, &ids);
        let focus = match focused {
            Some(f) => ids[f],
            None => ROOT_ID,
        };
        let update = AccessUpdate { nodes: out, root_children, focus };
        proof {
            assert forall|x: int| 0 <= x < n implies (#[trigger] update.nodes[x]).children@
                == nodes[x].children@.map_values(|c: usize| update.nodes[c as int].id) by {
                assert(update.nodes[x].children@ =~= nodes[x].children@.map_values(
                    |c: usize| update.nodes[c as int].id,
                ));
            }
            assert forall|x: int| 0 <= x < n implies (#[trigger] update.nodes[x]).labelled_by@
                == spec_labels_of(nodes@, x, n as int).map_values(|y: int| update.nodes[y].id) by {
                lemma_labels_in_range(nodes@, x, n as int);
                assert(update.nodes[x].labelled_by@ =~= spec_labels_of(nodes@, x, n as int).map_values(
                    |y: int| update.nodes[y].id,
                ));
            }
            assert(update.root_children@ =~= roots@.map_values(|r: usize| update.nodes[r as int].id));
        }
        update
    }
}

/// Every label of a node lies among the nodes it was collected from.
proof fn lemma_labels_in_range(nodes: Seq<DocumentNode>, t: int, n: int)
    ensures
        forall|k: int| 0 <= k < spec_labels_of(nodes, t, n).len() ==> 0 <= #[trigger] spec_labels_of(nodes, t, n)[k] < n,
    decreases n,
{
    if n > 0 {
        lemma_labels_in_range(nodes, t, n - 1);
        let prev = spec_labels_of(nodes, t, n - 1);
        if spec_label_target(nodes, n - 1) == Some(t) {
            assert forall|k: int| 0 <= k < prev.push(n - 1).len() implies 0 <= #[trigger] prev.push(n - 1)[k] < n by {
                if k < prev.len() {
                    assert(prev.push(n - 1)[k] == prev[k]);
                }
            }
        }
    }
}

} // verus!

verus! {

/// Rebuilding the same document keeps every node's id (the same
/// structural position gets the same id across renders) and hands out no
/// fresh id, so rebuilding never runs the ids out.
pub proof fn law_rebuild_keeps_ids(
    t0: AccessibilityTree,
    t1: AccessibilityTree,
    t2: AccessibilityTree,
    nodes: Seq<DocumentNode>,
    roots: Seq<usize>,
    focused: Option<usize>,
    first: AccessUpdate,
    second: AccessUpdate,
)
    requires
        spec_build_holds(t0, t1, nodes, roots, focused, first),
        spec_build_holds(t1, t2, nodes, roots, focused, second),
        document_is_closed(nodes, roots, focused),
    ensures
        forall|i: int| 0 <= i < nodes.len() ==> #[trigger] second.nodes[i].id == first.nodes[i].id,
        second.focus == first.focus,
        t2.next_id() == t1.next_id(),
{
    assert forall|i: int| 0 <= i < nodes.len() implies (#[trigger] t1.id_of(nodes[i].path@)) is Some by {
        assert(t1.id_of(nodes[i].path@) == Some(first.nodes[i].id));
    }
    assert forall|i: int| 0 <= i < nodes.len() implies #[trigger] second.nodes[i].id == first.nodes[i].id by {
        assert(t1.id_of(nodes[i].path@) == Some(first.nodes[i].id));
    }
    if let Some(f) = focused {
        assert(t1.id_of(nodes[f as int].path@) == Some(first.nodes[f as int].id));
    }
}

/// After a render the interner holds exactly the positions of that render's
/// document, so a node removed from the document is forgotten; and a
/// position new to the document never gets an id that was handed out
/// before.
pub proof fn law_removed_positions_are_forgotten(
    t0: AccessibilityTree,
    t1: AccessibilityTree,
    nodes: Seq<DocumentNode>,
    roots: Seq<usize>,
    focused: Option<usize>,
    update: AccessUpdate,
    gone: Seq<usize>,
)
    requires
        t0.well_formed(),
        spec_build_holds(t0, t1, nodes, roots, focused, update),
        !spec_paths(nodes).contains(gone),
    ensures
        t1.id_of(gone) is None,
        forall|i: int|
            0 <= i < nodes.len() && t0.id_of(#[trigger] nodes[i].path@) is None ==> forall|p: Seq<usize>|
                #[trigger] t0.id_of(p) != Some(update.nodes[i].id),
{
    assert forall|i: int|
        0 <= i < nodes.len() && t0.id_of(#[trigger] nodes[i].path@) is None implies forall|p: Seq<usize>|
            #[trigger] t0.id_of(p) != Some(update.nodes[i].id) by {
        assert forall|p: Seq<usize>| #[trigger] t0.id_of(p) != Some(update.nodes[i].id) by {
            law_ids_identify_positions(t0, p, p);
        }
    }
}

/// Within one render, nodes at different positions get different ids,
/// and none gets the window root's.
pub proof fn law_positions_get_distinct_ids(
    t0: AccessibilityTree,
    t1: AccessibilityTree,
    nodes: Seq<DocumentNode>,
    roots: Seq<usize>,
    focused: Option<usize>,
    update: AccessUpdate,
    i: int,
    j: int,
)
    requires
        t1.well_formed(),
        spec_build_holds(t0, t1, nodes, roots, focused, update),
        0 <= i < nodes.len(),
        0 <= j < nodes.len(),
    ensures
        update.nodes[i].id != ROOT_ID,
        nodes[i].path@ != nodes[j].path@ ==> update.nodes[i].id != update.nodes[j].id,
{
    law_ids_identify_positions(t1, nodes[i].path@, nodes[j].path@);
}

} // verus!

verus! {

/// Across renders of different documents, a node at a position the
/// previous render also had gets that render's id for it; and the second
/// render may always follow the first while the ids last, since a render
/// hands out at most one fresh id per node.
pub proof fn law_positions_keep_ids_across_documents(
    t0: AccessibilityTree,
    t1: AccessibilityTree,
    t2: AccessibilityTree,
    nodes1: Seq<DocumentNode>,
    nodes2: Seq<DocumentNode>,
    roots1: Seq<usize>,
    roots2: Seq<usize>,
    focused1: Option<usize>,
    focused2: Option<usize>,
    first: AccessUpdate,
    second: AccessUpdate,
    i: int,
    j: int,
)
    requires
        spec_build_holds(t0, t1, nodes1, roots1, focused1, first),
        spec_build_holds(t1, t2, nodes2, roots2, focused2, second),
        0 <= i < nodes2.len(),
        0 <= j < nodes1.len(),
        nodes2[i].path@ == nodes1[j].path@,
    ensures
        second.nodes[i].id == first.nodes[j].id,
        t1.next_id() <= t0.next_id() + nodes1.len(),
{
    assert(t1.id_of(nodes1[j].path@) == Some(first.nodes[j].id));
    assert(t1.id_of(nodes2[i].path@) == Some(first.nodes[j].id));
}

} // verus!

verus! {

/// A `<label>` with text has the label role and its text as value, whether
/// or not it has element children (a label such as `Email <span>*</span>`
/// keeps both), and offers no action.
pub proof fn law_labels_with_text_are_labels(facts: NodeFacts, s: NodeSemantics)
    requires
        spec_node_semantics_holds(facts, s),
        facts.tag@ == "label"@,
        facts.text_content@.len() > 0,
    ensures
        s.role == AccessRole::Label,
        s.value.deep_view() == Some(facts.text_content@),
        !s.focus_action && !s.click_action,
{
    reveal_strlit("label");
    reveal_strlit("button");
    reveal_strlit("input");
    assert("label"@ != "button"@) by {
        assert("label"@[0] != "button"@[0]);
    }
    assert("label"@ != "input"@) by {
        assert("label"@[0] != "input"@[0]);
    }
}

} // verus!
