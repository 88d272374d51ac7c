//! The `view!` markup and what each piece of it builds. A body is a list
//! of nodes: `{expr}` children, bare text, and tags. A lowercase tag is a
//! primitive element built with `Element::node` (or `node_with_handlers`
//! once it has event handlers); a capitalized tag is a component call
//! building `<Tag>Props` from its attributes. Rust expressions written in
//! braces are carried as their source text, untouched.
//!
//! Lowering decides, for every node, what the generated code builds: which
//! attributes are plain attributes and which are event handlers, where a
//! `scope={...}` directive applies (inherited by every primitive
//! descendant, never reaching inside a component's own body), and how a
//! component call's `key={...}` and children are passed.

use vstd::prelude::*;

use crate::text::{chars_of, str_eq};

verus! {

// ---------------------------------------------------------------------
// Attribute names
// ---------------------------------------------------------------------

/// The event an attribute name stands for: the text after a leading `on`,
/// when there is any.
pub open spec fn spec_event_name(attr_name: Seq<char>) -> Option<Seq<char>> {
    if attr_name.len() > 2 && attr_name[0] == 'o' && attr_name[1] == 'n' {
        Some(attr_name.skip(2))
    } else {
        None
    }
}

/// `onclick`, `onmouseenter`, ...: any attribute of this shape names an
/// event handler rather than a plain string attribute; there is no fixed
/// list of recognized event names.
pub fn event_name(attr_name: &str) -> (res: Option<&str>)
    ensures
        match res {
            Some(e) => spec_event_name(attr_name@) == Some(e@),
            None => spec_event_name(attr_name@) is None,
        },
{
    let v = chars_of(attr_name);
    if v.len() > 2 && v[0] == 'o' && v[1] == 'n' {
        Some(attr_name.substring_char(2, v.len()))
    } else {
        None
    }
}

/// An event name and `on` give back the attribute it came from, so two
/// different attributes never name the same event.
pub proof fn law_event_name_round_trip(attr_name: Seq<char>)
    ensures
        spec_event_name(attr_name) matches Some(e) ==> seq!['o', 'n'] + e == attr_name && e.len() > 0,
{
    if let Some(e) = spec_event_name(attr_name) {
        assert(seq!['o', 'n'] + e =~= attr_name);
    }
}

/// `char::is_uppercase`: the Unicode `Uppercase` property of a character.
pub uninterp spec fn is_uppercase_char(c: char) -> bool;

/// `char::is_uppercase`. Whether `c` has the Unicode `Uppercase` property
/// is named, not spelled out; the ASCII cases are stated: `A`-`Z` are
/// uppercase and no other ASCII character is.
#[verifier::external_body]
fn char_is_uppercase(c: char) -> (res: bool)
    ensures
        res == is_uppercase_char(c),
        (c as u32) < 128 ==> (res <==> (65 <= (c as u32) && (c as u32) <= 90)),
{
    c.is_uppercase()
}

/// A tag starting with an uppercase letter names a component.
pub open spec fn spec_is_component_tag(tag: Seq<char>) -> bool {
    tag.len() > 0 && is_uppercase_char(tag[0])
}

// ---------------------------------------------------------------------
// The markup
// ---------------------------------------------------------------------

/// An attribute's value as written: a string literal, or a Rust expression
/// in braces (its source text).
#[derive(Debug, Clone, PartialEq)]
pub enum AttrValue {
    Lit(String),
    Expr(String),
}

/// An attribute value as text.
pub enum AttrValueView {
    Lit(Seq<char>),
    Expr(Seq<char>),
}

impl View for AttrValue {
    type V = AttrValueView;

    open spec fn view(&self) -> AttrValueView {
        match self {
            AttrValue::Lit(s) => AttrValueView::Lit(s@),
            AttrValue::Expr(s) => AttrValueView::Expr(s@),
        }
    }
}

/// One node of a `view!` body.
#[derive(Debug, PartialEq)]
pub enum Node {
    /// A `{expr}` child: a Rust expression contributing zero or more
    /// sibling elements.
    Expr(String),
    /// A run of bare text between tags.
    Text(String),
    /// A tag with its attributes in order; a self-closing tag has no
    /// children.
    Element { tag: String, attrs: Vec<(String, AttrValue)>, children: Vec<Node>, self_closing: bool },
}

impl Node {
    /// A capitalized tag is a component call; a lowercase one is a
    /// primitive element. For a tag starting with an ASCII character, only
    /// `A`-`Z` make it a component, so `div` or `button` is a primitive
    /// element; an empty tag is never a component.
    pub fn is_component(tag: &str) -> (res: bool)
        ensures
            res == spec_is_component_tag(tag@),
            tag@.len() == 0 ==> !res,
            tag@.len() > 0 && (tag@[0] as u32) < 128 ==> (res <==> (65 <= (tag@[0] as u32) && (tag@[0]
                as u32) <= 90)),
    {
        let v = chars_of(tag);
        if v.len() == 0 {
            false
        } else {
            char_is_uppercase(v[0])
        }
    }
}

/// An attribute as (name, value) text.
pub open spec fn attr_view(a: (String, AttrValue)) -> (Seq<char>, AttrValueView) {
    (a.0@, a.1@)
}

/// Attributes as (name, value) text, in order.
pub open spec fn attrs_view(attrs: Seq<(String, AttrValue)>) -> Seq<(Seq<char>, AttrValueView)> {
    attrs.map_values(|a: (String, AttrValue)| attr_view(a))
}

// ---------------------------------------------------------------------
// What the generated code builds
// ---------------------------------------------------------------------

/// A plain attribute of a primitive element. A `class` attribute inside a
/// scope carries that scope, which the generated code applies to each of
/// its class names.
#[derive(Debug, Clone, PartialEq)]
pub struct BuiltAttr {
    pub name: String,
    pub value: AttrValue,
    pub scope: Option<AttrValue>,
}

/// A plain attribute as text.
pub struct BuiltAttrView {
    pub name: Seq<char>,
    pub value: AttrValueView,
    pub scope: Option<AttrValueView>,
}

impl View for BuiltAttr {
    type V = BuiltAttrView;

    open spec fn view(&self) -> BuiltAttrView {
        BuiltAttrView {
            name: self.name@,
            value: self.value@,
            scope: match self.scope {
                Some(s) => Some(s@),
                None => None,
            },
        }
    }
}

/// An event handler of a primitive element.
#[derive(Debug, Clone, PartialEq)]
pub enum BuiltHandler {
    /// The handler expression for `event`.
    Handler { event: String, expr: String },
    /// An `on...` attribute given a string literal: a compile error,
    /// since a handler must be a Rust expression.
    LiteralError { attr: String },
}

/// An event handler as text.
pub enum BuiltHandlerView {
    Handler { event: Seq<char>, expr: Seq<char> },
    LiteralError { attr: Seq<char> },
}

impl View for BuiltHandler {
    type V = BuiltHandlerView;

    open spec fn view(&self) -> BuiltHandlerView {
        match self {
            BuiltHandler::Handler { event, expr } => BuiltHandlerView::Handler { event: event@, expr: expr@ },
            BuiltHandler::LiteralError { attr } => BuiltHandlerView::LiteralError { attr: attr@ },
        }
    }
}

/// The compile error reported for an event handler written as a string
/// literal.
pub open spec fn spec_literal_handler_message(attr: Seq<char>) -> Seq<char> {
    "event handler attribute `"@ + attr + "` needs a Rust expression in braces, e.g. `"@ + attr
        + "={move || ...}`, not a string literal"@
}

impl BuiltHandler {
    /// The compile error this handler reports, if it is one.
    pub fn error_message(&self) -> (m: Option<String>)
        ensures
            match self@ {
                BuiltHandlerView::LiteralError { attr } => m matches Some(t) && t@
                    == spec_literal_handler_message(attr),
                BuiltHandlerView::Handler { .. } => m is None,
            },
    {
        match self {
            BuiltHandler::Handler { .. } => None,
            BuiltHandler::LiteralError { attr } => {
                proof {
                    reveal_strlit("event handler attribute `");
                    reveal_strlit("` needs a Rust expression in braces, e.g. `");
                    reveal_strlit("={move || ...}`, not a string literal");
                }
                let mut m = "event handler attribute `".to_owned();
                m.append(attr.as_str());
                m.append("` needs a Rust expression in braces, e.g. `");
                m.append(attr.as_str());
                m.append("={move || ...}`, not a string literal");
                Some(m)
            },
        }
    }
}

/// What one node of the markup builds.
#[derive(Debug, PartialEq)]
pub enum Built {
    /// A `{expr}` child, routed through `IntoNodes`.
    Expr(String),
    /// Bare text.
    Text(String),
    /// `Element::node(tag, attrs, children)`, or `node_with_handlers` when
    /// there are handlers.
    Primitive { tag: String, attrs: Vec<BuiltAttr>, handlers: Vec<BuiltHandler>, children: Vec<Built> },
    /// `Tag(TagProps { props.., children })`, or the keyed wrapper given
    /// `key`; a self-closing call passes no `children` field.
    Component {
        tag: String,
        props: Vec<(String, AttrValue)>,
        key: Option<AttrValue>,
        children: Option<Vec<Built>>,
    },
}

// ---------------------------------------------------------------------
// Attribute lowering
// ---------------------------------------------------------------------

/// The value of the first attribute named `name`.
pub open spec fn spec_first_value(attrs: Seq<(Seq<char>, AttrValueView)>, name: Seq<char>) -> Option<AttrValueView>
    decreases attrs.len(),
{
    if attrs.len() == 0 {
        None
    } else {
        match spec_first_value(attrs.drop_last(), name) {
            Some(v) => Some(v),
            None => if attrs.last().0 == name {
                Some(attrs.last().1)
            } else {
                None
            },
        }
    }
}

/// The plain attributes of a primitive element whose scope is `scope`: every
/// attribute but `scope` directives and event handlers, in order, with the
/// scope attached to `class`.
pub open spec fn spec_plain_attrs(attrs: Seq<(Seq<char>, AttrValueView)>, scope: Option<AttrValueView>) -> Seq<BuiltAttrView>
    decreases attrs.len(),
{
    if attrs.len() == 0 {
        Seq::empty()
    } else {
        let rest = spec_plain_attrs(attrs.drop_last(), scope);
        let (name, value) = attrs.last();
        if name == "scope"@ || spec_event_name(name) is Some {
            rest
        } else {
            rest.push(BuiltAttrView { name, value, scope: if name == "class"@ { scope } else { None } })
        }
    }
}

/// The event handlers of a primitive element, in order.
pub open spec fn spec_handlers(attrs: Seq<(Seq<char>, AttrValueView)>) -> Seq<BuiltHandlerView>
    decreases attrs.len(),
{
    if attrs.len() == 0 {
        Seq::empty()
    } else {
        let rest = spec_handlers(attrs.drop_last());
        let (name, value) = attrs.last();
        match spec_event_name(name) {
            Some(event) => if name == "scope"@ {
                rest
            } else {
                rest.push(
                    match value {
                        AttrValueView::Expr(e) => BuiltHandlerView::Handler { event, expr: e },
                        AttrValueView::Lit(_) => BuiltHandlerView::LiteralError { attr: name },
                    },
                )
            },
            None => rest,
        }
    }
}

/// The props of a component call: every attribute but `key`, as written.
pub open spec fn spec_props(attrs: Seq<(Seq<char>, AttrValueView)>) -> Seq<(Seq<char>, AttrValueView)>
    decreases attrs.len(),
{
    if attrs.len() == 0 {
        Seq::empty()
    } else if attrs.last().0 == "key"@ {
        spec_props(attrs.drop_last())
    } else {
        spec_props(attrs.drop_last()).push(attrs.last())
    }
}

fn copy_string(s: &String) -> (c: String)
    ensures
        c@ == s@,
{
    s.clone()
}

fn copy_value(v: &AttrValue) -> (c: AttrValue)
    ensures
        c@ == v@,
{
    match v {
        AttrValue::Lit(s) => AttrValue::Lit(copy_string(s)),
        AttrValue::Expr(s) => AttrValue::Expr(copy_string(s)),
    }
}

fn copy_opt_value(v: &Option<AttrValue>) -> (c: Option<AttrValue>)
    ensures
        opt_view(c) == opt_view(*v),
{
    match v {
        Some(x) => Some(copy_value(x)),
        None => None,
    }
}

/// An optional attribute value as text.
pub open spec fn opt_view(v: Option<AttrValue>) -> Option<AttrValueView> {
    match v {
        Some(x) => Some(x@),
        None => None,
    }
}

/// The value of the first attribute named `name`.
fn first_value(attrs: &Vec<(String, AttrValue)>, name: &str) -> (r: Option<AttrValue>)
    ensures
        opt_view(r) == spec_first_value(attrs_view(attrs@), name@),
{
    let ghost av = attrs_view(attrs@);
    let mut i: usize = 0;
    while i < attrs.len()
        invariant
            i <= attrs@.len(),
            av == attrs_view(attrs@),
            spec_first_value(av.take(i as int), name@) is None,
        decreases attrs.len() - i,
    {
        assert(av.take(i + 1).drop_last() =~= av.take(i as int));
        if str_eq(attrs[i].0.as_str(), name) {
            let v = copy_value(&attrs[i].1);
            proof {
                assert(av.take(i + 1).last() == attr_view(attrs@[i as int]));
                assert(spec_first_value(av.take(i + 1), name@) == Some(v@));
                lemma_first_value_is_kept(av, name@, i + 1, av.len() as int);
                assert(av.take(av.len() as int) =~= av);
            }
            return Some(v);
        }
        i = i + 1;
    }
    assert(av.take(av.len() as int) =~= av);
    None
}

/// Once found among the first `m` attributes, the first value named
/// `name` stays the one found among any longer prefix.
proof fn lemma_first_value_is_kept(attrs: Seq<(Seq<char>, AttrValueView)>, name: Seq<char>, m: int, n: int)
    requires
        0 <= m <= n <= attrs.len(),
        spec_first_value(attrs.take(m), name) is Some,
    ensures
        spec_first_value(attrs.take(n), name) == spec_first_value(attrs.take(m), name),
    decreases n - m,
{
    if m < n {
        lemma_first_value_is_kept(attrs, name, m, n - 1);
        assert(attrs.take(n).drop_last() =~= attrs.take(n - 1));
    }
}

/// The plain attributes and the event handlers of a primitive element
/// whose scope is `scope`.
fn primitive_attrs(attrs: &Vec<(String, AttrValue)>, scope: &Option<AttrValue>) -> (r: (Vec<BuiltAttr>, Vec<BuiltHandler>))
    ensures
        r.0@.map_values(|a: BuiltAttr| a@) == spec_plain_attrs(attrs_view(attrs@), opt_view(*scope)),
        r.1@.map_values(|h: BuiltHandler| h@) == spec_handlers(attrs_view(attrs@)),
{
    let ghost av = attrs_view(attrs@);
    let ghost sv = opt_view(*scope);
    let mut plain: Vec<BuiltAttr> = Vec::new();
    let mut handlers: Vec<BuiltHandler> = Vec::new();
    let mut i: usize = 0;
    while i < attrs.len()
        invariant
            i <= attrs@.len(),
            av == attrs_view(attrs@),
            sv == opt_view(*scope),
            plain@.map_values(|a: BuiltAttr| a@) == spec_plain_attrs(av.take(i as int), sv),
            handlers@.map_values(|h: BuiltHandler| h@) == spec_handlers(av.take(i as int)),
        decreases attrs.len() - i,
    {
        let ghost before_plain = plain@;
        let ghost before_handlers = handlers@;
        assert(av.take(i + 1).drop_last() =~= av.take(i as int));
        assert(av.take(i + 1).last() == attr_view(attrs@[i as int]));
        let name = &attrs[i].0;
        let value = &attrs[i].1;
        proof {
            reveal_strlit("scope");
            reveal_strlit("class");
        }
        if str_eq(name.as_str(), "scope") {
        } else {
            match event_name(name.as_str()) {
                Some(event) => {
                    let h = match value {
                        AttrValue::Expr(e) => BuiltHandler::Handler { event: event.to_owned(), expr: copy_string(e) },
                        AttrValue::Lit(_) => BuiltHandler::LiteralError { attr: copy_string(name) },
                    };
                    handlers.push(h);
                    assert(handlers@.map_values(|h: BuiltHandler| h@) =~= before_handlers.map_values(
                        |h: BuiltHandler| h@,
                    ).push(h@));
                },
                None => {
                    let s = if str_eq(name.as_str(), "class") {
                        copy_opt_value(scope)
                    } else {
                        None
                    };
                    let a = BuiltAttr { name: copy_string(name), value: copy_value(value), scope: s };
                    plain.push(a);
                    assert(plain@.map_values(|a: BuiltAttr| a@) =~= before_plain.map_values(
                        |a: BuiltAttr| a@,
                    ).push(a@));
                },
            }
        }
        i = i + 1;
    }
    assert(av.take(av.len() as int) =~= av);
    (plain, handlers)
}

/// The props of a component call: every attribute but `key`.
fn component_props(attrs: &Vec<(String, AttrValue)>) -> (props: Vec<(String, AttrValue)>)
    ensures
        attrs_view(props@) == spec_props(attrs_view(attrs@)),
{
    let ghost av = attrs_view(attrs@);
    let mut props: Vec<(String, AttrValue)> = Vec::new();
    let mut i: usize = 0;
    while i < attrs.len()
        invariant
            i <= attrs@.len(),
            av == attrs_view(attrs@),
            attrs_view(props@) == spec_props(av.take(i as int)),
        decreases attrs.len() - i,
    {
        let ghost before = props@;
        assert(av.take(i + 1).drop_last() =~= av.take(i as int));
        assert(av.take(i + 1).last() == attr_view(attrs@[i as int]));
        proof {
            reveal_strlit("key");
        }
        if !str_eq(attrs[i].0.as_str(), "key") {
            let p = (copy_string(&attrs[i].0), copy_value(&attrs[i].1));
            props.push(p);
            assert(attrs_view(props@) =~= attrs_view(before).push(attr_view(p)));
        }
        i = i + 1;
    }
    assert(av.take(av.len() as int) =~= av);
    props
}

} // verus!

verus! {

// ---------------------------------------------------------------------
// Lowering whole nodes
// ---------------------------------------------------------------------

/// The scope a primitive element applies to its own `class` and passes to
/// its children: its own first `scope` directive, else the one it
/// inherits.
pub open spec fn spec_effective_scope(attrs: Seq<(Seq<char>, AttrValueView)>, inherited: Option<AttrValueView>) -> Option<AttrValueView> {
    match spec_first_value(attrs, "scope"@) {
        Some(s) => Some(s),
        None => inherited,
    }
}

/// `b` is what `node` builds under the inherited `scope`: an expression
/// or text is carried through; a component call gets every attribute but
/// `key` as its props, its first `key` as its key and, unless
/// self-closing, its children lowered under the caller's scope; a
/// primitive element gets its plain attributes and handlers, and its
/// children lowered under its effective scope.
pub open spec fn lowered(node: Node, scope: Option<AttrValueView>, b: Built) -> bool
    decreases node,
{
    match node {
        Node::Expr(e) => b matches Built::Expr(x) && x@ == e@,
        Node::Text(t) => b matches Built::Text(x) && x@ == t@,
        Node::Element { tag, attrs, children, self_closing } => {
            let av = attrs_view(attrs@);
            if spec_is_component_tag(tag@) {
                match b {
                    Built::Component { tag: t, props, key, children: c } => {
                        &&& t@ == tag@
                        &&& attrs_view(props@) == spec_props(av)
                        &&& opt_view(key) == spec_first_value(av, "key"@)
                        &&& match c {
                            None => self_closing,
                            Some(cv) => !self_closing && lowered_all(children@, scope, cv@),
                        }
                    },
                    _ => false,
                }
            } else {
                let effective = spec_effective_scope(av, scope);
                match b {
                    Built::Primitive { tag: t, attrs: plain, handlers, children: cv } => {
                        &&& t@ == tag@
                        &&& plain@.map_values(|a: BuiltAttr| a@) == spec_plain_attrs(av, effective)
                        &&& handlers@.map_values(|h: BuiltHandler| h@) == spec_handlers(av)
                        &&& lowered_all(children@, effective, cv@)
                    },
                    _ => false,
                }
            }
        },
    }
}

/// `built` is what `nodes` build, one for one, under `scope`.
pub open spec fn lowered_all(nodes: Seq<Node>, scope: Option<AttrValueView>, built: Seq<Built>) -> bool
    decreases nodes,
{
    &&& nodes.len() == built.len()
    &&& nodes.len() > 0 ==> {
        &&& lowered(nodes.last(), scope, built.last())
        &&& lowered_all(nodes.drop_last(), scope, built.drop_last())
    }
}

/// What `node` builds under the inherited `scope`.
fn lower_node(node: &Node, scope: &Option<AttrValue>) -> (b: Built)
    ensures
        lowered(*node, opt_view(*scope), b),
    decreases node,
{
    match node {
        Node::Expr(e) => Built::Expr(copy_string(e)),
        Node::Text(t) => Built::Text(copy_string(t)),
        Node::Element { tag, attrs, children, self_closing } => {
            proof {
                reveal_strlit("key");
                reveal_strlit("scope");
            }
            if Node::is_component(tag.as_str()) {
                let props = component_props(attrs);
                let key = first_value(attrs, "key");
                let c = if *self_closing {
                    None
                } else {
                    Some(lower_children(children, scope))
                };
                Built::Component { tag: copy_string(tag), props, key, children: c }
            } else {
                let own = first_value(attrs, "scope");
                let effective = match own {
                    Some(s) => Some(s),
                    None => copy_opt_value(scope),
                };
                let (plain, handlers) = primitive_attrs(attrs, &effective);
                let built_children = lower_children(children, &effective);
                Built::Primitive { tag: copy_string(tag), attrs: plain, handlers, children: built_children }
            }
        },
    }
}

/// What each of `children` builds, in order, under `scope`.
fn lower_children(children: &Vec<Node>, scope: &Option<AttrValue>) -> (built: Vec<Built>)
    ensures
        lowered_all(children@, opt_view(*scope), built@),
    decreases children,
{
    let ghost sv = opt_view(*scope);
    let mut built: Vec<Built> = Vec::new();
    let mut i: usize = 0;
    assert(children@.take(0) =~= Seq::<Node>::empty());
    while i < children.len()
        invariant
            i <= children@.len(),
            sv == opt_view(*scope),
            lowered_all(children@.take(i as int), sv, built@),
        decreases children.len() - i,
    {
        proof {
            assert(decreases_to!(children => children@));
            assert(decreases_to!(children@ => children@[i as int]));
        }
        let b = lower_node(&children[i], scope);
        let ghost before = built@;
        built.push(b);
        proof {
            let t = children@.take(i + 1);
            assert(t.drop_last() =~= children@.take(i as int));
            assert(t.last() == children@[i as int]);
            assert(built@.drop_last() =~= before);
        }
        i = i + 1;
    }
    assert(children@.take(children.len() as int) =~= children@);
    built
}

/// Why a `view!` body cannot be expanded.
#[derive(Debug, Clone, Copy, PartialEq, Eq, Structural)]
pub enum ViewError {
    Empty,
}

impl ViewError {
    /// The compile error reported.
    pub fn message(&self) -> (m: &'static str)
        ensures
            m@ == "view! requires at least one element or expression"@,
    {
        "view! requires at least one element or expression"
    }
}

/// What a whole `view!` body builds: each root node lowered outside any
/// scope (the generated code then yields the single root, or a fragment of
/// all of them). An empty body is refused.
pub fn expand(nodes: &Vec<Node>) -> (r: Result<Vec<Built>, ViewError>)
    ensures
        nodes@.len() == 0 <==> r is Err,
        r matches Ok(built) ==> lowered_all(nodes@, None, built@),
{
    if nodes.len() == 0 {
        return Err(ViewError::Empty);
    }
    let none: Option<AttrValue> = None;
    Ok(lower_children(nodes, &none))
}

} // verus!

verus! {

/// `key={...}` is a component call's identity, never one of its props.
pub proof fn law_key_is_never_a_prop(attrs: Seq<(Seq<char>, AttrValueView)>)
    ensures
        forall|i: int| 0 <= i < spec_props(attrs).len() ==> (#[trigger] spec_props(attrs)[i]).0 != "key"@,
    decreases attrs.len(),
{
    if attrs.len() > 0 {
        law_key_is_never_a_prop(attrs.drop_last());
        let rest = spec_props(attrs.drop_last());
        if attrs.last().0 != "key"@ {
            assert forall|i: int| 0 <= i < rest.push(attrs.last()).len() implies (#[trigger] rest.push(
                attrs.last(),
            )[i]).0 != "key"@ by {
                if i < rest.len() {
                    assert(rest.push(attrs.last())[i] == rest[i]);
                }
            }
        }
    }
}

/// A `scope` directive and an event handler never become plain
/// attributes, and a scope only ever reaches the `class` attribute.
pub proof fn law_scope_only_reaches_class(attrs: Seq<(Seq<char>, AttrValueView)>, scope: Option<AttrValueView>)
    ensures
        forall|i: int|
            0 <= i < spec_plain_attrs(attrs, scope).len() ==> {
                let a = #[trigger] spec_plain_attrs(attrs, scope)[i];
                &&& a.name != "scope"@
                &&& spec_event_name(a.name) is None
                &&& a.scope is Some ==> a.name == "class"@ && a.scope == scope
            },
    decreases attrs.len(),
{
    if attrs.len() > 0 {
        law_scope_only_reaches_class(attrs.drop_last(), scope);
        let rest = spec_plain_attrs(attrs.drop_last(), scope);
        let all = spec_plain_attrs(attrs, scope);
        assert forall|i: int| 0 <= i < all.len() implies {
            let a = #[trigger] all[i];
            &&& a.name != "scope"@
            &&& spec_event_name(a.name) is None
            &&& a.scope is Some ==> a.name == "class"@ && a.scope == scope
        } by {
            if i < rest.len() {
                assert(all[i] == rest[i]);
            }
        }
    }
}

/// A component call's props and key are its attributes as written,
/// whatever scope encloses the call: a scope never reaches into a
/// component's own props.
pub proof fn law_scope_never_reaches_component_props(
    node: Node,
    s1: Option<AttrValueView>,
    s2: Option<AttrValueView>,
    b1: Built,
    b2: Built,
)
    requires
        node matches Node::Element { tag, .. } && spec_is_component_tag(tag@),
        lowered(node, s1, b1),
        lowered(node, s2, b2),
    ensures
        b1 matches Built::Component { props: p1, key: k1, .. } && b2 matches Built::Component {
            props: p2,
            key: k2,
            ..
        } && attrs_view(p1@) == attrs_view(p2@) && opt_view(k1) == opt_view(k2),
{
}

} // verus!
