//! `#[component]`: which functions can be components, and what their
//! generated props struct is made of. `fn Card(title: String, children:
//! Children) -> Element` becomes a `CardProps` struct with one field per
//! parameter, in order, and a `Card` function taking it by value.
//!
//! The function's visibility, attributes, parameter types, return type and
//! body are carried through to the generated code untouched; only what the
//! rules below read of the function is held here.

use vstd::prelude::*;

verus! {

/// One parameter of a component function.
#[derive(Debug, Clone, PartialEq)]
pub enum ComponentParam {
    /// `self`, `&self` or `&mut self`.
    SelfReceiver,
    /// A parameter bound to a plain name.
    Named(String),
    /// A parameter bound by a pattern (`(a, b): (u8, u8)`).
    Pattern,
}

/// What `#[component]` reads of the function it is put on.
#[derive(Debug, Clone, PartialEq)]
pub struct ComponentFn {
    pub name: String,
    /// The function declares generic parameters.
    pub generic: bool,
    pub params: Vec<ComponentParam>,
    /// The function declares a return type.
    pub returns: bool,
}

/// Why a function cannot be a component.
#[derive(Debug, Clone, Copy, PartialEq, Eq, Structural)]
pub enum ComponentError {
    /// `#[component(...)]` was given arguments.
    TakesArguments,
    Generic,
    TakesSelf,
    PatternParameter,
    NoReturnType,
}

/// The compile error each refusal reports.
pub open spec fn spec_error_message(e: ComponentError) -> Seq<char> {
    match e {
        ComponentError::TakesArguments => "`#[component]` does not take arguments"@,
        ComponentError::Generic => "`#[component]` does not support generic functions yet"@,
        ComponentError::TakesSelf => "`#[component]` functions cannot take `self`"@,
        ComponentError::PatternParameter => "`#[component]` parameters must be simple names, not patterns"@,
        ComponentError::NoReturnType => "`#[component]` functions must return an element"@,
    }
}

impl ComponentError {
    /// The compile error reported for this refusal.
    pub fn message(&self) -> (m: &'static str)
        ensures
            m@ == spec_error_message(*self),
    {
        match self {
            ComponentError::TakesArguments => "`#[component]` does not take arguments",
            ComponentError::Generic => "`#[component]` does not support generic functions yet",
            ComponentError::TakesSelf => "`#[component]` functions cannot take `self`",
            ComponentError::PatternParameter => "`#[component]` parameters must be simple names, not patterns",
            ComponentError::NoReturnType => "`#[component]` functions must return an element",
        }
    }
}

/// What the generated props struct and wrapper are built from: the
/// component's name, the props struct's name, and the props fields, one
/// per parameter in order.
#[derive(Debug, Clone, PartialEq)]
pub struct ParsedComponent {
    pub name: String,
    pub props_ident: String,
    pub field_names: Vec<String>,
}

/// The refusal for the first of the first `n` parameters that is not a
/// plain name.
pub open spec fn spec_first_bad_param(params: Seq<ComponentParam>, n: int) -> Option<ComponentError>
    decreases n,
{
    if n <= 0 {
        None
    } else {
        match spec_first_bad_param(params, n - 1) {
            Some(e) => Some(e),
            None => match params[n - 1] {
                ComponentParam::SelfReceiver => Some(ComponentError::TakesSelf),
                ComponentParam::Pattern => Some(ComponentError::PatternParameter),
                ComponentParam::Named(_) => None,
            },
        }
    }
}

/// The name a parameter binds (empty for one that binds none).
pub open spec fn spec_param_name(p: ComponentParam) -> Seq<char> {
    match p {
        ComponentParam::Named(n) => n@,
        _ => Seq::empty(),
    }
}

/// Why `func` cannot be a component, checked in this order: generics,
/// then each parameter in turn, then the return type; `None` when it can.
pub open spec fn spec_component_error(func: ComponentFn) -> Option<ComponentError> {
    if func.generic {
        Some(ComponentError::Generic)
    } else if spec_first_bad_param(func.params@, func.params@.len() as int) is Some {
        spec_first_bad_param(func.params@, func.params@.len() as int)
    } else if !func.returns {
        Some(ComponentError::NoReturnType)
    } else {
        None
    }
}

/// The parse owed for `func`: its refusal, or its name, `<name>Props` and
/// its parameters' names.
pub open spec fn spec_parse_holds(func: ComponentFn, r: Result<ParsedComponent, ComponentError>) -> bool {
    match r {
        Ok(p) => {
            &&& spec_component_error(func) is None
            &&& p.name@ == func.name@
            &&& p.props_ident@ == func.name@ + "Props"@
            &&& p.field_names@.map_values(|s: String| s@) == func.params@.map_values(
                |q: ComponentParam| spec_param_name(q),
            )
        },
        Err(e) => spec_component_error(func) == Some(e),
    }
}

fn copy_string(s: &str) -> (c: String)
    ensures
        c@ == s@,
{
    s.to_owned()
}

/// Validates a component function and extracts what its generated props
/// struct and wrapper need: generic functions, `self` parameters, pattern
/// parameters and a missing return type are refused.
pub fn parse(func: &ComponentFn) -> (r: Result<ParsedComponent, ComponentError>)
    ensures
        spec_parse_holds(*func, r),
{
    if func.generic {
        return Err(ComponentError::Generic);
    }
    let mut field_names: Vec<String> = Vec::new();
    let mut i: usize = 0;
    while i < func.params.len()
        invariant
            i <= func.params@.len(),
            !func.generic,
            spec_first_bad_param(func.params@, i as int) is None,
            field_names@.len() == i,
            forall|k: int| 0 <= k < i ==> (#[trigger] field_names@[k])@ == spec_param_name(func.params@[k]),
        decreases func.params.len() - i,
    {
        let param = &func.params[i];
        assert(*param == func.params@[i as int]);
        match param {
            ComponentParam::SelfReceiver => {
                proof {
                    assert(spec_first_bad_param(func.params@, i + 1) == Some(ComponentError::TakesSelf));
                    lemma_first_bad_is_kept(func.params@, i + 1, func.params@.len() as int);
                }
                return Err(ComponentError::TakesSelf);
            },
            ComponentParam::Pattern => {
                proof {
                    assert(spec_first_bad_param(func.params@, i + 1) == Some(
                        ComponentError::PatternParameter,
                    ));
                    lemma_first_bad_is_kept(func.params@, i + 1, func.params@.len() as int);
                }
                return Err(ComponentError::PatternParameter);
            },
            ComponentParam::Named(name) => {
                field_names.push(copy_string(name.as_str()));
            },
        }
        i = i + 1;
    }
    assert(field_names@.map_values(|s: String| s@) =~= func.params@.map_values(
        |q: ComponentParam| spec_param_name(q),
    ));
    if !func.returns {
        return Err(ComponentError::NoReturnType);
    }
    let name = copy_string(func.name.as_str());
    let mut props_ident = copy_string(func.name.as_str());
    props_ident.append("Props");
    Ok(ParsedComponent { name, props_ident, field_names })
}

/// Once one of the first `m` parameters is refused, the first refusal
/// among any longer prefix is that same one.
proof fn lemma_first_bad_is_kept(params: Seq<ComponentParam>, m: int, n: int)
    requires
        0 <= m <= n,
        spec_first_bad_param(params, m) is Some,
    ensures
        spec_first_bad_param(params, n) == spec_first_bad_param(params, m),
    decreases n - m,
{
    if m < n {
        lemma_first_bad_is_kept(params, m, n - 1);
    }
}

/// `#[component]` as a whole: a component attribute takes no arguments,
/// and the function must pass [`parse`].
pub fn expand(attr_is_empty: bool, func: &ComponentFn) -> (r: Result<ParsedComponent, ComponentError>)
    ensures
        !attr_is_empty ==> r == Err::<ParsedComponent, ComponentError>(ComponentError::TakesArguments),
        attr_is_empty ==> spec_parse_holds(*func, r),
{
    if !attr_is_empty {
        return Err(ComponentError::TakesArguments);
    }
    parse(func)
}

/// A component's props struct has exactly one field per parameter, named
/// like it and in the same order, and is named after the component.
pub proof fn law_props_mirror_parameters(func: ComponentFn, p: ParsedComponent)
    requires
        spec_parse_holds(func, Ok(p)),
    ensures
        p.field_names.len() == func.params.len(),
        forall|i: int| 0 <= i < func.params.len() ==> (#[trigger] func.params@[i]) is Named,
        forall|i: int|
            0 <= i < func.params.len() ==> (#[trigger] p.field_names@[i])@ == spec_param_name(
                func.params@[i],
            ),
        p.props_ident@.take(func.name@.len() as int) == p.name@,
{
    reveal_strlit("Props");
    let names = p.field_names@.map_values(|s: String| s@);
    let wanted = func.params@.map_values(|q: ComponentParam| spec_param_name(q));
    assert(names == wanted);
    assert(names.len() == p.field_names@.len());
    assert(wanted.len() == func.params@.len());
    assert(spec_component_error(func) is None);
    assert(spec_first_bad_param(func.params@, func.params@.len() as int) is None);
    assert forall|i: int| 0 <= i < func.params.len() implies (#[trigger] func.params@[i]) is Named by {
        lemma_accepted_params_are_named(func.params@, func.params@.len() as int, i);
    }
    assert forall|i: int| 0 <= i < func.params.len() implies (#[trigger] p.field_names@[i])@
        == spec_param_name(func.params@[i]) by {
        assert(names[i] == p.field_names@[i]@);
        assert(wanted[i] == spec_param_name(func.params@[i]));
    }
    assert((func.name@ + "Props"@).take(func.name@.len() as int) =~= func.name@);
}

/// When no parameter is refused, every parameter binds a plain name.
proof fn lemma_accepted_params_are_named(params: Seq<ComponentParam>, n: int, i: int)
    requires
        0 <= i < n <= params.len(),
        spec_first_bad_param(params, n) is None,
    ensures
        params[i] is Named,
    decreases n,
{
    if i < n - 1 {
        lemma_accepted_params_are_named(params, n - 1, i);
    }
}

} // verus!
