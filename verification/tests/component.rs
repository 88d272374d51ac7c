use florui_platform::component::{ComponentError, ComponentFn, ComponentParam, expand, parse};

fn named(name: &str) -> ComponentParam {
    ComponentParam::Named(name.to_owned())
}

fn card(params: Vec<ComponentParam>) -> ComponentFn {
    ComponentFn {
        name: "Card".to_owned(),
        generic: false,
        params,
        returns: true,
    }
}

#[test]
fn a_component_gets_a_props_struct_with_one_field_per_parameter() {
    let parsed = parse(&card(vec![named("title"), named("children")])).unwrap();
    assert_eq!(parsed.name, "Card");
    assert_eq!(parsed.props_ident, "CardProps");
    assert_eq!(parsed.field_names, vec!["title".to_owned(), "children".to_owned()]);
}

#[test]
fn a_component_without_parameters_gets_an_empty_props_struct() {
    let parsed = parse(&card(vec![])).unwrap();
    assert!(parsed.field_names.is_empty());
}

#[test]
fn generic_functions_are_refused_first() {
    let mut f = card(vec![ComponentParam::SelfReceiver]);
    f.generic = true;
    f.returns = false;
    assert_eq!(parse(&f).unwrap_err(), ComponentError::Generic);
}

#[test]
fn self_and_pattern_parameters_are_refused_in_order() {
    assert_eq!(
        parse(&card(vec![named("a"), ComponentParam::SelfReceiver, ComponentParam::Pattern])).unwrap_err(),
        ComponentError::TakesSelf
    );
    assert_eq!(
        parse(&card(vec![ComponentParam::Pattern, ComponentParam::SelfReceiver])).unwrap_err(),
        ComponentError::PatternParameter
    );
}

#[test]
fn a_component_must_return_an_element() {
    let mut f = card(vec![named("a")]);
    f.returns = false;
    assert_eq!(parse(&f).unwrap_err(), ComponentError::NoReturnType);
    assert_eq!(
        ComponentError::NoReturnType.message(),
        "`#[component]` functions must return an element"
    );
}

#[test]
fn the_component_attribute_takes_no_arguments() {
    assert_eq!(expand(false, &card(vec![])).unwrap_err(), ComponentError::TakesArguments);
    assert_eq!(
        ComponentError::TakesArguments.message(),
        "`#[component]` does not take arguments"
    );
    assert!(expand(true, &card(vec![])).is_ok());
}
