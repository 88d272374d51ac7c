use florui_platform::host::{
    ClosePlan, DOUBLE_CLICK_INTERVAL_NANOS, close_plan, PointerHit, PressAction, WINDOW_STATE_SAVE_DEBOUNCE_NANOS, WindowTimers,
    WindowTurn, click_target, hover_target, is_double_click, is_pointer_disabled, mark_geometry_dirty,
    next_animation_wake, plan_turn, press_action,
};

fn hit(node: usize, tag: &str, input_type: Option<&str>, disabled: bool) -> PointerHit {
    PointerHit {
        node,
        tag: tag.to_owned(),
        input_type: input_type.map(|t| t.to_owned()),
        disabled,
        drag_region: false,
    }
}

#[test]
fn a_press_on_the_drag_region_drags_the_window() {
    let mut h = hit(3, "div", None, false);
    h.drag_region = true;
    assert_eq!(press_action(&Some(h)), PressAction::StartWindowDrag);
}

#[test]
fn a_press_on_an_enabled_text_input_goes_to_the_input() {
    assert_eq!(press_action(&Some(hit(2, "input", Some("text"), false))), PressAction::PressTextInput(2));
    // A checkbox is no text input: it is armed like any other node.
    assert_eq!(press_action(&Some(hit(2, "input", Some("checkbox"), false))), PressAction::Press(Some(2)));
}

#[test]
fn a_disabled_button_is_never_armed_or_hovered() {
    let button = hit(1, "button", None, true);
    assert!(is_pointer_disabled(&button));
    assert_eq!(press_action(&Some(button.clone())), PressAction::Press(None));
    assert_eq!(hover_target(&Some(button)), None);
    assert_eq!(press_action(&Some(hit(4, "input", Some("password"), true))), PressAction::Press(None));
}

#[test]
fn disabled_has_no_effect_outside_buttons_and_inputs() {
    let span = hit(5, "span", None, true);
    assert!(!is_pointer_disabled(&span));
    assert_eq!(press_action(&Some(span.clone())), PressAction::Press(Some(5)));
    assert_eq!(hover_target(&Some(span)), Some(5));
}

#[test]
fn a_press_on_nothing_arms_nothing() {
    assert_eq!(press_action(&None), PressAction::Press(None));
    assert_eq!(hover_target(&None), None);
}

#[test]
fn a_click_needs_the_release_on_the_pressed_node() {
    assert_eq!(click_target(Some(3), Some(3)), Some(3));
    assert_eq!(click_target(Some(3), Some(4)), None);
    assert_eq!(click_target(Some(3), None), None);
    assert_eq!(click_target(None, Some(3)), None);
}

#[test]
fn double_clicks_are_close_presses_on_the_same_input() {
    let at = 1_000_000_000;
    assert!(is_double_click(Some((7, at)), 7, at + DOUBLE_CLICK_INTERVAL_NANOS - 1));
    assert!(!is_double_click(Some((7, at)), 7, at + DOUBLE_CLICK_INTERVAL_NANOS));
    assert!(!is_double_click(Some((6, at)), 7, at + 1));
    assert!(!is_double_click(None, 7, at));
    assert!(is_double_click(Some((7, at)), 7, at - 5));
}

#[test]
fn animation_and_geometry_timers() {
    assert_eq!(next_animation_wake(true, 100), Some(16_000_100));
    assert_eq!(next_animation_wake(false, 100), None);
    assert_eq!(mark_geometry_dirty(true, Some(5), 90), Some(90));
    assert_eq!(mark_geometry_dirty(false, None, 90), None);
}

#[test]
fn a_turn_redraws_due_windows_and_wakes_at_the_earliest_deadline_ahead() {
    let now = 10_000_000_000;
    let windows = [
        WindowTimers { animation_wake: Some(now), pending_save: None },
        WindowTimers { animation_wake: Some(now + 7), pending_save: Some(now - WINDOW_STATE_SAVE_DEBOUNCE_NANOS) },
        WindowTimers { animation_wake: None, pending_save: Some(now - 3) },
        WindowTimers { animation_wake: None, pending_save: None },
    ];
    let (turns, next) = plan_turn(&windows, now);
    assert_eq!(
        turns,
        vec![
            WindowTurn { redraw: true, save_geometry: false },
            WindowTurn { redraw: false, save_geometry: true },
            WindowTurn { redraw: false, save_geometry: false },
            WindowTurn { redraw: false, save_geometry: false },
        ]
    );
    assert_eq!(next, Some(now + 7));
}

#[test]
fn a_pending_save_alone_sets_the_wake() {
    let now = 10_000_000_000;
    let windows = [WindowTimers { animation_wake: None, pending_save: Some(now - 3) }];
    let (_, next) = plan_turn(&windows, now);
    assert_eq!(next, Some(now - 3 + WINDOW_STATE_SAVE_DEBOUNCE_NANOS));
    assert_eq!(plan_turn(&[], now), (vec![], None));
}

#[test]
fn closing_removes_confirmed_windows_and_exits_after_the_last() {
    assert_eq!(
        close_plan(true, true, true, 2),
        ClosePlan { save_geometry: true, remove: true, exit: false }
    );
    assert_eq!(
        close_plan(true, true, false, 1),
        ClosePlan { save_geometry: false, remove: true, exit: true }
    );
    assert_eq!(
        close_plan(true, false, true, 1),
        ClosePlan { save_geometry: false, remove: false, exit: false }
    );
    assert_eq!(
        close_plan(false, true, true, 3),
        ClosePlan { save_geometry: false, remove: false, exit: false }
    );
}
