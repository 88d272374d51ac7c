//! Pointer and frame-scheduling decisions of the desktop host. The host
//! hit-tests, reads the clock and performs what is decided here: which
//! node a press arms, when a release is a click, what the cursor hovers,
//! when two presses are a double click, and, once per event-loop turn,
//! which windows redraw or save their geometry and when to wake next.
//! Times are nanoseconds on the host's monotonic clock.

use vstd::prelude::*;

use crate::focus::{is_editable_input_type, spec_is_editable_input_type};
use crate::text::str_eq;

verus! {

/// Two presses on the same text input this close together are a double
/// click.
pub const DOUBLE_CLICK_INTERVAL_NANOS: u64 = 400_000_000;

/// How long a window's geometry must stay unchanged before it is saved.
pub const WINDOW_STATE_SAVE_DEBOUNCE_NANOS: u64 = 500_000_000;

/// How soon a window that is animating asks for its next frame.
pub const ANIMATION_FRAME_NANOS: u64 = 16_000_000;

/// What pointer handling reads of the node under the cursor.
#[derive(Debug, Clone, PartialEq)]
pub struct PointerHit {
    pub node: usize,
    pub tag: String,
    pub input_type: Option<String>,
    /// The node carries the `disabled` attribute.
    pub disabled: bool,
    /// The node is the window's drag region.
    pub drag_region: bool,
}

/// An `<input>` whose type gets text-editing behavior.
pub open spec fn spec_is_editable_text_input(hit: PointerHit) -> bool {
    hit.tag@ == "input"@ && spec_is_editable_input_type(hit.input_type.deep_view())
}

/// `disabled` only has an effect on a `<button>` or an editable input.
pub open spec fn spec_is_pointer_disabled(hit: PointerHit) -> bool {
    hit.disabled && (hit.tag@ == "button"@ || spec_is_editable_text_input(hit))
}

/// Whether the node is an editable text input.
pub fn is_editable_text_input(hit: &PointerHit) -> (res: bool)
    ensures
        res == spec_is_editable_text_input(*hit),
{
    if !str_eq(hit.tag.as_str(), "input") {
        return false;
    }
    let input_type = match &hit.input_type {
        Some(t) => Some(t.as_str()),
        None => None,
    };
    is_editable_input_type(input_type)
}

/// Whether the node is disabled for the pointer: a disabled `<button>` or
/// editable input (the attribute has no effect on any other node).
pub fn is_pointer_disabled(hit: &PointerHit) -> (res: bool)
    ensures
        res == spec_is_pointer_disabled(*hit),
{
    if !hit.disabled {
        return false;
    }
    str_eq(hit.tag.as_str(), "button") || is_editable_text_input(hit)
}

/// What a left-button press does.
#[derive(Debug, Clone, Copy, PartialEq, Eq, Structural)]
pub enum PressAction {
    /// The press landed on the drag region: the window itself is dragged.
    StartWindowDrag,
    /// The press landed on an enabled editable input: it takes focus and
    /// places its caret (or selects a word on a double click).
    PressTextInput(usize),
    /// The node armed for a click on release, if any.
    Press(Option<usize>),
}

/// The action owed for a press on `hit`.
pub open spec fn spec_press_action(hit: Option<PointerHit>) -> PressAction {
    match hit {
        None => PressAction::Press(None),
        Some(h) => if h.drag_region {
            PressAction::StartWindowDrag
        } else if spec_is_pointer_disabled(h) {
            PressAction::Press(None)
        } else if spec_is_editable_text_input(h) {
            PressAction::PressTextInput(h.node)
        } else {
            PressAction::Press(Some(h.node))
        },
    }
}

/// A press on the drag region drags the window; on an enabled editable
/// input it goes to that input; otherwise it arms the node under the
/// cursor for a click, unless that node is disabled.
pub fn press_action(hit: &Option<PointerHit>) -> (action: PressAction)
    ensures
        action == spec_press_action(*hit),
{
    match hit {
        None => PressAction::Press(None),
        Some(h) => {
            if h.drag_region {
                PressAction::StartWindowDrag
            } else if is_pointer_disabled(h) {
                PressAction::Press(None)
            } else if is_editable_text_input(h) {
                PressAction::PressTextInput(h.node)
            } else {
                PressAction::Press(Some(h.node))
            }
        },
    }
}

/// The node a release clicks: the armed node, when the release lands back
/// on it. Dragging off a node before releasing cancels its click.
pub fn click_target(pressed: Option<usize>, released_over: Option<usize>) -> (clicked: Option<usize>)
    ensures
        clicked == (match (pressed, released_over) {
            (Some(p), Some(r)) => if p == r {
                Some(p)
            } else {
                None
            },
            _ => None,
        }),
{
    match (pressed, released_over) {
        (Some(p), Some(r)) => if p == r {
            Some(p)
        } else {
            None
        },
        _ => None,
    }
}

/// The node hovered when `hit` is under the cursor.
pub open spec fn spec_hover_target(hit: Option<PointerHit>) -> Option<usize> {
    match hit {
        Some(h) => if spec_is_pointer_disabled(h) {
            None
        } else {
            Some(h.node)
        },
        None => None,
    }
}

/// The node the cursor hovers: the node under it, unless disabled.
pub fn hover_target(hit: &Option<PointerHit>) -> (hovered: Option<usize>)
    ensures
        hovered == spec_hover_target(*hit),
{
    match hit {
        Some(h) => if is_pointer_disabled(h) {
            None
        } else {
            Some(h.node)
        },
        None => None,
    }
}

/// Whether a press on text input `node` at `now` is a double click: the
/// previous text-input press (`last`, node and time) was on the same input
/// less than [`DOUBLE_CLICK_INTERVAL_NANOS`] ago. A clock reading earlier
/// than the last press counts as no time passed.
pub fn is_double_click(last: Option<(usize, u64)>, node: usize, now: u64) -> (double: bool)
    ensures
        double == (match last {
            Some((last_node, at)) => last_node == node && (if now >= at {
                now - at
            } else {
                0
            }) < DOUBLE_CLICK_INTERVAL_NANOS,
            None => false,
        }),
{
    match last {
        Some((last_node, at)) => {
            let elapsed = if now >= at {
                now - at
            } else {
                0
            };
            last_node == node && elapsed < DOUBLE_CLICK_INTERVAL_NANOS
        },
        None => false,
    }
}

/// When an animating window next asks for a frame: one frame from `now`;
/// never, for a window at rest.
pub fn next_animation_wake(animating: bool, now: u64) -> (wake: Option<u64>)
    requires
        now + ANIMATION_FRAME_NANOS <= u64::MAX,
    ensures
        wake == (if animating {
            Some((now + ANIMATION_FRAME_NANOS) as u64)
        } else {
            None
        }),
{
    if animating {
        Some(now + ANIMATION_FRAME_NANOS)
    } else {
        None
    }
}

/// A geometry change at `now` restarts the save debounce (for a window
/// whose geometry is saved at all; otherwise nothing is pending).
pub fn mark_geometry_dirty(persistent: bool, pending: Option<u64>, now: u64) -> (next: Option<u64>)
    ensures
        next == (if persistent {
            Some(now)
        } else {
            pending
        }),
{
    if persistent {
        Some(now)
    } else {
        pending
    }
}

/// The timers of one window: when its animation wants the next frame,
/// and when its geometry last changed without having been saved since.
#[derive(Debug, Clone, Copy, PartialEq, Eq, Structural)]
pub struct WindowTimers {
    pub animation_wake: Option<u64>,
    pub pending_save: Option<u64>,
}

/// What one window does on this turn of the event loop.
#[derive(Debug, Clone, Copy, PartialEq, Eq, Structural)]
pub struct WindowTurn {
    pub redraw: bool,
    pub save_geometry: bool,
}

/// The smaller of two optional deadlines; `None` is no deadline.
pub open spec fn min_deadline(a: Option<u64>, b: Option<u64>) -> Option<u64> {
    match (a, b) {
        (Some(x), Some(y)) => Some(if x <= y {
            x
        } else {
            y
        }),
        (Some(x), None) => Some(x),
        (None, y) => y,
    }
}

/// The save debounce of `changed_at` has run out by `now`.
pub open spec fn spec_save_due(changed_at: u64, now: u64) -> bool {
    now >= changed_at + WINDOW_STATE_SAVE_DEBOUNCE_NANOS
}

/// What a window does at `now`: it redraws once its animation deadline
/// has come, and saves once its save debounce has run out.
pub open spec fn spec_window_turn(w: WindowTimers, now: u64) -> WindowTurn {
    WindowTurn {
        redraw: w.animation_wake matches Some(d) && now >= d,
        save_geometry: w.pending_save matches Some(c) && spec_save_due(c, now),
    }
}

/// The deadlines of `w` that are still ahead at `now`, earliest first.
pub open spec fn spec_window_wake(w: WindowTimers, now: u64) -> Option<u64> {
    let animation = match w.animation_wake {
        Some(d) => if now >= d {
            None
        } else {
            Some(d)
        },
        None => None,
    };
    let save = match w.pending_save {
        Some(c) => if spec_save_due(c, now) {
            None
        } else {
            Some((c + WINDOW_STATE_SAVE_DEBOUNCE_NANOS) as u64)
        },
        None => None,
    };
    min_deadline(animation, save)
}

/// The earliest deadline still ahead among the first `n` windows.
pub open spec fn spec_next_wake(windows: Seq<WindowTimers>, now: u64, n: int) -> Option<u64>
    decreases n,
{
    if n <= 0 {
        None
    } else {
        min_deadline(spec_next_wake(windows, now, n - 1), spec_window_wake(windows[n - 1], now))
    }
}

/// No pending save's deadline lies past the end of the clock.
pub open spec fn save_deadlines_fit(windows: Seq<WindowTimers>) -> bool {
    forall|i: int|
        0 <= i < windows.len() ==> ((#[trigger] windows[i]).pending_save matches Some(c) ==> c
            + WINDOW_STATE_SAVE_DEBOUNCE_NANOS <= u64::MAX)
}

fn min_deadline_of(a: Option<u64>, b: Option<u64>) -> (m: Option<u64>)
    ensures
        m == min_deadline(a, b),
{
    match (a, b) {
        (Some(x), Some(y)) => Some(if x <= y {
            x
        } else {
            y
        }),
        (Some(x), None) => Some(x),
        (None, y) => y,
    }
}

/// One turn of the event loop at `now`: each window redraws when its
/// animation deadline has come and saves its geometry when its debounce
/// has run out; the loop then sleeps until the earliest deadline still
/// ahead across every window (or until the next event, when there is
/// none), so no window's animation lags behind another's.
pub fn plan_turn(windows: &[WindowTimers], now: u64) -> (plan: (Vec<WindowTurn>, Option<u64>))
    requires
        save_deadlines_fit(windows@),
    ensures
        plan.0.len() == windows.len(),
        forall|i: int| 0 <= i < windows.len() ==> #[trigger] plan.0[i] == spec_window_turn(windows[i], now),
        plan.1 == spec_next_wake(windows@, now, windows.len() as int),
{
    let mut turns: Vec<WindowTurn> = Vec::new();
    let mut next: Option<u64> = None;
    let mut i: usize = 0;
    while i < windows.len()
        invariant
            i <= windows.len(),
            save_deadlines_fit(windows@),
            turns.len() == i,
            forall|k: int| 0 <= k < i ==> #[trigger] turns@[k] == spec_window_turn(windows[k], now),
            next == spec_next_wake(windows@, now, i as int),
        decreases windows.len() - i,
    {
        let w = windows[i];
        assert(windows@[i as int] == w);
        let redraw = match w.animation_wake {
            Some(d) => now >= d,
            None => false,
        };
        let animation = match w.animation_wake {
            Some(d) => if now >= d {
                None
            } else {
                Some(d)
            },
            None => None,
        };
        let (save_geometry, save) = match w.pending_save {
            Some(c) => {
                let deadline = c + WINDOW_STATE_SAVE_DEBOUNCE_NANOS;
                if now >= deadline {
                    (true, None)
                } else {
                    (false, Some(deadline))
                }
            },
            None => (false, None),
        };
        turns.push(WindowTurn { redraw, save_geometry });
        next = min_deadline_of(next, min_deadline_of(animation, save));
        i = i + 1;
    }
    (turns, next)
}

/// A disabled node is never armed for a click, never pressed as a text
/// input and never hovered.
pub proof fn law_disabled_nodes_take_no_pointer_input(hit: PointerHit)
    requires
        spec_is_pointer_disabled(hit),
        !hit.drag_region,
    ensures
        spec_press_action(Some(hit)) == PressAction::Press(None),
        spec_hover_target(Some(hit)) is None,
{
}

/// The loop always wakes in the future, and no later than any window's
/// deadline that is still ahead.
pub proof fn law_next_wake_serves_every_window(windows: Seq<WindowTimers>, now: u64, i: int)
    requires
        0 <= i < windows.len(),
        save_deadlines_fit(windows),
    ensures
        spec_next_wake(windows, now, windows.len() as int) matches Some(t) ==> now < t,
        spec_window_wake(windows[i], now) is Some ==> spec_next_wake(windows, now, windows.len() as int)
            is Some && spec_next_wake(windows, now, windows.len() as int)->0 <= spec_window_wake(
            windows[i],
            now,
        )->0,
{
    lemma_next_wake(windows, now, windows.len() as int);
}

proof fn lemma_next_wake(windows: Seq<WindowTimers>, now: u64, n: int)
    requires
        n <= windows.len(),
        save_deadlines_fit(windows),
    ensures
        spec_next_wake(windows, now, n) matches Some(t) ==> now < t,
        forall|i: int|
            0 <= i < n && (#[trigger] spec_window_wake(windows[i], now)) is Some ==> spec_next_wake(
                windows,
                now,
                n,
            ) is Some && spec_next_wake(windows, now, n)->0 <= spec_window_wake(windows[i], now)->0,
    decreases n,
{
    if n > 0 {
        lemma_next_wake(windows, now, n - 1);
        assert(windows[n - 1].pending_save matches Some(c) ==> c + WINDOW_STATE_SAVE_DEBOUNCE_NANOS
            <= u64::MAX);
    }
}

} // verus!

verus! {

/// What closing a window does.
#[derive(Debug, Clone, Copy, PartialEq, Eq, Structural)]
pub struct ClosePlan {
    /// Save the window's geometry first (a window whose geometry is
    /// persisted).
    pub save_geometry: bool,
    /// Drop the window.
    pub remove: bool,
    /// End the event loop: the last window is gone.
    pub exit: bool,
}

/// The plan owed for closing a window (see [`close_plan`]).
pub open spec fn spec_close_plan(open: bool, confirmed: bool, persistent: bool, open_windows: usize) -> ClosePlan {
    let remove = open && confirmed;
    ClosePlan { save_geometry: remove && persistent, remove, exit: remove && open_windows == 1 }
}

/// A request to close one of `open_windows` windows (from the OS or from
/// the app): nothing happens for a window that is not open or that vetoes
/// closing; otherwise it is removed, its geometry saved first when
/// persisted, and the process exits once no window is left.
pub fn close_plan(open: bool, confirmed: bool, persistent: bool, open_windows: usize) -> (plan: ClosePlan)
    ensures
        plan == spec_close_plan(open, confirmed, persistent, open_windows),
{
    if !open || !confirmed {
        return ClosePlan { save_geometry: false, remove: false, exit: false };
    }
    ClosePlan { save_geometry: persistent, remove: true, exit: open_windows == 1 }
}

/// The process never exits while another window is still open, and a
/// window that vetoes closing is never dropped.
pub proof fn law_exit_only_after_the_last_window(open: bool, confirmed: bool, persistent: bool, open_windows: usize)
    ensures
        spec_close_plan(open, confirmed, persistent, open_windows).exit ==> spec_close_plan(
            open,
            confirmed,
            persistent,
            open_windows,
        ).remove && open_windows == 1,
        !confirmed ==> !spec_close_plan(open, confirmed, persistent, open_windows).remove
            && !spec_close_plan(open, confirmed, persistent, open_windows).exit,
{
}

} // verus!
