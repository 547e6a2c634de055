//! The input dispatcher: a two-state machine (button up, button down) that
//! decides, for each request, which input events the injector must issue.
use vstd::prelude::*;

verus! {

/// One event for the input injector, issued in the order given.
#[derive(PartialEq, Eq, Structural, Clone, Copy, Debug)]
pub enum MouseEvent {
    /// Move the cursor to these absolute screen coordinates.
    MoveTo(i32, i32),
    /// Press the left button.
    LeftDown,
    /// Release the left button.
    LeftUp,
}

/// The button event, if any, that a request with `pinch` issues while the
/// left button is held (`down`) or not.
pub open spec fn button_event(down: bool, pinch: bool) -> Option<MouseEvent> {
    if pinch && !down {
        Some(MouseEvent::LeftDown)
    } else if !pinch && down {
        Some(MouseEvent::LeftUp)
    } else {
        None
    }
}

/// The transition of the button state on a request with `pinch`:
/// up to down on a pinch, down to up on a release, unchanged otherwise.
pub open spec fn next_down(down: bool, pinch: bool) -> bool {
    if pinch && !down {
        true
    } else if !pinch && down {
        false
    } else {
        down
    }
}

/// The events that the request `(x, y, pinch)` issues from the state `down`:
/// always the move first, then the button event if there is one.
pub open spec fn actions_for(down: bool, x: i32, y: i32, pinch: bool) -> Seq<MouseEvent> {
    match button_event(down, pinch) {
        Some(e) => seq![MouseEvent::MoveTo(x, y), e],
        None => seq![MouseEvent::MoveTo(x, y)],
    }
}

/// The dispatcher's state: whether the left button has been pressed and
/// not yet released.
pub struct AppState {
    is_mouse_down: bool,
}

impl View for AppState {
    type V = bool;

    /// True iff the left button is currently held.
    closed spec fn view(&self) -> bool {
        self.is_mouse_down
    }
}

impl AppState {
    /// A dispatcher with the button up.
    pub fn new() -> (r: AppState)
        ensures
            r@ == false,
    {
        AppState { is_mouse_down: false }
    }

    /// Whether the left button is currently held.
    pub fn is_mouse_down(&self) -> (r: bool)
        ensures
            r == self@,
    {
        self.is_mouse_down
    }
}

impl Default for AppState {
    fn default() -> (r: AppState)
        ensures
            r@ == false,
    {
        AppState::new()
    }
}

/// Handles one request: moves the cursor to `(x, y)` and presses or
/// releases the left button so that it is held exactly when `pinch` is.
/// Returns the events to issue, in order.
pub fn mouse_action(state: &mut AppState, x: i32, y: i32, pinch: bool) -> (r: Vec<MouseEvent>)
    ensures
        r@ == actions_for(old(state)@, x, y, pinch),
        final(state)@ == next_down(old(state)@, pinch),
{
    let mut events: Vec<MouseEvent> = Vec::new();
    events.push(MouseEvent::MoveTo(x, y));
    if pinch {
        if !state.is_mouse_down {
            state.is_mouse_down = true;
            events.push(MouseEvent::LeftDown);
        }
    } else {
        if state.is_mouse_down {
            events.push(MouseEvent::LeftUp);
        }
        state.is_mouse_down = false;
    }
    proof {
        assert(events@ =~= actions_for(old(state)@, x, y, pinch));
    }
    events
}

} // verus!
