use remote_mouse::{mouse_action, AppState, MouseEvent};

#[test]
fn release_request_on_fresh_state_only_moves() {
    let mut s = AppState::new();
    let r = mouse_action(&mut s, 100, 100, false);
    assert_eq!(r, vec![MouseEvent::MoveTo(100, 100)]);
    assert!(!s.is_mouse_down());
}

#[test]
fn pinch_on_fresh_state_presses() {
    let mut s = AppState::new();
    let r = mouse_action(&mut s, 100, 100, true);
    assert_eq!(r, vec![MouseEvent::MoveTo(100, 100), MouseEvent::LeftDown]);
    assert!(s.is_mouse_down());
}

#[test]
fn pinch_while_held_only_moves() {
    let mut s = AppState::new();
    mouse_action(&mut s, 100, 100, true);
    let r = mouse_action(&mut s, 150, 150, true);
    assert_eq!(r, vec![MouseEvent::MoveTo(150, 150)]);
    assert!(s.is_mouse_down());
}

#[test]
fn release_while_held_releases() {
    let mut s = AppState::new();
    mouse_action(&mut s, 100, 100, true);
    mouse_action(&mut s, 150, 150, true);
    let r = mouse_action(&mut s, 150, 150, false);
    assert_eq!(r, vec![MouseEvent::MoveTo(150, 150), MouseEvent::LeftUp]);
    assert!(!s.is_mouse_down());
}

#[test]
fn first_call_at_origin_without_pinch() {
    let mut s = AppState::new();
    let r = mouse_action(&mut s, 0, 0, false);
    assert_eq!(r, vec![MouseEvent::MoveTo(0, 0)]);
    assert!(!s.is_mouse_down());
}

#[test]
fn default_state_is_up() {
    let s = AppState::default();
    assert!(!s.is_mouse_down());
    let n = AppState::new();
    assert_eq!(s.is_mouse_down(), n.is_mouse_down());
}

#[test]
fn out_of_range_coordinates_are_forwarded() {
    let mut s = AppState::new();
    let r = mouse_action(&mut s, i32::MIN, i32::MAX, true);
    assert_eq!(r, vec![MouseEvent::MoveTo(i32::MIN, i32::MAX), MouseEvent::LeftDown]);
    let r = mouse_action(&mut s, -5, 70000, false);
    assert_eq!(r, vec![MouseEvent::MoveTo(-5, 70000), MouseEvent::LeftUp]);
}

fn run(calls: &[(i32, i32, bool)]) -> (Vec<MouseEvent>, AppState) {
    let mut s = AppState::new();
    let mut all = Vec::new();
    for &(x, y, p) in calls {
        all.extend(mouse_action(&mut s, x, y, p));
    }
    (all, s)
}

fn buttons(evs: &[MouseEvent]) -> Vec<MouseEvent> {
    evs.iter().copied().filter(|e| !matches!(e, MouseEvent::MoveTo(_, _))).collect()
}

#[test]
fn button_events_alternate_and_follow_last_pinch() {
    let calls = [
        (1, 1, true),
        (2, 2, true),
        (3, 3, false),
        (4, 4, false),
        (5, 5, true),
        (6, 6, false),
        (7, 7, true),
    ];
    let (evs, s) = run(&calls);
    let b = buttons(&evs);
    assert_eq!(
        b,
        vec![
            MouseEvent::LeftDown,
            MouseEvent::LeftUp,
            MouseEvent::LeftDown,
            MouseEvent::LeftUp,
            MouseEvent::LeftDown,
        ]
    );
    assert!(s.is_mouse_down());
    assert_eq!(b.len() % 2 == 1, s.is_mouse_down());
}

#[test]
fn repeated_pinch_presses_once() {
    let (evs, s) = run(&[(1, 2, true), (3, 4, true), (5, 6, true), (7, 8, true)]);
    assert_eq!(buttons(&evs), vec![MouseEvent::LeftDown]);
    assert!(s.is_mouse_down());
}

#[test]
fn repeated_release_after_hold_releases_once() {
    let mut s = AppState::new();
    mouse_action(&mut s, 0, 0, true);
    let mut evs = Vec::new();
    for i in 0..4 {
        evs.extend(mouse_action(&mut s, i, i, false));
    }
    assert_eq!(buttons(&evs), vec![MouseEvent::LeftUp]);
    assert!(!s.is_mouse_down());
}

#[test]
fn every_call_moves_in_order() {
    let calls = [(10, 20, false), (30, 40, true), (50, 60, true), (70, 80, false)];
    let (evs, _) = run(&calls);
    let moves: Vec<MouseEvent> =
        evs.iter().copied().filter(|e| matches!(e, MouseEvent::MoveTo(_, _))).collect();
    let expected: Vec<MouseEvent> = calls.iter().map(|&(x, y, _)| MouseEvent::MoveTo(x, y)).collect();
    assert_eq!(moves, expected);
    assert_eq!(
        evs,
        vec![
            MouseEvent::MoveTo(10, 20),
            MouseEvent::MoveTo(30, 40),
            MouseEvent::LeftDown,
            MouseEvent::MoveTo(50, 60),
            MouseEvent::MoveTo(70, 80),
            MouseEvent::LeftUp,
        ]
    );
}
