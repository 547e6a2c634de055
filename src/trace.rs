//! What a sequence of requests does, from a given button state: the state
//! after each request and the events issued, with the laws they obey.
//! A request is `(x, y, pinch)`, as `mouse_action` takes it.
use vstd::prelude::*;
use crate::dispatch::{MouseEvent, actions_for, next_down};

verus! {

/// Whether the button is held after the requests `calls`, starting from `down`.
pub open spec fn down_after(down: bool, calls: Seq<(i32, i32, bool)>) -> bool
    decreases calls.len(),
{
    if calls.len() == 0 {
        down
    } else {
        next_down(down_after(down, calls.drop_last()), calls.last().2)
    }
}

/// All events issued by the requests `calls`, in order, starting from `down`.
pub open spec fn events_of(down: bool, calls: Seq<(i32, i32, bool)>) -> Seq<MouseEvent>
    decreases calls.len(),
{
    if calls.len() == 0 {
        seq![]
    } else {
        let prev = calls.drop_last();
        let c = calls.last();
        events_of(down, prev) + actions_for(down_after(down, prev), c.0, c.1, c.2)
    }
}

/// The button events among `evs`, in order.
pub open spec fn button_events(evs: Seq<MouseEvent>) -> Seq<MouseEvent>
    decreases evs.len(),
{
    if evs.len() == 0 {
        seq![]
    } else if evs.last() is MoveTo {
        button_events(evs.drop_last())
    } else {
        button_events(evs.drop_last()).push(evs.last())
    }
}

/// The cursor moves among `evs`, in order.
pub open spec fn moves(evs: Seq<MouseEvent>) -> Seq<MouseEvent>
    decreases evs.len(),
{
    if evs.len() == 0 {
        seq![]
    } else if evs.last() is MoveTo {
        moves(evs.drop_last()).push(evs.last())
    } else {
        moves(evs.drop_last())
    }
}

/// `evs` alternates press, release, press, ... beginning with a press.
pub open spec fn alternates(evs: Seq<MouseEvent>) -> bool {
    forall|i: int|
        0 <= i < evs.len() ==> #[trigger] evs[i] == if i % 2 == 0 {
            MouseEvent::LeftDown
        } else {
            MouseEvent::LeftUp
        }
}

proof fn lemma_button_events_append(a: Seq<MouseEvent>, b: Seq<MouseEvent>)
    ensures
        button_events(a + b) == button_events(a) + button_events(b),
    decreases b.len(),
{
    if b.len() == 0 {
        assert(a + b =~= a);
        assert(button_events(a) + button_events(b) =~= button_events(a));
    } else {
        lemma_button_events_append(a, b.drop_last());
        assert((a + b).drop_last() =~= a + b.drop_last());
        assert((a + b).last() == b.last());
        if b.last() is MoveTo {
        } else {
            assert(button_events(a) + button_events(b.drop_last()).push(b.last()) =~= (
            button_events(a) + button_events(b.drop_last())).push(b.last()));
        }
    }
}

proof fn lemma_moves_append(a: Seq<MouseEvent>, b: Seq<MouseEvent>)
    ensures
        moves(a + b) == moves(a) + moves(b),
    decreases b.len(),
{
    if b.len() == 0 {
        assert(a + b =~= a);
        assert(moves(a) + moves(b) =~= moves(a));
    } else {
        lemma_moves_append(a, b.drop_last());
        assert((a + b).drop_last() =~= a + b.drop_last());
        assert((a + b).last() == b.last());
        if b.last() is MoveTo {
            assert(moves(a) + moves(b.drop_last()).push(b.last()) =~= (moves(a) + moves(
                b.drop_last(),
            )).push(b.last()));
        }
    }
}

/// The button events of one request: none, or its single press or release.
proof fn lemma_button_events_of_one(down: bool, x: i32, y: i32, pinch: bool)
    ensures
        button_events(actions_for(down, x, y, pinch)) == if pinch && !down {
            seq![MouseEvent::LeftDown]
        } else if !pinch && down {
            seq![MouseEvent::LeftUp]
        } else {
            Seq::<MouseEvent>::empty()
        },
        moves(actions_for(down, x, y, pinch)) == seq![MouseEvent::MoveTo(x, y)],
{
    let s = actions_for(down, x, y, pinch);
    let e = Seq::<MouseEvent>::empty();
    let m = seq![MouseEvent::MoveTo(x, y)];
    assert(m.drop_last() =~= e);
    assert(button_events(e) == e);
    assert(moves(e) == e);
    assert(button_events(m) == button_events(e));
    assert(moves(m) == moves(e).push(MouseEvent::MoveTo(x, y)));
    assert(moves(m) =~= m);
    if s.len() == 2 {
        assert(s.drop_last() =~= m);
        assert(button_events(s) == button_events(m).push(s.last()));
        assert(button_events(s) =~= seq![s.last()]);
    }
}

/// The button state follows the last request: after any sequence of
/// requests from the button-up state, the button is held iff there was a
/// request and the last one asked for a pinch. Its events never press twice
/// without a release between: they alternate press, release, ..., starting
/// with a press, and there is one more press than releases exactly while
/// the button is held.
pub proof fn lemma_button_pairs(calls: Seq<(i32, i32, bool)>)
    ensures
        down_after(false, calls) == (calls.len() > 0 && calls.last().2),
        alternates(button_events(events_of(false, calls))),
        (button_events(events_of(false, calls)).len() % 2 == 1) == down_after(false, calls),
    decreases calls.len(),
{
    if calls.len() > 0 {
        let prev = calls.drop_last();
        let c = calls.last();
        lemma_button_pairs(prev);
        let d = down_after(false, prev);
        lemma_button_events_append(events_of(false, prev), actions_for(d, c.0, c.1, c.2));
        lemma_button_events_of_one(d, c.0, c.1, c.2);
        let before = button_events(events_of(false, prev));
        let after = button_events(events_of(false, calls));
        assert forall|i: int| 0 <= i < after.len() implies #[trigger] after[i] == if i % 2 == 0 {
            MouseEvent::LeftDown
        } else {
            MouseEvent::LeftUp
        } by {
            if i < before.len() {
                assert(after[i] == before[i]);
            }
        }
    }
}

/// Repeated requests with the same `pinch` issue at most one button event,
/// whatever the state they start from: a single press for `pinch` from the
/// button-up state, a single release for no pinch from the button-down
/// state, and none otherwise.
pub proof fn lemma_repeat_idempotent(down: bool, calls: Seq<(i32, i32, bool)>, pinch: bool)
    requires
        forall|i: int| 0 <= i < calls.len() ==> (#[trigger] calls[i]).2 == pinch,
    ensures
        button_events(events_of(down, calls)).len() <= 1,
        button_events(events_of(down, calls)).len() == 1 <==> (calls.len() > 0 && pinch != down),
        calls.len() > 0 ==> down_after(down, calls) == pinch,
    decreases calls.len(),
{
    if calls.len() > 0 {
        let prev = calls.drop_last();
        let c = calls.last();
        assert forall|i: int| 0 <= i < prev.len() implies (#[trigger] prev[i]).2 == pinch by {
            assert(prev[i] == calls[i]);
        }
        lemma_repeat_idempotent(down, prev, pinch);
        assert(c == calls[calls.len() - 1]);
        let d = down_after(down, prev);
        lemma_button_events_append(events_of(down, prev), actions_for(d, c.0, c.1, c.2));
        lemma_button_events_of_one(d, c.0, c.1, c.2);
    }
}

/// Every request moves the cursor, whatever its `pinch` and the button
/// state: the moves among the events are exactly the requests' coordinates,
/// in order.
pub proof fn lemma_every_call_moves(down: bool, calls: Seq<(i32, i32, bool)>)
    ensures
        moves(events_of(down, calls)) == calls.map_values(
            |c: (i32, i32, bool)| MouseEvent::MoveTo(c.0, c.1),
        ),
    decreases calls.len(),
{
    if calls.len() == 0 {
        assert(calls.map_values(|c: (i32, i32, bool)| MouseEvent::MoveTo(c.0, c.1))
            =~= Seq::<MouseEvent>::empty());
    } else {
        let prev = calls.drop_last();
        let c = calls.last();
        lemma_every_call_moves(down, prev);
        let d = down_after(down, prev);
        lemma_moves_append(events_of(down, prev), actions_for(d, c.0, c.1, c.2));
        lemma_button_events_of_one(d, c.0, c.1, c.2);
        assert(calls.map_values(|c: (i32, i32, bool)| MouseEvent::MoveTo(c.0, c.1))
            =~= prev.map_values(|c: (i32, i32, bool)| MouseEvent::MoveTo(c.0, c.1)).push(
            MouseEvent::MoveTo(c.0, c.1),
        ));
    }
}

} // verus!
