//! Hover tracking for a widget: from pointer events and a hit test against
//! the widget's bounds, decide when the cursor enters or leaves it.

use vstd::prelude::*;

verus! {

/// A pointer event, as far as hover tracking is concerned.
#[derive(Debug, Clone, Copy, PartialEq, Eq, Structural)]
pub enum PointerEvent {
    /// The cursor moved, or a button was released (panning moves the widget
    /// under a stationary cursor); `over` is whether the cursor is now over
    /// the widget's bounds.
    Moved { over: bool },
    /// The cursor left the window entirely.
    LeftWindow,
    /// Any other event.
    Other,
}

/// What to report after an event.
#[derive(Debug, Clone, Copy, PartialEq, Eq, Structural)]
pub enum HoverSignal {
    /// The cursor entered the widget.
    Enter,
    /// The cursor left the widget.
    Leave,
}

/// The hover state after `event` from state `hovered`, and the signal to
/// report, if any.
pub open spec fn step_of(hovered: bool, event: PointerEvent) -> (bool, Option<HoverSignal>) {
    match event {
        PointerEvent::Moved { over } => if hovered != over {
            (over, Some(if over { HoverSignal::Enter } else { HoverSignal::Leave }))
        } else {
            (hovered, None)
        },
        PointerEvent::LeftWindow => if hovered {
            (false, Some(HoverSignal::Leave))
        } else {
            (hovered, None)
        },
        PointerEvent::Other => (hovered, None),
    }
}

/// Track one pointer event: the new hover state and the signal to report.
pub fn hover_step(hovered: bool, event: PointerEvent) -> (r: (bool, Option<HoverSignal>))
    ensures
        r == step_of(hovered, event),
{
    match event {
        PointerEvent::Moved { over } => {
            if hovered != over {
                (over, Some(if over { HoverSignal::Enter } else { HoverSignal::Leave }))
            } else {
                (hovered, None)
            }
        },
        PointerEvent::LeftWindow => {
            if hovered {
                (false, Some(HoverSignal::Leave))
            } else {
                (hovered, None)
            }
        },
        PointerEvent::Other => (hovered, None),
    }
}

/// The state after a run of events from `hovered`, and the signals reported.
pub open spec fn run_of(hovered: bool, events: Seq<PointerEvent>) -> (bool, Seq<HoverSignal>)
    decreases events.len(),
{
    if events.len() == 0 {
        (hovered, seq![])
    } else {
        let (h, signals) = run_of(hovered, events.drop_last());
        let (h2, s) = step_of(h, events.last());
        (h2, match s {
            Some(sig) => signals.push(sig),
            None => signals,
        })
    }
}

/// Enter and leave signals alternate: the first one changes the initial
/// state, each later one undoes the one before, and the hover state at the
/// end is the one the last signal reported (the initial one if none). From a
/// widget's initial state (not hovered) the signals are therefore enter,
/// leave, enter, ..., and the widget is hovered exactly when the last one
/// was enter.
pub proof fn law_enter_leave_alternate(hovered: bool, events: Seq<PointerEvent>)
    ensures
        forall|i: int|
            0 <= i < run_of(hovered, events).1.len() ==> (#[trigger] run_of(hovered, events).1[i]
                == HoverSignal::Enter) == ((i % 2 == 0) != hovered),
        run_of(hovered, events).0 == ((run_of(hovered, events).1.len() % 2 == 1) != hovered),
    decreases events.len(),
{
    if events.len() > 0 {
        law_enter_leave_alternate(hovered, events.drop_last());
        let (h, signals) = run_of(hovered, events.drop_last());
        let (h2, s) = step_of(h, events.last());
        if let Some(sig) = s {
            assert forall|i: int| 0 <= i < signals.push(sig).len() implies (#[trigger] signals.push(
                sig,
            )[i] == HoverSignal::Enter) == ((i % 2 == 0) != hovered) by {
                if i < signals.len() {
                    assert(signals.push(sig)[i] == signals[i]);
                }
            }
        }
    }
}


/// Only cursor moves and leaving the window matter: any other event keeps
/// the state and reports nothing. A move sets the state to whether the cursor
/// is over the widget, and leaving the window clears it. A signal is
/// reported exactly when the state changes: enter only when the cursor moved
/// over the widget, leave only when it moved off it or left the window.
pub proof fn law_hover_step_follows_the_cursor(hovered: bool, event: PointerEvent)
    ensures
        event is Other ==> step_of(hovered, event) == (hovered, None::<HoverSignal>),
        event matches PointerEvent::Moved { over } ==> step_of(hovered, event).0 == over,
        event is LeftWindow ==> !step_of(hovered, event).0,
        step_of(hovered, event).1 is Some <==> step_of(hovered, event).0 != hovered,
        step_of(hovered, event).1 == Some(HoverSignal::Enter) ==> event == (PointerEvent::Moved {
            over: true,
        }) && !hovered,
        step_of(hovered, event).1 == Some(HoverSignal::Leave) ==> hovered && (event == (
        PointerEvent::Moved { over: false }) || event is LeftWindow),
{
}

} // verus!
