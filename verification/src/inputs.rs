//! Input-side vocabulary: the keys a user can press and the two kinds of
//! event the input multiplexer merges into one stream (key presses and the
//! periodic tick). The capture task itself polls the terminal outside this
//! library; the decisions it takes each cycle are the functions here.

use vstd::prelude::*;

verus! {

/// A physical key press, reduced to what the action bindings distinguish.
#[derive(Debug, Clone, Copy, PartialEq, Eq, Structural)]
pub enum Key {
    /// A plain printable character.
    Char(char),
    /// A character pressed together with Control.
    Ctrl(char),
    /// Any key the bindings never refer to.
    Unknown,
}

/// One event of the multiplexed input stream.
#[derive(Debug, Clone, Copy, PartialEq, Eq, Structural)]
pub enum InputEvent {
    /// A key press captured during the last polling interval.
    Input(Key),
    /// The periodic timer event, emitted once per polling interval.
    Tick,
}

impl InputEvent {
    /// The consumer-side fallback: the stream always yields an event, and a
    /// closed channel degrades to a tick rather than an error.
    pub fn or_tick(received: Option<InputEvent>) -> (r: InputEvent)
        ensures
            r == match received {
                Some(ev) => ev,
                None => InputEvent::Tick,
            },
    {
        match received {
            Some(ev) => ev,
            None => InputEvent::Tick,
        }
    }
}

/// What one polling cycle of the capture task emits, in order: at most one
/// key event, always followed by its trailing tick.
pub fn cycle_events(key: Option<Key>) -> (r: Vec<InputEvent>)
    ensures
        r@ == match key {
            Some(k) => seq![InputEvent::Input(k), InputEvent::Tick],
            None => seq![InputEvent::Tick],
        },
{
    let mut out: Vec<InputEvent> = Vec::new();
    match key {
        Some(k) => {
            out.push(InputEvent::Input(k));
            out.push(InputEvent::Tick);
            proof {
                assert(out@ =~= seq![InputEvent::Input(k), InputEvent::Tick]);
            }
        }
        None => {
            out.push(InputEvent::Tick);
            proof {
                assert(out@ =~= seq![InputEvent::Tick]);
            }
        }
    }
    out
}

} // verus!
