//! The merged event stream's vocabulary, and its fan-in priority.
//!
//! The blocking keyboard reader and the fixed-period ticker live with
//! the runtime outside the core; what is verified here is the shape of
//! an event and the one decision the merge point makes: a ready key
//! always beats a ready tick.

use vstd::prelude::*;

verus! {

/// A keyboard key, as the core sees it.
#[derive(Clone, Copy, PartialEq, Eq, Structural, Debug)]
pub enum Key {
    Backspace,
    Left,
    Right,
    Up,
    Down,
    Home,
    End,
    PageUp,
    PageDown,
    Delete,
    Insert,
    F(u8),
    Char(char),
    Alt(char),
    Ctrl(char),
    Null,
    Esc,
}

/// One element of the merged input stream.
#[derive(Clone, Copy, PartialEq, Eq, Structural, Debug)]
pub enum Event {
    Input(Key),
    Tick,
}

/// The merge point's choice when polled: a ready key wins over a ready
/// tick (keyboard responsiveness over clock granularity); with neither
/// ready there is nothing to yield.
pub fn next_event(key: Option<Key>, tick_ready: bool) -> (r: Option<Event>)
    ensures
        r == match key {
            Some(k) => Some(Event::Input(k)),
            None => if tick_ready {
                Some(Event::Tick)
            } else {
                None::<Event>
            },
        },
{
    match key {
        Some(k) => Some(Event::Input(k)),
        None => if tick_ready {
            Some(Event::Tick)
        } else {
            None
        },
    }
}

} // verus!
