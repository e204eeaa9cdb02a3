//! The input buffer: a single slot that holds the latest direction request
//! until the next tick consumes it.

use crate::grid::Direction;
use crate::snake::{arbitrate, spec_arbitrate};
use vstd::prelude::*;

verus! {

/// A key as the input source reports it. Twelve keys steer the snake: the
/// arrow keys and two letter sets. Every other key is `Other`.
#[derive(Clone, Copy, Debug, PartialEq, Eq, Structural)]
pub enum Key {
    ArrowUp,
    ArrowDown,
    ArrowLeft,
    ArrowRight,
    W,
    A,
    S,
    D,
    I,
    J,
    K,
    L,
    Other,
}

impl Key {
    /// The direction a key asks for, if it is a steering key.
    pub open spec fn spec_direction(self) -> Option<Direction> {
        match self {
            Key::ArrowUp | Key::W | Key::I => Some(Direction::Up),
            Key::ArrowDown | Key::S | Key::K => Some(Direction::Down),
            Key::ArrowLeft | Key::A | Key::J => Some(Direction::Left),
            Key::ArrowRight | Key::D | Key::L => Some(Direction::Right),
            Key::Other => None,
        }
    }

    /// The direction a key asks for, if it is a steering key.
    #[verifier::when_used_as_spec(spec_direction)]
    pub fn direction(self) -> (r: Option<Direction>)
        ensures
            r == self.spec_direction(),
    {
        match self {
            Key::ArrowUp | Key::W | Key::I => Some(Direction::Up),
            Key::ArrowDown | Key::S | Key::K => Some(Direction::Down),
            Key::ArrowLeft | Key::A | Key::J => Some(Direction::Left),
            Key::ArrowRight | Key::D | Key::L => Some(Direction::Right),
            Key::Other => None,
        }
    }
}

/// Some key among `keys` asks for direction `d`.
pub open spec fn asks_for(keys: Seq<Key>, d: Direction) -> bool {
    exists|i: int| 0 <= i < keys.len() && (#[trigger] keys[i]).spec_direction() == Some(d)
}

/// The request that the keys pressed within one frame amount to. The four
/// directions are looked at in the order up, down, left, right, and the last
/// one asked for wins.
pub open spec fn frame_request(keys: Seq<Key>) -> Option<Direction> {
    if asks_for(keys, Direction::Right) {
        Some(Direction::Right)
    } else if asks_for(keys, Direction::Left) {
        Some(Direction::Left)
    } else if asks_for(keys, Direction::Down) {
        Some(Direction::Down)
    } else if asks_for(keys, Direction::Up) {
        Some(Direction::Up)
    } else {
        None
    }
}

/// Whether some key among `keys` asks for direction `d`.
pub fn any_asks_for(keys: &Vec<Key>, d: Direction) -> (b: bool)
    ensures
        b == asks_for(keys@, d),
{
    let mut i: usize = 0;
    while i < keys.len()
        invariant
            i <= keys.len(),
            forall|j: int| 0 <= j < i ==> (#[trigger] keys@[j]).spec_direction() != Some(d),
        decreases keys.len() - i,
    {
        match keys[i].direction() {
            Some(asked) => {
                if asked == d {
                    return true;
                }
            },
            None => {},
        }
        i += 1;
    }
    false
}

/// Single-slot buffer for the player's latest direction request.
#[derive(Clone, Copy, Debug, PartialEq, Eq, Structural)]
pub struct InputBuffer {
    pending: Direction,
}

impl InputBuffer {
    /// The request currently held.
    pub closed spec fn spec_pending(&self) -> Direction {
        self.pending
    }

    /// A buffer holding `initial`.
    pub fn new(initial: Direction) -> (b: InputBuffer)
        ensures
            b.spec_pending() == initial,
    {
        InputBuffer { pending: initial }
    }

    #[verifier::when_used_as_spec(spec_pending)]
    pub fn pending(&self) -> (d: Direction)
        ensures
            d == self.spec_pending(),
    {
        self.pending
    }

    /// Stores a request, replacing whatever was held.
    pub fn request(&mut self, d: Direction)
        ensures
            final(self).spec_pending() == d,
    {
        self.pending = d;
    }

    /// Handles one key press: a steering key replaces the held request, any
    /// other key is ignored.
    pub fn press(&mut self, key: Key)
        ensures
            final(self).spec_pending() == match key.spec_direction() {
                Some(d) => d,
                None => old(self).spec_pending(),
            },
    {
        match key.direction() {
            Some(d) => {
                self.pending = d;
            },
            None => {},
        }
    }

    /// Handles all keys pressed within one frame. The held request is
    /// replaced by the frame's request, and kept where no steering key was
    /// pressed.
    pub fn press_frame(&mut self, keys: &Vec<Key>)
        ensures
            final(self).spec_pending() == match frame_request(keys@) {
                Some(d) => d,
                None => old(self).spec_pending(),
            },
    {
        if any_asks_for(keys, Direction::Up) {
            self.pending = Direction::Up;
        }
        if any_asks_for(keys, Direction::Down) {
            self.pending = Direction::Down;
        }
        if any_asks_for(keys, Direction::Left) {
            self.pending = Direction::Left;
        }
        if any_asks_for(keys, Direction::Right) {
            self.pending = Direction::Right;
        }
    }

    /// Consumes the held request for a snake travelling in `current`: the
    /// request is arbitrated against `current`, the result is returned and
    /// also becomes the held request.
    pub fn consume(&mut self, current: Direction) -> (d: Direction)
        ensures
            d == spec_arbitrate(current, old(self).spec_pending()),
            d != current.spec_opposite(),
            final(self).spec_pending() == d,
    {
        let d = arbitrate(current, self.pending);
        self.pending = d;
        d
    }
}

} // verus!
