//! Per-frame state machine of a bubble stream.
use vstd::prelude::*;

verus! {

/// Where a frame stands relative to the segments of a bubble.
#[derive(Clone, Copy, Debug, PartialEq, Eq, Hash, Structural)]
pub enum BubState {
    /// First frame of a segment; its header is read at this frame.
    Head,
    /// A later frame of a segment.
    Body,
    /// Silence between two segments.
    Stopped,
    /// Silence after the last segment.
    Ended,
}

impl BubState {
    pub fn is_head(&self) -> (r: bool)
        ensures
            r == (*self == BubState::Head),
    {
        match self {
            BubState::Head => true,
            _ => false,
        }
    }

    pub fn is_body(&self) -> (r: bool)
        ensures
            r == (*self == BubState::Body),
    {
        match self {
            BubState::Body => true,
            _ => false,
        }
    }

    pub fn is_stopped(&self) -> (r: bool)
        ensures
            r == (*self == BubState::Stopped),
    {
        match self {
            BubState::Stopped => true,
            _ => false,
        }
    }

    pub fn is_ended(&self) -> (r: bool)
        ensures
            r == (*self == BubState::Ended),
    {
        match self {
            BubState::Ended => true,
            _ => false,
        }
    }
}

/// The state entered when a segment ends at frame `pos`: the next segment's
/// head if it starts right here, silence if it starts later, the end if there
/// is none.
pub open spec fn boundary_state(pos: u64, next_head: Option<u64>) -> BubState {
    match next_head {
        Some(n) => if n == pos {
            BubState::Head
        } else {
            BubState::Stopped
        },
        None => BubState::Ended,
    }
}

/// The transition table: the state of frame `pos` given the state of the
/// frame before it.
pub open spec fn next_state(state: BubState, pos: u64, foot: u64, next_head: Option<u64>) -> BubState {
    match state {
        BubState::Head => if foot == pos {
            boundary_state(pos, next_head)
        } else {
            BubState::Body
        },
        BubState::Body => if foot == pos {
            boundary_state(pos, next_head)
        } else {
            BubState::Body
        },
        BubState::Stopped => if next_head == Some(pos) {
            BubState::Head
        } else {
            BubState::Stopped
        },
        BubState::Ended => BubState::Ended,
    }
}

} // verus!
