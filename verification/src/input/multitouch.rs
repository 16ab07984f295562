//! Multitouch decode: emits touch coordinates only; what to draw from them
//! is an application concern.

use vstd::prelude::*;

use crate::input::RawInputEvent;

verus! {

/// Absolute multitouch x-position code.
pub const ABS_MT_POSITION_X: u16 = 53;

/// Absolute multitouch y-position code.
pub const ABS_MT_POSITION_Y: u16 = 54;

/// The coordinate pair being assembled from successive position records.
#[derive(Clone, Copy, Debug, PartialEq, Eq, Structural)]
pub struct MultitouchState {
    pub last_x: u16,
    pub last_y: u16,
}

impl MultitouchState {
    pub open spec fn spec_default() -> MultitouchState {
        MultitouchState { last_x: 0, last_y: 0 }
    }

    pub fn new() -> (r: MultitouchState)
        ensures
            r == MultitouchState::spec_default(),
    {
        MultitouchState { last_x: 0, last_y: 0 }
    }
}

impl Default for MultitouchState {
    fn default() -> (r: MultitouchState)
        ensures
            r == MultitouchState::spec_default(),
    {
        MultitouchState::new()
    }
}

/// A decoded touch: the finger's panel coordinates.
#[derive(Clone, Copy, Debug, PartialEq, Eq, Structural)]
pub enum MultitouchEvent {
    Touch { y: u16, x: u16 },
    Unknown,
}

/// One raw multitouch record: an x-position is stored, a y-position
/// completes a coordinate pair and emits it; every other record, and any
/// coordinate outside the 16-bit panel range, yields nothing.
pub open spec fn spec_multitouch_decode(s: MultitouchState, e: RawInputEvent) -> (
    MultitouchState,
    Option<MultitouchEvent>,
) {
    if e.etype == 3 && 0 <= e.value <= u16::MAX {
        if e.code == ABS_MT_POSITION_X {
            (MultitouchState { last_x: e.value as u16, ..s }, None)
        } else if e.code == ABS_MT_POSITION_Y {
            let s2 = MultitouchState { last_y: e.value as u16, ..s };
            (s2, Some(MultitouchEvent::Touch { y: s2.last_y, x: s2.last_x }))
        } else {
            (s, None)
        }
    } else {
        (s, None)
    }
}

/// Decodes one raw multitouch record.
pub fn step(state: &mut MultitouchState, event: &RawInputEvent) -> (r: Option<MultitouchEvent>)
    ensures
        *final(state) == spec_multitouch_decode(*old(state), *event).0,
        r == spec_multitouch_decode(*old(state), *event).1,
{
    if event.etype == 3 && event.value >= 0 && event.value <= u16::MAX as i32 {
        let v = event.value as u16;
        if event.code == ABS_MT_POSITION_X {
            state.last_x = v;
            None
        } else if event.code == ABS_MT_POSITION_Y {
            state.last_y = v;
            Some(MultitouchEvent::Touch { y: state.last_y, x: state.last_x })
        } else {
            None
        }
    } else {
        None
    }
}

} // verus!
