//! Stylus digitizer decode: distinguishes a pen in range from a pen touching
//! the surface. Position samples become draw events while touching and hover
//! events while merely in range; a hover farther than `HOVER_CLEAR_DISTANCE`
//! clears the in-progress stroke history — so the next contact does not jump
//! from a stale start point — and marks that an unpress was observed, letting
//! the application redirect a subsequent off-canvas contact to button
//! dispatch.

use vstd::prelude::*;

use crate::input::RawInputEvent;

verus! {

/// Key code of the pen tool proximity switch.
pub const BTN_TOOL_PEN: u16 = 320;

/// Key code of the rubber (eraser) tool proximity switch.
pub const BTN_TOOL_RUBBER: u16 = 321;

/// Key code of the tip-touching switch.
pub const BTN_TOUCH: u16 = 330;

/// Key code of the first stylus button.
pub const BTN_STYLUS: u16 = 331;

/// Key code of the second stylus button.
pub const BTN_STYLUS2: u16 = 332;

/// Absolute x-position code.
pub const ABS_X: u16 = 0;

/// Absolute y-position code.
pub const ABS_Y: u16 = 1;

/// Absolute tip pressure code.
pub const ABS_PRESSURE: u16 = 24;

/// Absolute hover distance code.
pub const ABS_DISTANCE: u16 = 25;

/// Hovering farther than this clears the stroke history.
pub const HOVER_CLEAR_DISTANCE: u16 = 50;

/// The pen instruments whose proximity the digitizer reports.
#[derive(Clone, Copy, Debug, PartialEq, Eq, Structural)]
pub enum WacomPen {
    ToolPen,
    ToolRubber,
    Touch,
    Stylus,
    Stylus2,
}

/// A decoded stylus event.
#[derive(Clone, Copy, Debug, PartialEq, Eq, Structural)]
pub enum WacomEvent {
    InstrumentChange { pen: WacomPen, state: bool },
    Hover { y: u16, x: u16, distance: u16 },
    Draw { y: u16, x: u16, pressure: u16 },
    Unknown,
}

/// Private decode state of the stylus: the sample being assembled, the
/// instrument switches, and the stroke history.
#[derive(Clone, Copy, Debug, PartialEq, Eq, Structural)]
pub struct WacomState {
    pub last_x: u16,
    pub last_y: u16,
    pub last_pressure: u16,
    pub last_distance: u16,
    /// The pen (or rubber) is in the digitizer's range.
    pub in_range: bool,
    /// The tip is touching the surface.
    pub touching: bool,
    /// A stroke is in progress: `stroke_x`/`stroke_y` hold its last contact.
    pub stroke_active: bool,
    pub stroke_x: u16,
    pub stroke_y: u16,
    /// An unpress (tip leaving the surface, or a far hover) was observed
    /// since the last contact.
    pub unpress_observed: bool,
}

impl WacomState {
    pub open spec fn spec_default() -> WacomState {
        WacomState {
            last_x: 0,
            last_y: 0,
            last_pressure: 0,
            last_distance: 0,
            in_range: false,
            touching: false,
            stroke_active: false,
            stroke_x: 0,
            stroke_y: 0,
            unpress_observed: false,
        }
    }

    pub fn new() -> (r: WacomState)
        ensures
            r == WacomState::spec_default(),
    {
        WacomState {
            last_x: 0,
            last_y: 0,
            last_pressure: 0,
            last_distance: 0,
            in_range: false,
            touching: false,
            stroke_active: false,
            stroke_x: 0,
            stroke_y: 0,
            unpress_observed: false,
        }
    }
}

impl Default for WacomState {
    fn default() -> (r: WacomState)
        ensures
            r == WacomState::spec_default(),
    {
        WacomState::new()
    }
}

/// The instrument a proximity key code names, if any.
pub open spec fn spec_pen_for(code: u16) -> Option<WacomPen> {
    if code == BTN_TOOL_PEN {
        Some(WacomPen::ToolPen)
    } else if code == BTN_TOOL_RUBBER {
        Some(WacomPen::ToolRubber)
    } else if code == BTN_TOUCH {
        Some(WacomPen::Touch)
    } else if code == BTN_STYLUS {
        Some(WacomPen::Stylus)
    } else if code == BTN_STYLUS2 {
        Some(WacomPen::Stylus2)
    } else {
        None
    }
}

/// The event a completed position sample produces: a draw while touching, a
/// hover while merely in range, nothing otherwise.
pub open spec fn spec_sample(s: WacomState) -> Option<WacomEvent> {
    if s.touching {
        Some(WacomEvent::Draw { y: s.last_y, x: s.last_x, pressure: s.last_pressure })
    } else if s.in_range {
        Some(WacomEvent::Hover { y: s.last_y, x: s.last_x, distance: s.last_distance })
    } else {
        None
    }
}

/// One raw digitizer record.
///
/// A proximity key record flips the matching switch and reports the
/// instrument change; the tip leaving the surface also marks an unpress. An
/// absolute record updates the sample and emits it; a draw extends the
/// stroke history, and a far hover clears it and marks an unpress. Anything
/// else, including out-of-range values, yields nothing.
pub open spec fn spec_wacom_decode(s: WacomState, e: RawInputEvent) -> (
    WacomState,
    Option<WacomEvent>,
) {
    if e.etype == 1 {
        match spec_pen_for(e.code) {
            Some(pen) => {
                let on = e.value != 0;
                let s2 = if e.code == BTN_TOUCH {
                    if on {
                        WacomState { touching: true, ..s }
                    } else {
                        WacomState { touching: false, unpress_observed: true, ..s }
                    }
                } else if e.code == BTN_TOOL_PEN || e.code == BTN_TOOL_RUBBER {
                    WacomState { in_range: on, ..s }
                } else {
                    s
                };
                (s2, Some(WacomEvent::InstrumentChange { pen, state: on }))
            },
            None => (s, None),
        }
    } else if e.etype == 3 && 0 <= e.value <= u16::MAX {
        let v = e.value as u16;
        let s1 = if e.code == ABS_X {
            WacomState { last_x: v, ..s }
        } else if e.code == ABS_Y {
            WacomState { last_y: v, ..s }
        } else if e.code == ABS_PRESSURE {
            WacomState { last_pressure: v, ..s }
        } else if e.code == ABS_DISTANCE {
            WacomState { last_distance: v, ..s }
        } else {
            s
        };
        if !(e.code == ABS_X || e.code == ABS_Y || e.code == ABS_PRESSURE || e.code
            == ABS_DISTANCE) {
            (s, None)
        } else {
            let s2 = if s1.touching {
                WacomState { stroke_active: true, stroke_x: s1.last_x, stroke_y: s1.last_y, ..s1 }
            } else if s1.in_range && s1.last_distance > HOVER_CLEAR_DISTANCE {
                WacomState { stroke_active: false, unpress_observed: true, ..s1 }
            } else {
                s1
            };
            (s2, spec_sample(s1))
        }
    } else {
        (s, None)
    }
}

/// Decodes one raw digitizer record.
pub fn step(state: &mut WacomState, event: &RawInputEvent) -> (r: Option<WacomEvent>)
    ensures
        *final(state) == spec_wacom_decode(*old(state), *event).0,
        r == spec_wacom_decode(*old(state), *event).1,
{
    if event.etype == 1 {
        let pen: Option<WacomPen> = if event.code == BTN_TOOL_PEN {
            Some(WacomPen::ToolPen)
        } else if event.code == BTN_TOOL_RUBBER {
            Some(WacomPen::ToolRubber)
        } else if event.code == BTN_TOUCH {
            Some(WacomPen::Touch)
        } else if event.code == BTN_STYLUS {
            Some(WacomPen::Stylus)
        } else if event.code == BTN_STYLUS2 {
            Some(WacomPen::Stylus2)
        } else {
            None
        };
        match pen {
            Some(p) => {
                let on = event.value != 0;
                if event.code == BTN_TOUCH {
                    state.touching = on;
                    if !on {
                        state.unpress_observed = true;
                    }
                } else if event.code == BTN_TOOL_PEN || event.code == BTN_TOOL_RUBBER {
                    state.in_range = on;
                }
                Some(WacomEvent::InstrumentChange { pen: p, state: on })
            },
            None => None,
        }
    } else if event.etype == 3 && event.value >= 0 && event.value <= u16::MAX as i32 {
        let v = event.value as u16;
        if event.code == ABS_X || event.code == ABS_Y || event.code == ABS_PRESSURE || event.code
            == ABS_DISTANCE {
            if event.code == ABS_X {
                state.last_x = v;
            } else if event.code == ABS_Y {
                state.last_y = v;
            } else if event.code == ABS_PRESSURE {
                state.last_pressure = v;
            } else {
                state.last_distance = v;
            }
            let sample: Option<WacomEvent> = if state.touching {
                Some(
                    WacomEvent::Draw {
                        y: state.last_y,
                        x: state.last_x,
                        pressure: state.last_pressure,
                    },
                )
            } else if state.in_range {
                Some(
                    WacomEvent::Hover {
                        y: state.last_y,
                        x: state.last_x,
                        distance: state.last_distance,
                    },
                )
            } else {
                None
            };
            if state.touching {
                state.stroke_active = true;
                state.stroke_x = state.last_x;
                state.stroke_y = state.last_y;
            } else if state.in_range && state.last_distance > HOVER_CLEAR_DISTANCE {
                state.stroke_active = false;
                state.unpress_observed = true;
            }
            sample
        } else {
            None
        }
    } else {
        None
    }
}

} // verus!
