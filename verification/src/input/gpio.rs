//! Physical button decode: emits press events for the named buttons only;
//! release events are intentionally dropped at decode time.

use vstd::prelude::*;

use crate::input::RawInputEvent;

verus! {

/// Scan code of the left button.
pub const KEY_BTN_LEFT: u16 = 105;

/// Scan code of the middle (home) button.
pub const KEY_BTN_MIDDLE: u16 = 102;

/// Scan code of the right button.
pub const KEY_BTN_RIGHT: u16 = 106;

/// Scan code of the power button.
pub const KEY_BTN_POWER: u16 = 116;

/// Scan code of the wakeup button.
pub const KEY_BTN_WAKEUP: u16 = 143;

/// Button decode keeps no history.
#[derive(Clone, Copy, Debug, PartialEq, Eq, Structural)]
pub struct GPIOState {}

impl GPIOState {
    pub open spec fn spec_default() -> GPIOState {
        GPIOState {  }
    }

    pub fn new() -> (r: GPIOState)
        ensures
            r == GPIOState::spec_default(),
    {
        GPIOState {  }
    }
}

impl Default for GPIOState {
    fn default() -> (r: GPIOState)
        ensures
            r == GPIOState::spec_default(),
    {
        GPIOState {  }
    }
}

/// The named physical buttons.
#[derive(Clone, Copy, Debug, PartialEq, Eq, Structural)]
pub enum PhysicalButton {
    Left,
    Middle,
    Right,
    Power,
    Wakeup,
}

/// A decoded button event: presses only.
#[derive(Clone, Copy, Debug, PartialEq, Eq, Structural)]
pub enum GPIOEvent {
    Press { button: PhysicalButton },
    Unknown,
}

/// The button a scan code names, if any.
pub open spec fn spec_button_for(code: u16) -> Option<PhysicalButton> {
    if code == KEY_BTN_LEFT {
        Some(PhysicalButton::Left)
    } else if code == KEY_BTN_MIDDLE {
        Some(PhysicalButton::Middle)
    } else if code == KEY_BTN_RIGHT {
        Some(PhysicalButton::Right)
    } else if code == KEY_BTN_POWER {
        Some(PhysicalButton::Power)
    } else if code == KEY_BTN_WAKEUP {
        Some(PhysicalButton::Wakeup)
    } else {
        None
    }
}

/// One raw button record: a key press (type 1, value 1) of a named button
/// becomes a press event; releases and unnamed codes yield nothing.
pub open spec fn spec_gpio_decode(s: GPIOState, e: RawInputEvent) -> (
    GPIOState,
    Option<GPIOEvent>,
) {
    if e.etype == 1 && e.value == 1 {
        match spec_button_for(e.code) {
            Some(b) => (s, Some(GPIOEvent::Press { button: b })),
            None => (s, None),
        }
    } else {
        (s, None)
    }
}

/// Decodes one raw button record.
pub fn step(state: &mut GPIOState, event: &RawInputEvent) -> (r: Option<GPIOEvent>)
    ensures
        *final(state) == spec_gpio_decode(*old(state), *event).0,
        r == spec_gpio_decode(*old(state), *event).1,
{
    if event.etype == 1 && event.value == 1 {
        let b: Option<PhysicalButton> = if event.code == KEY_BTN_LEFT {
            Some(PhysicalButton::Left)
        } else if event.code == KEY_BTN_MIDDLE {
            Some(PhysicalButton::Middle)
        } else if event.code == KEY_BTN_RIGHT {
            Some(PhysicalButton::Right)
        } else if event.code == KEY_BTN_POWER {
            Some(PhysicalButton::Power)
        } else if event.code == KEY_BTN_WAKEUP {
            Some(PhysicalButton::Wakeup)
        } else {
            None
        };
        match b {
            Some(button) => Some(GPIOEvent::Press { button }),
            None => None,
        }
    } else {
        None
    }
}

} // verus!
