//! Input device pipeline: per-device decode state machines turning raw
//! kernel input events into typed domain events.
//!
//! Each physical device kind owns private decode state, mutated only while
//! decoding its own events. Decoding is a pure transition
//! `(state, raw event) -> (state, optional event)` — `spec_decode` — so the
//! same raw event decoded twice from the same state yields the same result
//! (`lemma_decode_deterministic`); raw events with no mapping are dropped,
//! never fatal.

pub mod ev;
pub mod gpio;
pub mod keyboard;
pub mod multitouch;
pub mod wacom;

use vstd::prelude::*;

verus! {

/// A raw kernel input event: the type, code and value of one
/// `/dev/input/eventN` record. The runtime reads these from the device and
/// hands them to the decoders.
#[derive(Clone, Copy, Debug, PartialEq, Eq, Structural)]
pub struct RawInputEvent {
    pub etype: u16,
    pub code: u16,
    pub value: i32,
}

/// The physical input devices this layer understands.
#[derive(PartialEq, Copy, Clone, Debug, Eq, Structural)]
pub enum InputDevice {
    Wacom,
    Multitouch,
    GPIO,
    Keyboard,
    Unknown,
}

/// Private decode state of one device, tagged by device kind.
#[derive(Clone, Copy, Debug, PartialEq, Eq, Structural)]
pub enum InputDeviceState {
    WacomState(wacom::WacomState),
    MultitouchState(multitouch::MultitouchState),
    GPIOState(gpio::GPIOState),
    KeyboardState(keyboard::KeyboardState),
}

impl InputDeviceState {
    /// The state a freshly constructed `dev` pipeline starts from.
    pub open spec fn spec_default_for(dev: InputDevice) -> InputDeviceState {
        match dev {
            InputDevice::Wacom => InputDeviceState::WacomState(wacom::WacomState::spec_default()),
            InputDevice::Multitouch => InputDeviceState::MultitouchState(
                multitouch::MultitouchState::spec_default(),
            ),
            InputDevice::GPIO => InputDeviceState::GPIOState(gpio::GPIOState::spec_default()),
            _ => InputDeviceState::KeyboardState(keyboard::KeyboardState::spec_default()),
        }
    }

    /// The state matches the device kind it was built for.
    pub open spec fn spec_matches(self, dev: InputDevice) -> bool {
        match dev {
            InputDevice::Wacom => self is WacomState,
            InputDevice::Multitouch => self is MultitouchState,
            InputDevice::GPIO => self is GPIOState,
            InputDevice::Keyboard => self is KeyboardState,
            InputDevice::Unknown => false,
        }
    }

    /// Default (zeroed) decode state for the given device kind.
    pub fn new(dev: InputDevice) -> (r: InputDeviceState)
        requires
            dev != InputDevice::Unknown,
        ensures
            r == InputDeviceState::spec_default_for(dev),
            r.spec_matches(dev),
    {
        match dev {
            InputDevice::GPIO => InputDeviceState::GPIOState(gpio::GPIOState::new()),
            InputDevice::Wacom => InputDeviceState::WacomState(wacom::WacomState::new()),
            InputDevice::Multitouch => InputDeviceState::MultitouchState(
                multitouch::MultitouchState::new(),
            ),
            _ => InputDeviceState::KeyboardState(keyboard::KeyboardState::new()),
        }
    }
}

/// A decoded event from any device; consumers pattern-match on the tag and
/// need no back-reference to the device.
#[derive(PartialEq, Clone, Copy, Debug, Eq, Structural)]
pub enum InputEvent {
    WacomEvent { event: wacom::WacomEvent },
    MultitouchEvent { event: multitouch::MultitouchEvent },
    GPIO { event: gpio::GPIOEvent },
    Keyboard { event: keyboard::KeyboardEvent },
    Unknown {},
}

impl Default for InputEvent {
    fn default() -> (r: InputEvent)
        ensures
            r == (InputEvent::Unknown {  }),
    {
        InputEvent::Unknown {  }
    }
}

impl From<keyboard::KeyboardEvent> for InputEvent {
    fn from(event: keyboard::KeyboardEvent) -> (r: Self) {
        InputEvent::Keyboard { event }
    }
}

impl vstd::std_specs::convert::FromSpecImpl<keyboard::KeyboardEvent> for InputEvent {
    open spec fn obeys_from_spec() -> bool {
        true
    }

    open spec fn from_spec(event: keyboard::KeyboardEvent) -> InputEvent {
        InputEvent::Keyboard { event }
    }
}

/// The decode transition of a whole device pipeline: dispatches the raw
/// event to the decoder owning the tagged state.
pub open spec fn spec_decode(s: InputDeviceState, e: RawInputEvent) -> (
    InputDeviceState,
    Option<InputEvent>,
) {
    match s {
        InputDeviceState::WacomState(w) => {
            let t = wacom::spec_wacom_decode(w, e);
            (
                InputDeviceState::WacomState(t.0),
                match t.1 {
                    Some(ev) => Some(InputEvent::WacomEvent { event: ev }),
                    None => None,
                },
            )
        },
        InputDeviceState::MultitouchState(m) => {
            let t = multitouch::spec_multitouch_decode(m, e);
            (
                InputDeviceState::MultitouchState(t.0),
                match t.1 {
                    Some(ev) => Some(InputEvent::MultitouchEvent { event: ev }),
                    None => None,
                },
            )
        },
        InputDeviceState::GPIOState(g) => {
            let t = gpio::spec_gpio_decode(g, e);
            (
                InputDeviceState::GPIOState(t.0),
                match t.1 {
                    Some(ev) => Some(InputEvent::GPIO { event: ev }),
                    None => None,
                },
            )
        },
        InputDeviceState::KeyboardState(k) => {
            let t = keyboard::spec_keyboard_decode(k, e);
            (
                InputDeviceState::KeyboardState(t.0),
                match t.1 {
                    Some(ev) => Some(InputEvent::Keyboard { event: ev }),
                    None => None,
                },
            )
        },
    }
}

/// Decodes one raw event against the device state that owns it, updating the
/// state in place.
pub fn decode_event(state: &mut InputDeviceState, event: &RawInputEvent) -> (r: Option<InputEvent>)
    ensures
        *final(state) == spec_decode(*old(state), *event).0,
        r == spec_decode(*old(state), *event).1,
{
    match state {
        InputDeviceState::WacomState(w) => {
            match wacom::step(w, event) {
                Some(ev) => Some(InputEvent::WacomEvent { event: ev }),
                None => None,
            }
        },
        InputDeviceState::MultitouchState(m) => {
            match multitouch::step(m, event) {
                Some(ev) => Some(InputEvent::MultitouchEvent { event: ev }),
                None => None,
            }
        },
        InputDeviceState::GPIOState(g) => {
            match gpio::step(g, event) {
                Some(ev) => Some(InputEvent::GPIO { event: ev }),
                None => None,
            }
        },
        InputDeviceState::KeyboardState(k) => {
            match keyboard::step(k, event) {
                Some(ev) => Some(InputEvent::Keyboard { event: ev }),
                None => None,
            }
        },
    }
}

/// Decode determinism: from equal device states, equal raw events decode to
/// equal events and equal successor states.
pub proof fn lemma_decode_deterministic(
    s1: InputDeviceState,
    s2: InputDeviceState,
    e1: RawInputEvent,
    e2: RawInputEvent,
)
    requires
        s1 == s2,
        e1 == e2,
    ensures
        spec_decode(s1, e1) == spec_decode(s2, e2),
{
}

} // verus!
