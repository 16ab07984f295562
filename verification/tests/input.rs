use libremarkable::input::gpio::{GPIOEvent, PhysicalButton};
use libremarkable::input::keyboard::{self, KeyboardEvent, KeyboardState};
use libremarkable::input::multitouch::MultitouchEvent;
use libremarkable::input::wacom::{WacomEvent, WacomPen, WacomState};
use libremarkable::input::{
    decode_event, InputDevice, InputDeviceState, InputEvent, RawInputEvent,
};

fn key(code: u16, value: i32) -> RawInputEvent {
    RawInputEvent { etype: 1, code, value }
}

fn abs(code: u16, value: i32) -> RawInputEvent {
    RawInputEvent { etype: 3, code, value }
}

#[test]
fn keyboard_shift_latch_transitions() {
    let mut state = KeyboardState::new();
    // shift press, then 'a' press decodes to 'A'
    assert_eq!(keyboard::step(&mut state, &key(42, 1)), None);
    assert!(state.shift);
    assert_eq!(
        keyboard::step(&mut state, &key(30, 1)),
        Some(KeyboardEvent::Char('A'))
    );
    // shift release, then 'a' press decodes to 'a'
    assert_eq!(keyboard::step(&mut state, &key(42, 0)), None);
    assert!(!state.shift);
    assert_eq!(
        keyboard::step(&mut state, &key(30, 1)),
        Some(KeyboardEvent::Char('a'))
    );
}

#[test]
fn keyboard_decode_is_deterministic_for_fixed_state() {
    let state = KeyboardState { shift: true, ctrl: false, alt: false };
    let ev = key(31, 1);
    let mut s1 = state;
    let mut s2 = state;
    let first = keyboard::step(&mut s1, &ev);
    let second = keyboard::step(&mut s2, &ev);
    assert_eq!(first, second);
    assert_eq!(first, Some(KeyboardEvent::Char('S')));
    assert_eq!(s1, s2);
}

#[test]
fn keyboard_ctrl_and_alt_latches() {
    let mut state = KeyboardState::new();
    keyboard::step(&mut state, &key(29, 1));
    keyboard::step(&mut state, &key(56, 1));
    assert!(state.ctrl && state.alt);
    keyboard::step(&mut state, &key(97, 0));
    keyboard::step(&mut state, &key(100, 0));
    assert!(!state.ctrl && !state.alt);
}

#[test]
fn keyboard_table_samples() {
    let mut s = KeyboardState::new();
    assert_eq!(keyboard::step(&mut s, &key(2, 1)), Some(KeyboardEvent::Char('1')));
    assert_eq!(keyboard::step(&mut s, &key(15, 1)), Some(KeyboardEvent::Char('\t')));
    assert_eq!(keyboard::step(&mut s, &key(1, 1)), Some(KeyboardEvent::Char('\x1b')));
    keyboard::step(&mut s, &key(54, 1));
    assert_eq!(keyboard::step(&mut s, &key(2, 1)), Some(KeyboardEvent::Char('!')));
    assert_eq!(keyboard::step(&mut s, &key(13, 1)), Some(KeyboardEvent::Char('+')));
}

#[test]
fn keyboard_unmapped_and_ignored_records() {
    let mut state = KeyboardState::new();
    // unmapped code, release of a mapped code, key repeat, non-key record
    assert_eq!(keyboard::step(&mut state, &key(200, 1)), None);
    assert_eq!(keyboard::step(&mut state, &key(30, 0)), None);
    assert_eq!(keyboard::step(&mut state, &key(30, 2)), None);
    assert_eq!(
        keyboard::step(&mut state, &RawInputEvent { etype: 0, code: 0, value: 0 }),
        None
    );
    assert_eq!(state, KeyboardState::new());
}

#[test]
fn keyboard_decode_through_device_state() {
    let mut state = InputDeviceState::new(InputDevice::Keyboard);
    let ev = keyboard::decode(&key(48, 1), &mut state);
    assert_eq!(
        ev,
        Some(InputEvent::Keyboard { event: KeyboardEvent::Char('b') })
    );
}

#[test]
fn gpio_emits_presses_and_drops_releases() {
    let mut state = InputDeviceState::new(InputDevice::GPIO);
    let press = decode_event(&mut state, &key(105, 1));
    assert_eq!(
        press,
        Some(InputEvent::GPIO { event: GPIOEvent::Press { button: PhysicalButton::Left } })
    );
    // release of the same button is intentionally dropped
    assert_eq!(decode_event(&mut state, &key(105, 0)), None);
    // unnamed code yields nothing
    assert_eq!(decode_event(&mut state, &key(30, 1)), None);
    let power = decode_event(&mut state, &key(116, 1));
    assert_eq!(
        power,
        Some(InputEvent::GPIO { event: GPIOEvent::Press { button: PhysicalButton::Power } })
    );
}

#[test]
fn multitouch_emits_coordinates_only() {
    let mut state = InputDeviceState::new(InputDevice::Multitouch);
    assert_eq!(decode_event(&mut state, &abs(53, 700)), None);
    let touch = decode_event(&mut state, &abs(54, 900));
    assert_eq!(
        touch,
        Some(InputEvent::MultitouchEvent { event: MultitouchEvent::Touch { y: 900, x: 700 } })
    );
    // a tracking-id record yields nothing
    assert_eq!(decode_event(&mut state, &abs(57, 1)), None);
}

#[test]
fn wacom_draw_when_touching() {
    let mut s = WacomState::new();
    let pen_in = libremarkable::input::wacom::step(&mut s, &key(320, 1));
    assert_eq!(
        pen_in,
        Some(WacomEvent::InstrumentChange { pen: WacomPen::ToolPen, state: true })
    );
    assert!(s.in_range);
    libremarkable::input::wacom::step(&mut s, &key(330, 1));
    assert!(s.touching);
    libremarkable::input::wacom::step(&mut s, &abs(0, 300));
    libremarkable::input::wacom::step(&mut s, &abs(24, 2000));
    let draw = libremarkable::input::wacom::step(&mut s, &abs(1, 400));
    assert_eq!(draw, Some(WacomEvent::Draw { y: 400, x: 300, pressure: 2000 }));
    assert!(s.stroke_active);
    assert_eq!((s.stroke_y, s.stroke_x), (400, 300));
}

#[test]
fn wacom_hover_when_in_range_only() {
    let mut s = WacomState::new();
    libremarkable::input::wacom::step(&mut s, &key(320, 1));
    libremarkable::input::wacom::step(&mut s, &abs(25, 10));
    let hover = libremarkable::input::wacom::step(&mut s, &abs(0, 50));
    assert_eq!(hover, Some(WacomEvent::Hover { y: 0, x: 50, distance: 10 }));
    assert!(!s.stroke_active && !s.unpress_observed);
}

#[test]
fn wacom_far_hover_clears_stroke_history() {
    let mut s = WacomState::new();
    libremarkable::input::wacom::step(&mut s, &key(320, 1));
    libremarkable::input::wacom::step(&mut s, &key(330, 1));
    libremarkable::input::wacom::step(&mut s, &abs(0, 100));
    libremarkable::input::wacom::step(&mut s, &abs(1, 100));
    assert!(s.stroke_active);
    // pen lifts, then hovers beyond the clearing distance
    libremarkable::input::wacom::step(&mut s, &key(330, 0));
    assert!(s.unpress_observed);
    let far = libremarkable::input::wacom::step(&mut s, &abs(25, 80));
    assert_eq!(far, Some(WacomEvent::Hover { y: 100, x: 100, distance: 80 }));
    assert!(!s.stroke_active);
    assert!(s.unpress_observed);
}

#[test]
fn wacom_ignores_unknown_and_out_of_range_records() {
    let mut s = WacomState::new();
    assert_eq!(libremarkable::input::wacom::step(&mut s, &key(999, 1)), None);
    assert_eq!(libremarkable::input::wacom::step(&mut s, &abs(0, -5)), None);
    assert_eq!(
        libremarkable::input::wacom::step(&mut s, &RawInputEvent { etype: 0, code: 0, value: 0 }),
        None
    );
    assert_eq!(s, WacomState::new());
}

#[test]
fn device_state_constructors_match_kind() {
    assert!(matches!(
        InputDeviceState::new(InputDevice::Wacom),
        InputDeviceState::WacomState(_)
    ));
    assert!(matches!(
        InputDeviceState::new(InputDevice::Multitouch),
        InputDeviceState::MultitouchState(_)
    ));
    assert!(matches!(
        InputDeviceState::new(InputDevice::GPIO),
        InputDeviceState::GPIOState(_)
    ));
    assert!(matches!(
        InputDeviceState::new(InputDevice::Keyboard),
        InputDeviceState::KeyboardState(_)
    ));
}

#[test]
fn input_event_default_and_from() {
    assert_eq!(InputEvent::default(), InputEvent::Unknown {});
    let ev: InputEvent = KeyboardEvent::Char('x').into();
    assert_eq!(ev, InputEvent::Keyboard { event: KeyboardEvent::Char('x') });
}
