//! Keyboard decode: maps raw scan codes to characters through a fixed table,
//! maintaining shift/ctrl/alt latch state across events. Modifier presses set
//! the corresponding latch, modifier releases clear it, and unmapped codes
//! yield no event.

use vstd::prelude::*;

use crate::input::{InputDeviceState, InputEvent, RawInputEvent};

verus! {

/// Modifier latches carried across key events.
#[derive(Clone, Copy, Debug, PartialEq, Eq, Structural)]
pub struct KeyboardState {
    pub shift: bool,
    pub ctrl: bool,
    pub alt: bool,
}

/// A decoded keyboard event.
#[derive(PartialEq, Copy, Clone, Debug, Eq, Structural)]
pub enum KeyboardEvent {
    Char(char),
    Combo { shift: bool, ctrl: bool, alt: bool, key: u8 },
}

impl KeyboardState {
    /// All latches clear.
    pub open spec fn spec_default() -> KeyboardState {
        KeyboardState { shift: false, ctrl: false, alt: false }
    }

    pub fn new() -> (r: KeyboardState)
        ensures
            r == KeyboardState::spec_default(),
    {
        KeyboardState { shift: false, ctrl: false, alt: false }
    }
}

impl Default for KeyboardState {
    fn default() -> (r: KeyboardState)
        ensures
            r == KeyboardState::spec_default(),
    {
        KeyboardState::new()
    }
}

/// Left or right shift.
pub open spec fn is_shift_code(code: u16) -> bool {
    code == 42 || code == 54
}

/// Left or right ctrl.
pub open spec fn is_ctrl_code(code: u16) -> bool {
    code == 29 || code == 97
}

/// Left or right alt.
pub open spec fn is_alt_code(code: u16) -> bool {
    code == 56 || code == 100
}

/// The fixed scan-code table: the character a code produces under the given
/// shift latch, or nothing for an unmapped code.
pub open spec fn spec_char_for(code: u16, shift: bool) -> Option<char> {
    match code {
        30 => Some(if shift { 'A' } else { 'a' }),
        48 => Some(if shift { 'B' } else { 'b' }),
        46 => Some(if shift { 'C' } else { 'c' }),
        32 => Some(if shift { 'D' } else { 'd' }),
        18 => Some(if shift { 'E' } else { 'e' }),
        33 => Some(if shift { 'F' } else { 'f' }),
        34 => Some(if shift { 'G' } else { 'g' }),
        35 => Some(if shift { 'H' } else { 'h' }),
        23 => Some(if shift { 'I' } else { 'i' }),
        36 => Some(if shift { 'J' } else { 'j' }),
        37 => Some(if shift { 'K' } else { 'k' }),
        38 => Some(if shift { 'L' } else { 'l' }),
        50 => Some(if shift { 'M' } else { 'm' }),
        49 => Some(if shift { 'N' } else { 'n' }),
        24 => Some(if shift { 'O' } else { 'o' }),
        25 => Some(if shift { 'P' } else { 'p' }),
        16 => Some(if shift { 'Q' } else { 'q' }),
        19 => Some(if shift { 'R' } else { 'r' }),
        31 => Some(if shift { 'S' } else { 's' }),
        20 => Some(if shift { 'T' } else { 't' }),
        22 => Some(if shift { 'U' } else { 'u' }),
        47 => Some(if shift { 'V' } else { 'v' }),
        17 => Some(if shift { 'W' } else { 'w' }),
        45 => Some(if shift { 'X' } else { 'x' }),
        21 => Some(if shift { 'Y' } else { 'y' }),
        44 => Some(if shift { 'Z' } else { 'z' }),
        2 => Some(if shift { '!' } else { '1' }),
        3 => Some(if shift { '@' } else { '2' }),
        4 => Some(if shift { '#' } else { '3' }),
        5 => Some(if shift { '$' } else { '4' }),
        6 => Some(if shift { '%' } else { '5' }),
        7 => Some(if shift { '^' } else { '6' }),
        8 => Some(if shift { '&' } else { '7' }),
        9 => Some(if shift { '*' } else { '8' }),
        10 => Some(if shift { '(' } else { '9' }),
        11 => Some(if shift { ')' } else { '0' }),
        41 => Some(if shift { '~' } else { '`' }),
        12 => Some(if shift { '_' } else { '-' }),
        13 => Some(if shift { '+' } else { '=' }),
        40 => Some(if shift { '"' } else { '\'' }),
        15 => Some('\t'),
        43 => Some('\t'),
        1 => Some('\x1b'),
        _ => None,
    }
}

/// One key transition: modifier codes latch on press and unlatch on release
/// and never produce an event; a mapped code produces its character on press
/// under the current shift latch; anything else produces nothing.
pub open spec fn spec_key_transition(s: KeyboardState, code: u16, pressed: bool) -> (
    KeyboardState,
    Option<KeyboardEvent>,
) {
    if is_shift_code(code) {
        (KeyboardState { shift: pressed, ..s }, None)
    } else if is_ctrl_code(code) {
        (KeyboardState { ctrl: pressed, ..s }, None)
    } else if is_alt_code(code) {
        (KeyboardState { alt: pressed, ..s }, None)
    } else if !pressed {
        (s, None)
    } else {
        match spec_char_for(code, s.shift) {
            Some(c) => (s, Some(KeyboardEvent::Char(c))),
            None => (s, None),
        }
    }
}

/// One raw keyboard record: only key records (type 1) with a press or
/// release value are decoded; synchronization and miscellaneous records, and
/// unexpected values such as key repeat, yield nothing.
pub open spec fn spec_keyboard_decode(s: KeyboardState, e: RawInputEvent) -> (
    KeyboardState,
    Option<KeyboardEvent>,
) {
    if e.etype == 1 {
        if e.value == 0 {
            spec_key_transition(s, e.code, false)
        } else if e.value == 1 {
            spec_key_transition(s, e.code, true)
        } else {
            (s, None)
        }
    } else {
        (s, None)
    }
}

impl KeyboardState {
    /// Applies one key transition: latches modifiers, and maps a pressed code
    /// to its character through the fixed table.
    pub fn char_map(&mut self, code: u16, pressed: bool) -> (r: Option<KeyboardEvent>)
        ensures
            *final(self) == spec_key_transition(*old(self), code, pressed).0,
            r == spec_key_transition(*old(self), code, pressed).1,
    {
        if code == 42 || code == 54 {
            self.shift = pressed;
            return None;
        }
        if code == 29 || code == 97 {
            self.ctrl = pressed;
            return None;
        }
        if code == 56 || code == 100 {
            self.alt = pressed;
            return None;
        }
        if !pressed {
            return None;
        }
        let shift = self.shift;
        let c: Option<char> = match code {
            30 => Some(if shift { 'A' } else { 'a' }),
            48 => Some(if shift { 'B' } else { 'b' }),
            46 => Some(if shift { 'C' } else { 'c' }),
            32 => Some(if shift { 'D' } else { 'd' }),
            18 => Some(if shift { 'E' } else { 'e' }),
            33 => Some(if shift { 'F' } else { 'f' }),
            34 => Some(if shift { 'G' } else { 'g' }),
            35 => Some(if shift { 'H' } else { 'h' }),
            23 => Some(if shift { 'I' } else { 'i' }),
            36 => Some(if shift { 'J' } else { 'j' }),
            37 => Some(if shift { 'K' } else { 'k' }),
            38 => Some(if shift { 'L' } else { 'l' }),
            50 => Some(if shift { 'M' } else { 'm' }),
            49 => Some(if shift { 'N' } else { 'n' }),
            24 => Some(if shift { 'O' } else { 'o' }),
            25 => Some(if shift { 'P' } else { 'p' }),
            16 => Some(if shift { 'Q' } else { 'q' }),
            19 => Some(if shift { 'R' } else { 'r' }),
            31 => Some(if shift { 'S' } else { 's' }),
            20 => Some(if shift { 'T' } else { 't' }),
            22 => Some(if shift { 'U' } else { 'u' }),
            47 => Some(if shift { 'V' } else { 'v' }),
            17 => Some(if shift { 'W' } else { 'w' }),
            45 => Some(if shift { 'X' } else { 'x' }),
            21 => Some(if shift { 'Y' } else { 'y' }),
            44 => Some(if shift { 'Z' } else { 'z' }),
            2 => Some(if shift { '!' } else { '1' }),
            3 => Some(if shift { '@' } else { '2' }),
            4 => Some(if shift { '#' } else { '3' }),
            5 => Some(if shift { '$' } else { '4' }),
            6 => Some(if shift { '%' } else { '5' }),
            7 => Some(if shift { '^' } else { '6' }),
            8 => Some(if shift { '&' } else { '7' }),
            9 => Some(if shift { '*' } else { '8' }),
            10 => Some(if shift { '(' } else { '9' }),
            11 => Some(if shift { ')' } else { '0' }),
            41 => Some(if shift { '~' } else { '`' }),
            12 => Some(if shift { '_' } else { '-' }),
            13 => Some(if shift { '+' } else { '=' }),
            40 => Some(if shift { '"' } else { '\'' }),
            15 => Some('\t'),
            43 => Some('\t'),
            1 => Some('\x1b'),
            _ => None,
        };
        match c {
            Some(ch) => Some(KeyboardEvent::Char(ch)),
            None => None,
        }
    }
}

/// Decodes one raw keyboard record against the latch state.
pub fn step(state: &mut KeyboardState, event: &RawInputEvent) -> (r: Option<KeyboardEvent>)
    ensures
        *final(state) == spec_keyboard_decode(*old(state), *event).0,
        r == spec_keyboard_decode(*old(state), *event).1,
{
    if event.etype == 1 {
        if event.value == 0 {
            state.char_map(event.code, false)
        } else if event.value == 1 {
            state.char_map(event.code, true)
        } else {
            None
        }
    } else {
        None
    }
}

/// Decodes one raw record for a pipeline whose state is keyboard state.
pub fn decode(event: &RawInputEvent, outer_state: &mut InputDeviceState) -> (r: Option<InputEvent>)
    requires
        *old(outer_state) is KeyboardState,
    ensures
        *final(outer_state) == crate::input::spec_decode(*old(outer_state), *event).0,
        r == crate::input::spec_decode(*old(outer_state), *event).1,
{
    crate::input::decode_event(outer_state, event)
}

} // verus!
