//! The per-frame input snapshot: a fixed-size table of key states plus
//! mouse state, read-only to the simulation passes.

use vstd::prelude::*;

verus! {

/// How many key slots the snapshot holds (the scancode space).
pub const NUM_KEYS: usize = 512;

/// How many mouse buttons the snapshot holds.
pub const NUM_MOUSE_BUTTONS: usize = 8;

/// Key codes of the logical actions the simulation reads.
pub const KEY_FIRE: usize = 44;

pub const KEY_RIGHT: usize = 79;

pub const KEY_LEFT: usize = 80;

pub const KEY_DOWN: usize = 81;

pub const KEY_UP: usize = 82;

/// The state of one key.
#[derive(Debug, Copy, Clone, PartialEq, Eq, Structural)]
pub struct ButtonState {
    pub pressed: bool,
    pub released: bool,
    pub held: bool,
}

/// A key that is not touched at all.
pub open spec fn button_up() -> ButtonState {
    ButtonState { pressed: false, released: false, held: false }
}

/// The state of one mouse button.
#[derive(Debug, Copy, Clone, PartialEq, Eq, Structural)]
pub struct MouseState {
    pub held: bool,
}

/// The whole input snapshot.
#[derive(Debug)]
pub struct Input {
    pub key_state: Vec<ButtonState>,
    pub mouse_state: Vec<MouseState>,
    pub mouse_pos: (i32, i32),
}

/// The mathematical value of an input snapshot.
pub ghost struct InputV {
    pub key_state: Seq<ButtonState>,
    pub mouse_state: Seq<MouseState>,
    pub mouse_pos: (i32, i32),
}

impl View for Input {
    type V = InputV;

    open spec fn view(&self) -> InputV {
        InputV {
            key_state: self.key_state@,
            mouse_state: self.mouse_state@,
            mouse_pos: self.mouse_pos,
        }
    }
}

/// The key state at a code; out-of-range codes read as untouched.
pub open spec fn key_at(iv: InputV, code: usize) -> ButtonState {
    if code < iv.key_state.len() {
        iv.key_state[code as int]
    } else {
        button_up()
    }
}

/// The mouse-button state at an index; out-of-range indexes read as released.
pub open spec fn mouse_at(iv: InputV, btn: usize) -> MouseState {
    if btn < iv.mouse_state.len() {
        iv.mouse_state[btn as int]
    } else {
        MouseState { held: false }
    }
}

/// A snapshot with every key and button untouched.
pub open spec fn input_blank(iv: InputV) -> bool {
    &&& iv.key_state.len() == NUM_KEYS
    &&& forall|i: int| 0 <= i < iv.key_state.len() ==> iv.key_state[i] == button_up()
    &&& iv.mouse_state.len() == NUM_MOUSE_BUTTONS
    &&& forall|i: int| 0 <= i < iv.mouse_state.len() ==> iv.mouse_state[i] == (MouseState { held: false })
    &&& iv.mouse_pos == (0i32, 0i32)
}

impl Input {
    pub fn new() -> (r: Input)
        ensures
            input_blank(r@),
    {
        let mut key_state: Vec<ButtonState> = Vec::new();
        while key_state.len() < NUM_KEYS
            invariant
                key_state.len() <= NUM_KEYS,
                forall|i: int| 0 <= i < key_state.len() ==> key_state@[i] == button_up(),
            decreases NUM_KEYS - key_state.len(),
        {
            key_state.push(ButtonState { pressed: false, released: false, held: false });
        }
        let mut mouse_state: Vec<MouseState> = Vec::new();
        while mouse_state.len() < NUM_MOUSE_BUTTONS
            invariant
                mouse_state.len() <= NUM_MOUSE_BUTTONS,
                forall|i: int| 0 <= i < mouse_state.len() ==> mouse_state@[i] == (MouseState {
                    held: false,
                }),
            decreases NUM_MOUSE_BUTTONS - mouse_state.len(),
        {
            mouse_state.push(MouseState { held: false });
        }
        Input { key_state, mouse_state, mouse_pos: (0, 0) }
    }

    pub fn get_key(&self, code: usize) -> (r: ButtonState)
        ensures
            r == key_at(self@, code),
    {
        if code < self.key_state.len() {
            self.key_state[code]
        } else {
            ButtonState { pressed: false, released: false, held: false }
        }
    }

    pub fn get_mouse_button(&self, btn: usize) -> (r: MouseState)
        ensures
            r == mouse_at(self@, btn),
    {
        if btn < self.mouse_state.len() {
            self.mouse_state[btn]
        } else {
            MouseState { held: false }
        }
    }

    pub fn get_mouse_pos(&self) -> (r: (i32, i32))
        ensures
            r == self.mouse_pos,
    {
        self.mouse_pos
    }

    /// Records a key's held state; a code beyond the table is ignored.
    pub fn set_key_held(&mut self, code: usize, held: bool)
        ensures
            final(self)@ == (InputV {
                key_state: if code < old(self)@.key_state.len() {
                    old(self)@.key_state.update(
                        code as int,
                        ButtonState { held, ..old(self)@.key_state[code as int] },
                    )
                } else {
                    old(self)@.key_state
                },
                ..old(self)@
            }),
    {
        if code < self.key_state.len() {
            let prev = self.key_state[code];
            self.key_state.set(code, ButtonState { held, ..prev });
        }
    }
}

impl Default for Input {
    fn default() -> (r: Input)
        ensures
            input_blank(r@),
    {
        Input::new()
    }
}

} // verus!
