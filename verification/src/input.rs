//! Button state of keyboard, mouse and gamepad: which buttons are held, and
//! which were pressed or released since the transient state was last cleared.
//!
//! Keyboard and gamepad buttons live in `bitvec` bit arrays, mouse buttons in
//! plain arrays. Pointer motion and analog axes carry floating-point values and
//! are kept by the caller.
use bitvec::array::BitArray;
use bitvec::order::Lsb0;
use vstd::prelude::*;

verus! {

/// Keyboard key bits, one per key code, in a `bitvec` bit array of four
/// `u64` words (256 bits).
#[verifier::external_body]
pub struct KeyState {
    bits: BitArray<[u64; 4], Lsb0>,
}

/// Gamepad button bits, one per `GamepadButton`, in a `bitvec` bit array of
/// one `u32` word (32 bits).
#[verifier::external_body]
pub struct GamepadButtonState {
    bits: BitArray<[u32; 1], Lsb0>,
}

/// The bits a keyboard bit array holds, in index order.
pub uninterp spec fn key_bits(k: KeyState) -> Seq<bool>;

/// The bits a gamepad bit array holds, in index order.
pub uninterp spec fn pad_bits(k: GamepadButtonState) -> Seq<bool>;

/// The number of keyboard key bits.
pub const KEY_BITS: usize = 256usize;

/// The number of gamepad button bits.
pub const PAD_BITS: usize = 32usize;

/// `BitArray::ZERO` for four `u64` words: 256 bits, all clear.
#[verifier::external_body]
fn key_state_zero() -> (r: KeyState)
    ensures
        key_bits(r) == Seq::new(256, |i: int| false),
{
    KeyState { bits: BitArray::ZERO }
}

/// `BitArray::ZERO` for one `u32` word: 32 bits, all clear.
#[verifier::external_body]
fn pad_state_zero() -> (r: GamepadButtonState)
    ensures
        pad_bits(r) == Seq::new(32, |i: int| false),
{
    GamepadButtonState { bits: BitArray::ZERO }
}

/// Indexing a keyboard bit array (`Index<usize>` of `BitSlice`), which panics
/// past the end: the bit at `i`.
#[verifier::external_body]
fn key_get(k: &KeyState, i: usize) -> (b: bool)
    requires
        i < key_bits(*k).len(),
    ensures
        b == key_bits(*k)[i as int],
{
    k.bits[i]
}

/// `BitSlice::set` on a keyboard bit array, which panics past the end: bit `i`
/// becomes `v`, the others stay.
#[verifier::external_body]
fn key_set(k: &mut KeyState, i: usize, v: bool)
    requires
        i < key_bits(*old(k)).len(),
    ensures
        key_bits(*final(k)) == key_bits(*old(k)).update(i as int, v),
{
    k.bits.set(i, v)
}

/// Indexing a gamepad bit array (`Index<usize>` of `BitSlice`), which panics
/// past the end: the bit at `i`.
#[verifier::external_body]
fn pad_get(k: &GamepadButtonState, i: usize) -> (b: bool)
    requires
        i < pad_bits(*k).len(),
    ensures
        b == pad_bits(*k)[i as int],
{
    k.bits[i]
}

/// `BitSlice::set` on a gamepad bit array, which panics past the end: bit `i`
/// becomes `v`, the others stay.
#[verifier::external_body]
fn pad_set(k: &mut GamepadButtonState, i: usize, v: bool)
    requires
        i < pad_bits(*old(k)).len(),
    ensures
        pad_bits(*final(k)) == pad_bits(*old(k)).update(i as int, v),
{
    k.bits.set(i, v)
}

/// Whether a button went down or up.
#[derive(Clone, Copy, Debug, PartialEq, Eq)]
pub enum ElementState {
    Pressed,
    Released,
}

/// A mouse button; only the first three are tracked.
#[derive(Clone, Copy, Debug, PartialEq, Eq)]
pub enum MouseButton {
    Left,
    Right,
    Middle,
    Back,
    Forward,
    Other(u16),
}

/// Gamepad buttons, named by their place on a common controller.
#[derive(Clone, Copy, Debug, PartialEq, Eq)]
pub enum GamepadButton {
    A,
    B,
    X,
    Y,
    LeftBumper,
    RightBumper,
    LeftTrigger,
    RightTrigger,
    Back,
    Start,
    Mode,
    LeftStick,
    RightStick,
    DPadUp,
    DPadDown,
    DPadLeft,
    DPadRight,
}

/// The number of gamepad buttons.
pub const GAMEPAD_BUTTON_COUNT: usize = 17usize;

/// Gamepad axes.
#[derive(Clone, Copy, Debug, PartialEq, Eq)]
pub enum GamepadAxis {
    LeftStickX,
    LeftStickY,
    RightStickX,
    RightStickY,
    LeftTrigger,
    RightTrigger,
}

/// The number of gamepad axes.
pub const GAMEPAD_AXIS_COUNT: usize = 6usize;

/// The number of tracked mouse buttons.
pub const MOUSE_BUTTON_COUNT: usize = 3usize;

/// The place of each gamepad button, in declaration order.
pub open spec fn pad_index(b: GamepadButton) -> int {
    match b {
        GamepadButton::A => 0,
        GamepadButton::B => 1,
        GamepadButton::X => 2,
        GamepadButton::Y => 3,
        GamepadButton::LeftBumper => 4,
        GamepadButton::RightBumper => 5,
        GamepadButton::LeftTrigger => 6,
        GamepadButton::RightTrigger => 7,
        GamepadButton::Back => 8,
        GamepadButton::Start => 9,
        GamepadButton::Mode => 10,
        GamepadButton::LeftStick => 11,
        GamepadButton::RightStick => 12,
        GamepadButton::DPadUp => 13,
        GamepadButton::DPadDown => 14,
        GamepadButton::DPadLeft => 15,
        GamepadButton::DPadRight => 16,
    }
}

/// The place of each gamepad axis, in declaration order.
pub open spec fn axis_index(a: GamepadAxis) -> int {
    match a {
        GamepadAxis::LeftStickX => 0,
        GamepadAxis::LeftStickY => 1,
        GamepadAxis::RightStickX => 2,
        GamepadAxis::RightStickY => 3,
        GamepadAxis::LeftTrigger => 4,
        GamepadAxis::RightTrigger => 5,
    }
}

/// The slot of a tracked mouse button: left, middle, right.
pub open spec fn mouse_index(b: MouseButton) -> Option<int> {
    match b {
        MouseButton::Left => Some(0),
        MouseButton::Middle => Some(1),
        MouseButton::Right => Some(2),
        _ => None,
    }
}

impl GamepadButton {
    /// The place of the button in declaration order.
    pub fn index(self) -> (r: usize)
        ensures
            r == pad_index(self),
            r < GAMEPAD_BUTTON_COUNT,
    {
        match self {
            GamepadButton::A => 0,
            GamepadButton::B => 1,
            GamepadButton::X => 2,
            GamepadButton::Y => 3,
            GamepadButton::LeftBumper => 4,
            GamepadButton::RightBumper => 5,
            GamepadButton::LeftTrigger => 6,
            GamepadButton::RightTrigger => 7,
            GamepadButton::Back => 8,
            GamepadButton::Start => 9,
            GamepadButton::Mode => 10,
            GamepadButton::LeftStick => 11,
            GamepadButton::RightStick => 12,
            GamepadButton::DPadUp => 13,
            GamepadButton::DPadDown => 14,
            GamepadButton::DPadLeft => 15,
            GamepadButton::DPadRight => 16,
        }
    }
}

impl GamepadAxis {
    /// The place of the axis in declaration order.
    pub fn index(self) -> (r: usize)
        ensures
            r == axis_index(self),
            r < GAMEPAD_AXIS_COUNT,
    {
        match self {
            GamepadAxis::LeftStickX => 0,
            GamepadAxis::LeftStickY => 1,
            GamepadAxis::RightStickX => 2,
            GamepadAxis::RightStickY => 3,
            GamepadAxis::LeftTrigger => 4,
            GamepadAxis::RightTrigger => 5,
        }
    }
}

/// The three flags of one kind of button: pressed this frame, released this
/// frame, and held.
pub struct ButtonFlags {
    pub pressed: Seq<bool>,
    pub released: Seq<bool>,
    pub held: Seq<bool>,
}

/// What one button event does to the flags of button `i`: a press of a button
/// already held clears its pressed flag (a repeat); a press of a free button
/// sets its pressed and held flags; a release sets its released flag and clears
/// its held flag. Other buttons keep their flags.
pub open spec fn button_step(f: ButtonFlags, i: int, state: ElementState) -> ButtonFlags {
    match state {
        ElementState::Pressed => if f.held[i] {
            ButtonFlags { pressed: f.pressed.update(i, false), released: f.released, held: f.held }
        } else {
            ButtonFlags { pressed: f.pressed.update(i, true), released: f.released, held: f.held.update(i, true) }
        },
        ElementState::Released => ButtonFlags {
            pressed: f.pressed,
            released: f.released.update(i, true),
            held: f.held.update(i, false),
        },
    }
}

/// The flags with the pressed and released flags of every button cleared.
pub open spec fn button_clear(f: ButtonFlags) -> ButtonFlags {
    ButtonFlags {
        pressed: Seq::new(f.pressed.len(), |j: int| false),
        released: Seq::new(f.released.len(), |j: int| false),
        held: f.held,
    }
}

/// A button event, keyed by key code, mouse button or gamepad button.
#[derive(Clone, Copy, Debug)]
pub enum InputEvent {
    KeyboardKey { key: usize, state: ElementState },
    MouseButton { key: MouseButton, state: ElementState },
    GamepadButton { button: GamepadButton, state: ElementState },
}

/// The button state of the keyboard, the mouse and a gamepad.
pub struct InputComponent {
    pressed_keyboard_keys: KeyState,
    released_keyboard_keys: KeyState,
    keyboard_keys: KeyState,
    pressed_mouse_buttons: [bool; 3],
    released_mouse_buttons: [bool; 3],
    mouse_buttons: [bool; 3],
    pressed_gamepad_buttons: GamepadButtonState,
    released_gamepad_buttons: GamepadButtonState,
    gamepad_buttons: GamepadButtonState,
}

impl InputComponent {
    /// The flags of the keyboard keys.
    pub closed spec fn keys(&self) -> ButtonFlags {
        ButtonFlags {
            pressed: key_bits(self.pressed_keyboard_keys),
            released: key_bits(self.released_keyboard_keys),
            held: key_bits(self.keyboard_keys),
        }
    }

    /// The flags of the left, middle and right mouse buttons.
    pub closed spec fn mouse(&self) -> ButtonFlags {
        ButtonFlags {
            pressed: self.pressed_mouse_buttons@,
            released: self.released_mouse_buttons@,
            held: self.mouse_buttons@,
        }
    }

    /// The flags of the gamepad buttons.
    pub closed spec fn pad(&self) -> ButtonFlags {
        ButtonFlags {
            pressed: pad_bits(self.pressed_gamepad_buttons),
            released: pad_bits(self.released_gamepad_buttons),
            held: pad_bits(self.gamepad_buttons),
        }
    }

    /// Every bit array has its full length.
    pub open spec fn wf(&self) -> bool {
        &&& self.keys().pressed.len() == KEY_BITS
        &&& self.keys().released.len() == KEY_BITS
        &&& self.keys().held.len() == KEY_BITS
        &&& self.mouse().pressed.len() == MOUSE_BUTTON_COUNT
        &&& self.mouse().released.len() == MOUSE_BUTTON_COUNT
        &&& self.mouse().held.len() == MOUSE_BUTTON_COUNT
        &&& self.pad().pressed.len() == PAD_BITS
        &&& self.pad().released.len() == PAD_BITS
        &&& self.pad().held.len() == PAD_BITS
    }

    /// No button held, pressed or released.
    pub fn new() -> (r: Self)
        ensures
            r.wf(),
            r.keys() == (ButtonFlags {
                pressed: Seq::new(256, |i: int| false),
                released: Seq::new(256, |i: int| false),
                held: Seq::new(256, |i: int| false),
            }),
            r.mouse() == (ButtonFlags {
                pressed: Seq::new(3, |i: int| false),
                released: Seq::new(3, |i: int| false),
                held: Seq::new(3, |i: int| false),
            }),
            r.pad() == (ButtonFlags {
                pressed: Seq::new(32, |i: int| false),
                released: Seq::new(32, |i: int| false),
                held: Seq::new(32, |i: int| false),
            }),
    {
        let r = InputComponent {
            pressed_keyboard_keys: key_state_zero(),
            released_keyboard_keys: key_state_zero(),
            keyboard_keys: key_state_zero(),
            pressed_mouse_buttons: [false; 3],
            released_mouse_buttons: [false; 3],
            mouse_buttons: [false; 3],
            pressed_gamepad_buttons: pad_state_zero(),
            released_gamepad_buttons: pad_state_zero(),
            gamepad_buttons: pad_state_zero(),
        };
        assert(r.mouse().pressed =~= Seq::new(3, |i: int| false));
        assert(r.mouse().released =~= Seq::new(3, |i: int| false));
        assert(r.mouse().held =~= Seq::new(3, |i: int| false));
        r
    }

    /// Clears the pressed and released flags of every button; what is held stays.
    pub fn clear_transient_states(&mut self)
        requires
            old(self).wf(),
        ensures
            final(self).wf(),
            final(self).keys() == button_clear(old(self).keys()),
            final(self).mouse() == button_clear(old(self).mouse()),
            final(self).pad() == button_clear(old(self).pad()),
    {
        self.pressed_keyboard_keys = key_state_zero();
        self.released_keyboard_keys = key_state_zero();
        self.pressed_mouse_buttons = [false; 3];
        self.released_mouse_buttons = [false; 3];
        self.pressed_gamepad_buttons = pad_state_zero();
        self.released_gamepad_buttons = pad_state_zero();
        assert(self.mouse().pressed =~= Seq::new(3, |i: int| false));
        assert(self.mouse().released =~= Seq::new(3, |i: int| false));
    }

    /// Records a key going down or up, as `button_step` says.
    pub fn set_key(&mut self, key: usize, state: ElementState)
        requires
            old(self).wf(),
            key < KEY_BITS,
        ensures
            final(self).wf(),
            final(self).keys() == button_step(old(self).keys(), key as int, state),
            final(self).mouse() == old(self).mouse(),
            final(self).pad() == old(self).pad(),
    {
        match state {
            ElementState::Pressed => {
                if key_get(&self.keyboard_keys, key) {
                    key_set(&mut self.pressed_keyboard_keys, key, false);
                } else {
                    key_set(&mut self.pressed_keyboard_keys, key, true);
                    key_set(&mut self.keyboard_keys, key, true);
                }
            },
            ElementState::Released => {
                key_set(&mut self.released_keyboard_keys, key, true);
                key_set(&mut self.keyboard_keys, key, false);
            },
        }
    }

    /// Whether the key went down since the last clear.
    pub fn get_key_pressed(&self, key: usize) -> (r: bool)
        requires
            self.wf(),
            key < KEY_BITS,
        ensures
            r == self.keys().pressed[key as int],
    {
        key_get(&self.pressed_keyboard_keys, key)
    }

    /// Whether the key is held.
    pub fn get_key(&self, key: usize) -> (r: bool)
        requires
            self.wf(),
            key < KEY_BITS,
        ensures
            r == self.keys().held[key as int],
    {
        key_get(&self.keyboard_keys, key)
    }

    /// Whether the key went up since the last clear.
    pub fn get_key_released(&self, key: usize) -> (r: bool)
        requires
            self.wf(),
            key < KEY_BITS,
        ensures
            r == self.keys().released[key as int],
    {
        key_get(&self.released_keyboard_keys, key)
    }

    /// Records a mouse button going down or up, as `button_step` says; buttons
    /// other than left, middle and right are ignored.
    pub fn set_mouse_button(&mut self, button: MouseButton, state: ElementState)
        requires
            old(self).wf(),
        ensures
            final(self).wf(),
            final(self).mouse() == match mouse_index(button) {
                Some(i) => button_step(old(self).mouse(), i, state),
                None => old(self).mouse(),
            },
            !(button is Left || button is Middle || button is Right) ==> final(self).mouse() == old(self).mouse(),
            final(self).keys() == old(self).keys(),
            final(self).pad() == old(self).pad(),
    {
        let index: usize = match button {
            MouseButton::Left => 0,
            MouseButton::Middle => 1,
            MouseButton::Right => 2,
            _ => return ,
        };
        match state {
            ElementState::Pressed => {
                if self.mouse_buttons[index] {
                    self.pressed_mouse_buttons[index] = false;
                } else {
                    self.pressed_mouse_buttons[index] = true;
                    self.mouse_buttons[index] = true;
                }
            },
            ElementState::Released => {
                self.released_mouse_buttons[index] = true;
                self.mouse_buttons[index] = false;
            },
        }
    }

    /// Whether the mouse button went down since the last clear; `false` for
    /// untracked buttons.
    pub fn get_mouse_button_pressed(&self, button: MouseButton) -> (r: bool)
        requires
            self.wf(),
        ensures
            r == match mouse_index(button) {
                Some(i) => self.mouse().pressed[i],
                None => false,
            },
            !(button is Left || button is Middle || button is Right) ==> !r,
    {
        match button {
            MouseButton::Left => self.pressed_mouse_buttons[0],
            MouseButton::Middle => self.pressed_mouse_buttons[1],
            MouseButton::Right => self.pressed_mouse_buttons[2],
            _ => false,
        }
    }

    /// Whether the mouse button is held; `false` for untracked buttons.
    pub fn get_mouse_button(&self, button: MouseButton) -> (r: bool)
        requires
            self.wf(),
        ensures
            r == match mouse_index(button) {
                Some(i) => self.mouse().held[i],
                None => false,
            },
            !(button is Left || button is Middle || button is Right) ==> !r,
    {
        match button {
            MouseButton::Left => self.mouse_buttons[0],
            MouseButton::Middle => self.mouse_buttons[1],
            MouseButton::Right => self.mouse_buttons[2],
            _ => false,
        }
    }

    /// Whether the mouse button went up since the last clear; `false` for
    /// untracked buttons.
    pub fn get_mouse_button_released(&self, button: MouseButton) -> (r: bool)
        requires
            self.wf(),
        ensures
            r == match mouse_index(button) {
                Some(i) => self.mouse().released[i],
                None => false,
            },
            !(button is Left || button is Middle || button is Right) ==> !r,
    {
        match button {
            MouseButton::Left => self.released_mouse_buttons[0],
            MouseButton::Middle => self.released_mouse_buttons[1],
            MouseButton::Right => self.released_mouse_buttons[2],
            _ => false,
        }
    }

    /// Records a gamepad button going down or up, as `button_step` says.
    pub fn set_gamepad_button(&mut self, button: GamepadButton, state: ElementState)
        requires
            old(self).wf(),
        ensures
            final(self).wf(),
            final(self).pad() == button_step(old(self).pad(), pad_index(button), state),
            final(self).keys() == old(self).keys(),
            final(self).mouse() == old(self).mouse(),
    {
        let i = button.index();
        match state {
            ElementState::Pressed => {
                if pad_get(&self.gamepad_buttons, i) {
                    pad_set(&mut self.pressed_gamepad_buttons, i, false);
                } else {
                    pad_set(&mut self.pressed_gamepad_buttons, i, true);
                    pad_set(&mut self.gamepad_buttons, i, true);
                }
            },
            ElementState::Released => {
                pad_set(&mut self.released_gamepad_buttons, i, true);
                pad_set(&mut self.gamepad_buttons, i, false);
            },
        }
    }

    /// Whether the gamepad button is held.
    pub fn get_gamepad_button(&self, button: GamepadButton) -> (r: bool)
        requires
            self.wf(),
        ensures
            r == self.pad().held[pad_index(button)],
    {
        pad_get(&self.gamepad_buttons, button.index())
    }

    /// Whether the gamepad button went down since the last clear.
    pub fn get_gamepad_button_pressed(&self, button: GamepadButton) -> (r: bool)
        requires
            self.wf(),
        ensures
            r == self.pad().pressed[pad_index(button)],
    {
        pad_get(&self.pressed_gamepad_buttons, button.index())
    }

    /// Whether the gamepad button went up since the last clear.
    pub fn get_gamepad_button_released(&self, button: GamepadButton) -> (r: bool)
        requires
            self.wf(),
        ensures
            r == self.pad().released[pad_index(button)],
    {
        pad_get(&self.released_gamepad_buttons, button.index())
    }
}

/// The three kinds of flags, as one value.
pub struct InputFlags {
    pub keys: ButtonFlags,
    pub mouse: ButtonFlags,
    pub pad: ButtonFlags,
}

/// What one event does to the flags.
pub open spec fn input_step(f: InputFlags, e: InputEvent) -> InputFlags {
    match e {
        InputEvent::KeyboardKey { key, state } => InputFlags {
            keys: button_step(f.keys, key as int, state),
            mouse: f.mouse,
            pad: f.pad,
        },
        InputEvent::MouseButton { key, state } => InputFlags {
            keys: f.keys,
            mouse: match mouse_index(key) {
                Some(i) => button_step(f.mouse, i, state),
                None => f.mouse,
            },
            pad: f.pad,
        },
        InputEvent::GamepadButton { button, state } => InputFlags {
            keys: f.keys,
            mouse: f.mouse,
            pad: button_step(f.pad, pad_index(button), state),
        },
    }
}

/// The events applied one after another, the first event first.
pub open spec fn input_fold(f: InputFlags, events: Seq<InputEvent>) -> InputFlags
    decreases events.len(),
{
    if events.len() == 0 {
        f
    } else {
        input_step(input_fold(f, events.drop_last()), events.last())
    }
}

/// Whether every key code among the events names a key bit.
pub open spec fn events_in_range(events: Seq<InputEvent>) -> bool {
    forall|i: int|
        0 <= i < events.len() ==> match #[trigger] events[i] {
            InputEvent::KeyboardKey { key, .. } => key < KEY_BITS,
            _ => true,
        }
}

impl InputComponent {
    /// The flags of the three kinds of buttons.
    pub open spec fn flags(&self) -> InputFlags {
        InputFlags { keys: self.keys(), mouse: self.mouse(), pad: self.pad() }
    }

    /// Applies one event, as `input_step` says.
    pub fn apply_event(&mut self, e: InputEvent)
        requires
            old(self).wf(),
            match e {
                InputEvent::KeyboardKey { key, .. } => key < KEY_BITS,
                _ => true,
            },
        ensures
            final(self).wf(),
            final(self).flags() == input_step(old(self).flags(), e),
    {
        match e {
            InputEvent::KeyboardKey { key, state } => self.set_key(key, state),
            InputEvent::MouseButton { key, state } => self.set_mouse_button(key, state),
            InputEvent::GamepadButton { button, state } => self.set_gamepad_button(button, state),
        }
    }
}

/// One frame of input handling: the pressed and released flags of the last frame
/// are cleared, then the frame's button events are applied in order.
pub fn input_system(input: &mut InputComponent, events: &Vec<InputEvent>)
    requires
        old(input).wf(),
        events_in_range(events@),
    ensures
        final(input).wf(),
        final(input).flags() == input_fold(
            InputFlags {
                keys: button_clear(old(input).keys()),
                mouse: button_clear(old(input).mouse()),
                pad: button_clear(old(input).pad()),
            },
            events@,
        ),
{
    input.clear_transient_states();
    let ghost start = input.flags();
    let mut i: usize = 0;
    while i < events.len()
        invariant
            0 <= i <= events.len(),
            input.wf(),
            events_in_range(events@),
            input.flags() == input_fold(start, events@.subrange(0, i as int)),
        decreases events.len() - i,
    {
        let e = events[i];
        assert(events@.subrange(0, i + 1).drop_last() == events@.subrange(0, i as int));
        input.apply_event(e);
        i = i + 1;
    }
    assert(events@.subrange(0, events@.len() as int) == events@);
}

/// Whether some event of the sequence is about key `k`.
pub open spec fn mentions_key(events: Seq<InputEvent>, k: int) -> bool {
    exists|i: int|
        0 <= i < events.len() && (#[trigger] events[i] matches InputEvent::KeyboardKey { key, .. } && key == k)
}

/// A key that no event of the frame is about keeps its held flag, and is
/// reported neither pressed nor released: those flags last one frame.
pub proof fn lemma_untouched_key_is_quiet(f: InputFlags, events: Seq<InputEvent>, k: int)
    requires
        0 <= k < f.keys.held.len(),
        f.keys.held.len() == KEY_BITS,
        f.keys.pressed.len() == f.keys.held.len(),
        f.keys.released.len() == f.keys.held.len(),
        events_in_range(events),
        !mentions_key(events, k),
    ensures
        input_fold(f, events).keys.held.len() == f.keys.held.len(),
        input_fold(f, events).keys.pressed.len() == f.keys.held.len(),
        input_fold(f, events).keys.released.len() == f.keys.held.len(),
        input_fold(f, events).keys.held[k] == f.keys.held[k],
        input_fold(f, events).keys.pressed[k] == f.keys.pressed[k],
        input_fold(f, events).keys.released[k] == f.keys.released[k],
    decreases events.len(),
{
    if events.len() > 0 {
        let rest = events.drop_last();
        assert(!mentions_key(rest, k)) by {
            if mentions_key(rest, k) {
                let i = choose|i: int|
                    0 <= i < rest.len() && (#[trigger] rest[i] matches InputEvent::KeyboardKey { key, .. } && key == k);
                assert(events[i] == rest[i]);
            }
        }
        assert(events_in_range(rest)) by {
            assert forall|i: int| 0 <= i < rest.len() implies match #[trigger] rest[i] {
                InputEvent::KeyboardKey { key, .. } => key < KEY_BITS,
                _ => true,
            } by {
                assert(rest[i] == events[i]);
            }
        }
        lemma_untouched_key_is_quiet(f, rest, k);
        let last = events.last();
        assert(events[events.len() - 1] == last);
        match last {
            InputEvent::KeyboardKey { key, state } => {
                assert(key != k);
                assert(key < KEY_BITS);
            },
            _ => {},
        }
    }
}

/// A key pressed twice without a release in between is held, but reports a
/// press only the first time.
pub proof fn lemma_repeat_press_is_not_a_new_press(f: ButtonFlags, i: int)
    requires
        0 <= i < f.held.len(),
        f.pressed.len() == f.held.len(),
    ensures
        button_step(f, i, ElementState::Pressed).held[i],
        button_step(f, i, ElementState::Pressed).pressed[i] == !f.held[i],
        button_step(button_step(f, i, ElementState::Pressed), i, ElementState::Pressed).held[i],
        !button_step(button_step(f, i, ElementState::Pressed), i, ElementState::Pressed).pressed[i],
{
}

/// After a release the button is not held and reports the release.
pub proof fn lemma_release_after_press(f: ButtonFlags, i: int)
    requires
        0 <= i < f.held.len(),
        f.released.len() == f.held.len(),
        f.pressed.len() == f.held.len(),
    ensures
        !button_step(button_step(f, i, ElementState::Pressed), i, ElementState::Released).held[i],
        button_step(button_step(f, i, ElementState::Pressed), i, ElementState::Released).released[i],
        button_step(button_step(f, i, ElementState::Pressed), i, ElementState::Released).pressed[i]
            == !f.held[i],
{
}

/// Clearing the transient flags keeps what is held, and a button is reported
/// pressed or released again only by a new event.
pub proof fn lemma_clear_keeps_held(f: ButtonFlags, i: int)
    requires
        0 <= i < f.held.len(),
        f.pressed.len() == f.held.len(),
        f.released.len() == f.held.len(),
    ensures
        button_clear(f).held == f.held,
        !button_clear(f).pressed[i],
        !button_clear(f).released[i],
{
}

/// Only the left, middle and right mouse buttons are tracked, each in a slot
/// of its own: every other button (back, forward, any other) has no slot.
pub proof fn lemma_three_mouse_buttons_tracked(b: MouseButton, c: MouseButton)
    ensures
        mouse_index(b) is Some <==> (b is Left || b is Middle || b is Right),
        mouse_index(b) matches Some(i) ==> 0 <= i < 3,
        (mouse_index(b) is Some && mouse_index(b) == mouse_index(c)) ==> b == c,
{
}

} // verus!
