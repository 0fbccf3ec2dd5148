//! The controller: its buttons, the host key codes that stand for them, and
//! the pressed or released state of each.

use vstd::prelude::*;

verus! {

/// Key code of the space bar.
pub const KEY_SPACE: u8 = 32;

/// Key code of the enter key.
pub const KEY_ENTER: u8 = 13;

/// Key code of the up arrow.
pub const KEY_UP: u8 = 38;

/// Key code of the down arrow.
pub const KEY_DOWN: u8 = 40;

/// Key code of the left arrow.
pub const KEY_LEFT: u8 = 37;

/// Key code of the right arrow.
pub const KEY_RIGHT: u8 = 39;

/// Key code of the letter Z.
pub const KEY_Z: u8 = 90;

/// Key code of the letter X.
pub const KEY_X: u8 = 88;

/// A button of the controller.
#[derive(Clone, Copy, Debug, PartialEq, Eq, Structural)]
pub enum Button {
    A,
    B,
    Select,
    Start,
    Up,
    Down,
    Left,
    Right,
}

/// The button that a key code stands for, if it stands for any.
pub open spec fn mapped_button(key_code: u8) -> Option<Button> {
    if key_code == KEY_X {
        Some(Button::A)
    } else if key_code == KEY_Z {
        Some(Button::B)
    } else if key_code == KEY_SPACE {
        Some(Button::Select)
    } else if key_code == KEY_ENTER {
        Some(Button::Start)
    } else if key_code == KEY_UP {
        Some(Button::Up)
    } else if key_code == KEY_DOWN {
        Some(Button::Down)
    } else if key_code == KEY_LEFT {
        Some(Button::Left)
    } else if key_code == KEY_RIGHT {
        Some(Button::Right)
    } else {
        None
    }
}

/// Looks up the button that a key code stands for.
pub fn button_for_key(key_code: u8) -> (button: Option<Button>)
    ensures
        button == mapped_button(key_code),
{
    match key_code {
        KEY_X => Some(Button::A),
        KEY_Z => Some(Button::B),
        KEY_SPACE => Some(Button::Select),
        KEY_ENTER => Some(Button::Start),
        KEY_UP => Some(Button::Up),
        KEY_DOWN => Some(Button::Down),
        KEY_LEFT => Some(Button::Left),
        KEY_RIGHT => Some(Button::Right),
        _ => None,
    }
}

/// The level of every button of one controller: `true` is pressed.
#[derive(Clone, Copy, Debug, PartialEq, Eq, Structural)]
pub struct GamePad {
    pub a: bool,
    pub b: bool,
    pub select: bool,
    pub start: bool,
    pub up: bool,
    pub down: bool,
    pub left: bool,
    pub right: bool,
}

impl GamePad {
    /// The controller with every button released.
    pub open spec fn released() -> GamePad {
        GamePad {
            a: false,
            b: false,
            select: false,
            start: false,
            up: false,
            down: false,
            left: false,
            right: false,
        }
    }

    /// Whether `button` is pressed.
    pub open spec fn pressed(self, button: Button) -> bool {
        match button {
            Button::A => self.a,
            Button::B => self.b,
            Button::Select => self.select,
            Button::Start => self.start,
            Button::Up => self.up,
            Button::Down => self.down,
            Button::Left => self.left,
            Button::Right => self.right,
        }
    }

    /// This controller with `button` at the level `pressed`.
    pub open spec fn with_button(self, button: Button, pressed: bool) -> GamePad {
        match button {
            Button::A => GamePad { a: pressed, ..self },
            Button::B => GamePad { b: pressed, ..self },
            Button::Select => GamePad { select: pressed, ..self },
            Button::Start => GamePad { start: pressed, ..self },
            Button::Up => GamePad { up: pressed, ..self },
            Button::Down => GamePad { down: pressed, ..self },
            Button::Left => GamePad { left: pressed, ..self },
            Button::Right => GamePad { right: pressed, ..self },
        }
    }

    /// This controller after the host has reported `key_code` as going down
    /// (`pressed`) or up: the button that the code stands for takes that
    /// level, and a code that stands for none changes nothing.
    pub open spec fn after_key_event(self, key_code: u8, pressed: bool) -> GamePad {
        match mapped_button(key_code) {
            Some(button) => self.with_button(button, pressed),
            None => self,
        }
    }

    /// A controller with every button released.
    pub fn new() -> (pad: GamePad)
        ensures
            pad == GamePad::released(),
    {
        GamePad {
            a: false,
            b: false,
            select: false,
            start: false,
            up: false,
            down: false,
            left: false,
            right: false,
        }
    }

    /// Reads the level of `button`.
    pub fn is_pressed(&self, button: Button) -> (pressed: bool)
        ensures
            pressed == self.pressed(button),
    {
        match button {
            Button::A => self.a,
            Button::B => self.b,
            Button::Select => self.select,
            Button::Start => self.start,
            Button::Up => self.up,
            Button::Down => self.down,
            Button::Left => self.left,
            Button::Right => self.right,
        }
    }

    /// Sets the level of `button` and leaves every other button as it is.
    pub fn set_button_pressed(&mut self, button: Button, pressed: bool)
        ensures
            *final(self) == old(self).with_button(button, pressed),
    {
        match button {
            Button::A => self.a = pressed,
            Button::B => self.b = pressed,
            Button::Select => self.select = pressed,
            Button::Start => self.start = pressed,
            Button::Up => self.up = pressed,
            Button::Down => self.down = pressed,
            Button::Left => self.left = pressed,
            Button::Right => self.right = pressed,
        }
    }
}

/// Setting a button gives that button the new level and keeps the level of
/// every other button.
pub proof fn lemma_with_button(pad: GamePad, button: Button, pressed: bool)
    ensures
        pad.with_button(button, pressed).pressed(button) == pressed,
        forall|other: Button|
            other != button ==> #[trigger] pad.with_button(button, pressed).pressed(other)
                == pad.pressed(other),
{
}

/// Two controllers on which every button has the same level are the same.
pub proof fn lemma_pad_extensional(one: GamePad, other: GamePad)
    requires
        forall|button: Button| #[trigger] one.pressed(button) == other.pressed(button),
    ensures
        one == other,
{
    assert(one.pressed(Button::A) == other.pressed(Button::A));
    assert(one.pressed(Button::B) == other.pressed(Button::B));
    assert(one.pressed(Button::Select) == other.pressed(Button::Select));
    assert(one.pressed(Button::Start) == other.pressed(Button::Start));
    assert(one.pressed(Button::Up) == other.pressed(Button::Up));
    assert(one.pressed(Button::Down) == other.pressed(Button::Down));
    assert(one.pressed(Button::Left) == other.pressed(Button::Left));
    assert(one.pressed(Button::Right) == other.pressed(Button::Right));
}

/// Exactly eight key codes stand for a button.
pub proof fn lemma_recognised_codes(key_code: u8)
    ensures
        mapped_button(key_code) is Some <==> (key_code == KEY_X || key_code == KEY_Z || key_code
            == KEY_SPACE || key_code == KEY_ENTER || key_code == KEY_UP || key_code == KEY_DOWN
            || key_code == KEY_LEFT || key_code == KEY_RIGHT),
{
}

/// Each button has exactly one key code.
pub proof fn lemma_mapping_injective(one: u8, other: u8)
    requires
        mapped_button(one) is Some,
        mapped_button(one) == mapped_button(other),
    ensures
        one == other,
{
}

/// A key that goes down and then up again, with nothing in between, leaves
/// its button released and every other button as it was: the last level
/// written wins, and nothing is queued.
pub proof fn lemma_press_then_release(pad: GamePad, key_code: u8)
    ensures
        pad.after_key_event(key_code, true).after_key_event(key_code, false)
            == pad.after_key_event(key_code, false),
        mapped_button(key_code) matches Some(button) ==> {
            let after = pad.after_key_event(key_code, true).after_key_event(key_code, false);
            &&& !after.pressed(button)
            &&& forall|other: Button|
                other != button ==> #[trigger] after.pressed(other) == pad.pressed(other)
        },
{
}

/// A key code that stands for no button never changes the level of any
/// button, whether it goes down or up.
pub proof fn lemma_unrecognised_key_ignored(pad: GamePad, key_code: u8, pressed: bool)
    requires
        mapped_button(key_code) is None,
    ensures
        pad.after_key_event(key_code, pressed) == pad,
        forall|button: Button|
            #[trigger] pad.after_key_event(key_code, pressed).pressed(button) == pad.pressed(
                button,
            ),
{
}

} // verus!
