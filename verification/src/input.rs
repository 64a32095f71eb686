//! Input state machine.
//!
//! Each logical button is tracked by a tri-state that turns raw
//! press/release edges into "held" and "just pressed" queries.  A press
//! edge is consumable exactly once, however many ticks elapse while the
//! button stays held; a release always returns the button to `NotHeld`.

use vstd::prelude::*;
use crate::spells::Element;

verus! {

/// Number of logical buttons the simulation reads.
pub const BUTTON_COUNT: usize = 14;

/// The logical buttons: horizontal movement, jump, cast, and one
/// selection button per element.
#[derive(Clone, Copy, Debug, PartialEq, Eq, Structural)]
pub enum Button {
    MoveLeft,
    MoveRight,
    Jump,
    Cast,
    Select(Element),
}

/// Tri-state of one button.
#[derive(Clone, Copy, Debug, PartialEq, Eq, Structural)]
pub enum ButtonState {
    NotHeld,
    HeldUnreadPress,
    HeldReadPress,
}

/// Index of an element's selection button within the tracker.
pub open spec fn element_index(e: Element) -> int {
    match e {
        Element::Earth => 0,
        Element::Water => 1,
        Element::Air => 2,
        Element::Fire => 3,
        Element::Acid => 4,
        Element::Pressure => 5,
        Element::Shock => 6,
        Element::Radiance => 7,
        Element::Life => 8,
        Element::Void => 9,
    }
}

/// Index of a button within the tracker.
pub open spec fn button_index(b: Button) -> int {
    match b {
        Button::MoveLeft => 10,
        Button::MoveRight => 11,
        Button::Jump => 12,
        Button::Cast => 13,
        Button::Select(e) => element_index(e),
    }
}

/// State after a raw press edge: a new press is pending until read; a
/// press already pending or already consumed is unchanged.
pub open spec fn on_press(s: ButtonState) -> ButtonState {
    match s {
        ButtonState::NotHeld => ButtonState::HeldUnreadPress,
        ButtonState::HeldUnreadPress => ButtonState::HeldUnreadPress,
        ButtonState::HeldReadPress => ButtonState::HeldReadPress,
    }
}

/// A raw release edge returns any state to `NotHeld`.
pub open spec fn on_release(s: ButtonState) -> ButtonState {
    ButtonState::NotHeld
}

/// The button is held in either `Held` state.
pub open spec fn state_held(s: ButtonState) -> bool {
    s is HeldUnreadPress || s is HeldReadPress
}

/// Reading the "just pressed" edge consumes it.
pub open spec fn consume_press(s: ButtonState) -> ButtonState {
    if s is HeldUnreadPress {
        ButtonState::HeldReadPress
    } else {
        s
    }
}

/// Per-button tri-state tracker.
pub struct InputState {
    pub states: Vec<ButtonState>,
}

/// The tracker holds exactly one state per logical button.
pub open spec fn input_wf(inp: InputState) -> bool {
    inp.states@.len() == BUTTON_COUNT
}

/// State of one button.
pub open spec fn state_of(inp: InputState, b: Button) -> ButtonState {
    inp.states@[button_index(b)]
}

/// The exec twin of [`button_index`].
pub fn button_index_of(b: Button) -> (r: usize)
    ensures
        r == button_index(b),
        r < BUTTON_COUNT,
{
    match b {
        Button::MoveLeft => 10,
        Button::MoveRight => 11,
        Button::Jump => 12,
        Button::Cast => 13,
        Button::Select(e) => match e {
            Element::Earth => 0,
            Element::Water => 1,
            Element::Air => 2,
            Element::Fire => 3,
            Element::Acid => 4,
            Element::Pressure => 5,
            Element::Shock => 6,
            Element::Radiance => 7,
            Element::Life => 8,
            Element::Void => 9,
        },
    }
}

impl InputState {
    /// A tracker with every button unheld.
    pub fn new() -> (r: InputState)
        ensures
            input_wf(r),
            forall|i: int| 0 <= i < BUTTON_COUNT ==> r.states@[i] == ButtonState::NotHeld,
    {
        let mut states: Vec<ButtonState> = Vec::new();
        let mut i: usize = 0;
        while i < BUTTON_COUNT
            invariant
                i <= BUTTON_COUNT,
                states@.len() == i,
                forall|j: int| 0 <= j < i ==> states@[j] == ButtonState::NotHeld,
            decreases BUTTON_COUNT - i,
        {
            states.push(ButtonState::NotHeld);
            i = i + 1;
        }
        InputState { states }
    }

    /// Feed one raw edge for a button.
    pub fn update_button(&mut self, b: Button, pressed: bool)
        requires
            input_wf(*old(self)),
        ensures
            input_wf(*final(self)),
            final(self).states@ == old(self).states@.update(
                button_index(b),
                if pressed {
                    on_press(state_of(*old(self), b))
                } else {
                    on_release(state_of(*old(self), b))
                },
            ),
    {
        let i = button_index_of(b);
        let next = if pressed {
            match self.states[i] {
                ButtonState::NotHeld => ButtonState::HeldUnreadPress,
                ButtonState::HeldUnreadPress => ButtonState::HeldUnreadPress,
                ButtonState::HeldReadPress => ButtonState::HeldReadPress,
            }
        } else {
            ButtonState::NotHeld
        };
        self.states.set(i, next);
    }

    /// Whether the button is currently held.
    pub fn is_button_held(&self, b: Button) -> (r: bool)
        requires
            input_wf(*self),
        ensures
            r == state_held(state_of(*self, b)),
    {
        let i = button_index_of(b);
        match self.states[i] {
            ButtonState::NotHeld => false,
            ButtonState::HeldUnreadPress => true,
            ButtonState::HeldReadPress => true,
        }
    }

    /// Whether the button was pressed since last read; reading the edge
    /// consumes it.
    pub fn is_button_pressed(&mut self, b: Button) -> (r: bool)
        requires
            input_wf(*old(self)),
        ensures
            input_wf(*final(self)),
            r == (state_of(*old(self), b) is HeldUnreadPress),
            final(self).states@ == old(self).states@.update(
                button_index(b),
                consume_press(state_of(*old(self), b)),
            ),
    {
        let i = button_index_of(b);
        match self.states[i] {
            ButtonState::HeldUnreadPress => {
                self.states.set(i, ButtonState::HeldReadPress);
                true
            },
            ButtonState::NotHeld => {
                proof {
                    assert(self.states@ =~= old(self).states@.update(
                        button_index(b),
                        consume_press(state_of(*old(self), b)),
                    ));
                }
                false
            },
            ButtonState::HeldReadPress => {
                proof {
                    assert(self.states@ =~= old(self).states@.update(
                        button_index(b),
                        consume_press(state_of(*old(self), b)),
                    ));
                }
                false
            },
        }
    }
}

} // verus!
