use vstd::prelude::*;

verus! {

/// Interaction state of a button.
#[derive(Debug, Clone, Copy, PartialEq, Eq, Structural)]
pub enum ButtonState {
    Normal,
    Hovered,
    Pressed,
    Disabled,
}

/// A push button.
#[derive(Debug, Clone)]
pub struct Button {
    pub label: String,
    pub state: ButtonState,
}

impl Button {
    pub fn new(label: &str) -> (b: Self)
        ensures
            b.label@ == label@,
            b.state == ButtonState::Normal,
    {
        Button { label: label.to_owned(), state: ButtonState::Normal }
    }

    /// The pointer enters: any enabled button becomes hovered.
    pub fn on_hover(&mut self)
        ensures
            final(self).state == if old(self).state != ButtonState::Disabled {
                ButtonState::Hovered
            } else {
                ButtonState::Disabled
            },
            final(self).label == old(self).label,
    {
        if self.state != ButtonState::Disabled {
            self.state = ButtonState::Hovered;
        }
    }

    /// The pointer leaves: a hovered button becomes normal.
    pub fn on_leave(&mut self)
        ensures
            final(self).state == if old(self).state == ButtonState::Hovered {
                ButtonState::Normal
            } else {
                old(self).state
            },
            final(self).label == old(self).label,
    {
        if self.state == ButtonState::Hovered {
            self.state = ButtonState::Normal;
        }
    }

    /// Press: any enabled button becomes pressed.
    pub fn on_press(&mut self)
        ensures
            final(self).state == if old(self).state != ButtonState::Disabled {
                ButtonState::Pressed
            } else {
                ButtonState::Disabled
            },
            final(self).label == old(self).label,
    {
        if self.state != ButtonState::Disabled {
            self.state = ButtonState::Pressed;
        }
    }

    /// Release: a pressed button becomes normal.
    pub fn on_release(&mut self)
        ensures
            final(self).state == if old(self).state == ButtonState::Pressed {
                ButtonState::Normal
            } else {
                old(self).state
            },
            final(self).label == old(self).label,
    {
        if self.state == ButtonState::Pressed {
            self.state = ButtonState::Normal;
        }
    }

    /// Disables the button, or re-enables a disabled one as normal.
    pub fn set_disabled(&mut self, disabled: bool)
        ensures
            final(self).state == if disabled {
                ButtonState::Disabled
            } else if old(self).state == ButtonState::Disabled {
                ButtonState::Normal
            } else {
                old(self).state
            },
            final(self).label == old(self).label,
    {
        if disabled {
            self.state = ButtonState::Disabled;
        } else if self.state == ButtonState::Disabled {
            self.state = ButtonState::Normal;
        }
    }

    pub fn is_interactive(&self) -> (r: bool)
        ensures
            r == (self.state != ButtonState::Disabled),
    {
        self.state != ButtonState::Disabled
    }
}

} // verus!
