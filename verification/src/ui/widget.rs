//! Interaction vocabulary of the widget tree: hit results and the press/release
//! state machine of a tappable button.
use vstd::prelude::*;

verus! {

/// An interactive target reported by a hit test.
#[derive(Clone, Copy, Debug, PartialEq, Eq, Structural)]
pub struct Hit {
    pub id: u64,
}

/// The phase of a pointer event.
#[derive(Clone, Copy, Debug, PartialEq, Eq, Structural)]
pub enum PointerPhase {
    Press,
    Release,
}

/// Press tracking of a button: a button activates when a press that landed
/// inside it is released inside it.
#[derive(Clone, Copy, Debug, Default, PartialEq, Eq, Structural)]
pub struct ButtonPress {
    pub pressed: bool,
}

/// The result of feeding one pointer event to a button (`inside` tells whether
/// the pointer is inside the button's box) and the button's next press state.
pub open spec fn spec_button_event(pressed: bool, phase: PointerPhase, inside: bool) -> (bool, bool) {
    match phase {
        PointerPhase::Press => if inside {
            (true, true)
        } else {
            (false, pressed)
        },
        PointerPhase::Release => (pressed && inside, false),
    }
}

impl ButtonPress {
    /// Feeds one pointer event. A press inside arms the button and is consumed;
    /// a press outside is ignored. A release disarms the button and reports an
    /// activation exactly when the button was armed and the release is inside.
    pub fn handle(&mut self, phase: PointerPhase, inside: bool) -> (consumed: bool)
        ensures
            (consumed, final(self).pressed) == spec_button_event(old(self).pressed, phase, inside),
    {
        match phase {
            PointerPhase::Press => {
                if inside {
                    self.pressed = true;
                    true
                } else {
                    false
                }
            },
            PointerPhase::Release => {
                let activated = self.pressed && inside;
                self.pressed = false;
                activated
            },
        }
    }
}

/// A press and release both inside the button activate it, whatever its state
/// before; a release with no armed press never activates; after any release
/// the button is disarmed.
pub proof fn law_button_click(pressed: bool, inside: bool)
    ensures
        ({
            let (_p, armed) = spec_button_event(pressed, PointerPhase::Press, true);
            spec_button_event(armed, PointerPhase::Release, true).0
        }),
        !spec_button_event(false, PointerPhase::Release, inside).0,
        !spec_button_event(pressed, PointerPhase::Release, inside).1,
        spec_button_event(pressed, PointerPhase::Press, false) == (false, pressed),
{
}

} // verus!
