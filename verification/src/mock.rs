//! The development stand-in for the totem: a focus switch that answers
//! `/status` with the current payload and flips on `/toggle`.
use vstd::prelude::*;
use crate::totem::{payload_for, payload_state, law_payload_round_trip, TotemState};

verus! {

/// The mock totem's switch.
pub struct MockTotem {
    pub focus_on: bool,
}

impl MockTotem {
    /// The mock starts with focus on.
    pub fn new() -> (r: MockTotem)
        ensures
            r.focus_on,
    {
        MockTotem { focus_on: true }
    }

    /// The reply to `GET /status`.
    pub fn status(&self) -> (r: &'static str)
        ensures
            r@ == payload_for(self.focus_on),
    {
        if self.focus_on {
            "FOCUS_ON"
        } else {
            "FOCUS_OFF"
        }
    }

    /// `GET /toggle`: flips the switch and replies with the new payload.
    pub fn toggle(&mut self) -> (r: &'static str)
        ensures
            final(self).focus_on == !old(self).focus_on,
            r@ == payload_for(final(self).focus_on),
    {
        self.focus_on = !self.focus_on;
        self.status()
    }
}

/// Whatever the mock answers, the client reads it as the switch's position;
/// toggling twice restores the answer.
pub proof fn law_mock_answers_are_understood(focus_on: bool)
    ensures
        payload_state(payload_for(focus_on)) == Some(
            if focus_on {
                TotemState::FocusOn
            } else {
                TotemState::FocusOff
            },
        ),
        payload_for(!!focus_on) == payload_for(focus_on),
{
    law_payload_round_trip(focus_on);
}

} // verus!
