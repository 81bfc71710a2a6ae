//! The client's polling state machine: it tracks whether focus mode is on,
//! the totem's address, the current session's start, consecutive failed
//! polls and the apps it launched, and decides what each event calls for.
//! The caller performs the actions (discovery, HTTP, automation, logging).
use vstd::prelude::*;
use crate::totem::TotemState;
use crate::session::{LocalStamp, SessionRecord, whole_seconds_between, hour_of, weekday_of,
    INTERRUPTED_BELOW_SECONDS};

verus! {

/// Consecutive failed polls after which the totem counts as gone.
pub const MAX_FAILED_PINGS: u8 = 3;

/// What the client does about a reported state.
#[derive(Clone, Copy, Debug, PartialEq, Eq, Structural)]
pub enum FocusAction {
    /// Nothing changes.
    Hold,
    /// Focus mode turns on: apply the focus automations.
    Activate,
    /// Focus mode turns off: undo the automations and log the session.
    Deactivate,
}

/// How the client gets an address to poll.
#[derive(Clone, Copy, Debug, PartialEq, Eq, Structural)]
pub enum AddressStep {
    /// An address is already known.
    Known,
    /// Development mode: use the mock endpoint.
    UseMock,
    /// Search the network for the totem.
    Discover,
}

/// The result of a failed poll.
#[derive(Clone, Copy, Debug, PartialEq, Eq, Structural)]
pub struct StrikeOutcome {
    /// The state the client acts on.
    pub state: TotemState,
    /// The consecutive failures counted, this one included.
    pub strikes: u8,
    /// Whether the totem is now considered gone (the address is forgotten).
    pub connection_lost: bool,
}

/// The client's state.
pub struct FocusClient {
    pub is_focused: bool,
    pub esp32_address: Option<String>,
    pub session_start: Option<LocalStamp>,
    pub failed_pings: u8,
    pub active_focus_apps: Vec<String>,
}

/// The strike count after one more failure (`saturating_add(1)`).
pub open spec fn next_strike(failed: u8) -> u8 {
    if failed == 255 {
        255
    } else {
        (failed + 1) as u8
    }
}

/// Whether one more failure loses the connection.
pub open spec fn strike_loses_connection(failed: u8) -> bool {
    next_strike(failed) >= MAX_FAILED_PINGS
}

/// The counter kept after one more failure.
pub open spec fn failed_after_strike(failed: u8) -> u8 {
    if strike_loses_connection(failed) {
        0
    } else {
        next_strike(failed)
    }
}

/// The state that a failure is answered with.
pub open spec fn strike_state(failed: u8, is_focused: bool) -> TotemState {
    if strike_loses_connection(failed) {
        TotemState::Error
    } else if is_focused {
        TotemState::FocusOn
    } else {
        TotemState::FocusOff
    }
}

/// Focus is on after reacting to `state` exactly when the totem says so.
pub open spec fn focused_after(state: TotemState) -> bool {
    state == TotemState::FocusOn
}

/// The action that reacting to `state` calls for when focus is `is_focused`.
pub open spec fn reaction(is_focused: bool, state: TotemState) -> FocusAction {
    if state == TotemState::FocusOn && !is_focused {
        FocusAction::Activate
    } else if state != TotemState::FocusOn && is_focused {
        FocusAction::Deactivate
    } else {
        FocusAction::Hold
    }
}

impl FocusClient {
    /// The invariant: fewer than `MAX_FAILED_PINGS` pending failures and a
    /// valid session start.
    pub open spec fn wf(&self) -> bool {
        &&& self.failed_pings < MAX_FAILED_PINGS
        &&& (self.session_start matches Some(t) ==> t.wf())
    }

    /// A client that is not focused, knows no address and has no session.
    pub fn new() -> (r: FocusClient)
        ensures
            r.wf(),
            !r.is_focused,
            r.esp32_address is None,
            r.session_start is None,
            r.failed_pings == 0,
            r.active_focus_apps@.len() == 0,
    {
        FocusClient {
            is_focused: false,
            esp32_address: None,
            session_start: None,
            failed_pings: 0,
            active_focus_apps: Vec::new(),
        }
    }

    /// How to get an address before polling.
    pub fn address_step(&self, dev_mode: bool) -> (r: AddressStep)
        ensures
            self.esp32_address is Some ==> r == AddressStep::Known,
            self.esp32_address is None && dev_mode ==> r == AddressStep::UseMock,
            self.esp32_address is None && !dev_mode ==> r == AddressStep::Discover,
    {
        if self.esp32_address.is_some() {
            AddressStep::Known
        } else if dev_mode {
            AddressStep::UseMock
        } else {
            AddressStep::Discover
        }
    }

    /// Remembers the address to poll.
    pub fn set_address(&mut self, address: String)
        requires
            old(self).wf(),
        ensures
            final(self).wf(),
            final(self).esp32_address == Some(address),
            final(self).is_focused == old(self).is_focused,
            final(self).session_start == old(self).session_start,
            final(self).failed_pings == old(self).failed_pings,
            final(self).active_focus_apps@ == old(self).active_focus_apps@,
    {
        self.esp32_address = Some(address);
    }

    /// A poll succeeded: the strike count starts over and the state is acted on.
    pub fn record_success(&mut self, state: TotemState) -> (r: TotemState)
        requires
            old(self).wf(),
        ensures
            final(self).wf(),
            r == state,
            final(self).failed_pings == 0,
            final(self).is_focused == old(self).is_focused,
            final(self).esp32_address == old(self).esp32_address,
            final(self).session_start == old(self).session_start,
            final(self).active_focus_apps@ == old(self).active_focus_apps@,
    {
        self.failed_pings = 0;
        state
    }

    /// A poll failed. Below `MAX_FAILED_PINGS` consecutive failures the
    /// current focus state is held; at the limit the address is forgotten,
    /// the count starts over and the client acts on `Error`.
    pub fn register_failed_ping(&mut self) -> (r: StrikeOutcome)
        requires
            old(self).wf(),
        ensures
            final(self).wf(),
            r.strikes == next_strike(old(self).failed_pings),
            r.connection_lost == strike_loses_connection(old(self).failed_pings),
            r.state == strike_state(old(self).failed_pings, old(self).is_focused),
            final(self).failed_pings == failed_after_strike(old(self).failed_pings),
            final(self).esp32_address == (if r.connection_lost {
                None
            } else {
                old(self).esp32_address
            }),
            final(self).is_focused == old(self).is_focused,
            final(self).session_start == old(self).session_start,
            final(self).active_focus_apps@ == old(self).active_focus_apps@,
    {
        let strikes = self.failed_pings.saturating_add(1);
        self.failed_pings = strikes;
        if self.failed_pings >= MAX_FAILED_PINGS {
            self.failed_pings = 0;
            self.esp32_address = None;
            StrikeOutcome { state: TotemState::Error, strikes, connection_lost: true }
        } else {
            let state = if self.is_focused {
                TotemState::FocusOn
            } else {
                TotemState::FocusOff
            };
            StrikeOutcome { state, strikes, connection_lost: false }
        }
    }

    /// Reacts to a reported state at time `now`. Focus turns on (and a
    /// session starts at `now`) when the totem says `FocusOn` and focus is
    /// off; it turns off when the totem says anything else and focus is on.
    /// The session is closed later by `end_focus_session`.
    pub fn react_to_state(&mut self, state: TotemState, now: LocalStamp) -> (r: FocusAction)
        requires
            old(self).wf(),
            now.wf(),
        ensures
            final(self).wf(),
            r == reaction(old(self).is_focused, state),
            final(self).is_focused == focused_after(state),
            r == FocusAction::Activate ==> final(self).session_start == Some(now),
            r != FocusAction::Activate ==> final(self).session_start == old(self).session_start,
            final(self).esp32_address == old(self).esp32_address,
            final(self).failed_pings == old(self).failed_pings,
            final(self).active_focus_apps@ == old(self).active_focus_apps@,
    {
        if state == TotemState::FocusOn && !self.is_focused {
            self.is_focused = true;
            self.begin_focus_session(now);
            FocusAction::Activate
        } else if state != TotemState::FocusOn && self.is_focused {
            self.is_focused = false;
            FocusAction::Deactivate
        } else {
            FocusAction::Hold
        }
    }

    /// Starts a session at `now`.
    pub fn begin_focus_session(&mut self, now: LocalStamp)
        requires
            old(self).failed_pings < MAX_FAILED_PINGS,
            now.wf(),
        ensures
            final(self).session_start == Some(now),
            final(self).is_focused == old(self).is_focused,
            final(self).esp32_address == old(self).esp32_address,
            final(self).failed_pings == old(self).failed_pings,
            final(self).active_focus_apps@ == old(self).active_focus_apps@,
            final(self).wf(),
    {
        self.session_start = Some(now);
    }

    /// Closes the running session at `now` and returns its record, or `None`
    /// when no session start was recorded.
    pub fn end_focus_session(&mut self, now: LocalStamp) -> (r: Option<SessionRecord>)
        requires
            old(self).wf(),
            now.wf(),
        ensures
            final(self).wf(),
            final(self).session_start is None,
            old(self).session_start is None <==> r is None,
            old(self).session_start matches Some(start) ==> r matches Some(rec) && rec.start_time
                == start && rec.end_time == now && rec.duration_seconds as int
                == whole_seconds_between(start, now) && rec.hour_of_day as int == hour_of(start)
                && rec.day_of_week as int == weekday_of(start) && rec.interrupted
                == (rec.duration_seconds < INTERRUPTED_BELOW_SECONDS),
            final(self).is_focused == old(self).is_focused,
            final(self).esp32_address == old(self).esp32_address,
            final(self).failed_pings == old(self).failed_pings,
            final(self).active_focus_apps@ == old(self).active_focus_apps@,
    {
        match self.session_start.take() {
            Some(start) => Some(SessionRecord::new(start, now)),
            None => None,
        }
    }

    /// Remembers the apps that activation launched.
    pub fn set_active_apps(&mut self, apps: Vec<String>)
        requires
            old(self).wf(),
        ensures
            final(self).wf(),
            final(self).active_focus_apps@ == apps@,
            final(self).is_focused == old(self).is_focused,
            final(self).esp32_address == old(self).esp32_address,
            final(self).session_start == old(self).session_start,
            final(self).failed_pings == old(self).failed_pings,
    {
        self.active_focus_apps = apps;
    }

    /// The apps to close on deactivation: those launched by the last
    /// activation, handed over and forgotten; `None` when there are none,
    /// in which case the configuration is to be loaded again.
    pub fn apps_to_deactivate(&mut self) -> (r: Option<Vec<String>>)
        requires
            old(self).wf(),
        ensures
            final(self).wf(),
            old(self).active_focus_apps@.len() == 0 ==> r is None,
            old(self).active_focus_apps@.len() > 0 ==> (r matches Some(apps) && apps@ == old(
                self,
            ).active_focus_apps@),
            final(self).active_focus_apps@.len() == 0,
            final(self).is_focused == old(self).is_focused,
            final(self).esp32_address == old(self).esp32_address,
            final(self).session_start == old(self).session_start,
            final(self).failed_pings == old(self).failed_pings,
    {
        if self.active_focus_apps.len() == 0 {
            None
        } else {
            let mut apps: Vec<String> = Vec::new();
            std::mem::swap(&mut apps, &mut self.active_focus_apps);
            Some(apps)
        }
    }

    /// Shutting down: focus turns off; `Deactivate` when it was on.
    pub fn shutdown_gracefully(&mut self) -> (r: FocusAction)
        requires
            old(self).wf(),
        ensures
            final(self).wf(),
            !final(self).is_focused,
            r == (if old(self).is_focused {
                FocusAction::Deactivate
            } else {
                FocusAction::Hold
            }),
            final(self).session_start == old(self).session_start,
            final(self).esp32_address == old(self).esp32_address,
            final(self).failed_pings == old(self).failed_pings,
            final(self).active_focus_apps@ == old(self).active_focus_apps@,
    {
        if self.is_focused {
            self.is_focused = false;
            FocusAction::Deactivate
        } else {
            FocusAction::Hold
        }
    }
}

/// After any reaction, focus is on exactly when the totem said `FocusOn`,
/// so a second identical report calls for nothing.
pub proof fn law_reaction_is_idempotent(state: TotemState)
    ensures
        reaction(focused_after(state), state) == FocusAction::Hold,
{
}

/// A reaction changes the focus exactly when it calls for an action.
pub proof fn law_reaction_changes_focus_iff_action(is_focused: bool, state: TotemState)
    ensures
        (reaction(is_focused, state) != FocusAction::Hold) == (focused_after(state)
            != is_focused),
{
}

/// Consecutive failed polls: while fewer than `MAX_FAILED_PINGS` have
/// piled up the client holds its focus state and counts one more; the
/// failure that reaches the limit answers `Error`, loses the connection and
/// starts the count over.
pub proof fn law_three_strikes(failed: u8, is_focused: bool)
    requires
        failed < MAX_FAILED_PINGS,
    ensures
        strike_loses_connection(failed) <==> failed + 1 == MAX_FAILED_PINGS,
        !strike_loses_connection(failed) ==> failed_after_strike(failed) == failed + 1
            && strike_state(failed, is_focused) == (if is_focused {
            TotemState::FocusOn
        } else {
            TotemState::FocusOff
        }),
        strike_loses_connection(failed) ==> failed_after_strike(failed) == 0 && strike_state(
            failed,
            is_focused,
        ) == TotemState::Error,
{
}

/// The failure count stays below `MAX_FAILED_PINGS` whatever happens.
pub proof fn law_strike_count_bounded(failed: u8)
    requires
        failed < MAX_FAILED_PINGS,
    ensures
        failed_after_strike(failed) < MAX_FAILED_PINGS,
        next_strike(failed) <= MAX_FAILED_PINGS,
{
}

} // verus!
