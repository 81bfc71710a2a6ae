//! The state machine behind the desktop status window: what the window shows
//! and which automation each discovery or poll result calls for.
use vstd::prelude::*;
use crate::text::str_eq;

verus! {

broadcast use vstd::string::group_string_axioms;

/// What the status window shows.
pub enum AppStatus {
    Searching,
    Connected(String),
    FocusActive(String),
    ConnectionLost,
}

/// The view of a status, with addresses as character sequences.
pub enum StatusView {
    Searching,
    Connected(Seq<char>),
    FocusActive(Seq<char>),
    ConnectionLost,
}

/// The view of a status.
pub open spec fn status_view(s: AppStatus) -> StatusView {
    match s {
        AppStatus::Searching => StatusView::Searching,
        AppStatus::Connected(a) => StatusView::Connected(a@),
        AppStatus::FocusActive(a) => StatusView::FocusActive(a@),
        AppStatus::ConnectionLost => StatusView::ConnectionLost,
    }
}

/// The automation a window event calls for.
#[derive(Clone, Copy, Debug, PartialEq, Eq, Structural)]
pub enum WindowAction {
    Nothing,
    Activate,
    Deactivate,
}

/// The window's state: what it shows and the totem's address, if known.
pub struct WindowModel {
    pub status: AppStatus,
    pub address: Option<String>,
}

/// The address as a character sequence.
pub open spec fn address_view(a: Option<String>) -> Option<Seq<char>> {
    match a {
        Some(s) => Some(s@),
        None => None,
    }
}

/// The window's reaction to a successful reply `body` from address `a`:
/// exactly `FOCUS_ON` turns focus on, unless it is already on for `a`.
pub open spec fn reply_step(status: StatusView, a: Seq<char>, body: Seq<char>) -> (StatusView, WindowAction) {
    if body == "FOCUS_ON"@ && status != StatusView::FocusActive(a) {
        (StatusView::FocusActive(a), WindowAction::Activate)
    } else {
        (status, WindowAction::Nothing)
    }
}

/// Focus is activated once per address: repeating the same reply calls for nothing.
pub proof fn law_reply_activates_once(status: StatusView, a: Seq<char>, body: Seq<char>)
    ensures
        reply_step(reply_step(status, a, body).0, a, body).1 == WindowAction::Nothing,
{
}

impl WindowModel {
    /// The window starts out searching.
    pub fn new() -> (r: WindowModel)
        ensures
            status_view(r.status) == StatusView::Searching,
            r.address is None,
    {
        WindowModel { status: AppStatus::Searching, address: None }
    }

    /// Before a round: with no address the window shows `Searching` and the
    /// totem must be discovered (`true`); otherwise nothing changes.
    pub fn begin_round(&mut self) -> (r: bool)
        ensures
            r == old(self).address is None,
            r ==> status_view(final(self).status) == StatusView::Searching,
            !r ==> status_view(final(self).status) == status_view(old(self).status),
            address_view(final(self).address) == address_view(old(self).address),
    {
        if self.address.is_none() {
            self.status = AppStatus::Searching;
            true
        } else {
            false
        }
    }

    /// The result of a discovery: a found address is remembered and shown as
    /// `Connected`; nothing found changes nothing.
    pub fn on_discovery(&mut self, found: Option<String>)
        ensures
            match found {
                Some(a) => address_view(final(self).address) == Some(a@) && status_view(
                    final(self).status,
                ) == StatusView::Connected(a@),
                None => address_view(final(self).address) == address_view(old(self).address)
                    && status_view(final(self).status) == status_view(old(self).status),
            },
    {
        match found {
            Some(a) => {
                self.address = Some(a.clone());
                self.status = AppStatus::Connected(a);
            },
            None => {},
        }
    }

    /// A successful reply with body `body` from the known address: exactly
    /// `FOCUS_ON` turns focus on unless it is already on for this address.
    /// Any other body changes nothing.
    pub fn on_reply(&mut self, body: &str) -> (r: WindowAction)
        requires
            old(self).address is Some,
        ensures
            (status_view(final(self).status), r) == reply_step(
                status_view(old(self).status),
                old(self).address->0@,
                body@,
            ),
            address_view(final(self).address) == address_view(old(self).address),
    {
        let address = match &self.address {
            Some(a) => a.clone(),
            None => {
                return WindowAction::Nothing;
            },
        };
        if !str_eq(body, "FOCUS_ON") {
            return WindowAction::Nothing;
        }
        let already = match &self.status {
            AppStatus::FocusActive(a) => str_eq(a.as_str(), address.as_str()),
            _ => false,
        };
        if already {
            WindowAction::Nothing
        } else {
            self.status = AppStatus::FocusActive(address);
            WindowAction::Activate
        }
    }

    /// The request failed: focus turns off if it was on, the window shows
    /// `ConnectionLost`, and the address is forgotten.
    pub fn on_request_error(&mut self) -> (r: WindowAction)
        ensures
            r == (if status_view(old(self).status) is FocusActive {
                WindowAction::Deactivate
            } else {
                WindowAction::Nothing
            }),
            status_view(final(self).status) == StatusView::ConnectionLost,
            final(self).address is None,
    {
        let was_active = match &self.status {
            AppStatus::FocusActive(_) => true,
            _ => false,
        };
        self.status = AppStatus::ConnectionLost;
        self.address = None;
        if was_active {
            WindowAction::Deactivate
        } else {
            WindowAction::Nothing
        }
    }
}

/// The background colour, heading and line the window shows for a status.
pub open spec fn status_face(s: StatusView) -> (u32, Seq<char>, Seq<char>) {
    match s {
        StatusView::Searching => (0x3B82F6, "SEARCHING"@, "Looking for Focus Totem..."@),
        StatusView::Connected(_) => (0x22C55E, "CONNECTED"@, "Totem found. Ready to focus."@),
        StatusView::FocusActive(_) => (0x2e7d32, "FOCUS ACTIVE"@, "Deep work in session."@),
        StatusView::ConnectionLost => (0xEF4444, "DISCONNECTED"@, "Lost connection to Totem."@),
    }
}

/// The colour, heading and line for a status.
pub fn render_status(status: &AppStatus) -> (r: (u32, &'static str, &'static str))
    ensures
        (r.0, r.1@, r.2@) == status_face(status_view(*status)),
{
    match status {
        AppStatus::Searching => (0x3B82F6, "SEARCHING", "Looking for Focus Totem..."),
        AppStatus::Connected(_) => (0x22C55E, "CONNECTED", "Totem found. Ready to focus."),
        AppStatus::FocusActive(_) => (0x2e7d32, "FOCUS ACTIVE", "Deep work in session."),
        AppStatus::ConnectionLost => (0xEF4444, "DISCONNECTED", "Lost connection to Totem."),
    }
}

} // verus!
