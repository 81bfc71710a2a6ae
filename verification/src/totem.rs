//! The totem's status protocol: the payloads it answers with, how a reply is
//! turned into a focus state, and how a failed poll is described.
use vstd::prelude::*;
use crate::text::{decimal, trim, trim_str, str_eq, owned, push_decimal, lemma_trim_of_solid, lemma_trim_idempotent};

verus! {

broadcast use vstd::string::group_string_axioms;

/// What the totem reports.
#[derive(Clone, Copy, Debug, PartialEq, Eq, Structural)]
pub enum TotemState {
    FocusOn,
    FocusOff,
    Error,
}

/// Why a poll of the totem gave no state.
#[derive(Debug)]
pub enum TotemPollError {
    /// The totem answered with a status code outside 200–299.
    HttpStatus(u16),
    /// The body, once trimmed, was neither `FOCUS_ON` nor `FOCUS_OFF`.
    InvalidPayload(String),
    /// The request itself failed; the transport's own message.
    Request(String),
}

/// The payload that announces `FocusOn`.
pub open spec fn focus_on_payload() -> Seq<char> {
    "FOCUS_ON"@
}

/// The payload that announces `FocusOff`.
pub open spec fn focus_off_payload() -> Seq<char> {
    "FOCUS_OFF"@
}

/// What a status body means, once trimmed: `Some(state)` for the two known
/// payloads, `None` for anything else.
pub open spec fn payload_state(body: Seq<char>) -> Option<TotemState> {
    if trim(body) == focus_on_payload() {
        Some(TotemState::FocusOn)
    } else if trim(body) == focus_off_payload() {
        Some(TotemState::FocusOff)
    } else {
        None
    }
}

/// Whether an HTTP status code is a success (200–299).
pub open spec fn is_success_code(code: u16) -> bool {
    200 <= code && code < 300
}

/// Parses the body of a `/status` reply.
pub fn parse_totem_state(body: &str) -> (r: Result<TotemState, TotemPollError>)
    ensures
        payload_state(body@) matches Some(st) ==> r == Ok::<TotemState, TotemPollError>(st),
        payload_state(body@) is None ==> (r matches Err(TotemPollError::InvalidPayload(p)) && p@
            == trim(body@)),
{
    let trimmed = trim_str(body);
    if str_eq(trimmed.as_str(), "FOCUS_ON") {
        Ok(TotemState::FocusOn)
    } else if str_eq(trimmed.as_str(), "FOCUS_OFF") {
        Ok(TotemState::FocusOff)
    } else {
        Err(TotemPollError::InvalidPayload(trimmed))
    }
}

/// `StatusCode::is_success` of the `http` crate (re-exported by `reqwest`),
/// claimed to hold exactly for the codes 200–299, as its documentation says.
#[verifier::external_body]
fn status_is_success(code: u16) -> (r: bool)
    ensures
        r == is_success_code(code),
{
    match reqwest::StatusCode::from_u16(code) {
        Ok(status) => status.is_success(),
        Err(_) => false,
    }
}

/// The canonical reason phrase that the `http` crate knows for a status code.
pub uninterp spec fn canonical_reason(code: u16) -> Option<Seq<char>>;

/// `StatusCode::canonical_reason` of the `http` crate; claimed only to equal
/// the named phrase for this code (`None` for codes it cannot represent).
#[verifier::external_body]
fn status_reason(code: u16) -> (r: Option<String>)
    ensures
        r is Some <==> canonical_reason(code) is Some,
        r matches Some(phrase) ==> canonical_reason(code) == Some(phrase@),
{
    match reqwest::StatusCode::from_u16(code) {
        Ok(status) => status.canonical_reason().map(String::from),
        Err(_) => None,
    }
}

/// What `{:?}` prints for a string: the text in double quotes, escaped.
pub uninterp spec fn debug_quoted(s: Seq<char>) -> Seq<char>;

/// `format!("{:?}", s)` of std; claimed only to equal the named rendering.
#[verifier::external_body]
fn debug_str(s: &str) -> (r: String)
    ensures
        r@ == debug_quoted(s@),
{
    format!("{:?}", s)
}

/// What a reply with this status code and body means: a success code hands
/// the body to `parse_totem_state`, any other code is an `HttpStatus` error.
pub fn state_from_response(status: u16, body: &str) -> (r: Result<TotemState, TotemPollError>)
    ensures
        !is_success_code(status) ==> (r matches Err(TotemPollError::HttpStatus(c)) && c == status),
        is_success_code(status) ==> (payload_state(body@) matches Some(st) ==> r == Ok::<
            TotemState,
            TotemPollError,
        >(st)),
        is_success_code(status) && payload_state(body@) is None ==> (r matches Err(
            TotemPollError::InvalidPayload(p),
        ) && p@ == trim(body@)),
{
    if status_is_success(status) {
        parse_totem_state(body)
    } else {
        Err(TotemPollError::HttpStatus(status))
    }
}

/// The text shown for a status code: the number and its reason phrase.
pub open spec fn status_line(code: u16) -> Seq<char> {
    decimal(code as nat) + " "@ + match canonical_reason(code) {
        Some(phrase) => phrase,
        None => "<unknown status code>"@,
    }
}

/// The message that a failed poll is reported with.
pub open spec fn poll_error_message(e: TotemPollError) -> Seq<char> {
    match e {
        TotemPollError::HttpStatus(code) => "HTTP status "@ + status_line(code),
        TotemPollError::InvalidPayload(p) => "unexpected status payload: "@ + debug_quoted(p@),
        TotemPollError::Request(m) => m@,
    }
}

impl TotemPollError {
    /// The human-readable message of this error (what `Display` printed).
    pub fn message(&self) -> (r: String)
        ensures
            r@ == poll_error_message(*self),
    {
        match self {
            TotemPollError::HttpStatus(code) => {
                let c: u16 = *code;
                let mut s = owned("HTTP status ");
                push_decimal(&mut s, c as u128);
                s.append(" ");
                let ghost head = s@;
                assert(head =~= "HTTP status "@ + decimal(c as nat) + " "@);
                match status_reason(c) {
                    Some(phrase) => {
                        s.append(phrase.as_str());
                        assert(s@ =~= "HTTP status "@ + status_line(c));
                    },
                    None => {
                        s.append("<unknown status code>");
                        assert(s@ =~= "HTTP status "@ + status_line(c));
                    },
                }
                s
            },
            TotemPollError::InvalidPayload(p) => {
                let mut s = owned("unexpected status payload: ");
                let quoted = debug_str(p.as_str());
                s.append(quoted.as_str());
                s
            },
            TotemPollError::Request(m) => m.clone(),
        }
    }
}

/// The body that the totem sends for its focus switch.
pub open spec fn payload_for(focus_on: bool) -> Seq<char> {
    if focus_on {
        focus_on_payload()
    } else {
        focus_off_payload()
    }
}

/// Every payload the totem sends is read back as the state it announces.
pub proof fn law_payload_round_trip(focus_on: bool)
    ensures
        payload_state(payload_for(focus_on)) == Some(
            if focus_on {
                TotemState::FocusOn
            } else {
                TotemState::FocusOff
            },
        ),
{
    reveal_strlit("FOCUS_ON");
    reveal_strlit("FOCUS_OFF");
    lemma_trim_of_solid(focus_on_payload());
    lemma_trim_of_solid(focus_off_payload());
    assert(focus_on_payload() != focus_off_payload()) by {
        assert(focus_on_payload().len() != focus_off_payload().len());
    }
}

/// Whitespace around a body never changes what it means.
pub proof fn law_parse_ignores_surrounding_space(body: Seq<char>)
    ensures
        payload_state(trim(body)) == payload_state(body),
{
    lemma_trim_idempotent(body);
}

} // verus!
