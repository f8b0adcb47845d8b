//! The duplex negotiation that upgrades a short-lived access token into
//! a long-lived one.
//!
//! The hub speaks a small message protocol over a persistent duplex
//! connection: it announces `auth_required`, the client answers with an
//! auth payload, the hub answers `auth_ok` or `auth_invalid`, the client
//! asks for a long-lived token under a fixed command id, and the hub
//! answers a `result` carrying the token.  The state machine here makes
//! every decision of that exchange; the caller only moves text frames in
//! and out of the connection.

use vstd::prelude::*;
use vstd::string::*;

use crate::errors::SetupError;
use crate::json::{
    parse_json_object, str_field, uint_field, bool_field, json_escape, parse_json_text,
    get_str_field, get_uint_field, get_bool_field, append_json_escaped, JsonObj,
};
use crate::text::{dec_digits, format_u64};

verus! {

/// The lifespan asked of the hub for the long-lived token, in days.
/// It mirrors the hub's own default of roughly one year.
pub const LONG_LIVED_TOKEN_VALID_FOR: u32 = 365;

/// The fixed command id this client uses for its single outstanding
/// request; the hub must echo it on the result.
pub const LONG_LIVED_TOKEN_WS_COMMAND_ID: u32 = 11;

/// The auth payload sent after `auth_required`.
#[derive(Debug, Clone, PartialEq, Eq)]
pub struct WsAuthRequest {
    /// Sent on the wire under the key `type`; always `auth`.
    pub auth_type: String,
    pub access_token: String,
}

/// The request for a long-lived token, sent after `auth_ok`.
#[derive(Debug, Clone, PartialEq, Eq)]
pub struct WsLongLivedAccessTokenRequest {
    pub id: u32,
    /// Sent on the wire under the key `type`.
    pub command_type: String,
    pub client_name: String,
    pub lifespan: u32,
}

/// The hub's answer to the long-lived-token request.
#[derive(Debug, Clone, PartialEq, Eq)]
pub struct WsLongLivedAccessTokenResponse {
    pub id: u32,
    /// Read from the wire key `type`.
    pub command_type: String,
    pub success: bool,
    pub result: Option<String>,
}

impl WsAuthRequest {
    /// The payload answering `auth_required` with the given token.
    pub fn new(access_token: String) -> (r: Self)
        ensures
            r.auth_type@ == "auth"@,
            r.access_token == access_token,
    {
        WsAuthRequest { auth_type: String::from_str("auth"), access_token }
    }

    /// The wire text of this payload.
    pub open spec fn spec_json(&self) -> Seq<char> {
        "{\"type\":\""@ + json_escape(self.auth_type@) + "\",\"access_token\":\""@ + json_escape(
            self.access_token@,
        ) + "\"}"@
    }

    /// Renders the wire text, exactly as [`Self::spec_json`] states it.
    pub fn to_json(&self) -> (r: String)
        ensures
            r@ == self.spec_json(),
    {
        let mut r = String::from_str("{\"type\":\"");
        append_json_escaped(&mut r, self.auth_type.as_str());
        r.append("\",\"access_token\":\"");
        append_json_escaped(&mut r, self.access_token.as_str());
        r.append("\"}");
        r
    }
}

impl WsLongLivedAccessTokenRequest {
    /// The single request this client ever sends: the fixed command id,
    /// the fixed client name, and the fixed lifespan.
    pub fn new() -> (r: Self)
        ensures
            r.id == LONG_LIVED_TOKEN_WS_COMMAND_ID,
            r.command_type@ == "auth/long_lived_access_token"@,
            r.client_name@ == "Halcyon"@,
            r.lifespan == LONG_LIVED_TOKEN_VALID_FOR,
    {
        WsLongLivedAccessTokenRequest {
            id: LONG_LIVED_TOKEN_WS_COMMAND_ID,
            command_type: String::from_str("auth/long_lived_access_token"),
            client_name: String::from_str("Halcyon"),
            lifespan: LONG_LIVED_TOKEN_VALID_FOR,
        }
    }

    /// The wire text of this request.
    pub open spec fn spec_json(&self) -> Seq<char> {
        "{\"id\":"@ + dec_digits(self.id as u64) + ",\"type\":\""@ + json_escape(self.command_type@)
            + "\",\"client_name\":\""@ + json_escape(self.client_name@) + "\",\"lifespan\":"@
            + dec_digits(self.lifespan as u64) + "}"@
    }

    /// Renders the wire text, exactly as [`Self::spec_json`] states it.
    pub fn to_json(&self) -> (r: String)
        ensures
            r@ == self.spec_json(),
    {
        let mut r = String::from_str("{\"id\":");
        let id = format_u64(self.id as u64);
        r.append(id.as_str());
        r.append(",\"type\":\"");
        append_json_escaped(&mut r, self.command_type.as_str());
        r.append("\",\"client_name\":\"");
        append_json_escaped(&mut r, self.client_name.as_str());
        r.append("\",\"lifespan\":");
        let lifespan = format_u64(self.lifespan as u64);
        r.append(lifespan.as_str());
        r.append("}");
        r
    }
}

/// Reads a `result` frame into [`WsLongLivedAccessTokenResponse`]: the
/// text must be a flat object carrying an `id` that fits `u32`, a string
/// `type` and a boolean `success`; a string `result` member becomes the
/// token, and a missing or null `result` stays absent.
pub fn parse_ws_response(s: &str) -> (r: Option<WsLongLivedAccessTokenResponse>)
    ensures
        (match parse_json_object(s@) {
            Some(ps) => {
                if uint_field(ps, "id"@) matches Some(id) && id <= u32::MAX && str_field(
                    ps,
                    "type"@,
                ) is Some && bool_field(ps, "success"@) is Some {
                    &&& r matches Some(resp)
                    &&& Some(resp.id as u64) == uint_field(ps, "id"@)
                    &&& Some(resp.command_type@) == str_field(ps, "type"@)
                    &&& Some(resp.success) == bool_field(ps, "success"@)
                    &&& (match str_field(ps, "result"@) {
                        Some(t) => resp.result matches Some(x) && x@ == t,
                        None => resp.result is None,
                    })
                } else {
                    r is None
                }
            },
            None => r is None,
        }),
{
    match parse_json_text(s) {
        None => None,
        Some(o) => {
            let id = match get_uint_field(&o, "id") {
                Some(n) => n,
                None => {
                    return None;
                },
            };
            if id > u32::MAX as u64 {
                return None;
            }
            let command_type = match get_str_field(&o, "type") {
                Some(t) => t,
                None => {
                    return None;
                },
            };
            let success = match get_bool_field(&o, "success") {
                Some(b) => b,
                None => {
                    return None;
                },
            };
            let result = get_str_field(&o, "result");
            Some(
                WsLongLivedAccessTokenResponse {
                    id: id as u32,
                    command_type,
                    success,
                    result,
                },
            )
        },
    }
}

/// The states of the negotiation, at the specification level.  The
/// terminal states carry what the run produced: the token on success,
/// the hub's message on an authentication rejection, and the protocol
/// diagnosis otherwise.
pub enum NegStateView {
    AwaitingAuthRequired,
    AwaitingAuthResult,
    AwaitingResult,
    Succeeded(Seq<char>),
    FailedAuth(Seq<char>),
    FailedProtocol(Seq<char>),
    FailedOther(Seq<char>),
}

/// The states of the negotiation.
#[derive(Debug, Clone, PartialEq, Eq)]
pub enum NegotiationState {
    /// Connected; the hub has not spoken yet.
    AwaitingAuthRequired,
    /// The auth payload has been sent.
    AwaitingAuthResult,
    /// The long-lived-token request has been sent.
    AwaitingResult,
    /// Terminal: the long-lived token.
    Succeeded(String),
    /// Terminal: the error to surface.
    Failed(SetupError),
}

impl View for NegotiationState {
    type V = NegStateView;

    open spec fn view(&self) -> NegStateView {
        match self {
            NegotiationState::AwaitingAuthRequired => NegStateView::AwaitingAuthRequired,
            NegotiationState::AwaitingAuthResult => NegStateView::AwaitingAuthResult,
            NegotiationState::AwaitingResult => NegStateView::AwaitingResult,
            NegotiationState::Succeeded(t) => NegStateView::Succeeded(t@),
            NegotiationState::Failed(e) => match e {
                SetupError::AuthRejected(m) => NegStateView::FailedAuth(m@),
                SetupError::Protocol(m) => NegStateView::FailedProtocol(m@),
                _ => NegStateView::FailedOther(e.spec_message()),
            },
        }
    }
}

/// The auth payload text for the given token.
pub open spec fn spec_auth_json(token: Seq<char>) -> Seq<char> {
    "{\"type\":\""@ + json_escape("auth"@) + "\",\"access_token\":\""@ + json_escape(token) + "\"}"@
}

/// The one long-lived-token request text.
pub open spec fn spec_issue_json() -> Seq<char> {
    "{\"id\":"@ + dec_digits(LONG_LIVED_TOKEN_WS_COMMAND_ID as u64) + ",\"type\":\""@
        + json_escape("auth/long_lived_access_token"@) + "\",\"client_name\":\""@ + json_escape(
        "Halcyon"@,
    ) + "\",\"lifespan\":"@ + dec_digits(LONG_LIVED_TOKEN_VALID_FOR as u64) + "}"@
}

/// One transition of the negotiation: the state after receiving `msg`,
/// and the frame to send back, if any.  A terminal state absorbs every
/// further message and sends nothing.
pub open spec fn spec_step(st: NegStateView, token: Seq<char>, msg: Seq<char>) -> (
    NegStateView,
    Option<Seq<char>>,
) {
    match st {
        NegStateView::AwaitingAuthRequired => {
            match spec_message_type(msg) {
                Some(t) => if t == "auth_required"@ {
                    (NegStateView::AwaitingAuthResult, Some(spec_auth_json(token)))
                } else {
                    (NegStateView::FailedProtocol("unexpected negotiation message"@), None)
                },
                None => (NegStateView::FailedProtocol("malformed negotiation message"@), None),
            }
        },
        NegStateView::AwaitingAuthResult => {
            match spec_message_type(msg) {
                Some(t) => if t == "auth_ok"@ {
                    (NegStateView::AwaitingResult, Some(spec_issue_json()))
                } else if t == "auth_invalid"@ {
                    (NegStateView::FailedAuth(spec_auth_invalid_message(msg)), None)
                } else {
                    (NegStateView::FailedProtocol("unexpected negotiation message"@), None)
                },
                None => (NegStateView::FailedProtocol("malformed negotiation message"@), None),
            }
        },
        NegStateView::AwaitingResult => {
            match spec_message_type(msg) {
                Some(t) => if t == "result"@ {
                    (spec_result_state(msg), None)
                } else {
                    (NegStateView::FailedProtocol("unexpected negotiation message"@), None)
                },
                None => (NegStateView::FailedProtocol("malformed negotiation message"@), None),
            }
        },
        _ => (st, None),
    }
}

/// The `type` member of a frame, when the frame parses at all.
pub open spec fn spec_message_type(msg: Seq<char>) -> Option<Seq<char>> {
    match parse_json_object(msg) {
        Some(ps) => str_field(ps, "type"@),
        None => None,
    }
}

/// The hub's explanation on `auth_invalid`, or empty when it gave none.
pub open spec fn spec_auth_invalid_message(msg: Seq<char>) -> Seq<char> {
    match parse_json_object(msg) {
        Some(ps) => match str_field(ps, "message"@) {
            Some(m) => m,
            None => Seq::empty(),
        },
        None => Seq::empty(),
    }
}

/// The terminal state reached on a `result` frame: the token when the
/// result echoes the fixed command id, reports success and carries one;
/// otherwise the matching protocol diagnosis.
pub open spec fn spec_result_state(msg: Seq<char>) -> NegStateView {
    match parse_json_object(msg) {
        Some(ps) => {
            if !(uint_field(ps, "id"@) is Some && bool_field(ps, "success"@) is Some) {
                NegStateView::FailedProtocol("malformed result message"@)
            } else if uint_field(ps, "id"@) != Some(LONG_LIVED_TOKEN_WS_COMMAND_ID as u64) {
                NegStateView::FailedProtocol("result for an unexpected command id"@)
            } else if bool_field(ps, "success"@) != Some(true) {
                NegStateView::FailedProtocol(
                    "could not retrieve long lived token from websocket (perhaps it already has been created?)"@,
                )
            } else {
                match str_field(ps, "result"@) {
                    Some(t) => NegStateView::Succeeded(t),
                    None => NegStateView::FailedProtocol("malformed result message"@),
                }
            }
        },
        None => NegStateView::FailedProtocol("malformed negotiation message"@),
    }
}

/// Whether a state is terminal.
pub open spec fn spec_terminal(st: NegStateView) -> bool {
    match st {
        NegStateView::Succeeded(_) => true,
        NegStateView::FailedAuth(_) => true,
        NegStateView::FailedProtocol(_) => true,
        NegStateView::FailedOther(_) => true,
        _ => false,
    }
}

/// The negotiation driver: the current state and the access token the
/// auth payload answers with.
#[derive(Debug, Clone, PartialEq, Eq)]
pub struct Negotiator {
    pub state: NegotiationState,
    pub access_token: String,
}

impl Negotiator {
    /// A fresh negotiation holding the short-lived access token.
    pub fn new(access_token: String) -> (r: Self)
        ensures
            r.state@ == NegStateView::AwaitingAuthRequired,
            r.access_token == access_token,
    {
        Negotiator { state: NegotiationState::AwaitingAuthRequired, access_token }
    }

    /// Whether the negotiation has reached a terminal state.
    pub fn is_terminal(&self) -> (r: bool)
        ensures
            r == spec_terminal(self.state@),
    {
        match &self.state {
            NegotiationState::Succeeded(_) => true,
            NegotiationState::Failed(_) => true,
            _ => false,
        }
    }

    /// Feeds one received frame to the state machine and returns the
    /// frame to send back, if any — exactly as [`spec_step`] states.
    pub fn step(&mut self, msg: &str) -> (out: Option<String>)
        ensures
            ({
                let (st2, o) = spec_step(old(self).state@, old(self).access_token@, msg@);
                &&& final(self).state@ == st2
                &&& final(self).access_token == old(self).access_token
                &&& (match o {
                    Some(t) => out matches Some(x) && x@ == t,
                    None => out is None,
                })
            }),
    {
        let kind = match parse_json_text(msg) {
            Some(o) => get_str_field(&o, "type"),
            None => None,
        };
        match &self.state {
            NegotiationState::AwaitingAuthRequired => {
                match kind {
                    Some(t) => {
                        if crate::text::chars_eq_str(
                            crate::text::str_to_chars(t.as_str()).as_slice(),
                            "auth_required",
                        ) {
                            let req = WsAuthRequest::new(self.access_token.clone());
                            let out = req.to_json();
                            self.state = NegotiationState::AwaitingAuthResult;
                            Some(out)
                        } else {
                            self.state = NegotiationState::Failed(
                                SetupError::Protocol(
                                    String::from_str("unexpected negotiation message"),
                                ),
                            );
                            None
                        }
                    },
                    None => {
                        self.state = NegotiationState::Failed(
                            SetupError::Protocol(String::from_str("malformed negotiation message")),
                        );
                        None
                    },
                }
            },
            NegotiationState::AwaitingAuthResult => {
                match kind {
                    Some(t) => {
                        let tv = crate::text::str_to_chars(t.as_str());
                        if crate::text::chars_eq_str(tv.as_slice(), "auth_ok") {
                            let req = WsLongLivedAccessTokenRequest::new();
                            let out = req.to_json();
                            self.state = NegotiationState::AwaitingResult;
                            Some(out)
                        } else if crate::text::chars_eq_str(tv.as_slice(), "auth_invalid") {
                            let m = match parse_json_text(msg) {
                                Some(o) => match get_str_field(&o, "message") {
                                    Some(m) => m,
                                    None => String::new(),
                                },
                                None => String::new(),
                            };
                            self.state = NegotiationState::Failed(SetupError::AuthRejected(m));
                            None
                        } else {
                            self.state = NegotiationState::Failed(
                                SetupError::Protocol(
                                    String::from_str("unexpected negotiation message"),
                                ),
                            );
                            None
                        }
                    },
                    None => {
                        self.state = NegotiationState::Failed(
                            SetupError::Protocol(String::from_str("malformed negotiation message")),
                        );
                        None
                    },
                }
            },
            NegotiationState::AwaitingResult => {
                match kind {
                    Some(t) => {
                        if crate::text::chars_eq_str(
                            crate::text::str_to_chars(t.as_str()).as_slice(),
                            "result",
                        ) {
                            self.state = Self::result_state(msg);
                            None
                        } else {
                            self.state = NegotiationState::Failed(
                                SetupError::Protocol(
                                    String::from_str("unexpected negotiation message"),
                                ),
                            );
                            None
                        }
                    },
                    None => {
                        self.state = NegotiationState::Failed(
                            SetupError::Protocol(String::from_str("malformed negotiation message")),
                        );
                        None
                    },
                }
            },
            _ => None,
        }
    }

    /// The terminal state a `result` frame leads to, exactly as
    /// [`spec_result_state`] states.
    fn result_state(msg: &str) -> (r: NegotiationState)
        ensures
            r@ == spec_result_state(msg@),
    {
        match parse_json_text(msg) {
            Some(o) => {
                let id = get_uint_field(&o, "id");
                let success = get_bool_field(&o, "success");
                if id.is_none() || success.is_none() {
                    NegotiationState::Failed(
                        SetupError::Protocol(String::from_str("malformed result message")),
                    )
                } else if id.unwrap() != LONG_LIVED_TOKEN_WS_COMMAND_ID as u64 {
                    NegotiationState::Failed(
                        SetupError::Protocol(
                            String::from_str("result for an unexpected command id"),
                        ),
                    )
                } else if success.unwrap() != true {
                    NegotiationState::Failed(
                        SetupError::Protocol(
                            String::from_str(
                                "could not retrieve long lived token from websocket (perhaps it already has been created?)",
                            ),
                        ),
                    )
                } else {
                    match get_str_field(&o, "result") {
                        Some(t) => NegotiationState::Succeeded(t),
                        None => NegotiationState::Failed(
                            SetupError::Protocol(String::from_str("malformed result message")),
                        ),
                    }
                }
            },
            None => NegotiationState::Failed(
                SetupError::Protocol(String::from_str("malformed negotiation message")),
            ),
        }
    }
}

/// The whole negotiation over a fixed sequence of received frames: the
/// final state, and every frame the client sent, in order.  A terminal
/// state absorbs the remaining frames without answering them.
pub open spec fn spec_run(st: NegStateView, token: Seq<char>, msgs: Seq<Seq<char>>) -> (
    NegStateView,
    Seq<Seq<char>>,
)
    decreases msgs.len(),
{
    if msgs.len() == 0 {
        (st, Seq::empty())
    } else {
        let first = spec_step(st, token, msgs[0]);
        let rest = spec_run(first.0, token, msgs.drop_first());
        (
            rest.0,
            (match first.1 {
                Some(t) => seq![t],
                None => Seq::<Seq<char>>::empty(),
            }) + rest.1,
        )
    }
}

/// What one run of the negotiation produced: the token or the error,
/// and every frame that was sent.
#[derive(Debug)]
pub struct NegotiationRun {
    pub outcome: Result<String, SetupError>,
    pub sent: Vec<String>,
}

/// Drives a fresh negotiation over the given received frames, exactly
/// as [`spec_run`] states: the outcome carries the token of a
/// successful run, the auth rejection or protocol diagnosis of a failed
/// one, and a transport error when the frames end before a terminal
/// state is reached.
pub fn run_negotiation(access_token: String, msgs: &Vec<String>) -> (r: NegotiationRun)
    ensures
        ({
            let stf = spec_run(
                NegStateView::AwaitingAuthRequired,
                access_token@,
                msgs.deep_view(),
            ).0;
            let outs = spec_run(
                NegStateView::AwaitingAuthRequired,
                access_token@,
                msgs.deep_view(),
            ).1;
            &&& r.sent.deep_view() == outs
            &&& (match stf {
                NegStateView::Succeeded(t) => r.outcome matches Ok(x) && x@ == t,
                NegStateView::FailedAuth(m) => r.outcome matches Err(
                    SetupError::AuthRejected(x),
                ) && x@ == m,
                NegStateView::FailedProtocol(m) => r.outcome matches Err(SetupError::Protocol(x))
                    && x@ == m,
                NegStateView::FailedOther(_) => r.outcome is Err,
                _ => r.outcome matches Err(SetupError::Transport(x)) && x@
                    == "connection closed during negotiation"@,
            })
        }),
{
    let ghost tok = access_token@;
    let ghost full = msgs.deep_view();
    let ghost stf = spec_run(NegStateView::AwaitingAuthRequired, tok, full).0;
    let ghost outs = spec_run(NegStateView::AwaitingAuthRequired, tok, full).1;
    let mut neg = Negotiator::new(access_token);
    let mut sent: Vec<String> = Vec::new();
    let mut i: usize = 0;
    proof {
        assert(full.skip(0) =~= full);
        assert(sent.deep_view() + outs =~= outs);
    }
    while i < msgs.len()
        invariant
            i <= msgs@.len(),
            full == msgs.deep_view(),
            full.len() == msgs@.len(),
            neg.access_token@ == tok,
            stf == spec_run(neg.state@, tok, full.skip(i as int)).0,
            outs == sent.deep_view() + spec_run(neg.state@, tok, full.skip(i as int)).1,
        decreases msgs@.len() - i,
    {
        let ghost st_before = neg.state@;
        let ghost remaining = full.skip(i as int);
        proof {
            assert(remaining[0] == full[i as int]);
            assert(full[i as int] == msgs@[i as int]@);
            assert(remaining.drop_first() =~= full.skip(i as int + 1));
        }
        let out = neg.step(msgs[i].as_str());
        match out {
            Some(x) => {
                proof {
                    assert(sent@.push(x).map(
                        |j: int, s: String| s@,
                    ) =~= sent.deep_view() + seq![x@]);
                }
                let ghost old_sent = sent.deep_view();
                sent.push(x);
                proof {
                    assert(sent.deep_view() =~= old_sent + seq![x@]);
                    assert(outs =~= sent.deep_view() + spec_run(
                        neg.state@,
                        tok,
                        full.skip(i as int + 1),
                    ).1);
                }
            },
            None => {
                proof {
                    assert(outs =~= sent.deep_view() + spec_run(
                        neg.state@,
                        tok,
                        full.skip(i as int + 1),
                    ).1);
                }
            },
        }
        i = i + 1;
    }
    proof {
        assert(full.skip(i as int) =~= Seq::<Seq<char>>::empty());
        assert(outs =~= sent.deep_view());
    }
    let outcome: Result<String, SetupError> = match neg.state {
        NegotiationState::Succeeded(t) => Ok(t),
        NegotiationState::Failed(e) => Err(e),
        _ => Err(SetupError::Transport(String::from_str("connection closed during negotiation"))),
    };
    NegotiationRun { outcome, sent }
}

} // verus!
