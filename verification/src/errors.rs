//! The error taxonomy of the setup flow.
//!
//! Every failure of the flow is surfaced to the caller and aborts the
//! remaining setup sequence; nothing is retried.  Each variant carries
//! enough context (which phase failed, and any remote-supplied text)
//! for an operator to diagnose the failure from the single error value.

use vstd::prelude::*;
use vstd::string::*;

verus! {

/// One error for the whole setup flow.
///
/// The callback, token-exchange and negotiation phases each use their
/// own variants, so a caller can always tell which phase gave up.
#[derive(Debug, Clone, PartialEq, Eq)]
pub enum SetupError {
    /// The configuration file could not be opened, read, parsed or written.
    ConfigIo(String),
    /// The local callback listener could not bind its port.
    Bind(String),
    /// The single callback request carried no `code` query parameter.
    MissingCode,
    /// The transport failed while waiting for the callback request.
    Transport(String),
    /// The token endpoint answered with a structured error body.
    Provider { error: String, description: String },
    /// An HTTP request could not be carried out at all.
    Network(String),
    /// A response body could not be decoded.
    Decode(String),
    /// A negotiation message was malformed, unrecognized, or out of order.
    Protocol(String),
    /// The hub rejected the authentication payload during negotiation.
    AuthRejected(String),
    /// A required piece of configuration is missing at a later step.
    Config(String),
    /// A refresh was requested for a token kind that cannot be refreshed.
    Refresh,
}

impl SetupError {
    /// The operator-facing description of this error.
    pub open spec fn spec_message(&self) -> Seq<char> {
        match self {
            SetupError::ConfigIo(s) => "config file error: "@ + s@,
            SetupError::Bind(s) => "could not start server "@ + s@,
            SetupError::MissingCode => "callback request carried no authorization code"@,
            SetupError::Transport(s) => "error while waiting for the callback: "@ + s@,
            SetupError::Provider { error, description } => "Error getting access token from HA Error: "@
                + error@ + " Details: "@ + description@,
            SetupError::Network(s) => "network error: "@ + s@,
            SetupError::Decode(s) => "could not decode response: "@ + s@,
            SetupError::Protocol(s) => "protocol error: "@ + s@,
            SetupError::AuthRejected(s) => "Error authorizing websocket "@ + s@,
            SetupError::Config(s) => s@,
            SetupError::Refresh => "Tried to refresh a long lived access token"@,
        }
    }

    /// Renders the operator-facing description, exactly as
    /// [`Self::spec_message`] states it.
    pub fn message(&self) -> (r: String)
        ensures
            r@ == self.spec_message(),
    {
        match self {
            SetupError::ConfigIo(s) => {
                let mut r = String::from_str("config file error: ");
                r.append(s.as_str());
                r
            },
            SetupError::Bind(s) => {
                let mut r = String::from_str("could not start server ");
                r.append(s.as_str());
                r
            },
            SetupError::MissingCode => String::from_str(
                "callback request carried no authorization code",
            ),
            SetupError::Transport(s) => {
                let mut r = String::from_str("error while waiting for the callback: ");
                r.append(s.as_str());
                r
            },
            SetupError::Provider { error, description } => {
                let mut r = String::from_str("Error getting access token from HA Error: ");
                r.append(error.as_str());
                r.append(" Details: ");
                r.append(description.as_str());
                r
            },
            SetupError::Network(s) => {
                let mut r = String::from_str("network error: ");
                r.append(s.as_str());
                r
            },
            SetupError::Decode(s) => {
                let mut r = String::from_str("could not decode response: ");
                r.append(s.as_str());
                r
            },
            SetupError::Protocol(s) => {
                let mut r = String::from_str("protocol error: ");
                r.append(s.as_str());
                r
            },
            SetupError::AuthRejected(s) => {
                let mut r = String::from_str("Error authorizing websocket ");
                r.append(s.as_str());
                r
            },
            SetupError::Config(s) => s.clone(),
            SetupError::Refresh => String::from_str("Tried to refresh a long lived access token"),
        }
    }
}

} // verus!
