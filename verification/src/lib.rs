//! Device-setup library for a home-automation hub.
//!
//! The library covers the credential-acquisition flow of a companion
//! application: it keeps the persisted configuration record with its
//! fill-if-absent semantics, extracts the authorization code from the
//! single local callback request, builds and reads the messages of the
//! token-exchange endpoint, and drives the duplex negotiation that
//! upgrades a short-lived access token into a long-lived one.  All
//! network and file I/O stays with the caller; every function here is
//! a pure computation with a verified contract.

pub mod callback;
pub mod config;
pub mod config_yaml;
pub mod encoding;
pub mod errors;
pub mod ha_api;
pub mod ha_types;
pub mod json;
pub mod text;
pub mod ws;
