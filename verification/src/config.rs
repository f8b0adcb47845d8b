//! The persisted configuration record and its fill-if-absent updates.
//!
//! The record holds the hub address and the three identifiers the setup
//! flow acquires.  Once a field is present it is never overwritten: each
//! update operation fills its field only when the field is absent and
//! reports whether anything changed, so the caller knows whether the
//! record must be written back to durable storage.

use vstd::prelude::*;

use crate::ha_types::RegisterDeviceResponse;

verus! {

/// The hub section of the configuration record.
#[derive(Debug, Clone, PartialEq, Eq)]
pub struct HaConfig {
    /// The hub address; operator-supplied and never changed here.
    pub host: String,
    /// The durable bearer credential, once acquired.
    pub long_lived_token: Option<String>,
    /// The random identifier of this device, once generated.
    pub device_id: Option<String>,
    /// The hub-assigned webhook identifier, once registered.
    pub webhook_id: Option<String>,
}

/// The whole configuration record as persisted.
#[derive(Debug, Clone, PartialEq, Eq)]
pub struct YamlConfig {
    pub ha: HaConfig,
}

/// The record at the specification level: each field as characters.
pub struct ConfigView {
    pub host: Seq<char>,
    pub long_lived_token: Option<Seq<char>>,
    pub device_id: Option<Seq<char>>,
    pub webhook_id: Option<Seq<char>>,
}

/// The characters of an optional string.
pub open spec fn opt_view(o: Option<String>) -> Option<Seq<char>> {
    match o {
        Some(s) => Some(s@),
        None => None,
    }
}

impl View for YamlConfig {
    type V = ConfigView;

    open spec fn view(&self) -> ConfigView {
        ConfigView {
            host: self.ha.host@,
            long_lived_token: opt_view(self.ha.long_lived_token),
            device_id: opt_view(self.ha.device_id),
            webhook_id: opt_view(self.ha.webhook_id),
        }
    }
}

/// Relies on `uuid::Uuid::new_v4` and its `Display` impl: a fresh random
/// identifier in the hyphenated lowercase-hexadecimal form, 36 characters
/// with dashes at positions 8, 13, 18 and 23.
#[verifier::external_body]
fn fresh_device_id() -> (r: String)
    ensures
        r@.len() == 36,
        forall|i: int|
            0 <= i < 36 ==> if i == 8 || i == 13 || i == 18 || i == 23 {
                r@[i] == '-'
            } else {
                (48 <= r@[i] as u32 && r@[i] as u32 <= 57) || (97 <= r@[i] as u32 && r@[i] as u32
                    <= 102)
            },
{
    uuid::Uuid::new_v4().to_string()
}

/// The record after the long-lived-token fill step.
pub open spec fn spec_update_long_lived_token(c: YamlConfig, t: String) -> YamlConfig {
    if c.ha.long_lived_token is Some {
        c
    } else {
        YamlConfig {
            ha: HaConfig {
                host: c.ha.host,
                long_lived_token: Some(t),
                device_id: c.ha.device_id,
                webhook_id: c.ha.webhook_id,
            },
        }
    }
}

/// The record after the webhook-id fill step.
pub open spec fn spec_update_webhook_id(c: YamlConfig, w: String) -> YamlConfig {
    if c.ha.webhook_id is Some {
        c
    } else {
        YamlConfig {
            ha: HaConfig {
                host: c.ha.host,
                long_lived_token: c.ha.long_lived_token,
                device_id: c.ha.device_id,
                webhook_id: Some(w),
            },
        }
    }
}

/// Whether the record still lacks a long-lived token, so that the
/// listener-and-negotiation flow has to run at all.
pub open spec fn spec_token_flow_needed(c: YamlConfig) -> bool {
    c.ha.long_lived_token is None
}

impl YamlConfig {
    /// Fills the device id with a fresh random identifier when it is
    /// absent.  A record that already has one is returned unchanged and
    /// needs no write; the result says whether the caller must persist
    /// the record.
    pub fn update_device_id_if_needed(&mut self) -> (wrote: bool)
        ensures
            wrote == (old(self).ha.device_id is None),
            old(self).ha.device_id is Some ==> *final(self) == *old(self),
            old(self).ha.device_id is None ==> {
                &&& final(self).ha.device_id matches Some(id) && id@.len() == 36
                &&& final(self).ha.host == old(self).ha.host
                &&& final(self).ha.long_lived_token == old(self).ha.long_lived_token
                &&& final(self).ha.webhook_id == old(self).ha.webhook_id
            },
    {
        if self.ha.device_id.is_none() {
            self.ha.device_id = Some(fresh_device_id());
            true
        } else {
            false
        }
    }

    /// Whether the listener-and-negotiation flow has to run: it is
    /// skipped entirely when a long-lived token is already present.
    pub fn long_lived_token_flow_needed(&self) -> (r: bool)
        ensures
            r == spec_token_flow_needed(*self),
    {
        self.ha.long_lived_token.is_none()
    }

    /// Fills the long-lived token when it is absent.  A record that
    /// already has one is returned unchanged and needs no write.
    pub fn update_long_lived_access_token_if_needed(&mut self, token: String) -> (wrote: bool)
        ensures
            wrote == (old(self).ha.long_lived_token is None),
            *final(self) == spec_update_long_lived_token(*old(self), token),
            old(self).ha.long_lived_token is Some ==> *final(self) == *old(self),
    {
        if self.ha.long_lived_token.is_none() {
            self.ha.long_lived_token = Some(token);
            true
        } else {
            false
        }
    }

    /// Fills the webhook id from the device-registration answer when it
    /// is absent.  A record that already has one is returned unchanged
    /// and needs no write.
    pub fn update_webhook_id_if_needed(&mut self, register_device_response: &RegisterDeviceResponse)
        -> (wrote: bool)
        ensures
            wrote == (old(self).ha.webhook_id is None),
            *final(self) == spec_update_webhook_id(
                *old(self),
                register_device_response.webhook_id,
            ),
            old(self).ha.webhook_id is Some ==> *final(self) == *old(self),
    {
        if self.ha.webhook_id.is_none() {
            self.ha.webhook_id = Some(register_device_response.webhook_id.clone());
            true
        } else {
            false
        }
    }
}

/// Fill-once: filling the long-lived token leaves a record that never
/// asks for the flow again, and a record that already holds a token is
/// not changed by the fill step.  A second invocation of the flow on a
/// filled record therefore opens no listener and no connection.
pub proof fn lemma_long_lived_token_fill_once(c: YamlConfig, t: String)
    ensures
        !spec_token_flow_needed(spec_update_long_lived_token(c, t)),
        c.ha.long_lived_token is Some ==> spec_update_long_lived_token(c, t) == c,
{
}

} // verus!
