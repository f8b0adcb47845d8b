//! The hub client's state: which credential it holds and what each
//! REST exchange does to it.
//!
//! The client carries either the short-lived OAuth pair or the durable
//! long-lived token, as a sum type matched exhaustively.  Every
//! decision of the REST exchanges is here — which URL to call, what a
//! response body means, how the credential changes; carrying the HTTP
//! requests stays with the caller.  Instants are plain seconds since
//! the epoch, handed in by the caller.

use vstd::prelude::*;
use vstd::string::*;

use crate::encoding::{form_encode, append_form_encoded};
use crate::errors::SetupError;
use crate::ha_types::{GetAccessTokenResponse, DeviceRegistrationRequest, AppData,
    RegisterDeviceResponse, HaEntityState, AuthorizationCode, RefreshToken};
use crate::json::{parse_json_object, str_field, uint_field, parse_json_text, get_str_field,
    get_uint_field};

verus! {

/// The OAuth client identifier this client presents to the hub.
pub fn client_id() -> (r: &'static str)
    ensures
        r@ == "https://halcyon.casa"@,
{
    "https://halcyon.casa"
}

/// A short-lived access token with its refresh token.
#[derive(Debug, Clone, PartialEq, Eq)]
pub struct OAuthToken {
    pub token: String,
    /// Seconds since the epoch at which the token expires.
    pub token_expiration: u64,
    pub refresh_token: String,
}

/// A durable long-lived token.
#[derive(Debug, Clone, PartialEq, Eq)]
pub struct LongLivedToken {
    pub token: String,
}

/// The credential the client holds: exactly one of the two kinds.
#[derive(Debug, Clone, PartialEq, Eq)]
pub enum Token {
    Oauth(OAuthToken),
    LongLived(LongLivedToken),
}

/// The hub client's plain state.
#[derive(Debug, Clone, PartialEq, Eq)]
pub struct HomeAssistantAPI {
    pub instance_urls: Vec<String>,
    pub token: Token,
    pub webhook_id: Option<String>,
    pub cloudhook_url: Option<String>,
    pub remote_ui_url: Option<String>,
}

/// The bearer value a request is signed with: the refresh token of an
/// OAuth pair, or the long-lived token itself.
pub open spec fn spec_bearer(t: Token) -> Seq<char> {
    match t {
        Token::Oauth(o) => o.refresh_token@,
        Token::LongLived(l) => l.token@,
    }
}

/// Whether the credential wants a refresh at `now`: only an OAuth pair
/// does, and only once `now` is more than ten seconds past its
/// expiration.
pub open spec fn spec_need_refresh(t: Token, now_secs: u64) -> bool {
    match t {
        Token::Oauth(o) => now_secs >= o.token_expiration && now_secs - o.token_expiration > 10,
        Token::LongLived(_) => false,
    }
}

impl HomeAssistantAPI {
    /// A client holding a given OAuth pair.
    pub fn from_token(
        instance_urls: Vec<String>,
        oauth_token: String,
        refresh_token: String,
        token_expiration: u64,
    ) -> (r: Result<Self, SetupError>)
        ensures
            r matches Ok(api) && api == (HomeAssistantAPI {
                instance_urls,
                token: Token::Oauth(
                    OAuthToken { token: oauth_token, token_expiration, refresh_token },
                ),
                webhook_id: None,
                cloudhook_url: None,
                remote_ui_url: None,
            }),
    {
        Ok(
            HomeAssistantAPI {
                instance_urls,
                token: Token::Oauth(
                    OAuthToken { token: oauth_token, token_expiration, refresh_token },
                ),
                webhook_id: None,
                cloudhook_url: None,
                remote_ui_url: None,
            },
        )
    }

    /// A client holding a given long-lived token.
    pub fn from_long_lived_token(instance_urls: Vec<String>, long_lived_token: String) -> (r:
        Result<Self, SetupError>)
        ensures
            r matches Ok(api) && api == (HomeAssistantAPI {
                instance_urls,
                token: Token::LongLived(LongLivedToken { token: long_lived_token }),
                webhook_id: None,
                cloudhook_url: None,
                remote_ui_url: None,
            }),
    {
        Ok(
            HomeAssistantAPI {
                instance_urls,
                token: Token::LongLived(LongLivedToken { token: long_lived_token }),
                webhook_id: None,
                cloudhook_url: None,
                remote_ui_url: None,
            },
        )
    }

    /// A client built from the token-endpoint answer to an
    /// authorization code; the pair is taken to expire half an hour
    /// from `now_secs`.
    pub fn from_authorization_code(instance_urls: Vec<String>, body: &str, now_secs: u64) -> (r:
        Result<Self, SetupError>)
        requires
            now_secs + 1800 <= u64::MAX,
        ensures
            (match parse_json_object(body@) {
                Some(ps) => {
                    if str_field(ps, "access_token"@) is Some && uint_field(ps, "expires_in"@)
                        is Some && str_field(ps, "refresh_token"@) is Some && str_field(
                        ps,
                        "token_type"@,
                    ) is Some {
                        &&& r matches Ok(api)
                        &&& api.instance_urls == instance_urls
                        &&& api.token matches Token::Oauth(o)
                        &&& Some(o.token@) == str_field(ps, "access_token"@)
                        &&& Some(o.refresh_token@) == str_field(ps, "refresh_token"@)
                        &&& o.token_expiration == now_secs + 1800
                        &&& api.webhook_id is None
                        &&& api.cloudhook_url is None
                        &&& api.remote_ui_url is None
                    } else {
                        r matches Err(SetupError::Decode(_))
                    }
                },
                None => r matches Err(SetupError::Decode(_)),
            }),
    {
        match parse_authorization_code(body) {
            Ok(code) => Self::from_token(
                instance_urls,
                code.access_token,
                code.refresh_token,
                now_secs + 1800,
            ),
            Err(e) => Err(e),
        }
    }

    /// The bearer value requests are signed with, exactly as
    /// [`spec_bearer`] states it.
    pub fn get_token(&self) -> (r: String)
        ensures
            r@ == spec_bearer(self.token),
    {
        match &self.token {
            Token::Oauth(oauth) => oauth.refresh_token.clone(),
            Token::LongLived(long_lived) => long_lived.token.clone(),
        }
    }

    /// Whether the credential wants a refresh at `now_secs`, exactly as
    /// [`spec_need_refresh`] states it.
    pub fn need_refresh(&self, now_secs: u64) -> (r: bool)
        ensures
            r == spec_need_refresh(self.token, now_secs),
    {
        match &self.token {
            Token::Oauth(oauth) => {
                if now_secs >= oauth.token_expiration {
                    let sec_left = now_secs - oauth.token_expiration;
                    sec_left > 10
                } else {
                    false
                }
            },
            Token::LongLived(_) => false,
        }
    }

    /// The URL, with its query, that refreshes the OAuth pair; a
    /// long-lived token cannot be refreshed and yields the refresh
    /// error.
    pub fn refresh_request_url(&self) -> (r: Result<String, SetupError>)
        requires
            self.instance_urls@.len() > 0,
        ensures
            self.token is LongLived ==> (r matches Err(e) && e == SetupError::Refresh),
            self.token matches Token::Oauth(o) ==> (r matches Ok(u) && u@
                == self.instance_urls@[0]@ + "?grant_type=refresh_token&client_id="@ + form_encode(
                "https://halcyon.casa"@,
            ) + "&refresh_token="@ + form_encode(o.refresh_token@)),
    {
        match &self.token {
            Token::LongLived(_) => Err(SetupError::Refresh),
            Token::Oauth(oauth) => {
                let mut u = self.instance_urls[0].clone();
                u.append("?grant_type=refresh_token&client_id=");
                append_form_encoded(&mut u, client_id());
                u.append("&refresh_token=");
                append_form_encoded(&mut u, oauth.refresh_token.as_str());
                Ok(u)
            },
        }
    }

    /// Applies the refresh answer: the new access token, expiring
    /// `expires_in` seconds from `now_secs` (saturating), with the
    /// refresh token kept.
    pub fn apply_refresh(&mut self, body: &str, now_secs: u64) -> (r: Result<(), SetupError>)
        requires
            old(self).token is Oauth,
        ensures
            (match parse_json_object(body@) {
                Some(ps) => {
                    if str_field(ps, "access_token"@) is Some && uint_field(ps, "expires_in"@)
                        is Some && str_field(ps, "token_type"@) is Some {
                        &&& r is Ok
                        &&& final(self).token matches Token::Oauth(o)
                        &&& Some(o.token@) == str_field(ps, "access_token"@)
                        &&& o.refresh_token == old(self).token->Oauth_0.refresh_token
                        &&& Some(o.token_expiration as u64) == (match uint_field(
                            ps,
                            "expires_in"@,
                        ) {
                            Some(n) => if now_secs + n <= u64::MAX {
                                Some((now_secs + n) as u64)
                            } else {
                                Some(u64::MAX)
                            },
                            None => None,
                        })
                        &&& final(self).instance_urls == old(self).instance_urls
                        &&& final(self).webhook_id == old(self).webhook_id
                        &&& final(self).cloudhook_url == old(self).cloudhook_url
                        &&& final(self).remote_ui_url == old(self).remote_ui_url
                    } else {
                        r matches Err(SetupError::Decode(_)) && *final(self) == *old(self)
                    }
                },
                None => r matches Err(SetupError::Decode(_)) && *final(self) == *old(self),
            }),
    {
        match parse_refresh_token(body) {
            Ok(resp) => {
                let refresh_token = match &self.token {
                    Token::Oauth(oauth) => oauth.refresh_token.clone(),
                    Token::LongLived(_) => {
                        proof {
                            assert(false);
                        }
                        String::new()
                    },
                };
                let expiration = if now_secs <= u64::MAX - resp.expires_in {
                    now_secs + resp.expires_in
                } else {
                    u64::MAX
                };
                self.token = Token::Oauth(
                    OAuthToken {
                        token: resp.access_token,
                        token_expiration: expiration,
                        refresh_token,
                    },
                );
                Ok(())
            },
            Err(e) => Err(e),
        }
    }

    /// The device-registration endpoint of the first instance URL.
    pub fn register_device_url(&self) -> (r: String)
        requires
            self.instance_urls@.len() > 0,
        ensures
            r@ == self.instance_urls@[0]@ + "/api/mobile_app/registrations"@,
    {
        let mut u = self.instance_urls[0].clone();
        u.append("/api/mobile_app/registrations");
        u
    }

    /// The webhook endpoint of the first instance URL; without a
    /// registered webhook id there is nothing to address.
    pub fn webhook_url(&self) -> (r: Result<String, SetupError>)
        requires
            self.instance_urls@.len() > 0,
        ensures
            self.webhook_id is None ==> (r matches Err(SetupError::Config(m)) && m@
                == "Missing Webhook ID"@),
            self.webhook_id matches Some(w) ==> (r matches Ok(u) && u@ == self.instance_urls@[0]@
                + "/api/webhook/"@ + w@),
    {
        match &self.webhook_id {
            Some(webhook_id) => {
                let mut u = self.instance_urls[0].clone();
                u.append("/api/webhook/");
                u.append(webhook_id.as_str());
                Ok(u)
            },
            None => Err(SetupError::Config(String::from_str("Missing Webhook ID"))),
        }
    }

    /// Applies the device-registration answer: the webhook id is
    /// required; the cloud hook and remote UI URLs are kept when the
    /// hub sent them as strings.
    pub fn apply_device_registration(&mut self, body: &str) -> (r: Result<(), SetupError>)
        ensures
            (match parse_json_object(body@) {
                Some(ps) => {
                    if str_field(ps, "webhook_id"@) is Some {
                        &&& r is Ok
                        &&& (match str_field(ps, "webhook_id"@) {
                            Some(w) => final(self).webhook_id matches Some(x) && x@ == w,
                            None => false,
                        })
                        &&& (match str_field(ps, "cloudhook_url"@) {
                            Some(c) => final(self).cloudhook_url matches Some(x) && x@ == c,
                            None => final(self).cloudhook_url is None,
                        })
                        &&& (match str_field(ps, "remote_ui_url"@) {
                            Some(u) => final(self).remote_ui_url matches Some(x) && x@ == u,
                            None => final(self).remote_ui_url is None,
                        })
                        &&& final(self).instance_urls == old(self).instance_urls
                        &&& final(self).token == old(self).token
                    } else {
                        r matches Err(SetupError::Decode(_)) && *final(self) == *old(self)
                    }
                },
                None => r matches Err(SetupError::Decode(_)) && *final(self) == *old(self),
            }),
    {
        match parse_json_text(body) {
            None => Err(SetupError::Decode(String::from_str("malformed registration response"))),
            Some(o) => {
                match get_str_field(&o, "webhook_id") {
                    Some(w) => {
                        self.webhook_id = Some(w);
                        self.cloudhook_url = get_str_field(&o, "cloudhook_url");
                        self.remote_ui_url = get_str_field(&o, "remote_ui_url");
                        Ok(())
                    },
                    None => Err(
                        SetupError::Decode(String::from_str("malformed registration response")),
                    ),
                }
            },
        }
    }
}

/// Reads the token-endpoint answer to an authorization code.
pub fn parse_authorization_code(body: &str) -> (r: Result<AuthorizationCode, SetupError>)
    ensures
        (match parse_json_object(body@) {
            Some(ps) => {
                if str_field(ps, "access_token"@) is Some && uint_field(ps, "expires_in"@) is Some
                    && str_field(ps, "refresh_token"@) is Some && str_field(ps, "token_type"@)
                    is Some {
                    &&& r matches Ok(c)
                    &&& Some(c.access_token@) == str_field(ps, "access_token"@)
                    &&& Some(c.expires_in) == uint_field(ps, "expires_in"@)
                    &&& Some(c.refresh_token@) == str_field(ps, "refresh_token"@)
                    &&& Some(c.token_type@) == str_field(ps, "token_type"@)
                } else {
                    r matches Err(SetupError::Decode(_))
                }
            },
            None => r matches Err(SetupError::Decode(_)),
        }),
{
    match parse_json_text(body) {
        None => Err(SetupError::Decode(String::from_str("malformed token response"))),
        Some(o) => {
            let access_token = get_str_field(&o, "access_token");
            let expires_in = get_uint_field(&o, "expires_in");
            let refresh_token = get_str_field(&o, "refresh_token");
            let token_type = get_str_field(&o, "token_type");
            if access_token.is_some() && expires_in.is_some() && refresh_token.is_some()
                && token_type.is_some() {
                Ok(
                    AuthorizationCode {
                        access_token: access_token.unwrap(),
                        expires_in: expires_in.unwrap(),
                        refresh_token: refresh_token.unwrap(),
                        token_type: token_type.unwrap(),
                    },
                )
            } else {
                Err(SetupError::Decode(String::from_str("malformed token response")))
            }
        },
    }
}

/// Reads the token-endpoint answer to a refresh.
pub fn parse_refresh_token(body: &str) -> (r: Result<RefreshToken, SetupError>)
    ensures
        (match parse_json_object(body@) {
            Some(ps) => {
                if str_field(ps, "access_token"@) is Some && uint_field(ps, "expires_in"@) is Some
                    && str_field(ps, "token_type"@) is Some {
                    &&& r matches Ok(c)
                    &&& Some(c.access_token@) == str_field(ps, "access_token"@)
                    &&& Some(c.expires_in) == uint_field(ps, "expires_in"@)
                    &&& Some(c.token_type@) == str_field(ps, "token_type"@)
                } else {
                    r matches Err(SetupError::Decode(_))
                }
            },
            None => r matches Err(SetupError::Decode(_)),
        }),
{
    match parse_json_text(body) {
        None => Err(SetupError::Decode(String::from_str("malformed refresh response"))),
        Some(o) => {
            let access_token = get_str_field(&o, "access_token");
            let expires_in = get_uint_field(&o, "expires_in");
            let token_type = get_str_field(&o, "token_type");
            if access_token.is_some() && expires_in.is_some() && token_type.is_some() {
                Ok(
                    RefreshToken {
                        access_token: access_token.unwrap(),
                        expires_in: expires_in.unwrap(),
                        token_type: token_type.unwrap(),
                    },
                )
            } else {
                Err(SetupError::Decode(String::from_str("malformed refresh response")))
            }
        },
    }
}

/// The form body of the token exchange: the authorization-code grant
/// with the code and client id, form-encoded.
pub fn access_token_form_body(code: &str, client: &str) -> (r: String)
    ensures
        r@ == "grant_type=authorization_code&code="@ + form_encode(code@) + "&client_id="@
            + form_encode(client@),
{
    let mut r = String::from_str("grant_type=authorization_code&code=");
    append_form_encoded(&mut r, code);
    r.append("&client_id=");
    append_form_encoded(&mut r, client);
    r
}

/// Reads the token-exchange answer.  A 200 status must carry the token
/// record, whose `expires_in` must fit `u32`; any other status must
/// carry the `{error, error_description}` record, surfaced as the
/// provider's error.  Anything else is a decode failure.
pub fn parse_access_token_response(status: u16, body: &str) -> (r: Result<
    GetAccessTokenResponse,
    SetupError,
>)
    ensures
        (match parse_json_object(body@) {
            Some(ps) => {
                if status == 200 {
                    if str_field(ps, "access_token"@) is Some && (uint_field(ps, "expires_in"@)
                        matches Some(n) && n <= u32::MAX) && str_field(ps, "refresh_token"@)
                        is Some && str_field(ps, "token_type"@) is Some {
                        &&& r matches Ok(t)
                        &&& Some(t.access_token@) == str_field(ps, "access_token"@)
                        &&& Some(t.expires_in as u64) == uint_field(ps, "expires_in"@)
                        &&& Some(t.refresh_token@) == str_field(ps, "refresh_token"@)
                        &&& Some(t.token_type@) == str_field(ps, "token_type"@)
                    } else {
                        r matches Err(SetupError::Decode(_))
                    }
                } else {
                    if str_field(ps, "error"@) is Some && str_field(ps, "error_description"@)
                        is Some {
                        &&& r matches Err(SetupError::Provider { error, description })
                        &&& Some(error@) == str_field(ps, "error"@)
                        &&& Some(description@) == str_field(ps, "error_description"@)
                    } else {
                        r matches Err(SetupError::Decode(_))
                    }
                }
            },
            None => r matches Err(SetupError::Decode(_)),
        }),
{
    match parse_json_text(body) {
        None => Err(SetupError::Decode(String::from_str("malformed token response"))),
        Some(o) => {
            if status == 200 {
                let access_token = get_str_field(&o, "access_token");
                let expires_in = get_uint_field(&o, "expires_in");
                let refresh_token = get_str_field(&o, "refresh_token");
                let token_type = get_str_field(&o, "token_type");
                if access_token.is_some() && expires_in.is_some() && expires_in.unwrap()
                    <= u32::MAX as u64 && refresh_token.is_some() && token_type.is_some() {
                    Ok(
                        GetAccessTokenResponse {
                            access_token: access_token.unwrap(),
                            expires_in: expires_in.unwrap() as u32,
                            refresh_token: refresh_token.unwrap(),
                            token_type: token_type.unwrap(),
                        },
                    )
                } else {
                    Err(SetupError::Decode(String::from_str("malformed token response")))
                }
            } else {
                let error = get_str_field(&o, "error");
                let description = get_str_field(&o, "error_description");
                if error.is_some() && description.is_some() {
                    Err(
                        SetupError::Provider {
                            error: error.unwrap(),
                            description: description.unwrap(),
                        },
                    )
                } else {
                    Err(SetupError::Decode(String::from_str("malformed token response")))
                }
            }
        },
    }
}

/// Reads the device-registration answer into its record: the webhook id
/// is required, the three other members are kept when the hub sent them
/// as strings.
pub fn parse_register_device_response(body: &str) -> (r: Result<
    RegisterDeviceResponse,
    SetupError,
>)
    ensures
        (match parse_json_object(body@) {
            Some(ps) => {
                if str_field(ps, "webhook_id"@) is Some {
                    &&& r matches Ok(resp)
                    &&& Some(resp.webhook_id@) == str_field(ps, "webhook_id"@)
                    &&& (match str_field(ps, "cloud_hook_url"@) {
                        Some(c) => resp.cloud_hook_url matches Some(x) && x@ == c,
                        None => resp.cloud_hook_url is None,
                    })
                    &&& (match str_field(ps, "remote_ui_url"@) {
                        Some(u) => resp.remote_ui_url matches Some(x) && x@ == u,
                        None => resp.remote_ui_url is None,
                    })
                    &&& (match str_field(ps, "secret"@) {
                        Some(s) => resp.secret matches Some(x) && x@ == s,
                        None => resp.secret is None,
                    })
                } else {
                    r matches Err(SetupError::Decode(_))
                }
            },
            None => r matches Err(SetupError::Decode(_)),
        }),
{
    match parse_json_text(body) {
        None => Err(SetupError::Decode(String::from_str("malformed registration response"))),
        Some(o) => {
            match get_str_field(&o, "webhook_id") {
                Some(w) => Ok(
                    RegisterDeviceResponse {
                        cloud_hook_url: get_str_field(&o, "cloud_hook_url"),
                        remote_ui_url: get_str_field(&o, "remote_ui_url"),
                        secret: get_str_field(&o, "secret"),
                        webhook_id: w,
                    },
                ),
                None => Err(
                    SetupError::Decode(String::from_str("malformed registration response")),
                ),
            }
        },
    }
}

/// The `friendly_name` a state reports, or empty when it has none.
pub open spec fn spec_friendly_or_empty(st: HaEntityState) -> Seq<char> {
    match st.attributes.friendly_name {
        Some(f) => f@,
        None => Seq::empty(),
    }
}

/// Whether some reported state already carries this device's name — in
/// which case the device is registered and setup skips registration.
pub fn device_already_registered(states: &Vec<HaEntityState>, name: &str) -> (r: bool)
    ensures
        r == exists|i: int|
            0 <= i < states@.len() && spec_friendly_or_empty(states@[i]) == name@,
{
    let mut i: usize = 0;
    while i < states.len()
        invariant
            i <= states@.len(),
            forall|j: int| 0 <= j < i ==> spec_friendly_or_empty(states@[j]) != name@,
        decreases states@.len() - i,
    {
        let matched = match &states[i].attributes.friendly_name {
            Some(f) => crate::text::chars_eq_str(
                crate::text::str_to_chars(f.as_str()).as_slice(),
                name,
            ),
            None => name.unicode_len() == 0,
        };
        if matched {
            assert(spec_friendly_or_empty(states@[i as int]) == name@);
            return true;
        }
        i = i + 1;
    }
    false
}

/// The registration request for this device: the identifiers the
/// caller read from the machine, under the fixed application identity.
pub fn build_register_device_request(
    device_id: String,
    app_version: String,
    device_name: String,
    model: String,
    os_name: String,
    os_version: String,
) -> (r: DeviceRegistrationRequest)
    ensures
        r.device_id == device_id,
        r.app_id@ == "HalcyonAppId"@,
        r.app_name@ == "Halcyon"@,
        r.app_version == app_version,
        r.device_name == device_name,
        r.manufacturer@ == "PC"@,
        r.model == model,
        r.os_name == os_name,
        r.os_version == os_version,
        r.supports_encryption == false,
{
    DeviceRegistrationRequest {
        device_id,
        app_id: String::from_str("HalcyonAppId"),
        app_name: String::from_str("Halcyon"),
        app_version,
        device_name,
        manufacturer: String::from_str("PC"),
        model,
        os_name,
        os_version,
        supports_encryption: false,
        app_data: AppData {  },
    }
}

} // verus!
