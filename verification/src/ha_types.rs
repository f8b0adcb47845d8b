//! Plain data carried between the library and the hub's REST endpoints.
//!
//! These records hold only plain values; the HTTP calls that move them
//! live with the caller.  Fields that appear on the wire under the key
//! `type` are named `kind` here.

use vstd::prelude::*;

verus! {

/// Attributes of one entity state reported by the hub.
#[derive(Debug, Clone, PartialEq, Eq)]
pub struct HaEntityAttribute {
    pub friendly_name: Option<String>,
}

/// One entity state reported by the hub.
#[derive(Debug, Clone, PartialEq, Eq)]
pub struct HaEntityState {
    pub attributes: HaEntityAttribute,
}

/// The hub's answer to a device registration.
#[derive(Debug, Clone, PartialEq, Eq)]
pub struct RegisterDeviceResponse {
    pub cloud_hook_url: Option<String>,
    pub remote_ui_url: Option<String>,
    pub secret: Option<String>,
    pub webhook_id: String,
}

/// The form fields of the token-exchange request.
#[derive(Debug, Clone, PartialEq, Eq)]
pub struct GetAccessTokenRequest {
    pub grant_type: String,
    pub code: String,
    pub client_id: String,
}

/// The success body of the token-exchange endpoint.
#[derive(Debug, Clone, PartialEq, Eq)]
pub struct GetAccessTokenResponse {
    pub access_token: String,
    pub expires_in: u32,
    pub refresh_token: String,
    pub token_type: String,
}

/// The error body of the token-exchange endpoint.
#[derive(Debug, Clone, PartialEq, Eq)]
pub struct GetAccessTokenError {
    pub error: String,
    pub error_description: String,
}

/// The success body of a token refresh.
#[derive(Debug, Clone, PartialEq, Eq)]
pub struct RefreshToken {
    pub access_token: String,
    pub expires_in: u64,
    pub token_type: String,
}

/// The body returned when an authorization code is exchanged.
#[derive(Debug, Clone, PartialEq, Eq)]
pub struct AuthorizationCode {
    pub access_token: String,
    pub expires_in: u64,
    pub refresh_token: String,
    pub token_type: String,
}

/// Extra application data sent along with a device registration.
#[derive(Debug, Clone, PartialEq, Eq)]
pub struct AppData {}

/// A device registration request for the hub's mobile-app endpoint.
#[derive(Debug, Clone, PartialEq, Eq)]
pub struct DeviceRegistrationRequest {
    pub device_id: String,
    pub app_id: String,
    pub app_name: String,
    pub app_version: String,
    pub device_name: String,
    pub manufacturer: String,
    pub model: String,
    pub os_name: String,
    pub os_version: String,
    pub supports_encryption: bool,
    pub app_data: AppData,
}

/// The hub's answer to a device registration request.
#[derive(Debug, Clone, PartialEq, Eq)]
pub struct DeviceRegistrationResponse {
    pub cloudhook_url: Option<String>,
    pub remote_ui_url: Option<String>,
    pub secret: Option<String>,
    pub webhook_id: String,
}

/// A sensor registration message for the hub's webhook endpoint.
#[derive(Debug, Clone, PartialEq, Eq)]
pub struct SensorRegistrationRequest {
    pub kind: String,
    pub data: SensorRegistrationData,
}

/// The payload of a sensor registration.
#[derive(Debug, Clone, PartialEq, Eq)]
pub struct SensorRegistrationData {
    pub device_class: Option<String>,
    pub icon: String,
    pub name: String,
    pub state: String,
    pub kind: String,
    pub unique_id: String,
    pub unit_of_measurement: String,
    pub attributes: Vec<(String, String)>,
}

/// A sensor state update for the hub's webhook endpoint.
#[derive(Debug, Clone, PartialEq, Eq)]
pub struct SensorUpdateRequest {
    pub kind: String,
    pub data: SensorUpdateData,
}

/// The payload of a sensor state update.
#[derive(Debug, Clone, PartialEq, Eq)]
pub struct SensorUpdateData {
    pub icon: String,
    pub state: String,
    pub kind: String,
    pub unique_id: String,
    pub attributes: Vec<(String, String)>,
}

} // verus!
