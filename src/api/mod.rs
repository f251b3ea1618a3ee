pub mod messages;

use vstd::prelude::*;

verus! {

/// Errors a relying-party API reports, each with an optional message.
#[derive(Debug, Clone, PartialEq)]
pub enum ErrorKind {
    OtherError(Option<String>),
    BadRequest(Option<String>),
    ConfigurationUnsupported(Option<String>),
    DeviceIneligible(Option<String>),
    Timeout(Option<String>),
}

/// The result of a relying-party registration, in its web-safe encodings.
#[derive(Debug, Clone, PartialEq)]
pub struct RegisterResponse {
    pub version: String,
    pub registration_data: String,
    pub client_data: String,
}

/// The result of a relying-party signature, in its web-safe encodings.
#[derive(Debug, Clone, PartialEq)]
pub struct SignResponse {
    pub key_handle: String,
    pub signature_data: String,
    pub client_data: String,
}

} // verus!
