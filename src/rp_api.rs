use vstd::prelude::*;

use crate::api::messages::ErrorCode;

verus! {

#[derive(Debug, Clone, Copy, PartialEq, Eq, Structural)]
pub enum U2fRequestType {
    RegisterRequest,
    SignRequest,
}

/// The envelope of a request of the browser-facing U2F API.
#[derive(Debug, Clone, PartialEq)]
pub struct U2fRequest {
    pub request_type: U2fRequestType,
    pub app_id: Option<String>,
    pub timeout_seconds: Option<u32>,
    pub request_id: Option<u32>,
}

#[derive(Debug, Clone, Copy, PartialEq, Eq, Structural)]
pub enum U2fResponseType {
    RegisterResponse,
    SignResponse,
}

/// The data of a response of the browser-facing U2F API.
#[derive(Debug, Clone, PartialEq)]
pub enum U2fResponseData {
    Error { error_code: ErrorCode, error_message: Option<String> },
    RegisterResponse { version: String, registration_data: String, client_data: String },
    SignResponse { key_handle: String, signature_data: String, client_data: String },
}

/// A response of the browser-facing U2F API.
#[derive(Debug, Clone, PartialEq)]
pub struct U2fResponse {
    pub response_type: U2fResponseType,
    pub response_data: U2fResponseData,
    pub request_id: Option<u32>,
}

} // verus!
