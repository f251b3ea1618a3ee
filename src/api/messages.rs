use vstd::prelude::*;

verus! {

#[derive(Debug, Clone, Copy, PartialEq, Eq, Structural)]
pub enum U2fRequestType {
    RegisterRequest,
    SignRequest,
}

/// A request of the browser-facing U2F API.
#[derive(Debug, Clone, PartialEq)]
pub enum U2fRequest {
    RegisterRequest {
        app_id: Option<String>,
        timeout_seconds: Option<u32>,
        request_id: Option<u32>,
        register_requests: Vec<RegisterRequest>,
        registered_keys: Vec<RegisteredKey>,
    },
    SignRequest {
        app_id: Option<String>,
        timeout_seconds: Option<u32>,
        request_id: Option<u32>,
        challenge: String,
        registered_keys: Vec<RegisteredKey>,
    },
}

#[derive(Debug, Clone, Copy, PartialEq, Eq, Structural)]
pub enum U2fResponseType {
    RegisterResponse,
    SignResponse,
}

/// The error codes of the browser-facing U2F API, written as numbers.
#[derive(Debug, Clone, Copy, PartialEq, Eq, Structural)]
pub enum ErrorCode {
    NoError,
    OtherError,
    BadRequest,
    ConfigurationUnsupported,
    DeviceIneligible,
    Timeout,
}

impl ErrorCode {
    pub open spec fn spec_code(self) -> u64 {
        match self {
            ErrorCode::NoError => 0,
            ErrorCode::OtherError => 1,
            ErrorCode::BadRequest => 2,
            ErrorCode::ConfigurationUnsupported => 3,
            ErrorCode::DeviceIneligible => 4,
            ErrorCode::Timeout => 5,
        }
    }

    /// The number this code is written as.
    pub fn code(self) -> (r: u64)
        ensures
            r == self.spec_code(),
    {
        match self {
            ErrorCode::NoError => 0,
            ErrorCode::OtherError => 1,
            ErrorCode::BadRequest => 2,
            ErrorCode::ConfigurationUnsupported => 3,
            ErrorCode::DeviceIneligible => 4,
            ErrorCode::Timeout => 5,
        }
    }

    /// The code written as `n`, if any.
    pub fn from_code(n: u64) -> (r: Option<ErrorCode>)
        ensures
            r matches Some(c) ==> c.spec_code() == n,
            r is None <==> n > 5,
    {
        if n == 0 {
            Some(ErrorCode::NoError)
        } else if n == 1 {
            Some(ErrorCode::OtherError)
        } else if n == 2 {
            Some(ErrorCode::BadRequest)
        } else if n == 3 {
            Some(ErrorCode::ConfigurationUnsupported)
        } else if n == 4 {
            Some(ErrorCode::DeviceIneligible)
        } else if n == 5 {
            Some(ErrorCode::Timeout)
        } else {
            None
        }
    }
}

/// The data of a response of the browser-facing U2F API.
#[derive(Debug, Clone, PartialEq)]
pub enum U2fResponseData {
    Error { error_code: ErrorCode, error_message: Option<String> },
    RegisterResponse { version: String, registration_data: String, client_data: String },
    SignResponse { key_handle: String, signature_data: String, client_data: String },
}

/// A response of the browser-facing U2F API.
#[derive(Debug, Clone, PartialEq)]
pub struct U2fResponse {
    pub response_type: U2fResponseType,
    pub response_data: U2fResponseData,
    pub request_id: Option<u32>,
}

#[derive(Debug, Clone, Copy, PartialEq, Eq, Structural)]
pub enum Transport {
    Bluetooth,
    BluetoothLE,
    NFC,
    USB,
}

pub type Transports = Vec<Transport>;

/// One registration the relying party asks for.
#[derive(Debug, Clone, PartialEq)]
pub struct RegisterRequest {
    pub version: String,
    pub challenge: String,
}

/// A key that is already registered with the relying party.
#[derive(Debug, Clone, PartialEq)]
pub struct RegisteredKey {
    pub version: String,
    pub key_handle: String,
    pub transports: Option<Transports>,
    pub app_id: Option<String>,
}

} // verus!
