use vstd::prelude::*;

verus! {

#[verifier::external_type_specification]
#[verifier::external_body]
pub struct ExWebPkiError(webpki::Error);

#[verifier::external_type_specification]
#[verifier::external_body]
pub struct ExEndEntityCert<'a>(webpki::EndEntityCert<'a>);

/// Errors of the U2F command layer, wrapping those of the layers below.
#[derive(Debug, Clone, Copy, PartialEq)]
pub enum ErrorKind {
    FramingError(crate::raw::error::ErrorKind),
    HidError(crate::usb::error::ErrorKind),
    WebPkiError(webpki::Error),
    UnrecognisedVersion,
    InvalidChallengeParameter,
    InvalidApplicationParameter,
    KeyHandleTooLong,
    InvalidRegistrationResponse,
    UserPresenceRequired,
}

} // verus!
