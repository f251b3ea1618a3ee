use vstd::prelude::*;

verus! {

/// Errors of the APDU layer.
#[derive(Debug, Clone, Copy, PartialEq, Eq, Structural)]
pub enum ErrorKind {
    ResponseFrameTooShort,
    RequestDataTooLong,
    ExpectedResponseDataTooLong,
    ExpectedZeroResponseData,
    FrameTooSmall,
    ErrorStatus(u16),
    UnrecognisedVersion,
}

} // verus!
