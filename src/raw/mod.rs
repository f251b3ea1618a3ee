pub mod error;
pub mod frame;

use vstd::prelude::*;

use crate::raw::error::ErrorKind;
use crate::raw::frame::{bytes_equal, ResponseAPDU, U2fStatusWord};

verus! {

#[derive(Debug, Clone, Copy, PartialEq, Eq, Structural)]
pub enum U2fVersion {
    V2,
}

/// The version a token reports in its answer to a Version command: an error status is
/// `ErrorStatus`, and data other than "U2F_V2" is `UnrecognisedVersion`.
pub fn parse_version(response: &ResponseAPDU) -> (r: Result<U2fVersion, ErrorKind>)
    ensures
        response.status != 0x9000 ==> r == Err::<U2fVersion, ErrorKind>(
            ErrorKind::ErrorStatus(response.status),
        ),
        response.status == 0x9000 && response.response_data@ == seq![0x55u8, 0x32, 0x46, 0x5f, 0x56, 0x32]
            ==> r == Ok::<U2fVersion, ErrorKind>(U2fVersion::V2),
        response.status == 0x9000 && response.response_data@ != seq![0x55u8, 0x32, 0x46, 0x5f, 0x56, 0x32]
            ==> r == Err::<U2fVersion, ErrorKind>(ErrorKind::UnrecognisedVersion),
{
    match U2fStatusWord::from_u16(response.status) {
        Some(U2fStatusWord::NoError) => {
            let expected: Vec<u8> = vec![0x55u8, 0x32, 0x46, 0x5f, 0x56, 0x32];
            if bytes_equal(response.response_data.as_slice(), expected.as_slice()) {
                Ok(U2fVersion::V2)
            } else {
                Err(ErrorKind::UnrecognisedVersion)
            }
        },
        _ => Err(ErrorKind::ErrorStatus(response.status)),
    }
}

} // verus!
