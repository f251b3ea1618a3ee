use vstd::prelude::*;

use crate::raw::frame::U2fStatusWord;

verus! {

/// Errors of the U2FHID framing layer.
#[derive(Debug, Clone, Copy, PartialEq, Eq, Structural)]
pub enum ErrorKind {
    FramingError(crate::raw::error::ErrorKind),
    RequestTooLong,
    HidError(u8),
    UnknownHidCommand(u8),
    HidPacketTooSmall,
    UnknownChannelId,
    UnexpectedPacket,
    InitResponseTooSmall,
    ErrorStatus(U2fStatusWord),
    UnknownErrorStatus(u16),
}

} // verus!
