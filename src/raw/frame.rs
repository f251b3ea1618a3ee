use vstd::prelude::*;

use vstd::slice::slice_subrange;

use crate::raw::error::ErrorKind;

verus! {

/// Appends `src` to `dst`, byte by byte.
pub(crate) fn write_bytes(dst: &mut Vec<u8>, src: &[u8])
    ensures
        final(dst)@ == old(dst)@ + src@,
{
    let ghost start = dst@;
    let mut i: usize = 0;
    while i < src.len()
        invariant
            i <= src@.len(),
            dst@ == start + src@.subrange(0, i as int),
        decreases src@.len() - i,
    {
        dst.push(src[i]);
        i = i + 1;
        proof {
            assert(src@.subrange(0, i as int) == src@.subrange(0, i - 1) + seq![src@[i - 1]]);
        }
    }
    proof {
        assert(src@.subrange(0, i as int) == src@);
    }
}

/// Whether two byte strings are equal.
pub(crate) fn bytes_equal(a: &[u8], b: &[u8]) -> (r: bool)
    ensures
        r == (a@ == b@),
{
    if a.len() != b.len() {
        return false;
    }
    let mut i: usize = 0;
    while i < a.len()
        invariant
            i <= a@.len(),
            a@.len() == b@.len(),
            forall|j: int| 0 <= j < i ==> a@[j] == b@[j],
        decreases a@.len() - i,
    {
        if a[i] != b[i] {
            return false;
        }
        i = i + 1;
    }
    proof {
        assert(a@ =~= b@);
    }
    true
}

/// The U2F instruction carried in an APDU's INS byte.
#[derive(Debug, Clone, Copy, PartialEq, Eq, Structural)]
pub enum U2fCommand {
    Register,
    Authenticate,
    Version,
}

impl U2fCommand {
    pub open spec fn spec_code(self) -> u8 {
        match self {
            U2fCommand::Register => 0x01,
            U2fCommand::Authenticate => 0x02,
            U2fCommand::Version => 0x03,
        }
    }

    /// The INS byte of this instruction.
    pub fn code(self) -> (r: u8)
        ensures
            r == self.spec_code(),
    {
        match self {
            U2fCommand::Register => 0x01,
            U2fCommand::Authenticate => 0x02,
            U2fCommand::Version => 0x03,
        }
    }
}

/// The status words a U2F token answers with.
#[derive(Debug, Clone, Copy, PartialEq, Eq, Structural)]
pub enum U2fStatusWord {
    NoError,
    WrongData,
    ConditionsNotSatisfied,
    InsNotSupported,
    ClaNotSupported,
}

impl U2fStatusWord {
    pub open spec fn spec_code(self) -> u16 {
        match self {
            U2fStatusWord::NoError => 0x9000,
            U2fStatusWord::WrongData => 0x6984,
            U2fStatusWord::ConditionsNotSatisfied => 0x6985,
            U2fStatusWord::InsNotSupported => 0x6d00,
            U2fStatusWord::ClaNotSupported => 0x6e00,
        }
    }

    pub open spec fn spec_from_u16(sw: u16) -> Option<U2fStatusWord> {
        if sw == 0x9000 {
            Some(U2fStatusWord::NoError)
        } else if sw == 0x6984 {
            Some(U2fStatusWord::WrongData)
        } else if sw == 0x6985 {
            Some(U2fStatusWord::ConditionsNotSatisfied)
        } else if sw == 0x6d00 {
            Some(U2fStatusWord::InsNotSupported)
        } else if sw == 0x6e00 {
            Some(U2fStatusWord::ClaNotSupported)
        } else {
            None
        }
    }

    /// The known status word with code `sw`, if any.
    pub fn from_u16(sw: u16) -> (r: Option<U2fStatusWord>)
        ensures
            r == Self::spec_from_u16(sw),
            r matches Some(w) ==> w.spec_code() == sw,
    {
        if sw == 0x9000 {
            Some(U2fStatusWord::NoError)
        } else if sw == 0x6984 {
            Some(U2fStatusWord::WrongData)
        } else if sw == 0x6985 {
            Some(U2fStatusWord::ConditionsNotSatisfied)
        } else if sw == 0x6d00 {
            Some(U2fStatusWord::InsNotSupported)
        } else if sw == 0x6e00 {
            Some(U2fStatusWord::ClaNotSupported)
        } else {
            None
        }
    }
}

/// A command APDU. `le` is the number of response bytes expected, if any.
#[derive(Debug, Clone, PartialEq)]
pub struct CommandAPDU {
    pub cla: u8,
    pub ins: U2fCommand,
    pub p1: u8,
    pub p2: u8,
    pub request_data: Vec<u8>,
    pub le: Option<usize>,
}

impl CommandAPDU {
    pub fn new(ins: U2fCommand, p1: u8, p2: u8, request_data: Vec<u8>, le: Option<usize>) -> (r:
        CommandAPDU)
        ensures
            r.cla == 0,
            r.ins == ins,
            r.p1 == p1,
            r.p2 == p2,
            r.request_data@ == request_data@,
            r.le == le,
    {
        CommandAPDU { cla: 0, ins, p1, p2, request_data, le }
    }
}

/// The four header bytes CLA, INS, P1, P2.
pub open spec fn header(cmd: CommandAPDU) -> Seq<u8> {
    seq![cmd.cla, cmd.ins.spec_code(), cmd.p1, cmd.p2]
}

/// Why an encoder with the given limits rejects `cmd`, if it does.
pub open spec fn rejection(cmd: CommandAPDU, max_request: nat, max_response: nat) -> Option<
    ErrorKind,
> {
    if cmd.request_data@.len() > max_request {
        Some(ErrorKind::RequestDataTooLong)
    } else {
        match cmd.le {
            Some(le) => if le > max_response {
                Some(ErrorKind::ExpectedResponseDataTooLong)
            } else if le == 0 {
                Some(ErrorKind::ExpectedZeroResponseData)
            } else {
                None
            },
            None => None,
        }
    }
}

/// Encodes command APDUs into bytes.
pub trait RequestEncoder {
    spec fn max_request() -> nat;

    spec fn max_response() -> nat;

    /// The bytes written for a command that the limits admit.
    spec fn wire(cmd: CommandAPDU) -> Seq<u8>;

    /// Appends the encoding of `cmd` to `bb`, or rejects `cmd` and leaves `bb` as it was.
    fn encode(bb: &mut Vec<u8>, cmd: CommandAPDU) -> (r: Result<(), ErrorKind>)
        ensures
            match rejection(cmd, Self::max_request(), Self::max_response()) {
                Some(e) => r == Err::<(), ErrorKind>(e) && final(bb)@ == old(bb)@,
                None => r is Ok && final(bb)@ == old(bb)@ + Self::wire(cmd),
            },
    ;

    fn max_request_data() -> (r: usize)
        ensures
            r == Self::max_request(),
    ;

    fn max_response_data() -> (r: usize)
        ensures
            r == Self::max_response(),
    ;
}

/// Checks `cmd` against the limits of an encoder; bytes are written only when this is `Ok`.
fn check_limits(cmd: &CommandAPDU, max_request: usize, max_response: usize) -> (r: Result<
    (),
    ErrorKind,
>)
    ensures
        match rejection(*cmd, max_request as nat, max_response as nat) {
            Some(e) => r == Err::<(), ErrorKind>(e),
            None => r is Ok,
        },
{
    if cmd.request_data.len() > max_request {
        return Err(ErrorKind::RequestDataTooLong);
    }
    if let Some(le) = cmd.le {
        if le > max_response {
            return Err(ErrorKind::ExpectedResponseDataTooLong);
        }
        if le == 0 {
            return Err(ErrorKind::ExpectedZeroResponseData);
        }
    }
    Ok(())
}

fn write_header(bb: &mut Vec<u8>, cmd: &CommandAPDU)
    ensures
        final(bb)@ == old(bb)@ + header(*cmd),
{
    bb.push(cmd.cla);
    bb.push(cmd.ins.code());
    bb.push(cmd.p1);
    bb.push(cmd.p2);
}

/// ISO 7816-4 short encoding: at most 255 request bytes and 256 response bytes.
pub struct ShortEncoder;

pub open spec fn short_wire(cmd: CommandAPDU) -> Seq<u8> {
    let nc = cmd.request_data@.len();
    header(cmd) + (if nc == 0 {
        Seq::empty()
    } else {
        seq![nc as u8] + cmd.request_data@
    }) + match cmd.le {
        Some(le) => seq![(if le == 256 { 0 } else { le }) as u8],
        None => Seq::empty(),
    }
}

impl RequestEncoder for ShortEncoder {
    open spec fn max_request() -> nat {
        255
    }

    open spec fn max_response() -> nat {
        256
    }

    open spec fn wire(cmd: CommandAPDU) -> Seq<u8> {
        short_wire(cmd)
    }

    fn encode(bb: &mut Vec<u8>, cmd: CommandAPDU) -> (r: Result<(), ErrorKind>) {
        check_limits(&cmd, Self::max_request_data(), Self::max_response_data())?;
        let ghost start = bb@;
        write_header(bb, &cmd);
        let nc = cmd.request_data.len();
        if nc != 0 {
            bb.push(nc as u8);
            write_bytes(bb, cmd.request_data.as_slice());
        }
        let ghost mid = bb@;
        if let Some(le) = cmd.le {
            let ne = if le == Self::max_response_data() {
                0
            } else {
                le
            };
            bb.push(ne as u8);
        }
        proof {
            if nc != 0 {
                assert(mid == start + header(cmd) + (seq![nc as u8] + cmd.request_data@));
            } else {
                assert(mid == start + header(cmd) + Seq::<u8>::empty());
            }
            assert(bb@ =~= start + short_wire(cmd));
        }
        Ok(())
    }

    fn max_request_data() -> (r: usize) {
        255
    }

    fn max_response_data() -> (r: usize) {
        256
    }
}

/// Which extended encoding an `ExtendedEncoder` writes.
#[derive(Debug, Clone, Copy, PartialEq, Eq, Structural)]
pub enum U2fExtendedEncodingVersion {
    V1,
    V1_1,
}

/// Extended encoding as U2F tokens first accepted it: a three-byte LC that is always
/// present, and no LE on the wire.
pub struct ExtendedEncoderV1;

/// Extended encoding as ISO 7816-4 defines it.
pub struct ExtendedEncoderV1_1;

/// Shared implementation of both extended encodings.
pub struct ExtendedEncoder;

pub open spec fn extended_v1_wire(cmd: CommandAPDU) -> Seq<u8> {
    let nc = cmd.request_data@.len();
    header(cmd) + seq![0u8, (nc / 256) as u8, (nc % 256) as u8] + cmd.request_data@
}

pub open spec fn extended_v1_1_wire(cmd: CommandAPDU) -> Seq<u8> {
    let nc = cmd.request_data@.len();
    header(cmd) + (if nc == 0 {
        Seq::empty()
    } else {
        seq![0u8, (nc / 256) as u8, (nc % 256) as u8] + cmd.request_data@
    }) + match cmd.le {
        Some(le) => {
            let ne: int = if le == 65536 { 0 } else { le as int };
            (if nc == 0 { seq![0u8] } else { Seq::empty() }) + seq![(ne / 256) as u8, (ne % 256) as u8]
        },
        None => Seq::empty(),
    }
}

pub open spec fn extended_wire(cmd: CommandAPDU, version: U2fExtendedEncodingVersion) -> Seq<u8> {
    match version {
        U2fExtendedEncodingVersion::V1 => extended_v1_wire(cmd),
        U2fExtendedEncodingVersion::V1_1 => extended_v1_1_wire(cmd),
    }
}

impl ExtendedEncoder {
    pub open spec fn spec_max_request() -> nat {
        65535
    }

    pub open spec fn spec_max_response() -> nat {
        65536
    }

    /// Appends the extended encoding of `cmd` in the given version to `bb`, or rejects `cmd`.
    pub fn extended_encode(bb: &mut Vec<u8>, cmd: CommandAPDU, version: U2fExtendedEncodingVersion)
        -> (r: Result<(), ErrorKind>)
        ensures
            match rejection(cmd, Self::spec_max_request(), Self::spec_max_response()) {
                Some(e) => r == Err::<(), ErrorKind>(e) && final(bb)@ == old(bb)@,
                None => r is Ok && final(bb)@ == old(bb)@ + extended_wire(cmd, version),
            },
    {
        check_limits(&cmd, Self::max_request_data(), Self::max_response_data())?;
        let ghost start = bb@;
        write_header(bb, &cmd);
        let nc = cmd.request_data.len();
        let hi = (nc / 256) as u8;
        let lo = (nc % 256) as u8;
        if version == U2fExtendedEncodingVersion::V1 {
            bb.push(0);
            bb.push(hi);
            bb.push(lo);
            write_bytes(bb, cmd.request_data.as_slice());
            proof {
                assert(bb@ =~= start + extended_v1_wire(cmd));
            }
        } else {
            if nc != 0 {
                bb.push(0);
                bb.push(hi);
                bb.push(lo);
                write_bytes(bb, cmd.request_data.as_slice());
            }
            let ghost mid = bb@;
            proof {
                if nc != 0 {
                    assert(mid =~= start + header(cmd) + (seq![0u8, hi, lo] + cmd.request_data@));
                } else {
                    assert(mid =~= start + header(cmd) + Seq::<u8>::empty());
                }
            }
            if let Some(le) = cmd.le {
                let ne = if le == Self::max_response_data() {
                    0
                } else {
                    le
                };
                if nc == 0 {
                    bb.push(0);
                }
                bb.push((ne / 256) as u8);
                bb.push((ne % 256) as u8);
            }
            proof {
                assert(bb@ =~= start + extended_v1_1_wire(cmd));
            }
        }
        Ok(())
    }

    pub fn max_request_data() -> (r: usize)
        ensures
            r == Self::spec_max_request(),
    {
        65535
    }

    pub fn max_response_data() -> (r: usize)
        ensures
            r == Self::spec_max_response(),
    {
        65536
    }
}

impl RequestEncoder for ExtendedEncoderV1 {
    open spec fn max_request() -> nat {
        ExtendedEncoder::spec_max_request()
    }

    open spec fn max_response() -> nat {
        ExtendedEncoder::spec_max_response()
    }

    open spec fn wire(cmd: CommandAPDU) -> Seq<u8> {
        extended_v1_wire(cmd)
    }

    fn encode(bb: &mut Vec<u8>, cmd: CommandAPDU) -> (r: Result<(), ErrorKind>) {
        ExtendedEncoder::extended_encode(bb, cmd, U2fExtendedEncodingVersion::V1)
    }

    fn max_request_data() -> (r: usize) {
        ExtendedEncoder::max_request_data()
    }

    fn max_response_data() -> (r: usize) {
        ExtendedEncoder::max_response_data()
    }
}

impl RequestEncoder for ExtendedEncoderV1_1 {
    open spec fn max_request() -> nat {
        ExtendedEncoder::spec_max_request()
    }

    open spec fn max_response() -> nat {
        ExtendedEncoder::spec_max_response()
    }

    open spec fn wire(cmd: CommandAPDU) -> Seq<u8> {
        extended_v1_1_wire(cmd)
    }

    fn encode(bb: &mut Vec<u8>, cmd: CommandAPDU) -> (r: Result<(), ErrorKind>) {
        ExtendedEncoder::extended_encode(bb, cmd, U2fExtendedEncodingVersion::V1_1)
    }

    fn max_request_data() -> (r: usize) {
        ExtendedEncoder::max_request_data()
    }

    fn max_response_data() -> (r: usize) {
        ExtendedEncoder::max_response_data()
    }
}

/// A response APDU: the data bytes and the status word that followed them.
#[derive(Debug, Clone, PartialEq)]
pub struct ResponseAPDU {
    pub response_data: Vec<u8>,
    pub status: u16,
}

impl ResponseAPDU {
    pub fn new(data: Vec<u8>, status: u16) -> (r: ResponseAPDU)
        ensures
            r.response_data@ == data@,
            r.status == status,
    {
        ResponseAPDU { response_data: data, status }
    }
}

/// What a response frame decodes to: all bytes but the last two, and the status word
/// `(sw1 << 8) | sw2` that those two make.
pub open spec fn decoded(frame: Seq<u8>) -> Result<(Seq<u8>, u16), ErrorKind> {
    if frame.len() < 2 {
        Err(ErrorKind::ResponseFrameTooShort)
    } else {
        let n = frame.len();
        Ok((frame.subrange(0, n - 2), (frame[n - 2] * 256 + frame[n - 1]) as u16))
    }
}

/// Decodes response APDUs.
pub trait ResponseDecoder {
    fn decode(bb: &[u8]) -> (r: Result<ResponseAPDU, ErrorKind>)
        ensures
            match decoded(bb@) {
                Ok((data, sw)) => r matches Ok(resp) && resp.response_data@ == data && resp.status
                    == sw,
                Err(e) => r == Err::<ResponseAPDU, ErrorKind>(e),
            },
    ;
}

pub struct Decoder;

impl ResponseDecoder for Decoder {
    fn decode(bb: &[u8]) -> (r: Result<ResponseAPDU, ErrorKind>) {
        let bb_len = bb.len();
        if bb_len < 2 {
            return Err(ErrorKind::ResponseFrameTooShort);
        }
        let mut data: Vec<u8> = Vec::new();
        write_bytes(&mut data, slice_subrange(bb, 0, bb_len - 2));
        let sw1 = bb[bb_len - 2];
        let sw2 = bb[bb_len - 1];
        let sw = (sw1 as u16) * 256 + (sw2 as u16);
        proof {
            assert(data@ =~= bb@.subrange(0, bb_len - 2));
        }
        Ok(ResponseAPDU::new(data, sw))
    }
}

/// Every encoder rejects a command with `RequestDataTooLong` exactly when its request data
/// exceeds the encoder's limit; with the data within the limit, it rejects it with
/// `ExpectedZeroResponseData` exactly when `le` is `Some(0)`, and with
/// `ExpectedResponseDataTooLong` exactly when `le` exceeds the encoder's response limit.
pub proof fn lemma_encoder_rejections<E: RequestEncoder>(cmd: CommandAPDU)
    ensures
        (rejection(cmd, E::max_request(), E::max_response()) == Some(
            ErrorKind::RequestDataTooLong,
        )) <==> cmd.request_data@.len() > E::max_request(),
        cmd.request_data@.len() <= E::max_request() ==> ((rejection(
            cmd,
            E::max_request(),
            E::max_response(),
        ) == Some(ErrorKind::ExpectedZeroResponseData)) <==> cmd.le == Some(0usize)),
        cmd.request_data@.len() <= E::max_request() ==> ((rejection(
            cmd,
            E::max_request(),
            E::max_response(),
        ) == Some(ErrorKind::ExpectedResponseDataTooLong)) <==> (cmd.le matches Some(le) && le
            > E::max_response())),
{
}

/// A short command with no request data and `le` of 256 encodes as `[0, ins, p1, p2, 0]`.
pub proof fn lemma_short_empty_request(cmd: CommandAPDU)
    requires
        cmd.cla == 0,
        cmd.request_data@.len() == 0,
        cmd.le == Some(256usize),
    ensures
        rejection(cmd, ShortEncoder::max_request(), ShortEncoder::max_response()) is None,
        ShortEncoder::wire(cmd) == seq![0u8, cmd.ins.spec_code(), cmd.p1, cmd.p2, 0u8],
{
    assert(ShortEncoder::wire(cmd) =~= seq![0u8, cmd.ins.spec_code(), cmd.p1, cmd.p2, 0u8]);
}

/// A V1 extended command with no request data and `le` of 65536 encodes as
/// `[0, ins, p1, p2, 0, 0, 0]`.
pub proof fn lemma_extended_v1_empty_request(cmd: CommandAPDU)
    requires
        cmd.cla == 0,
        cmd.request_data@.len() == 0,
        cmd.le == Some(65536usize),
    ensures
        rejection(cmd, ExtendedEncoderV1::max_request(), ExtendedEncoderV1::max_response())
            is None,
        ExtendedEncoderV1::wire(cmd) == seq![0u8, cmd.ins.spec_code(), cmd.p1, cmd.p2, 0u8, 0u8, 0u8],
{
    assert(ExtendedEncoderV1::wire(cmd) =~= seq![0u8, cmd.ins.spec_code(), cmd.p1, cmd.p2, 0u8, 0u8, 0u8]);
}

/// Decoding `data ++ [sw1, sw2]` gives back `data` and the status word `(sw1 << 8) | sw2`.
pub proof fn lemma_decode_round_trip(data: Seq<u8>, sw1: u8, sw2: u8)
    ensures
        decoded(data + seq![sw1, sw2]) == Ok::<(Seq<u8>, u16), ErrorKind>(
            (data, (sw1 as u16) << 8 | sw2 as u16),
        ),
{
    let frame = data + seq![sw1, sw2];
    assert(frame.subrange(0, frame.len() - 2) =~= data);
    assert(((sw1 as u16) << 8 | sw2 as u16) == (sw1 * 256 + sw2) as u16) by (bit_vector);
}

} // verus!
