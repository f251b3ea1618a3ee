use vstd::prelude::*;

use vstd::arithmetic::div_mod::{lemma_div_denominator, lemma_fundamental_div_mod};
use vstd::slice::slice_subrange;

use crate::raw::frame::bytes_equal;
use crate::usb::error::ErrorKind;

verus! {

/// The channel that Init is sent on before a channel has been allocated.
pub const BROADCAST_CID: u32 = 0xffffffff;

/// The size of the HID reports a U2F token reads and writes.
pub const HID_REPORT_SIZE: usize = 64;

pub const FIDO_USAGE_PAGE: u16 = 0xf1d0;

pub const U2F_USAGE: u16 = 0x1;

/// Messages of this length or longer are refused. The bound is `57 + 128 * 59`: what one
/// initialization and 128 continuation reports of 64 bytes hold.
pub const MAX_REQUEST_LEN: usize = 7609;

/// A HID device is a U2F token exactly when it reports the FIDO usage page and the U2F usage.
pub fn is_fido_device(usage_page: u16, usage: u16) -> (r: bool)
    ensures
        r == (usage_page == FIDO_USAGE_PAGE && usage == U2F_USAGE),
{
    usage_page == FIDO_USAGE_PAGE && usage == U2F_USAGE
}

/// The U2FHID command carried by an initialization packet.
#[derive(Debug, Clone, Copy, PartialEq, Eq, Structural)]
pub enum U2fHidCommand {
    Ping,
    Msg,
    Lock,
    Init,
    Wink,
    Error,
}

impl U2fHidCommand {
    pub open spec fn spec_code(self) -> u8 {
        match self {
            U2fHidCommand::Ping => 0x81,
            U2fHidCommand::Msg => 0x83,
            U2fHidCommand::Lock => 0x84,
            U2fHidCommand::Init => 0x86,
            U2fHidCommand::Wink => 0x88,
            U2fHidCommand::Error => 0xbf,
        }
    }

    /// The command byte of this command.
    pub fn code(self) -> (r: u8)
        ensures
            r == self.spec_code(),
    {
        match self {
            U2fHidCommand::Ping => 0x81,
            U2fHidCommand::Msg => 0x83,
            U2fHidCommand::Lock => 0x84,
            U2fHidCommand::Init => 0x86,
            U2fHidCommand::Wink => 0x88,
            U2fHidCommand::Error => 0xbf,
        }
    }

    /// The command whose byte is `b`, if any.
    pub fn from_u8(b: u8) -> (r: Option<U2fHidCommand>)
        ensures
            r matches Some(c) ==> c.spec_code() == b,
            r is None ==> forall|c: U2fHidCommand| c.spec_code() != b,
    {
        if b == 0x81 {
            Some(U2fHidCommand::Ping)
        } else if b == 0x83 {
            Some(U2fHidCommand::Msg)
        } else if b == 0x84 {
            Some(U2fHidCommand::Lock)
        } else if b == 0x86 {
            Some(U2fHidCommand::Init)
        } else if b == 0x88 {
            Some(U2fHidCommand::Wink)
        } else if b == 0xbf {
            Some(U2fHidCommand::Error)
        } else {
            None
        }
    }
}

/// The version and capability bytes that a token reports in its Init response.
#[derive(Debug, Clone, Copy, PartialEq, Eq, Structural)]
pub struct U2fDeviceInfo {
    pub protocol_version: u8,
    pub major_device_version: u8,
    pub minor_device_version: u8,
    pub build_device_version: u8,
    pub raw_capabilities: u8,
}

/// The state of one logical channel to a token: the report size, the channel id (the
/// broadcast id until Init allocates one) and what Init reported.
#[derive(Debug, Clone, Copy, PartialEq, Eq, Structural)]
pub struct U2fDevice {
    pub packet_size: usize,
    pub channel_id: u32,
    pub u2f_info: Option<U2fDeviceInfo>,
}

/// The four bytes of `v`, most significant first.
pub open spec fn be32_bytes(v: u32) -> Seq<u8> {
    seq![(v / 0x1000000) as u8, (v / 0x10000 % 256) as u8, (v / 0x100 % 256) as u8, (v % 256) as u8]
}

/// The big-endian `u32` held in `d[i..i + 4]`.
pub open spec fn be32_at(d: Seq<u8>, i: int) -> u32 {
    (d[i] * 0x1000000 + d[i + 1] * 0x10000 + d[i + 2] * 0x100 + d[i + 3]) as u32
}

pub open spec fn zeros(n: nat) -> Seq<u8> {
    Seq::new(n, |i: int| 0u8)
}

pub open spec fn min(a: int, b: int) -> int {
    if a < b {
        a
    } else {
        b
    }
}

/// An initialization frame (without the report id): channel id, command byte, the whole
/// payload's length, and as much of the payload as fits, padded with zeros.
pub open spec fn init_frame(channel_id: u32, command: u8, payload: Seq<u8>, packet_len: nat) -> Seq<
    u8,
> {
    let n = payload.len();
    let take = min(packet_len - 7, n as int);
    be32_bytes(channel_id) + seq![command, (n / 256) as u8, (n % 256) as u8] + payload.subrange(
        0,
        take,
    ) + zeros((packet_len - 7 - take) as nat)
}

/// A continuation frame (without the report id) carrying the payload from `offset` on.
pub open spec fn cont_frame(
    channel_id: u32,
    seq_no: u8,
    payload: Seq<u8>,
    offset: int,
    packet_len: nat,
) -> Seq<u8> {
    let take = min(packet_len - 5, payload.len() - offset);
    be32_bytes(channel_id) + seq![seq_no] + payload.subrange(offset, offset + take) + zeros(
        (packet_len - 5 - take) as nat,
    )
}

/// Where the `k`-th report's fragment of a message starts (the initialization report is
/// report 0).
pub open spec fn fragment_start(k: nat, packet_len: nat) -> int
    decreases k,
{
    if k == 0 {
        0
    } else if k == 1 {
        packet_len - 7
    } else {
        fragment_start((k - 1) as nat, packet_len) + (packet_len - 5)
    }
}

fn write_u32(buf: &mut Vec<u8>, v: u32)
    ensures
        final(buf)@ == old(buf)@ + be32_bytes(v),
{
    buf.push((v / 0x1000000) as u8);
    buf.push((v / 0x10000 % 256) as u8);
    buf.push((v / 0x100 % 256) as u8);
    buf.push((v % 256) as u8);
}

/// Copies up to `max_len` bytes of `src` from `offset` on to the end of `dest` and returns
/// how many it copied.
pub fn copy_buffer(src: &[u8], offset: usize, dest: &mut Vec<u8>, max_len: usize) -> (count: usize)
    requires
        offset <= src@.len(),
    ensures
        count == min(src@.len() - offset, max_len as int),
        final(dest)@ == old(dest)@ + src@.subrange(offset as int, offset + count),
{
    let n = src.len();
    let available = n - offset;
    let count = if available < max_len {
        available
    } else {
        max_len
    };
    let ghost start = dest@;
    let mut i: usize = 0;
    while i < count
        invariant
            i <= count,
            n == src@.len(),
            offset + count <= n,
            dest@ == start + src@.subrange(offset as int, offset + i),
        decreases count - i,
    {
        dest.push(src[offset + i]);
        i = i + 1;
        proof {
            assert(src@.subrange(offset as int, offset + i) == src@.subrange(
                offset as int,
                offset + i - 1,
            ) + seq![src@[offset + i - 1]]);
        }
    }
    count
}

/// Appends `extra` zero bytes to `buf`.
pub fn pad_buffer(buf: &mut Vec<u8>, extra: usize)
    ensures
        final(buf)@ == old(buf)@ + zeros(extra as nat),
{
    let ghost start = buf@;
    let mut i: usize = 0;
    while i < extra
        invariant
            i <= extra,
            buf@ == start + zeros(i as nat),
        decreases extra - i,
    {
        buf.push(0);
        i = i + 1;
        proof {
            assert(zeros(i as nat) =~= zeros((i - 1) as nat) + seq![0u8]);
        }
    }
}

/// Appends the initialization frame of `data` to `request` and returns how many payload
/// bytes it carries.
pub fn prepare_init_packet(
    request: &mut Vec<u8>,
    channel_id: u32,
    command: U2fHidCommand,
    data: &[u8],
    packet_len: usize,
) -> (copied: usize)
    requires
        packet_len > 7,
    ensures
        copied == min(packet_len - 7, data@.len() as int),
        final(request)@ == old(request)@ + init_frame(
            channel_id,
            command.spec_code(),
            data@,
            packet_len as nat,
        ),
{
    let ghost start = request@;
    write_u32(request, channel_id);
    request.push(command.code());
    let data_len = data.len();
    request.push((data_len / 256) as u8);
    request.push((data_len % 256) as u8);
    let copied = copy_buffer(data, 0, request, packet_len - 7);
    pad_buffer(request, packet_len - 7 - copied);
    proof {
        assert(request@ =~= start + init_frame(
            channel_id,
            command.spec_code(),
            data@,
            packet_len as nat,
        ));
    }
    copied
}

/// Appends the continuation frame with sequence number `counter` that carries `data` from
/// `offset` on to `request`, and returns how many payload bytes it carries.
pub fn prepare_cont_packet(
    request: &mut Vec<u8>,
    channel_id: u32,
    counter: u8,
    data: &[u8],
    offset: usize,
    packet_len: usize,
) -> (copied: usize)
    requires
        packet_len > 5,
        offset <= data@.len(),
    ensures
        copied == min(packet_len - 5, data@.len() - offset),
        final(request)@ == old(request)@ + cont_frame(
            channel_id,
            counter,
            data@,
            offset as int,
            packet_len as nat,
        ),
{
    let ghost start = request@;
    write_u32(request, channel_id);
    request.push(counter);
    let copied = copy_buffer(data, offset, request, packet_len - 5);
    pad_buffer(request, packet_len - 5 - copied);
    proof {
        assert(request@ =~= start + cont_frame(
            channel_id,
            counter,
            data@,
            offset as int,
            packet_len as nat,
        ));
    }
    copied
}

/// The reports (each led by report id 0) that carry a message: an initialization report,
/// then continuation reports numbered from 1, until the payload is used up.
pub open spec fn is_report_sequence(
    reports: Seq<Seq<u8>>,
    channel_id: u32,
    command: u8,
    payload: Seq<u8>,
    packet_len: nat,
) -> bool {
    &&& reports.len() >= 1
    &&& fragment_start(reports.len(), packet_len) >= payload.len()
    &&& reports.len() > 1 ==> fragment_start((reports.len() - 1) as nat, packet_len) < payload.len()
    &&& reports[0] == seq![0u8] + init_frame(channel_id, command, payload, packet_len)
    &&& forall|k: int|
        1 <= k < reports.len() ==> #[trigger] reports[k] == seq![0u8] + cont_frame(
            channel_id,
            (k % 256) as u8,
            payload,
            fragment_start(k as nat, packet_len),
            packet_len,
        )
}

pub open spec fn report_views(reports: Seq<Vec<u8>>) -> Seq<Seq<u8>> {
    reports.map_values(|r: Vec<u8>| r@)
}

/// What sending `payload` as `command` on channel `channel_id` with `packet_len`-byte reports
/// gives: the reports to write, or why there are none.
pub open spec fn request_outcome(
    channel_id: u32,
    packet_len: nat,
    command: u8,
    payload: Seq<u8>,
    r: Result<Vec<Vec<u8>>, ErrorKind>,
) -> bool {
    if payload.len() >= MAX_REQUEST_LEN {
        r == Err::<Vec<Vec<u8>>, ErrorKind>(ErrorKind::RequestTooLong)
    } else if packet_len <= 7 {
        r == Err::<Vec<Vec<u8>>, ErrorKind>(ErrorKind::HidPacketTooSmall)
    } else {
        r matches Ok(reports) && is_report_sequence(
            report_views(reports@),
            channel_id,
            command,
            payload,
            packet_len,
        )
    }
}

/// The header fields and first fragment of an initialization packet.
#[derive(Debug, Clone, PartialEq)]
pub struct HidInitPacket {
    pub channel_id: u32,
    pub command: u8,
    pub len: usize,
    pub payload: Vec<u8>,
}

/// The header fields and fragment of a continuation packet.
#[derive(Debug, Clone, PartialEq)]
pub struct HidContPacket {
    pub channel_id: u32,
    pub seq: u8,
    pub payload: Vec<u8>,
}

#[derive(Debug, Clone, PartialEq)]
pub enum HidPacket {
    Init(HidInitPacket),
    Cont(HidContPacket),
}

pub open spec fn packet_too_small(data: Seq<u8>, frame_size: nat) -> bool {
    frame_size <= 7 || data.len() < frame_size
}

/// `p` holds the header fields and first fragment of the initialization packet `data`.
pub open spec fn init_packet_of(data: Seq<u8>, frame_size: nat, p: HidInitPacket) -> bool {
    p.channel_id == be32_at(data, 0) && p.command == data[4] && p.len == data[5] * 256 + data[6]
        && p.payload@ == data.subrange(7, frame_size as int)
}

/// `p` holds the header fields and fragment of the continuation packet `data`.
pub open spec fn cont_packet_of(data: Seq<u8>, frame_size: nat, p: HidContPacket) -> bool {
    p.channel_id == be32_at(data, 0) && p.seq == data[4] && p.payload@ == data.subrange(
        5,
        frame_size as int,
    )
}

/// A packet of `frame_size` bytes read from `data`.
pub open spec fn parsed_packet(data: Seq<u8>, frame_size: nat, r: Result<HidPacket, ErrorKind>) -> bool {
    if packet_too_small(data, frame_size) {
        r == Err::<HidPacket, ErrorKind>(ErrorKind::HidPacketTooSmall)
    } else if data[4] >= 0x80 {
        r matches Ok(HidPacket::Init(p)) && init_packet_of(data, frame_size, p)
    } else {
        r matches Ok(HidPacket::Cont(p)) && cont_packet_of(data, frame_size, p)
    }
}

/// Reads one packet of `frame_size` bytes; the high bit of its fifth byte tells an
/// initialization packet from a continuation packet.
pub fn parse_packet(data: &[u8], frame_size: usize) -> (r: Result<HidPacket, ErrorKind>)
    ensures
        parsed_packet(data@, frame_size as nat, r),
{
    if frame_size <= 7 {
        return Err(ErrorKind::HidPacketTooSmall);
    }
    if data.len() < frame_size {
        return Err(ErrorKind::HidPacketTooSmall);
    }
    let channel_id = (data[0] as u32) * 0x1000000 + (data[1] as u32) * 0x10000 + (data[2] as u32)
        * 0x100 + (data[3] as u32);
    let command_or_seq = data[4];
    if command_or_seq >= 0x80 {
        let len = (data[5] as usize) * 256 + (data[6] as usize);
        let mut payload: Vec<u8> = Vec::new();
        copy_buffer(data, 7, &mut payload, frame_size - 7);
        proof {
            assert(payload@ =~= data@.subrange(7, frame_size as int));
        }
        Ok(HidPacket::Init(HidInitPacket { channel_id, command: command_or_seq, len, payload }))
    } else {
        let mut payload: Vec<u8> = Vec::new();
        copy_buffer(data, 5, &mut payload, frame_size - 5);
        proof {
            assert(payload@ =~= data@.subrange(5, frame_size as int));
        }
        Ok(HidPacket::Cont(HidContPacket { channel_id, seq: command_or_seq, payload }))
    }
}

/// Reads an initialization packet; a continuation packet is `UnexpectedPacket`.
pub fn parse_init_packet(data: &[u8], frame_size: usize) -> (r: Result<HidInitPacket, ErrorKind>)
    ensures
        packet_too_small(data@, frame_size as nat) ==> r == Err::<HidInitPacket, ErrorKind>(
            ErrorKind::HidPacketTooSmall,
        ),
        !packet_too_small(data@, frame_size as nat) && data@[4] < 0x80 ==> r == Err::<
            HidInitPacket,
            ErrorKind,
        >(ErrorKind::UnexpectedPacket),
        !packet_too_small(data@, frame_size as nat) && data@[4] >= 0x80 ==> (r matches Ok(p) && init_packet_of(
            data@,
            frame_size as nat,
            p,
        )),
{
    match parse_packet(data, frame_size)? {
        HidPacket::Init(p) => Ok(p),
        _ => Err(ErrorKind::UnexpectedPacket),
    }
}

/// Reads a continuation packet; an initialization packet is `UnexpectedPacket`.
pub fn parse_cont_packet(data: &[u8], frame_size: usize) -> (r: Result<HidContPacket, ErrorKind>)
    ensures
        packet_too_small(data@, frame_size as nat) ==> r == Err::<HidContPacket, ErrorKind>(
            ErrorKind::HidPacketTooSmall,
        ),
        !packet_too_small(data@, frame_size as nat) && data@[4] >= 0x80 ==> r == Err::<
            HidContPacket,
            ErrorKind,
        >(ErrorKind::UnexpectedPacket),
        !packet_too_small(data@, frame_size as nat) && data@[4] < 0x80 ==> (r matches Ok(p) && cont_packet_of(
            data@,
            frame_size as nat,
            p,
        )),
{
    match parse_packet(data, frame_size)? {
        HidPacket::Cont(p) => Ok(p),
        _ => Err(ErrorKind::UnexpectedPacket),
    }
}

impl U2fDevice {
    /// A channel that has not been through Init yet.
    pub fn new(packet_size: usize) -> (r: U2fDevice)
        ensures
            r.packet_size == packet_size,
            r.channel_id == BROADCAST_CID,
            r.u2f_info is None,
    {
        U2fDevice { packet_size, channel_id: BROADCAST_CID, u2f_info: None }
    }

    /// The reports that carry `request_data` as `command` on this channel.
    pub fn request_reports(&self, command: U2fHidCommand, request_data: &[u8]) -> (r: Result<
        Vec<Vec<u8>>,
        ErrorKind,
    >)
        ensures
            request_outcome(
                self.channel_id,
                self.packet_size as nat,
                command.spec_code(),
                request_data@,
                r,
            ),
    {
        let n = request_data.len();
        if n >= MAX_REQUEST_LEN {
            return Err(ErrorKind::RequestTooLong);
        }
        if self.packet_size <= 7 {
            return Err(ErrorKind::HidPacketTooSmall);
        }
        let packet_len = self.packet_size;
        let ghost p = packet_len as nat;
        let mut reports: Vec<Vec<u8>> = Vec::new();
        let mut first: Vec<u8> = Vec::new();
        first.push(0);
        let mut offset = prepare_init_packet(&mut first, self.channel_id, command, request_data, packet_len);
        proof {
            assert(first@ =~= seq![0u8] + init_frame(self.channel_id, command.spec_code(), request_data@, p));
        }
        reports.push(first);
        let mut k: usize = 1;
        while offset < n
            invariant
                packet_len > 7,
                p == packet_len,
                n == request_data@.len(),
                n < MAX_REQUEST_LEN,
                1 <= k,
                k as int <= fragment_start(k as nat, p),
                reports@.len() == k,
                offset <= n,
                offset == min(fragment_start(k as nat, p), n as int),
                k > 1 ==> fragment_start((k - 1) as nat, p) < n,
                reports@[0]@ == seq![0u8] + init_frame(self.channel_id, command.spec_code(), request_data@, p),
                forall|j: int|
                    1 <= j < k ==> #[trigger] reports@[j]@ == seq![0u8] + cont_frame(
                        self.channel_id,
                        (j % 256) as u8,
                        request_data@,
                        fragment_start(j as nat, p),
                        p,
                    ),
            decreases n - offset,
        {
            let mut rep: Vec<u8> = Vec::new();
            rep.push(0);
            let copied = prepare_cont_packet(
                &mut rep,
                self.channel_id,
                (k % 256) as u8,
                request_data,
                offset,
                packet_len,
            );
            proof {
                assert(rep@ =~= seq![0u8] + cont_frame(
                    self.channel_id,
                    (k % 256) as u8,
                    request_data@,
                    fragment_start(k as nat, p),
                    p,
                ));
            }
            reports.push(rep);
            offset = offset + copied;
            k = k + 1;
            proof {
                assert(fragment_start(k as nat, p) == fragment_start((k - 1) as nat, p) + (p - 5));
            }
        }
        proof {
            let views = report_views(reports@);
            assert(views.len() == k);
            assert(views[0] == reports@[0]@);
            assert forall|j: int| 1 <= j < views.len() implies #[trigger] views[j] == seq![0u8] + cont_frame(
                self.channel_id,
                (j % 256) as u8,
                request_data@,
                fragment_start(j as nat, p),
                p,
            ) by {
                assert(views[j] == reports@[j]@);
            }
        }
        Ok(reports)
    }
}

/// One report's effect on a reassembly that has seen the command byte `received` (none
/// before the initialization report), still expects `remaining` payload bytes and holds
/// `data`: the new command byte, count and data, or why the report is refused.
pub open spec fn reassembly_step(
    channel_id: u32,
    packet_len: nat,
    received: Option<u8>,
    remaining: nat,
    data: Seq<u8>,
    report: Seq<u8>,
) -> Result<(u8, nat, Seq<u8>), ErrorKind> {
    if packet_too_small(report, packet_len) {
        Err(ErrorKind::HidPacketTooSmall)
    } else {
        match received {
            None => if report[4] < 0x80 {
                Err(ErrorKind::UnexpectedPacket)
            } else if be32_at(report, 0) != channel_id {
                Err(ErrorKind::UnknownChannelId)
            } else {
                let len = report[5] * 256 + report[6];
                let take = min(packet_len - 7, len);
                Ok((report[4], (len - take) as nat, report.subrange(7, 7 + take)))
            },
            Some(c) => if report[4] >= 0x80 {
                Err(ErrorKind::UnexpectedPacket)
            } else {
                let take = min(packet_len - 5, remaining as int);
                Ok((c, (remaining - take) as nat, data + report.subrange(5, 5 + take)))
            },
        }
    }
}

/// Why a complete message whose initialization report carried the command byte `received`
/// is refused when `expected` was asked for: an Error message gives the token's error code.
pub open spec fn completion_error(expected: u8, received: u8, payload: Seq<u8>) -> Option<ErrorKind> {
    if received == expected {
        None
    } else if received == 0xbf && payload.len() > 0 {
        Some(ErrorKind::HidError(payload[0]))
    } else {
        Some(ErrorKind::UnknownHidCommand(received))
    }
}

/// Collects the reports of one response message on a channel.
pub struct ResponseAssembler {
    pub channel_id: u32,
    pub packet_size: usize,
    pub command: U2fHidCommand,
    pub received: Option<u8>,
    pub remaining: usize,
    pub data: Vec<u8>,
}

impl ResponseAssembler {
    pub open spec fn is_complete(&self) -> bool {
        self.received is Some && self.remaining == 0
    }

    /// A reassembly of a response to `command` on `channel_id` that has seen no report yet.
    pub fn new(channel_id: u32, packet_size: usize, command: U2fHidCommand) -> (r: ResponseAssembler)
        ensures
            r.channel_id == channel_id,
            r.packet_size == packet_size,
            r.command == command,
            r.received is None,
            r.data@.len() == 0,
    {
        ResponseAssembler {
            channel_id,
            packet_size,
            command,
            received: None,
            remaining: 0,
            data: Vec::new(),
        }
    }

    /// Takes in one report as read from the device. `Ok(true)` means the message is complete
    /// and in `data`; `Ok(false)` that more continuation reports are owed.
    pub fn accept_report(&mut self, report: &[u8]) -> (r: Result<bool, ErrorKind>)
        requires
            !old(self).is_complete(),
        ensures
            final(self).channel_id == old(self).channel_id,
            final(self).packet_size == old(self).packet_size,
            final(self).command == old(self).command,
            match reassembly_step(
                old(self).channel_id,
                old(self).packet_size as nat,
                old(self).received,
                old(self).remaining as nat,
                old(self).data@,
                report@,
            ) {
                Err(e) => r == Err::<bool, ErrorKind>(e),
                Ok((c, rem, d)) => {
                    &&& final(self).received == Some(c)
                    &&& final(self).remaining == rem
                    &&& final(self).data@ == d
                    &&& if rem > 0 {
                        r == Ok::<bool, ErrorKind>(false)
                    } else {
                        match completion_error(old(self).command.spec_code(), c, d) {
                            Some(e) => r == Err::<bool, ErrorKind>(e),
                            None => r == Ok::<bool, ErrorKind>(true),
                        }
                    }
                },
            },
    {
        match self.received {
            None => {
                let frame = parse_init_packet(report, self.packet_size)?;
                if frame.channel_id != self.channel_id {
                    return Err(ErrorKind::UnknownChannelId);
                }
                let take = if frame.payload.len() < frame.len {
                    frame.payload.len()
                } else {
                    frame.len
                };
                let mut data: Vec<u8> = Vec::new();
                copy_buffer(frame.payload.as_slice(), 0, &mut data, take);
                proof {
                    assert(data@ =~= report@.subrange(7, 7 + take));
                }
                self.data = data;
                self.received = Some(frame.command);
                self.remaining = frame.len - take;
            },
            Some(_) => {
                let frame = parse_cont_packet(report, self.packet_size)?;
                let take = if frame.payload.len() < self.remaining {
                    frame.payload.len()
                } else {
                    self.remaining
                };
                let ghost before = self.data@;
                copy_buffer(frame.payload.as_slice(), 0, &mut self.data, take);
                proof {
                    assert(self.data@ =~= before + report@.subrange(5, 5 + take));
                }
                self.remaining = self.remaining - take;
            },
        }
        if self.remaining > 0 {
            return Ok(false);
        }
        let received = match self.received {
            Some(c) => c,
            None => 0,
        };
        if received == self.command.code() {
            Ok(true)
        } else if received == U2fHidCommand::Error.code() && self.data.len() > 0 {
            Err(ErrorKind::HidError(self.data[0]))
        } else {
            Err(ErrorKind::UnknownHidCommand(received))
        }
    }
}

/// The device information carried by an Init response after the nonce and channel id.
pub open spec fn device_info_of(response: Seq<u8>) -> U2fDeviceInfo {
    U2fDeviceInfo {
        protocol_version: response[12],
        major_device_version: response[13],
        minor_device_version: response[14],
        build_device_version: response[15],
        raw_capabilities: response[16],
    }
}

/// Relies on rand::random: a byte drawn from the thread-local generator, which is seeded from
/// the operating system. Nothing is promised of its value.
#[verifier::external_body]
fn random_byte() -> u8 {
    rand::random::<u8>()
}

impl U2fDevice {
    /// Eight random bytes for an Init request.
    pub fn nonce() -> (r: Vec<u8>)
        ensures
            r@.len() == 8,
    {
        let mut nonce: Vec<u8> = Vec::new();
        let mut i: usize = 0;
        while i < 8
            invariant
                i <= 8,
                nonce@.len() == i,
            decreases 8 - i,
        {
            nonce.push(random_byte());
            i = i + 1;
        }
        nonce
    }

    /// Starts the Init handshake: the channel returns to the broadcast id, and the result is
    /// the reports that carry `nonce` as an Init request.
    pub fn init_request(&mut self, nonce: &[u8]) -> (r: Result<Vec<Vec<u8>>, ErrorKind>)
        ensures
            final(self).packet_size == old(self).packet_size,
            final(self).channel_id == BROADCAST_CID,
            final(self).u2f_info == old(self).u2f_info,
            request_outcome(
                BROADCAST_CID,
                old(self).packet_size as nat,
                U2fHidCommand::Init.spec_code(),
                nonce@,
                r,
            ),
    {
        self.channel_id = BROADCAST_CID;
        self.request_reports(U2fHidCommand::Init, nonce)
    }

    /// Takes in one complete Init response. One that answers another nonce is passed over
    /// (`Ok(false)`, nothing changes); the one that answers `nonce` sets the channel id and
    /// the device information (`Ok(true)`).
    pub fn accept_init_response(&mut self, nonce: &[u8], response: &[u8]) -> (r: Result<
        bool,
        ErrorKind,
    >)
        ensures
            final(self).packet_size == old(self).packet_size,
            response@.len() < 17 ==> r == Err::<bool, ErrorKind>(ErrorKind::InitResponseTooSmall)
                && *final(self) == *old(self),
            response@.len() >= 17 && response@.subrange(0, 8) != nonce@ ==> r == Ok::<
                bool,
                ErrorKind,
            >(false) && *final(self) == *old(self),
            response@.len() >= 17 && response@.subrange(0, 8) == nonce@ ==> r == Ok::<
                bool,
                ErrorKind,
            >(true) && final(self).channel_id == be32_at(response@, 8) && final(self).u2f_info
                == Some(device_info_of(response@)),
    {
        if response.len() < 17 {
            return Err(ErrorKind::InitResponseTooSmall);
        }
        if !bytes_equal(slice_subrange(response, 0, 8), nonce) {
            return Ok(false);
        }
        self.channel_id = (response[8] as u32) * 0x1000000 + (response[9] as u32) * 0x10000
            + (response[10] as u32) * 0x100 + (response[11] as u32);
        self.u2f_info = Some(
            U2fDeviceInfo {
                protocol_version: response[12],
                major_device_version: response[13],
                minor_device_version: response[14],
                build_device_version: response[15],
                raw_capabilities: response[16],
            },
        );
        Ok(true)
    }
}

/// The state of a fresh reassembly on `channel_id` after the first `k` of `frames`, or the
/// error one of them raised.
pub open spec fn reassembly_after(
    channel_id: u32,
    packet_len: nat,
    frames: Seq<Seq<u8>>,
    k: nat,
) -> Result<(Option<u8>, nat, Seq<u8>), ErrorKind>
    decreases k,
{
    if k == 0 {
        Ok((None, 0, Seq::empty()))
    } else {
        match reassembly_after(channel_id, packet_len, frames, (k - 1) as nat) {
            Err(e) => Err(e),
            Ok((c, rem, d)) => match reassembly_step(
                channel_id,
                packet_len,
                c,
                rem,
                d,
                frames[k - 1],
            ) {
                Err(e) => Err(e),
                Ok((c2, rem2, d2)) => Ok((Some(c2), rem2, d2)),
            },
        }
    }
}

/// Reports as the device hands them back: without the report id.
pub open spec fn strip_report_ids(reports: Seq<Seq<u8>>) -> Seq<Seq<u8>> {
    reports.map_values(|r: Seq<u8>| r.drop_first())
}

/// Fragments start further on in each report: `fragment_start` grows strictly with the
/// report's index, and is at least that index.
pub proof fn lemma_fragment_start_grows(j: nat, k: nat, packet_len: nat)
    requires
        packet_len > 7,
        j < k,
    ensures
        fragment_start(j, packet_len) < fragment_start(k, packet_len),
        k as int <= fragment_start(k, packet_len),
    decreases k,
{
    if k == 1 {
    } else if j == k - 1 {
        lemma_fragment_start_grows(0, (k - 1) as nat, packet_len);
    } else {
        lemma_fragment_start_grows(j, (k - 1) as nat, packet_len);
    }
}

proof fn lemma_be32_round_trip(v: u32)
    ensures
        be32_at(be32_bytes(v), 0) == v,
{
    let x = v as int;
    let b = be32_bytes(v);
    lemma_fundamental_div_mod(x, 256);
    lemma_fundamental_div_mod(x / 256, 256);
    lemma_fundamental_div_mod(x / 0x10000, 256);
    lemma_div_denominator(x, 256, 256);
    lemma_div_denominator(x / 256, 256, 256);
    lemma_div_denominator(x, 256, 0x10000);
    assert(x / 0x1000000 < 256);
    assert(b[0] as int == x / 0x1000000);
    assert(b[1] as int == x / 0x10000 % 256);
    assert(b[2] as int == x / 0x100 % 256);
    assert(b[3] as int == x % 256);
    assert(x / 256 / 256 / 256 == x / 0x1000000);
    assert(b[0] * 0x1000000 + b[1] * 0x10000 + b[2] * 0x100 + b[3] == x) by (nonlinear_arith)
        requires
            x == 256 * (x / 256) + x % 256,
            x / 256 == 256 * (x / 256 / 256) + (x / 256) % 256,
            x / 256 / 256 == x / 0x10000,
            x / 0x10000 == 256 * (x / 0x10000 / 256) + (x / 0x10000) % 256,
            x / 0x10000 / 256 == x / 0x1000000,
            b[0] as int == x / 0x1000000,
            b[1] as int == x / 0x10000 % 256,
            b[2] as int == x / 0x100 % 256,
            b[3] as int == x % 256,
    ;
}

/// The reports that carry a message, handed back without their report ids to a fresh
/// reassembly for the same channel, give back the message: after each report but the last
/// the reassembly holds the payload so far and waits for more, and after the last it holds
/// the whole payload under the command it was sent as. This holds while the payload fits in
/// an initialization and 127 continuation reports, so that no sequence number has its high
/// bit set (7550 bytes with 64-byte reports).
pub proof fn lemma_framing_round_trip(
    channel_id: u32,
    command: U2fHidCommand,
    payload: Seq<u8>,
    packet_len: nat,
    reports: Seq<Seq<u8>>,
)
    requires
        packet_len > 7,
        payload.len() < MAX_REQUEST_LEN,
        is_report_sequence(reports, channel_id, command.spec_code(), payload, packet_len),
        payload.len() <= fragment_start(128, packet_len),
    ensures
        forall|k: nat|
            1 <= k < reports.len() ==> #[trigger] reassembly_after(
                channel_id,
                packet_len,
                strip_report_ids(reports),
                k,
            ) == Ok::<(Option<u8>, nat, Seq<u8>), ErrorKind>(
                (
                    Some(command.spec_code()),
                    (payload.len() - fragment_start(k, packet_len)) as nat,
                    payload.subrange(0, fragment_start(k, packet_len)),
                ),
            ) && fragment_start(k, packet_len) < payload.len(),
        reassembly_after(channel_id, packet_len, strip_report_ids(reports), reports.len())
            == Ok::<(Option<u8>, nat, Seq<u8>), ErrorKind>(
            (Some(command.spec_code()), 0nat, payload),
        ),
        completion_error(command.spec_code(), command.spec_code(), payload) is None,
{
    let n = payload.len() as int;
    let len = reports.len();
    let frames = strip_report_ids(reports);
    let code = command.spec_code();
    lemma_be32_round_trip(channel_id);
    if len > 128 {
        lemma_fragment_start_grows(128, (len - 1) as nat, packet_len);
    }
    // the state after `k` frames, with `fragment_start(k)` clipped to the payload
    assert forall|k: nat| 1 <= k <= len implies #[trigger] reassembly_after(
        channel_id,
        packet_len,
        frames,
        k,
    ) == Ok::<(Option<u8>, nat, Seq<u8>), ErrorKind>(
        (
            Some(code),
            (n - min(fragment_start(k, packet_len), n)) as nat,
            payload.subrange(0, min(fragment_start(k, packet_len), n)),
        ),
    ) by {
        lemma_reassembly_prefix(channel_id, command, payload, packet_len, reports, k);
    }
    assert forall|k: nat| 1 <= k < len implies fragment_start(k, packet_len) < n by {
        if k < len - 1 {
            lemma_fragment_start_grows(k, (len - 1) as nat, packet_len);
        }
    }
    assert(payload.subrange(0, n) =~= payload);
}

proof fn lemma_init_step(channel_id: u32, code: u8, payload: Seq<u8>, packet_len: nat)
    requires
        packet_len > 7,
        payload.len() < MAX_REQUEST_LEN,
        code >= 0x80,
        be32_at(be32_bytes(channel_id), 0) == channel_id,
    ensures
        reassembly_step(
            channel_id,
            packet_len,
            None,
            0,
            Seq::empty(),
            init_frame(channel_id, code, payload, packet_len),
        ) == Ok::<(u8, nat, Seq<u8>), ErrorKind>(
            (
                code,
                (payload.len() - min(packet_len - 7, payload.len() as int)) as nat,
                payload.subrange(0, min(packet_len - 7, payload.len() as int)),
            ),
        ),
{
    let n = payload.len() as int;
    let f = init_frame(channel_id, code, payload, packet_len);
    let take = min(packet_len - 7, n);
    assert(f.subrange(0, 4) =~= be32_bytes(channel_id));
    assert(be32_at(f, 0) == be32_at(be32_bytes(channel_id), 0));
    assert(f[4] == code);
    assert(f[5] == (n / 256) as u8 && f[6] == (n % 256) as u8);
    assert(f[5] * 256 + f[6] == n);
    assert(f.subrange(7, 7 + take) =~= payload.subrange(0, take));
}

proof fn lemma_cont_step(
    channel_id: u32,
    code: u8,
    seq_no: u8,
    payload: Seq<u8>,
    start: int,
    packet_len: nat,
)
    requires
        packet_len > 7,
        0 <= start < payload.len(),
        seq_no < 0x80,
        be32_at(be32_bytes(channel_id), 0) == channel_id,
    ensures
        reassembly_step(
            channel_id,
            packet_len,
            Some(code),
            (payload.len() - start) as nat,
            payload.subrange(0, start),
            cont_frame(channel_id, seq_no, payload, start, packet_len),
        ) == Ok::<(u8, nat, Seq<u8>), ErrorKind>(
            (
                code,
                (payload.len() - min(start + (packet_len - 5), payload.len() as int)) as nat,
                payload.subrange(0, min(start + (packet_len - 5), payload.len() as int)),
            ),
        ),
{
    let n = payload.len() as int;
    let f = cont_frame(channel_id, seq_no, payload, start, packet_len);
    let take = min(packet_len - 5, n - start);
    assert(f[4] == seq_no);
    assert(f.subrange(5, 5 + take) =~= payload.subrange(start, start + take));
    assert(payload.subrange(0, start) + payload.subrange(start, start + take) =~= payload.subrange(
        0,
        start + take,
    ));
}

proof fn lemma_reassembly_prefix(
    channel_id: u32,
    command: U2fHidCommand,
    payload: Seq<u8>,
    packet_len: nat,
    reports: Seq<Seq<u8>>,
    k: nat,
)
    requires
        packet_len > 7,
        payload.len() < MAX_REQUEST_LEN,
        is_report_sequence(reports, channel_id, command.spec_code(), payload, packet_len),
        reports.len() <= 128,
        1 <= k <= reports.len(),
        be32_at(be32_bytes(channel_id), 0) == channel_id,
    ensures
        reassembly_after(channel_id, packet_len, strip_report_ids(reports), k) == Ok::<
            (Option<u8>, nat, Seq<u8>),
            ErrorKind,
        >(
            (
                Some(command.spec_code()),
                (payload.len() - min(fragment_start(k, packet_len), payload.len() as int)) as nat,
                payload.subrange(0, min(fragment_start(k, packet_len), payload.len() as int)),
            ),
        ),
    decreases k,
{
    let n = payload.len() as int;
    let frames = strip_report_ids(reports);
    let code = command.spec_code();
    if k == 1 {
        assert(frames[0] =~= init_frame(channel_id, code, payload, packet_len));
        lemma_init_step(channel_id, code, payload, packet_len);
    } else {
        lemma_reassembly_prefix(channel_id, command, payload, packet_len, reports, (k - 1) as nat);
        let j = (k - 1) as int;
        let start = fragment_start(j as nat, packet_len);
        if j < reports.len() - 1 {
            lemma_fragment_start_grows(j as nat, (reports.len() - 1) as nat, packet_len);
        }
        lemma_fragment_start_grows(0, j as nat, packet_len);
        assert(reports[j] == seq![0u8] + cont_frame(
            channel_id,
            (j % 256) as u8,
            payload,
            start,
            packet_len,
        ));
        assert(frames[j] =~= cont_frame(channel_id, (j % 256) as u8, payload, start, packet_len));
        lemma_cont_step(channel_id, code, (j % 256) as u8, payload, start, packet_len);
        assert(fragment_start(k, packet_len) == start + (packet_len - 5));
    }
}

} // verus!
