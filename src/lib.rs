pub mod api;
pub mod error;
pub mod raw;
pub mod rp_api;
pub mod usb;

use vstd::prelude::*;

use vstd::slice::slice_subrange;

use crate::error::ErrorKind;
use crate::raw::frame::{
    bytes_equal, decoded, extended_v1_wire, write_bytes, CommandAPDU, Decoder,
    ExtendedEncoderV1, RequestEncoder, ResponseDecoder, U2fCommand,
};
use crate::usb::hid::be32_at;

verus! {

pub const TEST_USER_PRESENCE_REQUIRED: u8 = 1;

pub const TEST_USER_PRESENCE_CONSUME: u8 = 2;

pub const TEST_USER_PRESENCE_TEST_ONLY: u8 = 4;

pub const AUTH_USER_PRESENCE_ENFORCE: u8 = TEST_USER_PRESENCE_REQUIRED | TEST_USER_PRESENCE_CONSUME;

pub const AUTH_USER_PRESENCE_CHECK: u8 = TEST_USER_PRESENCE_REQUIRED | TEST_USER_PRESENCE_CONSUME
    | TEST_USER_PRESENCE_TEST_ONLY;

#[derive(Debug, Clone, Copy, PartialEq, Eq, Structural)]
pub enum U2fVersion {
    V2,
}

/// A parsed registration: the new key, its handle, the attestation certificate and the
/// attestation signature.
#[derive(Debug, Clone, PartialEq)]
pub struct RegisterResponse {
    pub user_public_key: Vec<u8>,
    pub key_handle: Vec<u8>,
    pub attestation_cert: Vec<u8>,
    pub signature: Vec<u8>,
}

/// A parsed authentication: the token's counter and its signature.
#[derive(Debug, Clone, PartialEq)]
pub struct AuthenticateResponse {
    pub counter: u32,
    pub signature: Vec<u8>,
}

/// The error a status word stands for, if any: `0x6985` asks for the user's presence.
pub open spec fn status_error(sw: u16) -> Option<ErrorKind> {
    if sw == 0x9000 {
        None
    } else if sw == 0x6985 {
        Some(ErrorKind::UserPresenceRequired)
    } else {
        Some(ErrorKind::FramingError(crate::raw::error::ErrorKind::ErrorStatus(sw)))
    }
}

/// The data of a response APDU whose status is `NoError`, or the error the frame stands for.
pub open spec fn response_payload(frame: Seq<u8>) -> Result<Seq<u8>, ErrorKind> {
    match decoded(frame) {
        Err(e) => Err(ErrorKind::FramingError(e)),
        Ok((data, sw)) => match status_error(sw) {
            Some(e) => Err(e),
            None => Ok(data),
        },
    }
}

/// Decodes a response APDU and checks its status word.
pub fn check_response(frame: &[u8]) -> (r: Result<Vec<u8>, ErrorKind>)
    ensures
        match response_payload(frame@) {
            Ok(d) => r matches Ok(v) && v@ == d,
            Err(e) => r == Err::<Vec<u8>, ErrorKind>(e),
        },
{
    let response = match Decoder::decode(frame) {
        Ok(response) => response,
        Err(e) => return Err(ErrorKind::FramingError(e)),
    };
    if response.status == 0x9000 {
        Ok(response.response_data)
    } else if response.status == 0x6985 {
        Err(ErrorKind::UserPresenceRequired)
    } else {
        Err(ErrorKind::FramingError(crate::raw::error::ErrorKind::ErrorStatus(response.status)))
    }
}

fn encode_v1(cmd: CommandAPDU) -> (r: Vec<u8>)
    requires
        cmd.request_data@.len() <= 65535,
        cmd.le matches Some(le) ==> 1 <= le <= 65536,
    ensures
        r@ == extended_v1_wire(cmd),
{
    let mut bb: Vec<u8> = Vec::new();
    let _ = ExtendedEncoderV1::encode(&mut bb, cmd);
    proof {
        assert(bb@ =~= extended_v1_wire(cmd));
    }
    bb
}

/// The command APDU of a Register request.
pub fn register_request(challenge_param: &[u8], application_param: &[u8]) -> (r: Result<
    Vec<u8>,
    ErrorKind,
>)
    ensures
        challenge_param@.len() != 32 ==> r == Err::<Vec<u8>, ErrorKind>(
            ErrorKind::InvalidChallengeParameter,
        ),
        challenge_param@.len() == 32 && application_param@.len() != 32 ==> r == Err::<
            Vec<u8>,
            ErrorKind,
        >(ErrorKind::InvalidApplicationParameter),
        challenge_param@.len() == 32 && application_param@.len() == 32 ==> (r matches Ok(apdu)
            && apdu@ == seq![0u8, 0x01, AUTH_USER_PRESENCE_ENFORCE, 0, 0, 0, 64] + challenge_param@
            + application_param@),
{
    if challenge_param.len() != 32 {
        return Err(ErrorKind::InvalidChallengeParameter);
    }
    if application_param.len() != 32 {
        return Err(ErrorKind::InvalidApplicationParameter);
    }
    let mut data: Vec<u8> = Vec::new();
    write_bytes(&mut data, challenge_param);
    write_bytes(&mut data, application_param);
    let cmd = CommandAPDU::new(U2fCommand::Register, AUTH_USER_PRESENCE_ENFORCE, 0, data, Some(256));
    let apdu = encode_v1(cmd);
    proof {
        assert(apdu@ =~= seq![0u8, 0x01, AUTH_USER_PRESENCE_ENFORCE, 0, 0, 0, 64] + challenge_param@
            + application_param@);
    }
    Ok(apdu)
}

/// The command APDU of an Authenticate request.
pub fn authenticate_request(
    challenge_param: &[u8],
    application_param: &[u8],
    key_handle: &[u8],
) -> (r: Result<Vec<u8>, ErrorKind>)
    ensures
        challenge_param@.len() != 32 ==> r == Err::<Vec<u8>, ErrorKind>(
            ErrorKind::InvalidChallengeParameter,
        ),
        challenge_param@.len() == 32 && application_param@.len() != 32 ==> r == Err::<
            Vec<u8>,
            ErrorKind,
        >(ErrorKind::InvalidApplicationParameter),
        challenge_param@.len() == 32 && application_param@.len() == 32 && key_handle@.len() >= 256
            ==> r == Err::<Vec<u8>, ErrorKind>(ErrorKind::KeyHandleTooLong),
        challenge_param@.len() == 32 && application_param@.len() == 32 && key_handle@.len() < 256
            ==> (r matches Ok(apdu) && apdu@ == seq![
            0u8,
            0x02,
            AUTH_USER_PRESENCE_ENFORCE,
            0,
            0,
            ((65 + key_handle@.len()) / 256) as u8,
            ((65 + key_handle@.len()) % 256) as u8,
        ] + challenge_param@ + application_param@ + seq![key_handle@.len() as u8] + key_handle@),
{
    if challenge_param.len() != 32 {
        return Err(ErrorKind::InvalidChallengeParameter);
    }
    if application_param.len() != 32 {
        return Err(ErrorKind::InvalidApplicationParameter);
    }
    if key_handle.len() >= 256 {
        return Err(ErrorKind::KeyHandleTooLong);
    }
    let mut data: Vec<u8> = Vec::new();
    write_bytes(&mut data, challenge_param);
    write_bytes(&mut data, application_param);
    data.push(key_handle.len() as u8);
    write_bytes(&mut data, key_handle);
    let cmd = CommandAPDU::new(
        U2fCommand::Authenticate,
        AUTH_USER_PRESENCE_ENFORCE,
        0,
        data,
        Some(256),
    );
    let apdu = encode_v1(cmd);
    proof {
        assert(apdu@ =~= seq![
            0u8,
            0x02,
            AUTH_USER_PRESENCE_ENFORCE,
            0,
            0,
            ((65 + key_handle@.len()) / 256) as u8,
            ((65 + key_handle@.len()) % 256) as u8,
        ] + challenge_param@ + application_param@ + seq![key_handle@.len() as u8] + key_handle@);
    }
    Ok(apdu)
}

/// The command APDU of a Version request.
pub fn version_request() -> (r: Vec<u8>)
    ensures
        r@ == seq![0u8, 0x03, 0, 0, 0, 0, 0],
{
    let cmd = CommandAPDU::new(U2fCommand::Version, 0, 0, Vec::new(), Some(256));
    let apdu = encode_v1(cmd);
    proof {
        assert(apdu@ =~= seq![0u8, 0x03, 0, 0, 0, 0, 0]);
    }
    apdu
}

/// The length of the DER element of type SEQUENCE that `b` starts with (header included), if
/// `b` starts with one in definite form with a length of at most two bytes, and holds it whole.
pub open spec fn der_sequence_len(b: Seq<u8>) -> Option<nat> {
    let total: int = if b.len() < 2 || b[0] != 0x30 {
        -1
    } else if b[1] < 0x80 {
        2 + b[1]
    } else if b[1] == 0x81 && b.len() >= 3 {
        3 + b[2]
    } else if b[1] == 0x82 && b.len() >= 4 {
        4 + b[2] * 256 + b[3]
    } else {
        -1
    };
    if 0 <= total <= b.len() {
        Some(total as nat)
    } else {
        None
    }
}

/// The length of the certificate that `bytes` starts with: a certificate is one DER
/// SEQUENCE, so its header gives where it ends and what follows it begins.
pub fn cert_len(bytes: &[u8]) -> (r: Option<usize>)
    ensures
        match der_sequence_len(bytes@) {
            Some(n) => r == Some(n as usize),
            None => r is None,
        },
{
    let n = bytes.len();
    if n < 2 || bytes[0] != 0x30 {
        return None;
    }
    let b1 = bytes[1];
    let total: usize = if b1 < 0x80 {
        2 + b1 as usize
    } else if b1 == 0x81 && n >= 3 {
        3 + bytes[2] as usize
    } else if b1 == 0x82 && n >= 4 {
        4 + (bytes[2] as usize) * 256 + bytes[3] as usize
    } else {
        return None;
    };
    if total <= n {
        Some(total)
    } else {
        None
    }
}

/// The four parts of a registration message: public key, key handle, attestation
/// certificate and signature, or `None` where the message is malformed.
pub open spec fn registration_fields(d: Seq<u8>) -> Option<(Seq<u8>, Seq<u8>, Seq<u8>, Seq<u8>)> {
    if d.len() < 67 || d[0] != 0x05 {
        None
    } else {
        let l = d[66] as int;
        if d.len() - 67 <= l {
            None
        } else {
            let tail = d.subrange(67 + l, d.len() as int);
            match der_sequence_len(tail) {
                Some(c) => Some(
                    (
                        d.subrange(1, 66),
                        d.subrange(67, 67 + l),
                        tail.subrange(0, c as int),
                        tail.subrange(c as int, tail.len() as int),
                    ),
                ),
                None => None,
            }
        }
    }
}

fn copy_range(src: &[u8], from: usize, to: usize) -> (r: Vec<u8>)
    requires
        from <= to <= src@.len(),
    ensures
        r@ == src@.subrange(from as int, to as int),
{
    let mut v: Vec<u8> = Vec::new();
    write_bytes(&mut v, slice_subrange(src, from, to));
    v
}

/// Parses the data of a registration message.
pub fn parse_registration(d: &[u8]) -> (r: Result<RegisterResponse, ErrorKind>)
    ensures
        match registration_fields(d@) {
            None => r == Err::<RegisterResponse, ErrorKind>(ErrorKind::InvalidRegistrationResponse),
            Some((pk, kh, cert, sig)) => r matches Ok(reg) && reg.user_public_key@ == pk
                && reg.key_handle@ == kh && reg.attestation_cert@ == cert && reg.signature@ == sig,
        },
{
    let n = d.len();
    if n < 67 || d[0] != 0x05 {
        return Err(ErrorKind::InvalidRegistrationResponse);
    }
    let public_key = copy_range(d, 1, 66);
    let key_handle_len = d[66] as usize;
    if n - 67 <= key_handle_len {
        return Err(ErrorKind::InvalidRegistrationResponse);
    }
    let key_handle = copy_range(d, 67, 67 + key_handle_len);
    let remaining = slice_subrange(d, 67 + key_handle_len, n);
    let cert_length = match cert_len(remaining) {
        Some(c) => c,
        None => return Err(ErrorKind::InvalidRegistrationResponse),
    };
    let cert_bytes = copy_range(remaining, 0, cert_length);
    let signature = copy_range(remaining, cert_length, remaining.len());
    Ok(
        RegisterResponse {
            user_public_key: public_key,
            key_handle,
            attestation_cert: cert_bytes,
            signature,
        },
    )
}

/// Parses a response frame to a Register request.
pub fn register_response(frame: &[u8]) -> (r: Result<RegisterResponse, ErrorKind>)
    ensures
        match response_payload(frame@) {
            Err(e) => r == Err::<RegisterResponse, ErrorKind>(e),
            Ok(d) => match registration_fields(d) {
                None => r == Err::<RegisterResponse, ErrorKind>(
                    ErrorKind::InvalidRegistrationResponse,
                ),
                Some((pk, kh, cert, sig)) => r matches Ok(reg) && reg.user_public_key@ == pk
                    && reg.key_handle@ == kh && reg.attestation_cert@ == cert && reg.signature@
                    == sig,
            },
        },
{
    let data = check_response(frame)?;
    parse_registration(data.as_slice())
}

/// Parses the data of an authentication message: a user-presence byte, a big-endian
/// counter, and the signature.
pub fn parse_authentication(d: &[u8]) -> (r: Result<AuthenticateResponse, ErrorKind>)
    ensures
        d@.len() < 5 ==> r == Err::<AuthenticateResponse, ErrorKind>(
            ErrorKind::FramingError(crate::raw::error::ErrorKind::FrameTooSmall),
        ),
        d@.len() >= 5 ==> (r matches Ok(auth) && auth.counter == be32_at(d@, 1) && auth.signature@
            == d@.subrange(5, d@.len() as int)),
{
    let n = d.len();
    if n < 5 {
        return Err(ErrorKind::FramingError(crate::raw::error::ErrorKind::FrameTooSmall));
    }
    let counter = (d[1] as u32) * 0x1000000 + (d[2] as u32) * 0x10000 + (d[3] as u32) * 0x100
        + (d[4] as u32);
    let signature = copy_range(d, 5, n);
    Ok(AuthenticateResponse { counter, signature })
}

/// Parses a response frame to an Authenticate request.
pub fn authenticate_response(frame: &[u8]) -> (r: Result<AuthenticateResponse, ErrorKind>)
    ensures
        match response_payload(frame@) {
            Err(e) => r == Err::<AuthenticateResponse, ErrorKind>(e),
            Ok(d) => if d.len() < 5 {
                r == Err::<AuthenticateResponse, ErrorKind>(
                    ErrorKind::FramingError(crate::raw::error::ErrorKind::FrameTooSmall),
                )
            } else {
                r matches Ok(auth) && auth.counter == be32_at(d, 1) && auth.signature@
                    == d.subrange(5, d.len() as int)
            },
        },
{
    let data = check_response(frame)?;
    parse_authentication(data.as_slice())
}

/// The ASCII bytes of "U2F_V2".
pub open spec fn u2f_v2_bytes() -> Seq<u8> {
    seq![0x55u8, 0x32, 0x46, 0x5f, 0x56, 0x32]
}

/// Parses a response frame to a Version request: only "U2F_V2" is understood.
pub fn version_response(frame: &[u8]) -> (r: Result<U2fVersion, ErrorKind>)
    ensures
        match response_payload(frame@) {
            Err(e) => r == Err::<U2fVersion, ErrorKind>(e),
            Ok(d) => if d == u2f_v2_bytes() {
                r == Ok::<U2fVersion, ErrorKind>(U2fVersion::V2)
            } else {
                r == Err::<U2fVersion, ErrorKind>(ErrorKind::UnrecognisedVersion)
            },
        },
{
    let data = check_response(frame)?;
    let expected: Vec<u8> = vec![0x55u8, 0x32, 0x46, 0x5f, 0x56, 0x32];
    if bytes_equal(data.as_slice(), expected.as_slice()) {
        Ok(U2fVersion::V2)
    } else {
        Err(ErrorKind::UnrecognisedVersion)
    }
}

/// The string a token signs at registration:
/// `0x00 || app_param || challenge_param || key_handle || user_public_key`.
pub open spec fn registration_signing_string(
    app_param: Seq<u8>,
    challenge_param: Seq<u8>,
    key_handle: Seq<u8>,
    user_public_key: Seq<u8>,
) -> Seq<u8> {
    seq![0u8] + app_param + challenge_param + key_handle + user_public_key
}

/// Whether `der` parses as an X.509 end-entity certificate.
pub uninterp spec fn parses_as_end_entity_cert(der: Seq<u8>) -> bool;

/// Whether `signature` is an ECDSA P-256 SHA-256 signature of `msg` by the key of the
/// certificate whose DER encoding is `cert_der`.
pub uninterp spec fn ecdsa_p256_sha256_verifies(
    cert_der: Seq<u8>,
    msg: Seq<u8>,
    signature: Seq<u8>,
) -> bool;

/// A parsed end-entity certificate together with the DER bytes it was parsed from.
pub struct DerCert<'a> {
    cert: webpki::EndEntityCert<'a>,
    der: Ghost<Seq<u8>>,
}

impl<'a> DerCert<'a> {
    /// The DER bytes the certificate was parsed from.
    pub closed spec fn der(&self) -> Seq<u8> {
        self.der@
    }
}

/// Relies on webpki's `TryFrom<&[u8]>` for `EndEntityCert`: it parses the DER encoding of a
/// certificate, and whether it succeeds depends on the bytes alone.
#[verifier::external_body]
fn decode_cert<'a>(der: &'a [u8]) -> (r: Result<DerCert<'a>, webpki::Error>)
    ensures
        r is Ok == parses_as_end_entity_cert(der@),
        r matches Ok(c) ==> c.der() == der@,
{
    match webpki::EndEntityCert::try_from(der) {
        Ok(cert) => Ok(DerCert { cert, der: Ghost(der@) }),
        Err(e) => Err(e),
    }
}

/// Relies on webpki's `EndEntityCert::verify_signature`: it checks that `signature` is an
/// ECDSA P-256 SHA-256 signature of `msg` by the certificate's public key, and the outcome
/// depends on the certificate's bytes, `msg` and `signature` alone.
#[verifier::external_body]
fn verify_ecdsa_p256_sha256(cert: &DerCert, msg: &[u8], signature: &[u8]) -> (r: Result<
    (),
    webpki::Error,
>)
    ensures
        r is Ok == ecdsa_p256_sha256_verifies(cert.der(), msg@, signature@),
{
    cert.cert.verify_signature(&webpki::ECDSA_P256_SHA256, msg, signature)
}

/// The library's form of a webpki outcome: an error is wrapped as `WebPkiError`.
pub fn webpki_result(r: Result<(), webpki::Error>) -> (out: Result<(), ErrorKind>)
    ensures
        match r {
            Ok(()) => out == Ok::<(), ErrorKind>(()),
            Err(e) => out == Err::<(), ErrorKind>(ErrorKind::WebPkiError(e)),
        },
{
    match r {
        Ok(()) => Ok(()),
        Err(e) => Err(ErrorKind::WebPkiError(e)),
    }
}

/// Parses an attestation certificate.
pub fn parse_cert<'a>(bytes: &'a [u8]) -> (r: Result<webpki::EndEntityCert<'a>, ErrorKind>)
    ensures
        r is Ok == parses_as_end_entity_cert(bytes@),
        r is Err ==> r matches Err(ErrorKind::WebPkiError(_)),
{
    match decode_cert(bytes) {
        Ok(c) => Ok(c.cert),
        Err(e) => Err(ErrorKind::WebPkiError(e)),
    }
}

/// The parts of a signed registration that its verification reads.
pub trait Signature {
    fn user_public_key(&self) -> &[u8];

    fn key_handle(&self) -> &[u8];

    fn cert(&self) -> Result<webpki::EndEntityCert<'_>, ErrorKind>;

    fn signature(&self) -> &[u8];
}

impl Signature for RegisterResponse {
    fn user_public_key(&self) -> (r: &[u8])
        ensures
            r@ == self.user_public_key@,
    {
        self.user_public_key.as_slice()
    }

    fn key_handle(&self) -> (r: &[u8])
        ensures
            r@ == self.key_handle@,
    {
        self.key_handle.as_slice()
    }

    fn cert(&self) -> (r: Result<webpki::EndEntityCert<'_>, ErrorKind>)
        ensures
            r is Ok == parses_as_end_entity_cert(self.attestation_cert@),
            r is Err ==> r matches Err(ErrorKind::WebPkiError(_)),
    {
        parse_cert(self.attestation_cert.as_slice())
    }

    fn signature(&self) -> (r: &[u8])
        ensures
            r@ == self.signature@,
    {
        self.signature.as_slice()
    }
}

impl RegisterResponse {
    /// The string that the attestation signature of this registration signs.
    pub fn signing_string(&self, challenge_param: &[u8], app_param: &[u8]) -> (r: Vec<u8>)
        ensures
            r@ == registration_signing_string(
                app_param@,
                challenge_param@,
                self.key_handle@,
                self.user_public_key@,
            ),
    {
        let mut msg: Vec<u8> = Vec::new();
        msg.push(0);
        write_bytes(&mut msg, app_param);
        write_bytes(&mut msg, challenge_param);
        write_bytes(&mut msg, self.key_handle.as_slice());
        write_bytes(&mut msg, self.user_public_key.as_slice());
        proof {
            assert(msg@ =~= registration_signing_string(
                app_param@,
                challenge_param@,
                self.key_handle@,
                self.user_public_key@,
            ));
        }
        msg
    }
}

/// Checks the attestation signature of a registration.
pub trait Verify {
    fn verify(&self, challenge_param: &[u8], app_param: &[u8]) -> Result<(), ErrorKind>;
}

impl Verify for RegisterResponse {
    /// Parses the attestation certificate and checks with its key that the signature signs
    /// the registration's signing string. Success is owed exactly when the certificate parses
    /// and the signature checks out; every failure is the `WebPkiError` that webpki gave.
    fn verify(&self, challenge_param: &[u8], app_param: &[u8]) -> (r: Result<(), ErrorKind>)
        ensures
            r is Ok == (parses_as_end_entity_cert(self.attestation_cert@)
                && ecdsa_p256_sha256_verifies(
                self.attestation_cert@,
                registration_signing_string(
                    app_param@,
                    challenge_param@,
                    self.key_handle@,
                    self.user_public_key@,
                ),
                self.signature@,
            )),
            r is Err ==> r matches Err(ErrorKind::WebPkiError(_)),
    {
        let signing_string = self.signing_string(challenge_param, app_param);
        let cert = match decode_cert(self.attestation_cert.as_slice()) {
            Ok(cert) => cert,
            Err(e) => return Err(ErrorKind::WebPkiError(e)),
        };
        webpki_result(
            verify_ecdsa_p256_sha256(&cert, signing_string.as_slice(), self.signature.as_slice()),
        )
    }
}

} // verus!
