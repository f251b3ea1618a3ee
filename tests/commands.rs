use u2f::api::messages::ErrorCode;
use u2f::error::ErrorKind;
use u2f::usb::hid::{ResponseAssembler, U2fDevice, U2fHidCommand};
use u2f::{
    authenticate_request, authenticate_response, cert_len, check_response, parse_authentication,
    parse_cert, parse_registration, webpki_result, register_request, register_response, version_request,
    version_response, RegisterResponse, Signature, U2fVersion, Verify,
    AUTH_USER_PRESENCE_CHECK, AUTH_USER_PRESENCE_ENFORCE,
};

/// A device on channel 0x11223344 that answers a Msg request with `answer` (status included).
fn exchange(apdu: &[u8], answer: &[u8]) -> (Vec<Vec<u8>>, Vec<u8>) {
    let mut dev = U2fDevice::new(64);
    dev.channel_id = 0x11223344;
    let sent = dev.request_reports(U2fHidCommand::Msg, apdu).unwrap();
    let replies = dev.request_reports(U2fHidCommand::Msg, answer).unwrap();
    let mut collector = ResponseAssembler::new(dev.channel_id, dev.packet_size, U2fHidCommand::Msg);
    for reply in &replies {
        if collector.accept_report(&reply[1..]).unwrap() {
            return (sent, collector.data);
        }
    }
    panic!("incomplete response");
}

fn with_status(data: &[u8], sw1: u8, sw2: u8) -> Vec<u8> {
    let mut v = data.to_vec();
    v.push(sw1);
    v.push(sw2);
    v
}

#[test]
fn get_version_end_to_end() {
    let apdu = version_request();
    assert_eq!(apdu, vec![0, 3, 0, 0, 0, 0, 0]);
    let (sent, frame) = exchange(&apdu, &with_status(b"U2F_V2", 0x90, 0x00));
    assert_eq!(sent.len(), 1);
    let mut expected = vec![0x00, 0x11, 0x22, 0x33, 0x44, 0x83, 0x00, 0x07, 0x00, 0x03, 0x00, 0x00, 0x00, 0x00, 0x00];
    expected.extend(vec![0u8; 50]);
    assert_eq!(sent[0], expected);

    let mut reply = vec![0x11, 0x22, 0x33, 0x44, 0x83, 0x00, 0x08];
    reply.extend_from_slice(b"U2F_V2");
    reply.extend_from_slice(&[0x90, 0x00]);
    reply.resize(64, 0);
    let mut collector = ResponseAssembler::new(0x11223344, 64, U2fHidCommand::Msg);
    assert_eq!(collector.accept_report(&reply), Ok(true));
    assert_eq!(collector.data, frame);
    assert_eq!(version_response(&collector.data), Ok(U2fVersion::V2));
}

#[test]
fn version_mismatch() {
    let (_, frame) = exchange(&version_request(), &with_status(b"U2F_V3", 0x90, 0x00));
    assert_eq!(version_response(&frame), Err(ErrorKind::UnrecognisedVersion));
}

#[test]
fn register_requires_user_presence() {
    let apdu = register_request(&[1; 32], &[2; 32]).unwrap();
    let (_, frame) = exchange(&apdu, &[0x69, 0x85]);
    assert_eq!(register_response(&frame), Err(ErrorKind::UserPresenceRequired));
    assert_eq!(authenticate_response(&frame), Err(ErrorKind::UserPresenceRequired));
    assert_eq!(version_response(&frame), Err(ErrorKind::UserPresenceRequired));
}

fn synthetic_cert() -> Vec<u8> {
    let mut cert = vec![0x30, 0x81, 237];
    cert.extend((0..237).map(|i| i as u8));
    cert
}

#[test]
fn register_response_parsing() {
    let cert = synthetic_cert();
    assert_eq!(cert.len(), 240);
    let mut data = vec![0x05];
    data.extend(vec![0xaa; 65]);
    data.push(0x40);
    data.extend(vec![0xbb; 64]);
    data.extend_from_slice(&cert);
    data.extend(vec![0xcc; 70]);
    let apdu = register_request(&[1; 32], &[2; 32]).unwrap();
    let (_, frame) = exchange(&apdu, &with_status(&data, 0x90, 0x00));
    let reg = register_response(&frame).unwrap();
    assert_eq!(
        reg,
        RegisterResponse {
            user_public_key: vec![0xaa; 65],
            key_handle: vec![0xbb; 64],
            attestation_cert: cert,
            signature: vec![0xcc; 70],
        }
    );
}

#[test]
fn register_response_malformed() {
    let mut data = vec![0x04];
    data.extend(vec![0xaa; 70]);
    assert_eq!(parse_registration(&data), Err(ErrorKind::InvalidRegistrationResponse));
    let mut data = vec![0x05];
    data.extend(vec![0xaa; 65]);
    data.push(3);
    data.extend(vec![0xbb; 3]);
    assert_eq!(parse_registration(&data), Err(ErrorKind::InvalidRegistrationResponse));
    data.extend(vec![0x31, 0x00]);
    assert_eq!(parse_registration(&data), Err(ErrorKind::InvalidRegistrationResponse));
    assert_eq!(parse_registration(&[0x05; 10]), Err(ErrorKind::InvalidRegistrationResponse));
}

#[test]
fn authenticate_counter() {
    let apdu = authenticate_request(&[1; 32], &[2; 32], &[3; 10]).unwrap();
    let mut data = vec![0x01, 0x00, 0x00, 0x00, 0x2a];
    data.extend(vec![0x77; 48]);
    let (_, frame) = exchange(&apdu, &with_status(&data, 0x90, 0x00));
    let auth = authenticate_response(&frame).unwrap();
    assert_eq!(auth.counter, 42);
    assert_eq!(auth.signature.len(), 48);
}

#[test]
fn authenticate_response_too_short() {
    assert_eq!(
        parse_authentication(&[1, 0, 0]),
        Err(ErrorKind::FramingError(u2f::raw::error::ErrorKind::FrameTooSmall))
    );
    let auth = parse_authentication(&[1, 1, 2, 3, 4]).unwrap();
    assert_eq!(auth.counter, 0x01020304);
    assert!(auth.signature.is_empty());
}

#[test]
fn request_apdus() {
    let apdu = register_request(&[1; 32], &[2; 32]).unwrap();
    let mut expected = vec![0, 1, 3, 0, 0, 0, 64];
    expected.extend(vec![1; 32]);
    expected.extend(vec![2; 32]);
    assert_eq!(apdu, expected);

    let apdu = authenticate_request(&[1; 32], &[2; 32], &[9; 255]).unwrap();
    let mut expected = vec![0, 2, 3, 0, 0, 1, 64];
    expected.extend(vec![1; 32]);
    expected.extend(vec![2; 32]);
    expected.push(255);
    expected.extend(vec![9; 255]);
    assert_eq!(apdu, expected);
    assert_eq!(AUTH_USER_PRESENCE_ENFORCE, 3);
    assert_eq!(AUTH_USER_PRESENCE_CHECK, 7);
}

#[test]
fn request_parameter_errors() {
    assert_eq!(register_request(&[1; 31], &[2; 32]), Err(ErrorKind::InvalidChallengeParameter));
    assert_eq!(register_request(&[1; 32], &[2; 33]), Err(ErrorKind::InvalidApplicationParameter));
    assert_eq!(authenticate_request(&[1; 33], &[2; 32], &[]), Err(ErrorKind::InvalidChallengeParameter));
    assert_eq!(authenticate_request(&[1; 32], &[], &[]), Err(ErrorKind::InvalidApplicationParameter));
    assert_eq!(authenticate_request(&[1; 32], &[2; 32], &[0; 256]), Err(ErrorKind::KeyHandleTooLong));
}

#[test]
fn status_errors() {
    assert_eq!(
        check_response(&[1, 2, 0x6a, 0x80]),
        Err(ErrorKind::FramingError(u2f::raw::error::ErrorKind::ErrorStatus(0x6a80)))
    );
    assert_eq!(
        check_response(&[0x90]),
        Err(ErrorKind::FramingError(u2f::raw::error::ErrorKind::ResponseFrameTooShort))
    );
    assert_eq!(check_response(&[1, 2, 0x90, 0x00]), Ok(vec![1, 2]));
}

#[test]
fn certificate_length() {
    assert_eq!(cert_len(&[0x30, 0x02, 1, 2, 3]), Some(4));
    assert_eq!(cert_len(&[0x30, 0x81, 0x01, 9, 8]), Some(4));
    let mut long = vec![0x30, 0x82, 0x01, 0x00];
    long.extend(vec![0; 0x100]);
    assert_eq!(cert_len(&long), Some(0x104));
    long.pop();
    assert_eq!(cert_len(&long), None);
    assert_eq!(cert_len(&[0x31, 0x00]), None);
    assert_eq!(cert_len(&[0x30]), None);
    assert_eq!(cert_len(&[0x30, 0x85, 0, 0, 0, 0, 0]), None);
}

#[test]
fn signing_string_and_failed_verification() {
    let reg = RegisterResponse {
        user_public_key: vec![4, 5],
        key_handle: vec![3],
        attestation_cert: synthetic_cert(),
        signature: vec![0xcc; 70],
    };
    assert_eq!(reg.signing_string(&[2, 2], &[1]), vec![0, 1, 2, 2, 3, 4, 5]);
    assert_eq!(reg.key_handle(), &[3]);
    assert_eq!(reg.user_public_key(), &[4, 5]);
    assert_eq!(reg.signature(), &[0xcc; 70][..]);
    assert!(matches!(reg.verify(&[0; 32], &[0; 32]), Err(ErrorKind::WebPkiError(_))));
    assert!(matches!(reg.cert(), Err(ErrorKind::WebPkiError(_))));
}

#[test]
fn unparsable_certificate() {
    assert!(matches!(parse_cert(&[1, 2, 3]), Err(ErrorKind::WebPkiError(_))));
    assert!(matches!(parse_cert(&[]), Err(ErrorKind::WebPkiError(_))));
}

#[test]
fn error_codes_as_numbers() {
    assert_eq!(ErrorCode::from_code(0), Some(ErrorCode::NoError));
    assert_eq!(ErrorCode::from_code(1), Some(ErrorCode::OtherError));
    assert_eq!(ErrorCode::from_code(5), Some(ErrorCode::Timeout));
    assert_eq!(ErrorCode::from_code(6), None);
    assert_eq!(ErrorCode::OtherError.code(), 1);
    assert_eq!(ErrorCode::DeviceIneligible.code(), 4);
}

#[test]
fn webpki_outcomes_are_wrapped() {
    assert_eq!(webpki_result(Ok(())), Ok(()));
    assert_eq!(
        webpki_result(Err(webpki::Error::InvalidSignatureForPublicKey)),
        Err(ErrorKind::WebPkiError(webpki::Error::InvalidSignatureForPublicKey))
    );
}
