use u2f::raw::error::ErrorKind;
use u2f::raw::frame::{
    CommandAPDU, Decoder, ExtendedEncoder, ExtendedEncoderV1, ExtendedEncoderV1_1,
    RequestEncoder, ResponseDecoder, ShortEncoder, U2fCommand, U2fExtendedEncodingVersion,
    U2fStatusWord,
};
use u2f::raw::{parse_version, U2fVersion};

fn encode_with<E: RequestEncoder>(cmd: CommandAPDU) -> Result<Vec<u8>, ErrorKind> {
    let mut bb = Vec::new();
    E::encode(&mut bb, cmd).map(|_| bb)
}

#[test]
fn test_short_get_version() {
    let expected = vec![0, 3, 0, 0, 0];
    let mut bb = Vec::new();
    ShortEncoder::encode(&mut bb, CommandAPDU::new(U2fCommand::Version, 0, 0, vec![], Some(256))).unwrap();
    assert_eq!(bb, expected);
}

#[test]
fn test_extended_get_version() {
    let expected = vec![0, 3, 0, 0, 0, 0, 0];
    let mut bb = Vec::new();
    ExtendedEncoderV1::encode(&mut bb, CommandAPDU::new(U2fCommand::Version, 0, 0, vec![], Some(65536))).unwrap();
    assert_eq!(bb, expected);
}

#[test]
fn short_empty_request_with_full_le_for_each_instruction() {
    for (ins, code) in [(U2fCommand::Register, 1u8), (U2fCommand::Authenticate, 2), (U2fCommand::Version, 3)] {
        let bytes = encode_with::<ShortEncoder>(CommandAPDU::new(ins, 7, 9, vec![], Some(256))).unwrap();
        assert_eq!(bytes, vec![0, code, 7, 9, 0]);
    }
}

#[test]
fn extended_v1_empty_request_with_full_le_for_each_instruction() {
    for (ins, code) in [(U2fCommand::Register, 1u8), (U2fCommand::Authenticate, 2), (U2fCommand::Version, 3)] {
        let bytes = encode_with::<ExtendedEncoderV1>(CommandAPDU::new(ins, 3, 4, vec![], Some(65536))).unwrap();
        assert_eq!(bytes, vec![0, code, 3, 4, 0, 0, 0]);
    }
}

#[test]
fn short_encoding_with_data_and_le() {
    let bytes = encode_with::<ShortEncoder>(CommandAPDU::new(U2fCommand::Register, 3, 0, vec![0xaa, 0xbb], Some(16))).unwrap();
    assert_eq!(bytes, vec![0, 1, 3, 0, 2, 0xaa, 0xbb, 16]);
    let bytes = encode_with::<ShortEncoder>(CommandAPDU::new(U2fCommand::Register, 3, 0, vec![0xaa], None)).unwrap();
    assert_eq!(bytes, vec![0, 1, 3, 0, 1, 0xaa]);
}

#[test]
fn extended_v1_writes_three_byte_lc_and_no_le() {
    let data = vec![0x11u8; 300];
    let bytes = encode_with::<ExtendedEncoderV1>(CommandAPDU::new(U2fCommand::Authenticate, 3, 0, data.clone(), Some(256))).unwrap();
    let mut expected = vec![0, 2, 3, 0, 0, 0x01, 0x2c];
    expected.extend_from_slice(&data);
    assert_eq!(bytes, expected);
}

#[test]
fn extended_v1_1_encodings() {
    let bytes = encode_with::<ExtendedEncoderV1_1>(CommandAPDU::new(U2fCommand::Version, 0, 0, vec![], Some(65536))).unwrap();
    assert_eq!(bytes, vec![0, 3, 0, 0, 0, 0, 0]);
    let bytes = encode_with::<ExtendedEncoderV1_1>(CommandAPDU::new(U2fCommand::Version, 0, 0, vec![], Some(256))).unwrap();
    assert_eq!(bytes, vec![0, 3, 0, 0, 0, 1, 0]);
    let bytes = encode_with::<ExtendedEncoderV1_1>(CommandAPDU::new(U2fCommand::Register, 3, 0, vec![5, 6], Some(258))).unwrap();
    assert_eq!(bytes, vec![0, 1, 3, 0, 0, 0, 2, 5, 6, 1, 2]);
    let bytes = encode_with::<ExtendedEncoderV1_1>(CommandAPDU::new(U2fCommand::Register, 3, 0, vec![5], None)).unwrap();
    assert_eq!(bytes, vec![0, 1, 3, 0, 0, 0, 1, 5]);
    let mut bb = vec![9u8];
    ExtendedEncoder::extended_encode(&mut bb, CommandAPDU::new(U2fCommand::Version, 0, 0, vec![], None), U2fExtendedEncodingVersion::V1_1).unwrap();
    assert_eq!(bb, vec![9, 0, 3, 0, 0]);
}

#[test]
fn encoders_reject_too_much_request_data() {
    let short = CommandAPDU::new(U2fCommand::Register, 0, 0, vec![0; 256], None);
    assert_eq!(encode_with::<ShortEncoder>(short), Err(ErrorKind::RequestDataTooLong));
    let ok = CommandAPDU::new(U2fCommand::Register, 0, 0, vec![0; 255], None);
    assert!(encode_with::<ShortEncoder>(ok).is_ok());
    let long = CommandAPDU::new(U2fCommand::Register, 0, 0, vec![0; 65536], Some(0));
    assert_eq!(encode_with::<ExtendedEncoderV1>(long.clone()), Err(ErrorKind::RequestDataTooLong));
    assert_eq!(encode_with::<ExtendedEncoderV1_1>(long), Err(ErrorKind::RequestDataTooLong));
}

#[test]
fn encoders_reject_zero_le() {
    let cmd = CommandAPDU::new(U2fCommand::Version, 0, 0, vec![], Some(0));
    assert_eq!(encode_with::<ShortEncoder>(cmd.clone()), Err(ErrorKind::ExpectedZeroResponseData));
    assert_eq!(encode_with::<ExtendedEncoderV1>(cmd.clone()), Err(ErrorKind::ExpectedZeroResponseData));
    assert_eq!(encode_with::<ExtendedEncoderV1_1>(cmd), Err(ErrorKind::ExpectedZeroResponseData));
}

#[test]
fn encoders_reject_too_large_le() {
    let cmd = CommandAPDU::new(U2fCommand::Version, 0, 0, vec![], Some(257));
    assert_eq!(encode_with::<ShortEncoder>(cmd), Err(ErrorKind::ExpectedResponseDataTooLong));
    let cmd = CommandAPDU::new(U2fCommand::Version, 0, 0, vec![], Some(65537));
    assert_eq!(encode_with::<ExtendedEncoderV1>(cmd.clone()), Err(ErrorKind::ExpectedResponseDataTooLong));
    assert_eq!(encode_with::<ExtendedEncoderV1_1>(cmd), Err(ErrorKind::ExpectedResponseDataTooLong));
    let mut bb = vec![1u8, 2];
    let cmd = CommandAPDU::new(U2fCommand::Version, 0, 0, vec![], Some(65537));
    assert!(ExtendedEncoderV1::encode(&mut bb, cmd).is_err());
    assert_eq!(bb, vec![1, 2]);
}

#[test]
fn encoder_limits() {
    assert_eq!(ShortEncoder::max_request_data(), 255);
    assert_eq!(ShortEncoder::max_response_data(), 256);
    assert_eq!(ExtendedEncoderV1::max_request_data(), 65535);
    assert_eq!(ExtendedEncoderV1_1::max_response_data(), 65536);
}

#[test]
fn decoder_splits_data_and_status() {
    let resp = Decoder::decode(&[1, 2, 3, 0x69, 0x85]).unwrap();
    assert_eq!(resp.response_data, vec![1, 2, 3]);
    assert_eq!(resp.status, 0x6985);
    let resp = Decoder::decode(&[0x90, 0x00]).unwrap();
    assert!(resp.response_data.is_empty());
    assert_eq!(resp.status, 0x9000);
}

#[test]
fn decoder_rejects_short_frames() {
    assert_eq!(Decoder::decode(&[]), Err(ErrorKind::ResponseFrameTooShort));
    assert_eq!(Decoder::decode(&[0x90]), Err(ErrorKind::ResponseFrameTooShort));
}

#[test]
fn status_words() {
    assert_eq!(U2fStatusWord::from_u16(0x9000), Some(U2fStatusWord::NoError));
    assert_eq!(U2fStatusWord::from_u16(0x6985), Some(U2fStatusWord::ConditionsNotSatisfied));
    assert_eq!(U2fStatusWord::from_u16(0x6984), Some(U2fStatusWord::WrongData));
    assert_eq!(U2fStatusWord::from_u16(0x6d00), Some(U2fStatusWord::InsNotSupported));
    assert_eq!(U2fStatusWord::from_u16(0x6e00), Some(U2fStatusWord::ClaNotSupported));
    assert_eq!(U2fStatusWord::from_u16(0x1234), None);
}

#[test]
fn raw_version_parsing() {
    let ok = Decoder::decode(b"U2F_V2\x90\x00").unwrap();
    assert_eq!(parse_version(&ok), Ok(U2fVersion::V2));
    let other = Decoder::decode(b"U2F_V3\x90\x00").unwrap();
    assert_eq!(parse_version(&other), Err(ErrorKind::UnrecognisedVersion));
    let failed = Decoder::decode(&[0x6d, 0x00]).unwrap();
    assert_eq!(parse_version(&failed), Err(ErrorKind::ErrorStatus(0x6d00)));
}
