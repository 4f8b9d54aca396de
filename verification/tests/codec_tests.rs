//! The scalar codec held to exact values: decimal numbers, external
//! identifiers, program blobs and addresses, including the failures.

use capi_dao::address::get_address;
use capi_dao::address::Address;
use capi_dao::blob::get_bytes;
use capi_dao::blob::CompiledProgram;
use capi_dao::codec::get_u64;
use capi_dao::codec::u64_to_dec;
use capi_dao::errors::DaoError;
use capi_dao::extid::ExternalId;

#[test]
fn dec_encodes_exact_values() {
    assert_eq!(u64_to_dec(0), "0");
    assert_eq!(u64_to_dec(7), "7");
    assert_eq!(u64_to_dec(100), "100");
    assert_eq!(u64_to_dec(9_223_372_036_854_775_807), "9223372036854775807");
    assert_eq!(u64_to_dec(9_223_372_036_854_775_808), "9223372036854775808");
    assert_eq!(u64_to_dec(u64::MAX), "18446744073709551615");
}

#[test]
fn dec_decodes_exact_values() {
    assert_eq!(get_u64("0"), Ok(0));
    assert_eq!(get_u64("1000000"), Ok(1_000_000));
    assert_eq!(get_u64("9223372036854775808"), Ok(9_223_372_036_854_775_808));
    assert_eq!(get_u64("18446744073709551615"), Ok(u64::MAX));
}

#[test]
fn dec_round_trips() {
    let values: Vec<u64> = vec![
        0,
        1,
        9,
        10,
        99,
        12345,
        9_223_372_036_854_775_807,
        9_223_372_036_854_775_808,
        u64::MAX,
    ];
    for v in values {
        assert_eq!(get_u64(u64_to_dec(v).as_str()), Ok(v));
    }
}

#[test]
fn dec_rejects_malformed_text() {
    assert_eq!(get_u64(""), Err(DaoError::EncodingFailure));
    assert_eq!(get_u64("007"), Err(DaoError::EncodingFailure));
    assert_eq!(get_u64("+5"), Err(DaoError::EncodingFailure));
    assert_eq!(get_u64("-5"), Err(DaoError::EncodingFailure));
    assert_eq!(get_u64("12a"), Err(DaoError::EncodingFailure));
    assert_eq!(get_u64("18446744073709551616"), Err(DaoError::EncodingFailure));
    assert_eq!(get_u64("99999999999999999999999"), Err(DaoError::EncodingFailure));
}

#[test]
fn external_id_round_trips() {
    let text = "f5c8614f-f969-4e65-8039-15048a5055dd";
    let id = ExternalId::from_text(text).unwrap();
    assert_eq!(id.to_text(), text);
    assert_eq!(id.bytes().len(), 16);
}

#[test]
fn external_id_from_bytes_round_trips() {
    let bytes: Vec<u8> = (0u8..16u8).collect();
    let id = ExternalId::from_bytes(bytes.clone()).unwrap();
    assert_eq!(id.to_text(), "00010203-0405-0607-0809-0a0b0c0d0e0f");
    let back = ExternalId::from_text(&id.to_text()).unwrap();
    assert_eq!(back.bytes(), &bytes);
}

#[test]
fn external_id_rejects_malformed_text() {
    assert!(ExternalId::from_text("").is_err());
    assert!(ExternalId::from_text("f5c8614f").is_err());
    // uppercase digits are not the canonical form
    assert!(ExternalId::from_text("F5C8614F-F969-4E65-8039-15048A5055DD").is_err());
    // a hyphen out of place
    assert!(ExternalId::from_text("f5c8614ff-969-4e65-8039-15048a5055dd").is_err());
    // wrong byte count
    assert!(ExternalId::from_bytes(vec![1, 2, 3]).is_err());
}

#[test]
fn programs_encode_to_base64_columns() {
    assert_eq!(CompiledProgram::new(vec![4, 129, 1]).to_column(), "BIEB");
    assert_eq!(CompiledProgram::new(vec![]).to_column(), "");
    assert_eq!(CompiledProgram::new(vec![72, 101, 108, 108, 111]).to_column(), "SGVsbG8=");
}

#[test]
fn program_columns_decode_back() {
    let p = get_bytes("BIEB").unwrap();
    assert_eq!(p.bytes, vec![4, 129, 1]);
    let empty = get_bytes("").unwrap();
    assert_eq!(empty.bytes, Vec::<u8>::new());
    let large = CompiledProgram::new((0..5000).map(|i| (i % 251) as u8).collect());
    let decoded = get_bytes(large.to_column().as_str()).unwrap();
    assert_eq!(decoded.bytes, large.bytes);
}

#[test]
fn program_column_rejects_malformed_text() {
    assert!(matches!(get_bytes("!!!"), Err(DaoError::EncodingFailure)));
    assert!(matches!(get_bytes("A"), Err(DaoError::EncodingFailure)));
}

#[test]
fn addresses_round_trip_through_text() {
    let text = "MKRBTLNZRS3UZZDS5OWPLP7YPHUDNKXFUFN5PNCJ3P2XRG74HNOGY6XOYQ";
    let a = get_address(text).unwrap();
    assert_eq!(a.bytes().len(), 32);
    assert_eq!(a.to_text(), text);
}

#[test]
fn address_from_bytes_round_trips() {
    let bytes: Vec<u8> = (0u8..32u8).collect();
    let a = Address::from_bytes(bytes.clone()).unwrap();
    let text = a.to_text();
    let back = get_address(&text).unwrap();
    assert_eq!(back.bytes(), &bytes);
}

#[test]
fn address_rejects_malformed_text() {
    assert!(matches!(get_address("garbage"), Err(DaoError::EncodingFailure)));
    // valid base32 of the wrong length
    assert!(matches!(get_address("AAAA"), Err(DaoError::EncodingFailure)));
    // a corrupted checksum: last character changed
    assert!(matches!(
        get_address("MKRBTLNZRS3UZZDS5OWPLP7YPHUDNKXFUFN5PNCJ3P2XRG74HNOGY6XOYA"),
        Err(DaoError::EncodingFailure)
    ));
    assert!(matches!(Address::from_bytes(vec![1, 2, 3]), Err(DaoError::ValidationError)));
}
