use base64::Engine;
use std::hash::{Hash, Hasher};

use partition_core::identifiers::{
    InvocationId, InvocationIdParseError, InvocationUuid, ServiceId, WithPartitionKey,
};
use partition_core::lambda::{InvalidLambdaARN, LambdaARN};

#[test]
fn roundtrip_invocation_id() {
    let expected = InvocationId::new(92, InvocationUuid::now_v7());
    assert_eq!(
        expected,
        InvocationId::from_slice(&expected.as_bytes()).unwrap()
    )
}

#[test]
fn roundtrip_invocation_id_str() {
    let expected = InvocationId::new(92, InvocationUuid::now_v7());
    let parsed = InvocationId::from_str(&expected.to_id_string()).unwrap();

    assert_eq!(expected, parsed)
}

#[test]
fn bad_invocation_id_str() {
    let bad_strs = [
        ("", InvocationIdParseError::BadBase64Length),
        (
            "mxvgUOrwIb8cYrGPHkAAKSKY3O!6IEy_g",
            InvocationIdParseError::Base64(base64::DecodeError::InvalidByte(15, 33)),
        ),
        ("mxvgUOrwIb8", InvocationIdParseError::BadBase64Length),
        (
            "mxvgUOrwIb8cYrGPHkAAKSKY3Oo6IEy_",
            InvocationIdParseError::BadBase64Length,
        ),
        (
            "mxvgUOrwIb8cYrGPHkAAKSKY3Oo6IEiYV",
            InvocationIdParseError::Base64(base64::DecodeError::InvalidLastSymbol(21, 86)),
        ),
    ];

    for (bad, error) in bad_strs {
        assert_eq!(error, InvocationId::from_str(bad).unwrap_err())
    }
}

#[test]
fn roundtrip_lambda_arn() {
    let good = "arn:aws:lambda:eu-central-1:1234567890:function:e2e-node-services:version";

    let expected = LambdaARN::from_str(good).unwrap();
    let parsed = expected.to_arn_string();

    assert_eq!(good, parsed)
}

#[test]
fn missing_version_lambda_arn() {
    for bad in [
        "arn:aws:lambda:eu-central-1:1234567890:function:e2e-node-services",
        "arn:aws:lambda:eu-central-1:1234567890:function:e2e-node-services:",
    ] {
        assert_eq!(
            LambdaARN::from_str(bad).unwrap_err(),
            InvalidLambdaARN::MissingVersionSuffix
        );
    }
}

#[test]
fn lambda_arn_error_variants() {
    assert_eq!(
        LambdaARN::from_str("foo").unwrap_err(),
        InvalidLambdaARN::InvalidFormat
    );
    assert_eq!(
        LambdaARN::from_str("xrn:aws:lambda:eu:1:function:f:v").unwrap_err(),
        InvalidLambdaARN::InvalidPrefix
    );
    assert_eq!(
        LambdaARN::from_str("arn:aws:lambda:eu:1:layer:f:v").unwrap_err(),
        InvalidLambdaARN::InvalidResourceType
    );
    assert_eq!(
        LambdaARN::from_str("arn:aws:s3:eu:1:function:f:v").unwrap_err(),
        InvalidLambdaARN::InvalidService
    );
    assert_eq!(
        LambdaARN::from_str("arn:aws:lambda::1:function:f:v").unwrap_err(),
        InvalidLambdaARN::InvalidComponent
    );
}

#[test]
fn lambda_arn_version_keeps_colons() {
    let arn = LambdaARN::from_str("arn:aws:lambda:eu:1:function:f:v:with:colons").unwrap();
    assert_eq!(arn.version, "v:with:colons");
    assert_eq!(arn.region(), "eu");
    assert_eq!(
        arn.to_arn_string(),
        "arn:aws:lambda:eu:1:function:f:v:with:colons"
    );
}

#[test]
fn encoding_is_24_bytes_and_slice_roundtrips() {
    let id = InvocationId::new(92, InvocationUuid::now_v7());
    let bytes = id.as_bytes();
    assert_eq!(bytes.len(), 24);
    assert_eq!(id, InvocationId::from_slice(&bytes).unwrap());
}

#[test]
fn short_slice_is_rejected() {
    let id = InvocationId::new(92, InvocationUuid::now_v7());
    let bytes = id.as_bytes();
    assert_eq!(
        InvocationId::from_slice(&bytes[..23]).unwrap_err(),
        InvocationIdParseError::BadSliceLength
    );
    assert_eq!(
        InvocationId::from_slice(&[]).unwrap_err(),
        InvocationIdParseError::BadSliceLength
    );
}

#[test]
fn byte_encoding_layout_is_fixed() {
    let id = InvocationId::new(0x0102030405060708, InvocationUuid(0x1122));
    let bytes = id.as_bytes();
    let mut expected = vec![1u8, 2, 3, 4, 5, 6, 7, 8];
    expected.extend_from_slice(&[0u8; 14]);
    expected.extend_from_slice(&[0x11, 0x22]);
    assert_eq!(bytes, expected);
}

#[test]
fn string_form_matches_base64_of_byte_form() {
    let id = InvocationId::new(92, InvocationUuid::now_v7());
    let s = id.to_id_string();
    assert_eq!(s.len(), 33);
    let engine = &base64::engine::general_purpose::URL_SAFE_NO_PAD;
    let pk_bytes = engine.decode(&s[..11]).unwrap();
    let uuid_bytes = engine.decode(&s[11..]).unwrap();
    let mut all = pk_bytes.clone();
    all.extend_from_slice(&uuid_bytes);
    assert_eq!(all, id.as_bytes());
}

#[test]
fn uuid_from_slice_reads_big_endian_and_checks_length() {
    let bytes: [u8; 16] = [
        0xa1, 0xa2, 0xa3, 0xa4, 0xb1, 0xb2, 0xc1, 0xc2, 0xd1, 0xd2, 0xd3, 0xd4, 0xd5, 0xd6, 0xd7,
        0xd8,
    ];
    let parsed = InvocationUuid::from_slice(&bytes).unwrap();
    assert_eq!(parsed, InvocationUuid(u128::from_be_bytes(bytes)));
    assert_eq!(parsed.as_bytes(), bytes.to_vec());
    assert!(InvocationUuid::from_slice(&bytes[..15]).is_err());
}

#[test]
fn minted_uuids_differ() {
    let a = InvocationUuid::now_v7();
    let b = InvocationUuid::now_v7();
    assert_ne!(a, b);
}

#[test]
fn minted_uuids_carry_version_and_variant_bits() {
    let a = InvocationUuid::now_v7();
    assert_eq!((a.0 >> 76) & 0xf, 7);
    assert_eq!((a.0 >> 62) & 0x3, 2);
    assert_eq!(uuid::Uuid::from_slice(&a.as_bytes()).unwrap().get_version_num(), 7);
}

#[test]
fn routing_is_stable_for_equal_keys() {
    let a = ServiceId::new("greeter".to_owned(), b"key-1".to_vec());
    let b = ServiceId::new("other-service".to_owned(), b"key-1".to_vec());
    assert_eq!(a.partition_key(), b.partition_key());
    let c = ServiceId::new("greeter".to_owned(), b"key-2".to_vec());
    assert_ne!(a.partition_key(), c.partition_key());
}

#[test]
fn partition_key_matches_direct_hash() {
    let key = b"some-service-key".to_vec();
    let sid = ServiceId::new("svc".to_owned(), key.clone());
    let mut hasher = xxhash_rust::xxh3::Xxh3::default();
    key.as_slice().hash(&mut hasher);
    assert_eq!(sid.partition_key(), hasher.finish());
}

#[test]
fn full_invocation_id_reduces_to_invocation_id() {
    let fid = partition_core::identifiers::FullInvocationId::new(
        "svc".to_owned(),
        b"key".to_vec(),
        InvocationUuid(42),
    );
    let id = fid.to_invocation_id();
    assert_eq!(id.partition_key, fid.service_id.partition_key);
    assert_eq!(id.invocation_uuid(), InvocationUuid(42));
    assert_eq!(fid.to_invocation_id_bytes(), id.as_bytes());
    assert_eq!(fid.to_id_string(), id.to_id_string());
}
