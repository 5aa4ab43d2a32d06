use odbc2parquet::codec::decode_twos_complement;
use odbc2parquet::codec::encode_decimal;
use odbc2parquet::codec::encode_twos_complement;
use odbc2parquet::codec::length_in_bytes;
use odbc2parquet::codec::parse_decimal_text;

#[test]
fn length_matches_known_precisions() {
    assert_eq!(length_in_bytes(0), 1);
    assert_eq!(length_in_bytes(1), 1);
    assert_eq!(length_in_bytes(2), 1);
    assert_eq!(length_in_bytes(3), 2);
    assert_eq!(length_in_bytes(5), 3);
    assert_eq!(length_in_bytes(9), 4);
    assert_eq!(length_in_bytes(18), 8);
    assert_eq!(length_in_bytes(19), 9);
    assert_eq!(length_in_bytes(20), 9);
    assert_eq!(length_in_bytes(38), 16);
}

#[test]
fn length_is_monotonic_and_bounded_below() {
    let mut prev = 0;
    for p in 0..=38 {
        let l = length_in_bytes(p);
        assert!(l >= 1);
        assert!(l >= prev);
        // 2^(8l - 1) >= 10^p: the sign bit still leaves room for every
        // p-digit value.
        if p <= 37 {
            let ten_p = 10u128.checked_pow(p as u32).unwrap();
            assert!(1u128 << (8 * l - 1) >= ten_p);
        }
        prev = l;
    }
}

#[test]
fn round_trip_minus_12345_at_precision_5() {
    assert_eq!(length_in_bytes(5), 3);
    let text = b"-12345".to_vec();
    let encoded = encode_decimal(&text, 5, 3);
    assert_eq!(encoded, vec![0xff, 0xcf, 0xc7]);
    assert_eq!(decode_twos_complement(&encoded), -12345);
}

#[test]
fn round_trip_scaled_decimal_at_precision_20() {
    assert_eq!(length_in_bytes(20), 9);
    let text = b"123456789012345678.90".to_vec();
    let encoded = encode_decimal(&text, 20, 9);
    assert_eq!(
        encoded,
        vec![0x00, 0xab, 0x54, 0xa9, 0x8c, 0xeb, 0x1f, 0x0a, 0xd2]
    );
    assert_eq!(decode_twos_complement(&encoded), 12345678901234567890i128);
}

#[test]
fn parse_strips_radix_point_and_applies_sign() {
    assert_eq!(parse_decimal_text(&b"123.45".to_vec(), 5), 12345);
    assert_eq!(parse_decimal_text(&b"-0.01".to_vec(), 3), -1);
    assert_eq!(parse_decimal_text(&b"+42".to_vec(), 2), 42);
    assert_eq!(parse_decimal_text(&b"0".to_vec(), 1), 0);
}

#[test]
fn encode_handles_sign_boundaries() {
    assert_eq!(encode_twos_complement(-1, 2), vec![0xff, 0xff]);
    assert_eq!(encode_twos_complement(-128, 1), vec![0x80]);
    assert_eq!(encode_twos_complement(127, 1), vec![0x7f]);
    assert_eq!(encode_twos_complement(255, 2), vec![0x00, 0xff]);
    assert_eq!(decode_twos_complement(&vec![0x80]), -128);
    assert_eq!(decode_twos_complement(&vec![0x00, 0xff]), 255);
}

#[test]
fn round_trip_sixteen_bytes_at_precision_38() {
    let text = b"-99999999999999999999999999999999999999".to_vec();
    let encoded = encode_decimal(&text, 38, 16);
    assert_eq!(encoded.len(), 16);
    assert_eq!(
        decode_twos_complement(&encoded),
        -99999999999999999999999999999999999999i128
    );
}
