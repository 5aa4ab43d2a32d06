use odbc2parquet::decimal::decmial_fetch_strategy;
use odbc2parquet::decimal::DecimalAsBinary;
use odbc2parquet::decimal::I64FromText;
use odbc2parquet::decimal::DecimalFetchStrategy;
use odbc2parquet::odbc_buffer::AnyColumnBuffer;
use odbc2parquet::odbc_buffer::ColumnBufferDescription;
use odbc2parquet::strategy::BufferDescription;
use odbc2parquet::strategy::ConvertedType;
use odbc2parquet::strategy::PhysicalType;
use odbc2parquet::strategy::Repetition;

#[test]
fn small_precision_selects_identical_i32() {
    for precision in 1..=9usize {
        for native in [false, true] {
            let strategy = decmial_fetch_strategy(true, 0, precision, native);
            match strategy {
                DecimalFetchStrategy::IdenticalI32(s) => {
                    assert!(s.is_optional);
                    assert_eq!(s.precision, precision as i32);
                }
                _ => panic!("precision {} at scale 0 must fetch as i32", precision),
            }
            let node = decmial_fetch_strategy(true, 0, precision, native).parquet_type("a".to_string());
            assert_eq!(node.name, "a");
            assert_eq!(node.shape.physical_type, PhysicalType::Int32);
            assert_eq!(node.shape.converted_type, ConvertedType::Decimal);
            assert_eq!(node.shape.precision, precision as i32);
            assert_eq!(node.shape.scale, 0);
            assert_eq!(node.shape.repetition, Repetition::Optional);
        }
    }
}

#[test]
fn mid_precision_selects_i64_or_text_fallback() {
    for precision in 10..=18usize {
        let native = decmial_fetch_strategy(false, 0, precision, true);
        match &native {
            DecimalFetchStrategy::IdenticalI64(s) => {
                assert!(!s.is_optional);
                assert_eq!(s.precision, precision as i32);
            }
            _ => panic!("precision {} with native i64 must fetch as i64", precision),
        }
        let fallback = decmial_fetch_strategy(false, 0, precision, false);
        match &fallback {
            DecimalFetchStrategy::I64FromText(s) => {
                assert!(!s.is_optional);
                assert_eq!(s.precision, precision as i32);
            }
            _ => panic!("precision {} without native i64 must fall back to text", precision),
        }
        // Both report the INT64 physical type.
        for strategy in [native, fallback] {
            let node = strategy.parquet_type("n".to_string());
            assert_eq!(node.shape.physical_type, PhysicalType::Int64);
            assert_eq!(node.shape.converted_type, ConvertedType::Decimal);
            assert_eq!(node.shape.precision, precision as i32);
            assert_eq!(node.shape.scale, 0);
        }
    }
}

#[test]
fn scaled_or_wide_precision_selects_binary() {
    let strategy = decmial_fetch_strategy(true, 2, 20, true);
    match &strategy {
        DecimalFetchStrategy::DecimalAsBinary(s) => {
            assert_eq!(s.precision, 20);
            assert_eq!(s.scale, 2);
            assert_eq!(s.length_in_bytes, 9);
            assert_eq!(s.repetition, Repetition::Optional);
        }
        _ => panic!("precision 20 must escape to the binary codec"),
    }
    let node = strategy.parquet_type("d".to_string());
    assert_eq!(node.shape.physical_type, PhysicalType::FixedLenByteArray);
    assert_eq!(node.shape.length, 9);
    assert_eq!(node.shape.precision, 20);
    assert_eq!(node.shape.scale, 2);

    // A scale other than zero escapes too, even at small precision.
    match decmial_fetch_strategy(false, 1, 5, true) {
        DecimalFetchStrategy::DecimalAsBinary(s) => {
            assert_eq!(s.precision, 5);
            assert_eq!(s.scale, 1);
            assert_eq!(s.length_in_bytes, 3);
            assert_eq!(s.repetition, Repetition::Required);
        }
        _ => panic!("scale 1 must escape to the binary codec"),
    }
}

#[test]
fn text_fallback_reports_int64_but_stages_text() {
    let strategy = decmial_fetch_strategy(false, 0, 12, false);
    let node = strategy.parquet_type("c".to_string());
    assert_eq!(node.shape.physical_type, PhysicalType::Int64);
    assert_eq!(node.shape.converted_type, ConvertedType::Decimal);
    assert_eq!(node.shape.precision, 12);
    assert_eq!(node.shape.scale, 0);
    assert_eq!(node.shape.repetition, Repetition::Required);
    assert_eq!(
        strategy.buffer_description(),
        BufferDescription {
            kind: ColumnBufferDescription::Text { max_str_len: 14 },
            nullable: false,
        }
    );
}

#[test]
fn binary_strategy_stages_text_with_room_for_sign_and_radix() {
    let strategy = decmial_fetch_strategy(false, 2, 20, true);
    assert_eq!(
        strategy.buffer_description(),
        BufferDescription {
            kind: ColumnBufferDescription::Text { max_str_len: 22 },
            nullable: true,
        }
    );
    let identical = decmial_fetch_strategy(true, 0, 7, false);
    assert_eq!(
        identical.buffer_description(),
        BufferDescription { kind: ColumnBufferDescription::I32, nullable: true }
    );
}

#[test]
fn binary_constructor_derives_the_byte_length() {
    let s = DecimalAsBinary::new(Repetition::Optional, 3, 7);
    assert_eq!(s.precision, 7);
    assert_eq!(s.scale, 3);
    assert_eq!(s.repetition, Repetition::Optional);
    // ceil((7 * log2(10) + 1) / 8) = 4
    assert_eq!(s.length_in_bytes, 4);
}

#[test]
fn text_fallback_constructor_keeps_its_inputs() {
    let s = I64FromText::decimal(true, 11);
    assert!(s.is_optional);
    assert_eq!(s.precision, 11);
}

#[test]
fn identical_copies_preserve_values_and_nulls() {
    let strategy = decmial_fetch_strategy(true, 0, 7, true);
    let view = AnyColumnBuffer::I32 { values: vec![Some(42), None, Some(-7)] };
    match strategy {
        DecimalFetchStrategy::IdenticalI32(s) => {
            let copied = s.copy_odbc_to_parquet(&view, 3);
            assert_eq!(copied, vec![Some(42), None, Some(-7)]);
        }
        _ => panic!("expected the 32-bit identical strategy"),
    }
    let strategy64 = decmial_fetch_strategy(true, 0, 15, true);
    let view64 = AnyColumnBuffer::I64 { values: vec![None, Some(1234567890123456)] };
    match strategy64 {
        DecimalFetchStrategy::IdenticalI64(s) => {
            let copied = s.copy_odbc_to_parquet(&view64, 2);
            assert_eq!(copied, vec![None, Some(1234567890123456)]);
        }
        _ => panic!("expected the 64-bit identical strategy"),
    }
}

#[test]
fn text_fallback_parses_signed_integers_and_keeps_nulls() {
    let strategy = decmial_fetch_strategy(true, 0, 12, false);
    let view = AnyColumnBuffer::Text {
        max_str_len: 14,
        values: vec![
            Some(b"-123".to_vec()),
            Some(b"42".to_vec()),
            None,
            Some(b"999999999999".to_vec()),
        ],
    };
    match strategy {
        DecimalFetchStrategy::I64FromText(s) => {
            let copied = s.copy_odbc_to_parquet(&view, 4);
            assert_eq!(copied, vec![Some(-123), Some(42), None, Some(999999999999)]);
        }
        _ => panic!("expected the text fallback strategy"),
    }
}

#[test]
fn binary_copy_encodes_values_and_keeps_nulls() {
    let binary = decmial_fetch_strategy(true, 2, 5, true);
    let view = AnyColumnBuffer::Text {
        max_str_len: 7,
        values: vec![Some(b"-123.45".to_vec()), None, Some(b"0.01".to_vec())],
    };
    match binary {
        DecimalFetchStrategy::DecimalAsBinary(s) => {
            assert_eq!(s.length_in_bytes, 3);
            let copied = s.copy_odbc_to_parquet(&view, 3);
            assert_eq!(copied.len(), 3);
            assert_eq!(copied[0], Some(vec![0xff, 0xcf, 0xc7]));
            assert_eq!(copied[1], None);
            assert_eq!(copied[2], Some(vec![0x00, 0x00, 0x01]));
        }
        _ => panic!("expected the binary strategy"),
    }
}
