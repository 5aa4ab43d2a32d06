use odbc2parquet::odbc_buffer::AnyColumnBuffer;
use odbc2parquet::odbc_buffer::ColumnBufferDescription;
use odbc2parquet::odbc_buffer::Date;
use odbc2parquet::odbc_buffer::OdbcBuffer;
use odbc2parquet::odbc_buffer::Timestamp;

#[test]
fn fetch_makes_exactly_r_rows_visible() {
    let descs = vec![ColumnBufferDescription::I32];
    let mut buffer = OdbcBuffer::new(3, descs);
    assert_eq!(buffer.num_rows_fetched(), 0);
    assert_eq!(buffer.i32_it(0), Vec::<Option<i32>>::new());

    buffer.fill_i32_col(0, vec![Some(42), None, None]);
    buffer.set_num_rows_fetched(2);
    assert_eq!(buffer.num_rows_fetched(), 2);
    // Exactly two rows are visible: [Some(42), None]; the third row is
    // not reachable through the accessor.
    assert_eq!(buffer.i32_it(0), vec![Some(42), None]);

    // A later, smaller fetch hides the second row again.
    buffer.set_num_rows_fetched(1);
    assert_eq!(buffer.i32_it(0), vec![Some(42)]);

    // A full batch makes every row visible.
    buffer.fill_i32_col(0, vec![Some(1), Some(2), Some(3)]);
    buffer.set_num_rows_fetched(3);
    assert_eq!(buffer.i32_it(0), vec![Some(1), Some(2), Some(3)]);
}

#[test]
fn every_column_type_round_trips_through_its_accessor() {
    let descs = vec![
        ColumnBufferDescription::Text { max_str_len: 5 },
        ColumnBufferDescription::F64,
        ColumnBufferDescription::F32,
        ColumnBufferDescription::Date,
        ColumnBufferDescription::Timestamp,
        ColumnBufferDescription::I64,
        ColumnBufferDescription::Bit,
    ];
    let mut buffer = OdbcBuffer::new(2, descs);

    buffer.fill_text_col(0, vec![Some(b"12.5".to_vec()), None]);
    buffer.fill_f64_col(1, vec![Some(2.5f64.to_bits()), None]);
    buffer.fill_f32_col(2, vec![None, Some(0.5f32.to_bits())]);
    let date = Date { year: 2021, month: 3, day: 14 };
    buffer.fill_date_col(3, vec![Some(date), None]);
    let ts = Timestamp {
        year: 2021,
        month: 3,
        day: 14,
        hour: 9,
        minute: 26,
        second: 53,
        fraction: 0,
    };
    buffer.fill_timestamp_col(4, vec![None, Some(ts)]);
    buffer.fill_i64_col(5, vec![Some(-9), Some(9)]);
    buffer.fill_bool_col(6, vec![Some(true), Some(false)]);
    buffer.set_num_rows_fetched(2);

    assert_eq!(buffer.text_column_it(0), vec![Some(b"12.5".to_vec()), None]);
    let f64s = buffer.f64_it(1);
    assert_eq!(f64s.len(), 2);
    assert_eq!(f64s[0].map(f64::from_bits), Some(2.5));
    assert_eq!(f64s[1], None);
    let f32s = buffer.f32_it(2);
    assert_eq!(f32s[0], None);
    assert_eq!(f32s[1].map(f32::from_bits), Some(0.5));
    assert_eq!(buffer.date_it(3), vec![Some(date), None]);
    assert_eq!(buffer.timestamp_it(4), vec![None, Some(ts)]);
    assert_eq!(buffer.i64_it(5), vec![Some(-9), Some(9)]);
    assert_eq!(buffer.bool_it(6), vec![Some(true), Some(false)]);
}

#[test]
fn column_buffers_are_built_to_the_description() {
    // A standalone column buffer has the requested variant; reading it
    // back through a row-set buffer shows the initial rows as null.
    let col = AnyColumnBuffer::new(ColumnBufferDescription::I64, 4);
    match col {
        AnyColumnBuffer::I64 { values } => {
            assert_eq!(values, vec![None, None, None, None]);
        }
        _ => panic!("the description asks for a 64-bit integer buffer"),
    }

    let mut buffer = OdbcBuffer::new(2, vec![ColumnBufferDescription::Bit]);
    buffer.set_num_rows_fetched(2);
    assert_eq!(buffer.bool_it(0), vec![None, None]);
}
