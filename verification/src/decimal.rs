//! Per-column strategies for moving decimal values from the row-set
//! buffer into the columnar sink, and the pure selector that picks one
//! from the declared precision, scale and the driver's 64-bit capability.

use crate::codec::dec_len;
use crate::codec::decimal_text_value;
use crate::codec::encode_decimal;
use crate::codec::length_in_bytes;
use crate::codec::twos_complement_value;
use crate::codec::wf_decimal_text;
use crate::codec::wf_integer_text;
use crate::odbc_buffer::opt_bytes;
use crate::odbc_buffer::take_prefix;
use crate::odbc_buffer::AnyColumnBuffer;
use crate::odbc_buffer::ColumnBufferDescription;
use crate::strategy::BufferDescription;
use crate::strategy::ConvertedType;
use crate::strategy::PhysicalType;
use crate::strategy::Repetition;
use crate::strategy::SchemaNode;
use crate::strategy::SchemaShape;
use atoi::FromRadix10Signed;
use vstd::pervasive::unreached;
use vstd::prelude::*;

verus! {

/// Relies on atoi's `FromRadix10Signed` for `i64`: it reads an optional
/// leading `+` or `-`, then decimal digits left to right, accumulating
/// `number * 10 + digit` (negated digit for `-`), and stops at the first
/// non-digit. On integer text of at most 18 digits the whole slice is
/// consumed and the accumulation stays far inside the 64-bit range.
#[verifier::external_body]
fn i64_from_radix_10_signed(text: &Vec<u8>) -> (r: i64)
    requires
        wf_integer_text(text@, 18),
    ensures
        r == decimal_text_value(text@),
{
    i64::from_radix_10_signed(text.as_slice()).0
}

/// Fetch the decimal as a native 32-bit integer and store it under the
/// same physical type; sound whenever precision stays at or below 9 with
/// scale 0.
pub struct IdenticalI32 {
    pub is_optional: bool,
    pub precision: i32,
}

impl IdenticalI32 {
    pub fn new(is_optional: bool, precision: i32) -> (r: Self)
        ensures
            r == (IdenticalI32 { is_optional, precision }),
    {
        IdenticalI32 { is_optional, precision }
    }

    pub open spec fn spec_shape(&self) -> SchemaShape {
        SchemaShape {
            physical_type: PhysicalType::Int32,
            repetition: if self.is_optional {
                Repetition::Optional
            } else {
                Repetition::Required
            },
            converted_type: ConvertedType::Decimal,
            precision: self.precision,
            scale: 0,
            length: 0,
        }
    }

    /// The schema node this strategy declares: INT32 with the DECIMAL
    /// annotation, precision preserved, scale 0.
    pub fn parquet_type(&self, name: String) -> (r: SchemaNode)
        ensures
            r.name == name,
            r.shape == self.spec_shape(),
    {
        SchemaNode {
            name,
            shape: SchemaShape {
                physical_type: PhysicalType::Int32,
                repetition: if self.is_optional {
                    Repetition::Optional
                } else {
                    Repetition::Required
                },
                converted_type: ConvertedType::Decimal,
                precision: self.precision,
                scale: 0,
                length: 0,
            },
        }
    }

    /// Stages rows as native 32-bit integers.
    pub fn buffer_description(&self) -> (r: BufferDescription)
        ensures
            r == (BufferDescription { kind: ColumnBufferDescription::I32, nullable: self.is_optional }),
    {
        BufferDescription { kind: ColumnBufferDescription::I32, nullable: self.is_optional }
    }

    /// Copies one batch of this column: the fetched values unchanged, a
    /// null row staying null.
    pub fn copy_odbc_to_parquet(&self, view: &AnyColumnBuffer, rows: usize) -> (r: Vec<Option<i32>>)
        requires
            view is I32,
            rows <= view.spec_capacity(),
        ensures
            r@ == view.spec_i32_values().take(rows as int),
    {
        match view {
            AnyColumnBuffer::I32 { values } => take_prefix(values, rows),
            _ => unreached(),
        }
    }
}

/// Fetch the decimal as a native 64-bit integer and store it under the
/// same physical type; sound for precision 10 to 18 with scale 0 when the
/// driver can bind 64-bit integers.
pub struct IdenticalI64 {
    pub is_optional: bool,
    pub precision: i32,
}

impl IdenticalI64 {
    pub fn new(is_optional: bool, precision: i32) -> (r: Self)
        ensures
            r == (IdenticalI64 { is_optional, precision }),
    {
        IdenticalI64 { is_optional, precision }
    }

    pub open spec fn spec_shape(&self) -> SchemaShape {
        SchemaShape {
            physical_type: PhysicalType::Int64,
            repetition: if self.is_optional {
                Repetition::Optional
            } else {
                Repetition::Required
            },
            converted_type: ConvertedType::Decimal,
            precision: self.precision,
            scale: 0,
            length: 0,
        }
    }

    /// The schema node this strategy declares: INT64 with the DECIMAL
    /// annotation, precision preserved, scale 0.
    pub fn parquet_type(&self, name: String) -> (r: SchemaNode)
        ensures
            r.name == name,
            r.shape == self.spec_shape(),
    {
        SchemaNode {
            name,
            shape: SchemaShape {
                physical_type: PhysicalType::Int64,
                repetition: if self.is_optional {
                    Repetition::Optional
                } else {
                    Repetition::Required
                },
                converted_type: ConvertedType::Decimal,
                precision: self.precision,
                scale: 0,
                length: 0,
            },
        }
    }

    /// Stages rows as native 64-bit integers.
    pub fn buffer_description(&self) -> (r: BufferDescription)
        ensures
            r == (BufferDescription { kind: ColumnBufferDescription::I64, nullable: self.is_optional }),
    {
        BufferDescription { kind: ColumnBufferDescription::I64, nullable: self.is_optional }
    }

    /// Copies one batch of this column: the fetched values unchanged, a
    /// null row staying null.
    pub fn copy_odbc_to_parquet(&self, view: &AnyColumnBuffer, rows: usize) -> (r: Vec<Option<i64>>)
        requires
            view is I64,
            rows <= view.spec_capacity(),
        ensures
            r@ == view.spec_i64_values().take(rows as int),
    {
        match view {
            AnyColumnBuffer::I64 { values } => take_prefix(values, rows),
            _ => unreached(),
        }
    }
}

/// Query a column as text and write it as a 64-bit integer: the fallback
/// for drivers that cannot bind 64-bit integers. Scale is always 0 on
/// this path, so the text holds no radix point.
pub struct I64FromText {
    /// `true` if NULL is allowed, `false` otherwise.
    pub is_optional: bool,
    /// Maximum total number of digits in the decimal.
    pub precision: i32,
}

impl I64FromText {
    /// Converted type is decimal.
    pub fn decimal(is_optional: bool, precision: i32) -> (r: Self)
        ensures
            r == (I64FromText { is_optional, precision }),
    {
        I64FromText { is_optional, precision }
    }

    pub open spec fn spec_shape(&self) -> SchemaShape {
        SchemaShape {
            physical_type: PhysicalType::Int64,
            repetition: if self.is_optional {
                Repetition::Optional
            } else {
                Repetition::Required
            },
            converted_type: ConvertedType::Decimal,
            precision: self.precision,
            scale: 0,
            length: 0,
        }
    }

    /// The schema node this strategy declares: INT64 with the DECIMAL
    /// annotation, precision preserved, scale 0 — even though the values
    /// are staged internally as text.
    pub fn parquet_type(&self, name: String) -> (r: SchemaNode)
        ensures
            r.name == name,
            r.shape == self.spec_shape(),
    {
        SchemaNode {
            name,
            shape: SchemaShape {
                physical_type: PhysicalType::Int64,
                repetition: if self.is_optional {
                    Repetition::Optional
                } else {
                    Repetition::Required
                },
                converted_type: ConvertedType::Decimal,
                precision: self.precision,
                scale: 0,
                length: 0,
            },
        }
    }

    /// Stages rows as text sized to the column's display size: the
    /// precision digits plus one byte for the sign and one for the radix
    /// character, so the source never truncates a rendering.
    pub fn buffer_description(&self) -> (r: BufferDescription)
        requires
            0 <= self.precision,
        ensures
            r == (BufferDescription {
                kind: ColumnBufferDescription::Text { max_str_len: (self.precision + 2) as usize },
                nullable: self.is_optional,
            }),
    {
        BufferDescription {
            kind: ColumnBufferDescription::Text { max_str_len: (self.precision as usize) + 2 },
            nullable: self.is_optional,
        }
    }

    /// Copies one batch of this column, parsing each rendered integer into
    /// a signed 64-bit value; a null row stays null.
    pub fn copy_odbc_to_parquet(&self, view: &AnyColumnBuffer, rows: usize) -> (r: Vec<Option<i64>>)
        requires
            view is Text,
            rows <= view.spec_capacity(),
            forall|i: int|
                0 <= i < rows ==> ((#[trigger] view.spec_text_bytes()[i]) matches Some(b)
                    ==> wf_integer_text(b, 18)),
        ensures
            r@.len() == rows,
            forall|i: int|
                0 <= i < rows ==> match view.spec_text_bytes()[i] {
                    None => (#[trigger] r@[i]) is None,
                    Some(b) => r@[i] == Some(decimal_text_value(b) as i64) && decimal_text_value(b)
                        == decimal_text_value(b) as i64,
                },
    {
        match view {
            AnyColumnBuffer::Text { values, .. } => {
                let mut r: Vec<Option<i64>> = Vec::new();
                let mut i: usize = 0;
                while i < rows
                    invariant
                        i <= rows <= values@.len(),
                        view.spec_text_values() == values@,
                        forall|j: int|
                            0 <= j < rows ==> ((#[trigger] view.spec_text_bytes()[j]) matches Some(
                                b,
                            ) ==> wf_integer_text(b, 18)),
                        r@.len() == i,
                        forall|j: int|
                            0 <= j < i ==> match view.spec_text_bytes()[j] {
                                None => (#[trigger] r@[j]) is None,
                                Some(b) => r@[j] == Some(decimal_text_value(b) as i64)
                                    && decimal_text_value(b) == decimal_text_value(b) as i64,
                            },
                    decreases rows - i,
                {
                    proof {
                        assert(view.spec_text_bytes()[i as int] == opt_bytes(values@[i as int]));
                    }
                    match &values[i] {
                        Some(v) => {
                            proof {
                                crate::codec::lemma_integer_text_fits_i64(v@);
                            }
                            let x = i64_from_radix_10_signed(v);
                            r.push(Some(x));
                        },
                        None => {
                            r.push(None);
                        },
                    }
                    i = i + 1;
                }
                r
            },
            _ => unreached(),
        }
    }
}

/// Strategy for decimals that no fixed-width native integer holds
/// losslessly: stage as text, strip the radix point, and store the scaled
/// integer as a fixed-length big-endian two's-complement byte array.
pub struct DecimalAsBinary {
    pub repetition: Repetition,
    pub scale: i32,
    pub precision: usize,
    pub length_in_bytes: usize,
}

impl DecimalAsBinary {
    /// The byte length is the one derived from the precision; the
    /// constructor establishes it and the copy routine relies on it.
    pub open spec fn wf(&self) -> bool {
        self.precision <= 38 && self.length_in_bytes == dec_len(self.precision as nat)
    }

    /// Derives the staging byte length from the precision: the smallest
    /// count whose two's complement, one bit reserved for the sign, holds
    /// every value of that many digits.
    pub fn new(repetition: Repetition, scale: i32, precision: usize) -> (r: Self)
        requires
            precision <= 38,
        ensures
            r == (DecimalAsBinary {
                repetition,
                scale,
                precision,
                length_in_bytes: dec_len(precision as nat) as usize,
            }),
            r.wf(),
    {
        let length_in_bytes = length_in_bytes(precision);
        DecimalAsBinary { repetition, scale, precision, length_in_bytes }
    }

    pub open spec fn spec_shape(&self) -> SchemaShape {
        SchemaShape {
            physical_type: PhysicalType::FixedLenByteArray,
            repetition: self.repetition,
            converted_type: ConvertedType::Decimal,
            precision: self.precision as i32,
            scale: self.scale,
            length: self.length_in_bytes,
        }
    }

    /// The schema node this strategy declares: a fixed-length byte array
    /// of exactly `length_in_bytes` bytes with the DECIMAL annotation,
    /// precision and scale preserved.
    pub fn parquet_type(&self, name: String) -> (r: SchemaNode)
        requires
            self.precision <= 38,
        ensures
            r.name == name,
            r.shape == self.spec_shape(),
    {
        SchemaNode {
            name,
            shape: SchemaShape {
                physical_type: PhysicalType::FixedLenByteArray,
                repetition: self.repetition,
                converted_type: ConvertedType::Decimal,
                precision: self.precision as i32,
                scale: self.scale,
                length: self.length_in_bytes,
            },
        }
    }

    /// Stages rows as text sized to the column's display size: the
    /// precision digits plus one byte for the sign and one for the radix
    /// character, so the source never truncates a rendering.
    pub fn buffer_description(&self) -> (r: BufferDescription)
        requires
            self.precision <= 38,
        ensures
            r == (BufferDescription {
                kind: ColumnBufferDescription::Text { max_str_len: (self.precision + 2) as usize },
                nullable: true,
            }),
    {
        BufferDescription {
            kind: ColumnBufferDescription::Text { max_str_len: self.precision + 2 },
            nullable: true,
        }
    }

    /// Copies one batch of this column, encoding each rendered decimal
    /// into exactly `length_in_bytes` big-endian two's-complement bytes of
    /// its scaled integer value; a null row stays null.
    pub fn copy_odbc_to_parquet(&self, view: &AnyColumnBuffer, rows: usize) -> (r: Vec<
        Option<Vec<u8>>,
    >)
        requires
            self.wf(),
            view is Text,
            rows <= view.spec_capacity(),
            forall|i: int|
                0 <= i < rows ==> ((#[trigger] view.spec_text_bytes()[i]) matches Some(b)
                    ==> wf_decimal_text(b, self.precision as nat)),
        ensures
            r@.len() == rows,
            forall|i: int|
                0 <= i < rows ==> match view.spec_text_bytes()[i] {
                    None => (#[trigger] r@[i]) is None,
                    Some(b) => r@[i] matches Some(e) && e@.len() == self.length_in_bytes
                        && twos_complement_value(e@) == decimal_text_value(b),
                },
    {
        match view {
            AnyColumnBuffer::Text { values, .. } => {
                let mut r: Vec<Option<Vec<u8>>> = Vec::new();
                let mut i: usize = 0;
                while i < rows
                    invariant
                        self.wf(),
                        i <= rows <= values@.len(),
                        view.spec_text_values() == values@,
                        forall|j: int|
                            0 <= j < rows ==> ((#[trigger] view.spec_text_bytes()[j]) matches Some(
                                b,
                            ) ==> wf_decimal_text(b, self.precision as nat)),
                        r@.len() == i,
                        forall|j: int|
                            0 <= j < i ==> match view.spec_text_bytes()[j] {
                                None => (#[trigger] r@[j]) is None,
                                Some(b) => r@[j] matches Some(e) && e@.len()
                                    == self.length_in_bytes && twos_complement_value(e@)
                                    == decimal_text_value(b),
                            },
                    decreases rows - i,
                {
                    proof {
                        assert(view.spec_text_bytes()[i as int] == opt_bytes(values@[i as int]));
                    }
                    match &values[i] {
                        Some(v) => {
                            let e = encode_decimal(v, self.precision, self.length_in_bytes);
                            r.push(Some(e));
                        },
                        None => {
                            r.push(None);
                        },
                    }
                    i = i + 1;
                }
                r
            },
            _ => unreached(),
        }
    }
}

/// The closed set of decimal fetch strategies the selector chooses from.
pub enum DecimalFetchStrategy {
    IdenticalI32(IdenticalI32),
    IdenticalI64(IdenticalI64),
    I64FromText(I64FromText),
    DecimalAsBinary(DecimalAsBinary),
}

/// The selection table as a mathematical function of the three inputs.
pub open spec fn spec_decimal_fetch_strategy(
    is_optional: bool,
    scale: int,
    precision: int,
    driver_does_support_i64: bool,
) -> DecimalFetchStrategy {
    if 0 <= precision <= 9 && scale == 0 {
        DecimalFetchStrategy::IdenticalI32(
            IdenticalI32 { is_optional, precision: precision as i32 },
        )
    } else if 10 <= precision <= 18 && scale == 0 {
        if driver_does_support_i64 {
            DecimalFetchStrategy::IdenticalI64(
                IdenticalI64 { is_optional, precision: precision as i32 },
            )
        } else {
            DecimalFetchStrategy::I64FromText(
                I64FromText { is_optional, precision: precision as i32 },
            )
        }
    } else {
        DecimalFetchStrategy::DecimalAsBinary(
            DecimalAsBinary {
                repetition: if is_optional {
                    Repetition::Optional
                } else {
                    Repetition::Required
                },
                scale: scale as i32,
                precision: precision as usize,
                length_in_bytes: dec_len(precision as nat) as usize,
            },
        )
    }
}

/// Choose how to fetch decimals from the source and store them in the
/// columnar sink: native 32-bit integers up to precision 9, native 64-bit
/// integers up to precision 18 where the driver can bind them, text
/// parsed to 64-bit integers where it cannot, and the binary codec for
/// everything wider or scaled. The binary codec runs on 128-bit
/// arithmetic, which carries scaled values of up to 38 digits — the
/// widest decimal the usual sources declare.
pub fn decmial_fetch_strategy(
    is_optional: bool,
    scale: i32,
    precision: usize,
    driver_does_support_i64: bool,
) -> (r: DecimalFetchStrategy)
    requires
        scale != 0 || precision > 18 ==> precision <= 38,
    ensures
        r == spec_decimal_fetch_strategy(
            is_optional,
            scale as int,
            precision as int,
            driver_does_support_i64,
        ),
{
    if precision <= 9 && scale == 0 {
        // Values with scale 0 and precision <= 9 can be fetched as 32-bit
        // integers and stored under the same physical type.
        DecimalFetchStrategy::IdenticalI32(IdenticalI32::new(is_optional, precision as i32))
    } else if precision <= 18 && scale == 0 {
        if driver_does_support_i64 {
            // Same, with 64-bit integers, where the driver supports them.
            DecimalFetchStrategy::IdenticalI64(IdenticalI64::new(is_optional, precision as i32))
        } else {
            // The driver cannot bind 64-bit integers: fetch the values as
            // text and parse them.
            DecimalFetchStrategy::I64FromText(I64FromText::decimal(is_optional, precision as i32))
        }
    } else {
        let repetition = if is_optional {
            Repetition::Optional
        } else {
            Repetition::Required
        };
        DecimalFetchStrategy::DecimalAsBinary(DecimalAsBinary::new(repetition, scale, precision))
    }
}

impl DecimalFetchStrategy {
    /// Shape of the schema node each strategy declares.
    pub open spec fn spec_shape(&self) -> SchemaShape {
        match self {
            DecimalFetchStrategy::IdenticalI32(s) => s.spec_shape(),
            DecimalFetchStrategy::IdenticalI64(s) => s.spec_shape(),
            DecimalFetchStrategy::I64FromText(s) => s.spec_shape(),
            DecimalFetchStrategy::DecimalAsBinary(s) => s.spec_shape(),
        }
    }

    /// The schema node the chosen strategy declares for a column name.
    pub fn parquet_type(&self, name: String) -> (r: SchemaNode)
        requires
            self matches DecimalFetchStrategy::DecimalAsBinary(s) ==> s.precision <= 38,
        ensures
            r.name == name,
            r.shape == self.spec_shape(),
    {
        match self {
            DecimalFetchStrategy::IdenticalI32(s) => s.parquet_type(name),
            DecimalFetchStrategy::IdenticalI64(s) => s.parquet_type(name),
            DecimalFetchStrategy::I64FromText(s) => s.parquet_type(name),
            DecimalFetchStrategy::DecimalAsBinary(s) => s.parquet_type(name),
        }
    }

    /// The staging buffer the chosen strategy needs.
    pub fn buffer_description(&self) -> (r: BufferDescription)
        requires
            self matches DecimalFetchStrategy::DecimalAsBinary(s) ==> s.precision <= 38,
            self matches DecimalFetchStrategy::I64FromText(s) ==> 0 <= s.precision,
        ensures
            r == match self {
                DecimalFetchStrategy::IdenticalI32(s) => BufferDescription {
                    kind: ColumnBufferDescription::I32,
                    nullable: s.is_optional,
                },
                DecimalFetchStrategy::IdenticalI64(s) => BufferDescription {
                    kind: ColumnBufferDescription::I64,
                    nullable: s.is_optional,
                },
                DecimalFetchStrategy::I64FromText(s) => BufferDescription {
                    kind: ColumnBufferDescription::Text {
                        max_str_len: (s.precision + 2) as usize,
                    },
                    nullable: s.is_optional,
                },
                DecimalFetchStrategy::DecimalAsBinary(s) => BufferDescription {
                    kind: ColumnBufferDescription::Text { max_str_len: (s.precision + 2) as usize },
                    nullable: true,
                },
            },
    {
        match self {
            DecimalFetchStrategy::IdenticalI32(s) => s.buffer_description(),
            DecimalFetchStrategy::IdenticalI64(s) => s.buffer_description(),
            DecimalFetchStrategy::I64FromText(s) => s.buffer_description(),
            DecimalFetchStrategy::DecimalAsBinary(s) => s.buffer_description(),
        }
    }
}

/// For every precision 1 to 9 at scale 0, whatever the driver supports,
/// the selector picks the 32-bit identical strategy, whose schema node
/// reports INT32 with the DECIMAL annotation, the precision preserved and
/// scale 0.
pub proof fn lemma_small_decimal_selects_i32(
    is_optional: bool,
    precision: int,
    driver_does_support_i64: bool,
)
    requires
        1 <= precision <= 9,
    ensures
        spec_decimal_fetch_strategy(is_optional, 0, precision, driver_does_support_i64)
            matches DecimalFetchStrategy::IdenticalI32(s) && s.precision == precision
            && s.is_optional == is_optional && s.spec_shape() == (SchemaShape {
            physical_type: PhysicalType::Int32,
            repetition: if is_optional {
                Repetition::Optional
            } else {
                Repetition::Required
            },
            converted_type: ConvertedType::Decimal,
            precision: precision as i32,
            scale: 0,
            length: 0,
        }),
{
}

/// For every precision 10 to 18 at scale 0 the selector picks the 64-bit
/// identical strategy when the driver can bind 64-bit integers and the
/// text fallback when it cannot; both declare the INT64 physical type
/// with the DECIMAL annotation, the precision preserved and scale 0.
pub proof fn lemma_mid_decimal_selects_i64(
    is_optional: bool,
    precision: int,
    driver_does_support_i64: bool,
)
    requires
        10 <= precision <= 18,
    ensures
        driver_does_support_i64 ==> (spec_decimal_fetch_strategy(
            is_optional,
            0,
            precision,
            driver_does_support_i64,
        ) matches DecimalFetchStrategy::IdenticalI64(s) && s.precision == precision
            && s.is_optional == is_optional),
        !driver_does_support_i64 ==> (spec_decimal_fetch_strategy(
            is_optional,
            0,
            precision,
            driver_does_support_i64,
        ) matches DecimalFetchStrategy::I64FromText(s) && s.precision == precision
            && s.is_optional == is_optional),
        spec_decimal_fetch_strategy(
            is_optional,
            0,
            precision,
            driver_does_support_i64,
        ).spec_shape() == (SchemaShape {
            physical_type: PhysicalType::Int64,
            repetition: if is_optional {
                Repetition::Optional
            } else {
                Repetition::Required
            },
            converted_type: ConvertedType::Decimal,
            precision: precision as i32,
            scale: 0,
            length: 0,
        }),
{
}

/// For every other precision and scale — a scale other than 0, or a
/// precision above 18 — the selector escapes to the binary codec, whose
/// byte length is the exact staging length for the precision and whose
/// schema node reports a fixed-length byte array of that length with the
/// DECIMAL annotation, precision and scale preserved.
pub proof fn lemma_other_decimal_selects_binary(
    is_optional: bool,
    scale: int,
    precision: int,
    driver_does_support_i64: bool,
)
    requires
        0 <= precision <= 38,
        scale != 0 || precision > 18,
        i32::MIN <= scale <= i32::MAX,
    ensures
        spec_decimal_fetch_strategy(is_optional, scale, precision, driver_does_support_i64)
            matches DecimalFetchStrategy::DecimalAsBinary(s) && s.precision == precision && s.scale
            == scale && s.length_in_bytes == dec_len(precision as nat) && s.spec_shape() == (
        SchemaShape {
            physical_type: PhysicalType::FixedLenByteArray,
            repetition: if is_optional {
                Repetition::Optional
            } else {
                Repetition::Required
            },
            converted_type: ConvertedType::Decimal,
            precision: precision as i32,
            scale: scale as i32,
            length: dec_len(precision as nat) as usize,
        }),
{
    crate::codec::lemma_dec_len_min(precision as nat);
    crate::codec::lemma_dec_len_le_16(precision as nat);
}

} // verus!

