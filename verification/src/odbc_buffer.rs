//! Batch row-set staging: fixed-capacity, column-major buffers reused
//! across fetch calls, one typed buffer per projected column.
//!
//! The buffers hold plain values: floating-point columns carry IEEE 754
//! bit patterns and dates and timestamps their calendar fields, so the
//! binding layer at the edge converts one value for one.

use vstd::pervasive::unreached;
use vstd::prelude::*;

verus! {

/// Shape tag for one column's staging buffer, fixed at bind time.
#[derive(Clone, Copy, PartialEq, Eq, Structural, Debug)]
pub enum ColumnBufferDescription {
    Text { max_str_len: usize },
    F64,
    F32,
    Date,
    Timestamp,
    I32,
    I64,
    Bit,
}

/// Calendar date as the source delivers it.
#[derive(Clone, Copy, PartialEq, Eq, Structural, Debug)]
pub struct Date {
    pub year: i16,
    pub month: u16,
    pub day: u16,
}

/// Wall-clock timestamp as the source delivers it.
#[derive(Clone, Copy, PartialEq, Eq, Structural, Debug)]
pub struct Timestamp {
    pub year: i16,
    pub month: u16,
    pub day: u16,
    pub hour: u16,
    pub minute: u16,
    pub second: u16,
    pub fraction: u32,
}

/// Single-type column storage: one optional value per row, absent where
/// the source reported null. The variant never changes after construction.
pub enum AnyColumnBuffer {
    Text { max_str_len: usize, values: Vec<Option<Vec<u8>>> },
    F64 { values: Vec<Option<u64>> },
    F32 { values: Vec<Option<u32>> },
    Date { values: Vec<Option<Date>> },
    Timestamp { values: Vec<Option<Timestamp>> },
    I32 { values: Vec<Option<i32>> },
    I64 { values: Vec<Option<i64>> },
    Bit { values: Vec<Option<bool>> },
}

impl AnyColumnBuffer {
    /// Number of rows the buffer holds storage for.
    pub open spec fn spec_capacity(&self) -> nat {
        match self {
            AnyColumnBuffer::Text { values, .. } => values@.len(),
            AnyColumnBuffer::F64 { values } => values@.len(),
            AnyColumnBuffer::F32 { values } => values@.len(),
            AnyColumnBuffer::Date { values } => values@.len(),
            AnyColumnBuffer::Timestamp { values } => values@.len(),
            AnyColumnBuffer::I32 { values } => values@.len(),
            AnyColumnBuffer::I64 { values } => values@.len(),
            AnyColumnBuffer::Bit { values } => values@.len(),
        }
    }

    /// The buffer has exactly the variant that `desc` asks for.
    pub open spec fn matches_description(&self, desc: ColumnBufferDescription) -> bool {
        match self {
            AnyColumnBuffer::Text { max_str_len, .. } => desc == (ColumnBufferDescription::Text {
                max_str_len: *max_str_len,
            }),
            AnyColumnBuffer::F64 { .. } => desc == ColumnBufferDescription::F64,
            AnyColumnBuffer::F32 { .. } => desc == ColumnBufferDescription::F32,
            AnyColumnBuffer::Date { .. } => desc == ColumnBufferDescription::Date,
            AnyColumnBuffer::Timestamp { .. } => desc == ColumnBufferDescription::Timestamp,
            AnyColumnBuffer::I32 { .. } => desc == ColumnBufferDescription::I32,
            AnyColumnBuffer::I64 { .. } => desc == ColumnBufferDescription::I64,
            AnyColumnBuffer::Bit { .. } => desc == ColumnBufferDescription::Bit,
        }
    }

    /// Text values never exceed the declared maximum length, so a bound
    /// buffer is never overrun by the binding layer.
    pub open spec fn wf(&self) -> bool {
        match self {
            AnyColumnBuffer::Text { max_str_len, values } => forall|i: int|
                0 <= i < values@.len() ==> ((#[trigger] values@[i]) matches Some(v)
                    ==> v@.len() <= *max_str_len),
            _ => true,
        }
    }

    pub open spec fn spec_text_max_len(&self) -> usize {
        match self {
            AnyColumnBuffer::Text { max_str_len, .. } => *max_str_len,
            _ => 0,
        }
    }

    pub open spec fn spec_text_values(&self) -> Seq<Option<Vec<u8>>> {
        match self {
            AnyColumnBuffer::Text { values, .. } => values@,
            _ => Seq::empty(),
        }
    }

    /// Text rows as byte strings: the value each row denotes, freed from
    /// the identity of the vector that stores it.
    pub open spec fn spec_text_bytes(&self) -> Seq<Option<Seq<u8>>> {
        Seq::new(self.spec_text_values().len(), |i: int| opt_bytes(self.spec_text_values()[i]))
    }

    pub open spec fn spec_f64_values(&self) -> Seq<Option<u64>> {
        match self {
            AnyColumnBuffer::F64 { values } => values@,
            _ => Seq::empty(),
        }
    }

    pub open spec fn spec_f32_values(&self) -> Seq<Option<u32>> {
        match self {
            AnyColumnBuffer::F32 { values } => values@,
            _ => Seq::empty(),
        }
    }

    pub open spec fn spec_date_values(&self) -> Seq<Option<Date>> {
        match self {
            AnyColumnBuffer::Date { values } => values@,
            _ => Seq::empty(),
        }
    }

    pub open spec fn spec_timestamp_values(&self) -> Seq<Option<Timestamp>> {
        match self {
            AnyColumnBuffer::Timestamp { values } => values@,
            _ => Seq::empty(),
        }
    }

    pub open spec fn spec_i32_values(&self) -> Seq<Option<i32>> {
        match self {
            AnyColumnBuffer::I32 { values } => values@,
            _ => Seq::empty(),
        }
    }

    pub open spec fn spec_i64_values(&self) -> Seq<Option<i64>> {
        match self {
            AnyColumnBuffer::I64 { values } => values@,
            _ => Seq::empty(),
        }
    }

    pub open spec fn spec_bool_values(&self) -> Seq<Option<bool>> {
        match self {
            AnyColumnBuffer::Bit { values } => values@,
            _ => Seq::empty(),
        }
    }

    /// Allocates storage of exactly `batch_size` rows for the requested
    /// shape, every row initially null.
    pub fn new(desc: ColumnBufferDescription, batch_size: usize) -> (r: AnyColumnBuffer)
        ensures
            r.matches_description(desc),
            r.spec_capacity() == batch_size,
            r.wf(),
    {
        match desc {
            ColumnBufferDescription::Text { max_str_len } => AnyColumnBuffer::Text {
                max_str_len,
                values: none_vec(batch_size),
            },
            ColumnBufferDescription::F64 => AnyColumnBuffer::F64 { values: none_vec(batch_size) },
            ColumnBufferDescription::F32 => AnyColumnBuffer::F32 { values: none_vec(batch_size) },
            ColumnBufferDescription::Date => AnyColumnBuffer::Date { values: none_vec(batch_size) },
            ColumnBufferDescription::Timestamp => AnyColumnBuffer::Timestamp {
                values: none_vec(batch_size),
            },
            ColumnBufferDescription::I32 => AnyColumnBuffer::I32 { values: none_vec(batch_size) },
            ColumnBufferDescription::I64 => AnyColumnBuffer::I64 { values: none_vec(batch_size) },
            ColumnBufferDescription::Bit => AnyColumnBuffer::Bit { values: none_vec(batch_size) },
        }
    }
}

/// The byte string a text row denotes, absent on null.
pub open spec fn opt_bytes(v: Option<Vec<u8>>) -> Option<Seq<u8>> {
    match v {
        Some(b) => Some(b@),
        None => None,
    }
}

/// A vector of `n` absent values.
fn none_vec<T>(n: usize) -> (r: Vec<Option<T>>)
    ensures
        r@.len() == n,
        forall|i: int| 0 <= i < n ==> (#[trigger] r@[i]) is None,
{
    let mut r: Vec<Option<T>> = Vec::new();
    let mut i: usize = 0;
    while i < n
        invariant
            i <= n,
            r@.len() == i,
            forall|j: int| 0 <= j < i ==> (#[trigger] r@[j]) is None,
        decreases n - i,
    {
        r.push(None);
        i = i + 1;
    }
    r
}

/// The first `rows` entries of a column, in order.
pub(crate) fn take_prefix<T: Copy>(values: &Vec<Option<T>>, rows: usize) -> (r: Vec<Option<T>>)
    requires
        rows <= values@.len(),
    ensures
        r@ == values@.take(rows as int),
{
    let mut r: Vec<Option<T>> = Vec::new();
    let mut i: usize = 0;
    while i < rows
        invariant
            i <= rows <= values@.len(),
            r@ == values@.take(i as int),
        decreases rows - i,
    {
        let v = values[i];
        r.push(v);
        proof {
            assert(values@.take(i + 1) =~= values@.take(i as int).push(values@[i as int]));
        }
        i = i + 1;
    }
    r
}

/// Byte-for-byte copy of a text value.
fn copy_bytes(src: &Vec<u8>) -> (r: Vec<u8>)
    ensures
        r@ == src@,
{
    let mut r: Vec<u8> = Vec::new();
    let mut i: usize = 0;
    while i < src.len()
        invariant
            i <= src@.len(),
            r@ == src@.take(i as int),
        decreases src@.len() - i,
    {
        r.push(src[i]);
        proof {
            assert(src@.take(i + 1) =~= src@.take(i as int).push(src@[i as int]));
        }
        i = i + 1;
    }
    proof {
        assert(src@.take(src@.len() as int) =~= src@);
    }
    r
}

/// The batch row-set buffer: one typed column buffer per projected column,
/// plus the count of rows the most recent fetch delivered. Values of rows
/// `[0, rows_fetched)` are visible through the accessors; later rows are
/// not.
pub struct OdbcBuffer {
    batch_size: usize,
    num_rows_fetched: usize,
    buffers: Vec<AnyColumnBuffer>,
}

impl OdbcBuffer {
    pub closed spec fn spec_batch_size(&self) -> nat {
        self.batch_size as nat
    }

    pub closed spec fn spec_rows_fetched(&self) -> nat {
        self.num_rows_fetched as nat
    }

    pub closed spec fn spec_columns(&self) -> Seq<AnyColumnBuffer> {
        self.buffers@
    }

    /// The fetch count never exceeds the capacity, and every column holds
    /// exactly `batch_size` rows of storage.
    pub open spec fn wf(&self) -> bool {
        &&& self.spec_rows_fetched() <= self.spec_batch_size()
        &&& forall|i: int|
            0 <= i < self.spec_columns().len() ==> (#[trigger] self.spec_columns()[i])
                .spec_capacity() == self.spec_batch_size() && self.spec_columns()[i].wf()
    }

    /// Allocates one fixed-capacity buffer per description; nothing is
    /// visible until a fetch reports rows.
    pub fn new(batch_size: usize, descs: Vec<ColumnBufferDescription>) -> (r: Self)
        ensures
            r.wf(),
            r.spec_batch_size() == batch_size,
            r.spec_rows_fetched() == 0,
            r.spec_columns().len() == descs@.len(),
            forall|i: int|
                0 <= i < descs@.len() ==> (#[trigger] r.spec_columns()[i]).matches_description(
                    descs@[i],
                ),
    {
        let mut buffers: Vec<AnyColumnBuffer> = Vec::new();
        let mut i: usize = 0;
        while i < descs.len()
            invariant
                i <= descs@.len(),
                buffers@.len() == i,
                forall|j: int|
                    0 <= j < i ==> (#[trigger] buffers@[j]).matches_description(descs@[j])
                        && buffers@[j].spec_capacity() == batch_size && buffers@[j].wf(),
            decreases descs@.len() - i,
        {
            buffers.push(AnyColumnBuffer::new(descs[i], batch_size));
            i = i + 1;
        }
        OdbcBuffer { batch_size, num_rows_fetched: 0, buffers }
    }

    /// Rows delivered by the most recent fetch.
    pub fn num_rows_fetched(&self) -> (n: usize)
        ensures
            n == self.spec_rows_fetched(),
    {
        self.num_rows_fetched
    }

    /// Records how many rows the fetch that just completed delivered; the
    /// cursor writes at most a full batch.
    pub fn set_num_rows_fetched(&mut self, n: usize)
        requires
            old(self).wf(),
            n <= old(self).spec_batch_size(),
        ensures
            final(self).wf(),
            final(self).spec_rows_fetched() == n,
            final(self).spec_batch_size() == old(self).spec_batch_size(),
            final(self).spec_columns() == old(self).spec_columns(),
    {
        self.num_rows_fetched = n;
        proof {
            assert forall|i: int| 0 <= i < self.spec_columns().len() implies (
            #[trigger] self.spec_columns()[i]).spec_capacity() == self.spec_batch_size()
                && self.spec_columns()[i].wf() by {
                assert(self.spec_columns()[i] == old(self).spec_columns()[i]);
            }
        }
    }

    /// Replaces the storage of a text column with what a fetch delivered:
    /// one optional value per row of the batch, none longer than the
    /// column's declared maximum.
    pub fn fill_text_col(&mut self, col_index: usize, values: Vec<Option<Vec<u8>>>)
        requires
            old(self).wf(),
            col_index < old(self).spec_columns().len(),
            old(self).spec_columns()[col_index as int] is Text,
            values@.len() == old(self).spec_batch_size(),
            forall|i: int|
                0 <= i < values@.len() ==> ((#[trigger] values@[i]) matches Some(v)
                    ==> v@.len() <= old(self).spec_columns()[col_index as int].spec_text_max_len()),
        ensures
            final(self).wf(),
            final(self).spec_batch_size() == old(self).spec_batch_size(),
            final(self).spec_rows_fetched() == old(self).spec_rows_fetched(),
            final(self).spec_columns() == old(self).spec_columns().update(
                col_index as int,
                (AnyColumnBuffer::Text {
                    max_str_len: old(self).spec_columns()[col_index as int].spec_text_max_len(),
                    values,
                }),
            ),
    {
        let m: usize = match &self.buffers[col_index] {
            AnyColumnBuffer::Text { max_str_len, .. } => *max_str_len,
            _ => unreached(),
        };
        self.buffers[col_index] = AnyColumnBuffer::Text { max_str_len: m, values };
        proof {
            self.lemma_fill_wf(*old(self), col_index as int);
        }
    }

    /// Replaces the storage of a 64-bit float column (bit patterns).
    pub fn fill_f64_col(&mut self, col_index: usize, values: Vec<Option<u64>>)
        requires
            old(self).wf(),
            col_index < old(self).spec_columns().len(),
            old(self).spec_columns()[col_index as int] is F64,
            values@.len() == old(self).spec_batch_size(),
        ensures
            final(self).wf(),
            final(self).spec_batch_size() == old(self).spec_batch_size(),
            final(self).spec_rows_fetched() == old(self).spec_rows_fetched(),
            final(self).spec_columns() == old(self).spec_columns().update(
                col_index as int,
                (AnyColumnBuffer::F64 { values }),
            ),
    {
        self.buffers[col_index] = AnyColumnBuffer::F64 { values };
        proof {
            self.lemma_fill_wf(*old(self), col_index as int);
        }
    }

    /// Replaces the storage of a 32-bit float column (bit patterns).
    pub fn fill_f32_col(&mut self, col_index: usize, values: Vec<Option<u32>>)
        requires
            old(self).wf(),
            col_index < old(self).spec_columns().len(),
            old(self).spec_columns()[col_index as int] is F32,
            values@.len() == old(self).spec_batch_size(),
        ensures
            final(self).wf(),
            final(self).spec_batch_size() == old(self).spec_batch_size(),
            final(self).spec_rows_fetched() == old(self).spec_rows_fetched(),
            final(self).spec_columns() == old(self).spec_columns().update(
                col_index as int,
                (AnyColumnBuffer::F32 { values }),
            ),
    {
        self.buffers[col_index] = AnyColumnBuffer::F32 { values };
        proof {
            self.lemma_fill_wf(*old(self), col_index as int);
        }
    }

    /// Replaces the storage of a date column.
    pub fn fill_date_col(&mut self, col_index: usize, values: Vec<Option<Date>>)
        requires
            old(self).wf(),
            col_index < old(self).spec_columns().len(),
            old(self).spec_columns()[col_index as int] is Date,
            values@.len() == old(self).spec_batch_size(),
        ensures
            final(self).wf(),
            final(self).spec_batch_size() == old(self).spec_batch_size(),
            final(self).spec_rows_fetched() == old(self).spec_rows_fetched(),
            final(self).spec_columns() == old(self).spec_columns().update(
                col_index as int,
                (AnyColumnBuffer::Date { values }),
            ),
    {
        self.buffers[col_index] = AnyColumnBuffer::Date { values };
        proof {
            self.lemma_fill_wf(*old(self), col_index as int);
        }
    }

    /// Replaces the storage of a timestamp column.
    pub fn fill_timestamp_col(&mut self, col_index: usize, values: Vec<Option<Timestamp>>)
        requires
            old(self).wf(),
            col_index < old(self).spec_columns().len(),
            old(self).spec_columns()[col_index as int] is Timestamp,
            values@.len() == old(self).spec_batch_size(),
        ensures
            final(self).wf(),
            final(self).spec_batch_size() == old(self).spec_batch_size(),
            final(self).spec_rows_fetched() == old(self).spec_rows_fetched(),
            final(self).spec_columns() == old(self).spec_columns().update(
                col_index as int,
                (AnyColumnBuffer::Timestamp { values }),
            ),
    {
        self.buffers[col_index] = AnyColumnBuffer::Timestamp { values };
        proof {
            self.lemma_fill_wf(*old(self), col_index as int);
        }
    }

    /// Replaces the storage of a 32-bit integer column.
    pub fn fill_i32_col(&mut self, col_index: usize, values: Vec<Option<i32>>)
        requires
            old(self).wf(),
            col_index < old(self).spec_columns().len(),
            old(self).spec_columns()[col_index as int] is I32,
            values@.len() == old(self).spec_batch_size(),
        ensures
            final(self).wf(),
            final(self).spec_batch_size() == old(self).spec_batch_size(),
            final(self).spec_rows_fetched() == old(self).spec_rows_fetched(),
            final(self).spec_columns() == old(self).spec_columns().update(
                col_index as int,
                (AnyColumnBuffer::I32 { values }),
            ),
    {
        self.buffers[col_index] = AnyColumnBuffer::I32 { values };
        proof {
            self.lemma_fill_wf(*old(self), col_index as int);
        }
    }

    /// Replaces the storage of a 64-bit integer column.
    pub fn fill_i64_col(&mut self, col_index: usize, values: Vec<Option<i64>>)
        requires
            old(self).wf(),
            col_index < old(self).spec_columns().len(),
            old(self).spec_columns()[col_index as int] is I64,
            values@.len() == old(self).spec_batch_size(),
        ensures
            final(self).wf(),
            final(self).spec_batch_size() == old(self).spec_batch_size(),
            final(self).spec_rows_fetched() == old(self).spec_rows_fetched(),
            final(self).spec_columns() == old(self).spec_columns().update(
                col_index as int,
                (AnyColumnBuffer::I64 { values }),
            ),
    {
        self.buffers[col_index] = AnyColumnBuffer::I64 { values };
        proof {
            self.lemma_fill_wf(*old(self), col_index as int);
        }
    }

    /// Replaces the storage of a boolean column.
    pub fn fill_bool_col(&mut self, col_index: usize, values: Vec<Option<bool>>)
        requires
            old(self).wf(),
            col_index < old(self).spec_columns().len(),
            old(self).spec_columns()[col_index as int] is Bit,
            values@.len() == old(self).spec_batch_size(),
        ensures
            final(self).wf(),
            final(self).spec_batch_size() == old(self).spec_batch_size(),
            final(self).spec_rows_fetched() == old(self).spec_rows_fetched(),
            final(self).spec_columns() == old(self).spec_columns().update(
                col_index as int,
                (AnyColumnBuffer::Bit { values }),
            ),
    {
        self.buffers[col_index] = AnyColumnBuffer::Bit { values };
        proof {
            self.lemma_fill_wf(*old(self), col_index as int);
        }
    }

    /// After one column's storage is replaced by a buffer of the same
    /// variant, capacity and text bounds, the whole row set is still well
    /// formed.
    proof fn lemma_fill_wf(&self, prev: OdbcBuffer, col: int)
        requires
            prev.wf(),
            0 <= col < prev.spec_columns().len(),
            self.spec_batch_size() == prev.spec_batch_size(),
            self.spec_rows_fetched() == prev.spec_rows_fetched(),
            self.spec_columns().len() == prev.spec_columns().len(),
            forall|i: int|
                0 <= i < self.spec_columns().len() && i != col ==> #[trigger] self.spec_columns()[i]
                    == prev.spec_columns()[i],
            self.spec_columns()[col].spec_capacity() == self.spec_batch_size(),
            self.spec_columns()[col].wf(),
        ensures
            self.wf(),
    {
        assert forall|i: int| 0 <= i < self.spec_columns().len() implies (
        #[trigger] self.spec_columns()[i]).spec_capacity() == self.spec_batch_size()
            && self.spec_columns()[i].wf() by {
            if i != col {
                assert(self.spec_columns()[i] == prev.spec_columns()[i]);
            }
        }
    }

    /// Visible text values of the fetched rows: exactly `rows_fetched`
    /// entries, absent where the source reported null.
    pub fn text_column_it(&self, col_index: usize) -> (r: Vec<Option<Vec<u8>>>)
        requires
            self.wf(),
            col_index < self.spec_columns().len(),
            self.spec_columns()[col_index as int] is Text,
        ensures
            r@.len() == self.spec_rows_fetched(),
            forall|j: int|
                0 <= j < r@.len() ==> opt_bytes(#[trigger] r@[j]) == self.spec_columns()[col_index
                    as int].spec_text_bytes()[j],
    {
        proof {
            assert(self.spec_columns()[col_index as int].spec_capacity()
                == self.spec_batch_size());
        }
        match &self.buffers[col_index] {
            AnyColumnBuffer::Text { values, .. } => {
                let ghost all = values@;
                let rows = self.num_rows_fetched;
                let mut r: Vec<Option<Vec<u8>>> = Vec::new();
                let mut i: usize = 0;
                while i < rows
                    invariant
                        i <= rows <= all.len(),
                        all == values@,
                        r@.len() == i,
                        forall|j: int|
                            0 <= j < i ==> opt_bytes(#[trigger] r@[j]) == opt_bytes(all[j]),
                    decreases rows - i,
                {
                    match &values[i] {
                        Some(v) => {
                            let c = copy_bytes(v);
                            r.push(Some(c));
                        },
                        None => {
                            r.push(None);
                        },
                    }
                    i = i + 1;
                }
                r
            },
            _ => unreached(),
        }
    }

    /// Visible 64-bit float values of the fetched rows, as IEEE 754 bit
    /// patterns.
    pub fn f64_it(&self, col_index: usize) -> (r: Vec<Option<u64>>)
        requires
            self.wf(),
            col_index < self.spec_columns().len(),
            self.spec_columns()[col_index as int] is F64,
        ensures
            r@.len() == self.spec_rows_fetched(),
            r@ == self.spec_columns()[col_index as int].spec_f64_values().take(
                self.spec_rows_fetched() as int,
            ),
    {
        proof {
            assert(self.spec_columns()[col_index as int].spec_capacity()
                == self.spec_batch_size());
        }
        match &self.buffers[col_index] {
            AnyColumnBuffer::F64 { values } => take_prefix(values, self.num_rows_fetched),
            _ => unreached(),
        }
    }

    /// Visible 32-bit float values of the fetched rows, as IEEE 754 bit
    /// patterns.
    pub fn f32_it(&self, col_index: usize) -> (r: Vec<Option<u32>>)
        requires
            self.wf(),
            col_index < self.spec_columns().len(),
            self.spec_columns()[col_index as int] is F32,
        ensures
            r@.len() == self.spec_rows_fetched(),
            r@ == self.spec_columns()[col_index as int].spec_f32_values().take(
                self.spec_rows_fetched() as int,
            ),
    {
        proof {
            assert(self.spec_columns()[col_index as int].spec_capacity()
                == self.spec_batch_size());
        }
        match &self.buffers[col_index] {
            AnyColumnBuffer::F32 { values } => take_prefix(values, self.num_rows_fetched),
            _ => unreached(),
        }
    }

    /// Visible date values of the fetched rows.
    pub fn date_it(&self, col_index: usize) -> (r: Vec<Option<Date>>)
        requires
            self.wf(),
            col_index < self.spec_columns().len(),
            self.spec_columns()[col_index as int] is Date,
        ensures
            r@.len() == self.spec_rows_fetched(),
            r@ == self.spec_columns()[col_index as int].spec_date_values().take(
                self.spec_rows_fetched() as int,
            ),
    {
        proof {
            assert(self.spec_columns()[col_index as int].spec_capacity()
                == self.spec_batch_size());
        }
        match &self.buffers[col_index] {
            AnyColumnBuffer::Date { values } => take_prefix(values, self.num_rows_fetched),
            _ => unreached(),
        }
    }

    /// Visible timestamp values of the fetched rows.
    pub fn timestamp_it(&self, col_index: usize) -> (r: Vec<Option<Timestamp>>)
        requires
            self.wf(),
            col_index < self.spec_columns().len(),
            self.spec_columns()[col_index as int] is Timestamp,
        ensures
            r@.len() == self.spec_rows_fetched(),
            r@ == self.spec_columns()[col_index as int].spec_timestamp_values().take(
                self.spec_rows_fetched() as int,
            ),
    {
        proof {
            assert(self.spec_columns()[col_index as int].spec_capacity()
                == self.spec_batch_size());
        }
        match &self.buffers[col_index] {
            AnyColumnBuffer::Timestamp { values } => take_prefix(values, self.num_rows_fetched),
            _ => unreached(),
        }
    }

    /// Visible 32-bit integer values of the fetched rows.
    pub fn i32_it(&self, col_index: usize) -> (r: Vec<Option<i32>>)
        requires
            self.wf(),
            col_index < self.spec_columns().len(),
            self.spec_columns()[col_index as int] is I32,
        ensures
            r@.len() == self.spec_rows_fetched(),
            r@ == self.spec_columns()[col_index as int].spec_i32_values().take(
                self.spec_rows_fetched() as int,
            ),
    {
        proof {
            assert(self.spec_columns()[col_index as int].spec_capacity()
                == self.spec_batch_size());
        }
        match &self.buffers[col_index] {
            AnyColumnBuffer::I32 { values } => take_prefix(values, self.num_rows_fetched),
            _ => unreached(),
        }
    }

    /// Visible 64-bit integer values of the fetched rows.
    pub fn i64_it(&self, col_index: usize) -> (r: Vec<Option<i64>>)
        requires
            self.wf(),
            col_index < self.spec_columns().len(),
            self.spec_columns()[col_index as int] is I64,
        ensures
            r@.len() == self.spec_rows_fetched(),
            r@ == self.spec_columns()[col_index as int].spec_i64_values().take(
                self.spec_rows_fetched() as int,
            ),
    {
        proof {
            assert(self.spec_columns()[col_index as int].spec_capacity()
                == self.spec_batch_size());
        }
        match &self.buffers[col_index] {
            AnyColumnBuffer::I64 { values } => take_prefix(values, self.num_rows_fetched),
            _ => unreached(),
        }
    }

    /// Visible boolean values of the fetched rows.
    pub fn bool_it(&self, col_index: usize) -> (r: Vec<Option<bool>>)
        requires
            self.wf(),
            col_index < self.spec_columns().len(),
            self.spec_columns()[col_index as int] is Bit,
        ensures
            r@.len() == self.spec_rows_fetched(),
            r@ == self.spec_columns()[col_index as int].spec_bool_values().take(
                self.spec_rows_fetched() as int,
            ),
    {
        proof {
            assert(self.spec_columns()[col_index as int].spec_capacity()
                == self.spec_batch_size());
        }
        match &self.buffers[col_index] {
            AnyColumnBuffer::Bit { values } => take_prefix(values, self.num_rows_fetched),
            _ => unreached(),
        }
    }
}

} // verus!
