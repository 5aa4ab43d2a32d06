//! What a per-column fetch strategy presents to the orchestrator: the
//! physical schema node it will declare downstream and the staging buffer
//! shape it needs upstream.

use crate::odbc_buffer::ColumnBufferDescription;
use vstd::prelude::*;

verus! {

/// Whether the schema node admits nulls.
#[derive(Clone, Copy, PartialEq, Eq, Structural, Debug)]
pub enum Repetition {
    Optional,
    Required,
}

/// Physical on-disk representation of a column.
#[derive(Clone, Copy, PartialEq, Eq, Structural, Debug)]
pub enum PhysicalType {
    Int32,
    Int64,
    FixedLenByteArray,
}

/// Logical annotation over the physical type.
#[derive(Clone, Copy, PartialEq, Eq, Structural, Debug)]
pub enum ConvertedType {
    General,
    Decimal,
}

/// Shape of a primitive schema node: everything but the column name.
/// `length` is the byte width of a fixed-length byte array and zero for
/// the integer physical types.
#[derive(Clone, Copy, PartialEq, Eq, Structural, Debug)]
pub struct SchemaShape {
    pub physical_type: PhysicalType,
    pub repetition: Repetition,
    pub converted_type: ConvertedType,
    pub precision: i32,
    pub scale: i32,
    pub length: usize,
}

/// One column's primitive schema node, emitted once before any data flows.
pub struct SchemaNode {
    pub name: String,
    pub shape: SchemaShape,
}

/// The staging buffer a strategy asks the row-set buffer to bind.
#[derive(Clone, Copy, PartialEq, Eq, Structural, Debug)]
pub struct BufferDescription {
    pub kind: ColumnBufferDescription,
    pub nullable: bool,
}

} // verus!
