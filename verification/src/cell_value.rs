//! The scalar value vocabulary shared by query parameters and decoded cells.

use vstd::prelude::*;

verus! {

/// One scalar database value: a tagged union of null, boolean, 64-bit
/// signed integer, 64-bit float and text.
///
/// The float variant carries the IEEE 754 bit pattern of the value rather
/// than the value itself, so that the decoder's contracts can speak of it
/// exactly; callers that need the numeric value reinterpret the bits.
#[derive(Clone, Debug, PartialEq)]
pub enum CellValue {
    Null,
    Bool(bool),
    Number(i64),
    Float(u64),
    Text(String),
}

} // verus!
