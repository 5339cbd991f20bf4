//! The trusted boundary to the arrow columnar memory format.
//!
//! A field's type and a column's payload are arrow values carried
//! through the library opaquely: contracts speak of them only through
//! the names and wrappers below, each of which relies on one arrow item.

use vstd::prelude::*;

use arrow::array::Array;
use arrow::array::ArrayData;
use arrow::array::StringArray;
use arrow::datatypes::DataType;

verus! {

#[verifier::external_type_specification]
#[verifier::external_body]
pub struct ExDataType(DataType);

#[verifier::external_type_specification]
#[verifier::external_body]
pub struct ExArrayData(ArrayData);

/// Relies on DataType's derived Clone: the copy equals the original.
pub assume_specification[ <DataType as Clone>::clone ](d: &DataType) -> (r: DataType)
    ensures
        r == *d,
;

/// Relies on DataType's derived PartialEq: structural equality of two
/// type descriptions.
pub assume_specification[ <DataType as PartialEq>::eq ](a: &DataType, b: &DataType) -> (r: bool)
    ensures
        r == (a == b),
;

/// Relies on ArrayData's derived Clone: the copy equals the original.
/// Buffers are reference-counted, so this is cheap.
pub assume_specification[ <ArrayData as Clone>::clone ](a: &ArrayData) -> (r: ArrayData)
    ensures
        r == *a,
;

/// The number of rows a column payload holds.
pub uninterp spec fn array_len(a: ArrayData) -> nat;

/// Relies on ArrayData::len: the row count of the column payload.
#[verifier::external_body]
pub(crate) fn array_data_len(a: &ArrayData) -> (n: usize)
    ensures
        n as nat == array_len(*a),
{
    a.len()
}

/// Whether an all-null column of this type can be synthesized: false
/// exactly for the composite kinds (list, struct, union, dictionary,
/// map, run-end encoded), whose defaults the engine refuses, and for a
/// negative fixed-size-binary width. On everything that remains,
/// ArrayData::new_null is defined and panic-free.
pub uninterp spec fn null_default_supported(dt: DataType) -> bool;

/// Relies on DataType's variants: tells the composite kinds, for which
/// no default column exists, apart from the rest.
#[verifier::external_body]
pub(crate) fn can_synthesize_null(dt: &DataType) -> (b: bool)
    ensures
        b == null_default_supported(*dt),
{
    match dt {
        DataType::List(_)
        | DataType::LargeList(_)
        | DataType::FixedSizeList(_, _)
        | DataType::ListView(_)
        | DataType::LargeListView(_)
        | DataType::Struct(_)
        | DataType::Union(_, _)
        | DataType::Dictionary(_, _)
        | DataType::Map(_, _)
        | DataType::RunEndEncoded(_, _) => false,
        DataType::FixedSizeBinary(w) => *w >= 0,
        _ => true,
    }
}

/// Whether a type is the primary textual kind, whose synthesized
/// default is a column of empty strings rather than an absence marker.
pub uninterp spec fn is_utf8_native(dt: DataType) -> bool;

/// Relies on DataType's variants: recognizes the primary textual kind.
#[verifier::external_body]
pub(crate) fn is_textual(dt: &DataType) -> (b: bool)
    ensures
        b == is_utf8_native(*dt),
{
    match dt {
        DataType::Utf8 => true,
        _ => false,
    }
}

/// The all-null column of a given type and row count; a function of the
/// two arguments alone.
pub uninterp spec fn null_array_of(dt: DataType, n: nat) -> ArrayData;

/// Relies on ArrayData::new_null: a column of the given type holding
/// `n` null values. The precondition keeps out the kinds on which
/// new_null panics.
#[verifier::external_body]
pub(crate) fn make_null_array(dt: &DataType, n: usize) -> (a: ArrayData)
    requires
        null_default_supported(*dt),
    ensures
        array_len(a) == n as nat,
        a == null_array_of(*dt, n as nat),
{
    ArrayData::new_null(dt, n)
}

/// The textual column of `n` empty strings; a function of `n` alone.
pub uninterp spec fn empty_text_array_of(n: nat) -> ArrayData;

/// Relies on StringArray::from: a textual column holding `n` empty
/// strings, each present rather than null.
#[verifier::external_body]
pub(crate) fn make_empty_text_array(n: usize) -> (a: ArrayData)
    ensures
        array_len(a) == n as nat,
        a == empty_text_array_of(n as nat),
{
    StringArray::from(vec![""; n]).into_data()
}

} // verus!
