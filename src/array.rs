//! Arrays of both sides over one shared columnar layout, and the hand-off between them.
//!
//! Both implementations lay an array out the same way: a length, an optional validity
//! bitmap, value buffers and child arrays. `ArrayData` is that layout. An array of either
//! side pairs it with that side's logical type. Converting an array moves its layout to
//! the other side unchanged, so exactly one side owns the buffers at any time.
//!
//! The imports of the two implementations take the target type on trust, so the library
//! checks it first: a hand-off goes ahead only when the destination type lays its data out
//! exactly as the source type does, that is, when the destination side's own mapping of
//! the destination type gives back the source type. A data-access type that is not in its
//! canonical form (32-bit offsets, seconds, `Date64`, ...) therefore cannot be handed over
//! as is. When the check fails, the source array is handed back to the caller whole.
use vstd::prelude::*;
use crate::dtype::{b_to_a, to_a, ArrowType, ConversionError, PolarsType};

verus! {

/// The layout of one array: length, validity bitmap, value buffers and child arrays.
#[derive(Debug, PartialEq, Eq)]
pub struct ArrayData {
    pub len: usize,
    /// `validity[i]` is false where row `i` is null; no bitmap means no nulls.
    pub validity: Option<Vec<bool>>,
    pub buffers: Vec<Vec<u8>>,
    pub children: Vec<ArrayData>,
}

/// An array of the data-access side.
#[derive(Debug, PartialEq, Eq)]
pub struct ArrowArray {
    pub data_type: ArrowType,
    pub data: ArrayData,
}

/// An array of the dataframe side.
#[derive(Debug, PartialEq, Eq)]
pub struct PolarsArray {
    pub dtype: PolarsType,
    pub data: ArrayData,
}

/// The validity bitmap, where there is one, covers exactly the array's rows.
pub open spec fn bitmap_consistent(d: ArrayData) -> bool {
    d.validity is Some ==> d.validity->Some_0@.len() == d.len
}

/// A struct-shaped layout: its bitmap covers its rows, and every child has as many rows as
/// the parent.
pub open spec fn struct_layout_consistent(d: ArrayData) -> bool {
    &&& bitmap_consistent(d)
    &&& forall|c: int| 0 <= c < d.children@.len() ==> (#[trigger] d.children@[c]).len == d.len
}

/// Row `i` of the array is null.
pub open spec fn is_null(d: ArrayData, i: int) -> bool {
    &&& d.validity is Some
    &&& 0 <= i < d.validity->Some_0@.len()
    &&& !d.validity->Some_0@[i]
}

fn check_bitmap(d: &ArrayData) -> (r: bool)
    ensures
        r == bitmap_consistent(*d),
{
    match &d.validity {
        Some(v) => v.len() == d.len,
        None => true,
    }
}

/// Hands a data-access array over to the dataframe side as an array of type
/// `polars_arrow_dtype`.
///
/// The hand-off goes ahead exactly when the dataframe side exports that type as the
/// source's type, so both lay the data out alike, and the validity bitmap covers the
/// array's rows. The layout then moves over
/// unchanged, nested children and their bitmaps included, so the same rows are null.
/// Otherwise the error is `ArrayConversion` and the source array comes back untouched.
pub fn convert_arrow_rs_array_to_polars_arrow_array(
    arrow_rs_array: ArrowArray,
    polars_arrow_dtype: PolarsType,
) -> (r: Result<PolarsArray, (ConversionError, ArrowArray)>)
    ensures
        r is Ok <==> (b_to_a(polars_arrow_dtype@) == Some(arrow_rs_array.data_type@)
            && bitmap_consistent(arrow_rs_array.data)),
        r is Ok ==> r->Ok_0.dtype == polars_arrow_dtype && r->Ok_0.data == arrow_rs_array.data,
        r is Ok ==> forall|i: int| #[trigger] is_null(r->Ok_0.data, i) == is_null(arrow_rs_array.data, i),
        r is Err ==> r->Err_0.0 == ConversionError::ArrayConversion && r->Err_0.1 == arrow_rs_array,
{
    let accepted = match to_a(&polars_arrow_dtype) {
        Ok(t) => t.same_as(&arrow_rs_array.data_type) && check_bitmap(&arrow_rs_array.data),
        Err(_) => false,
    };
    if accepted {
        Ok(PolarsArray { dtype: polars_arrow_dtype, data: arrow_rs_array.data })
    } else {
        Err((ConversionError::ArrayConversion, arrow_rs_array))
    }
}

/// Hands a dataframe array over to the data-access side as an array of type
/// `arrow_datatype`.
///
/// The hand-off goes ahead exactly when that type is the one the dataframe side exports
/// the source type as, so both lay the data out alike, and the validity bitmap covers the
/// array's rows. The layout then moves over
/// unchanged, so the same rows are null. Otherwise the error is `ArrayConversion` and the
/// source array comes back untouched.
pub fn convert_polars_arrow_array_to_arrow_rs_array(
    polars_array: PolarsArray,
    arrow_datatype: ArrowType,
) -> (r: Result<ArrowArray, (ConversionError, PolarsArray)>)
    ensures
        r is Ok <==> (b_to_a(polars_array.dtype@) == Some(arrow_datatype@)
            && bitmap_consistent(polars_array.data)),
        r is Ok ==> r->Ok_0.data_type == arrow_datatype && r->Ok_0.data == polars_array.data,
        r is Ok ==> forall|i: int| #[trigger] is_null(r->Ok_0.data, i) == is_null(polars_array.data, i),
        r is Err ==> r->Err_0.0 == ConversionError::ArrayConversion && r->Err_0.1 == polars_array,
{
    let accepted = match to_a(&polars_array.dtype) {
        Ok(t) => t.same_as(&arrow_datatype) && check_bitmap(&polars_array.data),
        Err(_) => false,
    };
    if accepted {
        Ok(ArrowArray { data_type: arrow_datatype, data: polars_array.data })
    } else {
        Err((ConversionError::ArrayConversion, polars_array))
    }
}

} // verus!
