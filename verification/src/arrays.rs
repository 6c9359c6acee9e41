//! Arrow arrays and builders as the kernel reads and fills them.
//!
//! Verus cannot see Arrow's array types. Each array and each builder is held
//! in a struct of this module, and what the kernel knows of it is what the
//! functions below say of its cells. A host wraps the array it holds, which
//! costs no copy, and takes the array of the output out again.

use datafusion::arrow::array::Array;
use vstd::prelude::*;

verus! {

/// The cells of a string array as texts, in row order; `None` is a null.
pub type Cells = Seq<Option<Seq<char>>>;

/// The length in bytes of the UTF-8 encoding of `text`.
pub open spec fn utf8_bytes(text: Seq<char>) -> nat {
    vstd::utf8::encode_utf8(text).len()
}

/// The bytes of all texts of `cells` together.
pub open spec fn total_bytes(cells: Cells) -> nat
    decreases cells.len(),
{
    if cells.len() == 0 {
        0
    } else {
        total_bytes(cells.drop_last()) + match cells.last() {
            Some(text) => utf8_bytes(text),
            None => 0,
        }
    }
}

/// The number of nulls among `cells`.
pub open spec fn null_total<T>(cells: Seq<Option<T>>) -> nat
    decreases cells.len(),
{
    if cells.len() == 0 {
        0
    } else {
        null_total(cells.drop_last()) + if cells.last() is None {
            1nat
        } else {
            0nat
        }
    }
}

/// The most rows and the most bytes that a builder reserves room for when it
/// is made.
pub const RESERVE_LIMIT: usize = 0x00ff_ffff;

/// A `Utf8` array of Arrow: optional strings with 32-bit offsets.
#[verifier::external_body]
#[derive(Debug)]
pub struct Utf8Array {
    /// The array of Arrow.
    pub array: datafusion::arrow::array::StringArray,
}

/// The cells of a `Utf8` array.
pub uninterp spec fn utf8_cells(a: Utf8Array) -> Cells;

/// `Array::len` of a `Utf8` array: the number of rows.
#[verifier::external_body]
pub(crate) fn utf8_len(a: &Utf8Array) -> (n: usize)
    ensures
        n == utf8_cells(*a).len(),
{
    a.array.len()
}

/// `GenericByteArray::value_offsets` of a `Utf8` array: the offsets of the
/// array, one more than it has rows. The last of them is where the text of
/// the last row ends; the texts of the rows lie one after the other below
/// it, so their bytes together are at most that.
#[verifier::external_body]
pub(crate) fn utf8_offsets<'a>(a: &'a Utf8Array) -> (offsets: &'a [i32])
    ensures
        offsets@.len() == utf8_cells(*a).len() + 1,
        total_bytes(utf8_cells(*a)) <= offsets@[offsets@.len() - 1],
{
    a.array.value_offsets()
}

/// `Array::null_count` of a `Utf8` array: the number of null rows.
#[verifier::external_body]
pub(crate) fn utf8_null_count(a: &Utf8Array) -> (n: usize)
    ensures
        n == null_total(utf8_cells(*a)),
{
    a.array.null_count()
}

/// `Array::is_null` of a `Utf8` array: whether the row at `i` is null.
#[verifier::external_body]
pub(crate) fn utf8_is_null(a: &Utf8Array, i: usize) -> (b: bool)
    requires
        i < utf8_cells(*a).len(),
    ensures
        b == (utf8_cells(*a)[i as int] is None),
{
    a.array.is_null(i)
}

/// `GenericByteArray::value` of a `Utf8` array: the text of the row at `i`.
/// Nothing is claimed of what it gives for a null row. It panics for a row
/// beyond the last, which `requires` leaves out.
#[verifier::external_body]
pub(crate) fn utf8_value<'a>(a: &'a Utf8Array, i: usize) -> (s: &'a str)
    requires
        i < utf8_cells(*a).len(),
    ensures
        utf8_cells(*a)[i as int] matches Some(text) ==> s@ == text,
{
    a.array.value(i)
}

/// A `LargeUtf8` array of Arrow: optional strings with 64-bit offsets.
#[verifier::external_body]
#[derive(Debug)]
pub struct LargeUtf8Array {
    /// The array of Arrow.
    pub array: datafusion::arrow::array::LargeStringArray,
}

/// The cells of a `LargeUtf8` array.
pub uninterp spec fn large_utf8_cells(a: LargeUtf8Array) -> Cells;

/// `Array::len` of a `LargeUtf8` array: the number of rows.
#[verifier::external_body]
pub(crate) fn large_utf8_len(a: &LargeUtf8Array) -> (n: usize)
    ensures
        n == large_utf8_cells(*a).len(),
{
    a.array.len()
}

/// `GenericByteArray::value_offsets` of a `LargeUtf8` array: the offsets of the
/// array, one more than it has rows. The last of them is where the text of
/// the last row ends; the texts of the rows lie one after the other below
/// it, so their bytes together are at most that.
#[verifier::external_body]
pub(crate) fn large_utf8_offsets<'a>(a: &'a LargeUtf8Array) -> (offsets: &'a [i64])
    ensures
        offsets@.len() == large_utf8_cells(*a).len() + 1,
        total_bytes(large_utf8_cells(*a)) <= offsets@[offsets@.len() - 1],
{
    a.array.value_offsets()
}

/// `Array::null_count` of a `LargeUtf8` array: the number of null rows.
#[verifier::external_body]
pub(crate) fn large_utf8_null_count(a: &LargeUtf8Array) -> (n: usize)
    ensures
        n == null_total(large_utf8_cells(*a)),
{
    a.array.null_count()
}

/// `Array::is_null` of a `LargeUtf8` array: whether the row at `i` is null.
#[verifier::external_body]
pub(crate) fn large_utf8_is_null(a: &LargeUtf8Array, i: usize) -> (b: bool)
    requires
        i < large_utf8_cells(*a).len(),
    ensures
        b == (large_utf8_cells(*a)[i as int] is None),
{
    a.array.is_null(i)
}

/// `GenericByteArray::value` of a `LargeUtf8` array: the text of the row at `i`.
/// Nothing is claimed of what it gives for a null row. It panics for a row
/// beyond the last, which `requires` leaves out.
#[verifier::external_body]
pub(crate) fn large_utf8_value<'a>(a: &'a LargeUtf8Array, i: usize) -> (s: &'a str)
    requires
        i < large_utf8_cells(*a).len(),
    ensures
        large_utf8_cells(*a)[i as int] matches Some(text) ==> s@ == text,
{
    a.array.value(i)
}

/// An `Int32` array of Arrow: optional 32-bit signed integers.
#[verifier::external_body]
#[derive(Debug)]
pub struct Int32Array {
    /// The array of Arrow.
    pub array: datafusion::arrow::array::Int32Array,
}

/// The cells of an `Int32` array, in row order; `None` is a null.
pub uninterp spec fn int32_cells(a: Int32Array) -> Seq<Option<i32>>;

/// `Array::len` of an `Int32` array: the number of rows.
#[verifier::external_body]
pub(crate) fn int32_len(a: &Int32Array) -> (n: usize)
    ensures
        n == int32_cells(*a).len(),
{
    a.array.len()
}

/// `Array::null_count` of an `Int32` array: the number of null rows.
#[verifier::external_body]
pub(crate) fn int32_null_count(a: &Int32Array) -> (n: usize)
    ensures
        n == null_total(int32_cells(*a)),
{
    a.array.null_count()
}

/// `Array::is_null` of an `Int32` array: whether the row at `i` is null.
#[verifier::external_body]
pub(crate) fn int32_is_null(a: &Int32Array, i: usize) -> (b: bool)
    requires
        i < int32_cells(*a).len(),
    ensures
        b == (int32_cells(*a)[i as int] is None),
{
    a.array.is_null(i)
}

/// `PrimitiveArray::value` of an `Int32` array: the integer of the row at
/// `i`. Nothing is claimed of what it gives for a null row. It panics for a
/// row beyond the last, which `requires` leaves out.
#[verifier::external_body]
pub(crate) fn int32_value(a: &Int32Array, i: usize) -> (v: i32)
    requires
        i < int32_cells(*a).len(),
    ensures
        int32_cells(*a)[i as int] matches Some(x) ==> v == x,
{
    a.array.value(i)
}

/// An `Int64` array of Arrow: optional 64-bit signed integers.
#[verifier::external_body]
#[derive(Debug)]
pub struct Int64Array {
    /// The array of Arrow.
    pub array: datafusion::arrow::array::Int64Array,
}

/// The cells of an `Int64` array, in row order; `None` is a null.
pub uninterp spec fn int64_cells(a: Int64Array) -> Seq<Option<i64>>;

/// `Array::len` of an `Int64` array: the number of rows.
#[verifier::external_body]
pub(crate) fn int64_len(a: &Int64Array) -> (n: usize)
    ensures
        n == int64_cells(*a).len(),
{
    a.array.len()
}

/// `Array::null_count` of an `Int64` array: the number of null rows.
#[verifier::external_body]
pub(crate) fn int64_null_count(a: &Int64Array) -> (n: usize)
    ensures
        n == null_total(int64_cells(*a)),
{
    a.array.null_count()
}

/// `Array::is_null` of an `Int64` array: whether the row at `i` is null.
#[verifier::external_body]
pub(crate) fn int64_is_null(a: &Int64Array, i: usize) -> (b: bool)
    requires
        i < int64_cells(*a).len(),
    ensures
        b == (int64_cells(*a)[i as int] is None),
{
    a.array.is_null(i)
}

/// `PrimitiveArray::value` of an `Int64` array: the integer of the row at
/// `i`. Nothing is claimed of what it gives for a null row. It panics for a
/// row beyond the last, which `requires` leaves out.
#[verifier::external_body]
pub(crate) fn int64_value(a: &Int64Array, i: usize) -> (v: i64)
    requires
        i < int64_cells(*a).len(),
    ensures
        int64_cells(*a)[i as int] matches Some(x) ==> v == x,
{
    a.array.value(i)
}

/// A builder of Arrow for `Utf8` arrays.
#[verifier::external_body]
#[derive(Debug)]
pub struct Utf8Builder {
    builder: datafusion::arrow::array::StringBuilder,
}

/// The cells appended to a `Utf8` builder since it was made or last
/// finished.
pub uninterp spec fn utf8_builder_cells(b: Utf8Builder) -> Cells;

/// `GenericByteBuilder::with_capacity`: an empty builder with room for
/// `items` rows and `bytes` bytes. Larger capacities are left out: sizing the
/// buffers for them can overflow, which panics.
#[verifier::external_body]
pub(crate) fn utf8_builder(items: usize, bytes: usize) -> (b: Utf8Builder)
    requires
        items <= RESERVE_LIMIT,
        bytes <= RESERVE_LIMIT,
    ensures
        utf8_builder_cells(b) == Cells::empty(),
{
    Utf8Builder { builder: datafusion::arrow::array::StringBuilder::with_capacity(items, bytes) }
}

/// `GenericByteBuilder::append_value`: appends the row `text`. It panics
/// where the bytes of all rows together would exceed `i32::MAX`, which
/// `requires` leaves out.
#[verifier::external_body]
pub(crate) fn utf8_append_value(b: &mut Utf8Builder, text: &str)
    requires
        total_bytes(utf8_builder_cells(*old(b))) + utf8_bytes(text@) <= i32::MAX,
    ensures
        utf8_builder_cells(*final(b)) == utf8_builder_cells(*old(b)).push(Some(text@)),
{
    b.builder.append_value(text)
}

/// `GenericByteBuilder::append_null`: appends a null row. It panics where the
/// bytes of the rows so far exceed the largest offset, which `requires`
/// leaves out.
#[verifier::external_body]
pub(crate) fn utf8_append_null(b: &mut Utf8Builder)
    requires
        total_bytes(utf8_builder_cells(*old(b))) <= i32::MAX,
    ensures
        utf8_builder_cells(*final(b)) == utf8_builder_cells(*old(b)).push(None),
{
    b.builder.append_null()
}

/// `GenericByteBuilder::finish`: the array of the rows appended so far; the
/// builder is empty again.
#[verifier::external_body]
pub(crate) fn utf8_finish(b: &mut Utf8Builder) -> (a: Utf8Array)
    ensures
        utf8_cells(a) == utf8_builder_cells(*old(b)),
        utf8_builder_cells(*final(b)) == Cells::empty(),
{
    Utf8Array { array: b.builder.finish() }
}

/// A builder of Arrow for `LargeUtf8` arrays.
#[verifier::external_body]
#[derive(Debug)]
pub struct LargeUtf8Builder {
    builder: datafusion::arrow::array::LargeStringBuilder,
}

/// The cells appended to a `LargeUtf8` builder since it was made or last
/// finished.
pub uninterp spec fn large_utf8_builder_cells(b: LargeUtf8Builder) -> Cells;

/// `GenericByteBuilder::with_capacity`: an empty builder with room for
/// `items` rows and `bytes` bytes. Larger capacities are left out: sizing the
/// buffers for them can overflow, which panics.
#[verifier::external_body]
pub(crate) fn large_utf8_builder(items: usize, bytes: usize) -> (b: LargeUtf8Builder)
    requires
        items <= RESERVE_LIMIT,
        bytes <= RESERVE_LIMIT,
    ensures
        large_utf8_builder_cells(b) == Cells::empty(),
{
    LargeUtf8Builder {
        builder: datafusion::arrow::array::LargeStringBuilder::with_capacity(items, bytes),
    }
}

/// `GenericByteBuilder::append_value`: appends the row `text`. It panics
/// where the bytes of all rows together would exceed `i64::MAX`, which
/// `requires` leaves out.
#[verifier::external_body]
pub(crate) fn large_utf8_append_value(b: &mut LargeUtf8Builder, text: &str)
    requires
        total_bytes(large_utf8_builder_cells(*old(b))) + utf8_bytes(text@) <= i64::MAX,
    ensures
        large_utf8_builder_cells(*final(b)) == large_utf8_builder_cells(*old(b)).push(Some(text@)),
{
    b.builder.append_value(text)
}

/// `GenericByteBuilder::append_null`: appends a null row. It panics where the
/// bytes of the rows so far exceed the largest offset, which `requires`
/// leaves out.
#[verifier::external_body]
pub(crate) fn large_utf8_append_null(b: &mut LargeUtf8Builder)
    requires
        total_bytes(large_utf8_builder_cells(*old(b))) <= i64::MAX,
    ensures
        large_utf8_builder_cells(*final(b)) == large_utf8_builder_cells(*old(b)).push(None),
{
    b.builder.append_null()
}

/// `GenericByteBuilder::finish`: the array of the rows appended so far; the
/// builder is empty again.
#[verifier::external_body]
pub(crate) fn large_utf8_finish(b: &mut LargeUtf8Builder) -> (a: LargeUtf8Array)
    ensures
        large_utf8_cells(a) == large_utf8_builder_cells(*old(b)),
        large_utf8_builder_cells(*final(b)) == Cells::empty(),
{
    LargeUtf8Array { array: b.builder.finish() }
}

} // verus!
