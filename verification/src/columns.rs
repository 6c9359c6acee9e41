//! The columns that the kernel reads and writes, of either string width and
//! of either integer width.

use crate::arrays::{
    int32_cells, int32_is_null, int32_len, int32_null_count, int32_value, int64_cells,
    int64_is_null, int64_len, int64_null_count, int64_value, large_utf8_append_null,
    large_utf8_append_value, large_utf8_builder, large_utf8_builder_cells, large_utf8_cells,
    large_utf8_offsets, large_utf8_finish, large_utf8_is_null, large_utf8_len,
    large_utf8_null_count, large_utf8_value, null_total, total_bytes, utf8_append_null,
    utf8_append_value, utf8_builder, utf8_builder_cells, utf8_bytes, utf8_cells, utf8_offsets,
    utf8_finish, utf8_is_null, utf8_len, utf8_null_count, utf8_value, Cells, Int32Array,
    Int64Array, LargeUtf8Array, LargeUtf8Builder, Utf8Array, Utf8Builder, RESERVE_LIMIT,
};
use vstd::prelude::*;

verus! {

/// The width class of a string column: the size of its byte offsets.
#[derive(Debug, Clone, Copy, PartialEq, Eq, Structural)]
pub enum StringWidth {
    /// 32-bit offsets.
    Utf8,
    /// 64-bit offsets.
    LargeUtf8,
}

/// The most bytes that the rows of a column of the width `width` hold
/// together: the largest offset of that width.
pub open spec fn offset_limit(width: StringWidth) -> nat {
    match width {
        StringWidth::Utf8 => i32::MAX as nat,
        StringWidth::LargeUtf8 => i64::MAX as nat,
    }
}

/// A column of optional strings of either width, read in place.
#[derive(Debug, Clone, Copy)]
pub enum StringColumn<'a> {
    Utf8(&'a Utf8Array),
    LargeUtf8(&'a LargeUtf8Array),
}

/// A column of optional integers of 32 or 64 bits, read in place. The kernel
/// reads every value as a 64-bit signed integer.
#[derive(Debug, Clone, Copy)]
pub enum IndexColumn<'a> {
    Int32(&'a Int32Array),
    Int64(&'a Int64Array),
}

/// The output column of an invocation, of the width of its subject column.
#[derive(Debug)]
pub enum OutputColumn {
    Utf8(Utf8Array),
    LargeUtf8(LargeUtf8Array),
}

/// The output column while it is built, one row at a time.
#[derive(Debug)]
pub enum OutputBuilder {
    Utf8(Utf8Builder),
    LargeUtf8(LargeUtf8Builder),
}

/// A 32-bit cell read as a 64-bit one.
pub open spec fn widened(v: Option<i32>) -> Option<i64> {
    match v {
        Some(x) => Some(x as i64),
        None => None,
    }
}

/// The text of an optional string slice.
pub open spec fn slice_text(s: Option<&str>) -> Option<Seq<char>> {
    match s {
        Some(t) => Some(t@),
        None => None,
    }
}

/// The bytes of the texts of the rows before `upto`.
pub open spec fn bytes_before(cells: Cells, upto: nat) -> nat
    decreases upto,
{
    if upto == 0 {
        0
    } else {
        bytes_before(cells, (upto - 1) as nat) + match cells[upto - 1] {
            Some(text) => utf8_bytes(text),
            None => 0,
        }
    }
}

/// Appending a row adds the bytes of its text.
pub proof fn lemma_total_bytes_push(cells: Cells, cell: Option<Seq<char>>)
    ensures
        total_bytes(cells.push(cell)) == total_bytes(cells) + match cell {
            Some(text) => utf8_bytes(text),
            None => 0,
        },
{
    assert(cells.push(cell).drop_last() =~= cells);
    assert(cells.push(cell).last() == cell);
}

/// The bytes of the rows before `upto` are those of the column cut at `upto`.
pub proof fn lemma_bytes_before(cells: Cells, upto: nat)
    requires
        upto <= cells.len(),
    ensures
        bytes_before(cells, upto) == total_bytes(cells.take(upto as int)),
    decreases upto,
{
    if upto > 0 {
        lemma_bytes_before(cells, (upto - 1) as nat);
        assert(cells.take(upto as int).drop_last() =~= cells.take(upto - 1));
        assert(cells.take(upto as int).last() == cells[upto - 1]);
    }
}

/// The bytes of the rows before `upto` grow with `upto`.
pub proof fn lemma_bytes_before_grows(cells: Cells, a: nat, b: nat)
    requires
        a <= b,
    ensures
        bytes_before(cells, a) <= bytes_before(cells, b),
    decreases b,
{
    if a < b {
        lemma_bytes_before_grows(cells, a, (b - 1) as nat);
    }
}

/// A column without nulls is one in which every cell holds a value.
pub proof fn lemma_no_nulls<T>(cells: Seq<Option<T>>)
    ensures
        null_total(cells) == 0 <==> forall|i: int| 0 <= i < cells.len() ==> cells[i] is Some,
    decreases cells.len(),
{
    if cells.len() > 0 {
        let front = cells.drop_last();
        lemma_no_nulls(front);
        if null_total(cells) == 0 {
            assert forall|i: int| 0 <= i < cells.len() implies cells[i] is Some by {
                if i < front.len() {
                    assert(front[i] == cells[i]);
                }
            }
        }
        if forall|i: int| 0 <= i < cells.len() ==> cells[i] is Some {
            assert forall|i: int| 0 <= i < front.len() implies front[i] is Some by {
                assert(front[i] == cells[i]);
            }
            assert(cells.last() == cells[cells.len() - 1]);
        }
    }
}

impl<'a> StringColumn<'a> {
    /// The cells of the column as texts, in row order; `None` is a null.
    pub open spec fn cells(&self) -> Cells {
        match self {
            StringColumn::Utf8(a) => utf8_cells(**a),
            StringColumn::LargeUtf8(a) => large_utf8_cells(**a),
        }
    }

    /// The width class of the column.
    pub open spec fn width(&self) -> StringWidth {
        match self {
            StringColumn::Utf8(_) => StringWidth::Utf8,
            StringColumn::LargeUtf8(_) => StringWidth::LargeUtf8,
        }
    }

    /// The width class of the column.
    pub fn string_width(&self) -> (w: StringWidth)
        ensures
            w == self.width(),
    {
        match self {
            StringColumn::Utf8(_) => StringWidth::Utf8,
            StringColumn::LargeUtf8(_) => StringWidth::LargeUtf8,
        }
    }

    /// The number of rows.
    pub fn len(&self) -> (n: usize)
        ensures
            n == self.cells().len(),
    {
        match self {
            StringColumn::Utf8(a) => utf8_len(a),
            StringColumn::LargeUtf8(a) => large_utf8_len(a),
        }
    }

    /// The number of null rows.
    pub fn null_count(&self) -> (n: usize)
        ensures
            n == null_total(self.cells()),
    {
        match self {
            StringColumn::Utf8(a) => utf8_null_count(a),
            StringColumn::LargeUtf8(a) => large_utf8_null_count(a),
        }
    }

    /// Whether no row is null.
    pub fn has_no_nulls(&self) -> (b: bool)
        ensures
            b == (forall|i: int| 0 <= i < self.cells().len() ==> self.cells()[i] is Some),
    {
        proof {
            lemma_no_nulls(self.cells());
        }
        self.null_count() == 0
    }

    /// Whether the row at `i` is null.
    pub fn is_null(&self, i: usize) -> (b: bool)
        requires
            i < self.cells().len(),
        ensures
            b == (self.cells()[i as int] is None),
    {
        match self {
            StringColumn::Utf8(a) => utf8_is_null(a, i),
            StringColumn::LargeUtf8(a) => large_utf8_is_null(a, i),
        }
    }

    /// The text of the row at `i`, where that row is not null; nothing is
    /// said of what a null row gives.
    pub fn value(&self, i: usize) -> (s: &'a str)
        requires
            i < self.cells().len(),
        ensures
            self.cells()[i as int] matches Some(text) ==> s@ == text,
    {
        match self {
            StringColumn::Utf8(a) => utf8_value(a, i),
            StringColumn::LargeUtf8(a) => large_utf8_value(a, i),
        }
    }

    /// The row at `i`: its text, or `None` for a null.
    pub fn get(&self, i: usize) -> (s: Option<&'a str>)
        requires
            i < self.cells().len(),
        ensures
            slice_text(s) == self.cells()[i as int],
    {
        if self.is_null(i) {
            None
        } else {
            Some(self.value(i))
        }
    }

    /// Learns, from the last offset of the column, that the bytes of its rows
    /// together fit the offsets of its width. Returns that offset.
    pub fn end_offset(&self) -> (end: i64)
        ensures
            total_bytes(self.cells()) <= end,
            end <= offset_limit(self.width()),
    {
        match self {
            StringColumn::Utf8(a) => {
                let offsets = utf8_offsets(a);
                offsets[offsets.len() - 1] as i64
            },
            StringColumn::LargeUtf8(a) => {
                let offsets = large_utf8_offsets(a);
                offsets[offsets.len() - 1]
            },
        }
    }
}

impl<'a> IndexColumn<'a> {
    /// The cells of the column in row order, each widened to 64 bits; `None`
    /// is a null.
    pub open spec fn cells(&self) -> Seq<Option<i64>> {
        match self {
            IndexColumn::Int32(a) => Seq::new(
                int32_cells(**a).len(),
                |i: int| widened(int32_cells(**a)[i]),
            ),
            IndexColumn::Int64(a) => int64_cells(**a),
        }
    }

    /// The number of rows.
    pub fn len(&self) -> (n: usize)
        ensures
            n == self.cells().len(),
    {
        match self {
            IndexColumn::Int32(a) => int32_len(a),
            IndexColumn::Int64(a) => int64_len(a),
        }
    }

    /// Whether no row is null.
    pub fn has_no_nulls(&self) -> (b: bool)
        ensures
            b == (forall|i: int| 0 <= i < self.cells().len() ==> self.cells()[i] is Some),
    {
        match self {
            IndexColumn::Int32(a) => {
                proof {
                    let narrow = int32_cells(**a);
                    lemma_no_nulls(narrow);
                    assert forall|i: int| 0 <= i < narrow.len() implies (narrow[i] is Some
                        <==> self.cells()[i] is Some) by {}
                }
                int32_null_count(a) == 0
            },
            IndexColumn::Int64(a) => {
                proof {
                    lemma_no_nulls(int64_cells(**a));
                }
                int64_null_count(a) == 0
            },
        }
    }

    /// Whether the row at `i` is null.
    pub fn is_null(&self, i: usize) -> (b: bool)
        requires
            i < self.cells().len(),
        ensures
            b == (self.cells()[i as int] is None),
    {
        match self {
            IndexColumn::Int32(a) => int32_is_null(a, i),
            IndexColumn::Int64(a) => int64_is_null(a, i),
        }
    }

    /// The integer of the row at `i`, widened to 64 bits, where that row is
    /// not null; nothing is said of what a null row gives.
    pub fn value(&self, i: usize) -> (v: i64)
        requires
            i < self.cells().len(),
        ensures
            self.cells()[i as int] matches Some(x) ==> v == x,
    {
        match self {
            IndexColumn::Int32(a) => int32_value(a, i) as i64,
            IndexColumn::Int64(a) => int64_value(a, i),
        }
    }

    /// The row at `i`, widened to 64 bits; `None` for a null.
    pub fn get(&self, i: usize) -> (v: Option<i64>)
        requires
            i < self.cells().len(),
        ensures
            v == self.cells()[i as int],
    {
        if self.is_null(i) {
            None
        } else {
            Some(self.value(i))
        }
    }
}

impl OutputColumn {
    /// The cells of the column as texts, in row order; `None` is a null.
    pub open spec fn cells(&self) -> Cells {
        match self {
            OutputColumn::Utf8(a) => utf8_cells(*a),
            OutputColumn::LargeUtf8(a) => large_utf8_cells(*a),
        }
    }

    /// The width class of the column.
    pub open spec fn width(&self) -> StringWidth {
        match self {
            OutputColumn::Utf8(_) => StringWidth::Utf8,
            OutputColumn::LargeUtf8(_) => StringWidth::LargeUtf8,
        }
    }

    /// The column, to be read.
    pub fn as_column(&self) -> (c: StringColumn<'_>)
        ensures
            c.cells() == self.cells(),
            c.width() == self.width(),
    {
        match self {
            OutputColumn::Utf8(a) => StringColumn::Utf8(a),
            OutputColumn::LargeUtf8(a) => StringColumn::LargeUtf8(a),
        }
    }
}

impl OutputBuilder {
    /// The cells appended so far.
    pub open spec fn cells(&self) -> Cells {
        match self {
            OutputBuilder::Utf8(b) => utf8_builder_cells(*b),
            OutputBuilder::LargeUtf8(b) => large_utf8_builder_cells(*b),
        }
    }

    /// The width class of the column that is built.
    pub open spec fn width(&self) -> StringWidth {
        match self {
            OutputBuilder::Utf8(_) => StringWidth::Utf8,
            OutputBuilder::LargeUtf8(_) => StringWidth::LargeUtf8,
        }
    }

    /// An empty builder for a column of the width `width`, with room for
    /// `items` rows and `bytes` bytes. Each capacity is a hint, and is cut to
    /// `RESERVE_LIMIT` where it is larger.
    pub fn with_capacity(width: StringWidth, items: usize, bytes: usize) -> (b: Self)
        ensures
            b.width() == width,
            b.cells() == Cells::empty(),
    {
        let items: usize = if items <= RESERVE_LIMIT {
            items
        } else {
            RESERVE_LIMIT
        };
        let bytes: usize = if bytes <= RESERVE_LIMIT {
            bytes
        } else {
            RESERVE_LIMIT
        };
        match width {
            StringWidth::Utf8 => OutputBuilder::Utf8(utf8_builder(items, bytes)),
            StringWidth::LargeUtf8 => OutputBuilder::LargeUtf8(large_utf8_builder(items, bytes)),
        }
    }

    /// Appends the row `text`.
    pub fn append_value(&mut self, text: &str)
        requires
            total_bytes(old(self).cells()) + utf8_bytes(text@) <= offset_limit(old(self).width()),
        ensures
            final(self).width() == old(self).width(),
            final(self).cells() == old(self).cells().push(Some(text@)),
    {
        match self {
            OutputBuilder::Utf8(b) => utf8_append_value(b, text),
            OutputBuilder::LargeUtf8(b) => large_utf8_append_value(b, text),
        }
    }

    /// Appends a null row.
    pub fn append_null(&mut self)
        requires
            total_bytes(old(self).cells()) <= offset_limit(old(self).width()),
        ensures
            final(self).width() == old(self).width(),
            final(self).cells() == old(self).cells().push(None),
    {
        match self {
            OutputBuilder::Utf8(b) => utf8_append_null(b),
            OutputBuilder::LargeUtf8(b) => large_utf8_append_null(b),
        }
    }

    /// The column of the rows appended so far; the builder is empty again.
    pub fn finish(&mut self) -> (column: OutputColumn)
        ensures
            column.width() == old(self).width(),
            column.cells() == old(self).cells(),
            final(self).width() == old(self).width(),
            final(self).cells() == Cells::empty(),
    {
        match self {
            OutputBuilder::Utf8(b) => OutputColumn::Utf8(utf8_finish(b)),
            OutputBuilder::LargeUtf8(b) => OutputColumn::LargeUtf8(large_utf8_finish(b)),
        }
    }
}

} // verus!
