//! The extraction kernel: one output cell per input row, or one fatal error.

use crate::arrays::{
    large_utf8_cells, total_bytes, utf8_bytes, utf8_cells, Cells, Int32Array, Int64Array,
    LargeUtf8Array, Utf8Array,
};
use crate::columns::{
    bytes_before, lemma_bytes_before, lemma_bytes_before_grows, lemma_total_bytes_push,
    offset_limit, slice_text, IndexColumn, OutputBuilder, OutputColumn, StringColumn,
};
use crate::config::InvalidPatternMode;
use crate::error::{Failure, RegexpExtractError};
use crate::pattern_cache::{CacheState, PatternCache};
use crate::re::{
    accepts, captures, compile_with, group_text, groups_of, lemma_group_text_within,
    lemma_match_has_whole, match_of, refusal, select_group, CompiledRegex, Engine,
};
use vstd::prelude::*;

verus! {

/// What one row comes to: an output cell, or an error that ends the
/// invocation.
pub enum RowOutcome {
    /// The output cell; `None` is a null.
    Cell(Option<Seq<char>>),
    /// The invocation fails for this reason.
    Fatal(Failure),
}

/// What a pattern or match failure comes to under `mode`: fatal under the
/// strict policy, an empty string under the lenient one.
pub open spec fn absorbed(mode: InvalidPatternMode, failure: Failure) -> RowOutcome {
    match mode {
        InvalidPatternMode::Error => RowOutcome::Fatal(failure),
        InvalidPatternMode::EmptyString => RowOutcome::Cell(Some(Seq::empty())),
    }
}

/// What matching a pattern that the engine compiles comes to.
pub open spec fn matched_outcome(
    engine: Engine,
    mode: InvalidPatternMode,
    pattern: Seq<char>,
    subject: Seq<char>,
    idx: i64,
) -> RowOutcome {
    match match_of(engine, pattern, subject) {
        Ok(found) => RowOutcome::Cell(Some(group_text(found, idx as int))),
        Err(report) => absorbed(mode, Failure::MatchError(report)),
    }
}

/// What a row without nulls and with an index of at least 0 comes to.
pub open spec fn resolved_outcome(
    engine: Engine,
    mode: InvalidPatternMode,
    pattern: Seq<char>,
    subject: Seq<char>,
    idx: i64,
) -> RowOutcome {
    if accepts(engine, pattern) {
        matched_outcome(engine, mode, pattern, subject, idx)
    } else {
        absorbed(mode, Failure::InvalidPattern(refusal(engine, pattern)))
    }
}

/// What a row comes to. A null subject, pattern or index gives a null cell;
/// then a negative index is fatal under either policy; then the pattern is
/// compiled and matched.
pub open spec fn row_outcome(
    engine: Engine,
    mode: InvalidPatternMode,
    subject: Option<Seq<char>>,
    pattern: Option<Seq<char>>,
    idx: Option<i64>,
) -> RowOutcome {
    match (subject, pattern, idx) {
        (Some(s), Some(p), Some(i)) => if i < 0 {
            RowOutcome::Fatal(Failure::NegativeIndex(i))
        } else {
            resolved_outcome(engine, mode, p, s, i)
        },
        _ => RowOutcome::Cell(None),
    }
}

/// The three argument columns of one invocation.
pub struct Batch {
    pub strings: Cells,
    pub patterns: Cells,
    pub indices: Seq<Option<i64>>,
}

impl Batch {
    /// The number of rows: that of the subject column.
    pub open spec fn rows(self) -> nat {
        self.strings.len()
    }

    /// Whether the pattern and the index column each have one row or as many
    /// as the subject column.
    pub open spec fn shape_ok(self) -> bool {
        &&& (self.patterns.len() == 1 || self.patterns.len() == self.rows())
        &&& (self.indices.len() == 1 || self.indices.len() == self.rows())
    }

    /// Whether one pattern serves every row.
    pub open spec fn scalar_pattern(self) -> bool {
        self.patterns.len() == 1
    }

    /// The pattern of row `i`.
    pub open spec fn pattern_at(self, i: int) -> Option<Seq<char>> {
        if self.patterns.len() == 1 {
            self.patterns[0]
        } else {
            self.patterns[i]
        }
    }

    /// The index of row `i`.
    pub open spec fn index_at(self, i: int) -> Option<i64> {
        if self.indices.len() == 1 {
            self.indices[0]
        } else {
            self.indices[i]
        }
    }

    /// What row `i` comes to.
    pub open spec fn outcome(self, engine: Engine, mode: InvalidPatternMode, i: int) -> RowOutcome {
        row_outcome(engine, mode, self.strings[i], self.pattern_at(i), self.index_at(i))
    }

    /// Whether the one pattern that serves every row fails to compile under
    /// the strict policy, which ends the invocation before any row.
    pub open spec fn scalar_fatal(self, engine: Engine, mode: InvalidPatternMode) -> bool {
        &&& self.scalar_pattern()
        &&& mode == InvalidPatternMode::Error
        &&& self.patterns[0] matches Some(p)
        &&& !accepts(engine, p)
    }

    /// Whether row `k` is the first whose outcome is fatal.
    pub open spec fn first_fatal(self, engine: Engine, mode: InvalidPatternMode, k: int) -> bool {
        &&& 0 <= k < self.rows()
        &&& self.outcome(engine, mode, k) is Fatal
        &&& forall|j: int| 0 <= j < k ==> #[trigger] self.outcome(engine, mode, j) is Cell
    }

    /// The output column of an invocation in which no row is fatal.
    pub open spec fn output(self, engine: Engine, mode: InvalidPatternMode) -> Cells {
        Seq::new(
            self.rows(),
            |i: int|
                match self.outcome(engine, mode, i) {
                    RowOutcome::Cell(c) => c,
                    RowOutcome::Fatal(_) => None,
                },
        )
    }

    /// What the invocation returns: a shape error; else the error of a scalar
    /// pattern that fails to compile under the strict policy; else the error
    /// of the first fatal row; else one cell per row, in row order.
    pub open spec fn extraction(self, engine: Engine, mode: InvalidPatternMode) -> Result<
        Cells,
        Failure,
    > {
        if !self.shape_ok() {
            Err(Failure::ShapeError)
        } else if self.scalar_fatal(engine, mode) {
            Err(Failure::InvalidPattern(refusal(engine, self.patterns[0].unwrap())))
        } else if exists|k: int| self.first_fatal(engine, mode, k) {
            let k = choose|k: int| self.first_fatal(engine, mode, k);
            match self.outcome(engine, mode, k) {
                RowOutcome::Fatal(failure) => Err(failure),
                RowOutcome::Cell(_) => Err(Failure::ShapeError),
            }
        } else {
            Ok(self.output(engine, mode))
        }
    }

    /// Whether row `i` asks the cache for its pattern: the patterns come row
    /// by row, the row has no null, and its index is at least 0.
    pub open spec fn looks_up(self, i: int) -> bool {
        &&& !self.scalar_pattern()
        &&& self.strings[i] is Some
        &&& self.pattern_at(i) is Some
        &&& self.index_at(i) matches Some(v)
        &&& v >= 0
    }

    /// The cache after the rows before `upto`, starting from `state`.
    pub open spec fn cache_through(self, state: CacheState, upto: nat) -> CacheState
        decreases upto,
    {
        if upto == 0 {
            state
        } else {
            let before = self.cache_through(state, (upto - 1) as nat);
            if self.looks_up(upto - 1) {
                before.lookup(self.pattern_at(upto - 1).unwrap())
            } else {
                before
            }
        }
    }

    /// The number of rows that the invocation goes through: up to and
    /// including the first fatal row, or all of them.
    pub open spec fn rows_visited(self, engine: Engine, mode: InvalidPatternMode) -> nat {
        if exists|k: int| self.first_fatal(engine, mode, k) {
            ((choose|k: int| self.first_fatal(engine, mode, k)) + 1) as nat
        } else {
            self.rows()
        }
    }

    /// The cache after the invocation. It is untouched where the shape is
    /// wrong or one pattern serves every row; otherwise each visited row that
    /// asks for its pattern is one lookup.
    pub open spec fn cache_after(self, state: CacheState, mode: InvalidPatternMode) -> CacheState {
        if !self.shape_ok() || self.scalar_pattern() {
            state
        } else {
            self.cache_through(state, self.rows_visited(state.engine, mode))
        }
    }

    /// At most one row is the first fatal row.
    pub proof fn lemma_first_fatal_unique(self, engine: Engine, mode: InvalidPatternMode, a: int, b: int)
        requires
            self.first_fatal(engine, mode, a),
            self.first_fatal(engine, mode, b),
        ensures
            a == b,
    {
        if a < b {
            assert(self.outcome(engine, mode, a) is Cell);
        } else if b < a {
            assert(self.outcome(engine, mode, b) is Cell);
        }
    }
}

/// The columns of an invocation as a batch.
pub open spec fn batch_of(strings: &StringColumn, patterns: &StringColumn, indices: &IndexColumn) -> Batch {
    Batch { strings: strings.cells(), patterns: patterns.cells(), indices: indices.cells() }
}

/// What the evaluation of one row gave, as an outcome.
pub open spec fn row_view(r: Result<String, RegexpExtractError>) -> RowOutcome {
    match r {
        Ok(text) => RowOutcome::Cell(Some(text@)),
        Err(e) => RowOutcome::Fatal(e@),
    }
}

/// What an invocation gave: the cells of its output column, or what its
/// error says.
pub open spec fn run_view(r: Result<OutputColumn, RegexpExtractError>) -> Result<Cells, Failure> {
    match r {
        Ok(column) => Ok(column.cells()),
        Err(e) => Err(e@),
    }
}

/// Matches `re`, a regex compiled with the default options, against `subject`
/// and selects the group at `idx`. A match-time failure is fatal under the
/// strict policy and gives an empty string under the lenient one. The text it
/// gives has no more bytes than `subject`.
pub fn match_row(re: &CompiledRegex, subject: &str, idx: i64, mode: InvalidPatternMode) -> (r: Result<
    String,
    RegexpExtractError,
>)
    requires
        re.plain(),
    ensures
        row_view(r) == matched_outcome(re.engine(), mode, re.source(), subject@, idx),
        r matches Ok(text) ==> utf8_bytes(text@) <= utf8_bytes(subject@),
{
    match captures(re, subject) {
        Ok(found) => {
            proof {
                lemma_group_text_within(groups_of(found), idx as int, subject@);
            }
            Ok(select_group(&found, idx))
        },
        Err(e) => match mode {
            InvalidPatternMode::EmptyString => {
                assert(utf8_bytes(Seq::<char>::empty()) == 0);
                Ok(String::new())
            },
            InvalidPatternMode::Error => Err(RegexpExtractError::MatchError(e.text())),
        },
    }
}

/// How the rows come by their compiled pattern.
enum PatternPlan {
    /// Every row asks the cache for its own pattern.
    PerRow,
    /// One pattern serves every row, compiled ahead of the rows.
    Compiled(CompiledRegex),
    /// One pattern serves every row and does not compile; under the lenient
    /// policy every row without nulls yields an empty string.
    Invalid,
}

impl PatternPlan {
    /// Whether the plan is right for a row whose pattern is `pattern`.
    spec fn serves(&self, engine: Engine, mode: InvalidPatternMode, pattern: Seq<char>) -> bool {
        match self {
            PatternPlan::PerRow => true,
            PatternPlan::Compiled(re) => re.engine() == engine && re.source() == pattern
                && re.plain() && accepts(engine, pattern),
            PatternPlan::Invalid => mode == InvalidPatternMode::EmptyString && !accepts(engine, pattern),
        }
    }
}

/// Evaluates a row that has no null: checks the index, resolves the pattern
/// by the plan, matches, and selects the group.
fn eval_row(
    plan: &PatternPlan,
    cache: &mut PatternCache,
    subject: &str,
    pattern: &str,
    idx: i64,
    mode: InvalidPatternMode,
) -> (r: Result<String, RegexpExtractError>)
    requires
        old(cache)@.valid(),
        plan.serves(old(cache)@.engine, mode, pattern@),
    ensures
        final(cache)@.valid(),
        final(cache)@ == (if plan is PerRow && idx >= 0 {
            old(cache)@.lookup(pattern@)
        } else {
            old(cache)@
        }),
        row_view(r) == row_outcome(old(cache)@.engine, mode, Some(subject@), Some(pattern@), Some(idx)),
        r matches Ok(text) ==> utf8_bytes(text@) <= utf8_bytes(subject@),
{
    if idx < 0 {
        return Err(RegexpExtractError::NegativeIndex(idx));
    }
    assert(utf8_bytes(Seq::<char>::empty()) == 0);
    match plan {
        PatternPlan::Invalid => Ok(String::new()),
        PatternPlan::Compiled(re) => match_row(re, subject, idx, mode),
        PatternPlan::PerRow => match cache.get_or_compile(pattern) {
            Ok(re) => match_row(re, subject, idx, mode),
            Err(e) => match mode {
                InvalidPatternMode::EmptyString => Ok(String::new()),
                InvalidPatternMode::Error => Err(e),
            },
        },
    }
}

/// Runs the kernel with the caller's cache, which may hold entries of earlier
/// invocations. Returns one cell per row of `strings`, in row order and in
/// the width class of `strings`, or the first fatal error. The cache is
/// asked once for each visited row that has no null and an index of at
/// least 0, unless one pattern serves every row.
pub fn run_with_cache(
    strings: &StringColumn,
    patterns: &StringColumn,
    indices: &IndexColumn,
    cache: &mut PatternCache,
    mode: InvalidPatternMode,
) -> (r: Result<OutputColumn, RegexpExtractError>)
    ensures
        final(cache)@.valid(),
        r matches Ok(column) ==> column.width() == strings.width(),
        run_view(r) == batch_of(strings, patterns, indices).extraction(old(cache)@.engine, mode),
        final(cache)@ == batch_of(strings, patterns, indices).cache_after(old(cache)@, mode),
{
    let ghost batch = batch_of(strings, patterns, indices);
    let ghost start = cache@;
    let ghost width = strings.width();
    let engine = cache.engine();
    let n = strings.len();
    let pattern_rows = patterns.len();
    let index_rows = indices.len();
    if !((pattern_rows == 1 || pattern_rows == n) && (index_rows == 1 || index_rows == n)) {
        return Err(RegexpExtractError::ShapeError);
    }
    let pat_scalar = pattern_rows == 1;
    let idx_scalar = index_rows == 1;

    // A scalar pattern and a scalar index are read once, ahead of the rows,
    // and a scalar pattern is compiled once.
    let scalar_pattern: Option<&str> = if pat_scalar {
        patterns.get(0)
    } else {
        None
    };
    let scalar_index: Option<i64> = if idx_scalar {
        indices.get(0)
    } else {
        None
    };
    let mut plan = PatternPlan::PerRow;
    if pat_scalar {
        match scalar_pattern {
            Some(p) => match compile_with(engine, p) {
                Ok(re) => {
                    plan = PatternPlan::Compiled(re);
                },
                Err(e) => match mode {
                    InvalidPatternMode::EmptyString => {
                        plan = PatternPlan::Invalid;
                    },
                    InvalidPatternMode::Error => {
                        return Err(RegexpExtractError::InvalidPattern(e));
                    },
                },
            },
            None => {},
        }
    }

    // The output fits the offsets of its width: each cell is empty or a part
    // of its subject, and the subjects end below the largest offset.
    strings.end_offset();
    proof {
        lemma_bytes_before(strings.cells(), n as nat);
        assert(strings.cells().take(n as int) =~= strings.cells());
    }
    let bytes_hint = estimate_bytes(strings, indices);
    let mut out = OutputBuilder::with_capacity(strings.string_width(), n, bytes_hint);

    let no_nulls = strings.has_no_nulls() && patterns.has_no_nulls() && indices.has_no_nulls();
    if no_nulls {
        // No input holds a null: the rows are read without null checks.
        let mut i: usize = 0;
        while i < n
            invariant
                i <= n,
                n == strings.cells().len(),
                batch == batch_of(strings, patterns, indices),
                width == strings.width(),
                batch.shape_ok(),
                !batch.scalar_fatal(engine, mode),
                pat_scalar == batch.scalar_pattern(),
                idx_scalar == (batch.indices.len() == 1),
                pat_scalar ==> slice_text(scalar_pattern) == batch.patterns[0],
                idx_scalar ==> scalar_index == batch.indices[0],
                forall|j: int| 0 <= j < batch.strings.len() ==> batch.strings[j] is Some,
                forall|j: int| 0 <= j < batch.patterns.len() ==> batch.patterns[j] is Some,
                forall|j: int| 0 <= j < batch.indices.len() ==> batch.indices[j] is Some,
                pat_scalar ==> plan.serves(engine, mode, batch.patterns[0]->Some_0),
                !pat_scalar ==> plan is PerRow,
                pat_scalar ==> !(plan is PerRow),
                cache@.valid(),
                cache@.engine == engine,
                start == old(cache)@,
                start.engine == engine,
                cache@ == (if pat_scalar {
                    start
                } else {
                    batch.cache_through(start, i as nat)
                }),
                out.width() == width,
                out.cells().len() == i,
                total_bytes(out.cells()) <= bytes_before(batch.strings, i as nat),
                bytes_before(batch.strings, n as nat) <= offset_limit(width),
                forall|j: int|
                    0 <= j < i ==> #[trigger] batch.outcome(engine, mode, j) == RowOutcome::Cell(
                        out.cells()[j],
                    ),
            decreases n - i,
        {
            assert(batch.strings[i as int] is Some);
            assert(batch.pattern_at(i as int) is Some);
            assert(batch.index_at(i as int) is Some);
            let subject: &str = strings.value(i);
            let pattern: &str = if pat_scalar {
                scalar_pattern.unwrap()
            } else {
                patterns.value(i)
            };
            let idx: i64 = if idx_scalar {
                scalar_index.unwrap()
            } else {
                indices.value(i)
            };
            assert(batch.strings[i as int] == Some(subject@));
            assert(batch.pattern_at(i as int) == Some(pattern@));
            assert(batch.index_at(i as int) == Some(idx));
            match eval_row(&plan, cache, subject, pattern, idx, mode) {
                Ok(text) => {
                    proof {
                        lemma_bytes_before_grows(batch.strings, (i + 1) as nat, n as nat);
                        lemma_total_bytes_push(out.cells(), Some(text@));
                    }
                    out.append_value(text.as_str());
                },
                Err(e) => {
                    proof {
                        assert(batch.outcome(engine, mode, i as int) == RowOutcome::Fatal(e@));
                        assert(batch.first_fatal(engine, mode, i as int));
                        let k = choose|k: int| batch.first_fatal(engine, mode, k);
                        batch.lemma_first_fatal_unique(engine, mode, k, i as int);
                        assert(batch.rows_visited(engine, mode) == i + 1);
                    }
                    return Err(e);
                },
            }
            i += 1;
        }
        proof {
            assert forall|k: int| !batch.first_fatal(engine, mode, k) by {
                if 0 <= k < n {
                    assert(batch.outcome(engine, mode, k) is Cell);
                }
            }
        }
        let column = out.finish();
        assert(column.cells() =~= batch.output(engine, mode));
        return Ok(column);
    }
    let mut i: usize = 0;
    while i < n
        invariant
            i <= n,
            n == strings.cells().len(),
            batch == batch_of(strings, patterns, indices),
            width == strings.width(),
            batch.shape_ok(),
            !batch.scalar_fatal(engine, mode),
            pat_scalar == batch.scalar_pattern(),
            idx_scalar == (batch.indices.len() == 1),
            pat_scalar ==> slice_text(scalar_pattern) == batch.patterns[0],
            idx_scalar ==> scalar_index == batch.indices[0],
            pat_scalar && batch.patterns[0] is Some ==> plan.serves(
                engine,
                mode,
                batch.patterns[0]->Some_0,
            ),
            !pat_scalar ==> plan is PerRow,
            pat_scalar && batch.patterns[0] is Some ==> !(plan is PerRow),
            cache@.valid(),
            cache@.engine == engine,
            start == old(cache)@,
            start.engine == engine,
            cache@ == (if pat_scalar {
                start
            } else {
                batch.cache_through(start, i as nat)
            }),
            out.width() == width,
            out.cells().len() == i,
            total_bytes(out.cells()) <= bytes_before(batch.strings, i as nat),
            bytes_before(batch.strings, n as nat) <= offset_limit(width),
            forall|j: int|
                0 <= j < i ==> #[trigger] batch.outcome(engine, mode, j) == RowOutcome::Cell(
                    out.cells()[j],
                ),
        decreases n - i,
    {
        // A null subject, pattern or index gives a null cell.
        let subject_cell: Option<&str> = strings.get(i);
        let pattern_cell: Option<&str> = if pat_scalar {
            scalar_pattern
        } else {
            patterns.get(i)
        };
        let index_cell: Option<i64> = if idx_scalar {
            scalar_index
        } else {
            indices.get(i)
        };
        assert(batch.strings[i as int] == slice_text(subject_cell));
        assert(batch.pattern_at(i as int) == slice_text(pattern_cell));
        assert(batch.index_at(i as int) == index_cell);
        proof {
            lemma_bytes_before_grows(batch.strings, i as nat, n as nat);
            lemma_bytes_before_grows(batch.strings, (i + 1) as nat, n as nat);
        }
        match (subject_cell, pattern_cell, index_cell) {
            (Some(subject), Some(pattern), Some(idx)) => {
                match eval_row(&plan, cache, subject, pattern, idx, mode) {
                    Ok(text) => {
                        proof {
                            lemma_total_bytes_push(out.cells(), Some(text@));
                        }
                        out.append_value(text.as_str());
                    },
                    Err(e) => {
                        proof {
                            assert(batch.outcome(engine, mode, i as int) == RowOutcome::Fatal(e@));
                            assert(batch.first_fatal(engine, mode, i as int));
                            let k = choose|k: int| batch.first_fatal(engine, mode, k);
                            batch.lemma_first_fatal_unique(engine, mode, k, i as int);
                            assert(batch.rows_visited(engine, mode) == i + 1);
                        }
                        return Err(e);
                    },
                }
            },
            _ => {
                proof {
                    lemma_total_bytes_push(out.cells(), None);
                }
                out.append_null();
            },
        }
        i += 1;
    }
    proof {
        assert forall|k: int| !batch.first_fatal(engine, mode, k) by {
            if 0 <= k < n {
                assert(batch.outcome(engine, mode, k) is Cell);
            }
        }
    }
    let column = out.finish();
    assert(column.cells() =~= batch.output(engine, mode));
    Ok(column)
}

/// Runs the kernel with a cache of its own, made empty for `engine` with room
/// for `cache_cap` patterns, and dropped at the end.
pub fn run_with_engine(
    strings: &StringColumn,
    patterns: &StringColumn,
    indices: &IndexColumn,
    cache_cap: usize,
    engine: Engine,
    mode: InvalidPatternMode,
) -> (r: Result<OutputColumn, RegexpExtractError>)
    ensures
        r matches Ok(column) ==> column.width() == strings.width(),
        run_view(r) == batch_of(strings, patterns, indices).extraction(engine, mode),
{
    let mut cache = PatternCache::with_engine(cache_cap, engine);
    run_with_cache(strings, patterns, indices, &mut cache, mode)
}

/// Runs the kernel with a cache of its own, made empty for the linear-time
/// engine with room for `cache_cap` patterns, and dropped at the end.
pub fn run_generic(
    strings: &StringColumn,
    patterns: &StringColumn,
    indices: &IndexColumn,
    cache_cap: usize,
    mode: InvalidPatternMode,
) -> (r: Result<OutputColumn, RegexpExtractError>)
    ensures
        r matches Ok(column) ==> column.width() == strings.width(),
        run_view(r) == batch_of(strings, patterns, indices).extraction(Engine::Linear, mode),
{
    run_with_engine(strings, patterns, indices, cache_cap, Engine::Linear, mode)
}

/// The length in bytes of the UTF-8 encoding of `text`, as `str::len` gives it.
pub open spec fn byte_len(text: Seq<char>) -> usize {
    utf8_bytes(text) as usize
}

/// Whether row `i` counts for the estimate: its subject is not null, and
/// neither is its index where the indices come row by row.
pub open spec fn counts(strings: Cells, indices: Seq<Option<i64>>, i: int) -> bool {
    &&& strings[i] is Some
    &&& indices.len() == 1 || (i < indices.len() && indices[i] is Some)
}

/// The bytes of the subjects that count, among the rows before `upto`.
pub open spec fn counted_bytes(strings: Cells, indices: Seq<Option<i64>>, upto: nat) -> nat
    decreases upto,
{
    if upto == 0 {
        0
    } else {
        counted_bytes(strings, indices, (upto - 1) as nat) + if counts(strings, indices, upto - 1) {
            byte_len(strings[upto - 1].unwrap()) as nat
        } else {
            0
        }
    }
}

/// `n`, or the largest `usize` where `n` is larger.
pub open spec fn capped(n: nat) -> usize {
    if n > usize::MAX {
        usize::MAX
    } else {
        n as usize
    }
}

/// The capacity hint for the output bytes: 4 bytes per row, or more where
/// the subjects that count are longer: all their bytes where every row asks
/// for the whole match, a quarter of them otherwise.
pub open spec fn estimated_bytes(strings: Cells, indices: Seq<Option<i64>>) -> usize {
    let base = capped(4 * strings.len());
    let sum = capped(counted_bytes(strings, indices, strings.len()));
    let estimate = if indices.len() == 1 && indices[0] == Some(0i64) {
        sum
    } else {
        sum / 4
    };
    if base >= estimate {
        base
    } else {
        estimate
    }
}

/// Estimates the bytes of the output column ahead of the row loop. The
/// result is a capacity hint for the builder of the output; it changes no
/// cell.
pub fn estimate_bytes(strings: &StringColumn, indices: &IndexColumn) -> (bytes: usize)
    ensures
        bytes == estimated_bytes(strings.cells(), indices.cells()),
{
    let n = strings.len();
    let base: usize = match n.checked_mul(4) {
        Some(b) => b,
        None => usize::MAX,
    };
    let index_rows = indices.len();
    let idx_scalar = index_rows == 1;
    let mut sum: usize = 0;
    let mut i: usize = 0;
    while i < n
        invariant
            i <= n,
            n == strings.cells().len(),
            index_rows == indices.cells().len(),
            idx_scalar == (index_rows == 1),
            sum == capped(counted_bytes(strings.cells(), indices.cells(), i as nat)),
        decreases n - i,
    {
        if !strings.is_null(i) {
            let counted = idx_scalar || (i < index_rows && !indices.is_null(i));
            if counted {
                sum = sum.saturating_add(strings.value(i).len());
            }
        }
        i += 1;
    }
    let whole = idx_scalar && match indices.get(0) {
        Some(v) => v == 0,
        None => false,
    };
    let estimate = if whole {
        sum
    } else {
        sum / 4
    };
    if base >= estimate {
        base
    } else {
        estimate
    }
}

/// A row yields a null cell exactly where its subject, its pattern or its
/// index is null, whatever the engine and the policy.
pub proof fn lemma_null_propagation(
    engine: Engine,
    mode: InvalidPatternMode,
    subject: Option<Seq<char>>,
    pattern: Option<Seq<char>>,
    idx: Option<i64>,
)
    ensures
        (subject is None || pattern is None || idx is None) <==> row_outcome(
            engine,
            mode,
            subject,
            pattern,
            idx,
        ) == RowOutcome::Cell(None),
{
}

/// With an index of 0, a match yields its entry 0, the whole match, which
/// every match has, and no other group.
pub proof fn lemma_whole_match(
    engine: Engine,
    mode: InvalidPatternMode,
    pattern: Seq<char>,
    subject: Seq<char>,
    groups: Seq<Option<Seq<char>>>,
)
    requires
        accepts(engine, pattern),
        match_of(engine, pattern, subject) == Ok::<Option<Seq<Option<Seq<char>>>>, Seq<char>>(
            Some(groups),
        ),
    ensures
        groups.len() >= 1,
        groups[0] is Some,
        row_outcome(engine, mode, Some(subject), Some(pattern), Some(0i64)) == RowOutcome::Cell(
            groups[0],
        ),
{
    lemma_match_has_whole(engine, pattern, subject);
}

/// No match, an index beyond the last group, and a group that took no part
/// in the match all yield the empty string, not a null.
pub proof fn lemma_absent_group_is_empty(
    engine: Engine,
    mode: InvalidPatternMode,
    pattern: Seq<char>,
    subject: Seq<char>,
    idx: i64,
)
    requires
        accepts(engine, pattern),
        idx >= 0,
        match match_of(engine, pattern, subject) {
            Ok(Some(groups)) => idx >= groups.len() || groups[idx as int] is None,
            Ok(None) => true,
            Err(_) => false,
        },
    ensures
        row_outcome(engine, mode, Some(subject), Some(pattern), Some(idx)) == RowOutcome::Cell(
            Some(Seq::empty()),
        ),
{
}

impl Batch {
    /// Where some row is fatal, some row is the first fatal one, at or before
    /// it.
    pub proof fn lemma_fatal_has_first(self, engine: Engine, mode: InvalidPatternMode, i: int)
        requires
            0 <= i < self.rows(),
            self.outcome(engine, mode, i) is Fatal,
        ensures
            exists|k: int| 0 <= k <= i && self.first_fatal(engine, mode, k),
        decreases i,
    {
        if forall|j: int| 0 <= j < i ==> #[trigger] self.outcome(engine, mode, j) is Cell {
            assert(self.first_fatal(engine, mode, i));
        } else {
            let j = choose|j: int| 0 <= j < i && !(#[trigger] self.outcome(engine, mode, j) is Cell);
            self.lemma_fatal_has_first(engine, mode, j);
        }
    }

    /// An invocation succeeds exactly where the shape is right, a scalar
    /// pattern does not fail under the strict policy, and no row is fatal.
    pub proof fn lemma_success(self, engine: Engine, mode: InvalidPatternMode)
        ensures
            self.extraction(engine, mode) is Ok <==> {
                &&& self.shape_ok()
                &&& !self.scalar_fatal(engine, mode)
                &&& forall|i: int|
                    0 <= i < self.rows() ==> #[trigger] self.outcome(engine, mode, i) is Cell
            },
            self.extraction(engine, mode) matches Ok(cells) ==> {
                &&& cells.len() == self.rows()
                &&& forall|i: int|
                    0 <= i < self.rows() ==> #[trigger] self.outcome(engine, mode, i)
                        == RowOutcome::Cell(cells[i])
            },
    {
        if self.shape_ok() && !self.scalar_fatal(engine, mode) {
            if exists|k: int| self.first_fatal(engine, mode, k) {
                let k = choose|k: int| self.first_fatal(engine, mode, k);
                assert(!(self.outcome(engine, mode, k) is Cell));
            } else {
                assert forall|i: int| 0 <= i < self.rows() implies #[trigger] self.outcome(
                    engine,
                    mode,
                    i,
                ) is Cell by {
                    if self.outcome(engine, mode, i) is Fatal {
                        self.lemma_fatal_has_first(engine, mode, i);
                    }
                }
            }
        }
    }

    /// In the output of an invocation that succeeds, the null cells are those
    /// of the rows whose subject, pattern or index is null.
    pub proof fn lemma_null_rows(self, engine: Engine, mode: InvalidPatternMode, i: int)
        requires
            self.extraction(engine, mode) is Ok,
            0 <= i < self.rows(),
        ensures
            self.extraction(engine, mode)->Ok_0[i] is None <==> (self.strings[i] is None
                || self.pattern_at(i) is None || self.index_at(i) is None),
    {
        self.lemma_success(engine, mode);
        assert(self.outcome(engine, mode, i) is Cell);
        lemma_null_propagation(engine, mode, self.strings[i], self.pattern_at(i), self.index_at(i));
    }

    /// A row without nulls whose index is negative is fatal, and the
    /// invocation fails, under the strict and under the lenient policy.
    pub proof fn lemma_negative_index_is_fatal(
        self,
        engine: Engine,
        mode: InvalidPatternMode,
        i: int,
        idx: i64,
    )
        requires
            0 <= i < self.rows(),
            self.strings[i] is Some,
            self.pattern_at(i) is Some,
            self.index_at(i) == Some(idx),
            idx < 0,
        ensures
            self.outcome(engine, mode, i) == RowOutcome::Fatal(Failure::NegativeIndex(idx)),
            self.extraction(engine, mode) is Err,
            self.first_fatal(engine, mode, i) && self.shape_ok() && !self.scalar_fatal(engine, mode)
                ==> self.extraction(engine, mode) == Err::<Cells, Failure>(
                Failure::NegativeIndex(idx),
            ),
    {
        self.lemma_success(engine, mode);
        if self.first_fatal(engine, mode, i) {
            let k = choose|k: int| self.first_fatal(engine, mode, k);
            self.lemma_first_fatal_unique(engine, mode, k, i);
        }
    }

    /// Where one pattern serves every row and the engine refuses it, the
    /// strict policy fails the invocation with `InvalidPattern`; the lenient
    /// policy, where no index is negative, succeeds with an empty string in
    /// every row that has no null.
    pub proof fn lemma_policy_divergence(self, engine: Engine, pattern: Seq<char>)
        requires
            self.shape_ok(),
            self.scalar_pattern(),
            self.patterns[0] == Some(pattern),
            !accepts(engine, pattern),
            forall|i: int|
                0 <= i < self.rows() ==> (#[trigger] self.index_at(i) matches Some(v) ==> v >= 0),
        ensures
            self.extraction(engine, InvalidPatternMode::Error) == Err::<Cells, Failure>(
                Failure::InvalidPattern(refusal(engine, pattern)),
            ),
            self.extraction(engine, InvalidPatternMode::EmptyString) matches Ok(cells) && cells.len()
                == self.rows() && forall|i: int|
                0 <= i < self.rows() ==> #[trigger] cells[i] == (if self.strings[i] is None
                    || self.index_at(i) is None {
                    None
                } else {
                    Some(Seq::<char>::empty())
                }),
    {
        let lenient = InvalidPatternMode::EmptyString;
        assert forall|i: int| 0 <= i < self.rows() implies #[trigger] self.outcome(
            engine,
            lenient,
            i,
        ) is Cell by {
            let _ = self.index_at(i);
        }
        self.lemma_success(engine, lenient);
        let cells = self.extraction(engine, lenient)->Ok_0;
        assert forall|i: int| 0 <= i < self.rows() implies #[trigger] cells[i] == (if self.strings[i] is None
            || self.index_at(i) is None {
            None
        } else {
            Some(Seq::<char>::empty())
        }) by {
            assert(self.outcome(engine, lenient, i) == RowOutcome::Cell(cells[i]));
        }
    }
}

/// A pattern that the engine refuses is fatal for its row under the strict
/// policy and gives the empty string under the lenient one.
pub proof fn lemma_refused_pattern(engine: Engine, pattern: Seq<char>, subject: Seq<char>, idx: i64)
    requires
        !accepts(engine, pattern),
        idx >= 0,
    ensures
        row_outcome(engine, InvalidPatternMode::Error, Some(subject), Some(pattern), Some(idx))
            == RowOutcome::Fatal(Failure::InvalidPattern(refusal(engine, pattern))),
        row_outcome(engine, InvalidPatternMode::EmptyString, Some(subject), Some(pattern), Some(idx))
            == RowOutcome::Cell(Some(Seq::empty())),
{
}

impl Batch {
    /// The pattern of each row as text; the empty text stands for a null.
    pub open spec fn pattern_texts(self) -> Seq<Seq<char>> {
        Seq::new(
            self.patterns.len(),
            |i: int|
                match self.patterns[i] {
                    Some(p) => p,
                    None => Seq::empty(),
                },
        )
    }

    /// The distinct patterns of the rows.
    pub open spec fn distinct_patterns(self) -> Set<Seq<char>> {
        self.pattern_texts().to_set()
    }

    /// Whether every row asks the cache for its pattern and the engine
    /// compiles each of them.
    pub open spec fn every_row_compiles(self, engine: Engine) -> bool {
        &&& self.shape_ok()
        &&& !self.scalar_pattern()
        &&& forall|i: int|
            0 <= i < self.rows() ==> #[trigger] self.looks_up(i) && accepts(
                engine,
                self.pattern_texts()[i],
            )
    }

    /// The cache that starts empty, after the rows before `upto`: it holds
    /// the patterns of those rows, each once; it has compiled and missed once
    /// for each, and hit on every other row.
    proof fn lemma_cache_counts_through(self, engine: Engine, capacity: nat, upto: nat)
        requires
            self.every_row_compiles(engine),
            capacity >= self.distinct_patterns().len(),
            self.rows() <= u64::MAX,
            upto <= self.rows(),
        ensures
            ({
                let state = self.cache_through(CacheState::empty(capacity, engine), upto);
                &&& state.capacity == capacity
                &&& state.engine == engine
                &&& state.keys.no_duplicates()
                &&& forall|p: Seq<char>|
                    state.keys.contains(p) <==> exists|i: int|
                        0 <= i < upto && #[trigger] self.pattern_texts()[i] == p
                &&& state.stats.compiled == state.keys.len()
                &&& state.stats.misses == state.keys.len()
                &&& state.stats.hits + state.keys.len() == upto
            }),
        decreases upto,
    {
        let texts = self.pattern_texts();
        let start = CacheState::empty(capacity, engine);
        if upto == 0 {
            assert(start.keys.len() == 0);
        } else {
            let m = (upto - 1) as nat;
            self.lemma_cache_counts_through(engine, capacity, m);
            let before = self.cache_through(start, m);
            let p = texts[m as int];
            assert(self.looks_up(m as int));
            assert(self.pattern_at(m as int) == Some(p));
            let after = before.lookup(p);
            assert(after == self.cache_through(start, upto));
            let keys = before.keys;
            if keys.contains(p) {
                let i = keys.index_of(p);
                crate::pattern_cache::lemma_promoted_distinct(keys, i);
                assert(after.keys == seq![p] + keys.remove(i));
                assert forall|q: Seq<char>| after.keys.contains(q) <==> exists|j: int|
                    0 <= j < upto && #[trigger] texts[j] == q by {
                    if after.keys.contains(q) {
                        let a = choose|a: int| 0 <= a < after.keys.len() && after.keys[a] == q;
                        if a == 0 {
                            assert(texts[m as int] == q);
                        } else {
                            let b = if a <= i {
                                a - 1
                            } else {
                                a
                            };
                            assert(keys[b] == q);
                            assert(keys.contains(q));
                        }
                    }
                    if exists|j: int| 0 <= j < upto && #[trigger] texts[j] == q {
                        let j = choose|j: int| 0 <= j < upto && #[trigger] texts[j] == q;
                        if q == p {
                            assert(after.keys[0] == q);
                        } else {
                            assert(j < m);
                            assert(keys.contains(q));
                            let b = keys.index_of(q);
                            let a = if b < i {
                                b + 1
                            } else {
                                b
                            };
                            assert(after.keys[a] == q);
                        }
                    }
                }
            } else {
                let grown = seq![p] + keys;
                assert(grown.no_duplicates()) by {
                    assert forall|a: int, b: int|
                        0 <= a < grown.len() && 0 <= b < grown.len() && a != b implies grown[a]
                        != grown[b] by {
                        if a > 0 {
                            assert(grown[a] == keys[a - 1]);
                        }
                        if b > 0 {
                            assert(grown[b] == keys[b - 1]);
                        }
                    }
                }
                assert(grown.to_set().subset_of(texts.to_set())) by {
                    assert forall|q: Seq<char>| grown.to_set().contains(q) implies texts.to_set().contains(
                        q,
                    ) by {
                        let a = choose|a: int| 0 <= a < grown.len() && grown[a] == q;
                        if a == 0 {
                            assert(texts[m as int] == q);
                        } else {
                            assert(keys[a - 1] == q);
                            assert(keys.contains(q));
                            let j = choose|j: int| 0 <= j < m && #[trigger] texts[j] == q;
                            assert(texts[j] == q);
                        }
                    }
                }
                vstd::seq_lib::seq_to_set_is_finite(texts);
                vstd::set_lib::lemma_len_subset(grown.to_set(), texts.to_set());
                grown.unique_seq_to_set();
                assert(keys.len() + 1 <= capacity);
                assert(after.keys == grown);
                assert forall|q: Seq<char>| after.keys.contains(q) <==> exists|j: int|
                    0 <= j < upto && #[trigger] texts[j] == q by {
                    if after.keys.contains(q) {
                        let a = choose|a: int| 0 <= a < grown.len() && grown[a] == q;
                        if a == 0 {
                            assert(texts[m as int] == q);
                        } else {
                            assert(keys[a - 1] == q);
                            assert(keys.contains(q));
                        }
                    }
                    if exists|j: int| 0 <= j < upto && #[trigger] texts[j] == q {
                        let j = choose|j: int| 0 <= j < upto && #[trigger] texts[j] == q;
                        if q == p {
                            assert(grown[0] == q);
                        } else {
                            assert(j < m);
                            assert(keys.contains(q));
                            let b = keys.index_of(q);
                            assert(grown[b + 1] == q);
                        }
                    }
                }
            }
        }
    }

    /// Where every row asks an empty cache for its pattern, the engine
    /// compiles each of them, and the cache has room for the distinct
    /// patterns, the cache compiles once per distinct pattern and hits on
    /// every other row. The output does not depend on the cache: it is what
    /// compiling every row anew gives.
    pub proof fn lemma_cache_counts(self, engine: Engine, mode: InvalidPatternMode, capacity: nat)
        requires
            self.every_row_compiles(engine),
            capacity >= self.distinct_patterns().len(),
            self.rows() <= u64::MAX,
        ensures
            ({
                let state = self.cache_through(CacheState::empty(capacity, engine), self.rows());
                let distinct = self.distinct_patterns().len();
                &&& state.stats.compiled == distinct
                &&& state.stats.misses == distinct
                &&& state.stats.hits == self.rows() - distinct
                &&& state.keys.to_set() == self.distinct_patterns()
                &&& self.extraction(engine, mode) is Ok ==> self.cache_after(
                    CacheState::empty(capacity, engine),
                    mode,
                ) == state
            }),
    {
        let texts = self.pattern_texts();
        let state = self.cache_through(CacheState::empty(capacity, engine), self.rows());
        self.lemma_cache_counts_through(engine, capacity, self.rows());
        assert(state.keys.to_set() =~= texts.to_set()) by {
            assert forall|q: Seq<char>| state.keys.to_set().contains(q) <==> texts.to_set().contains(
                q,
            ) by {
                if state.keys.contains(q) {
                    let j = choose|j: int| 0 <= j < self.rows() && #[trigger] texts[j] == q;
                    assert(texts.contains(q));
                }
                if texts.contains(q) {
                    let j = choose|j: int| 0 <= j < texts.len() && texts[j] == q;
                    assert(texts[j] == q);
                }
            }
        }
        state.keys.unique_seq_to_set();
    }
}

/// `DataType` of Arrow, carried as it is; nothing is claimed of it.
#[verifier::external_type_specification]
#[verifier::external_body]
pub struct ExDataType(datafusion::arrow::datatypes::DataType);

/// The index column of an invocation that is handed a 64-bit one, a 32-bit
/// one, or neither: the 64-bit one where there is one.
pub open spec fn chosen_indices(idx_i64: Option<&Int64Array>, idx_i32: Option<&Int32Array>) -> Option<
    Seq<Option<i64>>,
> {
    match (idx_i64, idx_i32) {
        (Some(a), _) => Some(IndexColumn::Int64(a).cells()),
        (None, Some(a)) => Some(IndexColumn::Int32(a).cells()),
        (None, None) => None,
    }
}

/// What an invocation returns: `MissingIdxArray` where no index column is
/// handed over, and else what the batch comes to with the linear-time engine.
pub open spec fn typed_extraction(
    strings: Cells,
    patterns: Cells,
    indices: Option<Seq<Option<i64>>>,
    mode: InvalidPatternMode,
) -> Result<Cells, Failure> {
    match indices {
        Some(indices) => (Batch { strings, patterns, indices }).extraction(Engine::Linear, mode),
        None => Err(Failure::MissingIdxArray),
    }
}

/// What an invocation with `Utf8` subjects gave.
pub open spec fn utf8_view(r: Result<Utf8Array, RegexpExtractError>) -> Result<Cells, Failure> {
    match r {
        Ok(a) => Ok(utf8_cells(a)),
        Err(e) => Err(e@),
    }
}

/// What an invocation with `LargeUtf8` subjects gave.
pub open spec fn large_utf8_view(r: Result<LargeUtf8Array, RegexpExtractError>) -> Result<
    Cells,
    Failure,
> {
    match r {
        Ok(a) => Ok(large_utf8_cells(a)),
        Err(e) => Err(e@),
    }
}

/// Runs the kernel on columns of either width with the index column that was
/// handed over.
fn run_typed(
    strings: &StringColumn,
    patterns: &StringColumn,
    idx_i64: Option<&Int64Array>,
    idx_i32: Option<&Int32Array>,
    cache_cap: usize,
    mode: InvalidPatternMode,
) -> (r: Result<OutputColumn, RegexpExtractError>)
    ensures
        r matches Ok(column) ==> column.width() == strings.width(),
        run_view(r) == typed_extraction(
            strings.cells(),
            patterns.cells(),
            chosen_indices(idx_i64, idx_i32),
            mode,
        ),
{
    match (idx_i64, idx_i32) {
        (Some(a), _) => run_generic(strings, patterns, &IndexColumn::Int64(a), cache_cap, mode),
        (None, Some(a)) => run_generic(strings, patterns, &IndexColumn::Int32(a), cache_cap, mode),
        (None, None) => Err(RegexpExtractError::MissingIdxArray),
    }
}

/// Utf8 strings with Utf8 patterns
pub fn run_utf8_utf8(
    strings: &Utf8Array,
    patterns: &Utf8Array,
    idx_i64: Option<&Int64Array>,
    idx_i32: Option<&Int32Array>,
    _out_dt: &datafusion::arrow::datatypes::DataType,
    cache_cap: usize,
    mode: InvalidPatternMode,
) -> (r: Result<Utf8Array, RegexpExtractError>)
    ensures
        utf8_view(r) == typed_extraction(
            StringColumn::Utf8(strings).cells(),
            StringColumn::Utf8(patterns).cells(),
            chosen_indices(idx_i64, idx_i32),
            mode,
        ),
{
    let s = StringColumn::Utf8(strings);
    let p = StringColumn::Utf8(patterns);
    match run_typed(&s, &p, idx_i64, idx_i32, cache_cap, mode) {
        Ok(OutputColumn::Utf8(a)) => Ok(a),
        Ok(OutputColumn::LargeUtf8(_)) => vstd::pervasive::unreached(),
        Err(e) => Err(e),
    }
}

/// LargeUtf8 strings with Utf8 patterns
pub fn run_large_utf8_utf8(
    strings: &LargeUtf8Array,
    patterns: &Utf8Array,
    idx_i64: Option<&Int64Array>,
    idx_i32: Option<&Int32Array>,
    _out_dt: &datafusion::arrow::datatypes::DataType,
    cache_cap: usize,
    mode: InvalidPatternMode,
) -> (r: Result<LargeUtf8Array, RegexpExtractError>)
    ensures
        large_utf8_view(r) == typed_extraction(
            StringColumn::LargeUtf8(strings).cells(),
            StringColumn::Utf8(patterns).cells(),
            chosen_indices(idx_i64, idx_i32),
            mode,
        ),
{
    let s = StringColumn::LargeUtf8(strings);
    let p = StringColumn::Utf8(patterns);
    match run_typed(&s, &p, idx_i64, idx_i32, cache_cap, mode) {
        Ok(OutputColumn::LargeUtf8(a)) => Ok(a),
        Ok(OutputColumn::Utf8(_)) => vstd::pervasive::unreached(),
        Err(e) => Err(e),
    }
}

/// Utf8 strings with LargeUtf8 patterns
pub fn run_utf8_largeutf8(
    strings: &Utf8Array,
    patterns: &LargeUtf8Array,
    idx_i64: Option<&Int64Array>,
    idx_i32: Option<&Int32Array>,
    _out_dt: &datafusion::arrow::datatypes::DataType,
    cache_cap: usize,
    mode: InvalidPatternMode,
) -> (r: Result<Utf8Array, RegexpExtractError>)
    ensures
        utf8_view(r) == typed_extraction(
            StringColumn::Utf8(strings).cells(),
            StringColumn::LargeUtf8(patterns).cells(),
            chosen_indices(idx_i64, idx_i32),
            mode,
        ),
{
    let s = StringColumn::Utf8(strings);
    let p = StringColumn::LargeUtf8(patterns);
    match run_typed(&s, &p, idx_i64, idx_i32, cache_cap, mode) {
        Ok(OutputColumn::Utf8(a)) => Ok(a),
        Ok(OutputColumn::LargeUtf8(_)) => vstd::pervasive::unreached(),
        Err(e) => Err(e),
    }
}

/// LargeUtf8 strings with LargeUtf8 patterns
pub fn run_large_utf8_largeutf8(
    strings: &LargeUtf8Array,
    patterns: &LargeUtf8Array,
    idx_i64: Option<&Int64Array>,
    idx_i32: Option<&Int32Array>,
    _out_dt: &datafusion::arrow::datatypes::DataType,
    cache_cap: usize,
    mode: InvalidPatternMode,
) -> (r: Result<LargeUtf8Array, RegexpExtractError>)
    ensures
        large_utf8_view(r) == typed_extraction(
            StringColumn::LargeUtf8(strings).cells(),
            StringColumn::LargeUtf8(patterns).cells(),
            chosen_indices(idx_i64, idx_i32),
            mode,
        ),
{
    let s = StringColumn::LargeUtf8(strings);
    let p = StringColumn::LargeUtf8(patterns);
    match run_typed(&s, &p, idx_i64, idx_i32, cache_cap, mode) {
        Ok(OutputColumn::LargeUtf8(a)) => Ok(a),
        Ok(OutputColumn::Utf8(_)) => vstd::pervasive::unreached(),
        Err(e) => Err(e),
    }
}

} // verus!
