//! The entry point of one invocation: checks the arguments that the host
//! hands over, then runs the kernel.

use crate::arrays::{Cells, Int32Array, Int64Array, LargeUtf8Array, Utf8Array};
use crate::columns::{IndexColumn, OutputColumn, StringColumn, StringWidth};
use crate::config::{InvalidPatternMode, RegexpExtractConfig};
use crate::error::{decimal_digits, push_digits, ErrorKind, Failure, RegexpExtractError};
use crate::kernel::{run_with_engine, Batch};
use crate::re::Engine;
use vstd::prelude::*;
use vstd::string::StringExecFns;

verus! {

/// One argument of an invocation, as an array. A host turns a scalar subject
/// into an array of as many rows as the batch, and a scalar pattern or index
/// into an array of one row.
#[derive(Debug)]
pub enum Argument {
    /// Strings with 32-bit offsets.
    Utf8(Utf8Array),
    /// Strings with 64-bit offsets.
    LargeUtf8(LargeUtf8Array),
    /// 32-bit signed integers.
    Int32(Int32Array),
    /// 64-bit signed integers.
    Int64(Int64Array),
    /// An array of any other type.
    Other,
}

impl Argument {
    /// The cells of the argument, where it is a string array.
    pub open spec fn string_cells(&self) -> Option<Cells> {
        match self {
            Argument::Utf8(a) => Some(StringColumn::Utf8(a).cells()),
            Argument::LargeUtf8(a) => Some(StringColumn::LargeUtf8(a).cells()),
            _ => None,
        }
    }

    /// The width of the argument, where it is a string array.
    pub open spec fn string_width(&self) -> Option<StringWidth> {
        match self {
            Argument::Utf8(_) => Some(StringWidth::Utf8),
            Argument::LargeUtf8(_) => Some(StringWidth::LargeUtf8),
            _ => None,
        }
    }

    /// The cells of the argument, each widened to 64 bits, where it is an
    /// integer array.
    pub open spec fn index_cells(&self) -> Option<Seq<Option<i64>>> {
        match self {
            Argument::Int32(a) => Some(IndexColumn::Int32(a).cells()),
            Argument::Int64(a) => Some(IndexColumn::Int64(a).cells()),
            _ => None,
        }
    }

    /// The argument as a string column, where it is a string array.
    pub fn as_strings(&self) -> (c: Option<StringColumn<'_>>)
        ensures
            c is Some <==> self.string_cells() is Some,
            c matches Some(column) ==> Some(column.cells()) == self.string_cells() && Some(
                column.width(),
            ) == self.string_width(),
    {
        match self {
            Argument::Utf8(a) => Some(StringColumn::Utf8(a)),
            Argument::LargeUtf8(a) => Some(StringColumn::LargeUtf8(a)),
            _ => None,
        }
    }

    /// The argument as an index column, where it is an integer array.
    pub fn as_indices(&self) -> (c: Option<IndexColumn<'_>>)
        ensures
            c is Some <==> self.index_cells() is Some,
            c matches Some(column) ==> Some(column.cells()) == self.index_cells(),
    {
        match self {
            Argument::Int32(a) => Some(IndexColumn::Int32(a)),
            Argument::Int64(a) => Some(IndexColumn::Int64(a)),
            _ => None,
        }
    }
}

/// Why an invocation failed, without the backend's own report.
#[derive(Debug, Clone, Copy, PartialEq, Eq, Structural)]
pub enum EvaluateErrorKind {
    /// The invocation has this many arguments, not 3.
    ArgumentCount(usize),
    /// The pattern is no string column.
    PatternType,
    /// The index is no integer column of 32 or 64 bits.
    IndexType,
    /// The subject is no string column.
    SubjectType,
    /// The kernel failed.
    Extract(ErrorKind),
}

/// Why an invocation failed.
#[derive(Debug)]
pub enum EvaluateError {
    /// The invocation has this many arguments, not 3.
    ArgumentCount(usize),
    /// The pattern is no string column.
    PatternType,
    /// The index is no integer column of 32 or 64 bits.
    IndexType,
    /// The subject is no string column.
    SubjectType,
    /// The kernel failed.
    Extract(RegexpExtractError),
}

/// What an error of an invocation says.
pub enum EvaluateFailure {
    /// The invocation has this many arguments, not 3.
    ArgumentCount(usize),
    /// The pattern is no string column.
    PatternType,
    /// The index is no integer column of 32 or 64 bits.
    IndexType,
    /// The subject is no string column.
    SubjectType,
    /// The kernel failed.
    Extract(Failure),
}

/// The text that opens the message of a wrong number of arguments.
pub open spec fn argument_count_prefix() -> Seq<char> {
    "regexp_extract expects 3 arguments, got "@
}

/// The message of a pattern that is no string column.
pub open spec fn pattern_type_text() -> Seq<char> {
    "regexp_extract pattern must be Utf8 or LargeUtf8"@
}

/// The text that opens the message of an index that is no integer column.
pub open spec fn index_type_prefix() -> Seq<char> {
    "regexp_extract idx must be Int32 or Int64, got "@
}

/// The text that opens the message of a subject that is no string column.
pub open spec fn subject_type_prefix() -> Seq<char> {
    "regexp_extract expects first argument Utf8 or LargeUtf8, got "@
}

impl EvaluateFailure {
    /// The human-readable message. `subject_type` and `index_type` are the
    /// host's names for the types of the subject and of the index; a message
    /// names the type of the argument it refuses.
    pub open spec fn message(self, subject_type: Seq<char>, index_type: Seq<char>) -> Seq<char> {
        match self {
            EvaluateFailure::ArgumentCount(n) => argument_count_prefix() + decimal_digits(n as nat),
            EvaluateFailure::PatternType => pattern_type_text(),
            EvaluateFailure::IndexType => index_type_prefix() + index_type,
            EvaluateFailure::SubjectType => subject_type_prefix() + subject_type,
            EvaluateFailure::Extract(f) => f.message(),
        }
    }

    /// The reason for the failure.
    pub open spec fn kind(self) -> EvaluateErrorKind {
        match self {
            EvaluateFailure::ArgumentCount(n) => EvaluateErrorKind::ArgumentCount(n),
            EvaluateFailure::PatternType => EvaluateErrorKind::PatternType,
            EvaluateFailure::IndexType => EvaluateErrorKind::IndexType,
            EvaluateFailure::SubjectType => EvaluateErrorKind::SubjectType,
            EvaluateFailure::Extract(f) => EvaluateErrorKind::Extract(f.kind()),
        }
    }
}

impl View for EvaluateError {
    type V = EvaluateFailure;

    open spec fn view(&self) -> EvaluateFailure {
        match self {
            EvaluateError::ArgumentCount(n) => EvaluateFailure::ArgumentCount(*n),
            EvaluateError::PatternType => EvaluateFailure::PatternType,
            EvaluateError::IndexType => EvaluateFailure::IndexType,
            EvaluateError::SubjectType => EvaluateFailure::SubjectType,
            EvaluateError::Extract(e) => EvaluateFailure::Extract(e@),
        }
    }
}

impl EvaluateError {
    /// The reason for the failure.
    pub open spec fn kind(&self) -> EvaluateErrorKind {
        self@.kind()
    }

    /// The reason for the failure, as a value.
    pub fn error_kind(&self) -> (k: EvaluateErrorKind)
        ensures
            k == self@.kind(),
    {
        match self {
            EvaluateError::ArgumentCount(n) => EvaluateErrorKind::ArgumentCount(*n),
            EvaluateError::PatternType => EvaluateErrorKind::PatternType,
            EvaluateError::IndexType => EvaluateErrorKind::IndexType,
            EvaluateError::SubjectType => EvaluateErrorKind::SubjectType,
            EvaluateError::Extract(e) => EvaluateErrorKind::Extract(e.error_kind()),
        }
    }

    /// The human-readable message. `subject_type` and `index_type` are the
    /// host's names for the types of the subject and of the index; a message
    /// names the type of the argument it refuses.
    pub fn message(&self, subject_type: &str, index_type: &str) -> (s: String)
        ensures
            s@ == self@.message(subject_type@, index_type@),
    {
        match self {
            EvaluateError::ArgumentCount(n) => {
                let mut s = String::from_str("regexp_extract expects 3 arguments, got ");
                push_digits(&mut s, *n as u64);
                s
            },
            EvaluateError::PatternType => {
                String::from_str("regexp_extract pattern must be Utf8 or LargeUtf8")
            },
            EvaluateError::IndexType => {
                let mut s = String::from_str("regexp_extract idx must be Int32 or Int64, got ");
                s.append(index_type);
                s
            },
            EvaluateError::SubjectType => {
                let mut s = String::from_str(
                    "regexp_extract expects first argument Utf8 or LargeUtf8, got ",
                );
                s.append(subject_type);
                s
            },
            EvaluateError::Extract(e) => e.message(),
        }
    }
}

/// What the check of the number of arguments gives: an error unless there
/// are 3.
pub open spec fn argument_count_checked(n: usize) -> Result<(), EvaluateFailure> {
    if n == 3 {
        Ok(())
    } else {
        Err(EvaluateFailure::ArgumentCount(n))
    }
}

/// What a check gave.
pub open spec fn check_view(r: Result<(), EvaluateError>) -> Result<(), EvaluateFailure> {
    match r {
        Ok(_) => Ok(()),
        Err(e) => Err(e@),
    }
}

/// Checks the number of arguments of an invocation, which a host does before
/// it turns any argument into an array.
pub fn check_argument_count(n: usize) -> (r: Result<(), EvaluateError>)
    ensures
        check_view(r) == argument_count_checked(n),
{
    if n == 3 {
        Ok(())
    } else {
        Err(EvaluateError::ArgumentCount(n))
    }
}

/// What an invocation with the arguments `args` returns with `engine` under
/// `mode`. The arguments are checked in this order: their number, the type
/// of the pattern, the type of the index, the type of the subject. Then the
/// kernel runs.
pub open spec fn evaluation(args: Seq<Argument>, engine: Engine, mode: InvalidPatternMode) -> Result<
    Cells,
    EvaluateFailure,
> {
    if args.len() != 3 {
        Err(EvaluateFailure::ArgumentCount(args.len() as usize))
    } else {
        match (args[1].string_cells(), args[2].index_cells(), args[0].string_cells()) {
            (None, _, _) => Err(EvaluateFailure::PatternType),
            (Some(_), None, _) => Err(EvaluateFailure::IndexType),
            (Some(_), Some(_), None) => Err(EvaluateFailure::SubjectType),
            (Some(patterns), Some(indices), Some(strings)) => {
                match (Batch { strings, patterns, indices }).extraction(engine, mode) {
                    Ok(cells) => Ok(cells),
                    Err(failure) => Err(EvaluateFailure::Extract(failure)),
                }
            },
        }
    }
}

/// What an invocation gave: the cells of its output column, or what its
/// error says.
pub open spec fn evaluate_view(r: Result<OutputColumn, EvaluateError>) -> Result<
    Cells,
    EvaluateFailure,
> {
    match r {
        Ok(column) => Ok(column.cells()),
        Err(e) => Err(e@),
    }
}

/// Evaluates one invocation with the configuration `cfg` and the engine
/// `engine`: the cache is made for `engine` with room for `cfg.cache_size`
/// patterns, and pattern and match failures are handled by
/// `cfg.invalid_pattern_mode`. The output has the width class of the subject.
pub fn evaluate_regexp_extract_with_engine(
    args: &Vec<Argument>,
    cfg: &RegexpExtractConfig,
    engine: Engine,
) -> (r: Result<OutputColumn, EvaluateError>)
    ensures
        evaluate_view(r) == evaluation(args@, engine, cfg.invalid_pattern_mode),
        r matches Ok(column) ==> args@.len() == 3 && Some(column.width())
            == args@[0].string_width(),
{
    match check_argument_count(args.len()) {
        Err(e) => {
            return Err(e);
        },
        Ok(_) => {},
    }
    let patterns = match args[1].as_strings() {
        Some(p) => p,
        None => {
            return Err(EvaluateError::PatternType);
        },
    };
    let indices = match args[2].as_indices() {
        Some(i) => i,
        None => {
            return Err(EvaluateError::IndexType);
        },
    };
    let strings = match args[0].as_strings() {
        Some(s) => s,
        None => {
            return Err(EvaluateError::SubjectType);
        },
    };
    match run_with_engine(
        &strings,
        &patterns,
        &indices,
        cfg.cache_size,
        engine,
        cfg.invalid_pattern_mode,
    ) {
        Ok(column) => Ok(column),
        Err(e) => Err(EvaluateError::Extract(e)),
    }
}

/// Evaluates one invocation with the configuration `cfg` and the linear-time
/// engine.
pub fn evaluate_regexp_extract_with(args: &Vec<Argument>, cfg: &RegexpExtractConfig) -> (r: Result<
    OutputColumn,
    EvaluateError,
>)
    ensures
        evaluate_view(r) == evaluation(args@, Engine::Linear, cfg.invalid_pattern_mode),
        r matches Ok(column) ==> args@.len() == 3 && Some(column.width())
            == args@[0].string_width(),
{
    evaluate_regexp_extract_with_engine(args, cfg, Engine::Linear)
}

/// Evaluates one invocation with the default configuration, 64 cache entries
/// and the strict policy, and the linear-time engine.
pub fn evaluate_regexp_extract(args: &Vec<Argument>) -> (r: Result<OutputColumn, EvaluateError>)
    ensures
        evaluate_view(r) == evaluation(args@, Engine::Linear, InvalidPatternMode::Error),
        r matches Ok(column) ==> args@.len() == 3 && Some(column.width())
            == args@[0].string_width(),
{
    let cfg = RegexpExtractConfig::new();
    evaluate_regexp_extract_with(args, &cfg)
}

} // verus!
