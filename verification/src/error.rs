//! The errors that end an invocation.

use vstd::prelude::*;
use vstd::string::StringExecFns;

verus! {

/// `regex::Error`, carried as it is; nothing is claimed of what it holds.
#[verifier::external_type_specification]
#[verifier::external_body]
pub struct ExLinearError(regex::Error);

/// `fancy_regex::Error`, carried as it is; nothing is claimed of what it
/// holds.
#[verifier::external_type_specification]
#[verifier::external_body]
pub struct ExExpressiveError(fancy_regex::Error);

/// What a backend reported when it refused a pattern or gave up on a match.
#[derive(Debug)]
pub enum RegexError {
    /// Reported by the linear-time backend.
    Linear(regex::Error),
    /// Reported by the expressive backend.
    Expressive(fancy_regex::Error),
}

/// The reason an invocation failed, without the backend's own report.
#[derive(Debug, Clone, Copy, PartialEq, Eq, Structural)]
pub enum ErrorKind {
    /// A pattern failed to compile.
    InvalidPattern,
    /// A row asked for the group at this negative index.
    NegativeIndex(i64),
    /// The pattern or index column has a length other than 1 or the row count.
    ShapeError,
    /// Neither a 64-bit nor a 32-bit index column was handed over.
    MissingIdxArray,
    /// A compiled pattern failed while matching.
    MatchError,
}

/// An invocation-fatal error.
#[derive(Debug)]
pub enum RegexpExtractError {
    /// A pattern failed to compile; the backend's report is attached.
    InvalidPattern(Box<RegexError>),
    /// A row asked for the group at a negative index.
    NegativeIndex(i64),
    /// The pattern or index column has a length other than 1 or the row count.
    ShapeError,
    /// Neither a 64-bit nor a 32-bit index column was handed over.
    MissingIdxArray,
    /// A compiled pattern failed while matching; the backend's report is attached as text.
    MatchError(String),
}

/// The text that opens the message of an invalid pattern.
pub open spec fn invalid_pattern_prefix() -> Seq<char> {
    "regexp_extract: invalid regex pattern: "@
}

/// The text that opens the message of a negative index.
pub open spec fn negative_index_prefix() -> Seq<char> {
    "regexp_extract: idx must be >= 0, got "@
}

/// The message of a shape error.
pub open spec fn shape_error_text() -> Seq<char> {
    "regexp_extract: pattern and idx must have one row or as many rows as the input"@
}

/// The message of a missing index column.
pub open spec fn missing_idx_text() -> Seq<char> {
    "regexp_extract: idx array missing (internal)"@
}

/// The text that opens the message of a match failure.
pub open spec fn match_error_prefix() -> Seq<char> {
    "regexp_extract: match error: "@
}

/// `<regex::Error as ToString>::to_string`: the report of the linear-time
/// backend as text.
pub uninterp spec fn linear_report(e: regex::Error) -> Seq<char>;

/// `<fancy_regex::Error as ToString>::to_string`: the report of the
/// expressive backend as text.
pub uninterp spec fn expressive_report(e: fancy_regex::Error) -> Seq<char>;

/// `<regex::Error as ToString>::to_string`: the backend's report as text,
/// which depends on the error alone.
#[verifier::external_body]
fn linear_error_text(e: &regex::Error) -> (s: String)
    ensures
        s@ == linear_report(*e),
{
    e.to_string()
}

/// `<fancy_regex::Error as ToString>::to_string`: the backend's report as
/// text, which depends on the error alone.
#[verifier::external_body]
fn expressive_error_text(e: &fancy_regex::Error) -> (s: String)
    ensures
        s@ == expressive_report(*e),
{
    e.to_string()
}

/// The character of a decimal digit.
pub open spec fn digit_char(d: int) -> char {
    if d == 0 {
        '0'
    } else if d == 1 {
        '1'
    } else if d == 2 {
        '2'
    } else if d == 3 {
        '3'
    } else if d == 4 {
        '4'
    } else if d == 5 {
        '5'
    } else if d == 6 {
        '6'
    } else if d == 7 {
        '7'
    } else if d == 8 {
        '8'
    } else {
        '9'
    }
}

/// The decimal digits of `n`, the most significant first, without leading
/// zeros.
pub open spec fn decimal_digits(n: nat) -> Seq<char>
    decreases n,
{
    if n < 10 {
        seq![digit_char(n as int)]
    } else {
        decimal_digits(n / 10).push(digit_char((n % 10) as int))
    }
}

/// The decimal text of `v`: a minus sign where `v` is negative, then the
/// digits of its magnitude.
pub open spec fn decimal_text(v: int) -> Seq<char> {
    if v < 0 {
        seq!['-'] + decimal_digits((-v) as nat)
    } else {
        decimal_digits(v as nat)
    }
}

/// The character of the digit `d` as a string.
fn digit_str(d: u64) -> (s: &'static str)
    requires
        d < 10,
    ensures
        s@ == seq![digit_char(d as int)],
{
    proof {
        reveal_strlit("0");
        reveal_strlit("1");
        reveal_strlit("2");
        reveal_strlit("3");
        reveal_strlit("4");
        reveal_strlit("5");
        reveal_strlit("6");
        reveal_strlit("7");
        reveal_strlit("8");
        reveal_strlit("9");
    }
    let s = if d == 0 {
        "0"
    } else if d == 1 {
        "1"
    } else if d == 2 {
        "2"
    } else if d == 3 {
        "3"
    } else if d == 4 {
        "4"
    } else if d == 5 {
        "5"
    } else if d == 6 {
        "6"
    } else if d == 7 {
        "7"
    } else if d == 8 {
        "8"
    } else {
        "9"
    };
    assert(s@ =~= seq![digit_char(d as int)]);
    s
}

/// Appends the decimal digits of `n` to `s`.
pub(crate) fn push_digits(s: &mut String, n: u64)
    ensures
        final(s)@ == old(s)@ + decimal_digits(n as nat),
    decreases n,
{
    if n >= 10 {
        push_digits(s, n / 10);
    }
    let ghost before = s@;
    s.append(digit_str(n % 10));
    proof {
        if n >= 10 {
            assert(s@ =~= old(s)@ + decimal_digits((n / 10) as nat).push(
                digit_char((n % 10) as int),
            ));
        } else {
            assert(s@ =~= old(s)@ + seq![digit_char(n as int)]);
        }
    }
}

/// Appends the decimal text of `v` to `s`.
fn push_decimal(s: &mut String, v: i64)
    ensures
        final(s)@ == old(s)@ + decimal_text(v as int),
{
    if v < 0 {
        proof {
            reveal_strlit("-");
        }
        s.append("-");
        let magnitude: u64 = ((-(v + 1)) as u64) + 1;
        push_digits(s, magnitude);
        assert(s@ =~= old(s)@ + (seq!['-'] + decimal_digits((-v) as nat)));
    } else {
        push_digits(s, v as u64);
    }
}

impl From<RegexError> for RegexpExtractError {
    fn from(e: RegexError) -> (r: Self) {
        RegexpExtractError::InvalidPattern(Box::new(e))
    }
}

impl vstd::std_specs::convert::FromSpecImpl<RegexError> for RegexpExtractError {
    open spec fn obeys_from_spec() -> bool {
        true
    }

    open spec fn from_spec(e: RegexError) -> Self {
        RegexpExtractError::InvalidPattern(Box::new(e))
    }
}

impl RegexError {
    /// The backend that made the report.
    pub open spec fn engine(&self) -> crate::re::Engine {
        match self {
            RegexError::Linear(_) => crate::re::Engine::Linear,
            RegexError::Expressive(_) => crate::re::Engine::Expressive,
        }
    }

    /// The backend's report as text.
    pub open spec fn report(&self) -> Seq<char> {
        match self {
            RegexError::Linear(e) => linear_report(*e),
            RegexError::Expressive(e) => expressive_report(*e),
        }
    }

    /// The backend's report as text.
    pub fn text(&self) -> (s: String)
        ensures
            s@ == self.report(),
    {
        match self {
            RegexError::Linear(e) => linear_error_text(e),
            RegexError::Expressive(e) => expressive_error_text(e),
        }
    }
}

/// What an error says: its kind, together with the backend's report or the
/// offending index.
pub enum Failure {
    /// A pattern failed to compile; the backend reported this.
    InvalidPattern(Seq<char>),
    /// A row asked for the group at this negative index.
    NegativeIndex(i64),
    /// The pattern or index column has a length other than 1 or the row count.
    ShapeError,
    /// Neither a 64-bit nor a 32-bit index column was handed over.
    MissingIdxArray,
    /// A compiled pattern failed while matching; the backend reported this.
    MatchError(Seq<char>),
}

impl Failure {
    /// The reason for the failure.
    pub open spec fn kind(self) -> ErrorKind {
        match self {
            Failure::InvalidPattern(_) => ErrorKind::InvalidPattern,
            Failure::NegativeIndex(i) => ErrorKind::NegativeIndex(i),
            Failure::ShapeError => ErrorKind::ShapeError,
            Failure::MissingIdxArray => ErrorKind::MissingIdxArray,
            Failure::MatchError(_) => ErrorKind::MatchError,
        }
    }

    /// The human-readable message: a fixed opening for the kind of failure,
    /// followed by the backend's report or by the offending index in
    /// decimal; a shape error and a missing index column have the opening
    /// alone.
    pub open spec fn message(self) -> Seq<char> {
        match self {
            Failure::InvalidPattern(report) => invalid_pattern_prefix() + report,
            Failure::NegativeIndex(i) => negative_index_prefix() + decimal_text(i as int),
            Failure::ShapeError => shape_error_text(),
            Failure::MissingIdxArray => missing_idx_text(),
            Failure::MatchError(report) => match_error_prefix() + report,
        }
    }
}

impl View for RegexpExtractError {
    type V = Failure;

    open spec fn view(&self) -> Failure {
        match self {
            RegexpExtractError::InvalidPattern(e) => Failure::InvalidPattern(e.report()),
            RegexpExtractError::NegativeIndex(i) => Failure::NegativeIndex(*i),
            RegexpExtractError::ShapeError => Failure::ShapeError,
            RegexpExtractError::MissingIdxArray => Failure::MissingIdxArray,
            RegexpExtractError::MatchError(t) => Failure::MatchError(t@),
        }
    }
}

impl RegexpExtractError {
    /// The reason for the failure.
    pub open spec fn kind(&self) -> ErrorKind {
        self@.kind()
    }

    /// The reason for the failure, as a value.
    pub fn error_kind(&self) -> (k: ErrorKind)
        ensures
            k == self@.kind(),
    {
        match self {
            RegexpExtractError::InvalidPattern(_) => ErrorKind::InvalidPattern,
            RegexpExtractError::NegativeIndex(i) => ErrorKind::NegativeIndex(*i),
            RegexpExtractError::ShapeError => ErrorKind::ShapeError,
            RegexpExtractError::MissingIdxArray => ErrorKind::MissingIdxArray,
            RegexpExtractError::MatchError(_) => ErrorKind::MatchError,
        }
    }

    /// The human-readable message.
    pub fn message(&self) -> (s: String)
        ensures
            s@ == self@.message(),
    {
        match self {
            RegexpExtractError::InvalidPattern(e) => {
                let mut s = String::from_str("regexp_extract: invalid regex pattern: ");
                let t = e.text();
                s.append(t.as_str());
                s
            },
            RegexpExtractError::NegativeIndex(i) => {
                let mut s = String::from_str("regexp_extract: idx must be >= 0, got ");
                push_decimal(&mut s, *i);
                s
            },
            RegexpExtractError::ShapeError => {
                String::from_str(
                    "regexp_extract: pattern and idx must have one row or as many rows as the input",
                )
            },
            RegexpExtractError::MissingIdxArray => {
                String::from_str("regexp_extract: idx array missing (internal)")
            },
            RegexpExtractError::MatchError(t) => {
                let mut s = String::from_str("regexp_extract: match error: ");
                s.append(t.as_str());
                s
            },
        }
    }
}

} // verus!
