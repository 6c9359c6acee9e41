//! The regex engine adapter: one `compile` and one `captures` over two
//! interchangeable backends.

use crate::arrays::utf8_bytes;
use crate::error::{expressive_report, linear_report, RegexError};
use vstd::prelude::*;

verus! {

/// `regex::Regex`, carried as it is; what the contracts know of a value is
/// the pattern text it was built from and whether it was built with the
/// default options.
#[verifier::external_type_specification]
#[verifier::external_body]
pub struct ExLinearRegex(regex::Regex);

/// `fancy_regex::Regex`, carried as it is; what the contracts know of a value
/// is the pattern text it was built from and whether it was built with the
/// default options.
#[verifier::external_type_specification]
#[verifier::external_body]
pub struct ExExpressiveRegex(fancy_regex::Regex);

/// The backend that compiles and matches patterns.
#[derive(Debug, Clone, Copy, PartialEq, Eq, Structural)]
pub enum Engine {
    /// Linear-time matching; no back-references, no look-around; never fails
    /// while matching.
    Linear,
    /// Back-references and look-around; may fail while matching.
    Expressive,
}

/// A compiled pattern.
#[derive(Debug)]
pub enum CompiledRegex {
    /// Compiled by the linear-time backend.
    Linear(regex::Regex),
    /// Compiled by the expressive backend.
    Expressive(fancy_regex::Regex),
}

/// The groups of one match, copied out of the subject: entry 0 is the whole
/// match, entry `k` the text of group `k`, `None` where the group took no part.
#[derive(Debug, PartialEq, Eq)]
pub struct Captures {
    pub groups: Vec<Option<String>>,
}

/// The groups of a match as texts.
pub type Groups = Seq<Option<Seq<char>>>;

/// A match as the backends give it: the text of the whole match, which every
/// match has, and the groups after it in the order of their opening
/// parentheses, `None` where a group took no part.
pub type Hit = (Seq<char>, Groups);

/// The groups of a match, the whole match as entry 0.
pub open spec fn entries(hit: Hit) -> Groups {
    seq![Some(hit.0)] + hit.1
}

/// The groups of an optional match, the whole match as entry 0.
pub open spec fn found_of(hit: Option<Hit>) -> Option<Groups> {
    match hit {
        Some(h) => Some(entries(h)),
        None => None,
    }
}

/// The text of an optional string.
pub open spec fn text_of(s: Option<String>) -> Option<Seq<char>> {
    match s {
        Some(t) => Some(t@),
        None => None,
    }
}

impl View for Captures {
    type V = Groups;

    open spec fn view(&self) -> Groups {
        Seq::new(self.groups@.len(), |k: int| text_of(self.groups@[k]))
    }
}

/// Whether the text of each group has at most as many bytes as `subject`.
pub open spec fn within(groups: Groups, subject: Seq<char>) -> bool {
    forall|k: int|
        0 <= k < groups.len() ==> (#[trigger] groups[k] matches Some(text) ==> utf8_bytes(text)
            <= utf8_bytes(subject))
}

/// The groups of an optional match.
pub open spec fn groups_of(c: Option<Captures>) -> Option<Groups> {
    match c {
        Some(c) => Some(c@),
        None => None,
    }
}

/// What the linear-time backend said of a pattern: that it compiles, or its
/// report.
pub open spec fn linear_verdict(r: Result<regex::Regex, regex::Error>) -> Result<(), Seq<char>> {
    match r {
        Ok(_) => Ok(()),
        Err(e) => Err(linear_report(e)),
    }
}

/// What the expressive backend said of a pattern: that it compiles, or its
/// report.
pub open spec fn expressive_verdict(r: Result<fancy_regex::Regex, fancy_regex::Error>) -> Result<
    (),
    Seq<char>,
> {
    match r {
        Ok(_) => Ok(()),
        Err(e) => Err(expressive_report(e)),
    }
}

/// What a match attempt is to the contracts: the groups of the match, or the
/// backend's report on a failure.
pub type MatchOutcome = Result<Option<Groups>, Seq<char>>;

/// What a match attempt of the expressive backend gave.
pub open spec fn expressive_outcome(r: Result<Option<Captures>, fancy_regex::Error>) -> MatchOutcome {
    match r {
        Ok(c) => Ok(groups_of(c)),
        Err(e) => Err(expressive_report(e)),
    }
}

/// What a match attempt gave.
pub open spec fn outcome_of(r: Result<Option<Captures>, Box<RegexError>>) -> MatchOutcome {
    match r {
        Ok(c) => Ok(groups_of(c)),
        Err(e) => Err(e.report()),
    }
}

/// `regex::Regex::as_str`: the pattern text that a compiled regex was built
/// from.
pub uninterp spec fn linear_source(re: regex::Regex) -> Seq<char>;

/// `regex::Regex::new`: whether the linear-time backend compiles `pattern`,
/// and the report with which it refuses it otherwise, as text.
pub uninterp spec fn linear_compiled(pattern: Seq<char>) -> Result<(), Seq<char>>;

/// `regex::Regex::new`: whether a compiled regex is one that `Regex::new`
/// built, that is with the default options.
pub uninterp spec fn linear_default(re: regex::Regex) -> bool;

/// `regex::Regex::captures`: the leftmost match in `subject` of `pattern`
/// compiled with the default options, or `None` where it does not match.
pub uninterp spec fn linear_groups(pattern: Seq<char>, subject: Seq<char>) -> Option<Hit>;

/// `fancy_regex::Regex::as_str`: the pattern text that a compiled regex was
/// built from.
pub uninterp spec fn expressive_source(re: fancy_regex::Regex) -> Seq<char>;

/// `fancy_regex::Regex::new`: whether the expressive backend compiles
/// `pattern`, and the report with which it refuses it otherwise, as text.
pub uninterp spec fn expressive_compiled(pattern: Seq<char>) -> Result<(), Seq<char>>;

/// `fancy_regex::Regex::new`: whether a compiled regex is one that
/// `Regex::new` built, that is with the default options.
pub uninterp spec fn expressive_default(re: fancy_regex::Regex) -> bool;

/// `fancy_regex::Regex::captures`: the first match in `subject` of `pattern`
/// compiled with the default options, `Ok(None)` where it does not match, and
/// the backend's report where it gives up while matching.
pub uninterp spec fn expressive_groups(pattern: Seq<char>, subject: Seq<char>) -> Result<
    Option<Hit>,
    Seq<char>,
>;

/// The outcome of a match attempt of the expressive backend, the whole match
/// as entry 0 of its groups.
pub open spec fn expressive_found(outcome: Result<Option<Hit>, Seq<char>>) -> MatchOutcome {
    match outcome {
        Ok(hit) => Ok(found_of(hit)),
        Err(report) => Err(report),
    }
}

/// `regex::Regex::new`: compiles `pattern` with the default options. Whether
/// it succeeds, and with which report it fails, depends on the pattern alone;
/// the compiled regex keeps the pattern text it was built from.
#[verifier::external_body]
fn linear_compile(pattern: &str) -> (r: Result<regex::Regex, regex::Error>)
    ensures
        linear_verdict(r) == linear_compiled(pattern@),
        r matches Ok(re) ==> linear_source(re) == pattern@ && linear_default(re),
{
    regex::Regex::new(pattern)
}

/// `regex::Regex::captures`: searches `subject` from its start and copies the
/// text of every group of the leftmost match. For a regex built with the
/// default options, which `requires` asks for, the outcome depends on the
/// pattern text and on the subject alone. A match has at least one entry, and
/// its entry 0, the whole match, took part. Each group is a part of the
/// subject, so its text has no more bytes than the subject.
#[verifier::external_body]
fn linear_captures(re: &regex::Regex, subject: &str) -> (r: Option<Captures>)
    requires
        linear_default(*re),
    ensures
        groups_of(r) == found_of(linear_groups(linear_source(*re), subject@)),
        r matches Some(c) ==> c@.len() >= 1 && c@[0] is Some,
        r matches Some(c) ==> within(c@, subject@),
{
    re.captures(subject).map(
        |c| Captures { groups: c.iter().map(|m| m.map(|m| m.as_str().to_string())).collect() },
    )
}

/// `fancy_regex::Regex::new`: compiles `pattern` with the default options.
/// Whether it succeeds, and with which report it fails, depends on the
/// pattern alone; the compiled regex keeps the pattern text it was built
/// from.
#[verifier::external_body]
fn expressive_compile(pattern: &str) -> (r: Result<fancy_regex::Regex, fancy_regex::Error>)
    ensures
        expressive_verdict(r) == expressive_compiled(pattern@),
        r matches Ok(re) ==> expressive_source(re) == pattern@ && expressive_default(re),
{
    fancy_regex::Regex::new(pattern)
}

/// `fancy_regex::Regex::captures`: searches `subject` from its start and
/// copies the text of every group of the first match; fails where the backend
/// gives up while matching. For a regex built with the default options, which
/// `requires` asks for, the outcome depends on the pattern text and on the
/// subject alone. A match has at least one entry, and its entry 0, the whole
/// match, took part. Each group is a part of the subject, so its text has no
/// more bytes than the subject.
#[verifier::external_body]
fn expressive_captures(re: &fancy_regex::Regex, subject: &str) -> (r: Result<
    Option<Captures>,
    fancy_regex::Error,
>)
    requires
        expressive_default(*re),
    ensures
        expressive_outcome(r) == expressive_found(
            expressive_groups(expressive_source(*re), subject@),
        ),
        r matches Ok(Some(c)) ==> c@.len() >= 1 && c@[0] is Some,
        r matches Ok(Some(c)) ==> within(c@, subject@),
{
    re.captures(subject).map(
        |o| o.map(
            |c| Captures { groups: c.iter().map(|m| m.map(|m| m.as_str().to_string())).collect() },
        ),
    )
}

/// What `engine` says of `pattern`: that it compiles, or its report.
pub open spec fn compiled(engine: Engine, pattern: Seq<char>) -> Result<(), Seq<char>> {
    match engine {
        Engine::Linear => linear_compiled(pattern),
        Engine::Expressive => expressive_compiled(pattern),
    }
}

/// Whether `engine` compiles `pattern`.
pub open spec fn accepts(engine: Engine, pattern: Seq<char>) -> bool {
    compiled(engine, pattern) is Ok
}

/// The report with which `engine` refuses `pattern`.
pub open spec fn refusal(engine: Engine, pattern: Seq<char>) -> Seq<char> {
    compiled(engine, pattern)->Err_0
}

/// What matching `pattern` against `subject` gives under `engine`: the groups
/// of the first match, `Ok(None)` where there is none, and the engine's
/// report where it fails while matching. The linear-time engine never fails.
pub open spec fn match_of(engine: Engine, pattern: Seq<char>, subject: Seq<char>) -> MatchOutcome {
    match engine {
        Engine::Linear => Ok(found_of(linear_groups(pattern, subject))),
        Engine::Expressive => expressive_found(expressive_groups(pattern, subject)),
    }
}

/// Every match has at least one entry, and its entry 0, the whole match, took
/// part.
pub proof fn lemma_match_has_whole(engine: Engine, pattern: Seq<char>, subject: Seq<char>)
    ensures
        match_of(engine, pattern, subject) matches Ok(Some(groups)) ==> groups.len() >= 1
            && groups[0] is Some,
{
}

/// What the contracts know of a compiled pattern: the backend that compiled
/// it, the pattern text it was compiled from, and whether it was compiled
/// with the backend's default options.
pub struct RegexView {
    pub engine: Engine,
    pub source: Seq<char>,
    pub plain: bool,
}

impl View for CompiledRegex {
    type V = RegexView;

    open spec fn view(&self) -> RegexView {
        RegexView { engine: self.engine(), source: self.source(), plain: self.plain() }
    }
}

impl CompiledRegex {
    /// The backend that compiled this regex.
    pub open spec fn engine(&self) -> Engine {
        match self {
            CompiledRegex::Linear(_) => Engine::Linear,
            CompiledRegex::Expressive(_) => Engine::Expressive,
        }
    }

    /// The pattern text that this regex was compiled from.
    pub open spec fn source(&self) -> Seq<char> {
        match self {
            CompiledRegex::Linear(re) => linear_source(*re),
            CompiledRegex::Expressive(re) => expressive_source(*re),
        }
    }

    /// Whether this regex was compiled with the default options of its
    /// backend, as `compile` and `compile_with` do. A regex that a caller
    /// built with options of its own is not plain: what it matches depends
    /// on more than its pattern text.
    pub open spec fn plain(&self) -> bool {
        match self {
            CompiledRegex::Linear(re) => linear_default(*re),
            CompiledRegex::Expressive(re) => expressive_default(*re),
        }
    }
}

/// Compiles `pattern` with `engine`. Fails exactly where the engine refuses
/// the pattern; the error carries the engine's report.
pub fn compile_with(engine: Engine, pattern: &str) -> (r: Result<CompiledRegex, Box<RegexError>>)
    ensures
        r is Ok <==> accepts(engine, pattern@),
        r matches Ok(re) ==> re.engine() == engine && re.source() == pattern@ && re.plain(),
        r matches Err(e) ==> e.engine() == engine && e.report() == refusal(engine, pattern@),
{
    match engine {
        Engine::Linear => match linear_compile(pattern) {
            Ok(re) => Ok(CompiledRegex::Linear(re)),
            Err(e) => Err(Box::new(RegexError::Linear(e))),
        },
        Engine::Expressive => match expressive_compile(pattern) {
            Ok(re) => Ok(CompiledRegex::Expressive(re)),
            Err(e) => Err(Box::new(RegexError::Expressive(e))),
        },
    }
}

/// Compiles `pattern` with the linear-time engine.
pub fn compile(pattern: &str) -> (r: Result<CompiledRegex, Box<RegexError>>)
    ensures
        r is Ok <==> accepts(Engine::Linear, pattern@),
        r matches Ok(re) ==> re.engine() == Engine::Linear && re.source() == pattern@
            && re.plain(),
        r matches Err(e) ==> e.engine() == Engine::Linear && e.report() == refusal(
            Engine::Linear,
            pattern@,
        ),
{
    compile_with(Engine::Linear, pattern)
}

/// Matches `re`, a regex compiled with the default options, against
/// `subject`. `Ok(None)` where the pattern does not match; an error only
/// where the expressive engine fails while matching.
pub fn captures(re: &CompiledRegex, subject: &str) -> (r: Result<Option<Captures>, Box<RegexError>>)
    requires
        re.plain(),
    ensures
        outcome_of(r) == match_of(re.engine(), re.source(), subject@),
        r matches Ok(Some(c)) ==> c@.len() >= 1 && c@[0] is Some,
        r matches Ok(Some(c)) ==> within(c@, subject@),
        r matches Err(e) ==> e.engine() == Engine::Expressive,
{
    match re {
        CompiledRegex::Linear(inner) => Ok(linear_captures(inner, subject)),
        CompiledRegex::Expressive(inner) => match expressive_captures(inner, subject) {
            Ok(c) => Ok(c),
            Err(e) => Err(Box::new(RegexError::Expressive(e))),
        },
    }
}

/// The text that a match yields for the group at `idx`: the whole match for
/// 0, the group's text where the group exists and took part, and the empty
/// text otherwise, as for no match at all and for an index below 0.
pub open spec fn group_text(found: Option<Groups>, idx: int) -> Seq<char> {
    match found {
        Some(groups) => if 0 <= idx < groups.len() {
            match groups[idx] {
                Some(text) => text,
                None => Seq::empty(),
            }
        } else {
            Seq::empty()
        },
        None => Seq::empty(),
    }
}

/// The text selected from groups that lie within `subject` has no more bytes
/// than `subject`.
pub proof fn lemma_group_text_within(found: Option<Groups>, idx: int, subject: Seq<char>)
    requires
        found matches Some(groups) ==> within(groups, subject),
    ensures
        utf8_bytes(group_text(found, idx)) <= utf8_bytes(subject),
{
    assert(utf8_bytes(Seq::<char>::empty()) == 0);
    if let Some(groups) = found {
        if 0 <= idx < groups.len() {
            let _ = groups[idx];
        }
    }
}

/// Selects the text of the group at `idx` from the outcome of a match.
pub fn select_group(found: &Option<Captures>, idx: i64) -> (out: String)
    ensures
        out@ == group_text(groups_of(*found), idx as int),
{
    match found {
        Some(c) => {
            if idx >= 0 && (idx as u64) < (c.groups.len() as u64) {
                match &c.groups[idx as usize] {
                    Some(text) => text.clone(),
                    None => String::new(),
                }
            } else {
                String::new()
            }
        },
        None => String::new(),
    }
}

} // verus!
