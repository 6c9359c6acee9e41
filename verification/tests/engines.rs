use datafusion::arrow::array as arrow;
use datafusion_regexp_extract_udf::arrays::{Int32Array, Int64Array, LargeUtf8Array, Utf8Array};
use datafusion_regexp_extract_udf::columns::{IndexColumn, OutputColumn, StringColumn};
use datafusion_regexp_extract_udf::error::{ErrorKind, RegexError, RegexpExtractError};
use datafusion_regexp_extract_udf::eval::{
    evaluate_regexp_extract_with_engine, Argument, EvaluateErrorKind,
};
use datafusion_regexp_extract_udf::kernel::{
    match_row, run_generic, run_with_cache, run_with_engine,
};
use datafusion_regexp_extract_udf::pattern_cache::PatternCache;
use datafusion_regexp_extract_udf::re::{
    captures, compile, compile_with, select_group, Captures, Engine,
};
use datafusion_regexp_extract_udf::{InvalidPatternMode, RegexpExtractConfig};

const RUNAWAY_PATTERN: &str = r"(?i)(a|b|ab)*(?>c)";
const RUNAWAY_SUBJECT: &str = "abababababababababababababababababababababababababababab";

fn subject(vals: &[Option<&str>]) -> Utf8Array {
    Utf8Array { array: arrow::StringArray::from(vals.to_vec()) }
}

fn scalar(i: i64) -> Int64Array {
    Int64Array { array: arrow::Int64Array::from(vec![Some(i)]) }
}

fn out_cells(out: &OutputColumn) -> Vec<Option<&str>> {
    match out {
        OutputColumn::Utf8(a) => a.array.iter().collect(),
        OutputColumn::LargeUtf8(a) => a.array.iter().collect(),
    }
}

fn linear(
    s: &Utf8Array,
    p: &Utf8Array,
    i: &Int64Array,
    mode: InvalidPatternMode,
) -> Result<OutputColumn, RegexpExtractError> {
    run_generic(&StringColumn::Utf8(s), &StringColumn::Utf8(p), &IndexColumn::Int64(i), 8, mode)
}

fn expressive(
    s: &Utf8Array,
    p: &Utf8Array,
    i: &Int64Array,
    mode: InvalidPatternMode,
) -> Result<OutputColumn, RegexpExtractError> {
    let mut cache = PatternCache::with_engine(64, Engine::Expressive);
    run_with_cache(
        &StringColumn::Utf8(s),
        &StringColumn::Utf8(p),
        &IndexColumn::Int64(i),
        &mut cache,
        mode,
    )
}

#[test]
fn fancy_regex_lookbehind_works() {
    // (?<=a)b matches the 'b' only if preceded by 'a'
    let s = subject(&[Some("ab")]);
    let p = subject(&[Some("(?<=a)b")]);
    // idx=0 => whole match ("b"), note: lookbehind doesn't create a capture group
    let m0 = expressive(&s, &p, &scalar(0), InvalidPatternMode::Error).unwrap();
    // idx=1 => non-existent group -> ""
    let m1 = expressive(&s, &p, &scalar(1), InvalidPatternMode::Error).unwrap();
    assert_eq!(out_cells(&m0)[0], Some("b"));
    assert_eq!(out_cells(&m1)[0], Some(""));
}

#[test]
fn fancy_regex_backreference_works() {
    // (ab)\1 matches "abab"; group 1 == "ab"
    let s = subject(&[Some("abab")]);
    let p = subject(&[Some(r"(ab)\1")]);
    let whole = expressive(&s, &p, &scalar(0), InvalidPatternMode::Error).unwrap();
    let g1 = expressive(&s, &p, &scalar(1), InvalidPatternMode::Error).unwrap();
    assert_eq!(out_cells(&whole)[0], Some("abab"));
    assert_eq!(out_cells(&g1)[0], Some("ab"));
}

#[test]
fn engines_disagree_on_look_behind() {
    assert!(compile("(?<=a)b").is_err());
    assert!(compile_with(Engine::Linear, "(?<=a)b").is_err());
    assert!(compile_with(Engine::Expressive, "(?<=a)b").is_ok());
    assert!(compile_with(Engine::Linear, r"(ab)\1").is_err());
    assert!(compile_with(Engine::Expressive, r"(ab)\1").is_ok());
    assert!(compile_with(Engine::Expressive, "(").is_err());
    assert!(compile(r"(\d+)").is_ok());
}

#[test]
fn compile_error_carries_the_backend_report() {
    let e = compile("(").unwrap_err();
    assert!(!e.text().is_empty());
    assert!(matches!(*e, RegexError::Linear(_)));
    let e = compile_with(Engine::Expressive, "(").unwrap_err();
    assert!(!e.text().is_empty());
    assert!(matches!(*e, RegexError::Expressive(_)));
    let report = e.text();
    let err = RegexpExtractError::from(*e);
    assert_eq!(err.error_kind(), ErrorKind::InvalidPattern);
    assert_eq!(err.message(), format!("regexp_extract: invalid regex pattern: {report}"));
}

#[test]
fn captures_copies_every_group() {
    let re = compile(r"(a+)(b)?(c)").unwrap();
    let found = captures(&re, "xxaaaacyy").unwrap().unwrap();
    assert_eq!(
        found.groups,
        vec![Some("aaaac".to_string()), Some("aaaa".to_string()), None, Some("c".to_string())]
    );
    assert!(captures(&re, "nothing here").unwrap().is_none());

    let re = compile_with(Engine::Expressive, r"(a+)(b)?(c)(?=y)").unwrap();
    let found = captures(&re, "xxaaaacyy").unwrap().unwrap();
    assert_eq!(
        found.groups,
        vec![Some("aaaac".to_string()), Some("aaaa".to_string()), None, Some("c".to_string())]
    );
    assert!(captures(&re, "aaaacz").unwrap().is_none());
}

#[test]
fn captures_takes_the_leftmost_match() {
    let re = compile(r"(\d+)").unwrap();
    let found = captures(&re, "a 12 b 345").unwrap().unwrap();
    assert_eq!(found.groups, vec![Some("12".to_string()), Some("12".to_string())]);
}

#[test]
fn select_group_picks_by_index() {
    let found = Some(Captures {
        groups: vec![Some("whole".to_string()), None, Some("two".to_string())],
    });
    assert_eq!(select_group(&found, 0), "whole");
    assert_eq!(select_group(&found, 1), "");
    assert_eq!(select_group(&found, 2), "two");
    assert_eq!(select_group(&found, 3), "");
    assert_eq!(select_group(&found, i64::MAX), "");
    assert_eq!(select_group(&found, -1), "");
    assert_eq!(select_group(&found, i64::MIN), "");
    assert_eq!(select_group(&None, 0), "");
    assert_eq!(select_group(&None, 5), "");
    assert_eq!(select_group(&Some(Captures { groups: vec![] }), 0), "");
}

#[test]
fn match_failure_is_fatal_under_the_strict_policy() {
    let re = compile_with(Engine::Expressive, RUNAWAY_PATTERN).unwrap();
    assert!(captures(&re, RUNAWAY_SUBJECT).is_err());
    let err = match_row(&re, RUNAWAY_SUBJECT, 0, InvalidPatternMode::Error).unwrap_err();
    assert_eq!(err.error_kind(), ErrorKind::MatchError);
    let msg = err.message();
    assert!(msg.starts_with("regexp_extract: match error: "));
    assert!(msg.len() > "regexp_extract: match error: ".len());
    match err {
        RegexpExtractError::MatchError(t) => {
            assert_eq!(msg, format!("regexp_extract: match error: {t}"))
        }
        other => panic!("unexpected error {other:?}"),
    }
}

#[test]
fn match_failure_is_absorbed_under_the_lenient_policy() {
    let re = compile_with(Engine::Expressive, RUNAWAY_PATTERN).unwrap();
    assert_eq!(match_row(&re, RUNAWAY_SUBJECT, 0, InvalidPatternMode::EmptyString).unwrap(), "");
    assert_eq!(match_row(&re, "abc", 0, InvalidPatternMode::EmptyString).unwrap(), "abc");
    assert_eq!(match_row(&re, "abc", 1, InvalidPatternMode::Error).unwrap(), "b");
}

#[test]
fn match_failure_in_a_batch() {
    let s = subject(&[Some("abc"), Some(RUNAWAY_SUBJECT), None, Some("bc")]);
    let p = subject(&[Some(RUNAWAY_PATTERN)]);
    let out = expressive(&s, &p, &scalar(0), InvalidPatternMode::EmptyString).unwrap();
    assert_eq!(out_cells(&out), vec![Some("abc"), Some(""), None, Some("bc")]);
    let err = expressive(&s, &p, &scalar(0), InvalidPatternMode::Error).unwrap_err();
    assert_eq!(err.error_kind(), ErrorKind::MatchError);
    // per-row patterns take the same way
    let p = subject(&[Some("b"), Some(RUNAWAY_PATTERN), Some("x"), Some(RUNAWAY_PATTERN)]);
    let out = expressive(&s, &p, &scalar(0), InvalidPatternMode::EmptyString).unwrap();
    assert_eq!(out_cells(&out), vec![Some("b"), Some(""), None, Some("bc")]);
    let err = expressive(&s, &p, &scalar(0), InvalidPatternMode::Error).unwrap_err();
    assert_eq!(err.error_kind(), ErrorKind::MatchError);
}

#[test]
fn run_generic_uses_the_linear_engine() {
    let s = subject(&[Some("ab")]);
    let p = subject(&[Some("(?<=a)b")]);
    let err = linear(&s, &p, &scalar(0), InvalidPatternMode::Error).unwrap_err();
    assert_eq!(err.error_kind(), ErrorKind::InvalidPattern);
    let out = linear(&s, &p, &scalar(0), InvalidPatternMode::EmptyString).unwrap();
    assert_eq!(out_cells(&out), vec![Some("")]);
}

#[test]
fn output_width_follows_the_subject() {
    let small = Utf8Array { array: arrow::StringArray::from(vec![Some("42-7"), None]) };
    let large = LargeUtf8Array { array: arrow::LargeStringArray::from(vec![Some("42-7"), None]) };
    let small_pattern = Utf8Array { array: arrow::StringArray::from(vec![r"(\d+)-(\d+)"]) };
    let large_pattern =
        LargeUtf8Array { array: arrow::LargeStringArray::from(vec![r"(\d+)-(\d+)"]) };
    let i32s = Int32Array { array: arrow::Int32Array::from(vec![Some(2)]) };
    let i64s = Int64Array { array: arrow::Int64Array::from(vec![Some(2)]) };
    let subjects = [StringColumn::Utf8(&small), StringColumn::LargeUtf8(&large)];
    let patterns = [StringColumn::Utf8(&small_pattern), StringColumn::LargeUtf8(&large_pattern)];
    let indices = [IndexColumn::Int32(&i32s), IndexColumn::Int64(&i64s)];
    for s in &subjects {
        for p in &patterns {
            for i in &indices {
                let out = run_generic(s, p, i, 1, InvalidPatternMode::Error).unwrap();
                assert_eq!(
                    matches!(out, OutputColumn::LargeUtf8(_)),
                    matches!(s, StringColumn::LargeUtf8(_))
                );
                assert_eq!(out_cells(&out), vec![Some("7"), None]);
            }
        }
    }
}

#[test]
fn fatal_errors_carry_the_report_of_the_backend() {
    // a pattern that the linear-time engine refuses
    let report = compile("(?<=a)b").unwrap_err().text();
    let s = subject(&[Some("ab")]);
    let p = subject(&[Some("(?<=a)b")]);
    let err = linear(&s, &p, &scalar(0), InvalidPatternMode::Error).unwrap_err();
    assert_eq!(err.message(), format!("regexp_extract: invalid regex pattern: {report}"));
    // the same through the cache, with per-row patterns
    let s = subject(&[Some("ab"), Some("ab")]);
    let p = subject(&[Some("b"), Some("(?<=a)b")]);
    let err = linear(&s, &p, &scalar(0), InvalidPatternMode::Error).unwrap_err();
    assert_eq!(err.message(), format!("regexp_extract: invalid regex pattern: {report}"));

    // a match that the expressive engine gives up on
    let re = compile_with(Engine::Expressive, RUNAWAY_PATTERN).unwrap();
    let report = captures(&re, RUNAWAY_SUBJECT).unwrap_err().text();
    let s = subject(&[Some(RUNAWAY_SUBJECT)]);
    let p = subject(&[Some(RUNAWAY_PATTERN)]);
    let err = expressive(&s, &p, &scalar(0), InvalidPatternMode::Error).unwrap_err();
    assert_eq!(err.message(), format!("regexp_extract: match error: {report}"));
}

#[test]
fn the_engine_is_the_callers_choice() {
    let args = || {
        vec![
            Argument::Utf8(subject(&[Some("ab"), None, Some("abab")])),
            Argument::Utf8(subject(&[Some("(?<=a)(b)")])),
            Argument::Int64(scalar(1)),
        ]
    };
    let cfg = RegexpExtractConfig::new();
    let out = evaluate_regexp_extract_with_engine(&args(), &cfg, Engine::Expressive).unwrap();
    assert_eq!(out_cells(&out), vec![Some("b"), None, Some("b")]);
    let err = evaluate_regexp_extract_with_engine(&args(), &cfg, Engine::Linear).unwrap_err();
    assert_eq!(err.error_kind(), EvaluateErrorKind::Extract(ErrorKind::InvalidPattern));

    let s = subject(&[Some("abab"), Some("ab")]);
    let p = subject(&[Some(r"(ab)\1"), Some("b")]);
    let i = scalar(0);
    let run = |engine| {
        run_with_engine(
            &StringColumn::Utf8(&s),
            &StringColumn::Utf8(&p),
            &IndexColumn::Int64(&i),
            4,
            engine,
            InvalidPatternMode::EmptyString,
        )
        .unwrap()
    };
    assert_eq!(out_cells(&run(Engine::Expressive)), vec![Some("abab"), Some("b")]);
    assert_eq!(out_cells(&run(Engine::Linear)), vec![Some(""), Some("b")]);
}

#[test]
fn every_match_has_its_whole_as_entry_zero() {
    for engine in [Engine::Linear, Engine::Expressive] {
        for (pattern, text) in [("", ""), ("", "abc"), ("(x)?", "abc"), ("b(c)?", "ab"), ("(a)|(b)", "b")] {
            let re = compile_with(engine, pattern).unwrap();
            let found = captures(&re, text).unwrap().unwrap();
            assert!(!found.groups.is_empty());
            assert!(found.groups[0].is_some());
        }
    }
    let re = compile("(a)|(b)").unwrap();
    let found = captures(&re, "xb").unwrap().unwrap();
    assert_eq!(found.groups, vec![Some("b".to_string()), None, Some("b".to_string())]);
}
