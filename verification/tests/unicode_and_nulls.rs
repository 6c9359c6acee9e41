use datafusion::arrow::array as arrow;
use datafusion_regexp_extract_udf::arrays::{Int32Array, Int64Array, Utf8Array};
use datafusion_regexp_extract_udf::columns::OutputColumn;
use datafusion_regexp_extract_udf::error::ErrorKind;
use datafusion_regexp_extract_udf::eval::{
    evaluate_regexp_extract, evaluate_regexp_extract_with, Argument, EvaluateError,
    EvaluateErrorKind,
};
use datafusion_regexp_extract_udf::{InvalidPatternMode, RegexpExtractConfig};

fn str_col(vals: &[Option<&str>]) -> Argument {
    Argument::Utf8(Utf8Array { array: arrow::StringArray::from(vals.to_vec()) })
}

fn pattern(s: &str) -> Argument {
    str_col(&[Some(s)])
}

fn idx_col(vals: &[Option<i32>]) -> Argument {
    Argument::Int32(Int32Array { array: arrow::Int32Array::from(vals.to_vec()) })
}

fn texts(out: &OutputColumn) -> Vec<Option<&str>> {
    match out {
        OutputColumn::Utf8(a) => a.array.iter().collect(),
        OutputColumn::LargeUtf8(a) => a.array.iter().collect(),
    }
}

#[test]
fn unicode_extracts_properly() {
    let s = str_col(&[Some("Köln99"), Some("東京123")]);
    let out = evaluate_regexp_extract(&vec![s, pattern(r"([^\d]+)(\d+)"), idx_col(&[Some(2)])])
        .unwrap();
    assert_eq!(texts(&out)[0], Some("99"));
    assert_eq!(texts(&out)[1], Some("123"));
    let s = str_col(&[Some("Köln99"), Some("東京123")]);
    let out = evaluate_regexp_extract(&vec![s, pattern(r"([^\d]+)(\d+)"), idx_col(&[Some(1)])])
        .unwrap();
    assert_eq!(texts(&out), vec![Some("Köln"), Some("東京")]);
}

#[test]
fn nulls_in_pattern_and_idx_propagate() {
    let s = str_col(&[Some("100-200"), Some("300-400")]);
    let p = str_col(&[Some(r"(\d+)-(\d+)"), None]);
    let i = idx_col(&[Some(1), None]);
    let g1 = evaluate_regexp_extract(&vec![s, p, i]).unwrap();
    assert_eq!(texts(&g1)[0], Some("100")); // ok
    assert!(texts(&g1)[1].is_none()); // NULL pattern/idx -> NULL output
}

#[test]
fn null_pattern_alone_gives_null() {
    let s = str_col(&[Some("100-200"), Some("300-400")]);
    let p = str_col(&[Some(r"(\d+)-(\d+)"), None]);
    let g1 = evaluate_regexp_extract(&vec![s, p, idx_col(&[Some(1), Some(1)])]).unwrap();
    assert_eq!(texts(&g1), vec![Some("100"), None]);
}

#[test]
fn null_index_alone_gives_null() {
    let s = str_col(&[Some("100-200"), Some("300-400")]);
    let g1 = evaluate_regexp_extract(&vec![s, pattern(r"(\d+)-(\d+)"), idx_col(&[None, Some(2)])])
        .unwrap();
    assert_eq!(texts(&g1), vec![None, Some("400")]);
}

#[test]
fn null_scalar_pattern_gives_null_in_every_row() {
    let cfg_strict = RegexpExtractConfig::new();
    let cfg_lenient = RegexpExtractConfig::new().invalid_pattern_mode(InvalidPatternMode::EmptyString);
    for cfg in [cfg_strict, cfg_lenient] {
        let s = str_col(&[Some("100-200"), None, Some("x")]);
        let out = evaluate_regexp_extract_with(&vec![s, str_col(&[None]), idx_col(&[Some(0)])], &cfg)
            .unwrap();
        assert_eq!(texts(&out), vec![None, None, None]);
    }
}

#[test]
fn null_scalar_index_gives_null_in_every_row() {
    let s = str_col(&[Some("100-200"), Some("x")]);
    let out = evaluate_regexp_extract(&vec![s, pattern(r"(\d+)"), idx_col(&[None])]).unwrap();
    assert_eq!(texts(&out), vec![None, None]);
}

#[test]
fn null_row_hides_a_negative_index_and_an_invalid_pattern() {
    // row 0: null subject with a negative index; row 1: null index with a pattern that
    // does not compile
    let s = str_col(&[None, Some("ab")]);
    let p = str_col(&[Some("a"), Some("(?<=a)b")]);
    let i = idx_col(&[Some(-5), None]);
    let out = evaluate_regexp_extract(&vec![s, p, i]).unwrap();
    assert_eq!(texts(&out), vec![None, None]);
}

#[test]
fn too_large_idx_returns_empty() {
    let s = str_col(&[Some("100-200")]);
    // only 2 groups exist
    let g3 = evaluate_regexp_extract(&vec![s, pattern(r"(\d+)-(\d+)"), idx_col(&[Some(3)])])
        .unwrap();
    assert_eq!(texts(&g3)[0], Some("")); // out-of-range group -> ""
    let s = str_col(&[Some("100-200")]);
    let far = Argument::Int64(Int64Array { array: arrow::Int64Array::from(vec![Some(i64::MAX)]) });
    let out = evaluate_regexp_extract(&vec![s, pattern(r"(\d+)-(\d+)"), far]).unwrap();
    assert_eq!(texts(&out), vec![Some("")]);
}

#[test]
fn no_match_returns_empty() {
    let s = str_col(&[Some("foo")]);
    let out = evaluate_regexp_extract(&vec![s, pattern(r"(\d+)"), idx_col(&[Some(1)])]).unwrap();
    assert_eq!(texts(&out), vec![Some("")]);
}

#[test]
fn negative_idx_in_column_errors() {
    let s = str_col(&[Some("100-200")]);
    let i = idx_col(&[Some(-1)]);
    let err = evaluate_regexp_extract(&vec![s, pattern(r"(\d+)-(\d+)"), i])
        .expect_err("negative idx should error");
    assert_eq!(err.error_kind(), EvaluateErrorKind::Extract(ErrorKind::NegativeIndex(-1)));
    match err {
        EvaluateError::Extract(e) => assert!(e.message().contains("idx must be >= 0")),
        other => panic!("unexpected error {other:?}"),
    }
}

#[test]
fn first_fatal_row_decides_the_error() {
    // row 1 has a negative index, row 2 a pattern that does not compile
    let s = str_col(&[Some("a"), Some("b"), Some("c")]);
    let p = str_col(&[Some("a"), Some("b"), Some("(")]);
    let i = idx_col(&[Some(0), Some(-7), Some(0)]);
    let err = evaluate_regexp_extract(&vec![s, p, i]).unwrap_err();
    assert_eq!(err.error_kind(), EvaluateErrorKind::Extract(ErrorKind::NegativeIndex(-7)));
    // the other way round
    let s = str_col(&[Some("a"), Some("b"), Some("c")]);
    let p = str_col(&[Some("a"), Some("("), Some("c")]);
    let i = idx_col(&[Some(0), Some(0), Some(-7)]);
    let err = evaluate_regexp_extract(&vec![s, p, i]).unwrap_err();
    assert_eq!(err.error_kind(), EvaluateErrorKind::Extract(ErrorKind::InvalidPattern));
}

#[test]
fn invalid_scalar_pattern_fails_before_any_row_under_the_strict_policy() {
    // every row is null or has a negative index, yet the pattern error wins
    let s = str_col(&[None, Some("b")]);
    let i = idx_col(&[Some(0), Some(-1)]);
    let err = evaluate_regexp_extract(&vec![s, pattern("("), i]).unwrap_err();
    assert_eq!(err.error_kind(), EvaluateErrorKind::Extract(ErrorKind::InvalidPattern));
    // and with no row at all
    let err = evaluate_regexp_extract(&vec![str_col(&[]), pattern("("), idx_col(&[Some(0)])])
        .unwrap_err();
    assert_eq!(err.error_kind(), EvaluateErrorKind::Extract(ErrorKind::InvalidPattern));
}

#[test]
fn lenient_policy_absorbs_pattern_errors_row_by_row() {
    let cfg = RegexpExtractConfig::new().invalid_pattern_mode(InvalidPatternMode::EmptyString);
    let s = str_col(&[Some("a1"), Some("b2"), None, Some("c3")]);
    let p = str_col(&[Some(r"(\d)"), Some("("), Some("("), Some(r"c(\d)")]);
    let out = evaluate_regexp_extract_with(&vec![s, p, idx_col(&[Some(1)])], &cfg).unwrap();
    assert_eq!(texts(&out), vec![Some("1"), Some(""), None, Some("3")]);
    // the strict policy fails on the same input
    let s = str_col(&[Some("a1"), Some("b2"), None, Some("c3")]);
    let p = str_col(&[Some(r"(\d)"), Some("("), Some("("), Some(r"c(\d)")]);
    let err = evaluate_regexp_extract(&vec![s, p, idx_col(&[Some(1)])]).unwrap_err();
    assert_eq!(err.error_kind(), EvaluateErrorKind::Extract(ErrorKind::InvalidPattern));
}

#[test]
fn lenient_policy_absorbs_pattern_errors_without_nulls_too() {
    // no input holds a null, so the rows are read on the fast path
    let cfg = RegexpExtractConfig::new().invalid_pattern_mode(InvalidPatternMode::EmptyString);
    let s = str_col(&[Some("a1"), Some("b2"), Some("c3")]);
    let p = str_col(&[Some(r"(\d)"), Some("("), Some(r"c(\d)")]);
    let out = evaluate_regexp_extract_with(&vec![s, p, idx_col(&[Some(1)])], &cfg).unwrap();
    assert_eq!(texts(&out), vec![Some("1"), Some(""), Some("3")]);
}

#[test]
fn lenient_policy_with_invalid_scalar_pattern_keeps_nulls_and_negative_indices() {
    let cfg = RegexpExtractConfig::new().invalid_pattern_mode(InvalidPatternMode::EmptyString);
    let s = str_col(&[Some("a"), None, Some("c")]);
    let out = evaluate_regexp_extract_with(&vec![s, pattern("("), idx_col(&[Some(4)])], &cfg).unwrap();
    assert_eq!(texts(&out), vec![Some(""), None, Some("")]);
    let s = str_col(&[Some("a"), None, Some("c")]);
    let i = idx_col(&[Some(0), Some(-1), Some(-2)]);
    let err = evaluate_regexp_extract_with(&vec![s, pattern("("), i], &cfg).unwrap_err();
    assert_eq!(err.error_kind(), EvaluateErrorKind::Extract(ErrorKind::NegativeIndex(-2)));
}
