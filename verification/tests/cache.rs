use datafusion::arrow::array as arrow;
use datafusion_regexp_extract_udf::arrays::{Int32Array, Int64Array, Utf8Array};
use datafusion_regexp_extract_udf::columns::{IndexColumn, OutputColumn, StringColumn};
use datafusion_regexp_extract_udf::error::{ErrorKind, RegexpExtractError};
use datafusion_regexp_extract_udf::kernel::run_with_cache;
use datafusion_regexp_extract_udf::pattern_cache::{CacheStats, PatternCache};
use datafusion_regexp_extract_udf::re::{captures, Engine};
use datafusion_regexp_extract_udf::{InvalidPatternMode, RegexpExtractConfig};

fn stats(hits: u64, misses: u64, compiled: u64) -> CacheStats {
    CacheStats { hits, misses, compiled }
}

fn col(vals: &[Option<&str>]) -> Utf8Array {
    Utf8Array { array: arrow::StringArray::from(vals.to_vec()) }
}

fn i32s(vals: &[Option<i32>]) -> Int32Array {
    Int32Array { array: arrow::Int32Array::from(vals.to_vec()) }
}

fn i64s(vals: &[Option<i64>]) -> Int64Array {
    Int64Array { array: arrow::Int64Array::from(vals.to_vec()) }
}

fn got(out: &OutputColumn) -> Vec<Option<&str>> {
    match out {
        OutputColumn::Utf8(a) => a.array.iter().collect(),
        OutputColumn::LargeUtf8(a) => a.array.iter().collect(),
    }
}

fn run(
    s: &Utf8Array,
    p: &Utf8Array,
    i: IndexColumn,
    cache: &mut PatternCache,
    mode: InvalidPatternMode,
) -> Result<OutputColumn, RegexpExtractError> {
    run_with_cache(&StringColumn::Utf8(s), &StringColumn::Utf8(p), &i, cache, mode)
}

#[test]
fn default_configuration() {
    let cfg = RegexpExtractConfig::new();
    assert_eq!(cfg.cache_size, 64);
    assert_eq!(cfg.invalid_pattern_mode, InvalidPatternMode::Error);
    let cfg = RegexpExtractConfig::default();
    assert_eq!(cfg.cache_size, 64);
    assert_eq!(cfg.invalid_pattern_mode, InvalidPatternMode::Error);
}

#[test]
fn configuration_builders_set_one_field_each() {
    let cfg = RegexpExtractConfig::new().cache_size(7);
    assert_eq!(cfg.cache_size, 7);
    assert_eq!(cfg.invalid_pattern_mode, InvalidPatternMode::Error);
    let cfg = cfg.invalid_pattern_mode(InvalidPatternMode::EmptyString);
    assert_eq!(cfg.cache_size, 7);
    assert_eq!(cfg.invalid_pattern_mode, InvalidPatternMode::EmptyString);
    let cfg = cfg.cache_size(0);
    assert_eq!(cfg.cache_size, 0);
    assert_eq!(cfg.invalid_pattern_mode, InvalidPatternMode::EmptyString);
}

#[test]
fn new_cache_is_empty() {
    let cache = PatternCache::new(4);
    assert_eq!(cache.stats(), stats(0, 0, 0));
    assert_eq!(cache.engine(), Engine::Linear);
    assert_eq!(CacheStats::default(), stats(0, 0, 0));
    let cache = PatternCache::with_engine(4, Engine::Expressive);
    assert_eq!(cache.engine(), Engine::Expressive);
}

#[test]
fn hit_and_miss_are_counted() {
    let mut cache = PatternCache::new(4);
    assert!(cache.get_or_compile(r"(\d+)").is_ok());
    assert_eq!(cache.stats(), stats(0, 1, 1));
    assert!(cache.get_or_compile(r"(\d+)").is_ok());
    assert_eq!(cache.stats(), stats(1, 1, 1));
    assert!(cache.get_or_compile(r"[a-z]").is_ok());
    assert_eq!(cache.stats(), stats(1, 2, 2));
    assert!(cache.get_or_compile(r"(\d+)").is_ok());
    assert_eq!(cache.stats(), stats(2, 2, 2));
}

#[test]
fn cached_regex_is_the_one_for_its_pattern() {
    let mut cache = PatternCache::new(4);
    for _ in 0..2 {
        let re = cache.get_or_compile(r"(\d+)-(\d+)").unwrap();
        let found = captures(re, "x 10-20 y").unwrap().unwrap();
        assert_eq!(found.groups[1].as_deref(), Some("10"));
        let re = cache.get_or_compile(r"([a-z]+)").unwrap();
        let found = captures(re, "x 10-20 y").unwrap().unwrap();
        assert_eq!(found.groups[1].as_deref(), Some("x"));
    }
    assert_eq!(cache.stats(), stats(2, 2, 2));
}

#[test]
fn failed_compilation_is_a_miss_and_is_not_cached() {
    let mut cache = PatternCache::new(4);
    let err = cache.get_or_compile("(").unwrap_err();
    assert_eq!(err.error_kind(), ErrorKind::InvalidPattern);
    assert!(err.message().starts_with("regexp_extract: invalid regex pattern: "));
    assert_eq!(cache.stats(), stats(0, 1, 0));
    assert!(cache.get_or_compile("(").is_err());
    assert_eq!(cache.stats(), stats(0, 2, 0));
}

#[test]
fn least_recently_used_entry_is_evicted() {
    let mut cache = PatternCache::new(2);
    assert!(cache.get_or_compile("a").is_ok()); // [a]
    assert!(cache.get_or_compile("b").is_ok()); // [b, a]
    assert!(cache.get_or_compile("c").is_ok()); // [c, b]: a left
    assert_eq!(cache.stats(), stats(0, 3, 3));
    assert!(cache.get_or_compile("b").is_ok()); // hit: [b, c]
    assert_eq!(cache.stats(), stats(1, 3, 3));
    assert!(cache.get_or_compile("a").is_ok()); // miss: [a, b]: c left
    assert_eq!(cache.stats(), stats(1, 4, 4));
    assert!(cache.get_or_compile("b").is_ok()); // hit
    assert_eq!(cache.stats(), stats(2, 4, 4));
    assert!(cache.get_or_compile("c").is_ok()); // miss
    assert_eq!(cache.stats(), stats(2, 5, 5));
}

#[test]
fn a_hit_refreshes_recency() {
    let mut cache = PatternCache::new(2);
    assert!(cache.get_or_compile("a").is_ok()); // [a]
    assert!(cache.get_or_compile("b").is_ok()); // [b, a]
    assert!(cache.get_or_compile("a").is_ok()); // hit: [a, b]
    assert!(cache.get_or_compile("c").is_ok()); // [c, a]: b left
    assert_eq!(cache.stats(), stats(1, 3, 3));
    assert!(cache.get_or_compile("a").is_ok()); // still there
    assert_eq!(cache.stats(), stats(2, 3, 3));
    assert!(cache.get_or_compile("b").is_ok()); // gone: compiled again
    assert_eq!(cache.stats(), stats(2, 4, 4));
}

#[test]
fn zero_capacity_counts_as_one() {
    let mut cache = PatternCache::new(0);
    assert!(cache.get_or_compile("a").is_ok());
    assert!(cache.get_or_compile("a").is_ok());
    assert_eq!(cache.stats(), stats(1, 1, 1));
    assert!(cache.get_or_compile("b").is_ok());
    assert!(cache.get_or_compile("a").is_ok());
    assert_eq!(cache.stats(), stats(1, 3, 3));
}

#[test]
fn large_capacity_reserves_nothing_up_front() {
    let mut cache = PatternCache::new(usize::MAX);
    assert!(cache.get_or_compile("a").is_ok());
    assert!(cache.get_or_compile("b").is_ok());
    assert!(cache.get_or_compile("a").is_ok());
    assert_eq!(cache.stats(), stats(1, 2, 2));
    let mut cache = PatternCache::new(65537);
    assert!(cache.get_or_compile("a").is_ok());
    assert!(cache.get_or_compile("a").is_ok());
    assert_eq!(cache.stats(), stats(1, 1, 1));
    let mut cache = PatternCache::new(65536);
    assert!(cache.get_or_compile("a").is_ok());
    assert!(cache.get_or_compile("a").is_ok());
    assert_eq!(cache.stats(), stats(1, 1, 1));
}

#[test]
fn reset_stats_keeps_the_entries() {
    let mut cache = PatternCache::new(4);
    assert!(cache.get_or_compile("a").is_ok());
    assert!(cache.get_or_compile("a").is_ok());
    cache.reset_stats();
    assert_eq!(cache.stats(), stats(0, 0, 0));
    assert!(cache.get_or_compile("a").is_ok());
    assert_eq!(cache.stats(), stats(1, 0, 0));
}

#[test]
fn repeated_patterns_compile_once_each() {
    // 3 distinct patterns over 9 rows, capacity 3
    let s = col(&[
        Some("a1"),
        Some("b2"),
        Some("c3"),
        Some("a4"),
        Some("b5"),
        Some("c6"),
        Some("a7"),
        Some("b8"),
        Some("c9"),
    ]);
    let pats = [r"a(\d)", r"b(\d)", r"c(\d)"];
    let p = col(&(0..9).map(|i| Some(pats[i % 3])).collect::<Vec<_>>());
    let idx = i32s(&[Some(1)]);
    let mut cache = PatternCache::new(3);
    let out =
        run(&s, &p, IndexColumn::Int32(&idx), &mut cache, InvalidPatternMode::Error).unwrap();
    let expected: Vec<Option<&str>> =
        vec!["1", "2", "3", "4", "5", "6", "7", "8", "9"].into_iter().map(Some).collect();
    assert_eq!(got(&out), expected);
    assert_eq!(cache.stats(), stats(6, 3, 3));

    // a cache of one entry compiles on every row and gives the same output
    let mut small = PatternCache::new(1);
    let again =
        run(&s, &p, IndexColumn::Int32(&idx), &mut small, InvalidPatternMode::Error).unwrap();
    assert_eq!(got(&again), expected);
    assert_eq!(small.stats(), stats(0, 9, 9));
}

#[test]
fn scalar_pattern_leaves_the_cache_alone() {
    let s = col(&[Some("a1"), Some("a2")]);
    let p = col(&[Some(r"a(\d)")]);
    let idx = i32s(&[Some(1), Some(0)]);
    let mut cache = PatternCache::new(3);
    let out =
        run(&s, &p, IndexColumn::Int32(&idx), &mut cache, InvalidPatternMode::Error).unwrap();
    assert_eq!(got(&out), vec![Some("1"), Some("a2")]);
    assert_eq!(cache.stats(), stats(0, 0, 0));
}

#[test]
fn null_rows_and_fatal_rows_in_the_cache_counts() {
    // rows 1 and 2 hold a null and ask for nothing; row 4 is fatal and ends the run
    let s = col(&[Some("a1"), None, Some("a3"), Some("a4"), Some("a5"), Some("a6")]);
    let p = col(&[Some(r"a(\d)"), Some("zz"), None, Some(r"a(\d)"), Some("("), Some("yy")]);
    let idx = i64s(&[Some(1); 6]);
    let mut cache = PatternCache::new(8);
    let err =
        run(&s, &p, IndexColumn::Int64(&idx), &mut cache, InvalidPatternMode::Error).unwrap_err();
    assert_eq!(err.error_kind(), ErrorKind::InvalidPattern);
    assert_eq!(cache.stats(), stats(1, 2, 1));

    let mut cache = PatternCache::new(8);
    let out = run(&s, &p, IndexColumn::Int64(&idx), &mut cache, InvalidPatternMode::EmptyString)
        .unwrap();
    assert_eq!(got(&out), vec![Some("1"), None, None, Some("4"), Some(""), Some("")]);
    assert_eq!(cache.stats(), stats(1, 3, 2));

    // a negative index asks for nothing
    let idx = i64s(&[Some(1), Some(1), Some(1), Some(-1), Some(1), Some(1)]);
    let mut cache = PatternCache::new(8);
    let err = run(&s, &p, IndexColumn::Int64(&idx), &mut cache, InvalidPatternMode::EmptyString)
        .unwrap_err();
    assert_eq!(err.error_kind(), ErrorKind::NegativeIndex(-1));
    assert_eq!(cache.stats(), stats(0, 1, 1));
}

#[test]
fn a_warm_cache_serves_the_next_batch() {
    let s = col(&[Some("a1"), Some("b2")]);
    let p = col(&[Some(r"a(\d)"), Some(r"b(\d)")]);
    let idx = i32s(&[Some(1)]);
    let mut cache = PatternCache::new(4);
    let first =
        run(&s, &p, IndexColumn::Int32(&idx), &mut cache, InvalidPatternMode::Error).unwrap();
    assert_eq!(cache.stats(), stats(0, 2, 2));
    let second =
        run(&s, &p, IndexColumn::Int32(&idx), &mut cache, InvalidPatternMode::Error).unwrap();
    assert_eq!(cache.stats(), stats(2, 2, 2));
    assert_eq!(got(&first), got(&second));
    assert_eq!(got(&first), vec![Some("1"), Some("2")]);
}
