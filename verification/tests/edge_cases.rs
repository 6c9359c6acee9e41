use datafusion::arrow::array as arrow;
use datafusion_regexp_extract_udf::arrays::{Int32Array, LargeUtf8Array, Utf8Array};
use datafusion_regexp_extract_udf::columns::OutputColumn;
use datafusion_regexp_extract_udf::eval::{evaluate_regexp_extract, Argument};

fn utf8_col(vals: &[Option<&str>]) -> Argument {
    Argument::Utf8(Utf8Array { array: arrow::StringArray::from(vals.to_vec()) })
}

fn text(s: &str) -> Argument {
    utf8_col(&[Some(s)])
}

fn number(i: i32) -> Argument {
    Argument::Int32(Int32Array { array: arrow::Int32Array::from(vec![Some(i)]) })
}

fn values(out: &OutputColumn) -> Vec<Option<&str>> {
    match out {
        OutputColumn::Utf8(a) => a.array.iter().collect(),
        OutputColumn::LargeUtf8(a) => a.array.iter().collect(),
    }
}

#[test]
fn empty_input_string() {
    let s = || utf8_col(&[Some("")]);
    // no match -> ""
    let g1 = evaluate_regexp_extract(&vec![s(), text(r"(\d+)"), number(1)]).unwrap();
    // "" matches "" -> ""
    let whole = evaluate_regexp_extract(&vec![s(), text(r""), number(0)]).unwrap();
    assert_eq!(values(&g1)[0], Some(""));
    assert_eq!(values(&whole)[0], Some(""));
}

#[test]
fn empty_pattern_behaviour() {
    let s = || utf8_col(&[Some("abc")]);
    // empty match
    let whole = evaluate_regexp_extract(&vec![s(), text(r""), number(0)]).unwrap();
    // no group -> ""
    let g1 = evaluate_regexp_extract(&vec![s(), text(r""), number(1)]).unwrap();
    assert_eq!(values(&whole)[0], Some(""));
    assert_eq!(values(&g1)[0], Some(""));
}

#[test]
fn unique_pattern_per_row_cache_miss_case() {
    let s = utf8_col(&[Some("a1"), Some("b2"), Some("c3")]);
    let p = utf8_col(&[Some(r"(a)(\d)"), Some(r"(b)(\d)"), Some(r"(c)(\d)")]);
    let g2 = evaluate_regexp_extract(&vec![s, p, number(2)]).unwrap();
    assert_eq!(values(&g2)[0], Some("1"));
    assert_eq!(values(&g2)[1], Some("2"));
    assert_eq!(values(&g2)[2], Some("3"));
}

#[test]
fn long_strings_varying_lengths() {
    // rows: "aaaa...a123bbbb", with a/b lengths 10, 100, 1000
    let mk = |a: usize, b: usize| -> String {
        let mut s = String::with_capacity(a + 3 + b);
        s.push_str(&"a".repeat(a));
        s.push_str("123");
        s.push_str(&"b".repeat(b));
        s
    };
    let s = Argument::LargeUtf8(LargeUtf8Array {
        array: arrow::LargeStringArray::from(vec![
            Some(mk(10, 10)),
            Some(mk(100, 100)),
            Some(mk(1000, 1000)),
        ]),
    });
    let digits = evaluate_regexp_extract(&vec![s, text(r"(\d+)"), number(1)]).unwrap();
    assert!(matches!(digits, OutputColumn::LargeUtf8(_)));
    assert_eq!(values(&digits)[0], Some("123"));
    assert_eq!(values(&digits)[1], Some("123"));
    assert_eq!(values(&digits)[2], Some("123"));
}
