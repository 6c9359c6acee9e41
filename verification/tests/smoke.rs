use datafusion_regexp_extract_udf::columns::StringWidth;
use datafusion_regexp_extract_udf::ping;
use datafusion_regexp_extract_udf::udf::{accepted_signatures, name, return_type, ArgType, Signature};

#[test]
fn smoke() {
    assert_eq!(ping(), "pong")
}

#[test]
fn udf_shape_is_correct() {
    assert_eq!(name(), "regexp_extract");

    // Check return type resolution based on first arg width
    let utf = return_type(&vec![ArgType::Utf8, ArgType::Utf8, ArgType::Int32]).unwrap();
    assert_eq!(utf, StringWidth::Utf8);

    let lutf = return_type(&vec![ArgType::LargeUtf8, ArgType::Utf8, ArgType::Int64]).unwrap();
    assert_eq!(lutf, StringWidth::LargeUtf8);
}

#[test]
fn return_type_rejects_other_first_arguments() {
    assert_eq!(return_type(&vec![]), None);
    assert_eq!(return_type(&vec![ArgType::Int32, ArgType::Utf8, ArgType::Int32]), None);
    assert_eq!(return_type(&vec![ArgType::Int64]), None);
    assert_eq!(return_type(&vec![ArgType::Other, ArgType::Utf8]), None);
}

#[test]
fn accepted_signatures_are_the_eight_width_combinations() {
    let list = accepted_signatures();
    assert_eq!(list.len(), 8);
    let strings = [ArgType::Utf8, ArgType::LargeUtf8];
    let indices = [ArgType::Int32, ArgType::Int64];
    let mut k = 0;
    for s in strings {
        for p in strings {
            for i in indices {
                assert_eq!(list[k], Signature { subject: s, pattern: p, index: i });
                k += 1;
            }
        }
    }
    assert!(!list.contains(&Signature {
        subject: ArgType::Int32,
        pattern: ArgType::Utf8,
        index: ArgType::Int32
    }));
    assert!(!list.contains(&Signature {
        subject: ArgType::Utf8,
        pattern: ArgType::Utf8,
        index: ArgType::Other
    }));
}
