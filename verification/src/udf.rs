//! The logical surface of the function: its name, the argument types it
//! accepts, and the type it returns.

use crate::columns::StringWidth;
use vstd::prelude::*;
use vstd::string::StringExecFns;

verus! {

/// The type of an argument column, as far as the function tells types apart.
#[derive(Debug, Clone, Copy, PartialEq, Eq, Structural)]
pub enum ArgType {
    /// Strings with 32-bit offsets.
    Utf8,
    /// Strings with 64-bit offsets.
    LargeUtf8,
    /// 32-bit signed integers.
    Int32,
    /// 64-bit signed integers.
    Int64,
    /// Any other type.
    Other,
}

/// The types of the three arguments of one accepted call: subject, pattern,
/// index.
#[derive(Debug, Clone, Copy, PartialEq, Eq, Structural)]
pub struct Signature {
    pub subject: ArgType,
    pub pattern: ArgType,
    pub index: ArgType,
}

/// Whether `t` is a string type.
pub open spec fn is_string(t: ArgType) -> bool {
    t == ArgType::Utf8 || t == ArgType::LargeUtf8
}

/// Whether `t` is an index type.
pub open spec fn is_index(t: ArgType) -> bool {
    t == ArgType::Int32 || t == ArgType::Int64
}

/// Whether the function accepts a call with the types of `s`: a string
/// subject, a string pattern and an integer index, each of either width.
pub open spec fn accepts_signature(s: Signature) -> bool {
    is_string(s.subject) && is_string(s.pattern) && is_index(s.index)
}

/// The name under which a host registers the function.
pub open spec fn function_name() -> Seq<char> {
    "regexp_extract"@
}

/// The name under which a host registers the function.
pub fn name() -> (n: &'static str)
    ensures
        n@ == function_name(),
{
    "regexp_extract"
}

/// The signatures that the function accepts, in the order in which it
/// declares them.
pub open spec fn declared_signatures() -> Seq<Signature> {
    seq![
        Signature { subject: ArgType::Utf8, pattern: ArgType::Utf8, index: ArgType::Int32 },
        Signature { subject: ArgType::Utf8, pattern: ArgType::Utf8, index: ArgType::Int64 },
        Signature { subject: ArgType::Utf8, pattern: ArgType::LargeUtf8, index: ArgType::Int32 },
        Signature { subject: ArgType::Utf8, pattern: ArgType::LargeUtf8, index: ArgType::Int64 },
        Signature { subject: ArgType::LargeUtf8, pattern: ArgType::Utf8, index: ArgType::Int32 },
        Signature { subject: ArgType::LargeUtf8, pattern: ArgType::Utf8, index: ArgType::Int64 },
        Signature { subject: ArgType::LargeUtf8, pattern: ArgType::LargeUtf8, index: ArgType::Int32 },
        Signature { subject: ArgType::LargeUtf8, pattern: ArgType::LargeUtf8, index: ArgType::Int64 },
    ]
}

/// The declared signatures are the accepted ones, each once.
pub proof fn lemma_declared_signatures()
    ensures
        declared_signatures().no_duplicates(),
        forall|s: Signature| declared_signatures().contains(s) <==> accepts_signature(s),
{
    let list = declared_signatures();
    assert forall|s: Signature| list.contains(s) <==> accepts_signature(s) by {
        if accepts_signature(s) {
            let a: int = if s.subject == ArgType::Utf8 {
                0
            } else {
                4
            };
            let b: int = if s.pattern == ArgType::Utf8 {
                0
            } else {
                2
            };
            let c: int = if s.index == ArgType::Int32 {
                0
            } else {
                1
            };
            assert(list[a + b + c] == s);
        }
        if list.contains(s) {
            let k = choose|k: int| 0 <= k < list.len() && list[k] == s;
            assert(list[k] == s);
        }
    }
}

/// The signatures that the function accepts.
pub fn accepted_signatures() -> (list: Vec<Signature>)
    ensures
        list@ == declared_signatures(),
{
    let mut list: Vec<Signature> = Vec::with_capacity(8);
    list.push(Signature { subject: ArgType::Utf8, pattern: ArgType::Utf8, index: ArgType::Int32 });
    list.push(Signature { subject: ArgType::Utf8, pattern: ArgType::Utf8, index: ArgType::Int64 });
    list.push(
        Signature { subject: ArgType::Utf8, pattern: ArgType::LargeUtf8, index: ArgType::Int32 },
    );
    list.push(
        Signature { subject: ArgType::Utf8, pattern: ArgType::LargeUtf8, index: ArgType::Int64 },
    );
    list.push(
        Signature { subject: ArgType::LargeUtf8, pattern: ArgType::Utf8, index: ArgType::Int32 },
    );
    list.push(
        Signature { subject: ArgType::LargeUtf8, pattern: ArgType::Utf8, index: ArgType::Int64 },
    );
    list.push(
        Signature { subject: ArgType::LargeUtf8, pattern: ArgType::LargeUtf8, index: ArgType::Int32 },
    );
    list.push(
        Signature { subject: ArgType::LargeUtf8, pattern: ArgType::LargeUtf8, index: ArgType::Int64 },
    );
    assert(list@ =~= declared_signatures());
    list
}

/// The width of the output for the argument types of a call: that of the
/// first argument, where it is a string type.
pub open spec fn returned_width(arg_types: Seq<ArgType>) -> Option<StringWidth> {
    if arg_types.len() == 0 {
        None
    } else {
        match arg_types[0] {
            ArgType::Utf8 => Some(StringWidth::Utf8),
            ArgType::LargeUtf8 => Some(StringWidth::LargeUtf8),
            _ => None,
        }
    }
}

/// The text that opens the message for argument types without a string
/// type in the first place.
pub open spec fn return_type_prefix() -> Seq<char> {
    "regexp_extract expects first argument Utf8 or LargeUtf8, got: "@
}

/// The message for argument types whose output width `return_type` cannot
/// resolve. `first_type` is the host's text for the type of the first
/// argument.
pub fn return_type_message(first_type: &str) -> (s: String)
    ensures
        s@ == return_type_prefix() + first_type@,
{
    let mut s = String::from_str("regexp_extract expects first argument Utf8 or LargeUtf8, got: ");
    s.append(first_type);
    s
}

/// Resolves the output width from the argument types; `None` where the first
/// argument is missing or is no string.
pub fn return_type(arg_types: &Vec<ArgType>) -> (w: Option<StringWidth>)
    ensures
        w == returned_width(arg_types@),
{
    if arg_types.len() == 0 {
        None
    } else {
        match arg_types[0] {
            ArgType::Utf8 => Some(StringWidth::Utf8),
            ArgType::LargeUtf8 => Some(StringWidth::LargeUtf8),
            _ => None,
        }
    }
}

} // verus!
