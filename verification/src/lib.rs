//! Columnar `regexp_extract`: the extraction kernel, its pattern cache and
//! its invalid-pattern policy.

use vstd::prelude::*;

pub mod arrays;
pub mod columns;
pub mod config;
pub mod error;
pub mod eval;
pub mod kernel;
pub mod pattern_cache;
pub mod re;
pub mod udf;

pub use config::{InvalidPatternMode, RegexpExtractConfig};

verus! {

/// The text that `ping` answers with.
pub open spec fn pong_text() -> Seq<char> {
    "pong"@
}

/// Returns a ping message; a liveness probe for hosts that load the library.
pub fn ping() -> (r: &'static str)
    ensures
        r@ == pong_text(),
{
    "pong"
}

} // verus!
