//! The invalid-pattern policy and the configuration a host passes in.

use vstd::prelude::*;

verus! {

/// What the kernel does with a pattern that fails to compile or to match.
#[derive(Debug, Clone, Copy, PartialEq, Eq, Structural)]
pub enum InvalidPatternMode {
    /// Strict: the failure aborts the whole invocation.
    Error,
    /// Lenient: the failure yields an empty string for the affected row.
    EmptyString,
}

/// The configuration of one extraction function.
#[derive(Debug, Clone, Copy)]
pub struct RegexpExtractConfig {
    pub cache_size: usize,
    pub invalid_pattern_mode: InvalidPatternMode,
}

/// The cache capacity of a default configuration.
pub const DEFAULT_CACHE_SIZE: usize = 64;

impl Default for RegexpExtractConfig {
    fn default() -> (c: Self)
        ensures
            c.cache_size == DEFAULT_CACHE_SIZE,
            c.invalid_pattern_mode == InvalidPatternMode::Error,
    {
        Self { cache_size: DEFAULT_CACHE_SIZE, invalid_pattern_mode: InvalidPatternMode::Error }
    }
}

impl RegexpExtractConfig {
    /// The default configuration: 64 cache entries, strict policy.
    pub fn new() -> (c: Self)
        ensures
            c.cache_size == DEFAULT_CACHE_SIZE,
            c.invalid_pattern_mode == InvalidPatternMode::Error,
    {
        Self { cache_size: DEFAULT_CACHE_SIZE, invalid_pattern_mode: InvalidPatternMode::Error }
    }

    /// The same configuration with the cache capacity set to `n`.
    pub fn cache_size(self, n: usize) -> (c: Self)
        ensures
            c.cache_size == n,
            c.invalid_pattern_mode == self.invalid_pattern_mode,
    {
        let mut c = self;
        c.cache_size = n;
        c
    }

    /// The same configuration with the invalid-pattern policy set to `m`.
    pub fn invalid_pattern_mode(self, m: InvalidPatternMode) -> (c: Self)
        ensures
            c.cache_size == self.cache_size,
            c.invalid_pattern_mode == m,
    {
        let mut c = self;
        c.invalid_pattern_mode = m;
        c
    }
}

} // verus!
