//! Where tools and caches are kept.

use vstd::prelude::*;

verus! {

/// The directories of the store that Python hooks need.
#[derive(Debug, PartialEq, Eq)]
pub struct Store {
    /// The cache of `uv`.
    pub uv_cache: String,
    /// Interpreters that `uv` has downloaded.
    pub python_tools: String,
}

} // verus!
