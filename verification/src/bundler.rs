//! Generate bundles.
use vstd::prelude::*;

verus! {

/// Options for bundling.
#[derive(Debug)]
pub struct BundleOptions {
    /// The entry point module.
    pub module: String,
    /// The policy files to load.
    pub policy: Vec<String>,
}

} // verus!
