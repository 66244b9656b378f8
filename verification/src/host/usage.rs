//! Sources of subscription usage.

use vstd::prelude::*;

verus! {

/// Where usage is read.
#[derive(Debug, Clone, Copy, PartialEq, Eq, Structural)]
pub enum UsageSource {
    /// Probe the API with the local OAuth credential.
    ClaudeCode,
    /// Read the usage snapshot that a proxy keeps.
    ClaudeProxy,
}

impl Default for UsageSource {
    fn default() -> (source: Self)
        ensures
            source == UsageSource::ClaudeCode,
    {
        UsageSource::ClaudeCode
    }
}

} // verus!
