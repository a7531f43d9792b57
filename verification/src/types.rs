//! Shared plain types used by the hash engine's interfaces.

use vstd::prelude::*;

verus! {

/// Shard selector derived from an unextendable hash.
pub type BucketIndexType = u32;

/// Comparison key narrower than the full hash, used for sliding-window
/// minimum selection by schemes that support it.
pub type MinimizerType = u32;

} // verus!
