//! A rolling-hash engine over fixed-alphabet symbol sequences.
//!
//! Nucleotide bases are packed as 2-bit codes; for every fixed-width window
//! sliding across a sequence the engine derives a compact hash value that can
//! be recomputed incrementally when the window advances, grows, or shrinks,
//! mapped to bucket identifiers for sharding, and decomposed into bytes for
//! radix-style sorting.

pub mod fw_seqhash_base;
pub mod hash;
pub mod packed_window;
pub mod types;
