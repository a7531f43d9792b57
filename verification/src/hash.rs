//! Interfaces of the rolling-hash engine: read-only sequence access, the two
//! hash value roles (extendable accumulator and terminal value), the hash
//! scheme contract with its four incremental update operations, and the
//! per-sequence window pass.

use crate::types::{BucketIndexType, MinimizerType};
use vstd::prelude::*;

verus! {

/// Holds when every symbol of `w` is a packed 2-bit base code.
pub open spec fn valid_bases(w: Seq<u8>) -> bool {
    forall|i: int| 0 <= i < w.len() ==> w[i] < 4
}

/// Read-only, indexable view over 2-bit-coded symbols: the sole interface the
/// engine needs to read input data.
pub trait HashableSequence: Clone + Sized {
    /// The symbols held by the sequence, in order.
    spec fn bases(&self) -> Seq<u8>;

    /// Returns the symbol at `index`; the index must be in range, which every
    /// internal use derives from `bases_count`.
    fn get_unchecked_cbase(&self, index: usize) -> (r: u8)
        requires
            index < self.bases().len(),
        ensures
            r == self.bases()[index as int],
    ;

    /// Total number of symbols.
    fn bases_count(&self) -> (r: usize)
        ensures
            r == self.bases().len(),
    ;

    /// Bounds-checked variant of `get_unchecked_cbase` for callers off the
    /// hot path: `None` exactly when the index is out of range.
    fn get_cbase_checked(&self, index: usize) -> (r: Option<u8>)
        ensures
            index < self.bases().len() ==> r == Some(self.bases()[index as int]),
            index >= self.bases().len() ==> r is None,
    ;
}

impl<'a> HashableSequence for &'a [u8] {
    open spec fn bases(&self) -> Seq<u8> {
        (*self)@
    }

    fn get_unchecked_cbase(&self, index: usize) -> (r: u8) {
        *vstd::slice::slice_index_get(*self, index)
    }

    fn bases_count(&self) -> (r: usize) {
        (*self).len()
    }

    fn get_cbase_checked(&self, index: usize) -> (r: Option<u8>) {
        if index < (*self).len() {
            Some(*vstd::slice::slice_index_get(*self, index))
        } else {
            None
        }
    }
}

/// An accumulator hash that can still be rolled; `to_unextendable` projects it
/// to the terminal comparable value once rolling is no longer needed.
pub trait ExtendableHashTraitType: Copy + Clone + Eq + Sized {
    type HashTypeUnextendable;

    /// The terminal value this accumulator projects to.
    spec fn unextendable(self) -> Self::HashTypeUnextendable;

    /// One-way projection to the terminal hash value.
    fn to_unextendable(self) -> (r: Self::HashTypeUnextendable)
        ensures
            r == self.unextendable(),
    ;
}

/// The definition of one hashing scheme: bounds on the window width,
/// bucket/minimizer/byte-lane extraction from a terminal hash, and the four
/// incremental update operations.
///
/// Every hash the scheme produces for a window is `window_hash` of the
/// window's symbols alone, and the four update operations agree with full
/// recomputation: rolling or shrinking a window's hash equals hashing the
/// rolled or shrunk window from scratch.
pub trait HashFunctionFactory: Sized {
    type HashTypeUnextendable;
    type HashTypeExtendable: ExtendableHashTraitType<
        HashTypeUnextendable = Self::HashTypeUnextendable,
    >;

    /// The symbol value the scheme reserves for internal padding.
    spec fn null_base_spec() -> u8;

    /// Widest window width (in symbols) the scheme's accumulator can
    /// represent.
    spec fn max_width() -> usize;

    /// The extendable hash of a window of packed symbols.
    spec fn window_hash(w: Seq<u8>) -> Self::HashTypeExtendable;

    /// The primary shard selector derived from a terminal hash.
    spec fn bucket_spec(hash: Self::HashTypeUnextendable) -> BucketIndexType;

    /// The secondary shard selector, `None` when the scheme has no
    /// dual-bucket semantics.
    spec fn second_bucket_spec(hash: Self::HashTypeUnextendable) -> Option<BucketIndexType>;

    /// The minimizer key, `None` when the scheme does not define one.
    spec fn minimizer_spec(hash: Self::HashTypeUnextendable) -> Option<MinimizerType>;

    /// The byte of the hash found at bit offset `shift`.
    spec fn shifted_spec(hash: Self::HashTypeUnextendable, shift: u8) -> u8;

    /// Which bit offsets `get_shifted` accepts.
    spec fn shift_in_range(shift: u8) -> bool;

    /// The scheme's padding symbol.
    fn null_base() -> (r: u8)
        ensures
            r == Self::null_base_spec(),
    ;

    /// Primary shard selector: a deterministic function of the hash bits.
    fn get_bucket(hash: Self::HashTypeUnextendable) -> (r: BucketIndexType)
        ensures
            r == Self::bucket_spec(hash),
    ;

    /// Secondary shard selector; `None` signals that the scheme does not
    /// support dual buckets.
    fn get_second_bucket(hash: Self::HashTypeUnextendable) -> (r: Option<BucketIndexType>)
        ensures
            r == Self::second_bucket_spec(hash),
    ;

    /// Minimizer key; `None` signals that the scheme does not support one.
    fn get_minimizer(hash: Self::HashTypeUnextendable) -> (r: Option<MinimizerType>)
        ensures
            r == Self::minimizer_spec(hash),
    ;

    /// Byte-lane extraction for radix-style sorting.
    fn get_shifted(hash: Self::HashTypeUnextendable, shift: u8) -> (r: u8)
        requires
            Self::shift_in_range(shift),
        ensures
            r == Self::shifted_spec(hash, shift),
    ;

    /// Given the hash of the width-`k` window starting at some offset `i`,
    /// the symbol leaving at the low end (`out_base`, at offset `i`) and the
    /// symbol entering at the high end (`in_base`, at offset `i + k`),
    /// produce the hash of the window starting at `i + 1`.
    fn manual_roll_forward(
        hash: Self::HashTypeExtendable,
        k: usize,
        out_base: u8,
        in_base: u8,
    ) -> (r: Self::HashTypeExtendable)
        requires
            2 <= k <= Self::max_width(),
            out_base < 4,
            in_base < 4,
        ensures
            forall|w: Seq<u8>|
                w.len() == k && valid_bases(w) && w[0] == out_base
                    && #[trigger] Self::window_hash(w) == hash
                    ==> r == Self::window_hash(w.subrange(1, k as int).push(in_base)),
    ;

    /// The mirror of `manual_roll_forward`: given the hash of the width-`k`
    /// window starting at `i + 1`, the symbol leaving at the high end
    /// (`out_base`, at offset `i + k`) and the symbol entering at the low end
    /// (`in_base`, at offset `i`), produce the hash of the window starting at
    /// `i`.
    fn manual_roll_reverse(
        hash: Self::HashTypeExtendable,
        k: usize,
        out_base: u8,
        in_base: u8,
    ) -> (r: Self::HashTypeExtendable)
        requires
            2 <= k <= Self::max_width(),
            out_base < 4,
            in_base < 4,
        ensures
            forall|w: Seq<u8>|
                w.len() == k && valid_bases(w) && w[k - 1] == out_base
                    && #[trigger] Self::window_hash(w) == hash
                    ==> r == Self::window_hash(seq![in_base] + w.drop_last()),
    ;

    /// Given the hash of a width-`k` window, produce the hash of the
    /// width-`k - 1` window obtained by dropping the leftmost symbol
    /// (`out_base` is that dropped symbol).
    fn manual_remove_only_forward(
        hash: Self::HashTypeExtendable,
        k: usize,
        out_base: u8,
    ) -> (r: Self::HashTypeExtendable)
        requires
            2 <= k <= Self::max_width(),
            out_base < 4,
        ensures
            forall|w: Seq<u8>|
                w.len() == k && valid_bases(w) && w[0] == out_base
                    && #[trigger] Self::window_hash(w) == hash
                    ==> r == Self::window_hash(w.drop_first()),
    ;

    /// Given the hash of a width-`k` window, produce the hash of the
    /// width-`k - 1` window obtained by dropping the rightmost symbol
    /// (`out_base` is that dropped symbol).
    fn manual_remove_only_reverse(
        hash: Self::HashTypeExtendable,
        k: usize,
        out_base: u8,
    ) -> (r: Self::HashTypeExtendable)
        requires
            2 <= k <= Self::max_width(),
            out_base < 4,
        ensures
            forall|w: Seq<u8>|
                w.len() == k && valid_bases(w) && w[k - 1] == out_base
                    && #[trigger] Self::window_hash(w) == hash
                    ==> r == Self::window_hash(w.drop_last()),
    ;
}

/// A per-sequence, single-pass window scan: one extendable hash per valid
/// window start offset, in increasing offset order.
pub trait HashFunction<HF: HashFunctionFactory>: Sized {
    /// The symbols of the underlying sequence.
    spec fn input_bases(&self) -> Seq<u8>;

    /// The fixed window width `k`.
    spec fn width(&self) -> usize;

    /// Holds for every value a successful construction returns.
    spec fn valid(&self) -> bool;

    /// Consumes the pass and returns the hash of every window, one per start
    /// offset.
    fn iter(self) -> (r: Vec<HF::HashTypeExtendable>)
        requires
            self.valid(),
        ensures
            r@.len() == self.input_bases().len() - self.width() + 1,
            forall|i: int|
                0 <= i < r@.len() ==> #[trigger] r@[i] == HF::window_hash(
                    self.input_bases().subrange(i, i + self.width()),
                ),
    ;

    /// Like `iter`, but pairs each hash with its window's start offset,
    /// 0-based and relative to the scan's own start.
    fn iter_enumerate(self) -> (r: Vec<(usize, HF::HashTypeExtendable)>)
        requires
            self.valid(),
        ensures
            r@.len() == self.input_bases().len() - self.width() + 1,
            forall|i: int|
                0 <= i < r@.len() ==> #[trigger] r@[i] == (
                    i as usize,
                    HF::window_hash(self.input_bases().subrange(i, i + self.width())),
                ),
    ;
}

} // verus!
