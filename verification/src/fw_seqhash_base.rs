//! The baseline forward scheme: the accumulator is the window's symbols
//! packed at 2 bits each, masked to exactly `2 * k` bits. Hashes are
//! injective in the window's symbols, so collisions are prevented by
//! construction rather than by mixing.

use crate::hash::{
    valid_bases, ExtendableHashTraitType, HashFunction, HashFunctionFactory, HashableSequence,
};
use crate::packed_window::{
    lemma_mask_noop, lemma_packed_push_bits, lemma_packed_value_bound, lemma_packed_value_fits,
    lemma_packed_value_injective, lemma_remove_forward_window, lemma_remove_reverse_window,
    lemma_roll_forward_grow, lemma_roll_forward_window, lemma_roll_reverse_window, packed_value,
    spec_mask,
};
use crate::types::{BucketIndexType, MinimizerType};
use vstd::arithmetic::power2::lemma_pow2_strictly_increases;
use vstd::prelude::*;

verus! {

/// The mask selecting the low `2 * k` bits of the 64-bit accumulator.
pub fn get_mask(k: usize) -> (r: u64)
    requires
        1 <= k <= 32,
    ensures
        r == spec_mask(k as nat),
{
    u64::MAX >> (((32 - k) * 2) as u64)
}

/// The accumulator contents while a scan walks a sequence: before the symbol
/// at `idx` is shifted in, the accumulator packs the most recent symbols, at
/// most `k` of them.
pub open spec fn rolling_state(s: Seq<u8>, k: int, idx: int) -> Seq<u8> {
    if idx < k {
        s.subrange(0, idx)
    } else {
        s.subrange(idx - k, idx)
    }
}

/// An extendable hash of the baseline scheme: the packed, masked window
/// value. A bare value may be held and rolled manually long after the scan
/// that produced it is gone.
#[derive(Copy, Clone, Debug, Ord, PartialOrd, Eq, PartialEq, Structural)]
pub struct ExtForwardSeqHash(pub u64);

impl ExtendableHashTraitType for ExtForwardSeqHash {
    type HashTypeUnextendable = u64;

    open spec fn unextendable(self) -> u64 {
        self.0
    }

    fn to_unextendable(self) -> (r: u64) {
        self.0
    }
}

/// The per-sequence window scan of the baseline scheme: the accumulator is
/// pre-loaded with the first `k - 1` symbols, then each step shifts in one
/// new symbol, masks to width, and yields the window's hash.
pub struct ForwardSeqHashIterator<N: HashableSequence> {
    seq: N,
    mask: u64,
    fh: u64,
    k_minus1: usize,
}

impl<N: HashableSequence> ForwardSeqHashIterator<N> {
    /// Well-formedness of a constructed scan.
    pub closed spec fn wf(&self) -> bool {
        &&& 1 <= self.k_minus1 <= 31
        &&& self.k_minus1 + 1 <= self.seq.bases().len()
        &&& valid_bases(self.seq.bases())
        &&& self.mask == spec_mask((self.k_minus1 + 1) as nat)
        &&& self.fh == packed_value(self.seq.bases().subrange(0, self.k_minus1 as int))
    }

    /// Builds a scan over `seq` with window width `k`, pre-loading the first
    /// `k - 1` symbols; rejects any `k` below 2 or beyond the sequence length
    /// or the accumulator's capacity.
    pub fn new(seq: N, k: usize) -> (r: Result<ForwardSeqHashIterator<N>, &'static str>)
        requires
            valid_bases(seq.bases()),
        ensures
            r is Ok <==> 2 <= k <= 32 && k <= seq.bases().len(),
            r matches Ok(it) ==> it.valid() && it.input_bases() == seq.bases() && it.width() == k,
            r matches Err(e) ==> e@ == "K out of range!"@,
    {
        let n = seq.bases_count();
        if k < 2 || k > n || k > 32 {
            return Err("K out of range!");
        }
        let mut fh: u64 = 0;
        let mut i: usize = 0;
        while i < k - 1
            invariant
                2 <= k <= 32,
                k <= seq.bases().len(),
                valid_bases(seq.bases()),
                0 <= i <= k - 1,
                fh == packed_value(seq.bases().subrange(0, i as int)),
            decreases k - 1 - i,
        {
            let b = seq.get_unchecked_cbase(i);
            proof {
                let pre = seq.bases().subrange(0, i as int);
                assert(valid_bases(pre)) by {
                    assert(forall|j: int| 0 <= j < pre.len() ==> pre[j] == seq.bases()[j]);
                }
                assert(b < 4);
                lemma_packed_push_bits(pre, b);
                assert(pre.push(b) =~= seq.bases().subrange(0, i + 1));
            }
            fh = (fh << 2u64) | (b as u64);
            i += 1;
        }
        let mask = get_mask(k);
        proof {
            let pre = seq.bases().subrange(0, (k - 1) as int);
            assert(valid_bases(pre)) by {
                assert(forall|j: int| 0 <= j < pre.len() ==> pre[j] == seq.bases()[j]);
            }
            lemma_packed_value_bound(pre);
            lemma_pow2_strictly_increases((2 * (k - 1)) as nat, (2 * k) as nat);
            lemma_mask_noop(fh, k as nat);
        }
        Ok(ForwardSeqHashIterator { seq, mask, fh: fh & mask, k_minus1: k - 1 })
    }

    /// One step of the scan: shifts the symbol at `index` into the
    /// accumulator, masks to width, and returns the hash of the window
    /// ending at `index`.
    fn roll_hash(&mut self, index: usize) -> (r: ExtForwardSeqHash)
        requires
            1 <= old(self).k_minus1 <= 31,
            valid_bases(old(self).seq.bases()),
            old(self).mask == spec_mask((old(self).k_minus1 + 1) as nat),
            old(self).k_minus1 <= index < old(self).seq.bases().len(),
            old(self).fh == packed_value(
                rolling_state(old(self).seq.bases(), old(self).k_minus1 + 1, index as int),
            ),
        ensures
            final(self).seq == old(self).seq,
            final(self).mask == old(self).mask,
            final(self).k_minus1 == old(self).k_minus1,
            final(self).fh == packed_value(
                rolling_state(old(self).seq.bases(), old(self).k_minus1 + 1, index + 1),
            ),
            r == ForwardSeqHashFactory::window_hash(
                old(self).seq.bases().subrange(index - old(self).k_minus1, index + 1),
            ),
    {
        let b = self.seq.get_unchecked_cbase(index);
        proof {
            let s = self.seq.bases();
            let k = self.k_minus1 + 1;
            let st = rolling_state(s, k, index as int);
            assert(b < 4);
            assert(valid_bases(st)) by {
                assert forall|j: int| 0 <= j < st.len() implies st[j] < 4 by {
                    if (index as int) < k {
                        assert(st[j] == s[j]);
                    } else {
                        assert(st[j] == s[index - k + j]);
                    }
                }
            }
            lemma_packed_value_fits(st);
            if (index as int) < k {
                assert(st.len() == index);
                lemma_roll_forward_grow(st, k as nat, b);
                assert(st.push(b) =~= s.subrange(0, index + 1));
                assert(st.push(b) =~= rolling_state(s, k, index + 1));
            } else {
                assert(st.len() == k);
                lemma_roll_forward_window(st, b);
                assert(st.subrange(1, k).push(b) =~= s.subrange(index - k + 1, index + 1));
                assert(st.subrange(1, k).push(b) =~= rolling_state(s, k, index + 1));
            }
            assert(rolling_state(s, k, index + 1) =~= s.subrange(index + 1 - k, index + 1));
            lemma_packed_value_fits(rolling_state(s, k, index + 1));
        }
        self.fh = ((self.fh << 2u64) | (b as u64)) & self.mask;
        ExtForwardSeqHash(self.fh)
    }
}

impl<N: HashableSequence> HashFunction<ForwardSeqHashFactory> for ForwardSeqHashIterator<N> {
    closed spec fn input_bases(&self) -> Seq<u8> {
        self.seq.bases()
    }

    closed spec fn width(&self) -> usize {
        (self.k_minus1 + 1) as usize
    }

    closed spec fn valid(&self) -> bool {
        self.wf()
    }

    fn iter(self) -> (r: Vec<ExtForwardSeqHash>) {
        let mut it = self;
        let ghost s = it.seq.bases();
        let ghost k: int = it.k_minus1 + 1;
        let n = it.seq.bases_count();
        let mut out: Vec<ExtForwardSeqHash> = Vec::new();
        let mut idx: usize = it.k_minus1;
        while idx < n
            invariant
                1 <= it.k_minus1 <= 31,
                it.k_minus1 + 1 == k,
                it.seq.bases() == s,
                it.mask == spec_mask(k as nat),
                valid_bases(s),
                k <= s.len(),
                n == s.len(),
                it.k_minus1 <= idx <= n,
                it.fh == packed_value(rolling_state(s, k, idx as int)),
                out@.len() == idx - it.k_minus1,
                forall|j: int|
                    0 <= j < out@.len() ==> out@[j] == ForwardSeqHashFactory::window_hash(
                        #[trigger] s.subrange(j, j + k),
                    ),
            decreases n - idx,
        {
            let h = it.roll_hash(idx);
            proof {
                assert(s.subrange(idx - it.k_minus1, idx + 1) =~= s.subrange(
                    out@.len() as int,
                    out@.len() + k,
                ));
            }
            out.push(h);
            idx += 1;
        }
        out
    }

    fn iter_enumerate(self) -> (r: Vec<(usize, ExtForwardSeqHash)>) {
        let mut it = self;
        let ghost s = it.seq.bases();
        let ghost k: int = it.k_minus1 + 1;
        let n = it.seq.bases_count();
        let mut out: Vec<(usize, ExtForwardSeqHash)> = Vec::new();
        let mut idx: usize = it.k_minus1;
        while idx < n
            invariant
                1 <= it.k_minus1 <= 31,
                it.k_minus1 + 1 == k,
                it.seq.bases() == s,
                it.mask == spec_mask(k as nat),
                valid_bases(s),
                k <= s.len(),
                n == s.len(),
                it.k_minus1 <= idx <= n,
                it.fh == packed_value(rolling_state(s, k, idx as int)),
                out@.len() == idx - it.k_minus1,
                forall|j: int| 0 <= j < out@.len() ==> (#[trigger] out@[j]).0 == j,
                forall|j: int|
                    0 <= j < out@.len() ==> out@[j].1 == ForwardSeqHashFactory::window_hash(
                        #[trigger] s.subrange(j, j + k),
                    ),
            decreases n - idx,
        {
            let off = idx - it.k_minus1;
            let h = it.roll_hash(idx);
            proof {
                assert(s.subrange(idx - it.k_minus1, idx + 1) =~= s.subrange(
                    out@.len() as int,
                    out@.len() + k,
                ));
            }
            out.push((off, h));
            idx += 1;
        }
        out
    }
}

/// The baseline scheme descriptor: direct 2-bit packing, low 32 bits as the
/// bucket, no secondary bucket and no minimizer.
#[derive(Copy, Clone, Ord, PartialOrd, Eq, PartialEq, Debug)]
pub struct ForwardSeqHashFactory;

impl ForwardSeqHashFactory {
    /// Builds the window scan directly; `k` must already be in range.
    pub fn new<N: HashableSequence>(seq: N, k: usize) -> (r: ForwardSeqHashIterator<N>)
        requires
            valid_bases(seq.bases()),
            2 <= k <= 32,
            k <= seq.bases().len(),
        ensures
            r.valid(),
            r.input_bases() == seq.bases(),
            r.width() == k,
    {
        let res = ForwardSeqHashIterator::new(seq, k);
        match res {
            Ok(it) => it,
            Err(_) => unreached(),
        }
    }
}

impl HashFunctionFactory for ForwardSeqHashFactory {
    type HashTypeUnextendable = u64;

    type HashTypeExtendable = ExtForwardSeqHash;

    open spec fn null_base_spec() -> u8 {
        0
    }

    open spec fn max_width() -> usize {
        32
    }

    open spec fn window_hash(w: Seq<u8>) -> ExtForwardSeqHash {
        ExtForwardSeqHash(packed_value(w) as u64)
    }

    open spec fn bucket_spec(hash: u64) -> BucketIndexType {
        hash as u32
    }

    open spec fn second_bucket_spec(hash: u64) -> Option<BucketIndexType> {
        None
    }

    open spec fn minimizer_spec(hash: u64) -> Option<MinimizerType> {
        None
    }

    open spec fn shifted_spec(hash: u64, shift: u8) -> u8 {
        (hash >> shift) as u8
    }

    open spec fn shift_in_range(shift: u8) -> bool {
        shift < 64
    }

    fn null_base() -> (r: u8) {
        0
    }

    fn get_bucket(hash: u64) -> (r: BucketIndexType) {
        hash as u32
    }

    fn get_second_bucket(hash: u64) -> (r: Option<BucketIndexType>) {
        None
    }

    fn get_minimizer(hash: u64) -> (r: Option<MinimizerType>) {
        None
    }

    fn get_shifted(hash: u64, shift: u8) -> (r: u8) {
        (hash >> shift) as u8
    }

    fn manual_roll_forward(
        hash: ExtForwardSeqHash,
        k: usize,
        out_base: u8,
        in_base: u8,
    ) -> (r: ExtForwardSeqHash) {
        let mask = get_mask(k);
        let r = ExtForwardSeqHash(((hash.0 << 2u64) | (in_base as u64)) & mask);
        proof {
            assert forall|w: Seq<u8>|
                w.len() == k && valid_bases(w) && w[0] == out_base
                    && #[trigger] Self::window_hash(w) == hash implies r == Self::window_hash(
                w.subrange(1, k as int).push(in_base),
            ) by {
                lemma_packed_value_fits(w);
                lemma_roll_forward_window(w, in_base);
                let tgt = w.subrange(1, k as int).push(in_base);
                assert(valid_bases(tgt)) by {
                    assert forall|i: int| 0 <= i < tgt.len() implies tgt[i] < 4 by {
                        if i < k - 1 {
                            assert(tgt[i] == w[i + 1]);
                        } else {
                            assert(tgt[i] == in_base);
                        }
                    }
                }
                lemma_packed_value_fits(tgt);
            }
        }
        r
    }

    fn manual_roll_reverse(
        hash: ExtForwardSeqHash,
        k: usize,
        out_base: u8,
        in_base: u8,
    ) -> (r: ExtForwardSeqHash) {
        let r = ExtForwardSeqHash((hash.0 >> 2u64) | ((in_base as u64) << (((k - 1) * 2) as u64)));
        proof {
            assert forall|w: Seq<u8>|
                w.len() == k && valid_bases(w) && w[k - 1] == out_base
                    && #[trigger] Self::window_hash(w) == hash implies r == Self::window_hash(
                seq![in_base] + w.drop_last(),
            ) by {
                lemma_packed_value_fits(w);
                lemma_roll_reverse_window(w, in_base);
                let tgt = seq![in_base] + w.drop_last();
                assert(valid_bases(tgt)) by {
                    assert forall|i: int| 0 <= i < tgt.len() implies tgt[i] < 4 by {
                        if i == 0 {
                            assert(tgt[i] == in_base);
                        } else {
                            assert(tgt[i] == w[i - 1]);
                        }
                    }
                }
                lemma_packed_value_fits(tgt);
            }
        }
        r
    }

    fn manual_remove_only_forward(
        hash: ExtForwardSeqHash,
        k: usize,
        out_base: u8,
    ) -> (r: ExtForwardSeqHash) {
        let mask = get_mask(k - 1);
        let r = ExtForwardSeqHash(hash.0 & mask);
        proof {
            assert forall|w: Seq<u8>|
                w.len() == k && valid_bases(w) && w[0] == out_base
                    && #[trigger] Self::window_hash(w) == hash implies r == Self::window_hash(
                w.drop_first(),
            ) by {
                lemma_packed_value_fits(w);
                lemma_remove_forward_window(w);
                let tgt = w.drop_first();
                assert(valid_bases(tgt)) by {
                    assert(forall|i: int| 0 <= i < tgt.len() ==> tgt[i] == w[i + 1]);
                }
                lemma_packed_value_fits(tgt);
            }
        }
        r
    }

    fn manual_remove_only_reverse(
        hash: ExtForwardSeqHash,
        k: usize,
        out_base: u8,
    ) -> (r: ExtForwardSeqHash) {
        let r = ExtForwardSeqHash(hash.0 >> 2u64);
        proof {
            assert forall|w: Seq<u8>|
                w.len() == k && valid_bases(w) && w[k - 1] == out_base
                    && #[trigger] Self::window_hash(w) == hash implies r == Self::window_hash(
                w.drop_last(),
            ) by {
                lemma_packed_value_fits(w);
                lemma_remove_reverse_window(w);
                let tgt = w.drop_last();
                assert(valid_bases(tgt)) by {
                    assert(forall|i: int| 0 <= i < tgt.len() ==> tgt[i] == w[i]);
                }
                lemma_packed_value_fits(tgt);
            }
        }
        r
    }
}

/// Determinism: any two hash sequences that satisfy the scan contract for
/// the same symbols and the same window width are pointwise identical, and
/// so are their unextendable projections — a window's hash is a function of
/// the window alone.
pub proof fn lemma_scan_deterministic(
    s: Seq<u8>,
    k: int,
    v1: Seq<ExtForwardSeqHash>,
    v2: Seq<ExtForwardSeqHash>,
)
    requires
        1 <= k <= s.len(),
        v1.len() == s.len() - k + 1,
        v2.len() == s.len() - k + 1,
        forall|i: int|
            0 <= i < v1.len() ==> #[trigger] v1[i] == ForwardSeqHashFactory::window_hash(
                s.subrange(i, i + k),
            ),
        forall|i: int|
            0 <= i < v2.len() ==> #[trigger] v2[i] == ForwardSeqHashFactory::window_hash(
                s.subrange(i, i + k),
            ),
    ensures
        v1 == v2,
        forall|i: int|
            0 <= i < v1.len() ==> #[trigger] v1[i].unextendable() == v2[i].unextendable(),
{
    assert(v1 =~= v2);
}

/// No false collisions: two valid windows of equal width whose unextendable
/// hashes agree hold identical symbols — the baseline packing is injective.
pub proof fn lemma_no_false_collisions(w1: Seq<u8>, w2: Seq<u8>)
    requires
        valid_bases(w1),
        valid_bases(w2),
        w1.len() == w2.len(),
        w1.len() <= 32,
        ForwardSeqHashFactory::window_hash(w1).unextendable()
            == ForwardSeqHashFactory::window_hash(w2).unextendable(),
    ensures
        w1 == w2,
{
    lemma_packed_value_fits(w1);
    lemma_packed_value_fits(w2);
    lemma_packed_value_injective(w1, w2);
}

/// Self-consistency under duplication: over the doubled sequence `s + s`,
/// both the window at offset `j` and the window at offset `s.len() + j` hash
/// exactly as the window at offset `j` of `s` itself.
pub proof fn lemma_duplicated_sequence_consistency(s: Seq<u8>, k: int, j: int)
    requires
        1 <= k,
        0 <= j,
        j + k <= s.len(),
    ensures
        ForwardSeqHashFactory::window_hash((s + s).subrange(j, j + k))
            == ForwardSeqHashFactory::window_hash(s.subrange(j, j + k)),
        ForwardSeqHashFactory::window_hash((s + s).subrange(s.len() + j, s.len() + j + k))
            == ForwardSeqHashFactory::window_hash(s.subrange(j, j + k)),
{
    assert((s + s).subrange(j, j + k) =~= s.subrange(j, j + k));
    assert((s + s).subrange(s.len() + j, s.len() + j + k) =~= s.subrange(j, j + k));
}

} // verus!
