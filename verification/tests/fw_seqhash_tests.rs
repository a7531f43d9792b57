use rand::RngCore;
use seqhash::fw_seqhash_base::{ExtForwardSeqHash, ForwardSeqHashFactory, ForwardSeqHashIterator};
use seqhash::hash::{ExtendableHashTraitType, HashFunction, HashFunctionFactory, HashableSequence};

/// Construct a deterministic RNG with the given seed.
fn rng(seed: u64) -> rand_pcg::Pcg32 {
    const INC: u64 = 11634580027462260723;
    rand_pcg::Pcg32::new(seed, INC)
}

fn compress_base(base: u8) -> u8 {
    (base >> 1) & 0x3
}

fn decompress_base(cbase: u8) -> u8 {
    const LOOKUP: [u8; 4] = [b'A', b'C', b'T', b'G'];
    LOOKUP[cbase as usize]
}

fn to_compressed(bases: &[u8]) -> Vec<u8> {
    let mut res = Vec::new();
    for base in bases {
        res.push(compress_base(*base))
    }
    res
}

fn compute_hashes(bases: &[u8], k: usize, compress: bool) -> Vec<ExtForwardSeqHash> {
    let bases_vec;

    let bases = if compress {
        bases_vec = to_compressed(bases);
        bases_vec.as_slice()
    } else {
        bases
    };

    ForwardSeqHashFactory::new(bases, k).iter()
}

fn generate_bases(len: usize, seed: u64) -> Vec<u8> {
    let mut rng = rng(seed);

    (0..len)
        .map(|_| decompress_base((rng.next_u32() % 4) as u8))
        .collect::<Vec<_>>()
}

fn test_hash_function(kvalues: &[usize], canonical: bool) {
    for kval in kvalues {
        let test_bases = generate_bases(*kval * 100, 182 + *kval as u64);

        let hashes = compute_hashes(test_bases.as_slice(), *kval, true);

        // Distribution test
        {
            let mut tmp = hashes
                .iter()
                .enumerate()
                .map(|(i, x)| (*x, i))
                .collect::<Vec<_>>();
            tmp.sort();
            for i in 1..tmp.len() {
                if tmp[i - 1].0 == tmp[i].0 {
                    let f = tmp[i - 1].1;
                    let s = tmp[i].1;

                    let fx = &test_bases[f..f + *kval];
                    let sx = &test_bases[s..s + *kval];

                    if fx != sx {
                        panic!(
                            "Error collision {:?} {} != {}!",
                            tmp[i - 1].0,
                            std::str::from_utf8(fx).unwrap(),
                            std::str::from_utf8(sx).unwrap()
                        );
                    }
                }
            }
        }

        // Double hash test
        {
            let mut dtest_bases = test_bases.clone();
            dtest_bases.extend_from_slice(test_bases.as_slice());

            let dhashes = compute_hashes(dtest_bases.as_slice(), *kval, true);

            let kmers_count = test_bases.len() - *kval + 1;

            let first_range = ..kmers_count;
            let second_range = (kmers_count + *kval - 1)..;

            assert_eq!(dhashes[first_range], dhashes[second_range]);
        }

        // Canonical test
        if canonical {
            let rc_bases = test_bases
                .iter()
                .map(|x| match *x {
                    b'A' => b'T',
                    b'C' => b'G',
                    b'G' => b'C',
                    b'T' => b'A',
                    _ => unreachable!(),
                })
                .rev()
                .collect::<Vec<_>>();

            let rc_hashes = compute_hashes(rc_bases.as_slice(), *kval, true);

            assert_eq!(
                hashes
                    .iter()
                    .map(|x| x.to_unextendable())
                    .collect::<Vec<_>>(),
                rc_hashes
                    .iter()
                    .map(|x| x.to_unextendable())
                    .rev()
                    .collect::<Vec<_>>(),
            );
        }

        // Manual forward+reverse test
        {
            for i in 0..hashes.len() - 1 {
                let manual_roll = ForwardSeqHashFactory::manual_roll_forward(
                    hashes[i],
                    *kval,
                    compress_base(test_bases[i]),
                    compress_base(test_bases[i + *kval]),
                );
                assert_eq!(hashes[i + 1], manual_roll);
            }

            for i in (1..hashes.len()).rev() {
                let manual_roll = ForwardSeqHashFactory::manual_roll_reverse(
                    hashes[i],
                    *kval,
                    compress_base(test_bases[i + *kval - 1]),
                    compress_base(test_bases[i - 1]),
                );
                assert_eq!(hashes[i - 1], manual_roll);
            }
        }

        // Manual remove forward test; width-1 scans are rejected at
        // construction, so for the smallest width the expected value is the
        // single symbol's packed value itself.
        if *kval > 2 {
            let lhashes = compute_hashes(test_bases.as_slice(), *kval - 1, true);

            for i in 0..hashes.len() {
                let manual_roll = ForwardSeqHashFactory::manual_remove_only_forward(
                    hashes[i],
                    *kval,
                    compress_base(test_bases[i]),
                );
                assert_eq!(lhashes[i + 1], manual_roll);
            }
        } else {
            for i in 0..hashes.len() {
                let manual_roll = ForwardSeqHashFactory::manual_remove_only_forward(
                    hashes[i],
                    *kval,
                    compress_base(test_bases[i]),
                );
                assert_eq!(
                    compress_base(test_bases[i + 1]) as u64,
                    manual_roll.to_unextendable()
                );
            }
        }

        // Manual remove backward test
        if *kval > 2 {
            let lhashes = compute_hashes(test_bases.as_slice(), *kval - 1, true);

            for i in (0..hashes.len()).rev() {
                let manual_roll = ForwardSeqHashFactory::manual_remove_only_reverse(
                    hashes[i],
                    *kval,
                    compress_base(test_bases[i + *kval - 1]),
                );
                assert_eq!(lhashes[i], manual_roll);
            }
        } else {
            for i in (0..hashes.len()).rev() {
                let manual_roll = ForwardSeqHashFactory::manual_remove_only_reverse(
                    hashes[i],
                    *kval,
                    compress_base(test_bases[i + *kval - 1]),
                );
                assert_eq!(
                    compress_base(test_bases[i]) as u64,
                    manual_roll.to_unextendable()
                );
            }
        }
    }
}

#[test]
fn fw_seqhash_test() {
    test_hash_function(&(2..32).collect::<Vec<_>>(), false);
}

#[test]
fn determinism_same_window_same_hash() {
    let bases = generate_bases(500, 7);
    let first = compute_hashes(bases.as_slice(), 11, true);
    let second = compute_hashes(bases.as_slice(), 11, true);
    assert_eq!(first, second);
    let fu = first
        .iter()
        .map(|h| h.to_unextendable())
        .collect::<Vec<_>>();
    let su = second
        .iter()
        .map(|h| h.to_unextendable())
        .collect::<Vec<_>>();
    assert_eq!(fu, su);
}

#[test]
fn scenario_packed_values_k3() {
    // A=0 C=1 G=2 T=3: windows ACG and CGT of "ACGT".
    let codes: &[u8] = &[0, 1, 2, 3];
    let hashes = ForwardSeqHashFactory::new(codes, 3).iter();
    assert_eq!(hashes.len(), 2);
    assert_eq!(hashes[0].to_unextendable(), 0b000110);
    assert_eq!(hashes[1].to_unextendable(), 0b011011);

    let rolled = ForwardSeqHashFactory::manual_roll_forward(hashes[0], 3, 0, 3);
    assert_eq!(rolled.to_unextendable(), 27);
    assert_eq!(rolled, hashes[1]);

    let back = ForwardSeqHashFactory::manual_roll_reverse(hashes[1], 3, 3, 0);
    assert_eq!(back, hashes[0]);

    // Compare removals against an independently constructed width-2 scan.
    let lhashes = ForwardSeqHashFactory::new(codes, 2).iter();
    assert_eq!(lhashes.len(), 3);
    let removed_fw = ForwardSeqHashFactory::manual_remove_only_forward(hashes[0], 3, 0);
    assert_eq!(removed_fw, lhashes[1]);
    assert_eq!(removed_fw.to_unextendable(), 0b0110);
    let removed_rev = ForwardSeqHashFactory::manual_remove_only_reverse(hashes[0], 3, 2);
    assert_eq!(removed_rev, lhashes[0]);
    assert_eq!(removed_rev.to_unextendable(), 0b0001);
}

#[test]
fn injectivity_all_width3_windows() {
    // All 64 distinct width-3 windows must hash to 64 distinct values.
    let mut seen = Vec::new();
    for a in 0u8..4 {
        for b in 0u8..4 {
            for c in 0u8..4 {
                let codes = [a, b, c];
                let hashes = ForwardSeqHashFactory::new(&codes[..], 3).iter();
                assert_eq!(hashes.len(), 1);
                seen.push(hashes[0].to_unextendable());
            }
        }
    }
    seen.sort();
    for i in 1..seen.len() {
        assert_ne!(seen[i - 1], seen[i]);
    }
}

#[test]
fn duplicated_sequence_consistency() {
    let bases = generate_bases(300, 99);
    let k = 9;
    let hashes = compute_hashes(bases.as_slice(), k, true);
    let mut doubled = bases.clone();
    doubled.extend_from_slice(bases.as_slice());
    let dhashes = compute_hashes(doubled.as_slice(), k, true);
    let kmers_count = bases.len() - k + 1;
    assert_eq!(&dhashes[..kmers_count], &hashes[..]);
    assert_eq!(&dhashes[bases.len()..], &hashes[..]);
}

#[test]
fn construction_rejects_k_out_of_range() {
    let codes: &[u8] = &[0, 1, 2, 3, 0, 1];
    assert!(matches!(
        ForwardSeqHashIterator::new(codes, 0),
        Err("K out of range!")
    ));
    assert!(matches!(
        ForwardSeqHashIterator::new(codes, 1),
        Err("K out of range!")
    ));
    assert!(matches!(
        ForwardSeqHashIterator::new(codes, 7),
        Err("K out of range!")
    ));
    assert!(matches!(
        ForwardSeqHashIterator::new(codes, 33),
        Err("K out of range!")
    ));
    let long = vec![0u8; 40];
    assert!(matches!(
        ForwardSeqHashIterator::new(&long[..], 33),
        Err("K out of range!")
    ));
    assert!(ForwardSeqHashIterator::new(codes, 6).is_ok());
    assert!(ForwardSeqHashIterator::new(&long[..], 32).is_ok());
}

#[test]
fn window_count_and_offsets() {
    let bases = generate_bases(100, 3);
    let k = 5;
    let compressed = to_compressed(bases.as_slice());
    let it = ForwardSeqHashFactory::new(compressed.as_slice(), k);
    let pairs = it.iter_enumerate();
    assert_eq!(pairs.len(), 100 - k + 1);
    for (i, (off, h)) in pairs.iter().enumerate() {
        assert_eq!(*off, i);
        let single = compute_hashes(&bases[i..i + k], k, true);
        assert_eq!(single.len(), 1);
        assert_eq!(single[0], *h);
    }
}

#[test]
fn bucket_and_byte_lanes() {
    let h: u64 = 0xDEAD_BEEF_1234_5678;
    assert_eq!(ForwardSeqHashFactory::get_bucket(h), 0x1234_5678u32);
    assert_eq!(ForwardSeqHashFactory::get_shifted(h, 0), 0x78);
    assert_eq!(ForwardSeqHashFactory::get_shifted(h, 8), 0x56);
    assert_eq!(ForwardSeqHashFactory::get_shifted(h, 56), 0xDE);
    assert_eq!(ForwardSeqHashFactory::get_second_bucket(h), None);
    assert_eq!(ForwardSeqHashFactory::get_minimizer(h), None);
    assert_eq!(ForwardSeqHashFactory::null_base(), 0);
}

#[test]
fn checked_sequence_access() {
    let codes: &[u8] = &[0, 1, 2, 3];
    assert_eq!(codes.bases_count(), 4);
    assert_eq!(codes.get_unchecked_cbase(2), 2);
    assert_eq!(codes.get_cbase_checked(3), Some(3));
    assert_eq!(codes.get_cbase_checked(4), None);
}

#[test]
fn get_mask_widths() {
    assert_eq!(seqhash::fw_seqhash_base::get_mask(1), 0x3);
    assert_eq!(seqhash::fw_seqhash_base::get_mask(4), 0xFF);
    assert_eq!(seqhash::fw_seqhash_base::get_mask(32), u64::MAX);
}
