use dabctl::protection::{
    count_marked_positions, depuncture_soft_bits, profile_entry, resolve_uep_profile_index,
    EepProtection, Protection, UepProtection, PROFILE_COUNT,
};
use std::collections::HashSet;

#[test]
fn count_marked_positions_counts_true_entries() {
    let table = [true, false, true, true, false, false, true];
    assert_eq!(count_marked_positions(&table), 4);
}

#[test]
fn resolve_uep_profile_index_known_pair() {
    let idx = resolve_uep_profile_index(32, 4);
    assert_eq!(idx, Some(1), "(32,4) must map to profile index 1");
}

#[test]
fn resolve_uep_profile_index_unknown_pair_falls_back_to_same_bitrate() {
    let idx = resolve_uep_profile_index(999, 99);
    assert_eq!(idx, None, "unknown bitrate must return None");
}

#[test]
fn resolve_uep_profile_index_unknown_level_with_known_bitrate() {
    let idx = resolve_uep_profile_index(64, 99).expect("must find same-bitrate fallback");
    assert_eq!(profile_entry(idx).bit_rate, 64);
}

#[test]
fn uep_profile_pairs_are_unique() {
    let mut seen = HashSet::<(i16, i16)>::new();
    for i in 0..PROFILE_COUNT {
        let p = profile_entry(i);
        let key = (p.bit_rate, p.prot_level);
        assert!(seen.insert(key), "duplicate UEP profile key: {key:?}");
    }
}

#[test]
fn uep_profile_fields_have_valid_ranges() {
    for i in 0..PROFILE_COUNT {
        let p = profile_entry(i);
        assert!(p.bit_rate > 0, "bit_rate must be positive");
        assert!(p.prot_level >= 1 && p.prot_level <= 5);
        assert!(p.l1 >= 0 && p.l2 >= 0 && p.l3 >= 0 && p.l4 >= 0);
        assert!(p.l1 + p.l2 + p.l3 + p.l4 > 0, "all L segments are zero");
        assert!((1..=24).contains(&p.pi1));
        assert!((1..=24).contains(&p.pi2));
        assert!((1..=24).contains(&p.pi3));
        if p.pi4 != -1 {
            assert!((1..=24).contains(&p.pi4));
        }
    }
}

#[test]
fn eep_creation_a1() {
    let _p = EepProtection::new(64, 0);
}

#[test]
fn eep_index_table_has_valid_coverage() {
    let p = EepProtection::new(64, 0);
    assert_eq!(p.index_table().len(), 24 * 64 * 4 + 24);
    let marked = count_marked_positions(p.index_table());
    assert!(marked > 0, "EEP index table must mark some positions");
    assert!(marked <= p.index_table().len(), "marked positions cannot exceed table length");
}

#[test]
fn eep_creation_a2() {
    let _p = EepProtection::new(128, 1);
}

#[test]
fn eep_creation_a3() {
    let _p = EepProtection::new(64, 2);
}

#[test]
fn eep_creation_a4() {
    let _p = EepProtection::new(64, 3);
}

#[test]
fn eep_creation_b_profiles() {
    for level in 4..8 {
        let _p = EepProtection::new(64, level);
    }
}

#[test]
fn eep_deconvolve_zero_input() {
    let mut p = EepProtection::new(64, 0);
    let in_size = 24 * 64;
    let input = vec![0i16; in_size * 4 + 24];
    let mut output = vec![0u8; in_size];
    p.deconvolve(&input, &mut output);
    assert!(output.iter().all(|&b| b == 0 || b == 1));
}

#[test]
fn protection_enum_eep() {
    let mut prot = Protection::Eep(EepProtection::new(64, 0));
    let in_size = 24 * 64;
    let input = vec![0i16; in_size * 4 + 24];
    let mut output = vec![0u8; in_size];
    prot.deconvolve(&input, &mut output);
}

#[test]
fn uep_unknown_profile_does_not_panic() {
    let _p = UepProtection::new(999, 99);
}

#[test]
fn uep_index_table_has_valid_coverage_for_known_profile() {
    let p = UepProtection::new(64, 4);
    assert_eq!(p.index_table().len(), 24 * 64 * 4 + 24);
    let marked = count_marked_positions(p.index_table());
    assert!(marked > 0, "UEP index table must mark some positions");
    assert!(marked <= p.index_table().len(), "marked positions cannot exceed table length");
}

#[test]
fn uep_unknown_profile_deconvolve_does_not_panic() {
    let mut p = UepProtection::new(32, 99);
    let out_size = 24 * 32;
    let input = vec![0i16; out_size * 4 + 24];
    let mut output = vec![0u8; out_size];
    p.deconvolve(&input, &mut output);
}

#[test]
fn uep_unknown_bitrate_creates_empty_profile() {
    let mut p = UepProtection::new(999, 99);
    let input = vec![0i16; 24];
    let mut output = Vec::<u8>::new();
    p.deconvolve(&input, &mut output);
    assert!(output.is_empty(), "unknown bitrate must emit no bits");
    assert_eq!(count_marked_positions(p.index_table()), 0);
}

#[test]
fn eep_invalid_bit_rate_creates_empty_profile() {
    let mut p = EepProtection::new(0, 0);
    let input = vec![0i16; 24];
    let mut output = Vec::<u8>::new();
    p.deconvolve(&input, &mut output);
    assert!(output.is_empty(), "empty EEP profile must emit no bits");
    assert_eq!(count_marked_positions(p.index_table()), 0);
}

#[test]
fn uep_invalid_bit_rate_creates_empty_profile() {
    let mut p = UepProtection::new(0, 0);
    let input = vec![0i16; 24];
    let mut output = Vec::<u8>::new();
    p.deconvolve(&input, &mut output);
    assert!(output.is_empty(), "empty UEP profile must emit no bits");
    assert_eq!(count_marked_positions(p.index_table()), 0);
}

#[test]
fn depuncture_consumes_only_marked_positions() {
    let table = [true, false, true, true, false];
    let input = [10i16, 20, 30];
    let mut block = [0i16; 5];
    let consumed = depuncture_soft_bits(&table, &input, &mut block);
    assert_eq!(consumed, 3);
    assert_eq!(block, [10, 0, 20, 30, 0]);
}

#[test]
fn depuncture_truncated_input_leaves_remaining_zero() {
    let table = [true, true, true, true];
    let input = [7i16, 8];
    let mut block = [99i16; 4];
    let consumed = depuncture_soft_bits(&table, &input, &mut block);
    assert_eq!(consumed, 2);
    assert_eq!(block, [7, 8, 0, 0]);
}

#[test]
fn eep_a1_mask_marks_expected_count() {
    // Level 1-A at 64 kbit/s: 45 groups with PI_24 (32 of 32), 3 with PI_23
    // (31 of 32) and the PI_8 tail (12 of 24).
    let p = EepProtection::new(64, 0);
    assert_eq!(count_marked_positions(p.index_table()), 45 * 128 + 3 * 124 + 12);
}
