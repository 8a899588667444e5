use dabctl::sim::{conv_encode, Lcg};
use dabctl::viterbi::{
    branch_table_index, decision_words_per_step, map_soft_decision_to_symbol, parity,
    required_soft_input_len, should_renormalize, store_survivor_pair, traceback_decision_bit,
    ViterbiSpiral, ADD_SHIFT, K, NUM_STATES, POLYS, RATE, RENORMALIZE_THRESHOLD,
};

#[test]
fn map_soft_decision_bounds_are_clamped() {
    assert_eq!(map_soft_decision_to_symbol(i16::MIN), 0);
    assert_eq!(map_soft_decision_to_symbol(i16::MAX), 255);
}

#[test]
fn map_soft_decision_nominal_range_matches_expected_bias() {
    assert_eq!(map_soft_decision_to_symbol(-127), 0);
    assert_eq!(map_soft_decision_to_symbol(0), 127);
    assert_eq!(map_soft_decision_to_symbol(127), 254);
}

#[test]
fn required_soft_input_len_matches_formula() {
    assert_eq!(required_soft_input_len(0), RATE * (K - 1));
    assert_eq!(required_soft_input_len(32), 152);
    assert_eq!(required_soft_input_len(64), 280);
}

#[test]
fn required_soft_input_len_is_monotonic() {
    assert!(required_soft_input_len(33) > required_soft_input_len(32));
    assert!(required_soft_input_len(128) > required_soft_input_len(64));
}

#[test]
fn decision_words_per_step_matches_state_geometry() {
    assert_eq!(NUM_STATES, 64);
    assert_eq!(decision_words_per_step(), 2);
}

#[test]
fn decision_storage_size_matches_formula() {
    let nbits = 32usize;
    let words = (nbits + K - 1) * decision_words_per_step();
    let v = ViterbiSpiral::new(nbits);
    assert_eq!(v.decision_words(), words);
}

#[test]
fn branch_table_index_is_rate_major_like_dabstar() {
    assert_eq!(branch_table_index(0, 5), 5);
    assert_eq!(branch_table_index(1, 5), 32 + 5);
    assert_eq!(branch_table_index(2, 5), 64 + 5);
    assert_eq!(branch_table_index(3, 5), 96 + 5);
}

#[test]
fn traceback_decision_bit_reads_packed_survivor_state() {
    let mut decisions = vec![0u32; decision_words_per_step()];
    store_survivor_pair(&mut decisions, 0, 17, 1, 0);

    let endstate_for_even_branch = ((17usize * 2) as u32) << ADD_SHIFT;
    let endstate_for_odd_branch = ((17usize * 2 + 1) as u32) << ADD_SHIFT;

    assert_eq!(traceback_decision_bit(&decisions, 0, endstate_for_even_branch), 1);
    assert_eq!(traceback_decision_bit(&decisions, 0, endstate_for_odd_branch), 0);
}

#[test]
fn renormalize_guard_matches_threshold_rule() {
    assert!(!should_renormalize(RENORMALIZE_THRESHOLD));
    assert!(should_renormalize(RENORMALIZE_THRESHOLD + 1));
}

#[test]
fn renormalize_noop_when_min_is_below_or_equal_threshold() {
    let mut metrics = vec![RENORMALIZE_THRESHOLD, RENORMALIZE_THRESHOLD + 5, 9];
    let before = metrics.clone();
    ViterbiSpiral::renormalize(&mut metrics);
    assert_eq!(metrics, before);
}

#[test]
fn renormalize_subtracts_min_when_above_threshold() {
    let mut metrics = vec![
        RENORMALIZE_THRESHOLD + 2,
        RENORMALIZE_THRESHOLD + 12,
        RENORMALIZE_THRESHOLD + 65,
    ];
    ViterbiSpiral::renormalize(&mut metrics);
    assert_eq!(metrics[0], 0);
    assert_eq!(metrics[1], 10);
    assert_eq!(metrics[2], 63);
}

#[test]
fn new_does_not_panic() {
    let _v = ViterbiSpiral::new(768);
}

#[test]
fn zero_input_produces_zero_output() {
    let mut v = ViterbiSpiral::new(32);
    let input = vec![0i16; required_soft_input_len(32)];
    let mut output = vec![0u8; 32];
    v.deconvolve(&input, &mut output);
    assert!(output.iter().all(|&b| b == 0));
}

#[test]
fn output_is_binary() {
    let mut v = ViterbiSpiral::new(64);
    let input: Vec<i16> = (0..required_soft_input_len(64))
        .map(|i| if i % 3 == 0 { 127 } else { -127 })
        .collect();
    let mut output = vec![0u8; 64];
    v.deconvolve(&input, &mut output);
    assert!(output.iter().all(|&b| b == 0 || b == 1));
}

#[test]
fn different_word_lengths() {
    for wl in [16, 32, 64, 128, 768] {
        let mut v = ViterbiSpiral::new(wl);
        let input = vec![0i16; required_soft_input_len(wl)];
        let mut output = vec![0u8; wl];
        v.deconvolve(&input, &mut output);
    }
}

#[test]
fn strong_encoded_ones() {
    let mut v = ViterbiSpiral::new(32);
    let input = vec![127i16; required_soft_input_len(32)];
    let mut output = vec![0u8; 32];
    v.deconvolve(&input, &mut output);
    assert!(output.iter().all(|&b| b == 0 || b == 1));
}

fn test_encode(bits: &[u8]) -> Vec<i16> {
    let total = bits.len() + K - 1;
    let mut out = Vec::with_capacity(total * RATE);
    let mut state: usize = 0;
    for &bit in bits.iter().chain(std::iter::repeat(&0u8).take(K - 1)) {
        state = ((state << 1) | bit as usize) & (NUM_STATES - 1);
        for &poly in POLYS.iter() {
            let p = parity(state as i32 & poly);
            out.push(if p == 0 { -127i16 } else { 127i16 });
        }
    }
    out
}

#[test]
fn round_trip_all_zeros() {
    let nbits = 32usize;
    let original = vec![0u8; nbits];
    let soft = test_encode(&original);
    assert!(soft.iter().all(|&s| s == -127), "all-zero encoder must produce all -127");

    let mut v = ViterbiSpiral::new(nbits);
    let mut decoded = vec![0u8; nbits];
    v.deconvolve(&soft, &mut decoded);
    assert_eq!(decoded, original, "decoded bits must match original");
}

#[test]
fn round_trip_single_one() {
    let nbits = 32usize;
    let mut original = vec![0u8; nbits];
    original[0] = 1;
    let soft = test_encode(&original);

    let mut v = ViterbiSpiral::new(nbits);
    let mut decoded = vec![0u8; nbits];
    v.deconvolve(&soft, &mut decoded);
    assert_eq!(decoded, original, "decoded bits must match original");
}

#[test]
fn decode_is_stable_across_repeated_calls() {
    let nbits = 32usize;
    let original = vec![0u8; nbits];
    let soft = test_encode(&original);

    let mut v = ViterbiSpiral::new(nbits);
    let mut decoded = vec![0u8; nbits];
    for _ in 0..3 {
        v.deconvolve(&soft, &mut decoded);
        assert_eq!(decoded, original, "result must be stable on repeated calls");
    }
}

#[test]
fn truncated_input_does_not_reuse_previous_symbols() {
    let nbits = 32usize;
    let total_symbols = required_soft_input_len(nbits);

    let mut reused = ViterbiSpiral::new(nbits);
    let mut fresh = ViterbiSpiral::new(nbits);

    let strong = vec![127i16; total_symbols];
    let mut sink = vec![0u8; nbits];
    reused.deconvolve(&strong, &mut sink);

    let truncated = vec![0i16; total_symbols / 3];
    let mut out_reused = vec![0u8; nbits];
    let mut out_fresh = vec![0u8; nbits];
    reused.deconvolve(&truncated, &mut out_reused);
    fresh.deconvolve(&truncated, &mut out_fresh);

    assert_eq!(out_reused, out_fresh, "short input output must not depend on previous decode calls");
}

#[test]
fn calculate_ber_reports_zero_errors_on_clean_codeword() {
    let original = vec![0u8; 32];
    let soft = test_encode(&original);
    let puncture = vec![true; soft.len()];

    let mut v = ViterbiSpiral::new(32);
    let mut decoded = vec![0u8; 32];
    v.deconvolve(&soft, &mut decoded);

    let (bits, errors) = v.calculate_ber(&soft, &puncture, &decoded);
    assert!(bits > 0);
    assert_eq!(errors, 0);
}

#[test]
fn calculate_ber_counts_a_flipped_soft_bit() {
    let original = vec![0u8; 32];
    let mut soft = test_encode(&original);
    soft[5] = 127;
    let puncture = vec![true; soft.len()];

    let v = ViterbiSpiral::new(32);
    let (bits, errors) = v.calculate_ber(&soft, &puncture, &original);
    assert_eq!(bits, soft.len());
    assert_eq!(errors, 1);
}

#[test]
fn clean_codewords_of_random_messages_decode_to_the_message() {
    let mut rng = Lcg::new(0x5eed);
    for &nbits in &[1usize, 7, 64, 768, 3000] {
        let message: Vec<u8> = (0..nbits).map(|_| (rng.next_u32() >> 31) as u8).collect();
        let coded = conv_encode(&message);
        let soft: Vec<i16> = coded.iter().map(|&b| if b == 1 { 127 } else { -127 }).collect();
        let mut v = ViterbiSpiral::new(nbits);
        let mut decoded = vec![0u8; nbits];
        v.deconvolve(&soft, &mut decoded);
        assert_eq!(decoded, message, "message of {nbits} bits");
    }
}

#[test]
fn clean_codewords_of_random_messages_show_no_bit_errors() {
    let mut rng = Lcg::new(77);
    let nbits = 500usize;
    let message: Vec<u8> = (0..nbits).map(|_| (rng.next_u32() >> 31) as u8).collect();
    let soft: Vec<i16> = conv_encode(&message).iter().map(|&b| if b == 1 { 127 } else { -127 }).collect();
    let puncture: Vec<bool> = (0..soft.len()).map(|q| q % 3 != 1).collect();
    let v = ViterbiSpiral::new(nbits);
    let (bits, errors) = v.calculate_ber(&soft, &puncture, &message);
    assert_eq!(bits, puncture.iter().filter(|&&p| p).count());
    assert_eq!(errors, 0);
}
