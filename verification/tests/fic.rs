use dabctl::dab_params::DabParams;
use dabctl::fic::{update_decode_ratio_steps, FicHandler};

#[test]
fn creation_mode1() {
    let params = DabParams::new(1);
    let fh = FicHandler::new(&params);
    assert_eq!(fh.get_fic_quality(), 0);
}

#[test]
fn creation_mode2() {
    let params = DabParams::new(2);
    let _fh = FicHandler::new(&params);
}

#[test]
fn channel_data_initially_unused() {
    let params = DabParams::new(1);
    let fh = FicHandler::new(&params);
    for i in 0..64 {
        assert!(!fh.get_channel_info(i).in_use, "Channel {} should not be in use initially", i);
    }
}

#[test]
fn cif_count_initial() {
    let params = DabParams::new(1);
    let fh = FicHandler::new(&params);
    let (hi, lo) = fh.get_cif_count();
    assert_eq!(hi, -1);
    assert_eq!(lo, -1);
}

#[test]
fn process_zero_block() {
    let params = DabParams::new(1);
    let mut fh = FicHandler::new(&params);
    let bits_per_block = 2 * params.k as usize;
    let data = vec![0i16; bits_per_block * 3];
    let mut out = vec![0u8; 768];
    let mut valid = vec![false; 4];
    fh.process_fic_block(&data, &mut out, &mut valid);
}

#[test]
fn viterbi_block_prealloc_output_is_deterministic() {
    let params = DabParams::new(1);
    let bits_per_block = 2 * params.k as usize;
    let data: Vec<i16> = (0..bits_per_block * 3).map(|i| if i % 2 == 0 { 127 } else { -127 }).collect();

    let mut fh = FicHandler::new(&params);

    let mut out1 = vec![0u8; 768 * 4];
    let mut valid1 = vec![false; 4];
    fh.process_fic_block(&data, &mut out1, &mut valid1);

    let mut out2 = vec![0u8; 768 * 4];
    let mut valid2 = vec![false; 4];
    fh.process_fic_block(&data, &mut out2, &mut valid2);

    assert_eq!(out1, out2, "Pre-allocated buffer must be zeroed before each use");
    assert_eq!(valid1, valid2);
}

#[test]
fn decode_ratio_steps_match_dabstar_leaky_behavior() {
    assert_eq!(update_decode_ratio_steps(0, 3, 3), 3);
    assert_eq!(update_decode_ratio_steps(3, 0, 3), 0);
    assert_eq!(update_decode_ratio_steps(9, 3, 3), 10);
    assert_eq!(update_decode_ratio_steps(5, 2, 3), 6);
}

#[test]
fn get_fib_bits_returns_last_frame_snapshot() {
    let params = DabParams::new(1);
    let mut fh = FicHandler::new(&params);
    let bits_per_block = 2 * params.k as usize;
    let data = vec![0i16; bits_per_block * 3];
    let mut out = vec![0u8; 768 * 4];
    let mut valid = [false; 4];

    fh.process_fic_block(&data, &mut out, &mut valid);

    let mut snapshot = vec![0u8; 768 * 4];
    let mut snapshot_valid = [false; 4];
    fh.get_fib_bits(&mut snapshot, &mut snapshot_valid);

    assert_eq!(snapshot, out);
    assert_eq!(snapshot_valid, valid);
}

#[test]
fn process_fic_block_accepts_four_slot_valid_buffer() {
    let params = DabParams::new(1);
    let mut fh = FicHandler::new(&params);
    let bits_per_block = 2 * params.k as usize;
    let data = vec![0i16; bits_per_block * 3];
    let mut out = vec![0u8; 768];
    let mut valid = [false; 4];
    fh.process_fic_block(&data, &mut out, &mut valid);
    assert_eq!(valid.len(), 4);
}

#[test]
fn stopped_handler_ignores_input_and_restart_resumes() {
    let params = DabParams::new(1);
    let mut fh = FicHandler::new(&params);
    let bits_per_block = 2 * params.k as usize;
    let data = vec![0i16; bits_per_block * 3];
    fh.stop();
    let mut out = vec![7u8; 768 * 4];
    let mut valid = [true; 4];
    let events = fh.process_fic_block(&data, &mut out, &mut valid);
    assert!(events.is_empty());
    assert!(out.iter().all(|&b| b == 7));
    assert_eq!(valid, [true; 4]);
    assert_eq!(fh.get_fic_counts(), (0, 0));

    fh.restart();
    fh.process_fic_block(&data, &mut out, &mut valid);
    // Four codewords of three FIBs each were checked.
    assert_eq!(fh.get_fic_counts().1, 12);
}

#[test]
fn decoded_codeword_is_descrambled_zero_sequence() {
    // An all-zero soft input decodes to all-zero bits; what reaches the
    // buffer is the energy-dispersal sequence itself (00001111011111…).
    let params = DabParams::new(1);
    let mut fh = FicHandler::new(&params);
    let bits_per_block = 2 * params.k as usize;
    let data = vec![0i16; bits_per_block * 3];
    let mut out = vec![0u8; 768 * 4];
    let mut valid = [false; 4];
    fh.process_fic_block(&data, &mut out, &mut valid);
    assert_eq!(&out[..16], &[0, 0, 0, 0, 0, 1, 1, 1, 1, 0, 1, 1, 1, 1, 1, 0]);
    assert_eq!(&out[768..784], &out[..16]);
    assert_eq!(fh.get_fic_quality(), 0);
    assert_eq!(fh.get_fic_decode_ratio_percent(), 0);
}

#[test]
fn negative_success_counts_no_good_fibs() {
    // no up-steps, then total - success = 5 down-steps
    assert_eq!(update_decode_ratio_steps(7, -2, 3), 2);
    assert_eq!(update_decode_ratio_steps(10, -3, 0), 7);
}
