use dabctl::interleave::{interleave_delay, CifInterleaver, TimeDeInterleaver, DEPTH, INTERLEAVE_DELAYS};

#[test]
fn returns_none_before_primed() {
    let mut ci = CifInterleaver::new();
    for _ in 0..15 {
        assert!(ci.push_and_interleave(&[1, 2, 3, 4]).is_none());
    }
}

#[test]
fn returns_some_after_primed() {
    let mut ci = CifInterleaver::new();
    for i in 0..16u8 {
        let result = ci.push_and_interleave(&[i; 8]);
        if i < 15 {
            assert!(result.is_none());
        } else {
            let out = result.expect("must produce output on 16th push");
            assert_eq!(out.len(), 8);
        }
    }
}

#[test]
fn output_length_matches_input() {
    let mut ci = CifInterleaver::new();
    for i in 0..20u8 {
        let payload = vec![i; 32];
        if let Some(out) = ci.push_and_interleave(&payload) {
            assert_eq!(out.len(), 32);
        }
    }
}

#[test]
fn correct_delay_per_lane() {
    let mut ci = CifInterleaver::new();
    let mut results = Vec::new();
    for frame in 0u8..20 {
        let payload = [frame; 16];
        if let Some(out) = ci.push_and_interleave(&payload) {
            results.push((frame, out));
        }
    }
    for (frame, out) in &results {
        for lane in 0..16usize {
            let delay = INTERLEAVE_DELAYS[lane] as u8;
            let expected = frame.saturating_sub(delay);
            assert_eq!(out[lane], expected, "lane {lane}: expected frame {expected}, got {}", out[lane]);
        }
    }
}

#[test]
fn warmup_returns_false_for_first_15_cifs() {
    let size = 32;
    let mut d = TimeDeInterleaver::new(size);
    let cif = vec![0i16; size];
    let mut out = vec![0i16; size];
    for k in 0..15 {
        assert!(!d.push_cif(&cif, &mut out), "push_cif should return false during warm-up (CIF {})", k);
    }
    assert!(d.push_cif(&cif, &mut out));
}

#[test]
fn is_ready_after_warmup() {
    let size = 16;
    let mut d = TimeDeInterleaver::new(size);
    let cif = vec![0i16; size];
    let mut out = vec![0i16; size];
    assert!(!d.is_ready());
    for _ in 0..15 {
        d.push_cif(&cif, &mut out);
    }
    assert!(!d.is_ready());
    d.push_cif(&cif, &mut out);
    assert!(d.is_ready());
}

#[test]
fn delay_zero_positions_read_current_cif() {
    let size = 32;
    let mut d = TimeDeInterleaver::new(size);
    let mut out = vec![0i16; size];
    let zeros = vec![0i16; size];
    for _ in 0..15 {
        d.push_cif(&zeros, &mut out);
    }
    let mut cif = vec![0i16; size];
    for i in (0..size).step_by(DEPTH) {
        cif[i] = 42;
    }
    assert!(d.push_cif(&cif, &mut out));
    for i in (0..size).step_by(DEPTH) {
        assert_eq!(out[i], 42, "delay-0 position {}: expected 42, got {}", i, out[i]);
    }
}

#[test]
fn slot_offset_8_reads_value_from_8_cifs_ago() {
    let size = 32;
    let mut d = TimeDeInterleaver::new(size);
    let mut out = vec![0i16; size];
    let zeros = vec![0i16; size];
    for _ in 0..7 {
        d.push_cif(&zeros, &mut out);
    }
    let mut special = vec![0i16; size];
    for i in 0..size {
        if i % DEPTH == 1 {
            special[i] = 77;
        }
    }
    d.push_cif(&special, &mut out);
    for _ in 0..7 {
        d.push_cif(&zeros, &mut out);
    }
    assert!(d.push_cif(&zeros, &mut out));
    for i in 0..size {
        if i % DEPTH == 1 {
            assert_eq!(out[i], 77, "slot_offset=8 position {}: expected 77, got {}", i, out[i]);
        }
    }
}

#[test]
fn all_sixteen_slot_offsets_map_to_distinct_ring_slots() {
    let size = DEPTH;
    let mut d = TimeDeInterleaver::new(size);
    let mut out = vec![0i16; size];
    for k in 0i16..DEPTH as i16 {
        let cif = vec![k; size];
        d.push_cif(&cif, &mut out);
    }
    for i in 0..size {
        let expected = ((15 + interleave_delay(i % DEPTH)) % DEPTH) as i16;
        assert_eq!(out[i], expected, "position {}: expected {} got {}", i, expected, out[i]);
    }
    let slots: std::collections::HashSet<i16> = out.iter().copied().collect();
    assert_eq!(slots.len(), DEPTH, "read slots must be a permutation of 0..15");
}

#[test]
fn reset_clears_ring_and_warmup() {
    let size = 16;
    let mut d = TimeDeInterleaver::new(size);
    let mut out = vec![0i16; size];
    let cif = vec![99i16; size];
    for _ in 0..16 {
        d.push_cif(&cif, &mut out);
    }
    assert!(d.is_ready());
    d.reset();
    assert!(!d.is_ready());
    let zeros = vec![0i16; size];
    for k in 0..15 {
        assert!(!d.push_cif(&zeros, &mut out), "should be in warm-up after reset (CIF {})", k);
    }
    assert!(d.push_cif(&zeros, &mut out));
    assert!(out.iter().all(|&v| v == 0), "ring should be zeroed after reset");
}

#[test]
fn delay_zero_stable_across_multiple_frames() {
    let size = 16;
    let mut d = TimeDeInterleaver::new(size);
    let mut out = vec![0i16; size];
    for _ in 0..15 {
        d.push_cif(&vec![0i16; size], &mut out);
    }
    for frame in 0i16..10 {
        let mut cif = vec![0i16; size];
        cif[0] = frame;
        d.push_cif(&cif, &mut out);
        assert_eq!(out[0], frame, "frame {}: delay-0 at pos 0 should be {}", frame, frame);
    }
}

#[test]
fn distinct_cif_sequence_delay_zero_tracks_current() {
    let size = DEPTH;
    let mut d = TimeDeInterleaver::new(size);
    let mut out = vec![0i16; size];
    for k in 0i16..32 {
        let cif = vec![k; size];
        let valid = d.push_cif(&cif, &mut out);
        if valid {
            assert_eq!(out[0], k, "pos 0 delay-0: expected {} got {}", k, out[0]);
        }
    }
}

#[test]
fn default_interleaver_behaves_as_new() {
    let mut a = CifInterleaver::default();
    let mut b = CifInterleaver::new();
    for k in 0..20u8 {
        let payload = [k, k.wrapping_mul(3), 7, 255 - k];
        assert_eq!(a.push_and_interleave(&payload), b.push_and_interleave(&payload));
    }
}
