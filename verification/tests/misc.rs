use dabctl::band::{frequency, frequency_of_upper};
use dabctl::bits::BAND_III;
use dabctl::dab_params::DabParams;
use dabctl::freq_interleaver::{carrier_map, FreqInterleaver};
use dabctl::gain::eti_cmdline_gain_selection;
use dabctl::pcm::{encode_s16le, frame_queued, PcmWriter, SendOutcome};
use dabctl::percentile::{percentile95, percentile95_from_histogram};
use dabctl::phase_table::PhaseTable;
use dabctl::pool::{count_unshared, SubchannelPool};
use dabctl::types::{DabBand, DabChannel, DabConfig, DabMode, FftSize, SyncState};
use std::collections::HashSet;
use std::sync::Arc;

#[test]
fn mode1_size() {
    let params = DabParams::new(1);
    let fi = FreqInterleaver::new(&params);
    for i in 0..params.k as usize {
        let _mapped = fi.map_in(i);
    }
}

#[test]
fn mode1_range() {
    let params = DabParams::new(1);
    let fi = FreqInterleaver::new(&params);
    let half_k = params.k / 2;
    for i in 0..params.k as usize {
        let m = fi.map_in(i);
        assert!(m >= -half_k && m <= half_k, "map_in({}) = {} out of range", i, m);
        assert_ne!(m, 0, "DC carrier should never appear");
    }
}

#[test]
fn mode1_no_duplicates() {
    let params = DabParams::new(1);
    let fi = FreqInterleaver::new(&params);
    let k = params.k as usize;
    let mut seen = HashSet::new();
    for i in 0..k {
        let m = fi.map_in(i);
        assert!(seen.insert(m), "Duplicate mapping at index {}: {}", i, m);
    }
    assert_eq!(seen.len(), k);
}

#[test]
fn all_modes() {
    for mode in [1, 2, 3, 4] {
        let params = DabParams::new(mode);
        let fi = FreqInterleaver::new(&params);
        let mut set = HashSet::new();
        for i in 0..params.k as usize {
            set.insert(fi.map_in(i));
        }
        assert_eq!(set.len(), params.k as usize, "Mode {} should have K unique mappings", mode);
    }
}

#[test]
fn interleaver_first_entries_mode1() {
    // π(1) = 511, π(2) = (13·511 + 511) mod 2048 = 1010, π(3) = 1353:
    // the first carriers are 511 − 1024, 1010 − 1024 and 1353 − 1024.
    let params = DabParams::new(1);
    let fi = FreqInterleaver::new(&params);
    assert_eq!(fi.len(), 1536);
    assert_eq!(fi.map_in(0), -513);
    assert_eq!(fi.map_in(1), -14);
    assert_eq!(fi.map_in(2), 329);
}

#[test]
fn test_dab_mode_properties() {
    assert_eq!(DabMode::ModeI.fft_size(), 2048);
    assert_eq!(DabMode::ModeI.cyclic_prefix_len(), 504);
    assert_eq!(DabMode::ModeII.fft_size(), 512);
}

#[test]
fn test_dab_channel_creation() {
    let ch = DabChannel::new("11C".to_string(), DabBand::BandIII, 223936000);
    assert_eq!(ch.name, "11C");
    assert_eq!(ch.frequency_hz, 223936000);
}

#[test]
fn test_sync_state_display() {
    assert_eq!(SyncState::Synced.label(), "Synced");
}

#[test]
fn test_dab_config_default() {
    let config = DabConfig::default();
    assert_eq!(config.channel, "11C");
    assert_eq!(config.gain_percent, 50);
    assert!(!config.silent);
}

#[test]
fn channel_from_string_keeps_name() {
    let (name, f) = DabChannel::from_string("5A").unwrap();
    assert_eq!(name, "5A");
    assert_eq!(f, 0);
    assert_eq!(FftSize::Size1024.as_usize(), 1024);
    assert_eq!(DabMode::ModeIV.label(), "Mode IV");
}

#[test]
fn mode_sizes_agree_with_mode_parameters() {
    let modes = [
        (DabMode::ModeI, 1u8, 2048u16, 504u16, 76u16),
        (DabMode::ModeII, 2, 512, 126, 76),
        (DabMode::ModeIII, 3, 256, 63, 153),
        (DabMode::ModeIV, 4, 1024, 252, 76),
    ];
    for (mode, number, fft, guard, symbols) in modes {
        let params = DabParams::new(number);
        assert_eq!(mode.fft_size(), fft);
        assert_eq!(mode.cyclic_prefix_len(), guard);
        assert_eq!(mode.symbols_per_frame(), symbols);
        assert_eq!(mode.fft_size() as i16, params.t_u);
        assert_eq!(mode.cyclic_prefix_len() as i16, params.t_g);
        assert_eq!(mode.symbols_per_frame() as i16, params.l);
    }
}

#[test]
fn acquire_returns_correct_length() {
    let mut pool = SubchannelPool::new(4, 512);
    let buf = pool.acquire(192);
    assert_eq!(buf.len(), 192);
}

#[test]
fn acquire_initializes_to_zero() {
    let mut pool = SubchannelPool::new(4, 512);
    let buf = pool.acquire(64);
    assert!(buf.iter().all(|&b| b == 0));
}

#[test]
fn slot_is_recycled_after_drop() {
    let mut pool = SubchannelPool::new(2, 512);
    assert_eq!(pool.free_count(), 2);
    let b1 = pool.acquire(128);
    drop(b1);
    assert_eq!(pool.free_count(), 2, "slot should be free after Arc drop");
}

#[test]
fn multiple_different_sized_acquires() {
    let mut pool = SubchannelPool::new(8, 1024);
    let bufs: Vec<Arc<[u8]>> = (0..8).map(|i| pool.acquire(64 * (i + 1))).collect();
    for (i, buf) in bufs.iter().enumerate() {
        assert_eq!(buf.len(), 64 * (i + 1));
    }
}

#[test]
fn fallback_allocation_when_pool_exhausted() {
    let mut pool = SubchannelPool::new(2, 512);
    let results: Vec<Arc<[u8]>> = (0..5).map(|_| pool.acquire(128)).collect();
    assert_eq!(results.len(), 5);
    for buf in &results {
        assert_eq!(buf.len(), 128);
    }
}

#[test]
fn capacity_matches_constructor() {
    let pool = SubchannelPool::new(16, 384);
    assert_eq!(pool.capacity(), 16);
}

#[test]
fn arc_data_is_independent_of_pool() {
    let mut pool = SubchannelPool::new(2, 512);
    let buf = pool.acquire(4);
    drop(pool);
    assert_eq!(buf.len(), 4);
}

#[test]
fn acquire_beyond_slot_capacity_grows() {
    let mut pool = SubchannelPool::new(1, 16);
    let buf = pool.acquire(100);
    assert_eq!(buf.len(), 100);
    assert!(buf.iter().all(|&b| b == 0));
}

#[test]
fn gain_selection_empty_table() {
    assert!(eti_cmdline_gain_selection(&[], 50).is_none());
}

#[test]
fn gain_selection_zero_percent_first_entry() {
    let gains = [0, 10, 20, 30];
    let sel = eti_cmdline_gain_selection(&gains, 0).expect("selection");
    assert_eq!(sel.set_index, 0);
    assert_eq!(sel.effective_index, 0);
    assert_eq!(sel.set_gain_tenth_db, 0);
    assert_eq!(sel.effective_gain_tenth_db, 0);
}

#[test]
fn gain_selection_hundred_percent_last_entry() {
    let gains = [0, 10, 20, 30];
    let sel = eti_cmdline_gain_selection(&gains, 100).expect("selection");
    assert_eq!(sel.set_index, 3);
    assert_eq!(sel.effective_index, 3);
    assert_eq!(sel.set_gain_tenth_db, 30);
}

#[test]
fn gain_selection_over_hundred_clamped() {
    let gains = [0, 10, 20, 30];
    let sel = eti_cmdline_gain_selection(&gains, 250).expect("selection");
    assert_eq!(sel.set_index, 3);
    assert_eq!(sel.effective_index, 3);
}

#[test]
fn gain_selection_midpoint_matches_port_formula() {
    let gains = [0, 14, 20, 29, 37, 43, 49];
    let sel = eti_cmdline_gain_selection(&gains, 50).expect("selection");
    assert_eq!(sel.set_index, 3);
    assert_eq!(sel.effective_index, 3);
    assert_eq!(sel.set_gain_tenth_db, 29);
}

#[test]
fn gain_selection_set_and_effective_can_differ() {
    let gains = [0, 1, 2];
    let sel = eti_cmdline_gain_selection(&gains, 67).expect("selection");
    assert_eq!(sel.set_index, 2);
    assert_eq!(sel.effective_index, 1);
    assert_eq!(sel.set_gain_tenth_db, 2);
    assert_eq!(sel.effective_gain_tenth_db, 1);
}

#[test]
fn gain_selection_monotonic_set_gain() {
    let gains = [0, 10, 20, 30, 40, 50];
    let mut last = i32::MIN;
    for p in 0..=100 {
        let sel = eti_cmdline_gain_selection(&gains, p).expect("selection");
        assert!(sel.set_gain_tenth_db >= last);
        last = sel.set_gain_tenth_db;
    }
}

#[test]
fn gain_selection_monotonic_effective_gain() {
    let gains = [0, 10, 20, 30, 40, 50];
    let mut last = i32::MIN;
    for p in 0..=100 {
        let sel = eti_cmdline_gain_selection(&gains, p).expect("selection");
        assert!(sel.effective_gain_tenth_db >= last);
        last = sel.effective_gain_tenth_db;
    }
}

#[test]
fn i16_to_le_bytes_layout_matches_s16le() {
    assert_eq!(encode_s16le(&[-2i16]), vec![0xFE, 0xFF]);
}

#[test]
fn push_delivers_frame_to_receiver() {
    let (writer, rx) = PcmWriter::new_for_test(10);
    let frame = vec![1i16, 2, 3];
    assert!(writer.push(frame.clone()));
    assert_eq!(rx.recv().unwrap(), frame);
}

#[test]
fn push_preserves_frame_order() {
    let (writer, rx) = PcmWriter::new_for_test(10);
    for i in 0..5i16 {
        assert!(writer.push(vec![i]));
    }
    for i in 0..5i16 {
        assert_eq!(rx.recv().unwrap(), vec![i]);
    }
}

#[test]
fn push_returns_false_when_queue_full() {
    let (writer, _rx) = PcmWriter::new_for_test(2);
    assert!(writer.push(vec![0i16]));
    assert!(writer.push(vec![1i16]));
    assert!(!writer.push(vec![2i16]));
}

#[test]
fn push_returns_false_when_disconnected() {
    let (writer, rx) = PcmWriter::new_for_test(10);
    drop(rx);
    assert!(!writer.push(vec![0i16]));
}

#[test]
fn write_frame_encodes_as_s16le() {
    let samples: &[i16] = &[0x0102i16, -1, i16::MIN, i16::MAX];
    let buf = encode_s16le(samples);
    let expected: Vec<u8> = samples.iter().flat_map(|s| s.to_le_bytes()).collect();
    assert_eq!(buf, expected);
}

#[test]
fn write_frame_empty_slice_produces_no_bytes() {
    let buf = encode_s16le(&[]);
    assert!(buf.is_empty());
}

#[test]
fn send_outcome_maps_to_queued_flag() {
    assert!(frame_queued(SendOutcome::Sent));
    assert!(!frame_queued(SendOutcome::Full));
    assert!(!frame_queued(SendOutcome::Disconnected));
}

#[test]
fn band_iii_frequency_lookup() {
    assert_eq!(frequency(BAND_III, "11C"), 220352000);
    assert_eq!(frequency(BAND_III, "5a"), 174928000);
    assert_eq!(frequency(BAND_III, "13F"), 239200000);
    assert_eq!(frequency(BAND_III, "99Z"), 174928000);
    assert_eq!(frequency(65, "lb"), 1454672000);
    assert_eq!(frequency_of_upper(BAND_III, "12A"), 223936000);
}

#[test]
fn percentile95_of_samples_and_histogram_agree() {
    let samples: Vec<u32> = (0..100).map(|i| (i % 10) as u32).collect();
    assert_eq!(percentile95(&samples), 9);
    assert_eq!(percentile95(&[]), 0);
    let mut hist = vec![0u32; 10];
    for &s in &samples {
        hist[s as usize] += 1;
    }
    assert_eq!(percentile95_from_histogram(&hist, samples.len() as u64), 9);
    assert_eq!(percentile95_from_histogram(&hist, 0), 0);
    assert_eq!(percentile95(&[5, 1, 3]), 5);
    assert_eq!(percentile95_from_histogram(&[0, 1, 0, 1, 0, 1], 3), 5);
}

#[test]
fn phase_table_quarter_turns() {
    let t = PhaseTable::new(1);
    // k = −768: first entry (i = 0, n = 1), h_{0,0} = 0 → 1.
    assert_eq!(t.quarter_turns(-768), Some(1));
    // k = 1: entry (1, 32, 0, 3), h_{0,0} = 0 → 3.
    assert_eq!(t.quarter_turns(1), Some(3));
    // k = 2: h_{0,1} = 2 → 5.
    assert_eq!(t.quarter_turns(2), Some(5));
    assert_eq!(t.quarter_turns(0), None);
    assert_eq!(t.quarter_turns(769), None);
}

#[test]
fn carrier_map_places_negative_carriers_in_upper_half() {
    let map = carrier_map();
    assert_eq!(map.len(), 1536);
    assert_eq!(map[0], 1280);
    assert_eq!(map[767], 2047);
    assert_eq!(map[768], 1);
    assert_eq!(map[1535], 768);
    assert!(!map.contains(&0));
    let mut sorted = map.clone();
    sorted.sort_unstable();
    sorted.dedup();
    assert_eq!(sorted.len(), 1536);
}

#[test]
fn count_unshared_counts_buffers_with_a_single_holder() {
    assert_eq!(count_unshared(&[]), 0);
    assert_eq!(count_unshared(&[1, 2, 1, 0, 3]), 2);
    assert_eq!(count_unshared(&[2, 2]), 0);
}
