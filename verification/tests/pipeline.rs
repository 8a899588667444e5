use dabctl::bits::ChannelData;
use dabctl::dab_frame::DabFrame;
use dabctl::dab_params::DabParams;
use dabctl::fic::FicHandler;
use dabctl::pipeline::{
    adjust_cif_counter, build_msc_descrambler, pack_bits, process_cif_to_frames,
    replicate_fic_across_cifs, subchannel_layout, CifAssembler, FicFrameAssembler, OfdmFrameSync,
    PipelineCore, SyncAction, CU_SIZE,
};
use dabctl::protection::Protection;
use std::sync::mpsc;

#[test]
fn pack_bits_known_pattern() {
    let bits: Vec<u8> = vec![1, 0, 1, 1, 0, 0, 1, 0];
    let mut out = [0u8; 1];
    pack_bits(&bits, &mut out);
    assert_eq!(out[0], 0b10110010);
}

#[test]
fn pack_bits_all_ones() {
    let bits = vec![1u8; 16];
    let mut out = [0u8; 2];
    pack_bits(&bits, &mut out);
    assert_eq!(out, [0xFF, 0xFF]);
}

#[test]
fn pack_bits_all_zeros() {
    let bits = vec![0u8; 8];
    let mut out = [0u8; 1];
    pack_bits(&bits, &mut out);
    assert_eq!(out[0], 0x00);
}

#[test]
fn pipeline_channel_capacity_four() {
    let (tx, rx) = mpsc::sync_channel::<DabFrame>(4);
    for i in 0u8..4 {
        tx.send(DabFrame::new([i; 96], 0, i)).unwrap();
    }
    for i in 0u8..4 {
        let f = rx.recv().unwrap();
        assert_eq!(f.cif_count_lo, i);
    }
}

#[test]
fn cif_counter_no_overflow() {
    assert_eq!(adjust_cif_counter(0, 0, 0), (0, 0));
    assert_eq!(adjust_cif_counter(5, 100, 10), (5, 110));
}

#[test]
fn cif_counter_lo_overflow_increments_hi() {
    assert_eq!(adjust_cif_counter(0, 249, 1), (1, 0));
}

#[test]
fn cif_counter_lo_overflow_large_minor() {
    assert_eq!(adjust_cif_counter(3, 0, 500), (5, 0));
    assert_eq!(adjust_cif_counter(3, 0, 501), (5, 1));
}

#[test]
fn cif_counter_hi_wraps_at_20() {
    assert_eq!(adjust_cif_counter(19, 249, 1), (0, 0));
}

#[test]
fn cif_counter_hi_wraps_correctly_across_20() {
    assert_eq!(adjust_cif_counter(19, 0, 0), (19, 0));
    assert_eq!(adjust_cif_counter(19, 249, 1), (0, 0));
}

#[test]
fn cif_counter_max_values_stay_in_range() {
    let (hi, lo) = adjust_cif_counter(19, 249, 249);
    assert!(hi < 20, "hi={hi} out of range");
    assert!(lo < 250, "lo={lo} out of range");
}

#[test]
fn pack_bits_partial_tail_is_ignored() {
    let bits: Vec<u8> = vec![1, 0, 0, 0, 0, 0, 0, 0, 1];
    let mut out = [0u8; 1];
    pack_bits(&bits, &mut out);
    assert_eq!(out[0], 0b10000000);
}

#[test]
fn msc_descrambler_prefix_matches_reference() {
    let seq = build_msc_descrambler(16);
    assert_eq!(seq, vec![0, 0, 0, 0, 0, 1, 1, 1, 1, 0, 1, 1, 1, 1, 1, 0]);
}

#[test]
fn subchannel_layout_uses_cu_and_bitrate_units() {
    let data = ChannelData { in_use: true, id: 7, start_cu: 3, uep_flag: false, protlev: 0, size: 8, bitrate: 32 };
    let layout = subchannel_layout(&data);
    assert_eq!(layout.start, 3 * CU_SIZE);
    assert_eq!(layout.size, 8 * CU_SIZE);
    assert_eq!(layout.out_size, 32 * 24);
    assert_eq!(layout.byte_size, 32 * 24 / 8);
}

#[test]
fn pack_bits_empty_input_produces_no_output() {
    let bits: Vec<u8> = vec![];
    let mut out = [0u8; 0];
    pack_bits(&bits, &mut out);
}

#[test]
fn decoded_fic_four_chunks_are_preserved_per_cif_slot() {
    let mut bits = vec![0u8; 768 * 4];
    for (i, bit) in bits[0..768].iter_mut().enumerate() {
        *bit = (i % 2) as u8;
    }
    for (i, bit) in bits[768..1536].iter_mut().enumerate() {
        *bit = ((i / 2) % 2) as u8;
    }
    for bit in &mut bits[1536..2304] {
        *bit = 1;
    }
    let slots = replicate_fic_across_cifs(&bits);
    assert_ne!(slots[0], slots[1]);
    assert_ne!(slots[1], slots[2]);
    assert_ne!(slots[2], slots[3]);
}

#[test]
fn process_cif_to_frames_ignores_unused_channels() {
    let params = DabParams::new(1);
    let fic_handler = FicHandler::new(&params);
    let mut prot_table: Vec<Option<Protection>> = (0..64).map(|_| None).collect();
    let mut descrambler: Vec<Option<Vec<u8>>> = (0..64).map(|_| None).collect();
    let frames = process_cif_to_frames(
        &vec![0i16; 18 * 2 * params.get_carriers()],
        &fic_handler,
        &mut prot_table,
        &mut descrambler,
    );
    assert!(frames.is_empty());
}

const L: i16 = 76;

#[test]
fn sync_normal_sequence_produces_process() {
    let mut s = OfdmFrameSync::new(L);
    for blkno in 2..=L {
        assert_eq!(s.advance(blkno), SyncAction::Process, "blkno={blkno}");
    }
    assert_eq!(s.advance(2), SyncAction::Process);
}

#[test]
fn sync_first_mismatch_emits_sync_lost() {
    let mut s = OfdmFrameSync::new(L);
    assert_eq!(s.advance(2), SyncAction::Process);
    assert_eq!(s.advance(99), SyncAction::SyncLost);
}

#[test]
fn sync_second_mismatch_while_resyncing_emits_discard() {
    let mut s = OfdmFrameSync::new(L);
    s.advance(2);
    s.advance(99);
    assert_eq!(s.advance(3), SyncAction::Discard);
    assert_eq!(s.advance(50), SyncAction::Discard);
}

#[test]
fn sync_block_2_while_resyncing_emits_sync_restored() {
    let mut s = OfdmFrameSync::new(L);
    s.advance(2);
    s.advance(99);
    s.advance(5);
    assert_eq!(s.advance(2), SyncAction::SyncRestored);
}

#[test]
fn sync_resumes_normal_after_restored() {
    let mut s = OfdmFrameSync::new(L);
    s.advance(2);
    s.advance(99);
    s.advance(2);
    assert_eq!(s.advance(3), SyncAction::Process);
    assert_eq!(s.advance(4), SyncAction::Process);
}

#[test]
fn sync_only_one_sync_lost_per_loss_event() {
    let mut s = OfdmFrameSync::new(L);
    s.advance(2);
    let first = s.advance(99);
    assert_eq!(first, SyncAction::SyncLost);

    let mut lost_count = 0u32;
    for blkno in [10, 20, 30, 40, 50, 60, 70] {
        match s.advance(blkno) {
            SyncAction::SyncLost => lost_count += 1,
            SyncAction::Discard => {}
            other => panic!("unexpected action {other:?}"),
        }
    }
    assert_eq!(lost_count, 0, "SyncLost must fire only once per loss event");
}

#[test]
fn sync_counter_wraps_at_l() {
    let mut s = OfdmFrameSync::new(L);
    for blkno in 2..=L {
        assert_eq!(s.advance(blkno), SyncAction::Process);
    }
    assert_eq!(s.advance(2), SyncAction::Process);
    assert_eq!(s.advance(3), SyncAction::Process);
}

#[test]
fn interleave_map_delay_zero_at_lane_zero() {
    let interleave_map: [usize; 16] = [0, 8, 4, 12, 2, 10, 6, 14, 1, 9, 5, 13, 3, 11, 7, 15];
    assert_eq!(interleave_map[0], 0, "lane 0 must have delay 0 (ETSI EN 300 401 §12.3)");
}

#[test]
fn interleave_map_is_permutation_of_0_to_15() {
    let interleave_map: [usize; 16] = [0, 8, 4, 12, 2, 10, 6, 14, 1, 9, 5, 13, 3, 11, 7, 15];
    let mut sorted = interleave_map;
    sorted.sort();
    assert_eq!(sorted.to_vec(), (0..16).collect::<Vec<usize>>(), "interleave_map must be a permutation of 0..=15");
}

#[test]
fn time_deinterleave_d0_returns_current_frame_data() {
    let interleave_map: [usize; 16] = [0, 8, 4, 12, 2, 10, 6, 14, 1, 9, 5, 13, 3, 11, 7, 15];
    let n = 32usize;
    let mut cif_vector = vec![vec![0i16; n]; 16];
    let mut temp = vec![0i16; n];
    let index_out = 0usize;
    cif_vector[0].fill(-1);
    let cif_in: Vec<i16> = (100..100 + n as i16).collect();
    for i in 0..n {
        let idx = interleave_map[i & 0x0F];
        cif_vector[index_out & 0x0F][i] = cif_in[i];
        temp[i] = cif_vector[(index_out + idx) & 0x0F][i];
    }
    for i in (0..n).step_by(16) {
        assert_eq!(temp[i], cif_in[i], "D=0 at position {i}: expected {} (current frame), got {}", cif_in[i], temp[i]);
    }
}

#[test]
fn time_deinterleave_buggy_read_before_write_returns_stale_data() {
    let interleave_map: [usize; 16] = [0, 8, 4, 12, 2, 10, 6, 14, 1, 9, 5, 13, 3, 11, 7, 15];
    let n = 16usize;
    let mut cif_vector = vec![vec![0i16; n]; 16];
    let mut temp_buggy = vec![0i16; n];
    let index_out = 0usize;
    cif_vector[0].fill(-1);
    let cif_in: Vec<i16> = (100..100 + n as i16).collect();
    for i in 0..n {
        let idx = interleave_map[i & 0x0F];
        temp_buggy[i] = cif_vector[(index_out + idx) & 0x0F][i];
        cif_vector[index_out & 0x0F][i] = cif_in[i];
    }
    assert_ne!(temp_buggy[0], cif_in[0], "buggy order must NOT return current-frame value at D=0");
    assert_eq!(temp_buggy[0], -1, "buggy order must return the stale sentinel at D=0");
}

#[test]
fn time_deinterleave_non_zero_delay_reads_history() {
    let interleave_map: [usize; 16] = [0, 8, 4, 12, 2, 10, 6, 14, 1, 9, 5, 13, 3, 11, 7, 15];
    let n = 16usize;
    let mut cif_vector = vec![vec![0i16; n]; 16];
    let mut temp = vec![0i16; n];
    for frame in 0usize..9 {
        let index_out = frame & 0x0F;
        let frame_value = frame as i16 * 10;
        let cif_in = vec![frame_value; n];
        for i in 0..n {
            let idx = interleave_map[i & 0x0F];
            cif_vector[index_out][i] = cif_in[i];
            temp[i] = cif_vector[(index_out + idx) & 0x0F][i];
        }
    }
    assert_eq!(temp[1], 0, "D=8 after 9 frames: expected frame-0 value (0), got {}", temp[1]);
}

#[test]
fn time_deinterleave_max_delay_15_reads_oldest_frame() {
    let interleave_map: [usize; 16] = [0, 8, 4, 12, 2, 10, 6, 14, 1, 9, 5, 13, 3, 11, 7, 15];
    assert_eq!(interleave_map[15], 15, "sanity: lane 15 must have delay 15");
    let n = 16usize;
    let mut cif_vector = vec![vec![0i16; n]; 16];
    let mut temp = vec![0i16; n];
    for frame in 0usize..16 {
        let index_out = frame & 0x0F;
        let frame_value = frame as i16 * 10;
        let cif_in = vec![frame_value; n];
        for i in 0..n {
            let idx = interleave_map[i & 0x0F];
            cif_vector[index_out][i] = cif_in[i];
            temp[i] = cif_vector[(index_out + idx) & 0x0F][i];
        }
    }
    assert_eq!(temp[15], 140, "D=15 after 16 frames: expected 140 (frame 14 value), got {}", temp[15]);
}

#[test]
fn cif_assembler_waits_for_interleaver_history_before_emitting() {
    let params = DabParams::new(1);
    let bits_per_block = 2 * params.get_carriers();
    let mut assembler = CifAssembler::new(bits_per_block);
    assembler.update_cif_counter(2, 17);
    for warmup_index in 0..15 {
        let frame = assembler.finish_cif(&vec![warmup_index; 18 * bits_per_block]);
        assert!(frame.is_none(), "warmup CIF {warmup_index} should not emit yet");
    }
    let frame = assembler
        .finish_cif(&vec![123; 18 * bits_per_block])
        .expect("frame should emit after history is full");
    assert_eq!(frame.cif_count_hi, 2);
    assert_eq!(frame.cif_count_lo, 17);
}

#[test]
fn cif_assembler_propagates_sync_loss_only_once() {
    let params = DabParams::new(1);
    let bits_per_block = 2 * params.get_carriers();
    let mut assembler = CifAssembler::new(bits_per_block);
    assembler.update_cif_counter(0, 0);
    for _ in 0..15 {
        let _ = assembler.finish_cif(&vec![0; 18 * bits_per_block]);
    }
    assembler.note_sync_loss();
    let first = assembler.finish_cif(&vec![1; 18 * bits_per_block]).expect("first post-loss CIF should emit");
    assert!(first.sync_lost);
    let second = assembler.finish_cif(&vec![2; 18 * bits_per_block]).expect("next CIF should also emit");
    assert!(!second.sync_lost);
}

#[test]
fn fic_frame_assembler_marks_frame_complete_only_on_block_four() {
    let mut assembler = FicFrameAssembler::new(8);
    assert!(!assembler.store_block(2, &[1; 8], 8));
    assert!(!assembler.store_block(3, &[2; 8], 8));
    assert!(assembler.store_block(4, &[3; 8], 8));
}

#[test]
fn fic_frame_assembler_places_blocks_in_order() {
    let mut assembler = FicFrameAssembler::new(4);
    let first = [1, 1, 1, 1];
    let second = [2, 2, 2, 2];
    let third = [3, 3, 3, 3];
    assembler.store_block(2, &first, 4);
    assembler.store_block(3, &second, 4);
    assembler.store_block(4, &third, 4);
    let combined = assembler.current_bits();
    assert_eq!(&combined[0..4], &first);
    assert_eq!(&combined[4..8], &second);
    assert_eq!(&combined[8..12], &third);
}

#[test]
fn cif_counter_advances_with_each_emitted_frame() {
    let bits_per_block = 8;
    let mut assembler = CifAssembler::new(bits_per_block);
    assembler.update_cif_counter(1, 248);
    for _ in 0..15 {
        assert!(assembler.finish_cif(&vec![0; 18 * bits_per_block]).is_none());
    }
    let counters: Vec<(u8, u8)> = (0..3)
        .map(|_| {
            let f = assembler.finish_cif(&vec![0; 18 * bits_per_block]).unwrap();
            (f.cif_count_hi, f.cif_count_lo)
        })
        .collect();
    assert_eq!(counters, vec![(1, 248), (1, 249), (2, 0)]);
}

#[test]
fn pipeline_core_routes_blocks_and_reports_sync_loss() {
    let params = DabParams::new(1);
    let mut core = PipelineCore::new(&params);
    let block = vec![0i16; 2 * params.get_carriers()];
    let o = core.handle_block(2, &block, false);
    assert_eq!(o.action, SyncAction::Process);
    assert!(o.frame.is_none());
    let o = core.handle_block(3, &block, false);
    assert_eq!(o.action, SyncAction::Process);
    let o = core.handle_block(4, &block, false);
    assert_eq!(o.action, SyncAction::Process);
    assert_eq!(o.fic_counts.map(|c| c.1), Some(12));
    let o = core.handle_block(9, &block, false);
    assert_eq!(o.action, SyncAction::SyncLost);
    let o = core.handle_block(6, &block, false);
    assert_eq!(o.action, SyncAction::Discard);
    let o = core.handle_block(2, &block, false);
    assert_eq!(o.action, SyncAction::SyncRestored);
}
