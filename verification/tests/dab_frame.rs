use dabctl::dab_frame::DabFrame;
use std::sync::mpsc;
use std::sync::Arc;

#[test]
fn new_frame_has_correct_fic_length() {
    // FIC = 3 FIBs × 32 bytes = 96 bytes (Mode I)
    let frame = DabFrame::new([0xAB; 96], 0, 0);
    assert_eq!(frame.fic_data.len(), 96);
    assert!(frame.fic_data.iter().all(|&b| b == 0xAB));
}

#[test]
fn cif_counters_stored_correctly() {
    let frame = DabFrame::new([0u8; 96], 3, 117);
    assert_eq!(frame.cif_count_hi, 3);
    assert_eq!(frame.cif_count_lo, 117);
}

#[test]
fn push_and_lookup_subchannel() {
    let payload: Arc<[u8]> = Arc::from(vec![1u8, 2, 3, 4].as_slice());
    let mut frame = DabFrame::new([0u8; 96], 0, 0);
    frame.push_subchannel(5, payload.clone());

    let found = frame.subchannel_data(5).expect("subchid 5 must be present");
    assert_eq!(found.as_ref(), &[1u8, 2, 3, 4]);
    assert!(frame.subchannel_data(6).is_none());
}

#[test]
fn subchid_range_none_for_unknown() {
    // sub-channel ids are 0..63
    let frame = DabFrame::new([0u8; 96], 0, 0);
    for id in [0u8, 63, 64, 255] {
        assert!(frame.subchannel_data(id).is_none());
    }
}

#[test]
fn small_vec_stays_on_stack_for_eight_subchannels() {
    let mut frame = DabFrame::new([0u8; 96], 0, 0);
    for id in 0u8..8 {
        let data: Arc<[u8]> = Arc::from(vec![id; 4].as_slice());
        frame.push_subchannel(id, data);
    }
    assert!(!frame.subchannels.spilled(), "SmallVec must not spill for 8 sub-channels");
    assert_eq!(frame.subchannels.len(), 8);
}

#[test]
fn arc_data_zero_copy_across_clones() {
    let payload: Arc<[u8]> = Arc::from(vec![0xFFu8; 576].as_slice());
    let mut frame = DabFrame::new([0u8; 96], 0, 0);
    frame.push_subchannel(0, payload.clone());

    // The two Arc instances point to the same allocation
    let retrieved = frame.subchannel_data(0).unwrap();
    assert!(Arc::ptr_eq(retrieved, &payload));
}

#[test]
fn frame_sent_over_mpsc_channel() {
    let payload: Arc<[u8]> = Arc::from(vec![42u8; 192].as_slice());
    let (tx, rx) = mpsc::sync_channel::<DabFrame>(4);

    let mut frame = DabFrame::new([0xCD; 96], 1, 42);
    frame.push_subchannel(7, payload.clone());
    tx.send(frame).unwrap();

    let received = rx.recv().unwrap();
    assert_eq!(received.cif_count_hi, 1);
    assert_eq!(received.cif_count_lo, 42);
    assert_eq!(received.fic_data[0], 0xCD);

    let data = received.subchannel_data(7).unwrap();
    assert_eq!(data.len(), 192);
    assert!(data.iter().all(|&b| b == 42));
}

#[test]
fn multiple_frames_sent_in_order() {
    let (tx, rx) = mpsc::sync_channel::<DabFrame>(4);
    for i in 0u8..4 {
        tx.send(DabFrame::new([i; 96], 0, i)).unwrap();
    }
    for i in 0u8..4 {
        let f = rx.recv().unwrap();
        assert_eq!(f.cif_count_lo, i);
        assert!(f.fic_data.iter().all(|&b| b == i));
    }
}

#[test]
fn subchannel_lookup_returns_first_entry_for_repeated_id() {
    let mut frame = DabFrame::new([0u8; 96], 0, 0);
    frame.push_subchannel(3, Arc::from(vec![1u8].as_slice()));
    frame.push_subchannel(3, Arc::from(vec![2u8].as_slice()));
    assert_eq!(frame.subchannel_data(3).unwrap().as_ref(), &[1u8]);
    assert_eq!(frame.subchannels.len(), 2);
    assert!(!frame.sync_lost);
}

#[test]
fn nine_subchannels_spill_to_the_heap() {
    let mut frame = DabFrame::new([0u8; 96], 0, 0);
    for id in 0u8..9 {
        frame.push_subchannel(id, Arc::from(vec![id].as_slice()));
    }
    assert!(frame.subchannels.spilled());
    assert_eq!(frame.subchannels.get(8).subchid, 8);
}
