use dabctl::ebu_latin::ebu_to_char;
use dabctl::fib::{parse_fig_header, FibEvent, FibProcessor};
use dabctl::labels::is_valid_label;

#[test]
fn test_ebu_to_char_ascii() {
    assert_eq!(ebu_to_char(b'A'), 'A');
    assert_eq!(ebu_to_char(b' '), ' ');
    assert_eq!(ebu_to_char(b'0'), '0');
}

#[test]
fn test_ebu_to_char_metropolitain() {
    assert_eq!(ebu_to_char(0x82), 'é');
}

#[test]
fn test_ebu_to_char_accented() {
    assert_eq!(ebu_to_char(0x80), 'á');
    assert_eq!(ebu_to_char(0x81), 'à');
    assert_eq!(ebu_to_char(0x83), 'è');
    assert_eq!(ebu_to_char(0x90), 'â');
    assert_eq!(ebu_to_char(0x91), 'ä');
    assert_eq!(ebu_to_char(0x9B), 'ç');
}

#[test]
fn test_ebu_to_char_euro() {
    assert_eq!(ebu_to_char(0xA9), '€');
}

#[test]
fn test_ebu_to_char_7b_7f_range() {
    assert_eq!(ebu_to_char(0x7B), '«');
    assert_eq!(ebu_to_char(0x7D), '»');
    assert_eq!(ebu_to_char(0x7F), 'Ħ');
}

#[test]
fn test_ebu_to_char_ascii_overrides() {
    assert_eq!(ebu_to_char(0x24), 'ł');
    assert_eq!(ebu_to_char(0x5E), 'Ł');
    assert_eq!(ebu_to_char(0x60), 'Ą');
}

fn bytes_to_fib(bytes: &[u8]) -> [u8; 256] {
    let mut fib = [0u8; 256];
    for (byte_idx, &byte) in bytes.iter().enumerate() {
        for bit in 0..8usize {
            fib[byte_idx * 8 + bit] = (byte >> (7 - bit)) & 1;
        }
    }
    fib
}

#[test]
fn fig_header_extracts_type_length_and_flags() {
    let fib = bytes_to_fib(&[0x35, 0x25]);
    let header = parse_fig_header(&fib, 0).expect("header should parse");
    assert_eq!(header.fig_type, 1);
    assert_eq!(header.length, 21);
    assert_eq!(header.extension, 5);
    assert!(!header.oe_flag);
}

#[test]
fn process_fib_type7_end_marker_returns_early() {
    let fib = bytes_to_fib(&[0xE0]);
    let mut p = FibProcessor::new();
    let events = p.process_fib(&fib, 0);
    assert!(events.is_empty(), "no announcement for FIG type 7");
}

#[test]
fn process_fib_oversized_length_does_not_panic() {
    let mut fib = [0u8; 256];
    fib[11] = 1;
    fib[12] = 1;
    fib[13] = 1;
    fib[14] = 1;
    fib[15] = 1;
    FibProcessor::new().process_fib(&fib, 0);
}

#[test]
fn process_fib_ensemble_label_callback_invoked() {
    let label_bytes: [u8; 16] = {
        let mut b = [0u8; 16];
        b[0] = b'N';
        b[1] = b'R';
        b[2] = b'J';
        b
    };
    let mut raw = [0u8; 22];
    raw[0] = 0x35;
    raw[1] = 0x00;
    raw[2] = 0xF0;
    raw[3] = 0x43;
    raw[4..20].copy_from_slice(&label_bytes);
    let mut fig_bytes = raw.to_vec();
    fig_bytes.push(0xE0);
    let fib = bytes_to_fib(&fig_bytes);

    let mut p = FibProcessor::new();
    let events = p.process_fib(&fib, 0);
    let (name, sid) = events
        .iter()
        .find_map(|e| match e {
            FibEvent::EnsembleName { label, eid } => Some((label.clone(), *eid)),
            _ => None,
        })
        .expect("ensemble name was not announced");
    assert_eq!(name, "NRJ", "decoded label mismatch");
    assert_eq!(sid, 0xF043, "decoded SId mismatch");
    assert!(p.is_synced());
}

#[test]
fn valid_label_accepts_normal_ascii() {
    assert!(is_valid_label("NRJ"));
    assert!(is_valid_label("BBC Radio 4"));
}

#[test]
fn valid_label_accepts_ebu_accented() {
    assert!(is_valid_label("Métropole"));
    assert!(is_valid_label("Ö3"));
}

#[test]
fn valid_label_rejects_empty() {
    assert!(!is_valid_label(""));
}

#[test]
fn valid_label_rejects_control_chars() {
    assert!(!is_valid_label("abc\x0cdef"));
    assert!(!is_valid_label("\x01garbage"));
    assert!(!is_valid_label("\x1f"));
}

#[test]
fn process_fib_corrupt_label_not_cached() {
    let mut label_bytes = [0u8; 16];
    label_bytes[0] = b'X';
    label_bytes[1] = 0x0B;
    label_bytes[2] = b'Z';
    let mut raw = [0u8; 22];
    raw[0] = 0x35;
    raw[1] = 0x01;
    raw[2] = 0xAB;
    raw[3] = 0xCD;
    raw[4..20].copy_from_slice(&label_bytes);
    let mut fig_bytes = raw.to_vec();
    fig_bytes.push(0xE0);
    let fib = bytes_to_fib(&fig_bytes);

    let mut p = FibProcessor::new();
    let events = p.process_fib(&fib, 0);
    assert!(
        !events.iter().any(|e| matches!(e, FibEvent::ServiceName { .. })),
        "no service name may be announced for a label with control characters"
    );
}

#[test]
fn process_fib_corrupt_label_32bit_sid_not_cached() {
    let mut label_bytes = [0u8; 16];
    label_bytes[0] = b'D';
    label_bytes[1] = 0x0B;
    label_bytes[2] = b'B';
    let mut raw = [0u8; 24];
    raw[0] = 0x37;
    raw[1] = 0x05;
    raw[2] = 0xB0;
    raw[3] = 0x58;
    raw[4] = 0xE2;
    raw[5] = 0xE3;
    raw[6..22].copy_from_slice(&label_bytes);
    let mut fig_bytes = raw.to_vec();
    fig_bytes.push(0xE0);
    let fib = bytes_to_fib(&fig_bytes);

    let mut p = FibProcessor::new();
    let events = p.process_fib(&fib, 0);
    assert!(
        !events.iter().any(|e| matches!(e, FibEvent::ServiceName { .. })),
        "no service name may be announced for a 32-bit SId label with control characters"
    );
}

#[test]
fn process_fib_service_label_callback_invoked() {
    let label_bytes: [u8; 16] = {
        let mut b = [0u8; 16];
        b[0] = b'N';
        b[1] = b'R';
        b[2] = b'J';
        b
    };
    let mut raw = [0u8; 22];
    raw[0] = 0x35;
    raw[1] = 0x01;
    raw[2] = 0xF2;
    raw[3] = 0xF8;
    raw[4..20].copy_from_slice(&label_bytes);
    let mut fig_bytes = raw.to_vec();
    fig_bytes.push(0xE0);
    let fib = bytes_to_fib(&fig_bytes);

    let mut p = FibProcessor::new();
    let events = p.process_fib(&fib, 0);
    let (name, sid) = events
        .iter()
        .find_map(|e| match e {
            FibEvent::ServiceName { label, sid } => Some((label.clone(), *sid)),
            _ => None,
        })
        .expect("service name was not announced");
    assert_eq!(name, "NRJ", "decoded service name mismatch");
    assert_eq!(sid, 0xF2F8_u32 as i32, "decoded SId mismatch");
}

#[test]
fn process_fib_fig0_2_maps_primary_audio_service() {
    let fib = bytes_to_fib(&[0x06, 0x02, 0xF2, 0x01, 0x01, 0x3F, 0x16, 0xE0]);
    let mut p = FibProcessor::new();
    p.process_fib(&fib, 0);
    let audio = p
        .find_audio_service(0xF201)
        .expect("service mapping must be available after FIG 0/2");
    assert_eq!(audio.subchid, 5);
    assert!(audio.dab_plus);
}

#[test]
fn clear_ensemble_resets_runtime_state() {
    // FIG 0/0 (CIF count 7/42), FIG 0/1 (sub-channel 0), FIG 0/2 (a
    // service), FIG 1/0 (ensemble label), then the end marker.
    let mut bytes = vec![0x05, 0x00, 0xF0, 0x43, 0x07, 0x2A];
    bytes.extend_from_slice(&[0x04, 0x01, 0x00, 0x00, 0x00]);
    bytes.extend_from_slice(&[0x06, 0x02, 0xF2, 0x01, 0x01, 0x3F, 0x16]);
    bytes.push(0xE0);
    let fib1 = bytes_to_fib(&bytes);
    let label = [0x35, 0x00, 0xF0, 0x43, b'N', b'R', b'J', 0, 0, 0, 0, 0, 0, 0, 0, 0, 0, 0, 0, 0, 0, 0, 0xE0];
    let fib2 = bytes_to_fib(&label);
    let mut p = FibProcessor::new();
    p.process_fib(&fib1, 0);
    p.process_fib(&fib2, 0);
    assert_eq!(p.get_cif_count(), (7, 42));
    assert!(p.is_synced());
    assert!(p.get_channel_info(0).in_use);
    assert!(p.find_audio_service(0xF201).is_some());

    p.clear_ensemble();

    assert_eq!(p.get_cif_count(), (-1, -1));
    assert!(!p.is_synced());
    assert!(!p.get_channel_info(0).in_use);
    assert!(p.find_audio_service(0xF201).is_none());
}

#[test]
fn default_fib_processor_starts_empty() {
    let fib = FibProcessor::default();
    assert_eq!(fib.get_cif_count(), (-1, -1));
}
