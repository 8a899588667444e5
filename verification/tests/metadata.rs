use dabctl::metadata::{dynamic_label_event, ensemble_event, hex_id, service_event, slide_event, MetadataEvent};

#[test]
fn hex_id_pads_to_four_upper_case_digits() {
    assert_eq!(hex_id(0xF2F8), "0xF2F8");
    assert_eq!(hex_id(0x12), "0x0012");
    assert_eq!(hex_id(0), "0x0000");
    assert_eq!(hex_id(0xabcde), "0xABCDE");
    assert_eq!(hex_id(u32::MAX), "0xFFFFFFFF");
}

#[test]
fn ensemble_and_service_events_carry_hex_ids_and_labels() {
    match ensemble_event(0x10CE, "DAB Ensemble") {
        MetadataEvent::Ensemble { eid, label } => {
            assert_eq!(eid, "0x10CE");
            assert_eq!(label, "DAB Ensemble");
        }
        other => panic!("unexpected event {other:?}"),
    }
    match service_event(0xF2F8, "Radio") {
        MetadataEvent::Service { sid, label } => {
            assert_eq!(sid, "0xF2F8");
            assert_eq!(label, "Radio");
        }
        other => panic!("unexpected event {other:?}"),
    }
}

#[test]
fn dynamic_label_event_keeps_the_text() {
    match dynamic_label_event("hello world") {
        MetadataEvent::DynamicLabel { text } => assert_eq!(text, "hello world"),
        other => panic!("unexpected event {other:?}"),
    }
}

#[test]
fn slide_event_encodes_payload_in_base64_only_when_asked() {
    match slide_event("logo.png", "image/png", b"hello", true) {
        MetadataEvent::Slide { content_name, content_type, data } => {
            assert_eq!(content_name, "logo.png");
            assert_eq!(content_type, "image/png");
            assert_eq!(data.as_deref(), Some("aGVsbG8="));
        }
        other => panic!("unexpected event {other:?}"),
    }
    match slide_event("logo.png", "image/png", b"hello", false) {
        MetadataEvent::Slide { data, .. } => assert_eq!(data, None),
        other => panic!("unexpected event {other:?}"),
    }
    match slide_event("empty", "image/jpeg", b"", true) {
        MetadataEvent::Slide { data, .. } => assert_eq!(data.as_deref(), Some("")),
        other => panic!("unexpected event {other:?}"),
    }
}
