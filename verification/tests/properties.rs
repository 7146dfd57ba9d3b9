use msgframe::{Message, MessageBuilder};

#[test]
fn round_trip_printable_ascii() {
    let message = MessageBuilder::new()
        .add_header("Host".to_string(), "example".to_string())
        .set_body("payload with spaces, punctuation: []{}!".to_string())
        .build()
        .unwrap();
    let bytes = message.to_bytes().unwrap();
    let back = Message::from_bytes(&bytes).unwrap();
    assert_eq!(back, message);
}

#[test]
fn round_trip_two_headers_any_order() {
    let message = MessageBuilder::new()
        .add_header("A".to_string(), "1".to_string())
        .add_header("B".to_string(), "2".to_string())
        .set_body("x".to_string())
        .build()
        .unwrap();
    // Header iteration order is unspecified: the concatenation is one of
    // the two orders, and the round trip holds either way.
    assert!(message.header == "A: 1B: 2" || message.header == "B: 2A: 1");
    let bytes = message.clone().to_bytes().unwrap();
    let back = Message::from_bytes(&bytes).unwrap();
    assert_eq!(back, message);
}

#[test]
fn decode_safety_on_arbitrary_buffers() {
    // Empty, length 1, and assorted byte patterns: decoding must return
    // without panicking, whatever the bytes.
    assert!(Message::from_bytes(&[]).is_none());
    for b in 0..=255u8 {
        let _ = Message::from_bytes(&[b]);
        let _ = Message::from_bytes(&[b; 3]);
        let _ = Message::from_bytes(&[b; 16]);
        let _ = Message::from_bytes(&[1, 2, b, b, 0, 3, 2, 0, 4]);
    }
    let ramp: Vec<u8> = (0..=255u8).collect();
    let _ = Message::from_bytes(&ramp);
    // every truncation of a well-formed frame
    let frame = MessageBuilder::new()
        .add_header("K".to_string(), "v".to_string())
        .set_body("body".to_string())
        .build()
        .unwrap()
        .to_bytes()
        .unwrap();
    for cut in 0..frame.len() {
        let _ = Message::from_bytes(&frame[..cut]);
    }
}

#[test]
fn builder_overwrite_keeps_last_value() {
    let message = MessageBuilder::new()
        .add_header("K".to_string(), "v1".to_string())
        .add_header("K".to_string(), "v2".to_string())
        .build()
        .unwrap();
    assert_eq!(message.header, "K: v2");
}

#[test]
fn default_body_is_empty() {
    let message = MessageBuilder::new()
        .add_header("K".to_string(), "v".to_string())
        .build()
        .unwrap();
    assert_eq!(message.body, "");
}

#[test]
fn minimum_frame_rejection() {
    assert!(Message::from_bytes(&[]).is_none());
    assert!(Message::from_bytes(&[1]).is_none());
    assert!(Message::from_bytes(&[1, 2]).is_none());
    assert!(Message::from_bytes(&[1, 2, 0]).is_none());
    assert!(Message::from_bytes(&[1, 2, 0, 4]).is_none());
}

#[test]
fn header_length_honesty() {
    // declared header length points past the end of the buffer
    assert!(Message::from_bytes(&[1, 2, 10, 0, 4]).is_none());
    assert!(Message::from_bytes(&[1, 2, 255, 255, 0, 3, 2, 0, 4]).is_none());
}

#[test]
fn concrete_scenario_content_type() {
    let message = MessageBuilder::new()
        .add_header("Content-Type".to_string(), "text/html".to_string())
        .set_body("<html><body><h1>Hello, world!</h1></body></html>".to_string())
        .build()
        .unwrap();
    assert_eq!(message.header, "Content-Type: text/html");
    let bytes = message.to_bytes().unwrap();
    let back = Message::from_bytes(&bytes).unwrap();
    assert_eq!(back.header, "Content-Type: text/html");
    assert_eq!(
        back.body,
        "<html><body><h1>Hello, world!</h1></body></html>"
    );
}

#[test]
fn build_rejects_null_bytes() {
    assert!(MessageBuilder::new()
        .add_header("K\0".to_string(), "v".to_string())
        .build()
        .is_none());
    assert!(MessageBuilder::new()
        .add_header("K".to_string(), "v\0".to_string())
        .build()
        .is_none());
    assert!(MessageBuilder::new()
        .set_body("bo\0dy".to_string())
        .build()
        .is_none());
}

#[test]
fn build_rejects_non_ascii() {
    assert!(MessageBuilder::new()
        .add_header("K".to_string(), "h\u{e9}llo".to_string())
        .build()
        .is_none());
    assert!(MessageBuilder::new()
        .set_body("\u{1f600}".to_string())
        .build()
        .is_none());
}

#[test]
fn round_trip_control_characters_in_body() {
    // Bytes 0x01-0x04 may appear inside the body: it is length-delimited
    // from the frame's end, so the round trip still holds.
    let message = MessageBuilder::new()
        .add_header("K".to_string(), "v".to_string())
        .set_body("\u{1}\u{2}\u{3}\u{4}".to_string())
        .build()
        .unwrap();
    let bytes = message.clone().to_bytes().unwrap();
    let back = Message::from_bytes(&bytes).unwrap();
    assert_eq!(back, message);
}
