use msgframe::{Message, MessageBuilder};

#[test]
fn test_bytes() {
    let message = MessageBuilder::new()
        .add_header("Content-Type".to_string(), "text/html".to_string())
        .set_body("<html><body><h1>Hello, world!</h1></body></html>".to_string())
        .build()
        .unwrap();

    let bytes = message.clone().to_bytes().unwrap();
    println!("{:?}", bytes);
    let message2 = Message::from_bytes(&bytes).unwrap();

    assert_eq!(message, message2);
}

#[test]
fn test_header() {
    let message = [
        1, 2, 20, 0, 82, 101, 113, 117, 101, 115, 116, 45, 68, 97, 116, 97, 58, 32, 112, 104, 97,
        115, 101, 115, 0, 3, 2, 0, 4, 0, 0, 2,
    ]
    .to_vec();

    let end = message.iter().position(|&a| a == 0x4).unwrap();

    let message = message[..end + 1].to_vec();

    let message = Message::from_bytes(&message);

    assert!(message.is_some());

    assert_eq!(
        message,
        Some(Message {
            header: "Request-Data: phases".to_string(),
            body: "".to_string(),
        })
    );
}

#[test]
fn encode_exact_bytes() {
    let message = MessageBuilder::new()
        .add_header("A".to_string(), "b".to_string())
        .build()
        .unwrap();
    assert_eq!(message.header, "A: b");
    // header_len is the header's byte length plus one, little-endian.
    let expected = vec![1, 2, 5, 0, 65, 58, 32, 98, 0, 3, 2, 0, 4];
    assert_eq!(message.to_bytes().unwrap(), expected);
}

#[test]
fn encode_empty_message() {
    let message = MessageBuilder::new().build().unwrap();
    assert_eq!(message.header, "");
    assert_eq!(message.body, "");
    let bytes = message.to_bytes().unwrap();
    assert_eq!(bytes, vec![1, 2, 1, 0, 0, 3, 2, 0, 4]);
    let back = Message::from_bytes(&bytes).unwrap();
    assert_eq!(back, message);
}

#[test]
fn decode_scans_for_body_marker() {
    // The decoder searches for the 0x02 field marker after the header
    // region rather than assuming a fixed offset.
    let bytes = vec![1, 2, 3, 0, 72, 105, 0, 9, 9, 9, 3, 2, 104, 101, 121, 0, 4];
    let message = Message::from_bytes(&bytes).unwrap();
    assert_eq!(message.header, "Hi");
    assert_eq!(message.body, "hey");
}

#[test]
fn decode_rejects_bad_sentinels() {
    // wrong start, wrong second byte, wrong end
    assert!(Message::from_bytes(&[9, 2, 1, 0, 0, 3, 2, 0, 4]).is_none());
    assert!(Message::from_bytes(&[1, 9, 1, 0, 0, 3, 2, 0, 4]).is_none());
    assert!(Message::from_bytes(&[1, 2, 1, 0, 0, 3, 2, 0, 9]).is_none());
}

#[test]
fn decode_rejects_missing_field_marker() {
    // no 0x02 anywhere after the header region
    assert!(Message::from_bytes(&[1, 2, 1, 0, 0, 3, 0, 0, 4]).is_none());
}

#[test]
fn u16_to_u8s_split() {
    assert_eq!(msgframe::u16_to_u8s(0x1234), [0x34, 0x12]);
    assert_eq!(msgframe::u16_to_u8s(7), [7, 0]);
    assert_eq!(msgframe::u16_to_u8s(0xFFFF), [0xFF, 0xFF]);
    assert_eq!(msgframe::u16_to_u8s(0), [0, 0]);
}

#[test]
fn to_bytes_rejects_oversized_header() {
    // The two-byte length field holds the header length plus one; a
    // header of 0xFFFF bytes or more cannot be framed.
    let message = Message {
        header: "a".repeat(0xFFFF),
        body: "".to_string(),
    };
    assert!(message.to_bytes().is_none());
    let just_fits = Message {
        header: "a".repeat(0xFFFE),
        body: "".to_string(),
    };
    assert!(just_fits.to_bytes().is_some());
}
