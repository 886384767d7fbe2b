use udp_chat::message::{be_u8_from_str, string_from_be_u8, Command, Message};

fn frame(id: u32, command: Command, text: &str) -> Vec<u8> {
    Message::with_id(id, command, be_u8_from_str(text)).to_be_bytes()
}

#[test]
fn command_codes_follow_declaration_order() {
    let all = [
        Command::Empty,
        Command::Enter,
        Command::Text,
        Command::Repeat,
        Command::Damaged,
        Command::AskToRepeat,
        Command::Exit,
        Command::Error,
    ];
    for (i, c) in all.iter().enumerate() {
        assert_eq!(c.to_code() as usize, i);
        assert_eq!(Command::from_code(i as u8), *c);
    }
}

#[test]
fn unknown_code_is_error() {
    assert_eq!(Command::from_code(8), Command::Error);
    assert_eq!(Command::from_code(255), Command::Error);
}

#[test]
fn checksum_is_crc16_x25() {
    // The standard check value of CRC-16/IBM-SDLC over "123456789".
    let m = Message::with_id(1, Command::Text, b"123456789".to_vec());
    assert_eq!(m.checksum, 0x906e);
    assert_eq!(Message::with_id(1, Command::Exit, Vec::new()).checksum, 0);
}

#[test]
fn frame_layout_is_big_endian() {
    let m = Message::with_id(0x0102_0304, Command::Text, vec![b'h', b'i']);
    let b = m.to_be_bytes();
    assert_eq!(b.len(), 9);
    assert_eq!(&b[0..4], &[1, 2, 3, 4]);
    assert_eq!(b[4], (m.checksum >> 8) as u8);
    assert_eq!(b[5], m.checksum as u8);
    assert_eq!(b[6], 2);
    assert_eq!(&b[7..], b"hi");
}

#[test]
fn round_trip_keeps_id_command_and_data() {
    for (id, command, text) in [
        (0u32, Command::Enter, "alice"),
        (42, Command::Text, "hello there"),
        (u32::MAX, Command::Repeat, ""),
        (7, Command::Exit, ""),
        (9, Command::Error, "x"),
    ] {
        let m = Message::with_id(id, command, be_u8_from_str(text));
        let d = Message::from_be_bytes(&m.to_be_bytes()).unwrap();
        assert_eq!(d.id, id);
        assert_eq!(d.command, command);
        assert_eq!(d.data, m.data);
        assert_eq!(d.checksum, m.checksum);
    }
}

#[test]
fn single_bit_flip_in_payload_decodes_empty() {
    let good = frame(99, Command::Text, "hello");
    for byte in 7..good.len() {
        for bit in 0..8 {
            let mut bad = good.clone();
            bad[byte] ^= 1 << bit;
            let d = Message::from_be_bytes(&bad).unwrap();
            assert_eq!(d.command, Command::Empty);
            assert!(d.data.is_empty());
            assert_eq!(d.id, 0);
        }
    }
}

#[test]
fn short_frames_do_not_decode() {
    let good = frame(5, Command::Text, "abc");
    for len in 0..7 {
        assert!(Message::from_be_bytes(&good[..len]).is_none());
    }
    assert!(Message::from_be_bytes(&good[..7]).is_some());
}

#[test]
fn header_only_frame_with_zero_checksum_decodes() {
    let d = Message::from_be_bytes(&[0, 0, 0, 1, 0, 0, 6]).unwrap();
    assert_eq!(d.id, 1);
    assert_eq!(d.command, Command::Exit);
    assert!(d.data.is_empty());
}

#[test]
fn ten_bytes_with_wrong_checksum_decode_empty() {
    let payload = [b'a', b'b', b'c'];
    let right = Message::with_id(0, Command::Text, payload.to_vec()).checksum;
    let wrong = right ^ 0x0101;
    let bytes = [
        0,
        0,
        0,
        3,
        (wrong >> 8) as u8,
        wrong as u8,
        2,
        payload[0],
        payload[1],
        payload[2],
    ];
    let d = Message::from_be_bytes(&bytes).unwrap();
    assert_eq!(d.command, Command::Empty);
}

#[test]
fn unknown_command_byte_decodes_to_error() {
    let mut b = frame(3, Command::Text, "x");
    b[6] = 200;
    assert_eq!(Message::from_be_bytes(&b).unwrap().command, Command::Error);
}

#[test]
fn text_is_trimmed_and_loses_control_characters() {
    let m = Message::text("  he\u{7}llo\tworld \n");
    assert_eq!(m.command, Command::Text);
    assert_eq!(m.read_text(), "helloworld");
    assert_eq!(Message::enter(" bob ").data, b"bob".to_vec());
    assert_eq!(Message::enter(" bob ").command, Command::Enter);
    assert!(Message::exit().data.is_empty());
    assert_eq!(Message::exit().command, Command::Exit);
}

#[test]
fn empty_message_is_all_zero() {
    let m = Message::empty();
    assert_eq!(m.id, 0);
    assert_eq!(m.checksum, 0);
    assert_eq!(m.command, Command::Empty);
    assert!(m.data.is_empty());
    assert_eq!(m.to_be_bytes(), vec![0, 0, 0, 0, 0, 0, 0]);
}

#[test]
fn payload_text_falls_back_when_not_utf8() {
    assert_eq!(string_from_be_u8(&[0xff, 0xfe]), "UNKNOWN");
    assert_eq!(string_from_be_u8("ünï".as_bytes()), "ünï");
    assert_eq!(be_u8_from_str("\u{3000}x y\u{a0}"), b"x y".to_vec());
}

#[test]
fn retry_text_keeps_the_given_id() {
    let m = Message::retry_text(77, "again");
    assert_eq!(m.id, 77);
    assert_eq!(m.command, Command::Repeat);
    assert_eq!(m.read_text(), "again");
}

#[test]
fn retry_text_keeps_surrounding_spaces() {
    let m = Message::retry_text(5, " x ");
    assert_eq!(m.data, b" x ".to_vec());
    assert_eq!(m.read_text(), " x ");
}

#[test]
fn stamped_truncates_seconds_to_32_bits() {
    let m = Message::stamped(Some(0x1_0000_0005), Command::Text, b"a".to_vec());
    assert_eq!(m.id, 5);
    assert_eq!(m.data, b"a".to_vec());
    assert_eq!(m.checksum, Message::with_id(0, Command::Text, b"a".to_vec()).checksum);
    assert_eq!(Message::stamped(None, Command::Exit, Vec::new()).id, 0);
    assert_eq!(Message::stamped(Some(1_700_000_000), Command::Exit, Vec::new()).id, 1_700_000_000);
}
