use tcp_monitor::bytes::{push_be, read_be};
use tcp_monitor::protocol::{
    decode_packet, encode_handshake, encode_packet, handshake_length, handshake_name,
    sanitize_peer_name, HandshakeError, Heartbeat, MAX_NAME_BYTES, MAX_NAME_CHARS, PACKET_SIZE,
};
use tcp_monitor::text::{address_text, decimal_text};

#[test]
fn packet_is_big_endian() {
    let bits = 1.5f64.to_bits();
    let packet = encode_packet(0x0102030405060708, bits);
    assert_eq!(PACKET_SIZE, 16);
    assert_eq!(packet, [1, 2, 3, 4, 5, 6, 7, 8, 0x3f, 0xf8, 0, 0, 0, 0, 0, 0]);
    let heartbeat = decode_packet(&packet);
    assert_eq!(heartbeat, Heartbeat { seq: 0x0102030405060708, timestamp: bits });
    assert_eq!(f64::from_bits(heartbeat.timestamp), 1.5);
}

#[test]
fn packets_read_and_write_back() {
    for (seq, timestamp) in [(0, 0), (1, u64::MAX), (u64::MAX, 1700000000.25f64.to_bits())] {
        let packet = encode_packet(seq, timestamp);
        assert_eq!(decode_packet(&packet), Heartbeat { seq, timestamp });
    }
    let bytes = [255, 0, 1, 2, 3, 4, 5, 6, 7, 8, 9, 10, 127, 128, 129, 255];
    let heartbeat = decode_packet(&bytes);
    assert_eq!(encode_packet(heartbeat.seq, heartbeat.timestamp), bytes);
}

#[test]
fn big_endian_numbers() {
    let mut out = vec![9u8];
    push_be(&mut out, 0x01ff, 4);
    assert_eq!(out, [9, 0, 0, 1, 255]);
    assert_eq!(read_be(&out, 1, 5), 0x01ff);
    assert_eq!(read_be(&out, 0, 0), 0);
}

#[test]
fn handshake_of_a_short_name() {
    assert_eq!(encode_handshake("node-a"), b"\x00\x00\x00\x06node-a");
    assert_eq!(encode_handshake(""), [0, 0, 0, 0]);
}

#[test]
fn handshake_of_a_long_name_is_cut() {
    assert_eq!(MAX_NAME_BYTES, 256);
    let name = "x".repeat(300);
    let out = encode_handshake(&name);
    assert_eq!(out.len(), 4 + 256);
    assert_eq!(out[..4], [0, 0, 1, 0]);
    assert!(out[4..].iter().all(|b| *b == b'x'));
    let out = encode_handshake(&"x".repeat(256));
    assert_eq!(out.len(), 4 + 256);
}

#[test]
fn handshake_lengths() {
    assert_eq!(handshake_length(&[0, 0, 0, 0]), Err(HandshakeError::InvalidLength));
    assert_eq!(handshake_length(&[0, 0, 0, 1]), Ok(1));
    assert_eq!(handshake_length(&[0, 0, 1, 0]), Ok(256));
    assert_eq!(handshake_length(&[0, 0, 1, 1]), Err(HandshakeError::InvalidLength));
    assert_eq!(handshake_length(&[255, 255, 255, 255]), Err(HandshakeError::InvalidLength));
}

#[test]
fn handshake_is_read_back() {
    for name in ["node-a", "a", "Zürich_1.lan", "名前"] {
        let out = encode_handshake(name);
        let header = [out[0], out[1], out[2], out[3]];
        let len = handshake_length(&header).unwrap();
        assert_eq!(out.len(), 4 + len);
        assert_eq!(handshake_name(out[4..].to_vec()), name);
    }
}

#[test]
fn long_name_is_cut_between_characters() {
    for (name, len) in [
        (format!("a{}", "\u{e9}".repeat(128)), 255),
        (format!("{}é", "x".repeat(255)), 255),
        (format!("{}é{}", "x".repeat(254), "y"), 256),
        (format!("{}𝄞", "x".repeat(253)), 253),
        (format!("{}𝄞x", "x".repeat(252)), 256),
        ("名".repeat(100), 255),
    ] {
        let out = encode_handshake(&name);
        let header = [out[0], out[1], out[2], out[3]];
        assert_eq!(handshake_length(&header), Ok(len));
        assert_eq!(out.len(), 4 + len);
        let sent = String::from_utf8(out[4..].to_vec()).unwrap();
        assert!(name.starts_with(&sent));
    }
    let out = encode_handshake(&format!("{}é", "x".repeat(255)));
    assert_eq!(handshake_name(out[4..].to_vec()), "x".repeat(64));
}

#[test]
fn bytes_that_are_no_text_name_nobody() {
    assert_eq!(handshake_name(vec![0xff, b'a']), "unknown");
    assert_eq!(handshake_name(b"a b\n".to_vec()), "ab");
}

#[test]
fn peer_names_are_cleaned() {
    assert_eq!(sanitize_peer_name("server-1_a.b"), "server-1_a.b");
    assert_eq!(sanitize_peer_name("a b\"c\\d\n{e}"), "abcde");
    assert_eq!(sanitize_peer_name("Žluťoučký 1"), "Žluťoučký1");
    assert_eq!(sanitize_peer_name("a–b€c"), "abc");
    assert_eq!(sanitize_peer_name("٣½"), "٣½");
    assert_eq!(sanitize_peer_name(""), "unknown");
    assert_eq!(sanitize_peer_name(" !\"#$%"), "unknown");
}

#[test]
fn peer_names_are_cut() {
    assert_eq!(MAX_NAME_CHARS, 64);
    assert_eq!(sanitize_peer_name(&"a".repeat(65)), "a".repeat(64));
    assert_eq!(sanitize_peer_name(&"é".repeat(70)), "é".repeat(64));
    assert_eq!(sanitize_peer_name(&format!("{} b", "a!".repeat(63))), format!("{}b", "a".repeat(63)));
}

#[test]
fn cleaning_twice_is_cleaning_once() {
    for name in ["", "a b", "x–y", "unknown"] {
        let once = sanitize_peer_name(name);
        assert_eq!(sanitize_peer_name(&once), once);
    }
}

#[test]
fn decimal_numbers() {
    assert_eq!(decimal_text(0), "0");
    assert_eq!(decimal_text(9), "9");
    assert_eq!(decimal_text(10), "10");
    assert_eq!(decimal_text(9700), "9700");
    assert_eq!(decimal_text(12345), "12345");
    assert_eq!(decimal_text(678), "678");
    assert_eq!(decimal_text(65535), "65535");
}

#[test]
fn addresses() {
    assert_eq!(address_text("192.168.1.2", 9700), "192.168.1.2:9700");
    assert_eq!(address_text("::1", 0), "::1:0");
}
