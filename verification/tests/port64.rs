use ultimate64_manager::port64::{
    address_payload, check_auth_reply, command_packet, crt_payload, debug_register_payload,
    decode_u32_le, flash_geometry_from, flash_page_payload, flash_page_reply, identity_from_reply,
    image_packet, kernal_payload, keys_payload, raw_len_packet, reu_payload, stream_off_command,
    stream_on_command, stream_start_payload, wait_packet, FlashGeometry, Port64Client, Port64Error,
    StreamKind, CMD_AUTHENTICATE, CMD_DEBUGSTREAM_OFF, CMD_DMA, CMD_DMAWRITE, CMD_IDENTIFY,
    CMD_READFLASH, CMD_RUN_CRT, CMD_VICSTREAM_ON, CMD_WAIT, TIMEOUT_SECS,
};

#[test]
fn command_words_lie_in_the_ff00_range() {
    for cmd in [CMD_DMA, CMD_DMAWRITE, CMD_IDENTIFY, CMD_AUTHENTICATE, CMD_VICSTREAM_ON, CMD_READFLASH] {
        assert!(cmd >= 0xFF00);
    }
}

#[test]
fn command_packet_is_little_endian_header_then_payload() {
    assert_eq!(command_packet(CMD_DMAWRITE, &[1, 2, 3]), vec![0x06, 0xFF, 3, 0, 1, 2, 3]);
    assert_eq!(command_packet(0xFF04, &[]), vec![0x04, 0xFF, 0, 0]);
}

#[test]
fn command_packet_length_field_wraps_at_64k() {
    let payload = vec![7u8; 0x10001];
    let pkt = command_packet(CMD_DMA, &payload);
    assert_eq!(&pkt[..4], &[0x01, 0xFF, 0x01, 0x00]);
    assert_eq!(pkt.len(), 4 + 0x10001);
}

#[test]
fn wait_puts_the_delay_in_the_length_field() {
    assert_eq!(wait_packet(0x1234), vec![0x05, 0xFF, 0x34, 0x12]);
    assert_eq!(raw_len_packet(CMD_WAIT, 500, &[9]), vec![0x05, 0xFF, 0xF4, 0x01, 9]);
}

#[test]
fn image_packet_has_a_24_bit_length() {
    let data = vec![0xAAu8; 0x10002];
    let pkt = image_packet(CMD_RUN_CRT, &data);
    assert_eq!(&pkt[..5], &[0x0D, 0xFF, 0x02, 0x00, 0x01]);
    assert_eq!(pkt.len(), 5 + data.len());
}

#[test]
fn payloads_put_addresses_first() {
    assert_eq!(address_payload(0x0400, b"HI"), vec![0x00, 0x04, b'H', b'I']);
    assert_eq!(reu_payload(0x0012_3456, &[1]), vec![0x56, 0x34, 0x12, 1]);
    assert_eq!(reu_payload(0xFF00_0001, &[]), vec![0x01, 0x00, 0x00]);
    assert_eq!(kernal_payload(&[5, 6]), vec![0, 0, 5, 6]);
    assert_eq!(flash_page_payload(0x010203), vec![2, 3, 2, 1]);
    assert_eq!(debug_register_payload(Some(7)), vec![7]);
    assert_eq!(debug_register_payload(None), Vec::<u8>::new());
    assert_eq!(stream_start_payload(0x0102, "ab"), vec![0x02, 0x01, b'a', b'b']);
}

#[test]
fn keyboard_payload_keeps_ten_bytes() {
    assert_eq!(keys_payload("LOAD\"*\",8,1\r"), b"LOAD\"*\",8,".to_vec());
    assert_eq!(keys_payload("RUN\r"), b"RUN\r".to_vec());
}

#[test]
fn cartridge_payload_keeps_eight_kilobytes() {
    assert_eq!(crt_payload(&vec![1u8; 0x2001]).len(), 0x2000);
    assert_eq!(crt_payload(&[1, 2]), vec![1, 2]);
}

#[test]
fn stream_commands_per_kind() {
    assert_eq!(stream_on_command(StreamKind::Vic), CMD_VICSTREAM_ON);
    assert_eq!(stream_on_command(StreamKind::Audio), 0xFF21);
    assert_eq!(stream_off_command(StreamKind::Debug), CMD_DEBUGSTREAM_OFF);
}

#[test]
fn auth_packet_only_with_a_password() {
    let c = Port64Client::new("10.0.0.64".to_string(), Some("pw".to_string()));
    assert_eq!(c.auth_packet(), Some(vec![0x1F, 0xFF, 2, 0, b'p', b'w']));
    assert_eq!(Port64Client::new("h".to_string(), Some(String::new())).auth_packet(), None);
    assert_eq!(Port64Client::new("h".to_string(), None).auth_packet(), None);
}

#[test]
fn client_settings() {
    let c = Port64Client::new("10.0.0.64".to_string(), None);
    assert_eq!(c.host(), "10.0.0.64");
    assert_eq!(c.timeout_secs(), TIMEOUT_SECS);
    let c = c.with_timeout(12);
    assert_eq!(c.timeout_secs(), 12);
    assert_eq!(c.host(), "10.0.0.64");
}

#[test]
fn replies_are_decoded() {
    assert!(check_auth_reply(1).is_ok());
    assert!(matches!(check_auth_reply(0), Err(Port64Error::AuthFailed)));
    assert_eq!(decode_u32_le(&[0x00, 0x01, 0x00, 0x00]), 256);
    assert_eq!(decode_u32_le(&[0x78, 0x56, 0x34, 0x12]), 0x12345678);
}

#[test]
fn flash_page_reply_rejects_an_empty_page() {
    match flash_page_reply(3, Vec::new()) {
        Err(Port64Error::InvalidResponse(m)) => assert_eq!(m, "Flash page 3 returned no data"),
        other => panic!("unexpected {:?}", other),
    }
    assert_eq!(flash_page_reply(3, vec![9]).unwrap(), vec![9]);
}

#[test]
fn identity_must_be_utf8() {
    assert_eq!(identity_from_reply(b"Ultimate 64 Elite".to_vec()).unwrap(), "Ultimate 64 Elite");
    match identity_from_reply(vec![0xFF, 0xFE]) {
        Err(Port64Error::InvalidResponse(m)) => assert!(m.starts_with("Non-UTF8 identity: ")),
        other => panic!("unexpected {:?}", other),
    }
}

#[test]
fn error_messages() {
    assert_eq!(Port64Error::Connect("refused".into()).message(), "Connect failed: refused");
    assert_eq!(Port64Error::AuthFailed.message(), "Authentication rejected — check password");
    assert_eq!(Port64Error::Timeout.message(), "Timed out — device may be offline");
    assert_eq!(Port64Error::InvalidResponse("x".into()).message(), "Invalid response: x");
}

#[test]
fn flash_geometry_total() {
    let g: FlashGeometry = flash_geometry_from(4096, 1024);
    assert_eq!(g.total_bytes(), 4 * 1024 * 1024);
    let big = FlashGeometry { page_size: u32::MAX, page_count: u32::MAX };
    assert_eq!(big.total_bytes(), (u32::MAX as u64) * (u32::MAX as u64));
}
