use simple_wc3::obfuscation::decode_encoded_string;
use simple_wc3::packets::{
    hack_game_name, update_port, GameType, QueryForGamesResponse, Wc3UdpMessageType,
};
use simple_wc3::utils::{try_parse, try_serialize};

fn lobby() -> QueryForGamesResponse {
    QueryForGamesResponse {
        packet_size: 59,
        game_type: GameType::Warcraft3,
        game_version: 27,
        game_id: 3,
        unknown2: 0,
        game_name: b"Tower Defense".to_vec(),
        unknown3: 0,
        encoded: vec![1],
        number_of_slots: 8,
        game_flags: 0,
        number_of_players: 1,
        number_of_player_slots: 8,
        game_age: 5,
        tcp_port: 6112,
    }
}

#[test]
fn detect_tells_the_five_kinds_by_their_opcode() {
    assert_eq!(
        Wc3UdpMessageType::detect(&[0xF7, 0x2F]),
        Some(Wc3UdpMessageType::QueryForGamesRequest)
    );
    assert_eq!(
        Wc3UdpMessageType::detect(&[0xF7, 0x31]),
        Some(Wc3UdpMessageType::NewServerHosted)
    );
    assert_eq!(
        Wc3UdpMessageType::detect(&[0xF7, 0x32, 9, 9]),
        Some(Wc3UdpMessageType::NumberOfPlayersChanged)
    );
    assert_eq!(
        Wc3UdpMessageType::detect(&[0xF7, 0x33]),
        Some(Wc3UdpMessageType::ServerClosed)
    );
    let bytes = try_serialize(&lobby()).unwrap();
    assert_eq!(
        Wc3UdpMessageType::detect(&bytes),
        Some(Wc3UdpMessageType::QueryForGamesResponse(lobby()))
    );
}

#[test]
fn detect_rejects_short_datagrams() {
    assert_eq!(Wc3UdpMessageType::detect(&[]), None);
    assert_eq!(Wc3UdpMessageType::detect(&[0xF7]), None);
}

#[test]
fn detect_rejects_a_wrong_header() {
    assert_eq!(Wc3UdpMessageType::detect(&[0xF6, 0x2F]), None);
    assert_eq!(Wc3UdpMessageType::detect(&[0x2F, 0xF7]), None);
    let mut bytes = try_serialize(&lobby()).unwrap();
    bytes[0] = 0xF8;
    assert_eq!(Wc3UdpMessageType::detect(&bytes), None);
}

#[test]
fn detect_rejects_unknown_opcodes() {
    for opcode in 0..=255u8 {
        let known = (0x2F..=0x33).contains(&opcode);
        if !known {
            assert_eq!(Wc3UdpMessageType::detect(&[0xF7, opcode, 0, 0, 0, 0]), None);
        }
    }
}

#[test]
fn detect_rejects_an_answer_that_does_not_parse() {
    assert_eq!(Wc3UdpMessageType::detect(&[0xF7, 0x30]), None);
    let bytes = try_serialize(&lobby()).unwrap();
    assert_eq!(Wc3UdpMessageType::detect(&bytes[..bytes.len() - 1]), None);
    let mut wrong_product = bytes.clone();
    wrong_product[4] = 0;
    assert_eq!(Wc3UdpMessageType::detect(&wrong_product), None);
}

#[test]
fn detect_needs_only_two_bytes_for_the_other_kinds() {
    assert_eq!(
        Wc3UdpMessageType::detect(&[0xF7, 0x33, 1]),
        Some(Wc3UdpMessageType::ServerClosed)
    );
    assert_eq!(try_parse::<simple_wc3::packets::ServerClosed>(&[0xF7, 0x33, 1]), None);
}

#[test]
fn update_port_overwrites_the_last_two_bytes() {
    let mut packet = vec![1u8, 2, 3, 4, 5];
    update_port(&mut packet, 0x1234);
    assert_eq!(packet, vec![1, 2, 3, 0x34, 0x12]);
    let mut packet = vec![9u8, 9];
    update_port(&mut packet, 6112);
    assert_eq!(packet, vec![0xE0, 0x17]);
}

#[test]
fn update_port_changes_the_port_of_an_answer() {
    let mut bytes = try_serialize(&lobby()).unwrap();
    update_port(&mut bytes, 50123);
    let mut expected = lobby();
    expected.tcp_port = 50123;
    assert_eq!(try_parse::<QueryForGamesResponse>(&bytes), Some(expected));
}

#[test]
fn hack_game_name_overwrites_from_offset_twenty() {
    let mut packet: Vec<u8> = (0..30u8).collect();
    hack_game_name(&mut packet, b"abc");
    let mut expected: Vec<u8> = (0..30u8).collect();
    expected[20] = b'a';
    expected[21] = b'b';
    expected[22] = b'c';
    assert_eq!(packet, expected);
    let mut packet: Vec<u8> = (0..20u8).collect();
    hack_game_name(&mut packet, b"");
    assert_eq!(packet, (0..20u8).collect::<Vec<u8>>());
}

#[test]
fn hack_game_name_changes_a_name_of_the_same_length() {
    let mut bytes = try_serialize(&lobby()).unwrap();
    hack_game_name(&mut bytes, b"FakeConnecti0");
    let mut expected = lobby();
    expected.game_name = b"FakeConnecti0".to_vec();
    assert_eq!(try_parse::<QueryForGamesResponse>(&bytes), Some(expected));
}

#[test]
fn decode_follows_the_mask() {
    let input = [0xAA, 0x01, 0x01, 0x01, 0x01, 0x01, 0x01, 0x01, 0x55];
    assert_eq!(decode_encoded_string(&input), vec![1, 0, 1, 0, 1, 0, 1]);
}

#[test]
fn decode_starts_a_new_mask_every_eight_bytes() {
    let input = [0xAA, 1, 1, 1, 1, 1, 1, 1, 0x55, 1, 1, 1, 1, 1, 1, 1, 0xFF, 9];
    assert_eq!(
        decode_encoded_string(&input),
        vec![1, 0, 1, 0, 1, 0, 1, 0, 1, 0, 1, 0, 1, 0, 9]
    );
}

#[test]
fn decode_ignores_bit_zero_of_the_mask() {
    assert_eq!(decode_encoded_string(&[0x01, 5, 7]), vec![4, 6]);
    assert_eq!(decode_encoded_string(&[0xFE, 5, 7]), vec![5, 7]);
}

#[test]
fn decode_of_short_inputs() {
    assert_eq!(decode_encoded_string(&[]), Vec::<u8>::new());
    assert_eq!(decode_encoded_string(&[0xFF]), Vec::<u8>::new());
    assert_eq!(decode_encoded_string(&[0x02, 0x61]), vec![0x61]);
    assert_eq!(decode_encoded_string(&[0x00, 0x61]), vec![0x60]);
}

#[test]
fn decode_wraps_a_zero_that_the_mask_does_not_keep() {
    assert_eq!(decode_encoded_string(&[0x00, 0x00]), vec![0xFF]);
    assert_eq!(decode_encoded_string(&[0x02, 0x00]), vec![0x00]);
}

#[test]
fn decode_output_length() {
    for len in 0..40usize {
        let input = vec![0xFFu8; len];
        assert_eq!(decode_encoded_string(&input).len(), len - (len + 7) / 8);
    }
}
