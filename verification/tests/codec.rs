use simple_wc3::packets::{
    GameType, GenerableWc3UdpMessageType, NewServerHosted, QueryForGamesRequest,
    QueryForGamesResponse, ServerClosed,
};
use simple_wc3::utils::{try_parse, try_serialize};

fn sample_response() -> QueryForGamesResponse {
    QueryForGamesResponse {
        packet_size: 54,
        game_type: GameType::TheFrozenThrone,
        game_version: 30,
        game_id: 42,
        unknown2: 0x0102_0304,
        game_name: b"MyGame".to_vec(),
        unknown3: 7,
        encoded: vec![0x81, 0x03, 0x49],
        number_of_slots: 12,
        game_flags: 1,
        number_of_players: 2,
        number_of_player_slots: 10,
        game_age: 0x0001_0000,
        tcp_port: 6112,
    }
}

fn sample_response_bytes() -> Vec<u8> {
    vec![
        0xF7, 0x30, 54, 0, // header, opcode, size
        0x50, 0x58, 0x33, 0x57, // product
        30, 0, 0, 0, // version
        42, 0, 0, 0, // id
        0x04, 0x03, 0x02, 0x01, // unknown
        b'M', b'y', b'G', b'a', b'm', b'e', 0, // name
        7, // unknown
        0x81, 0x03, 0x49, 0, // settings
        12, 0, 0, 0, // slots
        1, 0, 0, 0, // flags
        2, 0, 0, 0, // players
        10, 0, 0, 0, // player slots
        0, 0, 1, 0, // age
        0xE0, 0x17, // port
    ]
}

#[test]
fn game_type_magic_bytes() {
    assert_eq!(try_serialize(&GameType::Warcraft3), Some(vec![0x33, 0x52, 0x41, 0x57]));
    assert_eq!(try_serialize(&GameType::TheFrozenThrone), Some(vec![0x50, 0x58, 0x33, 0x57]));
}

#[test]
fn game_type_spells_its_name_backwards() {
    assert_eq!(try_serialize(&GameType::Warcraft3), Some(b"3RAW".to_vec()));
    assert_eq!(try_serialize(&GameType::TheFrozenThrone), Some(b"PX3W".to_vec()));
}

#[test]
fn game_type_round_trip() {
    assert_eq!(try_parse::<GameType>(b"3RAW"), Some(GameType::Warcraft3));
    assert_eq!(try_parse::<GameType>(b"PX3W"), Some(GameType::TheFrozenThrone));
    assert_eq!(try_parse::<GameType>(b"PX3Wxyz"), Some(GameType::TheFrozenThrone));
}

#[test]
fn game_type_rejects_other_bytes() {
    assert_eq!(try_parse::<GameType>(b"WAR3"), None);
    assert_eq!(try_parse::<GameType>(b"3RA"), None);
    assert_eq!(try_parse::<GameType>(b""), None);
    assert_eq!(try_parse::<GameType>(b"PX3R"), None);
}

#[test]
fn query_for_games_request_bytes() {
    let request = QueryForGamesRequest::new(GameType::TheFrozenThrone, 26);
    assert_eq!(
        try_serialize(&request),
        Some(vec![247, 47, 16, 0, 80, 88, 51, 87, 26, 0, 0, 0, 0, 0, 0, 0])
    );
}

#[test]
fn query_for_games_request_new_asks_for_any_lobby() {
    let request = QueryForGamesRequest::new(GameType::Warcraft3, 31);
    assert_eq!(request.packet_size, 16);
    assert_eq!(request.game_type, GameType::Warcraft3);
    assert_eq!(request.game_version, 31);
    assert_eq!(request.game_id, 0);
}

#[test]
fn query_for_games_request_round_trip_for_every_supported_version() {
    for game_version in 25..=31u32 {
        for game_type in [GameType::Warcraft3, GameType::TheFrozenThrone] {
            let request = QueryForGamesRequest::new(game_type, game_version);
            let bytes = try_serialize(&request).unwrap();
            assert_eq!(bytes.len(), 16);
            assert_eq!(try_parse::<QueryForGamesRequest>(&bytes), Some(request));
        }
    }
}

#[test]
fn query_for_games_request_keeps_all_four_fields() {
    let request = QueryForGamesRequest {
        packet_size: 0x1234,
        game_type: GameType::Warcraft3,
        game_version: 0xDEAD_BEEF,
        game_id: 0x0A0B_0C0D,
    };
    let bytes = try_serialize(&request).unwrap();
    assert_eq!(
        bytes,
        vec![
            0xF7, 0x2F, 0x34, 0x12, 0x33, 0x52, 0x41, 0x57, 0xEF, 0xBE, 0xAD, 0xDE, 0x0D, 0x0C,
            0x0B, 0x0A
        ]
    );
    assert_eq!(try_parse::<QueryForGamesRequest>(&bytes), Some(request));
}

#[test]
fn query_for_games_request_rejects_malformed_bytes() {
    let good = try_serialize(&QueryForGamesRequest::new(GameType::Warcraft3, 25)).unwrap();
    assert_eq!(try_parse::<QueryForGamesRequest>(&good[..15]), None);
    let mut wrong_header = good.clone();
    wrong_header[0] = 0xF6;
    assert_eq!(try_parse::<QueryForGamesRequest>(&wrong_header), None);
    let mut wrong_opcode = good.clone();
    wrong_opcode[1] = 0x30;
    assert_eq!(try_parse::<QueryForGamesRequest>(&wrong_opcode), None);
    let mut wrong_product = good.clone();
    wrong_product[4] = 0x34;
    assert_eq!(try_parse::<QueryForGamesRequest>(&wrong_product), None);
}

#[test]
fn new_server_hosted_bytes_and_round_trip() {
    let hosted = NewServerHosted {
        game_id: 42,
        game_type: GameType::TheFrozenThrone,
        game_version: 30,
    };
    let bytes = try_serialize(&hosted).unwrap();
    assert_eq!(bytes, vec![0xF7, 0x31, 42, 0, 0, 0, 0x50, 0x58, 0x33, 0x57, 30, 0, 0, 0]);
    assert_eq!(try_parse::<NewServerHosted>(&bytes), Some(hosted));
}

#[test]
fn new_server_hosted_rejects_malformed_bytes() {
    let good = vec![0xF7, 0x31, 42, 0, 0, 0, 0x50, 0x58, 0x33, 0x57, 30, 0, 0, 0];
    assert_eq!(try_parse::<NewServerHosted>(&good[..13]), None);
    let mut wrong_opcode = good.clone();
    wrong_opcode[1] = 0x33;
    assert_eq!(try_parse::<NewServerHosted>(&wrong_opcode), None);
    let mut wrong_product = good.clone();
    wrong_product[9] = 0x58;
    assert_eq!(try_parse::<NewServerHosted>(&wrong_product), None);
}

#[test]
fn server_closed_round_trip() {
    let closed = ServerClosed { game_id: 42 };
    let bytes = try_serialize(&closed).unwrap();
    assert_eq!(bytes, vec![0xF7, 0x33, 42, 0, 0, 0]);
    assert_eq!(try_parse::<ServerClosed>(&bytes), Some(closed));
}

#[test]
fn server_closed_reads_little_endian() {
    let bytes = vec![0xF7, 0x33, 0x78, 0x56, 0x34, 0x12];
    assert_eq!(try_parse::<ServerClosed>(&bytes), Some(ServerClosed { game_id: 0x1234_5678 }));
    assert_eq!(try_parse::<ServerClosed>(&bytes[..5]), None);
    assert_eq!(try_parse::<ServerClosed>(&[0xF7, 0x31, 1, 0, 0, 0]), None);
}

#[test]
fn query_for_games_response_bytes() {
    assert_eq!(try_serialize(&sample_response()), Some(sample_response_bytes()));
}

#[test]
fn query_for_games_response_round_trip() {
    let bytes = try_serialize(&sample_response()).unwrap();
    assert_eq!(bytes.len(), 54);
    assert_eq!(try_parse::<QueryForGamesResponse>(&bytes), Some(sample_response()));
}

#[test]
fn query_for_games_response_with_empty_strings() {
    let mut response = sample_response();
    response.game_name = Vec::new();
    response.encoded = Vec::new();
    response.packet_size = 45;
    let bytes = try_serialize(&response).unwrap();
    assert_eq!(bytes.len(), 45);
    assert_eq!(try_parse::<QueryForGamesResponse>(&bytes), Some(response));
}

#[test]
fn query_for_games_response_ignores_what_follows() {
    let mut bytes = sample_response_bytes();
    bytes.extend_from_slice(&[0xF7, 0x33, 1, 0, 0, 0]);
    assert_eq!(try_parse::<QueryForGamesResponse>(&bytes), Some(sample_response()));
}

#[test]
fn query_for_games_response_keeps_a_wrong_stated_size() {
    let mut bytes = sample_response_bytes();
    bytes[2] = 99;
    let mut expected = sample_response();
    expected.packet_size = 99;
    assert_eq!(try_parse::<QueryForGamesResponse>(&bytes), Some(expected));
}

#[test]
fn query_for_games_response_rejects_every_truncation() {
    let bytes = sample_response_bytes();
    for len in 0..bytes.len() {
        assert_eq!(try_parse::<QueryForGamesResponse>(&bytes[..len]), None, "length {}", len);
    }
}

#[test]
fn query_for_games_response_rejects_wrong_constants() {
    let good = sample_response_bytes();
    let mut wrong_header = good.clone();
    wrong_header[0] = 0;
    assert_eq!(try_parse::<QueryForGamesResponse>(&wrong_header), None);
    let mut wrong_opcode = good.clone();
    wrong_opcode[1] = 0x2F;
    assert_eq!(try_parse::<QueryForGamesResponse>(&wrong_opcode), None);
    let mut wrong_product = good.clone();
    wrong_product[7] = 0x58;
    assert_eq!(try_parse::<QueryForGamesResponse>(&wrong_product), None);
}

#[test]
fn query_for_games_response_rejects_a_name_without_end() {
    let mut bytes = sample_response_bytes();
    for byte in bytes.iter_mut().skip(20) {
        if *byte == 0 {
            *byte = 1;
        }
    }
    assert_eq!(try_parse::<QueryForGamesResponse>(&bytes), None);
}

#[test]
fn query_for_games_response_with_a_nul_in_a_string_does_not_serialize() {
    let mut response = sample_response();
    response.game_name = vec![b'a', 0, b'b'];
    assert_eq!(try_serialize(&response), None);
    let mut response = sample_response();
    response.encoded = vec![0];
    assert_eq!(try_serialize(&response), None);
}

#[test]
fn query_for_games_response_clone_is_equal() {
    let response = sample_response();
    assert_eq!(response.clone(), response);
}

#[test]
fn event_serializes_as_the_packet_it_holds() {
    let hosted = NewServerHosted { game_id: 1, game_type: GameType::Warcraft3, game_version: 27 };
    assert_eq!(
        try_serialize(&GenerableWc3UdpMessageType::NewServerHosted(hosted)),
        try_serialize(&hosted)
    );
    let closed = ServerClosed { game_id: 9 };
    assert_eq!(
        try_serialize(&GenerableWc3UdpMessageType::ServerClosed(closed)),
        try_serialize(&closed)
    );
    assert_eq!(
        try_serialize(&GenerableWc3UdpMessageType::QueryForGamesResponse(sample_response())),
        Some(sample_response_bytes())
    );
}

#[test]
fn event_round_trip() {
    let events = vec![
        GenerableWc3UdpMessageType::NewServerHosted(NewServerHosted {
            game_id: 42,
            game_type: GameType::TheFrozenThrone,
            game_version: 30,
        }),
        GenerableWc3UdpMessageType::QueryForGamesResponse(sample_response()),
        GenerableWc3UdpMessageType::ServerClosed(ServerClosed { game_id: 42 }),
    ];
    for event in events {
        let bytes = try_serialize(&event).unwrap();
        assert_eq!(try_parse::<GenerableWc3UdpMessageType>(&bytes), Some(event));
    }
}

#[test]
fn event_rejects_packets_that_the_tunnel_does_not_send() {
    let request = try_serialize(&QueryForGamesRequest::new(GameType::Warcraft3, 25)).unwrap();
    assert_eq!(try_parse::<GenerableWc3UdpMessageType>(&request), None);
    assert_eq!(try_parse::<GenerableWc3UdpMessageType>(&[0xF7, 0x32, 0, 0, 0, 0, 0, 0]), None);
    assert_eq!(try_parse::<GenerableWc3UdpMessageType>(&[0xF7]), None);
    assert_eq!(try_parse::<GenerableWc3UdpMessageType>(&[0xF7, 0x33, 1]), None);
}
