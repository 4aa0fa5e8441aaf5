use simple_wc3::client::{
    client_action, prefixed_name, rewrite_response, ClientAction, MAX_GAME_NAME_LEN,
};
use simple_wc3::game_scanner::{run_tick, LobbyState};
use simple_wc3::packets::{
    GameType, GenerableWc3UdpMessageType, NewServerHosted, QueryForGamesResponse, ServerClosed,
};
use simple_wc3::utils::{try_parse, try_serialize, APP_NAME};

const PROXY_PORT: u16 = 51234;

fn answer_named(name: &[u8]) -> QueryForGamesResponse {
    QueryForGamesResponse {
        packet_size: (name.len() + 2 + 45) as u16,
        game_type: GameType::TheFrozenThrone,
        game_version: 30,
        game_id: 42,
        unknown2: 0,
        game_name: name.to_vec(),
        unknown3: 0,
        encoded: vec![1, 3],
        number_of_slots: 10,
        game_flags: 0,
        number_of_players: 1,
        number_of_player_slots: 10,
        game_age: 0,
        tcp_port: 6112,
    }
}

fn forwarded(action: ClientAction) -> Vec<u8> {
    match action {
        ClientAction::Forward(bytes) => bytes,
        other => panic!("not forwarded: {:?}", other),
    }
}

#[test]
fn prefix_is_the_app_name_in_brackets() {
    assert_eq!(prefixed_name(b""), format!("[{}] ", APP_NAME).into_bytes());
    assert_eq!(prefixed_name(b""), b"[Simple-WC3] ".to_vec());
}

#[test]
fn prefixed_name_keeps_a_short_name() {
    assert_eq!(prefixed_name(b"MyGame"), b"[Simple-WC3] MyGame".to_vec());
    assert_eq!(prefixed_name(b"123456789012345678"), b"[Simple-WC3] 123456789012345678".to_vec());
    assert_eq!(prefixed_name(b"123456789012345678").len(), MAX_GAME_NAME_LEN);
}

#[test]
fn prefixed_name_cuts_a_long_name() {
    assert_eq!(prefixed_name(b"1234567890123456789"), b"[Simple-WC3] 123456789012345678".to_vec());
    let long = vec![b'x'; 200];
    let name = prefixed_name(&long);
    assert_eq!(name.len(), 31);
    assert_eq!(&name[..13], b"[Simple-WC3] ");
    assert!(name[13..].iter().all(|b| *b == b'x'));
}

#[test]
fn rewrite_sets_port_name_and_size() {
    let out = rewrite_response(answer_named(b"MyGame"), PROXY_PORT).unwrap();
    let mut expected = answer_named(b"[Simple-WC3] MyGame");
    expected.tcp_port = PROXY_PORT;
    assert_eq!(out, expected);
    assert_eq!(out.packet_size, 53 + 13);
    assert_eq!(try_serialize(&out).unwrap().len(), out.packet_size as usize);
}

#[test]
fn rewrite_of_a_long_name_shrinks_the_packet() {
    let name = vec![b'n'; 40];
    let out = rewrite_response(answer_named(&name), 1).unwrap();
    assert_eq!(out.game_name.len(), 31);
    assert_eq!(out.packet_size, 87 - 40 + 31);
    assert_eq!(try_serialize(&out).unwrap().len(), out.packet_size as usize);
}

#[test]
fn rewrite_follows_the_stated_size_even_where_it_is_wrong() {
    let mut response = answer_named(b"MyGame");
    response.packet_size = 1000;
    let out = rewrite_response(response, 1).unwrap();
    assert_eq!(out.packet_size, 1000 - 6 + 19);
    let mut response = answer_named(b"MyGame");
    response.packet_size = 0;
    let out = rewrite_response(response, 1).unwrap();
    assert_eq!(out.packet_size, 13);
}

#[test]
fn rewrite_fails_where_the_size_does_not_fit() {
    let mut response = answer_named(b"MyGame");
    response.packet_size = 65535;
    assert_eq!(rewrite_response(response, 1), None);
    let mut response = answer_named(b"MyGame");
    response.packet_size = 65535 - 13;
    assert_eq!(rewrite_response(response, 1).unwrap().packet_size, 65535);
    let mut response = answer_named(&vec![b'n'; 40]);
    response.packet_size = 8;
    assert_eq!(rewrite_response(response, 1), None);
    let mut response = answer_named(&vec![b'n'; 40]);
    response.packet_size = 9;
    assert_eq!(rewrite_response(response, 1).unwrap().packet_size, 0);
}

#[test]
fn client_rewrites_the_answer_of_a_lobby() {
    let chunk = try_serialize(&answer_named(b"MyGame")).unwrap();
    let bytes = forwarded(client_action(&chunk, PROXY_PORT));
    let seen = try_parse::<QueryForGamesResponse>(&bytes).unwrap();
    assert_eq!(seen.tcp_port, PROXY_PORT);
    assert_eq!(seen.game_name, b"[Simple-WC3] MyGame".to_vec());
    assert_eq!(seen.packet_size as usize, bytes.len());
    assert_eq!(seen.game_id, 42);
    assert_eq!(seen.encoded, vec![1, 3]);
}

#[test]
fn client_forwards_announcements_unchanged() {
    let hosted = try_serialize(&NewServerHosted {
        game_id: 42,
        game_type: GameType::TheFrozenThrone,
        game_version: 30,
    })
    .unwrap();
    assert_eq!(client_action(&hosted, PROXY_PORT), ClientAction::Forward(hosted.clone()));
    let closed = try_serialize(&ServerClosed { game_id: 42 }).unwrap();
    assert_eq!(
        client_action(&closed, PROXY_PORT),
        ClientAction::ForwardLobbyClosed(closed.clone())
    );
    let odd = vec![0xF7, 0x33, 1, 2, 3, 4, 5, 6, 7];
    assert_eq!(client_action(&odd, PROXY_PORT), ClientAction::ForwardLobbyClosed(odd.clone()));
}

#[test]
fn client_drops_everything_else() {
    assert_eq!(client_action(&[], PROXY_PORT), ClientAction::Drop);
    assert_eq!(client_action(&[0xF7], PROXY_PORT), ClientAction::Drop);
    assert_eq!(client_action(&[0xF7, 0x2F, 16, 0], PROXY_PORT), ClientAction::Drop);
    assert_eq!(client_action(&[0xF7, 0x32, 0, 0], PROXY_PORT), ClientAction::Drop);
    assert_eq!(client_action(&[0xF7, 0x34, 0, 0], PROXY_PORT), ClientAction::Drop);
    assert_eq!(client_action(&[0x00, 0x31, 0, 0], PROXY_PORT), ClientAction::Drop);
    let chunk = try_serialize(&answer_named(b"MyGame")).unwrap();
    assert_eq!(client_action(&chunk[..chunk.len() - 1], PROXY_PORT), ClientAction::Drop);
}

#[test]
fn client_drops_an_answer_whose_size_cannot_be_adjusted() {
    let mut response = answer_named(b"MyGame");
    response.packet_size = 65535;
    let chunk = try_serialize(&response).unwrap();
    assert_eq!(client_action(&chunk, PROXY_PORT), ClientAction::Drop);
}

fn through_the_tunnel(events: Vec<GenerableWc3UdpMessageType>) -> Vec<ClientAction> {
    events
        .iter()
        .map(|event| client_action(&try_serialize(event).unwrap(), PROXY_PORT))
        .collect()
}

#[test]
fn scenario_empty_universe() {
    let mut lobby = LobbyState::new();
    let mut datagrams = Vec::new();
    for _ in 0..3 {
        datagrams.extend(through_the_tunnel(run_tick(&mut lobby, &[])));
    }
    assert_eq!(datagrams, vec![]);
}

#[test]
fn scenario_birth() {
    let mut lobby = LobbyState::new();
    let from_game = try_serialize(&answer_named(b"MyGame")).unwrap();
    assert_eq!(run_tick(&mut lobby, &[]), vec![]);
    assert_eq!(run_tick(&mut lobby, &[]), vec![]);
    let events = run_tick(&mut lobby, &[from_game]);
    assert_eq!(
        events[0],
        GenerableWc3UdpMessageType::NewServerHosted(NewServerHosted {
            game_id: 42,
            game_type: GameType::TheFrozenThrone,
            game_version: 30,
        })
    );
    assert_eq!(
        events[1],
        GenerableWc3UdpMessageType::QueryForGamesResponse(answer_named(b"MyGame"))
    );
    assert_eq!(events.len(), 2);
    let mut actions = through_the_tunnel(events);
    let second = forwarded(actions.pop().unwrap());
    let first = forwarded(actions.pop().unwrap());
    assert_eq!(first, vec![0xF7, 0x31, 42, 0, 0, 0, 0x50, 0x58, 0x33, 0x57, 30, 0, 0, 0]);
    let seen = try_parse::<QueryForGamesResponse>(&second).unwrap();
    assert_eq!(seen.tcp_port, PROXY_PORT);
    assert_eq!(seen.game_name, b"[Simple-WC3] MyGame".to_vec());
}

#[test]
fn scenario_steady_state() {
    let mut lobby = LobbyState::Present(answer_named(b"MyGame"));
    let from_game = try_serialize(&answer_named(b"MyGame")).unwrap();
    let mut actions = Vec::new();
    for _ in 0..3 {
        actions.extend(through_the_tunnel(run_tick(&mut lobby, &[from_game.clone()])));
    }
    let mut rewritten = answer_named(b"[Simple-WC3] MyGame");
    rewritten.tcp_port = PROXY_PORT;
    let expected = try_serialize(&rewritten).unwrap();
    assert_eq!(
        actions,
        vec![
            ClientAction::Forward(expected.clone()),
            ClientAction::Forward(expected.clone()),
            ClientAction::Forward(expected),
        ]
    );
}

#[test]
fn scenario_death() {
    let mut lobby = LobbyState::new();
    let from_game = try_serialize(&answer_named(b"MyGame")).unwrap();
    run_tick(&mut lobby, &[from_game]);
    let mut actions = Vec::new();
    for _ in 0..3 {
        actions.extend(through_the_tunnel(run_tick(&mut lobby, &[])));
    }
    assert_eq!(actions, vec![ClientAction::ForwardLobbyClosed(vec![0xF7, 0x33, 42, 0, 0, 0])]);
}

#[test]
fn scenario_flap() {
    let mut lobby = LobbyState::new();
    let from_game = try_serialize(&answer_named(b"MyGame")).unwrap();
    run_tick(&mut lobby, &[from_game.clone()]);
    let mut events = run_tick(&mut lobby, &[]);
    events.extend(run_tick(&mut lobby, &[from_game]));
    assert_eq!(
        events,
        vec![
            GenerableWc3UdpMessageType::ServerClosed(ServerClosed { game_id: 42 }),
            GenerableWc3UdpMessageType::NewServerHosted(NewServerHosted {
                game_id: 42,
                game_type: GameType::TheFrozenThrone,
                game_version: 30,
            }),
            GenerableWc3UdpMessageType::QueryForGamesResponse(answer_named(b"MyGame")),
        ]
    );
    let actions = through_the_tunnel(events);
    assert!(matches!(actions[0], ClientAction::ForwardLobbyClosed(_)));
    assert!(matches!(actions[1], ClientAction::Forward(_)));
    assert!(matches!(actions[2], ClientAction::Forward(_)));
}
