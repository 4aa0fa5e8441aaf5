//! What a client does with the discovery packets that the host sends it.
//!
//! The answer of the host's lobby is rewritten so that the local game sees a
//! lobby of its own network: its port becomes that of the client's proxy and
//! its name gets the tunnel's name in front. Announcements that a lobby has
//! opened or closed go on as they came. Everything else is dropped.

use vstd::prelude::*;
use vstd::string::StringSliceAdditionalSpecFns;
use crate::codec::WireFormat;
use crate::encoding::{has_no_nul, push_bytes};
use crate::packets::{
    classify, GenerableWc3UdpMessageType, GenerableWc3UdpMessageTypeView, QueryForGamesResponse,
    QueryForGamesResponseView, Wc3UdpMessageType, Wc3UdpMessageTypeView,
};
use crate::utils::APP_NAME;

verus! {

/// Longest name, in bytes, that the local game shows for a lobby.
pub const MAX_GAME_NAME_LEN: usize = 31;

/// What the client puts in front of the name of a lobby: the tunnel's name
/// in square brackets, and a space.
pub open spec fn name_prefix() -> Seq<u8> {
    seq![0x5Bu8] + APP_NAME.spec_bytes() + seq![0x5Du8, 0x20u8]
}

/// The prefix is the thirteen bytes of `[Simple-WC3] `, none of them zero.
pub proof fn lemma_name_prefix()
    ensures
        name_prefix() == seq![
            0x5Bu8,
            0x53u8,
            0x69u8,
            0x6Du8,
            0x70u8,
            0x6Cu8,
            0x65u8,
            0x2Du8,
            0x57u8,
            0x43u8,
            0x33u8,
            0x5Du8,
            0x20u8,
        ],
        name_prefix().len() == 13,
        has_no_nul(name_prefix()),
{
    reveal_strlit("Simple-WC3");
    vstd::string::is_ascii_spec_bytes(APP_NAME);
    assert(vstd::string::is_ascii(APP_NAME)) by {
        assert(vstd::utf8::is_ascii_chars(APP_NAME@));
    }
    let expected = seq![
        0x5Bu8,
        0x53u8,
        0x69u8,
        0x6Du8,
        0x70u8,
        0x6Cu8,
        0x65u8,
        0x2Du8,
        0x57u8,
        0x43u8,
        0x33u8,
        0x5Du8,
        0x20u8,
    ];
    assert(name_prefix() =~= expected);
}

/// The name under which a lobby called `name` is shown: the prefix and then
/// `name`, cut after `MAX_GAME_NAME_LEN` bytes.
pub open spec fn rewritten_name(name: Seq<u8>) -> Seq<u8> {
    let full = name_prefix() + name;
    if full.len() <= MAX_GAME_NAME_LEN {
        full
    } else {
        full.subrange(0, MAX_GAME_NAME_LEN as int)
    }
}

/// The size that the rewritten answer states: the size that the answer
/// stated, less the length of its name, plus the length of the new name.
pub open spec fn rewritten_size(m: QueryForGamesResponseView) -> int {
    m.packet_size - m.name_len() + rewritten_name(m.game_name).len()
}

/// The answer that the client passes on for `m`, with its proxy listening
/// on `proxy_port`; `None` where the new size does not fit the size field.
pub open spec fn rewritten(m: QueryForGamesResponseView, proxy_port: u16) -> Option<
    QueryForGamesResponseView,
> {
    let size = rewritten_size(m);
    if 0 <= size <= u16::MAX {
        Some(
            QueryForGamesResponseView {
                packet_size: size as u16,
                game_name: rewritten_name(m.game_name),
                tcp_port: proxy_port,
                ..m
            },
        )
    } else {
        None
    }
}

/// A rewritten answer states its own size, names the proxy's port, and has a
/// name of at most `MAX_GAME_NAME_LEN` bytes that starts with the prefix,
/// where the answer it was made from stated its own size. It is well formed
/// where that answer was.
pub proof fn lemma_rewrite_invariant(m: QueryForGamesResponseView, proxy_port: u16)
    requires
        m.size_consistent(),
        rewritten(m, proxy_port) is Some,
    ensures
        rewritten(m, proxy_port)->0.size_consistent(),
        rewritten(m, proxy_port)->0.wire().len() == rewritten(m, proxy_port)->0.packet_size,
        rewritten(m, proxy_port)->0.tcp_port == proxy_port,
        rewritten(m, proxy_port)->0.game_name.len() <= MAX_GAME_NAME_LEN,
        name_prefix().is_prefix_of(rewritten(m, proxy_port)->0.game_name),
        m.well_formed() ==> rewritten(m, proxy_port)->0.well_formed(),
{
    let r = rewritten(m, proxy_port)->0;
    lemma_name_prefix();
    r.lemma_layout();
    assert(name_prefix().is_prefix_of(r.game_name)) by {
        assert(r.game_name.subrange(0, 13) =~= name_prefix());
    }
    if m.well_formed() {
        lemma_rewritten_name_has_no_nul(m.game_name);
    }
}

/// A name without a zero byte is shown under a name without one.
pub proof fn lemma_rewritten_name_has_no_nul(name: Seq<u8>)
    requires
        has_no_nul(name),
    ensures
        has_no_nul(rewritten_name(name)),
{
    lemma_name_prefix();
    let full = name_prefix() + name;
    assert forall|i: int| 0 <= i < full.len() implies full[i] != 0 by {
        if i < 13 {
            assert(full[i] == name_prefix()[i]);
        } else {
            assert(full[i] == name[i - 13]);
        }
    }
}

/// All that the rewrite changes is the size, the name and the port.
pub proof fn lemma_rewrite_keeps_the_rest(m: QueryForGamesResponseView, proxy_port: u16)
    requires
        rewritten(m, proxy_port) is Some,
    ensures
        rewritten(m, proxy_port)->0.game_type == m.game_type,
        rewritten(m, proxy_port)->0.game_version == m.game_version,
        rewritten(m, proxy_port)->0.game_id == m.game_id,
        rewritten(m, proxy_port)->0.unknown2 == m.unknown2,
        rewritten(m, proxy_port)->0.unknown3 == m.unknown3,
        rewritten(m, proxy_port)->0.encoded == m.encoded,
        rewritten(m, proxy_port)->0.number_of_slots == m.number_of_slots,
        rewritten(m, proxy_port)->0.game_flags == m.game_flags,
        rewritten(m, proxy_port)->0.number_of_players == m.number_of_players,
        rewritten(m, proxy_port)->0.number_of_player_slots == m.number_of_player_slots,
        rewritten(m, proxy_port)->0.game_age == m.game_age,
{
}

/// The name under which the lobby called `name` is shown.
pub fn prefixed_name(name: &[u8]) -> (out: Vec<u8>)
    ensures
        out@ == rewritten_name(name@),
{
    let mut out: Vec<u8> = Vec::new();
    out.push(0x5B);
    push_bytes(&mut out, APP_NAME.as_bytes());
    out.push(0x5D);
    out.push(0x20);
    proof {
        lemma_name_prefix();
    }
    assert(out@ =~= name_prefix());
    let mut i: usize = 0;
    while i < name.len() && out.len() < MAX_GAME_NAME_LEN
        invariant
            i <= name@.len(),
            out@.len() <= MAX_GAME_NAME_LEN,
            out@ == name_prefix() + name@.subrange(0, i as int),
            name_prefix().len() == 13,
        decreases name@.len() - i,
    {
        out.push(name[i]);
        i += 1;
        assert(out@ =~= name_prefix() + name@.subrange(0, i as int));
    }
    proof {
        let full = name_prefix() + name@;
        if i == name@.len() {
            assert(name@.subrange(0, i as int) =~= name@);
        } else {
            assert(out@ =~= full.subrange(0, MAX_GAME_NAME_LEN as int));
        }
    }
    out
}

/// Rewrites the answer of the host's lobby for the local game: the port
/// becomes `proxy_port`, the name gets the prefix and is cut to
/// `MAX_GAME_NAME_LEN` bytes, and the stated size follows the name.
///
/// `None` where the new size does not fit the size field, which cannot
/// happen to an answer that states its own size and stays within 65535
/// bytes.
pub fn rewrite_response(response: QueryForGamesResponse, proxy_port: u16) -> (r: Option<
    QueryForGamesResponse,
>)
    ensures
        match r {
            Some(out) => rewritten(response@, proxy_port) == Some(out@),
            None => rewritten(response@, proxy_port) is None,
        },
{
    let mut response = response;
    let ghost before = response@;
    let new_name: Vec<u8> = prefixed_name(response.game_name.as_slice());
    let old_len: usize = response.game_name.len();
    let grown: usize = response.packet_size as usize + new_name.len();
    if grown < old_len {
        return None;
    }
    let size: usize = grown - old_len;
    if size > 0xFFFF {
        return None;
    }
    response.packet_size = size as u16;
    response.game_name = new_name;
    response.tcp_port = proxy_port;
    assert(response@ == rewritten(before, proxy_port)->0);
    Some(response)
}

/// What the client does with a chunk that it read from the host.
#[derive(Debug, PartialEq, Eq)]
pub enum ClientAction {
    /// Send these bytes to the local game.
    Forward(Vec<u8>),
    /// Send these bytes to the local game, and tell the user that the lobby
    /// is no longer available.
    ForwardLobbyClosed(Vec<u8>),
    /// Send nothing.
    Drop,
}

/// What a `ClientAction` holds, as mathematical values.
pub enum ClientActionView {
    Forward(Seq<u8>),
    ForwardLobbyClosed(Seq<u8>),
    Drop,
}

impl View for ClientAction {
    type V = ClientActionView;

    open spec fn view(&self) -> ClientActionView {
        match self {
            ClientAction::Forward(bytes) => ClientActionView::Forward(bytes@),
            ClientAction::ForwardLobbyClosed(bytes) => ClientActionView::ForwardLobbyClosed(
                bytes@,
            ),
            ClientAction::Drop => ClientActionView::Drop,
        }
    }
}

/// What the client does with `chunk`, its proxy listening on `proxy_port`:
/// it passes on the answer of a lobby rewritten, the announcement of a new
/// or a closed lobby as it came, and nothing else.
pub open spec fn action_for(chunk: Seq<u8>, proxy_port: u16) -> ClientActionView {
    match classify(chunk) {
        Some(Wc3UdpMessageTypeView::QueryForGamesResponse(m)) => match rewritten(m, proxy_port) {
            Some(out) => ClientActionView::Forward(out.wire()),
            None => ClientActionView::Drop,
        },
        Some(Wc3UdpMessageTypeView::NewServerHosted) => ClientActionView::Forward(chunk),
        Some(Wc3UdpMessageTypeView::ServerClosed) => ClientActionView::ForwardLobbyClosed(chunk),
        _ => ClientActionView::Drop,
    }
}

/// Decides what to do with a chunk read from the host.
pub fn client_action(chunk: &[u8], proxy_port: u16) -> (action: ClientAction)
    ensures
        action@ == action_for(chunk@, proxy_port),
{
    match Wc3UdpMessageType::detect(chunk) {
        Some(Wc3UdpMessageType::QueryForGamesResponse(response)) => {
            let ghost m = response@;
            proof {
                crate::codec::lemma_decoded_reencodes::<QueryForGamesResponse>(chunk@);
            }
            match rewrite_response(response, proxy_port) {
                Some(out) => {
                    proof {
                        lemma_rewritten_name_has_no_nul(m.game_name);
                    }
                    match out.serialize() {
                        Some(bytes) => ClientAction::Forward(bytes),
                        None => ClientAction::Drop,
                    }
                },
                None => ClientAction::Drop,
            }
        },
        Some(Wc3UdpMessageType::NewServerHosted) => {
            let bytes = crate::encoding::copy_range(chunk, 0, chunk.len());
            assert(bytes@ =~= chunk@);
            ClientAction::Forward(bytes)
        },
        Some(Wc3UdpMessageType::ServerClosed) => {
            let bytes = crate::encoding::copy_range(chunk, 0, chunk.len());
            assert(bytes@ =~= chunk@);
            ClientAction::ForwardLobbyClosed(bytes)
        },
        _ => ClientAction::Drop,
    }
}

/// An answer that states its own size is rewritten unless the rewritten
/// answer would be longer than the size field can say.
pub proof fn lemma_rewrite_succeeds(m: QueryForGamesResponseView, proxy_port: u16)
    requires
        m.size_consistent(),
        rewritten_name(m.game_name).len() + m.encoded_len() + 45 <= u16::MAX,
    ensures
        rewritten(m, proxy_port) is Some,
{
    m.lemma_layout();
}

/// What the host publishes, the client passes on: the bytes of a well-formed
/// answer become the bytes of the rewritten answer, and the bytes of the
/// other two events go on as they are, a closed lobby with a word to the
/// user.
pub proof fn lemma_client_handles_events(event: GenerableWc3UdpMessageTypeView, proxy_port: u16)
    requires
        GenerableWc3UdpMessageType::encodable(event),
    ensures
        action_for(GenerableWc3UdpMessageType::wire(event), proxy_port) == match event {
            GenerableWc3UdpMessageTypeView::NewServerHosted(_) => ClientActionView::Forward(
                GenerableWc3UdpMessageType::wire(event),
            ),
            GenerableWc3UdpMessageTypeView::QueryForGamesResponse(m) => match rewritten(
                m,
                proxy_port,
            ) {
                Some(out) => ClientActionView::Forward(out.wire()),
                None => ClientActionView::Drop,
            },
            GenerableWc3UdpMessageTypeView::ServerClosed(_) => ClientActionView::ForwardLobbyClosed(
                GenerableWc3UdpMessageType::wire(event),
            ),
        },
{
    event.lemma_starts_with_opcode();
    match event {
        GenerableWc3UdpMessageTypeView::QueryForGamesResponse(m) => {
            crate::packets::lemma_classify_response(m, Seq::empty());
            assert(m.wire() + Seq::<u8>::empty() =~= m.wire());
        },
        _ => {},
    }
}

} // verus!
