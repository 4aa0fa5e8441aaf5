//! The Warcraft III LAN discovery packets and their wire format.
//!
//! Every packet starts with the header byte `0xF7` and an opcode. Integers
//! are little-endian; strings are bytes up to a NUL terminator.

use vstd::prelude::*;
use crate::codec::{
    decoded, decodes, lemma_decoded_is, lemma_round_trip, lemma_round_trip_with_trailer,
    WireFormat,
};
use crate::encoding::{
    le_bytes_u16, le_bytes_u32, lemma_le_u16_injective, lemma_le_u32_injective, push_u16_le,
    push_u32_le, read_u16_le, read_u32_le,
};
pub use crate::response::{
    QueryForGamesResponse, QueryForGamesResponseView, RESPONSE_FIXED_SIZE, RESPONSE_NAME_OFFSET,
};

verus! {

/// First byte of every discovery packet.
pub const PACKET_HEADER: u8 = 0xF7;

/// Opcode of a query for games.
pub const OPCODE_QUERY_FOR_GAMES_REQUEST: u8 = 0x2F;

/// Opcode of the answer to a query for games.
pub const OPCODE_QUERY_FOR_GAMES_RESPONSE: u8 = 0x30;

/// Opcode of the announcement of a new lobby.
pub const OPCODE_NEW_SERVER_HOSTED: u8 = 0x31;

/// Opcode of a change in the number of players.
pub const OPCODE_NUMBER_OF_PLAYERS_CHANGED: u8 = 0x32;

/// Opcode of the announcement that a lobby has closed.
pub const OPCODE_SERVER_CLOSED: u8 = 0x33;

/// Size in bytes of a `QueryForGamesRequest` on the wire.
pub const QUERY_FOR_GAMES_REQUEST_SIZE: u16 = 16;

/// The product that a lobby belongs to.
#[derive(Debug, Clone, Copy, PartialEq, Eq, Structural)]
pub enum GameType {
    /// Reign of Chaos, `WAR3` read backwards on the wire.
    Warcraft3,
    /// The Frozen Throne, `W3XP` read backwards on the wire.
    TheFrozenThrone,
}

impl View for GameType {
    type V = GameType;

    open spec fn view(&self) -> GameType {
        *self
    }
}

impl GameType {
    /// The four bytes that name the product on the wire.
    pub open spec fn magic(self) -> Seq<u8> {
        match self {
            GameType::Warcraft3 => seq![0x33u8, 0x52u8, 0x41u8, 0x57u8],
            GameType::TheFrozenThrone => seq![0x50u8, 0x58u8, 0x33u8, 0x57u8],
        }
    }

    /// Reads the product named by the four bytes at `at`.
    pub fn read_at(data: &[u8], at: usize) -> (r: Option<GameType>)
        requires
            at + 4 <= data@.len(),
        ensures
            match r {
                Some(t) => t.magic() == data@.subrange(at as int, at + 4),
                None => forall|t: GameType|
                    #[trigger] t.magic() != data@.subrange(at as int, at + 4),
            },
    {
        let ghost field = data@.subrange(at as int, at + 4);
        if data[at] == 0x33 && data[at + 1] == 0x52 && data[at + 2] == 0x41 && data[at + 3]
            == 0x57 {
            assert(GameType::Warcraft3.magic() =~= field);
            Some(GameType::Warcraft3)
        } else if data[at] == 0x50 && data[at + 1] == 0x58 && data[at + 2] == 0x33 && data[at
            + 3] == 0x57 {
            assert(GameType::TheFrozenThrone.magic() =~= field);
            Some(GameType::TheFrozenThrone)
        } else {
            assert forall|t: GameType| #[trigger] t.magic() != field by {
                if t.magic() == field {
                    assert(t.magic()[0] == field[0]);
                    assert(t.magic()[1] == field[1]);
                    assert(t.magic()[2] == field[2]);
                    assert(t.magic()[3] == field[3]);
                }
            }
            None
        }
    }

    /// Appends the four bytes that name `self`.
    pub fn write_to(self, out: &mut Vec<u8>)
        ensures
            final(out)@ == old(out)@ + self.magic(),
    {
        match self {
            GameType::Warcraft3 => {
                out.push(0x33);
                out.push(0x52);
                out.push(0x41);
                out.push(0x57);
            },
            GameType::TheFrozenThrone => {
                out.push(0x50);
                out.push(0x58);
                out.push(0x33);
                out.push(0x57);
            },
        }
        assert(out@ =~= old(out)@ + self.magic());
    }

    /// Different products have different magic bytes.
    pub proof fn lemma_magic_injective(a: GameType, b: GameType)
        requires
            a.magic() == b.magic(),
        ensures
            a == b,
    {
        assert(a.magic()[0] == b.magic()[0]);
    }
}

impl WireFormat for GameType {
    open spec fn encodable(m: GameType) -> bool {
        true
    }

    open spec fn wire(m: GameType) -> Seq<u8> {
        m.magic()
    }

    proof fn lemma_prefix_free(a: GameType, b: GameType, bytes: Seq<u8>) {
        assert(a.magic()[0] == bytes[0]);
        assert(b.magic()[0] == bytes[0]);
    }

    fn parse(data: &[u8]) -> (r: Option<GameType>) {
        if data.len() < 4 {
            return None;
        }
        let r = GameType::read_at(data, 0);
        proof {
            if r is None {
                assert forall|m: GameType|
                    !(Self::encodable(m) && #[trigger] Self::wire(m).is_prefix_of(data@)) by {
                    assert(m.magic() != data@.subrange(0, 4));
                }
            }
        }
        r
    }

    fn serialize(&self) -> (r: Option<Vec<u8>>) {
        let mut out: Vec<u8> = Vec::new();
        self.write_to(&mut out);
        assert(out@ =~= self.magic());
        Some(out)
    }
}

/// Asks every Warcraft III instance that hears it for its lobby.
#[derive(Debug, Clone, Copy, PartialEq, Eq, Structural)]
pub struct QueryForGamesRequest {
    /// Number of bytes of the packet on the wire.
    pub packet_size: u16,
    /// Product that the sender asks for.
    pub game_type: GameType,
    /// Minor version that the sender asks for.
    pub game_version: u32,
    /// Lobby that the sender asks for; zero asks for any.
    pub game_id: u32,
}

impl View for QueryForGamesRequest {
    type V = QueryForGamesRequest;

    open spec fn view(&self) -> QueryForGamesRequest {
        *self
    }
}

impl QueryForGamesRequest {
    /// The query that the scanner sends for one product and version: sixteen
    /// bytes on the wire, asking for any lobby.
    pub fn new(game_type: GameType, game_version: u32) -> (r: QueryForGamesRequest)
        ensures
            r == (QueryForGamesRequest {
                packet_size: QUERY_FOR_GAMES_REQUEST_SIZE,
                game_type,
                game_version,
                game_id: 0,
            }),
    {
        QueryForGamesRequest {
            packet_size: QUERY_FOR_GAMES_REQUEST_SIZE,
            game_type,
            game_version,
            game_id: 0,
        }
    }
}

impl WireFormat for QueryForGamesRequest {
    open spec fn encodable(m: QueryForGamesRequest) -> bool {
        true
    }

    open spec fn wire(m: QueryForGamesRequest) -> Seq<u8> {
        seq![PACKET_HEADER, OPCODE_QUERY_FOR_GAMES_REQUEST] + le_bytes_u16(m.packet_size)
            + m.game_type.magic() + le_bytes_u32(m.game_version) + le_bytes_u32(m.game_id)
    }

    proof fn lemma_prefix_free(a: QueryForGamesRequest, b: QueryForGamesRequest, bytes: Seq<u8>) {
        let wa = Self::wire(a);
        let wb = Self::wire(b);
        assert(wa.len() == 16 && wb.len() == 16);
        assert(wa =~= wb);
        assert(le_bytes_u16(a.packet_size) =~= wa.subrange(2, 4));
        assert(le_bytes_u16(b.packet_size) =~= wb.subrange(2, 4));
        assert(a.game_type.magic() =~= wa.subrange(4, 8));
        assert(b.game_type.magic() =~= wb.subrange(4, 8));
        assert(le_bytes_u32(a.game_version) =~= wa.subrange(8, 12));
        assert(le_bytes_u32(b.game_version) =~= wb.subrange(8, 12));
        assert(le_bytes_u32(a.game_id) =~= wa.subrange(12, 16));
        assert(le_bytes_u32(b.game_id) =~= wb.subrange(12, 16));
        lemma_le_u16_injective(a.packet_size, b.packet_size);
        GameType::lemma_magic_injective(a.game_type, b.game_type);
        lemma_le_u32_injective(a.game_version, b.game_version);
        lemma_le_u32_injective(a.game_id, b.game_id);
    }

    fn parse(data: &[u8]) -> (r: Option<QueryForGamesRequest>) {
        if data.len() < 16 || data[0] != PACKET_HEADER || data[1]
            != OPCODE_QUERY_FOR_GAMES_REQUEST {
            assert forall|m: QueryForGamesRequest|
                !(Self::encodable(m) && #[trigger] Self::wire(m).is_prefix_of(data@)) by {
                if Self::wire(m).is_prefix_of(data@) {
                    assert(Self::wire(m)[0] == data@[0]);
                    assert(Self::wire(m)[1] == data@[1]);
                }
            }
            return None;
        }
        let packet_size: u16 = read_u16_le(data, 2);
        let game_type = match GameType::read_at(data, 4) {
            Some(t) => t,
            None => {
                assert forall|m: QueryForGamesRequest|
                    !(Self::encodable(m) && #[trigger] Self::wire(m).is_prefix_of(data@)) by {
                    if Self::wire(m).is_prefix_of(data@) {
                        assert(m.game_type.magic() =~= Self::wire(m).subrange(4, 8));
                        assert(Self::wire(m).subrange(4, 8) =~= data@.subrange(4, 8));
                    }
                }
                return None;
            },
        };
        let game_version: u32 = read_u32_le(data, 8);
        let game_id: u32 = read_u32_le(data, 12);
        let r = QueryForGamesRequest { packet_size, game_type, game_version, game_id };
        assert(Self::wire(r) =~= data@.subrange(0, 16));
        Some(r)
    }

    fn serialize(&self) -> (r: Option<Vec<u8>>) {
        let mut out: Vec<u8> = Vec::new();
        out.push(PACKET_HEADER);
        out.push(OPCODE_QUERY_FOR_GAMES_REQUEST);
        push_u16_le(&mut out, self.packet_size);
        self.game_type.write_to(&mut out);
        push_u32_le(&mut out, self.game_version);
        push_u32_le(&mut out, self.game_id);
        assert(out@ =~= Self::wire(*self));
        Some(out)
    }
}

/// Announces that a lobby has opened.
#[derive(Debug, Clone, Copy, PartialEq, Eq, Structural)]
pub struct NewServerHosted {
    /// The lobby that opened.
    pub game_id: u32,
    /// Product of the lobby.
    pub game_type: GameType,
    /// Minor version of the lobby.
    pub game_version: u32,
}

impl View for NewServerHosted {
    type V = NewServerHosted;

    open spec fn view(&self) -> NewServerHosted {
        *self
    }
}

impl WireFormat for NewServerHosted {
    open spec fn encodable(m: NewServerHosted) -> bool {
        true
    }

    open spec fn wire(m: NewServerHosted) -> Seq<u8> {
        seq![PACKET_HEADER, OPCODE_NEW_SERVER_HOSTED] + le_bytes_u32(m.game_id)
            + m.game_type.magic() + le_bytes_u32(m.game_version)
    }

    proof fn lemma_prefix_free(a: NewServerHosted, b: NewServerHosted, bytes: Seq<u8>) {
        let wa = Self::wire(a);
        let wb = Self::wire(b);
        assert(wa.len() == 14 && wb.len() == 14);
        assert(wa =~= wb);
        assert(le_bytes_u32(a.game_id) =~= wa.subrange(2, 6));
        assert(le_bytes_u32(b.game_id) =~= wb.subrange(2, 6));
        assert(a.game_type.magic() =~= wa.subrange(6, 10));
        assert(b.game_type.magic() =~= wb.subrange(6, 10));
        assert(le_bytes_u32(a.game_version) =~= wa.subrange(10, 14));
        assert(le_bytes_u32(b.game_version) =~= wb.subrange(10, 14));
        lemma_le_u32_injective(a.game_id, b.game_id);
        GameType::lemma_magic_injective(a.game_type, b.game_type);
        lemma_le_u32_injective(a.game_version, b.game_version);
    }

    fn parse(data: &[u8]) -> (r: Option<NewServerHosted>) {
        if data.len() < 14 || data[0] != PACKET_HEADER || data[1] != OPCODE_NEW_SERVER_HOSTED {
            assert forall|m: NewServerHosted|
                !(Self::encodable(m) && #[trigger] Self::wire(m).is_prefix_of(data@)) by {
                if Self::wire(m).is_prefix_of(data@) {
                    assert(Self::wire(m)[0] == data@[0]);
                    assert(Self::wire(m)[1] == data@[1]);
                }
            }
            return None;
        }
        let game_id: u32 = read_u32_le(data, 2);
        let game_type = match GameType::read_at(data, 6) {
            Some(t) => t,
            None => {
                assert forall|m: NewServerHosted|
                    !(Self::encodable(m) && #[trigger] Self::wire(m).is_prefix_of(data@)) by {
                    if Self::wire(m).is_prefix_of(data@) {
                        assert(m.game_type.magic() =~= Self::wire(m).subrange(6, 10));
                        assert(Self::wire(m).subrange(6, 10) =~= data@.subrange(6, 10));
                    }
                }
                return None;
            },
        };
        let game_version: u32 = read_u32_le(data, 10);
        let r = NewServerHosted { game_id, game_type, game_version };
        assert(Self::wire(r) =~= data@.subrange(0, 14));
        Some(r)
    }

    fn serialize(&self) -> (r: Option<Vec<u8>>) {
        let mut out: Vec<u8> = Vec::new();
        out.push(PACKET_HEADER);
        out.push(OPCODE_NEW_SERVER_HOSTED);
        push_u32_le(&mut out, self.game_id);
        self.game_type.write_to(&mut out);
        push_u32_le(&mut out, self.game_version);
        assert(out@ =~= Self::wire(*self));
        Some(out)
    }
}

/// Announces that a lobby has closed.
#[derive(Debug, Clone, Copy, PartialEq, Eq, Structural)]
pub struct ServerClosed {
    /// The lobby that closed.
    pub game_id: u32,
}

impl View for ServerClosed {
    type V = ServerClosed;

    open spec fn view(&self) -> ServerClosed {
        *self
    }
}

impl WireFormat for ServerClosed {
    open spec fn encodable(m: ServerClosed) -> bool {
        true
    }

    open spec fn wire(m: ServerClosed) -> Seq<u8> {
        seq![PACKET_HEADER, OPCODE_SERVER_CLOSED] + le_bytes_u32(m.game_id)
    }

    proof fn lemma_prefix_free(a: ServerClosed, b: ServerClosed, bytes: Seq<u8>) {
        let wa = Self::wire(a);
        let wb = Self::wire(b);
        assert(wa.len() == 6 && wb.len() == 6);
        assert(wa =~= wb);
        assert(le_bytes_u32(a.game_id) =~= wa.subrange(2, 6));
        assert(le_bytes_u32(b.game_id) =~= wb.subrange(2, 6));
        lemma_le_u32_injective(a.game_id, b.game_id);
    }

    fn parse(data: &[u8]) -> (r: Option<ServerClosed>) {
        if data.len() < 6 || data[0] != PACKET_HEADER || data[1] != OPCODE_SERVER_CLOSED {
            assert forall|m: ServerClosed|
                !(Self::encodable(m) && #[trigger] Self::wire(m).is_prefix_of(data@)) by {
                if Self::wire(m).is_prefix_of(data@) {
                    assert(Self::wire(m)[0] == data@[0]);
                    assert(Self::wire(m)[1] == data@[1]);
                }
            }
            return None;
        }
        let game_id: u32 = read_u32_le(data, 2);
        let r = ServerClosed { game_id };
        assert(Self::wire(r) =~= data@.subrange(0, 6));
        Some(r)
    }

    fn serialize(&self) -> (r: Option<Vec<u8>>) {
        let mut out: Vec<u8> = Vec::new();
        out.push(PACKET_HEADER);
        out.push(OPCODE_SERVER_CLOSED);
        push_u32_le(&mut out, self.game_id);
        assert(out@ =~= Self::wire(*self));
        Some(out)
    }
}

/// The two products are told apart by these bytes: `3RAW` for Reign of
/// Chaos and `PX3W` for The Frozen Throne.
pub proof fn lemma_game_type_magic()
    ensures
        GameType::wire(GameType::Warcraft3) == seq![0x33u8, 0x52u8, 0x41u8, 0x57u8],
        GameType::wire(GameType::TheFrozenThrone) == seq![0x50u8, 0x58u8, 0x33u8, 0x57u8],
{
}

/// Every query for games parses back from its bytes, whatever follows them.
pub proof fn lemma_request_round_trip(request: QueryForGamesRequest, rest: Seq<u8>)
    ensures
        decoded::<QueryForGamesRequest>(QueryForGamesRequest::wire(request) + rest) == Some(
            request,
        ),
        decoded::<QueryForGamesRequest>(QueryForGamesRequest::wire(request)) == Some(request),
{
    lemma_round_trip::<QueryForGamesRequest>(request);
    lemma_round_trip_with_trailer::<QueryForGamesRequest>(request, rest);
}

/// Every answer whose strings hold no zero byte parses back from its
/// bytes, whatever follows them.
pub proof fn lemma_response_round_trip(response: QueryForGamesResponseView, rest: Seq<u8>)
    requires
        response.well_formed(),
    ensures
        decoded::<QueryForGamesResponse>(response.wire() + rest) == Some(response),
        decoded::<QueryForGamesResponse>(response.wire()) == Some(response),
{
    lemma_round_trip::<QueryForGamesResponse>(response);
    lemma_round_trip_with_trailer::<QueryForGamesResponse>(response, rest);
}

/// Every announcement of a new lobby parses back from its bytes, whatever
/// follows them.
pub proof fn lemma_new_server_hosted_round_trip(hosted: NewServerHosted, rest: Seq<u8>)
    ensures
        decoded::<NewServerHosted>(NewServerHosted::wire(hosted) + rest) == Some(hosted),
        decoded::<NewServerHosted>(NewServerHosted::wire(hosted)) == Some(hosted),
{
    lemma_round_trip::<NewServerHosted>(hosted);
    lemma_round_trip_with_trailer::<NewServerHosted>(hosted, rest);
}

/// Every announcement of a closed lobby parses back from its bytes,
/// whatever follows them.
pub proof fn lemma_server_closed_round_trip(closed: ServerClosed, rest: Seq<u8>)
    ensures
        decoded::<ServerClosed>(ServerClosed::wire(closed) + rest) == Some(closed),
        decoded::<ServerClosed>(ServerClosed::wire(closed)) == Some(closed),
{
    lemma_round_trip::<ServerClosed>(closed);
    lemma_round_trip_with_trailer::<ServerClosed>(closed, rest);
}

/// What kind of discovery packet a datagram is.
#[derive(Debug, PartialEq, Eq)]
pub enum Wc3UdpMessageType {
    /// A query for games.
    QueryForGamesRequest,
    /// The answer to a query for games, with what it says.
    QueryForGamesResponse(QueryForGamesResponse),
    /// The announcement of a new lobby.
    NewServerHosted,
    /// A change in the number of players of a lobby.
    NumberOfPlayersChanged,
    /// The announcement that a lobby has closed.
    ServerClosed,
}

/// What a `Wc3UdpMessageType` holds, as mathematical values.
pub enum Wc3UdpMessageTypeView {
    QueryForGamesRequest,
    QueryForGamesResponse(QueryForGamesResponseView),
    NewServerHosted,
    NumberOfPlayersChanged,
    ServerClosed,
}

impl View for Wc3UdpMessageType {
    type V = Wc3UdpMessageTypeView;

    open spec fn view(&self) -> Wc3UdpMessageTypeView {
        match self {
            Self::QueryForGamesRequest => Wc3UdpMessageTypeView::QueryForGamesRequest,
            Self::QueryForGamesResponse(r) => Wc3UdpMessageTypeView::QueryForGamesResponse(r@),
            Self::NewServerHosted => Wc3UdpMessageTypeView::NewServerHosted,
            Self::NumberOfPlayersChanged => Wc3UdpMessageTypeView::NumberOfPlayersChanged,
            Self::ServerClosed => Wc3UdpMessageTypeView::ServerClosed,
        }
    }
}

/// Whether `opcode` is one of the five discovery opcodes.
pub open spec fn is_discovery_opcode(opcode: u8) -> bool {
    opcode == OPCODE_QUERY_FOR_GAMES_REQUEST || opcode == OPCODE_QUERY_FOR_GAMES_RESPONSE
        || opcode == OPCODE_NEW_SERVER_HOSTED || opcode == OPCODE_NUMBER_OF_PLAYERS_CHANGED
        || opcode == OPCODE_SERVER_CLOSED
}

/// The kind of packet that `bytes` is: decided by the header byte and the
/// opcode, and for the answer to a query also by whether it parses.
pub open spec fn classify(bytes: Seq<u8>) -> Option<Wc3UdpMessageTypeView> {
    if bytes.len() < 2 || bytes[0] != PACKET_HEADER {
        None
    } else if bytes[1] == OPCODE_QUERY_FOR_GAMES_REQUEST {
        Some(Wc3UdpMessageTypeView::QueryForGamesRequest)
    } else if bytes[1] == OPCODE_QUERY_FOR_GAMES_RESPONSE {
        match decoded::<QueryForGamesResponse>(bytes) {
            Some(m) => Some(Wc3UdpMessageTypeView::QueryForGamesResponse(m)),
            None => None,
        }
    } else if bytes[1] == OPCODE_NEW_SERVER_HOSTED {
        Some(Wc3UdpMessageTypeView::NewServerHosted)
    } else if bytes[1] == OPCODE_NUMBER_OF_PLAYERS_CHANGED {
        Some(Wc3UdpMessageTypeView::NumberOfPlayersChanged)
    } else if bytes[1] == OPCODE_SERVER_CLOSED {
        Some(Wc3UdpMessageTypeView::ServerClosed)
    } else {
        None
    }
}

/// A datagram has no kind exactly when it is shorter than two bytes, does
/// not start with the header byte, carries none of the five opcodes, or
/// carries the opcode of an answer and starts with no well-formed answer.
pub proof fn lemma_classify_none_iff(bytes: Seq<u8>)
    ensures
        classify(bytes) is None <==> (bytes.len() < 2 || bytes[0] != PACKET_HEADER
            || !is_discovery_opcode(bytes[1]) || (bytes[1] == OPCODE_QUERY_FOR_GAMES_RESPONSE
            && forall|m: QueryForGamesResponseView|
            !(m.well_formed() && #[trigger] m.wire().is_prefix_of(bytes)))),
{
    if bytes.len() >= 2 && bytes[0] == PACKET_HEADER && bytes[1]
        == OPCODE_QUERY_FOR_GAMES_RESPONSE {
        if decoded::<QueryForGamesResponse>(bytes) is None {
            assert forall|m: QueryForGamesResponseView|
                !(m.well_formed() && #[trigger] m.wire().is_prefix_of(bytes)) by {
                assert(!decodes::<QueryForGamesResponse>(bytes, m));
            }
        } else {
            let m = decoded::<QueryForGamesResponse>(bytes)->0;
            assert(decodes::<QueryForGamesResponse>(bytes, m));
            assert(m.well_formed() && m.wire().is_prefix_of(bytes));
        }
    }
}

/// The four kinds that carry nothing are told by two bytes alone.
pub proof fn lemma_classify_by_opcode(bytes: Seq<u8>)
    requires
        bytes.len() >= 2,
        bytes[0] == PACKET_HEADER,
    ensures
        bytes[1] == OPCODE_QUERY_FOR_GAMES_REQUEST ==> classify(bytes) == Some(
            Wc3UdpMessageTypeView::QueryForGamesRequest,
        ),
        bytes[1] == OPCODE_NEW_SERVER_HOSTED ==> classify(bytes) == Some(
            Wc3UdpMessageTypeView::NewServerHosted,
        ),
        bytes[1] == OPCODE_NUMBER_OF_PLAYERS_CHANGED ==> classify(bytes) == Some(
            Wc3UdpMessageTypeView::NumberOfPlayersChanged,
        ),
        bytes[1] == OPCODE_SERVER_CLOSED ==> classify(bytes) == Some(
            Wc3UdpMessageTypeView::ServerClosed,
        ),
{
}

/// A datagram that starts with a well-formed answer is classified as that
/// answer.
pub proof fn lemma_classify_response(m: QueryForGamesResponseView, rest: Seq<u8>)
    requires
        m.well_formed(),
    ensures
        classify(m.wire() + rest) == Some(Wc3UdpMessageTypeView::QueryForGamesResponse(m)),
{
    let bytes = m.wire() + rest;
    m.lemma_layout();
    m.lemma_head_layout();
    assert(m.wire().is_prefix_of(bytes)) by {
        assert(bytes.subrange(0, m.wire().len() as int) =~= m.wire());
    }
    m.lemma_prefix_layout(bytes);
    lemma_decoded_is::<QueryForGamesResponse>(bytes, m);
}

impl Wc3UdpMessageType {
    /// Tells what kind of discovery packet `packet` is, and parses it where
    /// it is the answer to a query.
    ///
    /// `None` for a datagram of fewer than two bytes, without the header
    /// byte, with an unknown opcode, or with the opcode of an answer and
    /// bytes that do not parse as one.
    pub fn detect(packet: &[u8]) -> (r: Option<Wc3UdpMessageType>)
        ensures
            match r {
                Some(kind) => classify(packet@) == Some(kind@),
                None => classify(packet@) is None,
            },
    {
        if packet.len() < 2 || packet[0] != PACKET_HEADER {
            return None;
        }
        let opcode: u8 = packet[1];
        if opcode == OPCODE_QUERY_FOR_GAMES_REQUEST {
            Some(Wc3UdpMessageType::QueryForGamesRequest)
        } else if opcode == OPCODE_QUERY_FOR_GAMES_RESPONSE {
            match crate::utils::try_parse::<QueryForGamesResponse>(packet) {
                Some(response) => Some(Wc3UdpMessageType::QueryForGamesResponse(response)),
                None => None,
            }
        } else if opcode == OPCODE_NEW_SERVER_HOSTED {
            Some(Wc3UdpMessageType::NewServerHosted)
        } else if opcode == OPCODE_NUMBER_OF_PLAYERS_CHANGED {
            Some(Wc3UdpMessageType::NumberOfPlayersChanged)
        } else if opcode == OPCODE_SERVER_CLOSED {
            Some(Wc3UdpMessageType::ServerClosed)
        } else {
            None
        }
    }
}

/// A packet that the tunnel itself sends: the events in the life of a lobby
/// that the host tells its clients.
#[derive(Debug, PartialEq, Eq)]
pub enum GenerableWc3UdpMessageType {
    /// A lobby has opened.
    NewServerHosted(NewServerHosted),
    /// The lobby is open, and this is what it says of itself.
    QueryForGamesResponse(QueryForGamesResponse),
    /// The lobby has closed.
    ServerClosed(ServerClosed),
}

/// What a `GenerableWc3UdpMessageType` holds, as mathematical values.
pub enum GenerableWc3UdpMessageTypeView {
    NewServerHosted(NewServerHosted),
    QueryForGamesResponse(QueryForGamesResponseView),
    ServerClosed(ServerClosed),
}

impl View for GenerableWc3UdpMessageType {
    type V = GenerableWc3UdpMessageTypeView;

    open spec fn view(&self) -> GenerableWc3UdpMessageTypeView {
        match self {
            Self::NewServerHosted(p) => GenerableWc3UdpMessageTypeView::NewServerHosted(*p),
            Self::QueryForGamesResponse(p) => {
                GenerableWc3UdpMessageTypeView::QueryForGamesResponse(p@)
            },
            Self::ServerClosed(p) => GenerableWc3UdpMessageTypeView::ServerClosed(*p),
        }
    }
}

impl Clone for GenerableWc3UdpMessageType {
    fn clone(&self) -> (r: GenerableWc3UdpMessageType)
        ensures
            r@ == self@,
    {
        match self {
            Self::NewServerHosted(p) => Self::NewServerHosted(*p),
            Self::QueryForGamesResponse(p) => Self::QueryForGamesResponse(p.clone()),
            Self::ServerClosed(p) => Self::ServerClosed(*p),
        }
    }
}

impl GenerableWc3UdpMessageTypeView {
    /// The opcode under which the event travels.
    pub open spec fn opcode(self) -> u8 {
        match self {
            Self::NewServerHosted(_) => OPCODE_NEW_SERVER_HOSTED,
            Self::QueryForGamesResponse(_) => OPCODE_QUERY_FOR_GAMES_RESPONSE,
            Self::ServerClosed(_) => OPCODE_SERVER_CLOSED,
        }
    }

    /// Every event starts with the header byte and its own opcode.
    pub proof fn lemma_starts_with_opcode(self)
        ensures
            GenerableWc3UdpMessageType::wire(self).len() >= 6,
            GenerableWc3UdpMessageType::wire(self)[0] == PACKET_HEADER,
            GenerableWc3UdpMessageType::wire(self)[1] == self.opcode(),
    {
        match self {
            GenerableWc3UdpMessageTypeView::QueryForGamesResponse(m) => {
                m.lemma_layout();
                m.lemma_head_layout();
                assert(m.wire()[0] == m.wire().subrange(0, 20)[0]);
                assert(m.wire()[1] == m.wire().subrange(0, 20)[1]);
            },
            _ => {},
        }
    }
}

impl WireFormat for GenerableWc3UdpMessageType {
    open spec fn encodable(m: GenerableWc3UdpMessageTypeView) -> bool {
        match m {
            GenerableWc3UdpMessageTypeView::NewServerHosted(p) => NewServerHosted::encodable(p),
            GenerableWc3UdpMessageTypeView::QueryForGamesResponse(p) => {
                QueryForGamesResponse::encodable(p)
            },
            GenerableWc3UdpMessageTypeView::ServerClosed(p) => ServerClosed::encodable(p),
        }
    }

    open spec fn wire(m: GenerableWc3UdpMessageTypeView) -> Seq<u8> {
        match m {
            GenerableWc3UdpMessageTypeView::NewServerHosted(p) => NewServerHosted::wire(p),
            GenerableWc3UdpMessageTypeView::QueryForGamesResponse(p) => {
                QueryForGamesResponse::wire(p)
            },
            GenerableWc3UdpMessageTypeView::ServerClosed(p) => ServerClosed::wire(p),
        }
    }

    proof fn lemma_prefix_free(
        a: GenerableWc3UdpMessageTypeView,
        b: GenerableWc3UdpMessageTypeView,
        bytes: Seq<u8>,
    ) {
        a.lemma_starts_with_opcode();
        b.lemma_starts_with_opcode();
        assert(Self::wire(a)[1] == bytes[1]);
        assert(Self::wire(b)[1] == bytes[1]);
        match (a, b) {
            (
                GenerableWc3UdpMessageTypeView::NewServerHosted(p),
                GenerableWc3UdpMessageTypeView::NewServerHosted(q),
            ) => {
                NewServerHosted::lemma_prefix_free(p, q, bytes);
            },
            (
                GenerableWc3UdpMessageTypeView::QueryForGamesResponse(p),
                GenerableWc3UdpMessageTypeView::QueryForGamesResponse(q),
            ) => {
                QueryForGamesResponse::lemma_prefix_free(p, q, bytes);
            },
            (
                GenerableWc3UdpMessageTypeView::ServerClosed(p),
                GenerableWc3UdpMessageTypeView::ServerClosed(q),
            ) => {
                ServerClosed::lemma_prefix_free(p, q, bytes);
            },
            _ => {},
        }
    }

    fn parse(data: &[u8]) -> (r: Option<GenerableWc3UdpMessageType>) {
        if data.len() < 2 {
            assert forall|m: GenerableWc3UdpMessageTypeView|
                !(Self::encodable(m) && #[trigger] Self::wire(m).is_prefix_of(data@)) by {
                m.lemma_starts_with_opcode();
            }
            return None;
        }
        let opcode: u8 = data[1];
        assert forall|m: GenerableWc3UdpMessageTypeView|
            Self::encodable(m) && #[trigger] Self::wire(m).is_prefix_of(data@) implies m.opcode()
            == opcode by {
            m.lemma_starts_with_opcode();
            assert(Self::wire(m)[1] == data@[1]);
        }
        if opcode == OPCODE_NEW_SERVER_HOSTED {
            match NewServerHosted::parse(data) {
                Some(p) => Some(GenerableWc3UdpMessageType::NewServerHosted(p)),
                None => {
                    assert forall|m: GenerableWc3UdpMessageTypeView|
                        !(Self::encodable(m) && #[trigger] Self::wire(m).is_prefix_of(data@)) by {
                        if let GenerableWc3UdpMessageTypeView::NewServerHosted(p) = m {
                            assert(!(NewServerHosted::encodable(p) && NewServerHosted::wire(
                                p,
                            ).is_prefix_of(data@)));
                        }
                    }
                    None
                },
            }
        } else if opcode == OPCODE_QUERY_FOR_GAMES_RESPONSE {
            match QueryForGamesResponse::parse(data) {
                Some(p) => Some(GenerableWc3UdpMessageType::QueryForGamesResponse(p)),
                None => {
                    assert forall|m: GenerableWc3UdpMessageTypeView|
                        !(Self::encodable(m) && #[trigger] Self::wire(m).is_prefix_of(data@)) by {
                        if let GenerableWc3UdpMessageTypeView::QueryForGamesResponse(p) = m {
                            assert(!(QueryForGamesResponse::encodable(p)
                                && QueryForGamesResponse::wire(p).is_prefix_of(data@)));
                        }
                    }
                    None
                },
            }
        } else if opcode == OPCODE_SERVER_CLOSED {
            match ServerClosed::parse(data) {
                Some(p) => Some(GenerableWc3UdpMessageType::ServerClosed(p)),
                None => {
                    assert forall|m: GenerableWc3UdpMessageTypeView|
                        !(Self::encodable(m) && #[trigger] Self::wire(m).is_prefix_of(data@)) by {
                        if let GenerableWc3UdpMessageTypeView::ServerClosed(p) = m {
                            assert(!(ServerClosed::encodable(p) && ServerClosed::wire(
                                p,
                            ).is_prefix_of(data@)));
                        }
                    }
                    None
                },
            }
        } else {
            None
        }
    }

    fn serialize(&self) -> (r: Option<Vec<u8>>) {
        match self {
            GenerableWc3UdpMessageType::NewServerHosted(p) => p.serialize(),
            GenerableWc3UdpMessageType::QueryForGamesResponse(p) => p.serialize(),
            GenerableWc3UdpMessageType::ServerClosed(p) => p.serialize(),
        }
    }
}

/// `packet` with its last two bytes replaced by `new_port`, little-endian.
pub open spec fn with_port_patched(packet: Seq<u8>, new_port: u16) -> Seq<u8>
    recommends
        packet.len() >= 2,
{
    packet.subrange(0, packet.len() - 2) + le_bytes_u16(new_port)
}

/// Overwrites the last two bytes of `packet`, where the answer to a query
/// holds its port, with `new_port`.
pub fn update_port(packet: &mut [u8], new_port: u16)
    requires
        old(packet)@.len() >= 2,
    ensures
        final(packet)@ == with_port_patched(old(packet)@, new_port),
{
    let n: usize = packet.len();
    packet[n - 2] = (new_port % 256) as u8;
    packet[n - 1] = (new_port / 256) as u8;
    assert(packet@ =~= with_port_patched(old(packet)@, new_port));
}

/// `packet` with the bytes from offset 20 on overwritten by `new_name`.
pub open spec fn with_name_patched(packet: Seq<u8>, new_name: Seq<u8>) -> Seq<u8>
    recommends
        RESPONSE_NAME_OFFSET + new_name.len() <= packet.len(),
{
    packet.subrange(0, RESPONSE_NAME_OFFSET as int) + new_name + packet.subrange(
        RESPONSE_NAME_OFFSET + new_name.len(),
        packet.len() as int,
    )
}

/// Overwrites the bytes of `packet` from offset 20 on, where the answer to a
/// query holds its name, with `new_name`. The length of the packet and the
/// bytes after the overwritten ones stay as they are.
pub fn hack_game_name(packet: &mut [u8], new_name: &[u8])
    requires
        RESPONSE_NAME_OFFSET + new_name@.len() <= old(packet)@.len(),
    ensures
        final(packet)@ == with_name_patched(old(packet)@, new_name@),
{
    let len: usize = packet.len();
    assert(packet@ =~= with_name_patched(old(packet)@, new_name@.subrange(0, 0)));
    let mut offset: usize = 0;
    while offset < new_name.len()
        invariant
            offset <= new_name@.len(),
            len == packet@.len() == old(packet)@.len(),
            RESPONSE_NAME_OFFSET + new_name@.len() <= len,
            packet@ == with_name_patched(old(packet)@, new_name@.subrange(0, offset as int)),
        decreases new_name@.len() - offset,
    {
        packet[RESPONSE_NAME_OFFSET + offset] = new_name[offset];
        offset += 1;
        assert(packet@ =~= with_name_patched(
            old(packet)@,
            new_name@.subrange(0, offset as int),
        ));
    }
    assert(new_name@.subrange(0, offset as int) =~= new_name@);
}

/// On the bytes of an answer, `update_port` changes the port and nothing
/// else: the patched bytes are the bytes of the answer with the new port.
pub proof fn lemma_update_port_on_response(m: QueryForGamesResponseView, new_port: u16)
    ensures
        with_port_patched(m.wire(), new_port) == (QueryForGamesResponseView {
            tcp_port: new_port,
            ..m
        }).wire(),
{
    let patched = QueryForGamesResponseView { tcp_port: new_port, ..m };
    m.lemma_layout();
    patched.lemma_layout();
    assert(patched.head() == m.head()) by {
        reveal(QueryForGamesResponseView::head);
    }
    assert(patched.tail() =~= m.tail().subrange(0, 20) + le_bytes_u16(new_port)) by {
        reveal(QueryForGamesResponseView::tail);
    }
    assert(with_port_patched(m.wire(), new_port) =~= patched.wire());
}

/// On the bytes of an answer, `hack_game_name` with a name as long as the
/// one that the answer has changes the name and nothing else. With a name
/// of another length it overwrites what follows the name or leaves a part
/// of the old name in place.
pub proof fn lemma_hack_game_name_on_response(m: QueryForGamesResponseView, new_name: Seq<u8>)
    requires
        new_name.len() == m.game_name.len(),
    ensures
        with_name_patched(m.wire(), new_name) == (QueryForGamesResponseView {
            game_name: new_name,
            ..m
        }).wire(),
{
    let patched = QueryForGamesResponseView { game_name: new_name, ..m };
    m.lemma_layout();
    patched.lemma_layout();
    assert(patched.head() == m.head()) by {
        reveal(QueryForGamesResponseView::head);
    }
    assert(patched.tail() == m.tail()) by {
        reveal(QueryForGamesResponseView::tail);
    }
    assert(with_name_patched(m.wire(), new_name) =~= patched.wire());
}

} // verus!
