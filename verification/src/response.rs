//! The answer to a query for games: the one discovery packet of variable
//! length, and the one that the tunnel reads field by field.
//!
//! On the wire it is twenty bytes of fixed fields, the name of the lobby and
//! its NUL, one byte, the obfuscated settings and their NUL, and twenty-two
//! more bytes of fixed fields that end with the port.

use vstd::prelude::*;
use crate::codec::WireFormat;
use crate::encoding::{
    contains_nul, copy_range, find_nul, has_no_nul, le_bytes_u16, le_bytes_u32,
    lemma_le_u16_injective, lemma_le_u32_injective, push_bytes, push_u16_le, push_u32_le,
    read_u16_le, read_u32_le,
};
use crate::packets::{GameType, OPCODE_QUERY_FOR_GAMES_RESPONSE, PACKET_HEADER};

verus! {

/// The answer of a hosting Warcraft III instance to a query for games: the
/// lobby that it hosts and the port on which it accepts players.
#[derive(Debug, PartialEq, Eq)]
pub struct QueryForGamesResponse {
    /// Number of bytes of the packet on the wire.
    pub packet_size: u16,
    /// Product of the lobby.
    pub game_type: GameType,
    /// Minor version of the lobby.
    pub game_version: u32,
    /// Identifies the lobby among those of its host.
    pub game_id: u32,
    /// Carried through unchanged.
    pub unknown2: u32,
    /// Name of the lobby, without its terminator.
    pub game_name: Vec<u8>,
    /// Carried through unchanged.
    pub unknown3: u8,
    /// Obfuscated settings of the lobby, without their terminator.
    pub encoded: Vec<u8>,
    /// Number of slots of the map.
    pub number_of_slots: u32,
    /// Flags of the lobby.
    pub game_flags: u32,
    /// Number of players in the lobby.
    pub number_of_players: u32,
    /// Number of slots that players can take.
    pub number_of_player_slots: u32,
    /// Seconds since the lobby opened.
    pub game_age: u32,
    /// Port on which the host accepts players.
    pub tcp_port: u16,
}

/// What a `QueryForGamesResponse` holds, as mathematical values.
pub struct QueryForGamesResponseView {
    pub packet_size: u16,
    pub game_type: GameType,
    pub game_version: u32,
    pub game_id: u32,
    pub unknown2: u32,
    pub game_name: Seq<u8>,
    pub unknown3: u8,
    pub encoded: Seq<u8>,
    pub number_of_slots: u32,
    pub game_flags: u32,
    pub number_of_players: u32,
    pub number_of_player_slots: u32,
    pub game_age: u32,
    pub tcp_port: u16,
}

impl View for QueryForGamesResponse {
    type V = QueryForGamesResponseView;

    open spec fn view(&self) -> QueryForGamesResponseView {
        QueryForGamesResponseView {
            packet_size: self.packet_size,
            game_type: self.game_type,
            game_version: self.game_version,
            game_id: self.game_id,
            unknown2: self.unknown2,
            game_name: self.game_name@,
            unknown3: self.unknown3,
            encoded: self.encoded@,
            number_of_slots: self.number_of_slots,
            game_flags: self.game_flags,
            number_of_players: self.number_of_players,
            number_of_player_slots: self.number_of_player_slots,
            game_age: self.game_age,
            tcp_port: self.tcp_port,
        }
    }
}

/// Number of bytes of a response before its name.
pub const RESPONSE_NAME_OFFSET: usize = 20;

/// Number of bytes of a response that are neither name nor settings.
pub const RESPONSE_FIXED_SIZE: usize = 45;

impl QueryForGamesResponseView {
    /// The twenty bytes that come before the name.
    #[verifier::opaque]
    pub open spec fn head(self) -> Seq<u8> {
        seq![PACKET_HEADER, OPCODE_QUERY_FOR_GAMES_RESPONSE] + le_bytes_u16(self.packet_size)
            + self.game_type.magic() + le_bytes_u32(self.game_version) + le_bytes_u32(
            self.game_id,
        ) + le_bytes_u32(self.unknown2)
    }

    /// The twenty-two bytes that come after the settings.
    #[verifier::opaque]
    pub open spec fn tail(self) -> Seq<u8> {
        le_bytes_u32(self.number_of_slots) + le_bytes_u32(self.game_flags) + le_bytes_u32(
            self.number_of_players,
        ) + le_bytes_u32(self.number_of_player_slots) + le_bytes_u32(self.game_age)
            + le_bytes_u16(self.tcp_port)
    }

    /// The bytes of the response on the wire.
    pub open spec fn wire(self) -> Seq<u8> {
        self.head() + self.game_name + seq![0u8, self.unknown3] + self.encoded + seq![0u8]
            + self.tail()
    }

    /// Number of bytes of the name.
    pub open spec fn name_len(self) -> int {
        self.game_name.len() as int
    }

    /// Number of bytes of the settings.
    pub open spec fn encoded_len(self) -> int {
        self.encoded.len() as int
    }

    /// Number of bytes of the response on the wire.
    pub open spec fn wire_len(self) -> int {
        self.name_len() + self.encoded_len() + RESPONSE_FIXED_SIZE
    }

    /// Neither string holds the byte that would end it early.
    pub open spec fn well_formed(self) -> bool {
        has_no_nul(self.game_name) && has_no_nul(self.encoded)
    }

    /// The size that the packet states is the size that it has.
    pub open spec fn size_consistent(self) -> bool {
        self.packet_size == self.wire_len()
    }

    /// What the bytes before the name are, field by field.
    pub proof fn lemma_head_layout(self)
        ensures
            self.head().len() == 20,
            self.head()[0] == PACKET_HEADER,
            self.head()[1] == OPCODE_QUERY_FOR_GAMES_RESPONSE,
            self.head().subrange(2, 4) == le_bytes_u16(self.packet_size),
            self.head().subrange(4, 8) == self.game_type.magic(),
            self.head().subrange(8, 12) == le_bytes_u32(self.game_version),
            self.head().subrange(12, 16) == le_bytes_u32(self.game_id),
            self.head().subrange(16, 20) == le_bytes_u32(self.unknown2),
    {
        reveal(QueryForGamesResponseView::head);
        let h = self.head();
        assert(h.subrange(2, 4) =~= le_bytes_u16(self.packet_size));
        assert(h.subrange(4, 8) =~= self.game_type.magic());
        assert(h.subrange(8, 12) =~= le_bytes_u32(self.game_version));
        assert(h.subrange(12, 16) =~= le_bytes_u32(self.game_id));
        assert(h.subrange(16, 20) =~= le_bytes_u32(self.unknown2));
    }

    /// What the bytes after the settings are, field by field.
    pub proof fn lemma_tail_layout(self)
        ensures
            self.tail().len() == 22,
            self.tail().subrange(0, 4) == le_bytes_u32(self.number_of_slots),
            self.tail().subrange(4, 8) == le_bytes_u32(self.game_flags),
            self.tail().subrange(8, 12) == le_bytes_u32(self.number_of_players),
            self.tail().subrange(12, 16) == le_bytes_u32(self.number_of_player_slots),
            self.tail().subrange(16, 20) == le_bytes_u32(self.game_age),
            self.tail().subrange(20, 22) == le_bytes_u16(self.tcp_port),
    {
        reveal(QueryForGamesResponseView::tail);
        let t = self.tail();
        assert(t.subrange(0, 4) =~= le_bytes_u32(self.number_of_slots));
        assert(t.subrange(4, 8) =~= le_bytes_u32(self.game_flags));
        assert(t.subrange(8, 12) =~= le_bytes_u32(self.number_of_players));
        assert(t.subrange(12, 16) =~= le_bytes_u32(self.number_of_player_slots));
        assert(t.subrange(16, 20) =~= le_bytes_u32(self.game_age));
        assert(t.subrange(20, 22) =~= le_bytes_u16(self.tcp_port));
    }

    /// Twenty bytes that hold the five fixed fields in their places are the
    /// head.
    pub proof fn lemma_head_from_fields(self, h: Seq<u8>)
        requires
            h.len() == 20,
            h[0] == PACKET_HEADER,
            h[1] == OPCODE_QUERY_FOR_GAMES_RESPONSE,
            h.subrange(2, 4) == le_bytes_u16(self.packet_size),
            h.subrange(4, 8) == self.game_type.magic(),
            h.subrange(8, 12) == le_bytes_u32(self.game_version),
            h.subrange(12, 16) == le_bytes_u32(self.game_id),
            h.subrange(16, 20) == le_bytes_u32(self.unknown2),
        ensures
            h == self.head(),
    {
        self.lemma_head_layout();
        let g = self.head();
        assert forall|k: int| 0 <= k < 20 implies h[k] == g[k] by {
            if 2 <= k < 4 {
                assert(h[k] == h.subrange(2, 4)[k - 2]);
                assert(g[k] == g.subrange(2, 4)[k - 2]);
            } else if 4 <= k < 8 {
                assert(h[k] == h.subrange(4, 8)[k - 4]);
                assert(g[k] == g.subrange(4, 8)[k - 4]);
            } else if 8 <= k < 12 {
                assert(h[k] == h.subrange(8, 12)[k - 8]);
                assert(g[k] == g.subrange(8, 12)[k - 8]);
            } else if 12 <= k < 16 {
                assert(h[k] == h.subrange(12, 16)[k - 12]);
                assert(g[k] == g.subrange(12, 16)[k - 12]);
            } else if 16 <= k < 20 {
                assert(h[k] == h.subrange(16, 20)[k - 16]);
                assert(g[k] == g.subrange(16, 20)[k - 16]);
            }
        }
        assert(h =~= g);
    }

    /// Twenty-two bytes that hold the six trailing fields in their places
    /// are the tail.
    pub proof fn lemma_tail_from_fields(self, t: Seq<u8>)
        requires
            t.len() == 22,
            t.subrange(0, 4) == le_bytes_u32(self.number_of_slots),
            t.subrange(4, 8) == le_bytes_u32(self.game_flags),
            t.subrange(8, 12) == le_bytes_u32(self.number_of_players),
            t.subrange(12, 16) == le_bytes_u32(self.number_of_player_slots),
            t.subrange(16, 20) == le_bytes_u32(self.game_age),
            t.subrange(20, 22) == le_bytes_u16(self.tcp_port),
        ensures
            t == self.tail(),
    {
        self.lemma_tail_layout();
        let g = self.tail();
        assert forall|k: int| 0 <= k < 22 implies t[k] == g[k] by {
            if k < 4 {
                assert(t[k] == t.subrange(0, 4)[k]);
                assert(g[k] == g.subrange(0, 4)[k]);
            } else if k < 8 {
                assert(t[k] == t.subrange(4, 8)[k - 4]);
                assert(g[k] == g.subrange(4, 8)[k - 4]);
            } else if k < 12 {
                assert(t[k] == t.subrange(8, 12)[k - 8]);
                assert(g[k] == g.subrange(8, 12)[k - 8]);
            } else if k < 16 {
                assert(t[k] == t.subrange(12, 16)[k - 12]);
                assert(g[k] == g.subrange(12, 16)[k - 12]);
            } else if k < 20 {
                assert(t[k] == t.subrange(16, 20)[k - 16]);
                assert(g[k] == g.subrange(16, 20)[k - 16]);
            } else {
                assert(t[k] == t.subrange(20, 22)[k - 20]);
                assert(g[k] == g.subrange(20, 22)[k - 20]);
            }
        }
        assert(t =~= g);
    }

    /// Responses with the same head agree on the fields before the name.
    pub proof fn lemma_head_injective(self, other: QueryForGamesResponseView)
        requires
            self.head() == other.head(),
        ensures
            self.packet_size == other.packet_size,
            self.game_type == other.game_type,
            self.game_version == other.game_version,
            self.game_id == other.game_id,
            self.unknown2 == other.unknown2,
    {
        self.lemma_head_layout();
        other.lemma_head_layout();
        lemma_le_u16_injective(self.packet_size, other.packet_size);
        GameType::lemma_magic_injective(self.game_type, other.game_type);
        lemma_le_u32_injective(self.game_version, other.game_version);
        lemma_le_u32_injective(self.game_id, other.game_id);
        lemma_le_u32_injective(self.unknown2, other.unknown2);
    }

    /// Responses with the same tail agree on the fields after the settings.
    pub proof fn lemma_tail_injective(self, other: QueryForGamesResponseView)
        requires
            self.tail() == other.tail(),
        ensures
            self.number_of_slots == other.number_of_slots,
            self.game_flags == other.game_flags,
            self.number_of_players == other.number_of_players,
            self.number_of_player_slots == other.number_of_player_slots,
            self.game_age == other.game_age,
            self.tcp_port == other.tcp_port,
    {
        self.lemma_tail_layout();
        other.lemma_tail_layout();
        lemma_le_u32_injective(self.number_of_slots, other.number_of_slots);
        lemma_le_u32_injective(self.game_flags, other.game_flags);
        lemma_le_u32_injective(self.number_of_players, other.number_of_players);
        lemma_le_u32_injective(self.number_of_player_slots, other.number_of_player_slots);
        lemma_le_u32_injective(self.game_age, other.game_age);
        lemma_le_u16_injective(self.tcp_port, other.tcp_port);
    }

    /// Where each part lies among the bytes of the response.
    pub proof fn lemma_layout(self)
        ensures
            self.wire().len() == self.wire_len(),
            self.head().len() == 20,
            self.tail().len() == 22,
            self.wire().subrange(0, 20) == self.head(),
            self.wire().subrange(20, 20 + self.name_len()) == self.game_name,
            self.wire()[20 + self.name_len()] == 0,
            self.wire()[21 + self.name_len()] == self.unknown3,
            self.wire().subrange(
                22 + self.name_len(),
                22 + self.name_len() + self.encoded_len(),
            ) == self.encoded,
            self.wire()[22 + self.name_len() + self.encoded_len()] == 0,
            self.wire().subrange(self.wire_len() - 22, self.wire_len()) == self.tail(),
    {
        self.lemma_head_layout();
        self.lemma_tail_layout();
        let n = self.name_len();
        let e = self.encoded_len();
        let w = self.wire();
        assert(w.subrange(0, 20) =~= self.head());
        assert(w.subrange(20, 20 + n) =~= self.game_name);
        assert(w.subrange(22 + n, 22 + n + e) =~= self.encoded);
        assert(w.subrange(self.wire_len() - 22, self.wire_len()) =~= self.tail());
    }

    /// What a datagram that starts with a well-formed response looks like:
    /// the name ends at the first NUL after the head, the settings at the
    /// first NUL after that.
    pub proof fn lemma_prefix_layout(self, bytes: Seq<u8>)
        requires
            self.well_formed(),
            self.wire().is_prefix_of(bytes),
        ensures
            bytes.len() >= self.wire_len(),
            bytes.subrange(0, self.wire_len()) == self.wire(),
            bytes[0] == PACKET_HEADER,
            bytes[1] == OPCODE_QUERY_FOR_GAMES_RESPONSE,
            bytes.subrange(4, 8) == self.game_type.magic(),
            forall|k: int| 20 <= k < 20 + self.name_len() ==> bytes[k] != 0,
            bytes[20 + self.name_len()] == 0,
            forall|k: int|
                22 + self.name_len() <= k < 22 + self.name_len() + self.encoded_len()
                    ==> bytes[k] != 0,
            bytes[22 + self.name_len() + self.encoded_len()] == 0,
    {
        let n = self.name_len();
        let e = self.encoded_len();
        let w = self.wire();
        self.lemma_layout();
        self.lemma_head_layout();
        assert(bytes.subrange(0, self.wire_len()) =~= w);
        assert(w[0] == w.subrange(0, 20)[0]);
        assert(w[1] == w.subrange(0, 20)[1]);
        assert(bytes.subrange(4, 8) =~= self.game_type.magic()) by {
            assert(w.subrange(4, 8) =~= w.subrange(0, 20).subrange(4, 8));
            assert(bytes.subrange(4, 8) =~= w.subrange(4, 8));
        }
        assert forall|k: int| 20 <= k < 20 + n implies bytes[k] != 0 by {
            assert(bytes[k] == w[k]);
            assert(w[k] == self.game_name[k - 20]);
        }
        assert(bytes[20 + n] == w[20 + n]);
        assert forall|k: int| 22 + n <= k < 22 + n + e implies bytes[k] != 0 by {
            assert(bytes[k] == w[k]);
            assert(w[k] == self.encoded[k - 22 - n]);
        }
        assert(bytes[22 + n + e] == w[22 + n + e]);
    }

    /// Two well-formed responses that start the same datagram have the same
    /// parts.
    pub proof fn lemma_same_prefix_same_parts(
        self,
        other: QueryForGamesResponseView,
        bytes: Seq<u8>,
    )
        requires
            self.well_formed(),
            other.well_formed(),
            self.wire().is_prefix_of(bytes),
            other.wire().is_prefix_of(bytes),
        ensures
            self.head() == other.head(),
            self.game_name == other.game_name,
            self.unknown3 == other.unknown3,
            self.encoded == other.encoded,
            self.tail() == other.tail(),
    {
        self.lemma_prefix_layout(bytes);
        other.lemma_prefix_layout(bytes);
        let n = self.name_len();
        let e = self.encoded_len();
        assert(n == other.name_len()) by {
            if n < other.name_len() {
                assert(bytes[20 + n] != 0);
            }
            if other.name_len() < n {
                assert(bytes[20 + other.name_len()] != 0);
            }
        }
        assert(e == other.encoded_len()) by {
            if e < other.encoded_len() {
                assert(bytes[22 + n + e] != 0);
            }
            if other.encoded_len() < e {
                assert(bytes[22 + n + other.encoded_len()] != 0);
            }
        }
        assert(self.wire_len() == other.wire_len());
        assert(self.wire() == other.wire());
        self.lemma_layout();
        other.lemma_layout();
    }
}

impl Clone for QueryForGamesResponse {
    fn clone(&self) -> (r: QueryForGamesResponse)
        ensures
            r@ == self@,
    {
        let game_name = copy_range(self.game_name.as_slice(), 0, self.game_name.len());
        let encoded = copy_range(self.encoded.as_slice(), 0, self.encoded.len());
        assert(game_name@ =~= self.game_name@);
        assert(encoded@ =~= self.encoded@);
        QueryForGamesResponse {
            packet_size: self.packet_size,
            game_type: self.game_type,
            game_version: self.game_version,
            game_id: self.game_id,
            unknown2: self.unknown2,
            game_name,
            unknown3: self.unknown3,
            encoded,
            number_of_slots: self.number_of_slots,
            game_flags: self.game_flags,
            number_of_players: self.number_of_players,
            number_of_player_slots: self.number_of_player_slots,
            game_age: self.game_age,
            tcp_port: self.tcp_port,
        }
    }
}

/// A datagram that is too short for a response, or starts with another
/// header or opcode, starts with no response.
proof fn lemma_no_response_without_header(bytes: Seq<u8>)
    requires
        bytes.len() < RESPONSE_FIXED_SIZE || bytes[0] != PACKET_HEADER || bytes[1]
            != OPCODE_QUERY_FOR_GAMES_RESPONSE,
    ensures
        forall|m: QueryForGamesResponseView|
            !(m.well_formed() && #[trigger] m.wire().is_prefix_of(bytes)),
{
    assert forall|m: QueryForGamesResponseView|
        !(m.well_formed() && #[trigger] m.wire().is_prefix_of(bytes)) by {
        if m.well_formed() && m.wire().is_prefix_of(bytes) {
            m.lemma_prefix_layout(bytes);
        }
    }
}

/// A datagram whose product bytes name no product starts with no response.
proof fn lemma_no_response_without_game_type(bytes: Seq<u8>)
    requires
        forall|t: GameType| #[trigger] t.magic() != bytes.subrange(4, 8),
    ensures
        forall|m: QueryForGamesResponseView|
            !(m.well_formed() && #[trigger] m.wire().is_prefix_of(bytes)),
{
    assert forall|m: QueryForGamesResponseView|
        !(m.well_formed() && #[trigger] m.wire().is_prefix_of(bytes)) by {
        if m.well_formed() && m.wire().is_prefix_of(bytes) {
            m.lemma_prefix_layout(bytes);
            assert(m.game_type.magic() == bytes.subrange(4, 8));
        }
    }
}

/// A datagram whose name does not end, or ends too late to leave room for
/// the rest, starts with no response.
proof fn lemma_no_response_without_name(bytes: Seq<u8>, name_end: int)
    requires
        20 <= name_end <= bytes.len(),
        forall|k: int| 20 <= k < name_end ==> bytes[k] != 0,
        name_end == bytes.len() || bytes.len() - name_end < 25,
    ensures
        forall|m: QueryForGamesResponseView|
            !(m.well_formed() && #[trigger] m.wire().is_prefix_of(bytes)),
{
    assert forall|m: QueryForGamesResponseView|
        !(m.well_formed() && #[trigger] m.wire().is_prefix_of(bytes)) by {
        if m.well_formed() && m.wire().is_prefix_of(bytes) {
            m.lemma_prefix_layout(bytes);
            assert(bytes[20 + m.name_len()] == 0);
        }
    }
}

/// A datagram whose settings do not end, or end too late to leave room for
/// the rest, starts with no response.
proof fn lemma_no_response_without_settings(bytes: Seq<u8>, name_end: int, encoded_end: int)
    requires
        20 <= name_end < bytes.len(),
        forall|k: int| 20 <= k < name_end ==> bytes[k] != 0,
        bytes[name_end] == 0,
        name_end + 2 <= encoded_end <= bytes.len(),
        forall|k: int| name_end + 2 <= k < encoded_end ==> bytes[k] != 0,
        encoded_end == bytes.len() || bytes.len() - encoded_end < 23,
    ensures
        forall|m: QueryForGamesResponseView|
            !(m.well_formed() && #[trigger] m.wire().is_prefix_of(bytes)),
{
    assert forall|m: QueryForGamesResponseView|
        !(m.well_formed() && #[trigger] m.wire().is_prefix_of(bytes)) by {
        if m.well_formed() && m.wire().is_prefix_of(bytes) {
            m.lemma_prefix_layout(bytes);
            assert(bytes[20 + m.name_len()] == 0);
            assert(m.name_len() == name_end - 20);
            assert(bytes[22 + m.name_len() + m.encoded_len()] == 0);
        }
    }
}

/// A response whose fields were read from their places in a datagram is a
/// well-formed response that the datagram starts with.
proof fn lemma_response_read(m: QueryForGamesResponseView, bytes: Seq<u8>)
    requires
        bytes.len() >= m.wire_len(),
        bytes[0] == PACKET_HEADER,
        bytes[1] == OPCODE_QUERY_FOR_GAMES_RESPONSE,
        bytes.subrange(2, 4) == le_bytes_u16(m.packet_size),
        bytes.subrange(4, 8) == m.game_type.magic(),
        bytes.subrange(8, 12) == le_bytes_u32(m.game_version),
        bytes.subrange(12, 16) == le_bytes_u32(m.game_id),
        bytes.subrange(16, 20) == le_bytes_u32(m.unknown2),
        bytes.subrange(20, 20 + m.name_len()) == m.game_name,
        forall|k: int| 20 <= k < 20 + m.name_len() ==> bytes[k] != 0,
        bytes[20 + m.name_len()] == 0,
        bytes[21 + m.name_len()] == m.unknown3,
        bytes.subrange(22 + m.name_len(), 22 + m.name_len() + m.encoded_len()) == m.encoded,
        forall|k: int|
            22 + m.name_len() <= k < 22 + m.name_len() + m.encoded_len() ==> bytes[k] != 0,
        bytes[22 + m.name_len() + m.encoded_len()] == 0,
        bytes.subrange(m.wire_len() - 22, m.wire_len() - 18) == le_bytes_u32(m.number_of_slots),
        bytes.subrange(m.wire_len() - 18, m.wire_len() - 14) == le_bytes_u32(m.game_flags),
        bytes.subrange(m.wire_len() - 14, m.wire_len() - 10) == le_bytes_u32(
            m.number_of_players,
        ),
        bytes.subrange(m.wire_len() - 10, m.wire_len() - 6) == le_bytes_u32(
            m.number_of_player_slots,
        ),
        bytes.subrange(m.wire_len() - 6, m.wire_len() - 2) == le_bytes_u32(m.game_age),
        bytes.subrange(m.wire_len() - 2, m.wire_len()) == le_bytes_u16(m.tcp_port),
    ensures
        m.well_formed(),
        m.wire().is_prefix_of(bytes),
{
    let n = m.name_len();
    let e = m.encoded_len();
    let end = m.wire_len();
    let h = bytes.subrange(0, 20);
    let t = bytes.subrange(end - 22, end);
    assert(m.well_formed()) by {
        assert forall|i: int| 0 <= i < m.game_name.len() implies m.game_name[i] != 0 by {
            assert(m.game_name[i] == bytes.subrange(20, 20 + n)[i]);
        }
        assert forall|i: int| 0 <= i < m.encoded.len() implies m.encoded[i] != 0 by {
            assert(m.encoded[i] == bytes.subrange(22 + n, 22 + n + e)[i]);
        }
    }
    assert(h == m.head()) by {
        assert(h.subrange(2, 4) =~= bytes.subrange(2, 4));
        assert(h.subrange(4, 8) =~= bytes.subrange(4, 8));
        assert(h.subrange(8, 12) =~= bytes.subrange(8, 12));
        assert(h.subrange(12, 16) =~= bytes.subrange(12, 16));
        assert(h.subrange(16, 20) =~= bytes.subrange(16, 20));
        m.lemma_head_from_fields(h);
    }
    assert(t == m.tail()) by {
        assert(t.subrange(0, 4) =~= bytes.subrange(end - 22, end - 18));
        assert(t.subrange(4, 8) =~= bytes.subrange(end - 18, end - 14));
        assert(t.subrange(8, 12) =~= bytes.subrange(end - 14, end - 10));
        assert(t.subrange(12, 16) =~= bytes.subrange(end - 10, end - 6));
        assert(t.subrange(16, 20) =~= bytes.subrange(end - 6, end - 2));
        assert(t.subrange(20, 22) =~= bytes.subrange(end - 2, end));
        m.lemma_tail_from_fields(t);
    }
    m.lemma_layout();
    let w = m.wire();
    assert forall|k: int| 0 <= k < end implies w[k] == bytes[k] by {
        if k < 20 {
            assert(w[k] == w.subrange(0, 20)[k]);
            assert(bytes[k] == h[k]);
        } else if k < 20 + n {
            assert(w[k] == w.subrange(20, 20 + n)[k - 20]);
            assert(bytes[k] == bytes.subrange(20, 20 + n)[k - 20]);
        } else if k < 22 + n {
        } else if k < 22 + n + e {
            assert(w[k] == w.subrange(22 + n, 22 + n + e)[k - 22 - n]);
            assert(bytes[k] == bytes.subrange(22 + n, 22 + n + e)[k - 22 - n]);
        } else if k < 23 + n + e {
        } else {
            assert(w[k] == w.subrange(end - 22, end)[k - (end - 22)]);
            assert(bytes[k] == t[k - (end - 22)]);
        }
    }
    assert(w =~= bytes.subrange(0, end));
}

impl WireFormat for QueryForGamesResponse {
    open spec fn encodable(m: QueryForGamesResponseView) -> bool {
        m.well_formed()
    }

    open spec fn wire(m: QueryForGamesResponseView) -> Seq<u8> {
        m.wire()
    }

    proof fn lemma_prefix_free(
        a: QueryForGamesResponseView,
        b: QueryForGamesResponseView,
        bytes: Seq<u8>,
    ) {
        a.lemma_same_prefix_same_parts(b, bytes);
        a.lemma_head_injective(b);
        a.lemma_tail_injective(b);
    }

    fn parse(data: &[u8]) -> (r: Option<QueryForGamesResponse>) {
        if data.len() < RESPONSE_FIXED_SIZE || data[0] != PACKET_HEADER || data[1]
            != OPCODE_QUERY_FOR_GAMES_RESPONSE {
            proof {
                lemma_no_response_without_header(data@);
            }
            return None;
        }
        let packet_size: u16 = read_u16_le(data, 2);
        let game_type = match GameType::read_at(data, 4) {
            Some(t) => t,
            None => {
                proof {
                    lemma_no_response_without_game_type(data@);
                }
                return None;
            },
        };
        let game_version: u32 = read_u32_le(data, 8);
        let game_id: u32 = read_u32_le(data, 12);
        let unknown2: u32 = read_u32_le(data, 16);
        let name_end: usize = find_nul(data, RESPONSE_NAME_OFFSET);
        if name_end == data.len() || data.len() - name_end < 25 {
            proof {
                lemma_no_response_without_name(data@, name_end as int);
            }
            return None;
        }
        let game_name: Vec<u8> = copy_range(data, RESPONSE_NAME_OFFSET, name_end);
        let unknown3: u8 = data[name_end + 1];
        let encoded_start: usize = name_end + 2;
        let encoded_end: usize = find_nul(data, encoded_start);
        if encoded_end == data.len() || data.len() - encoded_end < 23 {
            proof {
                lemma_no_response_without_settings(data@, name_end as int, encoded_end as int);
            }
            return None;
        }
        let encoded: Vec<u8> = copy_range(data, encoded_start, encoded_end);
        let tail_start: usize = encoded_end + 1;
        let number_of_slots: u32 = read_u32_le(data, tail_start);
        let game_flags: u32 = read_u32_le(data, tail_start + 4);
        let number_of_players: u32 = read_u32_le(data, tail_start + 8);
        let number_of_player_slots: u32 = read_u32_le(data, tail_start + 12);
        let game_age: u32 = read_u32_le(data, tail_start + 16);
        let tcp_port: u16 = read_u16_le(data, tail_start + 20);
        let r = QueryForGamesResponse {
            packet_size,
            game_type,
            game_version,
            game_id,
            unknown2,
            game_name,
            unknown3,
            encoded,
            number_of_slots,
            game_flags,
            number_of_players,
            number_of_player_slots,
            game_age,
            tcp_port,
        };
        proof {
            lemma_response_read(r@, data@);
        }
        Some(r)
    }

    fn serialize(&self) -> (r: Option<Vec<u8>>) {
        if contains_nul(self.game_name.as_slice()) || contains_nul(self.encoded.as_slice()) {
            return None;
        }
        let mut out: Vec<u8> = Vec::new();
        out.push(PACKET_HEADER);
        out.push(OPCODE_QUERY_FOR_GAMES_RESPONSE);
        push_u16_le(&mut out, self.packet_size);
        self.game_type.write_to(&mut out);
        push_u32_le(&mut out, self.game_version);
        push_u32_le(&mut out, self.game_id);
        push_u32_le(&mut out, self.unknown2);
        assert(out@ =~= self@.head()) by {
            reveal(QueryForGamesResponseView::head);
        }
        push_bytes(&mut out, self.game_name.as_slice());
        out.push(0);
        out.push(self.unknown3);
        push_bytes(&mut out, self.encoded.as_slice());
        out.push(0);
        let ghost body = out@;
        assert(body =~= self@.head() + self@.game_name + seq![0u8, self@.unknown3]
            + self@.encoded + seq![0u8]);
        push_u32_le(&mut out, self.number_of_slots);
        push_u32_le(&mut out, self.game_flags);
        push_u32_le(&mut out, self.number_of_players);
        push_u32_le(&mut out, self.number_of_player_slots);
        push_u32_le(&mut out, self.game_age);
        push_u16_le(&mut out, self.tcp_port);
        assert(out@ =~= body + self@.tail()) by {
            reveal(QueryForGamesResponseView::tail);
        }
        Some(out)
    }
}

} // verus!
