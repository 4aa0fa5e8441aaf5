//! Constants shared by both roles, and the two entry points of the codec.

use vstd::prelude::*;
use vstd::string::StringSliceAdditionalSpecFns;
use crate::codec::{decoded, serialized, WireFormat};
use crate::encoding::push_bytes;

verus! {

/// Name under which the tunnel shows itself to players.
pub const APP_NAME: &'static str = "Simple-WC3";

/// Port on which Warcraft III announces and accepts LAN games.
pub const WC3_DEFAULT_PORT: u16 = 6112;

/// Largest discovery datagram that either role handles.
pub const MAX_DATAGRAM_SIZE: usize = 1024;

/// Oldest game version that the scanner asks for.
pub const FIRST_SUPPORTED_GAME_VERSION: u32 = 25;

/// Newest game version that the scanner asks for.
pub const LAST_SUPPORTED_GAME_VERSION: u32 = 31;

/// What every protocol identifier of the tunnel starts with.
pub const ALPN_PREFIX: &'static str = "simple-wc3-";

/// The protocol identifier under which a host of version `version` accepts
/// clients: the prefix and then the version.
pub open spec fn alpn_for(version: Seq<u8>) -> Seq<u8> {
    ALPN_PREFIX.spec_bytes() + version
}

/// The prefix is the eleven bytes of `simple-wc3-`.
pub proof fn lemma_alpn_prefix()
    ensures
        ALPN_PREFIX.spec_bytes() == seq![
            0x73u8,
            0x69u8,
            0x6Du8,
            0x70u8,
            0x6Cu8,
            0x65u8,
            0x2Du8,
            0x77u8,
            0x63u8,
            0x33u8,
            0x2Du8,
        ],
{
    reveal_strlit("simple-wc3-");
    vstd::string::is_ascii_spec_bytes(ALPN_PREFIX);
    assert(vstd::string::is_ascii(ALPN_PREFIX)) by {
        assert(vstd::utf8::is_ascii_chars(ALPN_PREFIX@));
    }
    assert(ALPN_PREFIX.spec_bytes() =~= seq![
        0x73u8,
        0x69u8,
        0x6Du8,
        0x70u8,
        0x6Cu8,
        0x65u8,
        0x2Du8,
        0x77u8,
        0x63u8,
        0x33u8,
        0x2Du8,
    ]);
}

/// The protocol identifier for the tunnel of version `version`. Host and
/// client meet only where theirs are the same, byte for byte.
pub fn alpn(version: &str) -> (id: Vec<u8>)
    ensures
        id@ == alpn_for(version.spec_bytes()),
{
    let mut id: Vec<u8> = Vec::new();
    push_bytes(&mut id, ALPN_PREFIX.as_bytes());
    push_bytes(&mut id, version.as_bytes());
    assert(id@ =~= alpn_for(version.spec_bytes()));
    id
}

/// Parses the packet that `data` starts with.
///
/// Returns the value whose bytes `data` starts with, and `None` where there
/// is no such value: on a truncated packet, a wrong header or opcode, or a
/// field that holds no valid value.
pub fn try_parse<T: WireFormat>(data: &[u8]) -> (r: Option<T>)
    ensures
        match r {
            Some(x) => decoded::<T>(data@) == Some(x@),
            None => decoded::<T>(data@) is None,
        },
{
    let r = T::parse(data);
    proof {
        if r is Some {
            crate::codec::lemma_decoded_is::<T>(data@, r->0@);
        }
    }
    r
}

/// Serialises `value`; `None` where it has no byte representation.
pub fn try_serialize<T: WireFormat>(value: &T) -> (r: Option<Vec<u8>>)
    ensures
        match r {
            Some(bytes) => serialized::<T>(value@) == Some(bytes@),
            None => serialized::<T>(value@) is None,
        },
{
    value.serialize()
}

} // verus!
