//! What it means for a packet type to have a wire format, and what follows
//! for every such type.

use vstd::prelude::*;

verus! {

/// A value with a byte representation that can be recognised at the start of
/// a datagram.
///
/// The contracts speak of the value's view. `wire` says what the bytes of an
/// encodable value are; parsing is its inverse on prefixes: a datagram parses
/// to the one value whose bytes it starts with, and bytes that follow are
/// ignored.
pub trait WireFormat: View + Sized {
    /// Whether `m` has a byte representation at all.
    spec fn encodable(m: Self::V) -> bool;

    /// The bytes that represent `m`.
    spec fn wire(m: Self::V) -> Seq<u8>;

    /// No two encodable values start the same byte sequence, so the end of a
    /// packet can be told from its own bytes.
    proof fn lemma_prefix_free(a: Self::V, b: Self::V, bytes: Seq<u8>)
        requires
            Self::encodable(a),
            Self::encodable(b),
            Self::wire(a).is_prefix_of(bytes),
            Self::wire(b).is_prefix_of(bytes),
        ensures
            a == b,
    ;

    /// Reads the value that `data` starts with; `None` where `data` starts
    /// with no encodable value.
    fn parse(data: &[u8]) -> (r: Option<Self>)
        ensures
            match r {
                Some(x) => Self::encodable(x@) && Self::wire(x@).is_prefix_of(data@),
                None => forall|m: Self::V|
                    !(Self::encodable(m) && #[trigger] Self::wire(m).is_prefix_of(data@)),
            },
    ;

    /// The bytes of `self`; `None` where `self` is not encodable.
    fn serialize(&self) -> (r: Option<Vec<u8>>)
        ensures
            match r {
                Some(bytes) => Self::encodable(self@) && bytes@ == Self::wire(self@),
                None => !Self::encodable(self@),
            },
    ;
}

/// `bytes` starts with the representation of `m`.
pub open spec fn decodes<T: WireFormat>(bytes: Seq<u8>, m: T::V) -> bool {
    T::encodable(m) && T::wire(m).is_prefix_of(bytes)
}

/// The value that `bytes` starts with, if there is one.
pub open spec fn decoded<T: WireFormat>(bytes: Seq<u8>) -> Option<T::V> {
    if exists|m: T::V| decodes::<T>(bytes, m) {
        Some(choose|m: T::V| decodes::<T>(bytes, m))
    } else {
        None
    }
}

/// The bytes that stand for `m`, if it has any.
pub open spec fn serialized<T: WireFormat>(m: T::V) -> Option<Seq<u8>> {
    if T::encodable(m) {
        Some(T::wire(m))
    } else {
        None
    }
}

/// A datagram that starts with the bytes of `m` decodes to `m` and to nothing
/// else.
pub proof fn lemma_decoded_is<T: WireFormat>(bytes: Seq<u8>, m: T::V)
    requires
        decodes::<T>(bytes, m),
    ensures
        decoded::<T>(bytes) == Some(m),
{
    let c = choose|c: T::V| decodes::<T>(bytes, c);
    T::lemma_prefix_free(c, m, bytes);
}

/// Serialising and parsing again gives the value back: the bytes of an
/// encodable value decode to that value.
pub proof fn lemma_round_trip<T: WireFormat>(m: T::V)
    requires
        T::encodable(m),
    ensures
        decoded::<T>(T::wire(m)) == Some(m),
{
    assert(T::wire(m).is_prefix_of(T::wire(m)));
    lemma_decoded_is::<T>(T::wire(m), m);
}

/// Bytes that follow a packet do not change what it decodes to.
pub proof fn lemma_round_trip_with_trailer<T: WireFormat>(m: T::V, rest: Seq<u8>)
    requires
        T::encodable(m),
    ensures
        decoded::<T>(T::wire(m) + rest) == Some(m),
{
    assert(T::wire(m).is_prefix_of(T::wire(m) + rest)) by {
        assert((T::wire(m) + rest).subrange(0, T::wire(m).len() as int) =~= T::wire(m));
    }
    lemma_decoded_is::<T>(T::wire(m) + rest, m);
}

/// Whatever a datagram decodes to is encodable, and its bytes are the start
/// of the datagram: parsing and serialising again gives back the bytes read.
pub proof fn lemma_decoded_reencodes<T: WireFormat>(bytes: Seq<u8>)
    requires
        decoded::<T>(bytes) is Some,
    ensures
        T::encodable(decoded::<T>(bytes)->0),
        T::wire(decoded::<T>(bytes)->0).is_prefix_of(bytes),
{
}

} // verus!
