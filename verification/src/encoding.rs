//! Byte-level building blocks of the discovery wire format: little-endian
//! integers and NUL-terminated byte strings.

use vstd::prelude::*;
use vstd::arithmetic::div_mod::lemma_fundamental_div_mod_converse;

verus! {

/// The two bytes of `x`, least significant first.
pub open spec fn le_bytes_u16(x: u16) -> Seq<u8> {
    seq![(x % 256) as u8, (x / 256) as u8]
}

/// The four bytes of `x`, least significant first.
pub open spec fn le_bytes_u32(x: u32) -> Seq<u8> {
    seq![
        (x % 256) as u8,
        (x / 256 % 256) as u8,
        (x / 65536 % 256) as u8,
        (x / 16777216) as u8,
    ]
}

/// The number that two bytes spell, least significant first.
pub open spec fn le_value_u16(b: Seq<u8>) -> int
    recommends
        b.len() == 2,
{
    b[0] + 256 * b[1]
}

/// The number that four bytes spell, least significant first.
pub open spec fn le_value_u32(b: Seq<u8>) -> int
    recommends
        b.len() == 4,
{
    b[0] + 256 * b[1] + 65536 * b[2] + 16777216 * b[3]
}

/// No byte of `s` is zero, so `s` can stand before a NUL terminator.
pub open spec fn has_no_nul(s: Seq<u8>) -> bool {
    forall|i: int| 0 <= i < s.len() ==> s[i] != 0
}

/// Encoding a `u16` and reading the bytes back gives the number again.
pub proof fn lemma_le_u16_value_of_bytes(x: u16)
    ensures
        le_bytes_u16(x).len() == 2,
        le_value_u16(le_bytes_u16(x)) == x,
{
}

/// Two bytes are the encoding of the number they spell.
pub proof fn lemma_le_u16_bytes_of_value(b: Seq<u8>)
    requires
        b.len() == 2,
    ensures
        0 <= le_value_u16(b) <= u16::MAX,
        le_bytes_u16(le_value_u16(b) as u16) == b,
{
    assert(le_bytes_u16(le_value_u16(b) as u16) =~= b);
}

/// Encoding a `u32` and reading the bytes back gives the number again.
pub proof fn lemma_le_u32_value_of_bytes(x: u32)
    ensures
        le_bytes_u32(x).len() == 4,
        le_value_u32(le_bytes_u32(x)) == x,
{
    let b = le_bytes_u32(x);
    let x = x as int;
    let hi = x / 65536;
    let lo = x % 65536;
    assert(x == 65536 * hi + lo);
    assert(0 <= hi < 65536);
    assert(lo / 256 == x / 256 % 256) by {
        lemma_digits(x, lo / 256, lo % 256, hi % 256, hi / 256);
    }
    assert(lo % 256 == x % 256) by {
        lemma_digits(x, lo / 256, lo % 256, hi % 256, hi / 256);
    }
    assert(b[0] == lo % 256);
    assert(b[1] == lo / 256);
    assert(b[2] == hi % 256);
    assert(b[3] == x / 16777216 == hi / 256) by {
        lemma_digits(x, lo / 256, lo % 256, hi % 256, hi / 256);
    }
}

/// Four bytes are the encoding of the number they spell.
pub proof fn lemma_le_u32_bytes_of_value(b: Seq<u8>)
    requires
        b.len() == 4,
    ensures
        0 <= le_value_u32(b) <= u32::MAX,
        le_bytes_u32(le_value_u32(b) as u32) == b,
{
    let x = le_value_u32(b);
    lemma_digits(x, b[1] as int, b[0] as int, b[2] as int, b[3] as int);
    assert(le_bytes_u32(x as u32) =~= b);
}

/// The four base-256 digits of a number are what division and remainder by
/// powers of 256 give.
proof fn lemma_digits(x: int, d1: int, d0: int, d2: int, d3: int)
    requires
        0 <= d0 < 256,
        0 <= d1 < 256,
        0 <= d2 < 256,
        0 <= d3 < 256,
        x == d0 + 256 * d1 + 65536 * d2 + 16777216 * d3,
    ensures
        x % 256 == d0,
        x / 256 % 256 == d1,
        x / 65536 % 256 == d2,
        x / 16777216 == d3,
        x % 65536 == d0 + 256 * d1,
        x / 65536 == d2 + 256 * d3,
{
    lemma_fundamental_div_mod_converse(x, 256, d1 + 256 * d2 + 65536 * d3, d0);
    lemma_fundamental_div_mod_converse(x / 256, 256, d2 + 256 * d3, d1);
    lemma_fundamental_div_mod_converse(x, 65536, d2 + 256 * d3, d0 + 256 * d1);
    lemma_fundamental_div_mod_converse(x / 65536, 256, d3, d2);
    lemma_fundamental_div_mod_converse(x, 16777216, d3, d0 + 256 * d1 + 65536 * d2);
}

/// Different `u16` values have different encodings.
pub proof fn lemma_le_u16_injective(x: u16, y: u16)
    requires
        le_bytes_u16(x) == le_bytes_u16(y),
    ensures
        x == y,
{
    lemma_le_u16_value_of_bytes(x);
    lemma_le_u16_value_of_bytes(y);
}

/// Different `u32` values have different encodings.
pub proof fn lemma_le_u32_injective(x: u32, y: u32)
    requires
        le_bytes_u32(x) == le_bytes_u32(y),
    ensures
        x == y,
{
    lemma_le_u32_value_of_bytes(x);
    lemma_le_u32_value_of_bytes(y);
}

/// Reads the little-endian `u16` that starts at `at`.
pub fn read_u16_le(data: &[u8], at: usize) -> (x: u16)
    requires
        at + 2 <= data@.len(),
    ensures
        x == le_value_u16(data@.subrange(at as int, at + 2)),
        le_bytes_u16(x) == data@.subrange(at as int, at + 2),
{
    let lo: u16 = data[at] as u16;
    let hi: u16 = data[at + 1] as u16;
    let x: u16 = lo + hi * 256;
    proof {
        lemma_le_u16_bytes_of_value(data@.subrange(at as int, at + 2));
    }
    x
}

/// Reads the little-endian `u32` that starts at `at`.
pub fn read_u32_le(data: &[u8], at: usize) -> (x: u32)
    requires
        at + 4 <= data@.len(),
    ensures
        x == le_value_u32(data@.subrange(at as int, at + 4)),
        le_bytes_u32(x) == data@.subrange(at as int, at + 4),
{
    let b0: u32 = data[at] as u32;
    let b1: u32 = data[at + 1] as u32;
    let b2: u32 = data[at + 2] as u32;
    let b3: u32 = data[at + 3] as u32;
    let x: u32 = b0 + b1 * 256 + b2 * 65536 + b3 * 16777216;
    proof {
        lemma_le_u32_bytes_of_value(data@.subrange(at as int, at + 4));
    }
    x
}

/// Appends the little-endian encoding of `x`.
pub fn push_u16_le(out: &mut Vec<u8>, x: u16)
    ensures
        final(out)@ == old(out)@ + le_bytes_u16(x),
{
    out.push((x % 256) as u8);
    out.push((x / 256) as u8);
    assert(out@ =~= old(out)@ + le_bytes_u16(x));
}

/// Appends the little-endian encoding of `x`.
pub fn push_u32_le(out: &mut Vec<u8>, x: u32)
    ensures
        final(out)@ == old(out)@ + le_bytes_u32(x),
{
    out.push((x % 256) as u8);
    out.push((x / 256 % 256) as u8);
    out.push((x / 65536 % 256) as u8);
    out.push((x / 16777216) as u8);
    assert(out@ =~= old(out)@ + le_bytes_u32(x));
}

/// Appends every byte of `bytes`.
pub fn push_bytes(out: &mut Vec<u8>, bytes: &[u8])
    ensures
        final(out)@ == old(out)@ + bytes@,
{
    let mut i: usize = 0;
    while i < bytes.len()
        invariant
            i <= bytes@.len(),
            out@ == old(out)@ + bytes@.subrange(0, i as int),
        decreases bytes@.len() - i,
    {
        out.push(bytes[i]);
        i += 1;
        assert(out@ =~= old(out)@ + bytes@.subrange(0, i as int));
    }
    assert(bytes@.subrange(0, i as int) =~= bytes@);
}

/// Copies the bytes of `data` from `from` up to, not including, `to`.
pub fn copy_range(data: &[u8], from: usize, to: usize) -> (out: Vec<u8>)
    requires
        from <= to <= data@.len(),
    ensures
        out@ == data@.subrange(from as int, to as int),
{
    let mut out: Vec<u8> = Vec::new();
    let mut i: usize = from;
    while i < to
        invariant
            from <= i <= to <= data@.len(),
            out@ == data@.subrange(from as int, i as int),
        decreases to - i,
    {
        out.push(data[i]);
        i += 1;
        assert(out@ =~= data@.subrange(from as int, i as int));
    }
    out
}

/// Index of the first zero byte at or after `from`, or the length of `data`
/// where there is none.
pub fn find_nul(data: &[u8], from: usize) -> (at: usize)
    requires
        from <= data@.len(),
    ensures
        from <= at <= data@.len(),
        forall|k: int| from <= k < at ==> data@[k] != 0,
        has_no_nul(data@.subrange(from as int, at as int)),
        at < data@.len() ==> data@[at as int] == 0,
{
    let mut at: usize = from;
    while at < data.len() && data[at] != 0
        invariant
            from <= at <= data@.len(),
            forall|k: int| from <= k < at ==> data@[k] != 0,
        decreases data@.len() - at,
    {
        at += 1;
    }
    at
}

/// Whether some byte of `data` is zero.
pub fn contains_nul(data: &[u8]) -> (found: bool)
    ensures
        found == !has_no_nul(data@),
{
    let at: usize = find_nul(data, 0);
    assert(data@.subrange(0, data@.len() as int) =~= data@);
    at < data.len()
}

} // verus!
