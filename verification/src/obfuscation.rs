//! The obfuscation under which Warcraft III sends the settings of a lobby.
//!
//! The sender strips zero bytes from a payload: it cuts the payload into
//! groups of seven bytes, adds one to every even byte, and puts a mask byte
//! before each group that says which bytes it left as they were. Decoding
//! undoes this. Nothing here encodes: the tunnel passes the settings on as
//! it got them.

use vstd::prelude::*;

verus! {

/// Whether `mask` marks the byte at position `pos` of its group as sent
/// unchanged.
pub open spec fn mask_keeps(mask: u8, pos: u8) -> bool {
    mask & (1u8 << pos) != 0
}

/// The byte that `byte` stands for under `mask`, at position `pos` of its
/// group: itself where the mask keeps it, else one less. A zero that the
/// mask does not keep wraps to 255.
pub open spec fn decoded_byte(mask: u8, pos: u8, byte: u8) -> u8 {
    if mask_keeps(mask, pos) {
        byte
    } else if byte == 0 {
        255u8
    } else {
        (byte - 1) as u8
    }
}

/// Number of bytes that `n` encoded bytes decode to: every eighth byte,
/// starting with the first, is a mask and stands for nothing.
pub open spec fn decoded_len(n: int) -> int {
    n - (n + 7) / 8
}

/// Where in the input the byte that decodes to output byte `j` stands.
pub open spec fn source_index(j: int) -> int {
    j + j / 7 + 1
}

/// Where in the input the mask for output byte `j` stands.
pub open spec fn mask_index(j: int) -> int {
    8 * (j / 7)
}

/// What `input` decodes to.
pub open spec fn decode_encoded(input: Seq<u8>) -> Seq<u8> {
    Seq::new(
        decoded_len(input.len() as int) as nat,
        |j: int| decoded_byte(input[mask_index(j)], (j % 7 + 1) as u8, input[source_index(j)]),
    )
}

/// Every input byte that is no mask decodes to one output byte, under the
/// mask that starts its group of eight: the byte at index `i`, with `i % 8`
/// from 1 to 7, gives output byte `i - i / 8 - 1` under the mask at index
/// `i - i % 8`.
pub proof fn lemma_decode_by_input_index(input: Seq<u8>, i: int)
    requires
        0 <= i < input.len(),
        i % 8 != 0,
    ensures
        0 <= i - i / 8 - 1 < decode_encoded(input).len(),
        decode_encoded(input)[i - i / 8 - 1] == decoded_byte(
            input[i - i % 8],
            (i % 8) as u8,
            input[i],
        ),
{
    let j = i - i / 8 - 1;
    assert(j / 7 == i / 8);
    assert(j % 7 + 1 == i % 8);
}

/// Tells whether `mask` keeps the byte at position `pos`.
fn keeps(mask: u8, pos: u8) -> (r: bool)
    requires
        1 <= pos <= 7,
    ensures
        r == mask_keeps(mask, pos),
{
    mask & (1u8 << pos) != 0
}

/// Undoes the obfuscation of `input`.
pub fn decode_encoded_string(input: &[u8]) -> (out: Vec<u8>)
    ensures
        out@ == decode_encoded(input@),
{
    let mut out: Vec<u8> = Vec::new();
    let mut mask: u8 = 0;
    let mut i: usize = 0;
    while i < input.len()
        invariant
            i <= input@.len(),
            out@.len() == decoded_len(i as int),
            i % 8 != 0 ==> mask == input@[i - i % 8],
            forall|j: int|
                0 <= j < out@.len() ==> out@[j] == decoded_byte(
                    input@[mask_index(j)],
                    (j % 7 + 1) as u8,
                    input@[source_index(j)],
                ),
        decreases input@.len() - i,
    {
        let pos: u8 = (i % 8) as u8;
        if pos == 0 {
            mask = input[i];
        } else {
            let byte: u8 = input[i];
            let ghost j = out@.len() as int;
            assert(j / 7 == i / 8 && j % 7 + 1 == i % 8);
            if keeps(mask, pos) {
                out.push(byte);
            } else {
                out.push(byte.wrapping_sub(1));
            }
        }
        i += 1;
    }
    assert(out@ =~= decode_encoded(input@));
    out
}

} // verus!
