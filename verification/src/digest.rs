//! The frame digest printed by headless runs: the BLAKE3 hash of the pixel
//! buffer, in lowercase hexadecimal.

use vstd::prelude::*;
use crate::frame::Frame;
use crate::text::{hex_chars, hex_digits, hex_string, lemma_hex_chars_shape};

verus! {

/// The 32-byte BLAKE3 hash of `data`, as computed by the `blake3` crate.
pub uninterp spec fn blake3_digest(data: Seq<u8>) -> Seq<u8>;

/// Calls `blake3::hash` and returns the hash's bytes (`Hash::as_bytes`).
/// Trusted: the result is `blake3_digest` of the input bytes; BLAKE3 is a
/// deterministic function of its input, and its output is 32 bytes long.
#[verifier::external_body]
fn blake3_hash(data: &[u8]) -> (digest: [u8; 32])
    ensures
        digest@ == blake3_digest(data@),
{
    *blake3::hash(data).as_bytes()
}

/// The lowercase hexadecimal BLAKE3 hash of the frame's pixels: 64
/// characters, each a hexadecimal digit.
pub fn frame_hash_hex(frame: &Frame) -> (s: String)
    ensures
        s@ == hex_chars(blake3_digest(frame.pixels@)),
        s@.len() == 64,
        forall|i: int| 0 <= i < s@.len() ==> hex_digits().contains(#[trigger] s@[i]),
{
    let pixels: &[u8] = frame.pixels.as_slice();
    let digest = blake3_hash(pixels);
    let s = hex_string(digest.as_slice());
    proof {
        lemma_hex_chars_shape(digest@);
    }
    s
}

} // verus!
