//! Keccak-256 content digests and their lower-case hexadecimal rendering.

use sha3::Digest;
use sha3::Keccak256;
use vstd::prelude::*;
use vstd::string::*;

verus! {

/// The Keccak-256 digest of a byte string.
pub uninterp spec fn keccak256_digest(data: Seq<u8>) -> Seq<u8>;

/// Calls `sha3::Keccak256::digest` (the one-shot form of `digest::Digest`).
///
/// Not proved: that the bytes handed back are the Keccak-256 digest of `data`,
/// which is a function of `data` alone, and that there are 32 of them, the
/// hasher's fixed output size.
#[verifier::external_body]
pub(crate) fn keccak256(data: &[u8]) -> (out: Vec<u8>)
    ensures
        out@ == keccak256_digest(data@),
        out@.len() == 32,
{
    Keccak256::digest(data).to_vec()
}

/// The character that stands for a hexadecimal digit `d`, `0 <= d < 16`.
pub open spec fn hex_digit(d: int) -> char {
    "0123456789abcdef"@[d]
}

/// Lower-case hexadecimal rendering: two characters per byte, the high
/// nibble first, bytes in order.
pub open spec fn hex_lower(bytes: Seq<u8>) -> Seq<char> {
    Seq::new(
        2 * bytes.len(),
        |k: int|
            if k % 2 == 0 {
                hex_digit(bytes[k / 2] as int / 16)
            } else {
                hex_digit(bytes[k / 2] as int % 16)
            },
    )
}

/// The content hash of a byte string: its Keccak-256 digest in lower-case
/// hexadecimal.
pub open spec fn keccak256_hex(data: Seq<u8>) -> Seq<char> {
    hex_lower(keccak256_digest(data))
}

/// Appends the hexadecimal digit `d` to `out`.
fn push_hex_digit(out: &mut String, d: usize)
    requires
        d < 16,
    ensures
        final(out)@ == old(out)@.push(hex_digit(d as int)),
{
    let digits = "0123456789abcdef";
    proof {
        reveal_strlit("0123456789abcdef");
    }
    let one = digits.substring_ascii(d, d + 1);
    assert(one@ =~= seq![hex_digit(d as int)]);
    out.append(one);
    assert(out@ =~= old(out)@.push(hex_digit(d as int)));
}

/// Renders `bytes` in lower-case hexadecimal.
pub fn to_hex_lower(bytes: &[u8]) -> (out: String)
    ensures
        out@ == hex_lower(bytes@),
{
    let mut out = String::new();
    let mut i: usize = 0;
    while i < bytes.len()
        invariant
            i <= bytes@.len(),
            out@.len() == 2 * i,
            forall|k: int| 0 <= k < 2 * i ==> out@[k] == hex_lower(bytes@)[k],
        decreases bytes@.len() - i,
    {
        let b: u8 = bytes[i];
        let hi: usize = (b / 16) as usize;
        let lo: usize = (b % 16) as usize;
        push_hex_digit(&mut out, hi);
        push_hex_digit(&mut out, lo);
        i = i + 1;
    }
    assert(out@ =~= hex_lower(bytes@));
    out
}

/// Hashes `data` with Keccak-256 and renders the digest in lower-case
/// hexadecimal: 64 characters.
pub fn keccak256_hex_string(data: &[u8]) -> (out: String)
    ensures
        out@ == keccak256_hex(data@),
        out@.len() == 64,
{
    let digest = keccak256(data);
    to_hex_lower(digest.as_slice())
}

} // verus!
