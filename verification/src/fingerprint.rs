//! The short position fingerprint used to key the opening book: a 32-bit
//! one-at-a-time scramble of the position's FEN text, base64-encoded, cut
//! to its first five characters.

use vstd::prelude::*;

use vstd::string::StrSliceExecFns;

verus! {

/// How many characters of the encoded hash make the fingerprint.
pub const FINGERPRINT_LEN: usize = 5;

/// What `base64::engine::Engine::encode` returns with the standard padded
/// alphabet.
pub uninterp spec fn b64_of(bytes: Seq<u8>) -> Seq<char>;

/// Relies on `base64::engine::Engine::encode` with
/// `base64::engine::general_purpose::STANDARD`: ASCII output of four
/// characters per three-byte group, padded.
#[verifier::external_body]
fn b64_encode(bytes: &Vec<u8>) -> (r: String)
    ensures
        r@ == b64_of(bytes@),
        r@.len() == 4 * ((bytes@.len() + 2) / 3),
        r.is_ascii(),
{
    base64::Engine::encode(&base64::engine::general_purpose::STANDARD, bytes)
}

/// One step of the one-at-a-time scramble.
pub open spec fn mix_step(h: u32, b: u8) -> u32 {
    let h1 = vstd::wrapping::u32_specs::wrapping_add(h, b as u32);
    let h2 = vstd::wrapping::u32_specs::wrapping_add(h1, h1 << 10);
    h2 ^ (h2 >> 6)
}

/// The scramble state after the first `n` bytes.
pub open spec fn mix_upto(bytes: Seq<u8>, n: nat) -> u32
    decreases n,
{
    if n == 0 {
        0
    } else {
        mix_step(mix_upto(bytes, (n - 1) as nat), bytes[n - 1])
    }
}

/// The finished 32-bit scramble of a byte string.
pub open spec fn spec_text_hash(bytes: Seq<u8>) -> u32 {
    let h = mix_upto(bytes, bytes.len());
    let h1 = vstd::wrapping::u32_specs::wrapping_add(h, h << 3);
    let h2 = h1 ^ (h1 >> 11);
    vstd::wrapping::u32_specs::wrapping_add(h2, h2 << 15)
}

/// The big-endian bytes of a 32-bit value.
pub open spec fn spec_be_bytes(h: u32) -> Seq<u8> {
    seq![
        (h >> 24) as u8,
        ((h >> 16) & 0xff) as u8,
        ((h >> 8) & 0xff) as u8,
        (h & 0xff) as u8,
    ]
}

/// A position's book fingerprint: the first five base64 characters of the
/// big-endian scramble of its FEN text.
pub open spec fn spec_fingerprint(bytes: Seq<u8>) -> Seq<char> {
    b64_of(spec_be_bytes(spec_text_hash(bytes))).take(FINGERPRINT_LEN as int)
}

/// The 32-bit scramble of a byte string.
pub fn text_hash(bytes: &Vec<u8>) -> (r: u32)
    ensures
        r == spec_text_hash(bytes@),
{
    let mut h: u32 = 0;
    let mut i: usize = 0;
    let n = bytes.len();
    while i < n
        invariant
            i <= n,
            n == bytes@.len(),
            h == mix_upto(bytes@, i as nat),
        decreases n - i,
    {
        h = h.wrapping_add(bytes[i] as u32);
        h = h.wrapping_add(h << 10);
        h = h ^ (h >> 6);
        i = i + 1;
    }
    h = h.wrapping_add(h << 3);
    h = h ^ (h >> 11);
    h.wrapping_add(h << 15)
}

/// The book fingerprint of a position's FEN text.
pub fn pgn_parser_hash(bytes: &Vec<u8>) -> (r: String)
    ensures
        r@ == spec_fingerprint(bytes@),
        r@.len() == FINGERPRINT_LEN,
{
    let h = text_hash(bytes);
    let mut be: Vec<u8> = Vec::new();
    be.push((h >> 24) as u8);
    be.push(((h >> 16) & 0xff) as u8);
    be.push(((h >> 8) & 0xff) as u8);
    be.push((h & 0xff) as u8);
    proof {
        assert(be@ =~= spec_be_bytes(h));
    }
    let encoded = b64_encode(&be);
    let cut = encoded.as_str().substring_ascii(0, FINGERPRINT_LEN);
    String::from_str(cut)
}

} // verus!
