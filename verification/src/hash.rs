//! Content hashing for asset naming: the first sixteen hexadecimal digits of
//! the SHA-256 digest of the input bytes.

use vstd::prelude::*;

verus! {

/// The SHA-256 digest of a byte sequence. Stating the algorithm itself is out
/// of reach; the digest is a pure function of the input bytes, which is all
/// the contracts here rely on.
pub uninterp spec fn sha256_of(bytes: Seq<u8>) -> Seq<u8>;

/// Relies on `sha2::Sha256` through the `Digest` trait: the digest depends on
/// the input bytes alone and is always 32 bytes long.
#[verifier::external_body]
fn sha256_bytes(bytes: &[u8]) -> (r: Vec<u8>)
    ensures
        r@ == sha256_of(bytes@),
        r@.len() == 32,
{
    let digest = <sha2::Sha256 as sha2::Digest>::digest(bytes);
    digest.to_vec()
}

/// The character for a hexadecimal digit, lowercase.
pub open spec fn hex_digit_char(d: u8) -> char {
    if d < 10 {
        ((d + 48) as u8) as char
    } else {
        ((d + 87) as u8) as char
    }
}

/// Lowercase hexadecimal encoding: two digits per byte, high digit first, in
/// input order.
pub open spec fn hex_of(bytes: Seq<u8>) -> Seq<char>
    decreases bytes.len(),
{
    if bytes.len() == 0 {
        Seq::empty()
    } else {
        seq![hex_digit_char(bytes[0] / 16), hex_digit_char(bytes[0] % 16)] + hex_of(
            bytes.skip(1),
        )
    }
}

pub proof fn lemma_hex_of_len(bytes: Seq<u8>)
    ensures
        hex_of(bytes).len() == 2 * bytes.len(),
    decreases bytes.len(),
{
    if bytes.len() > 0 {
        lemma_hex_of_len(bytes.skip(1));
    }
}

/// Relies on `hex::encode`: two lowercase hexadecimal digits per input byte,
/// in input order.
#[verifier::external_body]
fn hex_lower(bytes: &[u8]) -> (r: String)
    ensures
        r@ == hex_of(bytes@),
{
    hex::encode(bytes)
}

/// The content hash used in asset paths: the first sixteen hexadecimal digits
/// of the SHA-256 digest of `bytes`.
pub fn hash(bytes: &[u8]) -> (r: String)
    ensures
        r@ == hex_of(sha256_of(bytes@)).take(16),
        r@.len() == 16,
{
    let digest = sha256_bytes(bytes);
    let hexed = hex_lower(digest.as_slice());
    proof {
        lemma_hex_of_len(sha256_of(bytes@));
    }
    let prefix = hexed.as_str().substring_char(0, 16);
    proof {
        assert(hexed@.subrange(0, 16) =~= hexed@.take(16));
    }
    prefix.to_owned()
}

} // verus!
