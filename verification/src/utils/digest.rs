//! Content digests and their hexadecimal form.

use sha2::{Digest, Sha256};
use vstd::prelude::*;

verus! {

/// The SHA-256 digest of a sequence of bytes.
pub uninterp spec fn sha256(data: Seq<u8>) -> Seq<u8>;

/// The sixteen hexadecimal digits, by value.
pub open spec fn hex_digits() -> Seq<char> {
    seq!['0', '1', '2', '3', '4', '5', '6', '7', '8', '9', 'a', 'b', 'c', 'd', 'e', 'f']
}

/// `bytes` in lowercase hexadecimal, two digits for each byte, the high half
/// first.
pub open spec fn hex_lower(bytes: Seq<u8>) -> Seq<char>
    decreases bytes.len(),
{
    if bytes.len() == 0 {
        Seq::empty()
    } else {
        hex_lower(bytes.drop_last()).push(hex_digits()[(bytes.last() / 16) as int]).push(
            hex_digits()[(bytes.last() % 16) as int],
        )
    }
}

/// The identifier of a text: the SHA-256 digest of its UTF-8 bytes in
/// lowercase hexadecimal.
pub open spec fn content_hash(text: Seq<char>) -> Seq<char> {
    hex_lower(sha256(vstd::utf8::encode_utf8(text)))
}

/// The hexadecimal form has two digits for each byte.
pub proof fn lemma_hex_lower_len(bytes: Seq<u8>)
    ensures
        hex_lower(bytes).len() == 2 * bytes.len(),
    decreases bytes.len(),
{
    if bytes.len() > 0 {
        lemma_hex_lower_len(bytes.drop_last());
    }
}

/// Feeds `data` to a fresh `sha2::Sha256` hasher (`Digest::new`,
/// `Digest::update`, `Digest::finalize`) and returns the digest. The
/// contract names the result [`sha256`] and states its length, 32 bytes,
/// which is the output size that the crate declares for this hasher.
#[verifier::external_body]
pub(crate) fn sha256_digest(data: &[u8]) -> (digest: Vec<u8>)
    ensures
        digest@ == sha256(data@),
        digest@.len() == 32,
{
    let mut hasher = Sha256::new();
    hasher.update(data);
    hasher.finalize().to_vec()
}

/// Writes `bytes` in lowercase hexadecimal.
pub fn to_hex(bytes: &Vec<u8>) -> (text: String)
    ensures
        text@ == hex_lower(bytes@),
{
    let digits = "0123456789abcdef";
    proof {
        reveal_strlit("0123456789abcdef");
        assert(digits@ =~= hex_digits());
    }
    let mut text = String::new();
    let mut i: usize = 0;
    while i < bytes.len()
        invariant
            i <= bytes@.len(),
            digits@ == hex_digits(),
            digits.is_ascii(),
            text@ == hex_lower(bytes@.take(i as int)),
        decreases bytes@.len() - i,
    {
        let byte = bytes[i];
        let high: usize = (byte / 16) as usize;
        let low: usize = (byte % 16) as usize;
        proof {
            assert(bytes@.take(i + 1).drop_last() == bytes@.take(i as int));
            assert(digits@.subrange(high as int, high + 1) =~= seq![hex_digits()[high as int]]);
            assert(digits@.subrange(low as int, low + 1) =~= seq![hex_digits()[low as int]]);
        }
        text.append(digits.substring_ascii(high, high + 1));
        text.append(digits.substring_ascii(low, low + 1));
        assert(text@ =~= hex_lower(bytes@.take(i + 1)));
        i += 1;
    }
    assert(bytes@.take(i as int) == bytes@);
    text
}

/// The identifier of `s`.
pub fn compute_sha256(s: &str) -> (hash: String)
    ensures
        hash@ == content_hash(s@),
        hash@.len() == 64,
{
    let digest = sha256_digest(s.as_bytes());
    proof {
        lemma_hex_lower_len(digest@);
    }
    to_hex(&digest)
}

} // verus!
