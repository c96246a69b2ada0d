//! Random bytes from the system's source, and their unpadded URL-safe
//! Base64 text.

use vstd::prelude::*;
use base64::Engine;

verus! {

/// The character of a 6-bit value in the URL-safe Base64 alphabet:
/// `A`-`Z`, `a`-`z`, `0`-`9`, `-`, `_`.
pub open spec fn url_safe_char(v: int) -> char {
    if v < 26 {
        (65 + v) as char
    } else if v < 52 {
        (97 + v - 26) as char
    } else if v < 62 {
        (48 + v - 52) as char
    } else if v == 62 {
        '-'
    } else {
        '_'
    }
}

/// The unpadded URL-safe Base64 text of `bytes`: each group of three bytes
/// gives four characters of six bits each; a last group of one or two
/// bytes gives two or three characters, its missing bits taken as zero.
pub open spec fn base64_url_no_pad(bytes: Seq<u8>) -> Seq<char>
    decreases bytes.len(),
{
    if bytes.len() == 0 {
        Seq::empty()
    } else if bytes.len() == 1 {
        seq![url_safe_char(bytes[0] as int / 4), url_safe_char((bytes[0] as int % 4) * 16)]
    } else if bytes.len() == 2 {
        seq![
            url_safe_char(bytes[0] as int / 4),
            url_safe_char((bytes[0] as int % 4) * 16 + bytes[1] as int / 16),
            url_safe_char((bytes[1] as int % 16) * 4),
        ]
    } else {
        seq![
            url_safe_char(bytes[0] as int / 4),
            url_safe_char((bytes[0] as int % 4) * 16 + bytes[1] as int / 16),
            url_safe_char((bytes[1] as int % 16) * 4 + bytes[2] as int / 64),
            url_safe_char(bytes[2] as int % 64),
        ] + base64_url_no_pad(bytes.skip(3))
    }
}

/// The unpadded Base64 text of `n` bytes has four characters for each
/// whole group of three and two or three for a last group of one or two.
pub proof fn lemma_base64_length(bytes: Seq<u8>)
    ensures
        base64_url_no_pad(bytes).len() == 4 * (bytes.len() / 3) + if bytes.len() % 3 == 0 {
            0
        } else {
            bytes.len() % 3 + 1
        },
    decreases bytes.len(),
{
    if bytes.len() >= 3 {
        lemma_base64_length(bytes.skip(3));
    }
}

/// Calls `URL_SAFE_NO_PAD.encode` of the `base64` crate. Claimed: the text
/// is the unpadded URL-safe Base64 of the bytes, as `base64_url_no_pad`
/// writes it out.
#[verifier::external_body]
pub(crate) fn encode_base64_url_no_pad(bytes: &[u8]) -> (r: String)
    ensures
        r@ == base64_url_no_pad(bytes@),
{
    base64::engine::general_purpose::URL_SAFE_NO_PAD.encode(bytes)
}

/// Calls `getrandom::getrandom` on a buffer of `n` bytes: the bytes the
/// system source gave, or `None` when it failed. Claimed: `n` bytes come
/// back; nothing is claimed of their values.
#[verifier::external_body]
pub(crate) fn random_bytes(n: usize) -> (r: Option<Vec<u8>>)
    ensures
        r matches Some(v) ==> v@.len() == n,
{
    let mut bytes = vec![0u8; n];
    getrandom::getrandom(&mut bytes).ok().map(|_| bytes)
}

/// `n` fresh random bytes from the system's source, in unpadded URL-safe
/// Base64; `None` when the source fails.
pub fn random_text(n: usize) -> (r: Option<String>)
    ensures
        r matches Some(t) ==> exists|b: Seq<u8>| b.len() == n && t@ == base64_url_no_pad(b),
        r matches Some(t) ==> t@.len() == 4 * (n / 3) + if n % 3 == 0 {
            0
        } else {
            n % 3 + 1
        },
{
    match random_bytes(n) {
        Some(bytes) => {
            let t = encode_base64_url_no_pad(bytes.as_slice());
            assert(bytes@.len() == n);
            proof {
                lemma_base64_length(bytes@);
            }
            Some(t)
        },
        None => None,
    }
}

} // verus!
