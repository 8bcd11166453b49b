//! SHA-256 digests, by the `sha2` crate.

use crate::text::{is_digit, is_digit_char, to_chars};
use sha2::Digest;
use vstd::prelude::*;

verus! {

/// A hexadecimal digit, in either case.
pub open spec fn is_hex(c: char) -> bool {
    is_digit(c) || ('a' <= c <= 'f') || ('A' <= c <= 'F')
}

/// `s` is the text of a 256-bit digest: 64 hexadecimal digits.
pub open spec fn is_digest(s: Seq<char>) -> bool {
    s.len() == 64 && forall|i: int| 0 <= i < s.len() ==> is_hex(#[trigger] s[i])
}

/// No letter of a digest is a capital.
pub open spec fn no_capital(s: Seq<char>) -> bool {
    forall|i: int| 0 <= i < s.len() ==> !('A' <= #[trigger] s[i] <= 'Z')
}

/// Whether a text is that of a 256-bit digest.
pub fn digest_text(s: &str) -> (r: bool)
    ensures
        r == is_digest(s@),
{
    let v = to_chars(s);
    if v.len() != 64 {
        return false;
    }
    for i in 0..v.len()
        invariant
            v@ == s@,
            forall|j: int| 0 <= j < i ==> is_hex(#[trigger] v@[j]),
    {
        let c = v[i];
        if !(is_digit_char(c) || ('a' <= c && c <= 'f') || ('A' <= c && c <= 'F')) {
            return false;
        }
    }
    true
}

/// The SHA-256 digest of some bytes, in hexadecimal.
pub uninterp spec fn sha256_of(bytes: Seq<u8>) -> Seq<char>;

/// Calls `sha2::Sha256::digest`. The digest is a function of the bytes; written
/// out it has 64 hexadecimal digits, the letters among them small.
#[verifier::external_body]
pub(crate) fn sha256(bytes: &[u8]) -> (r: String)
    ensures
        r@ == sha256_of(bytes@),
        is_digest(r@),
        no_capital(r@),
{
    format!("{:x}", sha2::Sha256::digest(bytes))
}

/// The SHA-256 digest of the bytes of a file, in hexadecimal.
pub fn sha256_file(bytes: &Vec<u8>) -> (r: String)
    ensures
        r@ == sha256_of(bytes@),
        is_digest(r@),
        no_capital(r@),
{
    sha256(bytes.as_slice())
}

/// At most the first twelve characters of a text.
pub open spec fn first_twelve(s: Seq<char>) -> Seq<char> {
    if s.len() < 12 {
        s
    } else {
        s.take(12)
    }
}

/// Truncates a hex digest for display without ever splitting a character.
pub fn short_hash(hash: &str) -> (r: String)
    ensures
        r@ == first_twelve(hash@),
{
    let v = to_chars(hash);
    let n: usize = if v.len() < 12 {
        v.len()
    } else {
        12
    };
    let r = crate::text::from_chars(&v, 0, n);
    assert(r@ =~= first_twelve(hash@));
    r
}

/// A checksum is shown by its first twelve characters.
pub proof fn a_checksum_is_shown_by_its_beginning(s: Seq<char>)
    ensures
        first_twelve(s).is_prefix_of(s),
        s.len() >= 12 ==> first_twelve(s).len() == 12,
        s.len() < 12 ==> first_twelve(s) == s,
{
}

} // verus!
