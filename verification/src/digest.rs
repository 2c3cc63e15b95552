//! Content hashing and the hex form in which callers supply expected hashes.

use vstd::prelude::*;

use sha2::Digest;

verus! {

/// The SHA-256 digest of a byte sequence.
pub uninterp spec fn sha256_of(data: Seq<u8>) -> Seq<u8>;

/// Relies on sha2's `Sha256`: the digest is a function of the input bytes
/// alone, always 32 bytes long.
#[verifier::external_body]
pub(crate) fn sha256_digest(data: &Vec<u8>) -> (r: Vec<u8>)
    ensures
        r@ == sha256_of(data@),
        r@.len() == 32,
{
    sha2::Sha256::digest(data.as_slice()).to_vec()
}

/// A hex digit: `0-9`, `a-f` or `A-F`.
pub open spec fn is_hex_digit(c: char) -> bool {
    ('0' as int <= c as int && c as int <= '9' as int) || ('a' as int <= c as int && c as int
        <= 'f' as int) || ('A' as int <= c as int && c as int <= 'F' as int)
}

/// Value of one hex digit.
pub open spec fn hex_digit_val(c: char) -> nat {
    if '0' as int <= c as int && c as int <= '9' as int {
        (c as int - '0' as int) as nat
    } else if 'a' as int <= c as int && c as int <= 'f' as int {
        (c as int - 'a' as int + 10) as nat
    } else if 'A' as int <= c as int && c as int <= 'F' as int {
        (c as int - 'A' as int + 10) as nat
    } else {
        0
    }
}

/// A well-formed hex string: even length, hex digits throughout.
pub open spec fn is_hex_str(s: Seq<char>) -> bool {
    s.len() % 2 == 0 && (forall|i: int| 0 <= i < s.len() ==> is_hex_digit(#[trigger] s[i]))
}

/// The bytes a well-formed hex string spells, two digits per byte, high
/// digit first.
pub open spec fn hex_bytes_of(s: Seq<char>) -> Seq<u8> {
    Seq::new(
        s.len() / 2,
        |i: int| (16 * hex_digit_val(s[2 * i]) + hex_digit_val(s[2 * i + 1])) as u8,
    )
}

/// Relies on hex's `decode`: it succeeds exactly on even-length strings of
/// hex digits (either case accepted), and returns for each digit pair the
/// byte the pair spells.
#[verifier::external_body]
pub(crate) fn hex_decode(s: &str) -> (r: Option<Vec<u8>>)
    ensures
        match r {
            Some(v) => is_hex_str(s@) && v@ == hex_bytes_of(s@),
            None => !is_hex_str(s@),
        },
{
    hex::decode(s).ok()
}

} // verus!
