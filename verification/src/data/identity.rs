//! Stable identities of feed entries: a fixed-width prefix of the SHA-1 hash
//! of the entry's upstream id, or of its link where it has none.

use sha1::{Digest, Sha1};
use vstd::prelude::*;
use vstd::string::*;
use vstd::utf8::encode_utf8;

use super::{slice_view, Item};

verus! {

/// The number of digest bytes that an identity keeps.
pub const IDENTITY_BYTES: usize = 8;

/// The SHA-1 digest of a byte string.
pub uninterp spec fn sha1_digest(data: Seq<u8>) -> Seq<u8>;

/// Hashes `data` with the `sha1` crate's `Sha1` (`Digest::new`, `update`,
/// `finalize`). Trusted: the result is the SHA-1 digest of `data`, which is
/// twenty bytes long.
#[verifier::external_body]
fn sha1_of(data: &[u8]) -> (digest: Vec<u8>)
    ensures
        digest@ == sha1_digest(data@),
        digest@.len() == 20,
{
    let mut hasher = Sha1::new();
    hasher.update(data);
    hasher.finalize().to_vec()
}

/// The sixteen lower-case hexadecimal digits, by value.
pub open spec fn hex_digits() -> Seq<char> {
    seq!['0', '1', '2', '3', '4', '5', '6', '7', '8', '9', 'a', 'b', 'c', 'd', 'e', 'f']
}

/// The lower-case hexadecimal text of a byte string: two digits per byte,
/// the high half first.
pub open spec fn hex_lower(bytes: Seq<u8>) -> Seq<char> {
    Seq::new(
        2 * bytes.len(),
        |i: int|
            if i % 2 == 0 {
                hex_digits()[bytes[i / 2] as int / 16]
            } else {
                hex_digits()[bytes[i / 2] as int % 16]
            },
    )
}

/// The text that an identity is derived from: the upstream id where there
/// is one, else the link.
pub open spec fn identity_source(raw_id: Option<Seq<char>>, link: Seq<char>) -> Seq<char> {
    match raw_id {
        Some(raw) => raw,
        None => link,
    }
}

/// The identity of an entry with the given upstream id and link.
pub open spec fn identity(raw_id: Option<Seq<char>>, link: Seq<char>) -> Seq<char> {
    hex_lower(
        sha1_digest(encode_utf8(identity_source(raw_id, link))).take(IDENTITY_BYTES as int),
    )
}

/// The digit for a value below sixteen, as a one-character string.
fn hex_digit(value: u8) -> (digit: &'static str)
    requires
        value < 16,
    ensures
        digit@ == seq![hex_digits()[value as int]],
{
    proof {
        reveal_strlit("0");
        reveal_strlit("1");
        reveal_strlit("2");
        reveal_strlit("3");
        reveal_strlit("4");
        reveal_strlit("5");
        reveal_strlit("6");
        reveal_strlit("7");
        reveal_strlit("8");
        reveal_strlit("9");
        reveal_strlit("a");
        reveal_strlit("b");
        reveal_strlit("c");
        reveal_strlit("d");
        reveal_strlit("e");
        reveal_strlit("f");
    }
    let digit = match value {
        0 => "0",
        1 => "1",
        2 => "2",
        3 => "3",
        4 => "4",
        5 => "5",
        6 => "6",
        7 => "7",
        8 => "8",
        9 => "9",
        10 => "a",
        11 => "b",
        12 => "c",
        13 => "d",
        14 => "e",
        _ => "f",
    };
    digit
}

/// Writes the first `count` bytes of `bytes` in lower-case hexadecimal.
pub fn hex_prefix(bytes: &[u8], count: usize) -> (text: String)
    requires
        count <= bytes@.len(),
    ensures
        text@ == hex_lower(bytes@.take(count as int)),
{
    let mut text = String::new();
    let mut i: usize = 0;
    while i < count
        invariant
            i <= count <= bytes@.len(),
            text@ == hex_lower(bytes@.take(i as int)),
        decreases count - i,
    {
        let byte = bytes[i];
        text.append(hex_digit(byte / 16));
        text.append(hex_digit(byte % 16));
        i = i + 1;
    }
    text
}

impl Item {
    /// The stable identity of an entry: sixteen hexadecimal digits derived
    /// from its upstream id, or from its link where it has none. The same
    /// arguments always give the same identity.
    pub fn gen_id(id: Option<&str>, link: &str) -> (generated: String)
        ensures
            generated@ == identity(slice_view(id), link@),
            generated@.len() == 2 * IDENTITY_BYTES,
    {
        let source = match id {
            Some(raw) => raw,
            None => link,
        };
        let digest = sha1_of(source.as_bytes());
        hex_prefix(digest.as_slice(), IDENTITY_BYTES)
    }
}

} // verus!
