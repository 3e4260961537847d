//! Content digests: the SHA-1 of a file's bytes, written in lower-case
//! hexadecimal.

use sha1::{Digest, Sha1};
use vstd::prelude::*;

verus! {

/// The SHA-1 of `data`, as the twenty bytes that `sha1::Sha1` computes.
pub uninterp spec fn sha1_digest(data: Seq<u8>) -> Seq<u8>;

/// `Sha1::digest` of the `sha1` crate: the hash of the whole input in one
/// call. Believed of it: the output is the SHA-1 of the input, and is twenty
/// bytes long (the crate's output size).
#[verifier::external_body]
fn sha1(data: &[u8]) -> (out: Vec<u8>)
    ensures
        out@ == sha1_digest(data@),
        out@.len() == 20,
{
    Sha1::digest(data).to_vec()
}

/// The sixteen digits, in order of their value.
pub open spec fn hex_digits() -> Seq<char> {
    seq!['0', '1', '2', '3', '4', '5', '6', '7', '8', '9', 'a', 'b', 'c', 'd', 'e', 'f']
}

/// Two digits for each byte, the high half first.
pub open spec fn hex(bytes: Seq<u8>) -> Seq<char>
    decreases bytes.len(),
{
    if bytes.len() == 0 {
        Seq::empty()
    } else {
        hex(bytes.drop_last()).push(hex_digits()[bytes.last() as int / 16]).push(
            hex_digits()[bytes.last() as int % 16],
        )
    }
}

/// The digest of a file's content.
pub open spec fn digest_of(content: Seq<u8>) -> Seq<char> {
    hex(sha1_digest(content))
}

/// Whether `c` is one of the sixteen digits.
pub open spec fn is_hex_digit(c: char) -> bool {
    hex_digits().contains(c)
}

/// The hexadecimal form of `bytes` has two digits for each byte and holds
/// digits only.
pub proof fn lemma_hex_shape(bytes: Seq<u8>)
    ensures
        hex(bytes).len() == 2 * bytes.len(),
        forall|i: int| 0 <= i < hex(bytes).len() ==> is_hex_digit(#[trigger] hex(bytes)[i]),
    decreases bytes.len(),
{
    if bytes.len() > 0 {
        lemma_hex_shape(bytes.drop_last());
        let high = bytes.last() as int / 16;
        let low = bytes.last() as int % 16;
        assert(hex_digits().contains(hex_digits()[high]));
        assert(hex_digits().contains(hex_digits()[low]));
    }
}

fn digit(value: u8) -> (c: char)
    requires
        value < 16,
    ensures
        c == hex_digits()[value as int],
{
    match value {
        0 => '0',
        1 => '1',
        2 => '2',
        3 => '3',
        4 => '4',
        5 => '5',
        6 => '6',
        7 => '7',
        8 => '8',
        9 => '9',
        10 => 'a',
        11 => 'b',
        12 => 'c',
        13 => 'd',
        14 => 'e',
        _ => 'f',
    }
}

/// Writes `bytes` in lower-case hexadecimal.
pub fn to_hex(bytes: &[u8]) -> (text: String)
    ensures
        text@ == hex(bytes@),
{
    let mut text = String::new();
    let mut i: usize = 0;
    while i < bytes.len()
        invariant
            i <= bytes@.len(),
            text@ == hex(bytes@.take(i as int)),
        decreases bytes@.len() - i,
    {
        let byte = bytes[i];
        text.push(digit(byte / 16));
        text.push(digit(byte % 16));
        proof {
            let next = bytes@.take(i + 1);
            assert(next.drop_last() == bytes@.take(i as int));
            assert(next.last() == byte);
        }
        i += 1;
    }
    proof {
        assert(bytes@.take(i as int) == bytes@);
    }
    text
}

/// The digest of `content`: forty hexadecimal digits.
pub fn content_digest(content: &[u8]) -> (digest: String)
    ensures
        digest@ == digest_of(content@),
        digest@.len() == 40,
        forall|i: int| 0 <= i < digest@.len() ==> is_hex_digit(#[trigger] digest@[i]),
{
    let raw = sha1(content);
    proof {
        lemma_hex_shape(raw@);
    }
    to_hex(raw.as_slice())
}

} // verus!
