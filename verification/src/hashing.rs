//! Content-addressed integrity: SHA-256 digests rendered as lowercase hex,
//! and comparison against the checksum expected by an index entry or manifest.
use vstd::prelude::*;

use crate::text;
use sha2::Digest;

verus! {

/// The SHA-256 digest of a byte string, as computed by the outside hasher.
pub uninterp spec fn sha256_of(bytes: Seq<u8>) -> Seq<u8>;

/// Relies on sha2::Sha256 through digest::Digest::digest: the digest is a
/// function of the input bytes alone and is exactly 32 bytes long.
#[verifier::external_body]
fn sha256_digest(data: &[u8]) -> (r: Vec<u8>)
    ensures
        r@ == sha256_of(data@),
        r@.len() == 32,
{
    sha2::Sha256::digest(data).to_vec()
}

/// The lowercase hexadecimal digit characters.
pub open spec fn hex_char(d: int) -> char {
    if d == 0 { '0' }
    else if d == 1 { '1' }
    else if d == 2 { '2' }
    else if d == 3 { '3' }
    else if d == 4 { '4' }
    else if d == 5 { '5' }
    else if d == 6 { '6' }
    else if d == 7 { '7' }
    else if d == 8 { '8' }
    else if d == 9 { '9' }
    else if d == 10 { 'a' }
    else if d == 11 { 'b' }
    else if d == 12 { 'c' }
    else if d == 13 { 'd' }
    else if d == 14 { 'e' }
    else { 'f' }
}

/// Lowercase hex rendering of a byte string, two digits per byte.
pub open spec fn hex_of_bytes(bytes: Seq<u8>) -> Seq<char>
    decreases bytes.len(),
{
    if bytes.len() == 0 {
        Seq::empty()
    } else {
        hex_of_bytes(bytes.drop_last()) + seq![
            hex_char(bytes.last() as int / 16),
            hex_char(bytes.last() as int % 16),
        ]
    }
}

/// Hex rendering is two characters per byte.
pub proof fn lemma_hex_of_bytes_len(bytes: Seq<u8>)
    ensures
        hex_of_bytes(bytes).len() == 2 * bytes.len(),
    decreases bytes.len(),
{
    if bytes.len() > 0 {
        lemma_hex_of_bytes_len(bytes.drop_last());
    }
}

fn hex_digit_str(d: u8) -> (r: &'static str)
    requires
        d < 16,
    ensures
        r@ =~= seq![hex_char(d as int)],
{
    proof {
        reveal_strlit("0");
        reveal_strlit("1");
        reveal_strlit("2");
        reveal_strlit("3");
        reveal_strlit("4");
        reveal_strlit("5");
        reveal_strlit("6");
        reveal_strlit("7");
        reveal_strlit("8");
        reveal_strlit("9");
        reveal_strlit("a");
        reveal_strlit("b");
        reveal_strlit("c");
        reveal_strlit("d");
        reveal_strlit("e");
        reveal_strlit("f");
    }
    match d {
        0 => "0",
        1 => "1",
        2 => "2",
        3 => "3",
        4 => "4",
        5 => "5",
        6 => "6",
        7 => "7",
        8 => "8",
        9 => "9",
        10 => "a",
        11 => "b",
        12 => "c",
        13 => "d",
        14 => "e",
        _ => "f",
    }
}

/// Render bytes as lowercase hex.
pub fn bytes_to_hex(data: &Vec<u8>) -> (r: String)
    ensures
        r@ == hex_of_bytes(data@),
{
    let mut out = String::new();
    let mut i: usize = 0;
    assert(data@.take(0) =~= Seq::<u8>::empty());
    while i < data.len()
        invariant
            i <= data@.len(),
            out@ == hex_of_bytes(data@.take(i as int)),
        decreases data@.len() - i,
    {
        let b = data[i];
        out.append(hex_digit_str(b / 16));
        out.append(hex_digit_str(b % 16));
        i += 1;
        proof {
            assert(data@.take(i as int).drop_last() =~= data@.take(i - 1));
            assert(data@.take(i as int).last() == data@[i - 1]);
        }
    }
    assert(data@.take(data@.len() as int) =~= data@);
    out
}

/// The lowercase hex rendering of the SHA-256 digest of a byte string.
pub open spec fn sha256_hex_of(bytes: Seq<u8>) -> Seq<char> {
    hex_of_bytes(sha256_of(bytes))
}

/// Compute the SHA-256 digest of `data` and render it as 64 lowercase hex
/// characters, the form a crate index or a channel manifest records.
pub fn sha256_hex(data: &[u8]) -> (r: String)
    ensures
        r@ == sha256_hex_of(data@),
        r@.len() == 64,
{
    let digest = sha256_digest(data);
    proof {
        lemma_hex_of_bytes_len(digest@);
    }
    bytes_to_hex(&digest)
}

/// Whether the SHA-256 digest of `data` renders to exactly `expected`.
pub fn hash_matches(data: &[u8], expected: &str) -> (r: bool)
    ensures
        r == (sha256_hex_of(data@) == expected@),
{
    let hex = sha256_hex(data);
    text::str_eq(hex.as_str(), expected)
}

} // verus!
