//! Form-urlencoding of archive file names for origins that follow the
//! `myhuaweicloud.com` object-storage naming convention: such origins need
//! the `+` characters of a crate file name percent-encoded.
use vstd::prelude::*;
use vstd::string::StringSliceAdditionalSpecFns;

use crate::text;

verus! {

/// The uppercase hexadecimal digit characters.
pub open spec fn upper_hex_char(d: int) -> char {
    if d == 0 { '0' }
    else if d == 1 { '1' }
    else if d == 2 { '2' }
    else if d == 3 { '3' }
    else if d == 4 { '4' }
    else if d == 5 { '5' }
    else if d == 6 { '6' }
    else if d == 7 { '7' }
    else if d == 8 { '8' }
    else if d == 9 { '9' }
    else if d == 10 { 'A' }
    else if d == 11 { 'B' }
    else if d == 12 { 'C' }
    else if d == 13 { 'D' }
    else if d == 14 { 'E' }
    else { 'F' }
}

/// Bytes the form-urlencoded byte serializer leaves unchanged:
/// `*`, `-`, `.`, `_`, digits and ASCII letters.
pub open spec fn urlencoded_unchanged(b: u8) -> bool {
    b == 42 || b == 45 || b == 46 || b == 95 || (48 <= b <= 57) || (65 <= b <= 90) || (97 <= b
        <= 122)
}

/// What the form-urlencoded byte serializer makes of one byte: unchanged
/// bytes stay, a space becomes `+`, every other byte becomes `%` followed by
/// two uppercase hex digits.
pub open spec fn urlencode_byte(b: u8) -> Seq<char> {
    if urlencoded_unchanged(b) {
        seq![b as char]
    } else if b == 32 {
        seq!['+']
    } else {
        seq!['%', upper_hex_char(b as int / 16), upper_hex_char(b as int % 16)]
    }
}

/// Form-urlencoding of a byte string.
pub open spec fn urlencode_bytes(bytes: Seq<u8>) -> Seq<char>
    decreases bytes.len(),
{
    if bytes.len() == 0 {
        Seq::empty()
    } else {
        urlencode_byte(bytes[0]) + urlencode_bytes(bytes.skip(1))
    }
}

/// Relies on url::form_urlencoded::byte_serialize: bytes `*`, `-`, `.`, `_`,
/// digits and ASCII letters stay; a space becomes `+`; every other byte
/// becomes `%` and two uppercase hex digits.
#[verifier::external_body]
fn form_urlencode_bytes(data: &[u8]) -> (r: String)
    ensures
        r@ == urlencode_bytes(data@),
{
    url::form_urlencoded::byte_serialize(data).collect()
}

/// Form-urlencode the UTF-8 bytes of a string.
pub fn urlencode_str(s: &str) -> (r: String)
    ensures
        r@ == urlencode_bytes(s.spec_bytes()),
{
    form_urlencode_bytes(s.as_bytes())
}

/// Whether a URL is rewritten before use: the host follows the
/// `myhuaweicloud.com` convention and the path is under `/crates`.
pub open spec fn huawei_rewrites(domain: Seq<char>, path: Seq<char>) -> bool {
    text::contains_sub(domain, "myhuaweicloud.com"@) && text::has_prefix(path, "/crates"@)
}

/// Index of the last occurrence of `c` in `s`, or `-1` when absent.
pub open spec fn rfind_char(s: Seq<char>, c: char) -> int
    decreases s.len(),
{
    if s.len() == 0 {
        -1
    } else if s.last() == c {
        s.len() - 1
    } else {
        rfind_char(s.drop_last(), c)
    }
}

/// `rfind_char` returns the greatest index holding `c`, or `-1` when absent.
pub proof fn lemma_rfind_char(s: Seq<char>, c: char)
    ensures
        rfind_char(s, c) == -1 ==> forall|k: int| 0 <= k < s.len() ==> s[k] != c,
        rfind_char(s, c) != -1 ==> {
            let i = rfind_char(s, c);
            &&& 0 <= i < s.len()
            &&& s[i] == c
            &&& forall|k: int| i < k < s.len() ==> s[k] != c
        },
    decreases s.len(),
{
    if s.len() > 0 && s.last() != c {
        lemma_rfind_char(s.drop_last(), c);
        let t = s.drop_last();
        if rfind_char(s, c) == -1 {
            assert forall|k: int| 0 <= k < s.len() implies s[k] != c by {
                if k < s.len() - 1 {
                    assert(t[k] == s[k]);
                }
            }
        } else {
            let i = rfind_char(s, c);
            assert(t[i] == s[i]);
            assert forall|k: int| i < k < s.len() implies s[k] != c by {
                if k < s.len() - 1 {
                    assert(t[k] == s[k]);
                }
            }
        }
    }
}

/// The path after the rewrite: the directory part unchanged, the final
/// segment form-urlencoded byte by byte.
pub open spec fn huawei_encoded_path(path: Seq<char>) -> Seq<char> {
    let i = rfind_char(path, '/');
    path.subrange(0, i + 1) + urlencode_bytes(vstd::utf8::encode_utf8(path.skip(i + 1)))
}

/// Rewrite a URL's path for an object-storage origin: when the domain
/// matches `myhuaweicloud.com` and the path is under `/crates`, the final
/// path segment is form-urlencoded; any other URL is left unchanged.
pub fn encode_huaweicloud_url(domain: &str, path: &str) -> (r: String)
    ensures
        huawei_rewrites(domain@, path@) ==> r@ == huawei_encoded_path(path@),
        !huawei_rewrites(domain@, path@) ==> r@ == path@,
{
    if text::str_contains(domain, "myhuaweicloud.com") && text::str_starts_with(path, "/crates") {
        let len = path.unicode_len();
        match text::last_index_of_char(path, '/') {
            Some(i) => {
                proof {
                    lemma_rfind_char(path@, '/');
                    let f = rfind_char(path@, '/');
                    if f == -1 {
                        assert(false);
                    } else if f < i {
                        assert(path@[i as int] == '/');
                        assert(false);
                    } else if f > i {
                        assert(path@[f] == '/');
                        assert(false);
                    }
                }
                let mut r = text::substring(path, 0, i + 1);
                let name = path.substring_char(i + 1, len);
                let encoded = urlencode_str(name);
                r.append(encoded.as_str());
                r
            },
            None => {
                proof {
                    reveal_strlit("/crates");
                    assert(path@.subrange(0, 7)[0] == path@[0]);
                    assert(false);
                }
                String::new()
            },
        }
    } else {
        String::from_str(path)
    }
}

} // verus!
