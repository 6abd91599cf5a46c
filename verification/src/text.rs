//! String helpers: substring search, prefix/suffix tests, character search,
//! and decimal rendering, each with an exact contract over `Seq<char>`.
use vstd::prelude::*;

verus! {

/// `needle` occurs in `hay` starting at index `i`.
pub open spec fn is_sub_at(hay: Seq<char>, needle: Seq<char>, i: int) -> bool {
    0 <= i && i + needle.len() <= hay.len() && hay.subrange(i, i + needle.len()) == needle
}

/// `needle` occurs somewhere in `hay`.
pub open spec fn contains_sub(hay: Seq<char>, needle: Seq<char>) -> bool {
    exists|i: int| is_sub_at(hay, needle, i)
}

/// Whether `needle` occurs in `hay` at position `i` exactly.
fn match_at(hay: &str, needle: &str, i: usize) -> (r: bool)
    requires
        i + needle@.len() <= hay@.len(),
    ensures
        r == is_sub_at(hay@, needle@, i as int),
{
    let hay_len = hay.unicode_len();
    let needle_len = needle.unicode_len();
    let mut j: usize = 0;
    while j < needle_len
        invariant
            needle_len == needle@.len(),
            hay_len == hay@.len(),
            i + needle_len <= hay_len,
            j <= needle_len,
            forall|k: int| 0 <= k < j ==> hay@[i + k] == needle@[k],
        decreases needle_len - j,
    {
        if hay.get_char(i + j) != needle.get_char(j) {
            assert(!is_sub_at(hay@, needle@, i as int)) by {
                if hay@.subrange(i as int, i + needle@.len()) == needle@ {
                    assert(hay@.subrange(i as int, i + needle@.len())[j as int] == needle@[j as int]);
                }
            }
            return false;
        }
        j += 1;
    }
    assert(hay@.subrange(i as int, i + needle@.len()) =~= needle@);
    true
}

/// Substring occurrence test, by scanning every starting position.
pub fn str_contains(hay: &str, needle: &str) -> (r: bool)
    ensures
        r == contains_sub(hay@, needle@),
{
    let hay_len = hay.unicode_len();
    let needle_len = needle.unicode_len();
    if needle_len > hay_len {
        assert(forall|i: int| !is_sub_at(hay@, needle@, i));
        return false;
    }
    if needle_len == 0 {
        assert(is_sub_at(hay@, needle@, 0)) by {
            assert(hay@.subrange(0, 0) =~= needle@);
        }
        return true;
    }
    let mut i: usize = 0;
    while i <= hay_len - needle_len
        invariant
            needle_len == needle@.len(),
            hay_len == hay@.len(),
            1 <= needle_len <= hay_len,
            i <= hay_len - needle_len + 1,
            forall|k: int| 0 <= k < i ==> !is_sub_at(hay@, needle@, k),
        decreases hay_len - needle_len - i + 1,
    {
        if match_at(hay, needle, i) {
            return true;
        }
        i += 1;
    }
    assert(forall|k: int| !is_sub_at(hay@, needle@, k));
    false
}

/// Character-by-character equality of two string slices.
pub fn str_eq(a: &str, b: &str) -> (r: bool)
    ensures
        r == (a@ == b@),
{
    let a_len = a.unicode_len();
    let b_len = b.unicode_len();
    if a_len != b_len {
        return false;
    }
    let mut i: usize = 0;
    while i < a_len
        invariant
            a_len == a@.len(),
            a@.len() == b@.len(),
            i <= a_len,
            forall|k: int| 0 <= k < i ==> a@[k] == b@[k],
        decreases a_len - i,
    {
        if a.get_char(i) != b.get_char(i) {
            return false;
        }
        i += 1;
    }
    assert(a@ =~= b@);
    true
}

/// `s` begins with `prefix`.
pub open spec fn has_prefix(s: Seq<char>, prefix: Seq<char>) -> bool {
    prefix.len() <= s.len() && s.subrange(0, prefix.len() as int) == prefix
}

/// `s` ends with `suffix`.
pub open spec fn has_suffix(s: Seq<char>, suffix: Seq<char>) -> bool {
    suffix.len() <= s.len() && s.subrange(s.len() - suffix.len(), s.len() as int) == suffix
}

/// Prefix test.
pub fn str_starts_with(s: &str, prefix: &str) -> (r: bool)
    ensures
        r == has_prefix(s@, prefix@),
{
    let s_len = s.unicode_len();
    let p_len = prefix.unicode_len();
    if p_len > s_len {
        return false;
    }
    let mut i: usize = 0;
    while i < p_len
        invariant
            s_len == s@.len(),
            p_len == prefix@.len(),
            p_len <= s_len,
            i <= p_len,
            forall|k: int| 0 <= k < i ==> s@[k] == prefix@[k],
        decreases p_len - i,
    {
        if s.get_char(i) != prefix.get_char(i) {
            assert(s@.subrange(0, prefix@.len() as int)[i as int] != prefix@[i as int]);
            return false;
        }
        i += 1;
    }
    assert(s@.subrange(0, prefix@.len() as int) =~= prefix@);
    true
}

/// Suffix test.
pub fn str_ends_with(s: &str, suffix: &str) -> (r: bool)
    ensures
        r == has_suffix(s@, suffix@),
{
    let s_len = s.unicode_len();
    let x_len = suffix.unicode_len();
    if x_len > s_len {
        return false;
    }
    let base = s_len - x_len;
    let mut i: usize = 0;
    while i < x_len
        invariant
            s_len == s@.len(),
            x_len == suffix@.len(),
            x_len <= s_len,
            base == s_len - x_len,
            i <= x_len,
            forall|k: int| 0 <= k < i ==> s@[base + k] == suffix@[k],
        decreases x_len - i,
    {
        if s.get_char(base + i) != suffix.get_char(i) {
            assert(s@.subrange(s@.len() - suffix@.len(), s@.len() as int)[i as int]
                != suffix@[i as int]);
            return false;
        }
        i += 1;
    }
    assert(s@.subrange(s@.len() - suffix@.len(), s@.len() as int) =~= suffix@);
    true
}

/// Index of the first occurrence of `c` in `s` at or after `from`.
pub fn index_of_char(s: &str, c: char, from: usize) -> (r: Option<usize>)
    ensures
        match r {
            Some(i) => from <= i < s@.len() && s@[i as int] == c && forall|k: int|
                from <= k < i ==> s@[k] != c,
            None => forall|k: int| from <= k < s@.len() ==> s@[k] != c,
        },
{
    let s_len = s.unicode_len();
    if from >= s_len {
        return None;
    }
    let mut i: usize = from;
    while i < s_len
        invariant
            s_len == s@.len(),
            from <= i,
            forall|k: int| from <= k < i ==> s@[k] != c,
        decreases s_len - i,
    {
        if s.get_char(i) == c {
            return Some(i);
        }
        i += 1;
    }
    None
}

/// Index of the last occurrence of `c` in `s`.
pub fn last_index_of_char(s: &str, c: char) -> (r: Option<usize>)
    ensures
        match r {
            Some(i) => i < s@.len() && s@[i as int] == c && forall|k: int|
                i < k < s@.len() ==> s@[k] != c,
            None => forall|k: int| 0 <= k < s@.len() ==> s@[k] != c,
        },
{
    let s_len = s.unicode_len();
    let mut i: usize = s_len;
    while i > 0
        invariant
            s_len == s@.len(),
            i <= s_len,
            forall|k: int| i <= k < s@.len() ==> s@[k] != c,
        decreases i,
    {
        i -= 1;
        if s.get_char(i) == c {
            return Some(i);
        }
    }
    None
}

/// The decimal digit characters `0` through `9`.
pub open spec fn digit_char(d: int) -> char {
    if d == 0 { '0' }
    else if d == 1 { '1' }
    else if d == 2 { '2' }
    else if d == 3 { '3' }
    else if d == 4 { '4' }
    else if d == 5 { '5' }
    else if d == 6 { '6' }
    else if d == 7 { '7' }
    else if d == 8 { '8' }
    else { '9' }
}

/// Decimal rendering of a natural number, most significant digit first.
pub open spec fn dec_of(n: nat) -> Seq<char>
    decreases n,
{
    if n < 10 {
        seq![digit_char(n as int)]
    } else {
        dec_of(n / 10) + seq![digit_char((n % 10) as int)]
    }
}

fn digit_str(d: u64) -> (r: &'static str)
    requires
        d < 10,
    ensures
        r@ =~= seq![digit_char(d as int)],
{
    proof {
        reveal_strlit("0");
        reveal_strlit("1");
        reveal_strlit("2");
        reveal_strlit("3");
        reveal_strlit("4");
        reveal_strlit("5");
        reveal_strlit("6");
        reveal_strlit("7");
        reveal_strlit("8");
        reveal_strlit("9");
    }
    match d {
        0 => "0",
        1 => "1",
        2 => "2",
        3 => "3",
        4 => "4",
        5 => "5",
        6 => "6",
        7 => "7",
        8 => "8",
        _ => "9",
    }
}

/// Render `n` in decimal.
pub fn u64_to_string(n: u64) -> (r: String)
    ensures
        r@ == dec_of(n as nat),
    decreases n,
{
    if n < 10 {
        String::from_str(digit_str(n))
    } else {
        let mut prefix = u64_to_string(n / 10);
        prefix.append(digit_str(n % 10));
        prefix
    }
}

/// Render `n` in decimal, left-padded with zeros to at least `width` characters.
pub open spec fn dec_pad_of(n: nat, width: nat) -> Seq<char>
    decreases width,
{
    if dec_of(n).len() >= width {
        dec_of(n)
    } else {
        seq!['0'] + dec_pad_of(n, (width - 1) as nat)
    }
}

/// Length of the decimal rendering of `n`.
pub proof fn lemma_dec_of_len(n: nat)
    ensures
        dec_of(n).len() >= 1,
        n < 10 ==> dec_of(n).len() == 1,
        10 <= n < 100 ==> dec_of(n).len() == 2,
        100 <= n < 1000 ==> dec_of(n).len() == 3,
        1000 <= n < 10000 ==> dec_of(n).len() == 4,
        n >= 10000 ==> dec_of(n).len() >= 5,
    decreases n,
{
    if n >= 10 {
        lemma_dec_of_len(n / 10);
    }
}

/// Render `n` in decimal padded to `width` (up to 4) characters.
pub fn u64_to_string_pad(n: u64, width: usize) -> (r: String)
    requires
        width <= 4,
    ensures
        r@ == dec_pad_of(n as nat, width as nat),
{
    proof {
        lemma_dec_of_len(n as nat);
        reveal_strlit("0");
    }
    let digits = u64_to_string(n);
    let ndig: usize = if n < 10 { 1 } else if n < 100 { 2 } else if n < 1000 { 3 } else { 4 };
    if n >= 10000 || ndig >= width {
        assert(dec_pad_of(n as nat, width as nat) == dec_of(n as nat));
        return digits;
    }
    let mut out = String::new();
    let mut pad = width - ndig;
    while pad > 0
        invariant
            ndig < width <= 4,
            pad <= width - ndig,
            dec_of(n as nat).len() == ndig,
            out@ =~= Seq::new((width - ndig - pad) as nat, |i: int| '0'),
        decreases pad,
    {
        proof {
            reveal_strlit("0");
        }
        out.append("0");
        pad -= 1;
        assert(out@ =~= Seq::new((width - ndig - pad) as nat, |i: int| '0'));
    }
    out.append(digits.as_str());
    proof {
        lemma_dec_pad_zeros(n as nat, width as nat);
        assert(out@ =~= Seq::new((width - ndig) as nat, |i: int| '0') + dec_of(n as nat));
    }
    out
}

/// Padding prepends exactly `width - len` zeros.
proof fn lemma_dec_pad_zeros(n: nat, width: nat)
    ensures
        dec_of(n).len() >= width ==> dec_pad_of(n, width) == dec_of(n),
        dec_of(n).len() < width ==> dec_pad_of(n, width) =~= Seq::new(
            (width - dec_of(n).len()) as nat,
            |i: int| '0',
        ) + dec_of(n),
    decreases width,
{
    if dec_of(n).len() < width {
        lemma_dec_pad_zeros(n, (width - 1) as nat);
        if dec_of(n).len() < width - 1 {
            assert(dec_pad_of(n, width) =~= Seq::new((width - dec_of(n).len()) as nat, |i: int| '0')
                + dec_of(n));
        } else {
            assert(dec_pad_of(n, width) =~= Seq::new((width - dec_of(n).len()) as nat, |i: int| '0')
                + dec_of(n));
        }
    }
}

/// Copy the characters `from .. to` of `s` into a fresh `String`.
pub fn substring(s: &str, from: usize, to: usize) -> (r: String)
    requires
        from <= to <= s@.len(),
    ensures
        r@ == s@.subrange(from as int, to as int),
{
    let sub = s.substring_char(from, to);
    String::from_str(sub)
}

} // verus!
