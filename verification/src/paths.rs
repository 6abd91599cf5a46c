//! Path conventions of the mirror: the length-based index path rule, crate
//! archive naming, download URLs, and URL segment splitting.
use vstd::prelude::*;

use crate::text;

verus! {

/// The index path rule: a crate named `c` lives under
/// `1/<c>` or `2/<c>` when the name has one or two characters,
/// `3/<c[0]>/<c>` when it has three,
/// and `<c[0..2]>/<c[2..4]>/<c>` otherwise.
pub open spec fn index_suffix_of(name: Seq<char>) -> Seq<char>
    recommends
        name.len() >= 1,
{
    if name.len() == 1 {
        seq!['1', '/'] + name
    } else if name.len() == 2 {
        seq!['2', '/'] + name
    } else if name.len() == 3 {
        seq!['3', '/'] + seq![name[0], '/'] + name
    } else {
        name.subrange(0, 2) + seq!['/'] + name.subrange(2, 4) + seq!['/'] + name
    }
}

/// Relative path of a crate's index file under the index root.
pub fn index_suffix(name: &str) -> (r: String)
    requires
        name@.len() >= 1,
    ensures
        r@ == index_suffix_of(name@),
{
    proof {
        reveal_strlit("1/");
        reveal_strlit("2/");
        reveal_strlit("3/");
        reveal_strlit("/");
    }
    let len = name.unicode_len();
    if len == 1 {
        let mut r = String::from_str("1/");
        r.append(name);
        assert(r@ =~= index_suffix_of(name@));
        r
    } else if len == 2 {
        let mut r = String::from_str("2/");
        r.append(name);
        assert(r@ =~= index_suffix_of(name@));
        r
    } else if len == 3 {
        let mut r = String::from_str("3/");
        r.append(name.substring_char(0, 1));
        r.append("/");
        r.append(name);
        assert(r@ =~= index_suffix_of(name@));
        r
    } else {
        let mut r = text::substring(name, 0, 2);
        r.append("/");
        r.append(name.substring_char(2, 4));
        r.append("/");
        r.append(name);
        assert(r@ =~= index_suffix_of(name@));
        r
    }
}

/// File name of a crate archive: `<name>-<version>.crate`.
pub open spec fn crate_file_name_of(name: Seq<char>, vers: Seq<char>) -> Seq<char> {
    name + seq!['-'] + vers + ".crate"@
}

/// File name of a crate archive.
pub fn crate_file_name(name: &str, vers: &str) -> (r: String)
    ensures
        r@ == crate_file_name_of(name@, vers@),
{
    proof {
        reveal_strlit("-");
    }
    let mut r = String::from_str(name);
    r.append("-");
    r.append(vers);
    r.append(".crate");
    assert(r@ =~= crate_file_name_of(name@, vers@));
    r
}

/// Path of a crate archive below a root directory:
/// `<root>/<name>/<name>-<version>.crate`.
pub open spec fn crate_path_of(root: Seq<char>, name: Seq<char>, vers: Seq<char>) -> Seq<char> {
    root + seq!['/'] + name + seq!['/'] + crate_file_name_of(name, vers)
}

/// Local path of a crate archive; with root `crates` this is exactly
/// `crates/<name>/<name>-<version>.crate`.
pub fn crate_local_path(root: &str, name: &str, vers: &str) -> (r: String)
    ensures
        r@ == crate_path_of(root@, name@, vers@),
{
    proof {
        reveal_strlit("/");
    }
    let mut r = String::from_str(root);
    r.append("/");
    r.append(name);
    r.append("/");
    let file = crate_file_name(name, vers);
    r.append(file.as_str());
    assert(r@ =~= crate_path_of(root@, name@, vers@));
    r
}

/// Download URL of a crate archive: `<domain>/<name>/<name>-<version>.crate`.
pub open spec fn crate_url_of(domain: Seq<char>, name: Seq<char>, vers: Seq<char>) -> Seq<char> {
    crate_path_of(domain, name, vers)
}

/// Download URL of a crate archive.
pub fn crate_url(domain: &str, name: &str, vers: &str) -> (r: String)
    ensures
        r@ == crate_url_of(domain@, name@, vers@),
{
    crate_local_path(domain, name, vers)
}

/// Index of the first occurrence of `c` in `s`, or `-1` when absent.
pub open spec fn find_char(s: Seq<char>, c: char) -> int
    decreases s.len(),
{
    if s.len() == 0 {
        -1
    } else if s[0] == c {
        0
    } else if find_char(s.skip(1), c) < 0 {
        -1
    } else {
        find_char(s.skip(1), c) + 1
    }
}

/// `find_char` returns the least index holding `c`, or `-1` when `c` is absent.
pub proof fn lemma_find_char(s: Seq<char>, c: char)
    ensures
        find_char(s, c) == -1 ==> forall|k: int| 0 <= k < s.len() ==> s[k] != c,
        find_char(s, c) != -1 ==> {
            let i = find_char(s, c);
            &&& 0 <= i < s.len()
            &&& s[i] == c
            &&& forall|k: int| 0 <= k < i ==> s[k] != c
        },
    decreases s.len(),
{
    if s.len() > 0 && s[0] != c {
        lemma_find_char(s.skip(1), c);
        let t = s.skip(1);
        if find_char(s, c) == -1 {
            assert forall|k: int| 0 <= k < s.len() implies s[k] != c by {
                if k >= 1 {
                    assert(t[k - 1] == s[k]);
                }
            }
        } else {
            let i = find_char(s, c);
            assert(t[i - 1] == s[i]);
            assert forall|k: int| 0 <= k < i implies s[k] != c by {
                if k >= 1 {
                    assert(t[k - 1] == s[k]);
                }
            }
        }
    }
}

/// What remains of `s` after `n` segments (and their trailing separators)
/// are removed; empty when `s` holds fewer than `n` separators.
pub open spec fn after_segments(s: Seq<char>, n: nat) -> Seq<char>
    decreases n,
{
    if n == 0 {
        s
    } else if find_char(s, '/') < 0 {
        Seq::empty()
    } else {
        after_segments(s.skip(find_char(s, '/') + 1), (n - 1) as nat)
    }
}

/// Drop the first `n` `/`-separated segments of `s`.
pub fn skip_segments(s: &str, n: usize) -> (r: String)
    ensures
        r@ == after_segments(s@, n as nat),
{
    let mut pos: usize = 0;
    let mut k: usize = 0;
    let s_len = s.unicode_len();
    assert(s@.skip(0) =~= s@);
    while k < n
        invariant
            s_len == s@.len(),
            pos <= s_len,
            k <= n,
            after_segments(s@, n as nat) == after_segments(s@.skip(pos as int), (n - k) as nat),
        decreases n - k,
    {
        match text::index_of_char(s, '/', pos) {
            Some(i) => {
                proof {
                    let t = s@.skip(pos as int);
                    lemma_find_char(t, '/');
                    let f = find_char(t, '/');
                    assert(t[i - pos] == s@[i as int]);
                    if f == -1 {
                        assert(false);
                    } else if f < i - pos {
                        assert(t[f] == s@[pos + f]);
                        assert(s@[pos + f] == '/');
                        assert(false);
                    } else if f > i - pos {
                        assert(t[i - pos] != '/');
                        assert(false);
                    }
                    assert(t.skip(i - pos + 1) =~= s@.skip(i + 1));
                }
                pos = i + 1;
            },
            None => {
                proof {
                    lemma_find_char(s@.skip(pos as int), '/');
                    assert(forall|j: int| 0 <= j < s@.skip(pos as int).len() ==> s@.skip(
                        pos as int,
                    )[j] == s@[pos + j]);
                    assert(find_char(s@.skip(pos as int), '/') == -1);
                }
                return String::new();
            },
        }
        k += 1;
    }
    let r = text::substring(s, pos, s_len);
    assert(r@ =~= s@.skip(pos as int));
    r
}

} // verus!
