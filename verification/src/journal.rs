//! The two cross-run journals: the error journal of failed crate downloads,
//! one JSON object per line, and the commit-record log, one `from,to,time`
//! line per successful index update.
use vstd::prelude::*;

use crate::text;

verus! {

/// One failed download: crate name, version, and the unix time of the
/// failure, as recorded in the error journal.
#[derive(Clone, Debug)]
pub struct ErrorCrate {
    pub name: String,
    pub vers: String,
    pub time: String,
}

/// How one character is written inside a JSON string: quote and backslash
/// take a backslash escape, every other character stands as itself.
pub open spec fn esc_char(c: char) -> Seq<char> {
    if c == '"' {
        seq!['\\', '"']
    } else if c == '\\' {
        seq!['\\', '\\']
    } else {
        seq![c]
    }
}

/// A string's characters as written inside a JSON string.
pub open spec fn json_escaped(s: Seq<char>) -> Seq<char>
    decreases s.len(),
{
    if s.len() == 0 {
        Seq::empty()
    } else {
        json_escaped(s.drop_last()) + esc_char(s.last())
    }
}

/// Escape a string for inclusion in a JSON string.
pub fn escape_json(s: &str) -> (r: String)
    ensures
        r@ == json_escaped(s@),
{
    let len = s.unicode_len();
    let mut out = String::new();
    let mut i: usize = 0;
    assert(s@.take(0) =~= Seq::<char>::empty());
    while i < len
        invariant
            len == s@.len(),
            i <= len,
            out@ == json_escaped(s@.take(i as int)),
        decreases len - i,
    {
        let c = s.get_char(i);
        if c == '"' {
            proof {
                reveal_strlit("\\\"");
            }
            out.append("\\\"");
        } else if c == '\\' {
            proof {
                reveal_strlit("\\\\");
            }
            out.append("\\\\");
        } else {
            let piece = s.substring_char(i, i + 1);
            out.append(piece);
        }
        i += 1;
        proof {
            assert(s@.take(i as int).drop_last() =~= s@.take(i - 1));
            assert(s@.take(i as int).last() == s@[i - 1]);
            assert(s@.subrange(i - 1, i as int) =~= seq![s@[i - 1]]);
            assert(out@ =~= json_escaped(s@.take(i as int)));
        }
    }
    assert(s@.take(len as int) =~= s@);
    out
}

/// Escaping at most doubles a string and never shortens it.
proof fn lemma_json_escaped_len(s: Seq<char>)
    ensures
        s.len() <= json_escaped(s).len() <= 2 * s.len(),
    decreases s.len(),
{
    if s.len() > 0 {
        lemma_json_escaped_len(s.drop_last());
    }
}

/// Escaping reads the same from the front: the first character's escape,
/// then the escape of the rest.
proof fn lemma_json_escaped_front(s: Seq<char>)
    requires
        s.len() > 0,
    ensures
        json_escaped(s) == esc_char(s[0]) + json_escaped(s.skip(1)),
    decreases s.len(),
{
    if s.len() == 1 {
        assert(s.drop_last() =~= Seq::<char>::empty());
        assert(s.skip(1) =~= Seq::<char>::empty());
        assert(json_escaped(s) =~= esc_char(s[0]) + json_escaped(s.skip(1)));
    } else {
        lemma_json_escaped_front(s.drop_last());
        assert(s.drop_last()[0] == s[0]);
        assert(s.skip(1).drop_last() =~= s.drop_last().skip(1));
        assert(s.skip(1).last() == s.last());
        assert(json_escaped(s.skip(1)) == json_escaped(s.skip(1).drop_last()) + esc_char(
            s.skip(1).last(),
        ));
        assert(json_escaped(s) =~= esc_char(s[0]) + json_escaped(s.skip(1)));
    }
}

/// An escaped string followed by its closing quote cannot be read in two
/// ways: the content and whatever follows the quote are both determined.
proof fn lemma_escaped_quote_unambiguous(a: Seq<char>, b: Seq<char>, x: Seq<char>, y: Seq<char>)
    requires
        json_escaped(a) + seq!['"'] + x == json_escaped(b) + seq!['"'] + y,
    ensures
        a == b,
        x == y,
    decreases a.len() + b.len(),
{
    let la = json_escaped(a) + seq!['"'] + x;
    let lb = json_escaped(b) + seq!['"'] + y;
    lemma_json_escaped_len(a);
    lemma_json_escaped_len(b);
    if a.len() == 0 && b.len() == 0 {
        assert(la.skip(1) =~= x);
        assert(lb.skip(1) =~= y);
        assert(x =~= y);
        assert(a =~= b);
    } else if a.len() == 0 {
        lemma_json_escaped_front(b);
        assert(lb[0] == esc_char(b[0])[0]);
        assert(la[0] == '"');
        assert(esc_char(b[0])[0] != '"');
        assert(false);
    } else if b.len() == 0 {
        lemma_json_escaped_front(a);
        assert(la[0] == esc_char(a[0])[0]);
        assert(lb[0] == '"');
        assert(esc_char(a[0])[0] != '"');
        assert(false);
    } else {
        lemma_json_escaped_front(a);
        lemma_json_escaped_front(b);
        assert(la[0] == esc_char(a[0])[0]);
        assert(lb[0] == esc_char(b[0])[0]);
        if a[0] == '"' || a[0] == '\\' {
            assert(la[0] == '\\');
            if !(b[0] == '"' || b[0] == '\\') {
                assert(lb[0] == b[0] && b[0] != '\\');
                assert(false);
            }
            assert(la[1] == a[0] && lb[1] == b[0]);
            assert(a[0] == b[0]);
            assert(la.skip(2) =~= json_escaped(a.skip(1)) + seq!['"'] + x);
            assert(lb.skip(2) =~= json_escaped(b.skip(1)) + seq!['"'] + y);
            assert(la.skip(2) =~= lb.skip(2));
            lemma_escaped_quote_unambiguous(a.skip(1), b.skip(1), x, y);
            assert(a =~= seq![a[0]] + a.skip(1));
            assert(b =~= seq![b[0]] + b.skip(1));
        } else {
            if b[0] == '"' || b[0] == '\\' {
                assert(lb[0] == '\\');
                assert(la[0] == a[0] && a[0] != '\\');
                assert(false);
            }
            assert(la[0] == a[0] && lb[0] == b[0]);
            assert(a[0] == b[0]);
            assert(la.skip(1) =~= json_escaped(a.skip(1)) + seq!['"'] + x);
            assert(lb.skip(1) =~= json_escaped(b.skip(1)) + seq!['"'] + y);
            assert(la.skip(1) =~= lb.skip(1));
            lemma_escaped_quote_unambiguous(a.skip(1), b.skip(1), x, y);
            assert(a =~= seq![a[0]] + a.skip(1));
            assert(b =~= seq![b[0]] + b.skip(1));
        }
    }
}

/// One line of the error journal:
/// `{"name":"<name>","vers":"<vers>","time":"<time>"}`.
pub open spec fn error_line_of(name: Seq<char>, vers: Seq<char>, time: Seq<char>) -> Seq<char> {
    "{\"name\":\""@ + json_escaped(name) + "\",\"vers\":\""@ + json_escaped(vers)
        + "\",\"time\":\""@ + json_escaped(time) + "\"}"@
}

/// What follows a journal line's name field: the rest of the separator after
/// the name's closing quote, then the version and time fields.
pub open spec fn rest_after_name(v: Seq<char>, t: Seq<char>) -> Seq<char> {
    "\",\"vers\":\""@.skip(1) + json_escaped(v) + "\",\"time\":\""@ + json_escaped(t) + "\"}"@
}

/// What follows a journal line's version field.
pub open spec fn rest_after_vers(t: Seq<char>) -> Seq<char> {
    "\",\"time\":\""@.skip(1) + json_escaped(t) + "\"}"@
}

/// How a journal line decomposes at each stage of a parse: the fixed head,
/// then each field in escaped form behind its closing quote.
proof fn lemma_error_line_shape(n: Seq<char>, v: Seq<char>, t: Seq<char>)
    ensures
        ({
            let l = error_line_of(n, v, t);
            &&& l.len() == 31 + json_escaped(n).len() + json_escaped(v).len() + json_escaped(
                t,
            ).len()
            &&& l.subrange(0, 9) == "{\"name\":\""@
            &&& l.skip(9) == json_escaped(n) + seq!['"'] + rest_after_name(v, t)
            &&& rest_after_name(v, t).len() == 21 + json_escaped(v).len() + json_escaped(t).len()
            &&& seq!['"'] + rest_after_name(v, t).subrange(0, 9) == "\",\"vers\":\""@
            &&& rest_after_name(v, t).skip(9) == json_escaped(v) + seq!['"'] + rest_after_vers(t)
            &&& rest_after_vers(t).len() == 11 + json_escaped(t).len()
            &&& seq!['"'] + rest_after_vers(t).subrange(0, 9) == "\",\"time\":\""@
            &&& rest_after_vers(t).skip(9) == json_escaped(t) + seq!['"'] + seq!['}']
        }),
{
    reveal_strlit("{\"name\":\"");
    reveal_strlit("\",\"vers\":\"");
    reveal_strlit("\",\"time\":\"");
    reveal_strlit("\"}");
    let l = error_line_of(n, v, t);
    assert(l.subrange(0, 9) =~= "{\"name\":\""@);
    assert(l.skip(9) =~= json_escaped(n) + seq!['"'] + rest_after_name(v, t));
    assert(seq!['"'] + rest_after_name(v, t).subrange(0, 9) =~= "\",\"vers\":\""@);
    assert(rest_after_name(v, t).skip(9) =~= json_escaped(v) + seq!['"'] + rest_after_vers(t));
    assert(seq!['"'] + rest_after_vers(t).subrange(0, 9) =~= "\",\"time\":\""@);
    assert(rest_after_vers(t).skip(9) =~= json_escaped(t) + seq!['"'] + seq!['}']);
}

/// Align a parsed name field with a journal line's decomposition: the
/// parsed content is the record's name and what follows its closing quote is
/// the line's remainder.
proof fn lemma_align_name(
    line: Seq<char>,
    n: Seq<char>,
    v: Seq<char>,
    t: Seq<char>,
    name: Seq<char>,
    p1: int,
)
    requires
        line == error_line_of(n, v, t),
        9 < p1 <= line.len(),
        line.subrange(9, p1 - 1) == json_escaped(name),
        line[p1 - 1] == '"',
    ensures
        name == n,
        line.skip(p1) == rest_after_name(v, t),
        line.len() == p1 + rest_after_name(v, t).len(),
        line.len() >= p1 + 21,
        seq!['"'] + rest_after_name(v, t).subrange(0, 9) == "\",\"vers\":\""@,
        rest_after_name(v, t).skip(9) == json_escaped(v) + seq!['"'] + rest_after_vers(t),
{
    lemma_error_line_shape(n, v, t);
    lemma_json_escaped_len(v);
    lemma_json_escaped_len(t);
    assert(line.skip(9) =~= line.subrange(9, p1 - 1) + seq![line[p1 - 1]] + line.skip(p1));
    lemma_escaped_quote_unambiguous(name, n, line.skip(p1), rest_after_name(v, t));
}

/// Align a parsed version field with the remainder after the name.
proof fn lemma_align_vers(
    line: Seq<char>,
    v: Seq<char>,
    t: Seq<char>,
    vers: Seq<char>,
    p1: int,
    p3: int,
)
    requires
        0 <= p1,
        line.skip(p1) == rest_after_name(v, t),
        p1 + 9 < p3 <= line.len(),
        line.subrange(p1 + 9, p3 - 1) == json_escaped(vers),
        line[p3 - 1] == '"',
    ensures
        vers == v,
        line.skip(p3) == rest_after_vers(t),
        line.len() == p3 + rest_after_vers(t).len(),
        line.len() >= p3 + 11,
        seq!['"'] + rest_after_vers(t).subrange(0, 9) == "\",\"time\":\""@,
        rest_after_vers(t).skip(9) == json_escaped(t) + seq!['"'] + seq!['}'],
{
    lemma_error_line_shape(Seq::empty(), v, t);
    lemma_json_escaped_len(t);
    assert(line.skip(p1 + 9) =~= line.skip(p1).skip(9));
    assert(line.skip(p1 + 9) =~= line.subrange(p1 + 9, p3 - 1) + seq![line[p3 - 1]] + line.skip(
        p3,
    ));
    lemma_escaped_quote_unambiguous(vers, v, line.skip(p3), rest_after_vers(t));
}

/// Align a parsed time field with the remainder after the version: what
/// follows its closing quote is exactly the line's closing brace.
proof fn lemma_align_time(line: Seq<char>, t: Seq<char>, time: Seq<char>, p3: int, p5: int)
    requires
        0 <= p3,
        line.skip(p3) == rest_after_vers(t),
        p3 + 9 < p5 <= line.len(),
        line.subrange(p3 + 9, p5 - 1) == json_escaped(time),
        line[p5 - 1] == '"',
    ensures
        time == t,
        line.skip(p5) == seq!['}'],
        line.len() == p5 + 1,
{
    lemma_error_line_shape(Seq::empty(), Seq::empty(), t);
    assert(line.skip(p3 + 9) =~= line.skip(p3).skip(9));
    assert(line.skip(p3 + 9) =~= line.subrange(p3 + 9, p5 - 1) + seq![line[p5 - 1]] + line.skip(
        p5,
    ));
    lemma_escaped_quote_unambiguous(time, t, line.skip(p5), seq!['}']);
}

/// Whole-record atomicity of the journal format: one line denotes one
/// record. Two failure records that write the same journal line agree in
/// name, version and time.
pub proof fn lemma_error_line_unambiguous(
    n1: Seq<char>,
    v1: Seq<char>,
    t1: Seq<char>,
    n2: Seq<char>,
    v2: Seq<char>,
    t2: Seq<char>,
)
    requires
        error_line_of(n1, v1, t1) == error_line_of(n2, v2, t2),
    ensures
        n1 == n2,
        v1 == v2,
        t1 == t2,
{
    reveal_strlit("{\"name\":\"");
    reveal_strlit("\",\"vers\":\"");
    reveal_strlit("\",\"time\":\"");
    reveal_strlit("\"}");
    let head = "{\"name\":\""@;
    let sep_vers = "\",\"vers\":\""@;
    let sep_time = "\",\"time\":\""@;
    let close = "\"}"@;
    let l1 = error_line_of(n1, v1, t1);
    let l2 = error_line_of(n2, v2, t2);
    let rest1 = sep_vers.skip(1) + json_escaped(v1) + sep_time + json_escaped(t1) + close;
    let rest2 = sep_vers.skip(1) + json_escaped(v2) + sep_time + json_escaped(t2) + close;
    assert(l1.skip(9) =~= json_escaped(n1) + seq!['"'] + rest1);
    assert(l2.skip(9) =~= json_escaped(n2) + seq!['"'] + rest2);
    assert(l1.skip(9) =~= l2.skip(9));
    lemma_escaped_quote_unambiguous(n1, n2, rest1, rest2);
    let mid1 = sep_time.skip(1) + json_escaped(t1) + close;
    let mid2 = sep_time.skip(1) + json_escaped(t2) + close;
    assert(rest1.skip(9) =~= json_escaped(v1) + seq!['"'] + mid1);
    assert(rest2.skip(9) =~= json_escaped(v2) + seq!['"'] + mid2);
    assert(rest1.skip(9) =~= rest2.skip(9));
    lemma_escaped_quote_unambiguous(v1, v2, mid1, mid2);
    assert(mid1.skip(9) =~= json_escaped(t1) + seq!['"'] + seq!['}']);
    assert(mid2.skip(9) =~= json_escaped(t2) + seq!['"'] + seq!['}']);
    assert(mid1.skip(9) =~= mid2.skip(9));
    lemma_escaped_quote_unambiguous(t1, t2, seq!['}'], seq!['}']);
}

/// Render one error journal line, without the trailing newline.
pub fn error_crate_line(e: &ErrorCrate) -> (r: String)
    ensures
        r@ == error_line_of(e.name@, e.vers@, e.time@),
{
    let mut r = String::from_str("{\"name\":\"");
    let name = escape_json(e.name.as_str());
    r.append(name.as_str());
    r.append("\",\"vers\":\"");
    let vers = escape_json(e.vers.as_str());
    r.append(vers.as_str());
    r.append("\",\"time\":\"");
    let time = escape_json(e.time.as_str());
    r.append(time.as_str());
    r.append("\"}");
    assert(r@ =~= error_line_of(e.name@, e.vers@, e.time@));
    r
}

/// What remains of a well-formed JSON string: some content in escaped form,
/// its closing quote, and whatever follows.
pub open spec fn escaped_then_quote(s: Seq<char>) -> bool {
    exists|content: Seq<char>, rest: Seq<char>| s == json_escaped(content) + seq!['"'] + rest
}

/// Read one string body out of `s` from position `i` up to its closing
/// unescaped quote. On success the consumed characters are exactly the
/// escaped form of the returned content, and `next` is the index after the
/// closing quote; only input in no such shape is refused.
#[verifier::rlimit(80)]
fn parse_json_string(s: &str, i: usize) -> (r: Option<(String, usize)>)
    requires
        i <= s@.len(),
    ensures
        r matches Some((content, next)) ==> {
            &&& i < next <= s@.len()
            &&& s@.subrange(i as int, next - 1) == json_escaped(content@)
            &&& s@[next - 1] == '"'
        },
        r is None ==> !escaped_then_quote(s@.skip(i as int)),
{
    let len = s.unicode_len();
    let mut out = String::new();
    let mut pos: usize = i;
    assert(s@.subrange(i as int, i as int) =~= json_escaped(out@));
    while pos < len
        invariant
            len == s@.len(),
            i <= pos <= len,
            s@.subrange(i as int, pos as int) == json_escaped(out@),
            escaped_then_quote(s@.skip(i as int)) ==> escaped_then_quote(s@.skip(pos as int)),
        decreases len - pos,
    {
        let c = s.get_char(pos);
        if c == '"' {
            return Some((out, pos + 1));
        } else if c == '\\' {
            if pos + 1 >= len {
                proof {
                    if escaped_then_quote(s@.skip(pos as int)) {
                        let (content, rest) = choose|content: Seq<char>, rest: Seq<char>|
                            s@.skip(pos as int) == json_escaped(content) + seq!['"'] + rest;
                        lemma_json_escaped_len(content);
                        if content.len() == 0 {
                            assert(s@.skip(pos as int)[0] == '"');
                            assert(s@.skip(pos as int)[0] == s@[pos as int]);
                        } else {
                            assert(s@.skip(pos as int).len() >= 2);
                        }
                        assert(false);
                    }
                }
                return None;
            }
            let e = s.get_char(pos + 1);
            if e == '"' || e == '\\' {
                let ghost pos0 = pos as int;
                let ghost out0 = out@;
                let piece = s.substring_char(pos + 1, pos + 2);
                out.append(piece);
                pos += 2;
                proof {
                    assert(out@.drop_last() =~= out0);
                    assert(out@.last() == s@[pos - 1]);
                    assert(esc_char(out@.last()) =~= seq![s@[pos - 2], s@[pos - 1]]);
                    assert(s@.subrange(i as int, pos as int) =~= s@.subrange(i as int, pos - 2)
                        + seq![s@[pos - 2], s@[pos - 1]]);
                    assert(s@.subrange(i as int, pos as int) =~= json_escaped(out@));
                    if escaped_then_quote(s@.skip(i as int)) {
                        let (content, rest) = choose|content: Seq<char>, rest: Seq<char>|
                            s@.skip(pos0) == json_escaped(content) + seq!['"'] + rest;
                        if content.len() == 0 {
                            assert(s@.skip(pos0)[0] == '"');
                            assert(s@.skip(pos0)[0] == s@[pos0]);
                            assert(false);
                        }
                        lemma_json_escaped_front(content);
                        lemma_json_escaped_len(content.skip(1));
                        assert(s@.skip(pos0)[0] == esc_char(content[0])[0]);
                        assert(s@.skip(pos0)[0] == s@[pos0]);
                        if !(content[0] == '"' || content[0] == '\\') {
                            assert(esc_char(content[0])[0] == content[0]);
                            assert(false);
                        }
                        assert(s@.skip(pos0) =~= seq!['\\', content[0]] + (json_escaped(
                            content.skip(1),
                        ) + seq!['"'] + rest));
                        assert(s@.skip(pos as int) =~= s@.skip(pos0).skip(2));
                        assert(s@.skip(pos as int) =~= json_escaped(content.skip(1)) + seq!['"']
                            + rest);
                        assert(escaped_then_quote(s@.skip(pos as int)));
                    }
                }
            } else {
                proof {
                    if escaped_then_quote(s@.skip(pos as int)) {
                        let (content, rest) = choose|content: Seq<char>, rest: Seq<char>|
                            s@.skip(pos as int) == json_escaped(content) + seq!['"'] + rest;
                        if content.len() == 0 {
                            assert(s@.skip(pos as int)[0] == '"');
                            assert(s@.skip(pos as int)[0] == s@[pos as int]);
                            assert(false);
                        }
                        lemma_json_escaped_front(content);
                        lemma_json_escaped_len(content.skip(1));
                        assert(s@.skip(pos as int)[0] == esc_char(content[0])[0]);
                        assert(s@.skip(pos as int)[0] == s@[pos as int]);
                        if !(content[0] == '"' || content[0] == '\\') {
                            assert(esc_char(content[0])[0] == content[0]);
                            assert(false);
                        }
                        assert(s@.skip(pos as int) =~= seq!['\\', content[0]] + (json_escaped(
                            content.skip(1),
                        ) + seq!['"'] + rest));
                        assert(s@.skip(pos as int)[1] == content[0]);
                        assert(s@.skip(pos as int)[1] == s@[pos + 1]);
                        assert(false);
                    }
                }
                return None;
            }
        } else {
            let ghost pos0 = pos as int;
            let ghost out0 = out@;
            let piece = s.substring_char(pos, pos + 1);
            out.append(piece);
            pos += 1;
            proof {
                assert(out@.drop_last() =~= out0);
                assert(out@.last() == s@[pos - 1]);
                assert(esc_char(out@.last()) =~= seq![s@[pos - 1]]);
                assert(s@.subrange(i as int, pos as int) =~= s@.subrange(i as int, pos - 1) + seq![
                    s@[pos - 1],
                ]);
                assert(s@.subrange(i as int, pos as int) =~= json_escaped(out@));
                if escaped_then_quote(s@.skip(i as int)) {
                    let (content, rest) = choose|content: Seq<char>, rest: Seq<char>|
                        s@.skip(pos0) == json_escaped(content) + seq!['"'] + rest;
                    if content.len() == 0 {
                        assert(s@.skip(pos0)[0] == '"');
                        assert(s@.skip(pos0)[0] == s@[pos0]);
                        assert(false);
                    }
                    lemma_json_escaped_front(content);
                    assert(s@.skip(pos0)[0] == esc_char(content[0])[0]);
                    assert(s@.skip(pos0)[0] == s@[pos0]);
                    if content[0] == '"' || content[0] == '\\' {
                        assert(esc_char(content[0])[0] == '\\');
                        assert(false);
                    }
                    assert(esc_char(content[0]) =~= seq![content[0]]);
                    assert(s@.skip(pos0) =~= seq![content[0]] + (json_escaped(content.skip(1))
                        + seq!['"'] + rest));
                    assert(s@.skip(pos as int) =~= s@.skip(pos0).skip(1));
                    assert(s@.skip(pos as int) =~= json_escaped(content.skip(1)) + seq!['"']
                        + rest);
                    assert(escaped_then_quote(s@.skip(pos as int)));
                }
            }
        }
    }
    proof {
        if escaped_then_quote(s@.skip(pos as int)) {
            let (content, rest) = choose|content: Seq<char>, rest: Seq<char>|
                s@.skip(pos as int) == json_escaped(content) + seq!['"'] + rest;
            lemma_json_escaped_len(content);
            assert(s@.skip(pos as int).len() >= 1);
            assert(false);
        }
    }
    None
}

/// Whether `s` has `expected` at position `i`; `None` exactly when it does
/// not.
fn expect_lit(s: &str, i: usize, expected: &str) -> (r: Option<usize>)
    ensures
        r matches Some(next) ==> {
            &&& i + expected@.len() <= s@.len()
            &&& next == i + expected@.len()
            &&& s@.subrange(i as int, next as int) == expected@
        },
        r is None ==> !(i + expected@.len() <= s@.len() && s@.subrange(
            i as int,
            i + expected@.len(),
        ) == expected@),
{
    let s_len = s.unicode_len();
    let e_len = expected.unicode_len();
    if i > s_len || e_len > s_len - i {
        return None;
    }
    let mut j: usize = 0;
    while j < e_len
        invariant
            s_len == s@.len(),
            e_len == expected@.len(),
            i + e_len <= s_len,
            j <= e_len,
            forall|k: int| 0 <= k < j ==> s@[i + k] == expected@[k],
        decreases e_len - j,
    {
        if s.get_char(i + j) != expected.get_char(j) {
            proof {
                if s@.subrange(i as int, i + expected@.len()) == expected@ {
                    let exp = expected@;
                    assert(s@.subrange(i as int, i + exp.len())[j as int] == exp[j as int]);
                }
            }
            return None;
        }
        j += 1;
    }
    assert(s@.subrange(i as int, (i + e_len) as int) =~= expected@);
    Some(i + e_len)
}

/// A line that does not begin with the journal head renders no record.
proof fn lemma_refuse_head(line: Seq<char>)
    requires
        !(9 <= line.len() && line.subrange(0, 9) == "{\"name\":\""@),
    ensures
        !is_error_line(line),
{
    if is_error_line(line) {
        let (n, v, t) = choose|n: Seq<char>, v: Seq<char>, t: Seq<char>|
            line == error_line_of(n, v, t);
        lemma_error_line_shape(n, v, t);
        assert(false);
    }
}

/// A line whose name field is in no escaped-string shape renders no record.
proof fn lemma_refuse_name(line: Seq<char>)
    requires
        !escaped_then_quote(line.skip(9)),
    ensures
        !is_error_line(line),
{
    if is_error_line(line) {
        let (n, v, t) = choose|n: Seq<char>, v: Seq<char>, t: Seq<char>|
            line == error_line_of(n, v, t);
        lemma_error_line_shape(n, v, t);
        assert(escaped_then_quote(line.skip(9)));
        assert(false);
    }
}

/// A line whose name field is not followed by the version separator renders
/// no record.
proof fn lemma_refuse_sep_vers(line: Seq<char>, name: Seq<char>, p1: int)
    requires
        9 < p1 <= line.len(),
        line.subrange(9, p1 - 1) == json_escaped(name),
        line[p1 - 1] == '"',
        !(p1 + 9 <= line.len() && line.subrange(p1 - 1, p1 + 9) == "\",\"vers\":\""@),
    ensures
        !is_error_line(line),
{
    if is_error_line(line) {
        let (n, v, t) = choose|n: Seq<char>, v: Seq<char>, t: Seq<char>|
            line == error_line_of(n, v, t);
        lemma_align_name(line, n, v, t, name, p1);
        assert(line.subrange(p1 - 1, p1 + 9) =~= seq![line[p1 - 1]] + rest_after_name(
            v,
            t,
        ).subrange(0, 9));
        assert(line.subrange(p1 - 1, p1 + 9) == "\",\"vers\":\""@);
        assert(false);
    }
}

/// A line whose version field is in no escaped-string shape renders no
/// record.
proof fn lemma_refuse_vers(line: Seq<char>, name: Seq<char>, p1: int, p2: int)
    requires
        9 < p1 <= line.len(),
        line.subrange(9, p1 - 1) == json_escaped(name),
        line[p1 - 1] == '"',
        p2 == p1 + 9,
        !escaped_then_quote(line.skip(p2)),
    ensures
        !is_error_line(line),
{
    if is_error_line(line) {
        let (n, v, t) = choose|n: Seq<char>, v: Seq<char>, t: Seq<char>|
            line == error_line_of(n, v, t);
        lemma_align_name(line, n, v, t, name, p1);
        assert(line.skip(p2) =~= line.skip(p1).skip(9));
        assert(line.skip(p2) == json_escaped(v) + seq!['"'] + rest_after_vers(t));
        assert(escaped_then_quote(line.skip(p2)));
        assert(false);
    }
}

/// A line whose version field is not followed by the time separator renders
/// no record.
proof fn lemma_refuse_sep_time(
    line: Seq<char>,
    name: Seq<char>,
    vers: Seq<char>,
    p1: int,
    p3: int,
)
    requires
        9 < p1 <= line.len(),
        line.subrange(9, p1 - 1) == json_escaped(name),
        line[p1 - 1] == '"',
        p1 + 9 < p3 <= line.len(),
        line.subrange(p1 + 9, p3 - 1) == json_escaped(vers),
        line[p3 - 1] == '"',
        !(p3 + 9 <= line.len() && line.subrange(p3 - 1, p3 + 9) == "\",\"time\":\""@),
    ensures
        !is_error_line(line),
{
    if is_error_line(line) {
        let (n, v, t) = choose|n: Seq<char>, v: Seq<char>, t: Seq<char>|
            line == error_line_of(n, v, t);
        lemma_align_name(line, n, v, t, name, p1);
        lemma_align_vers(line, v, t, vers, p1, p3);
        assert(line.subrange(p3 - 1, p3 + 9) =~= seq![line[p3 - 1]] + rest_after_vers(t).subrange(
            0,
            9,
        ));
        assert(line.subrange(p3 - 1, p3 + 9) == "\",\"time\":\""@);
        assert(false);
    }
}

/// A line whose time field is in no escaped-string shape renders no record.
proof fn lemma_refuse_time(
    line: Seq<char>,
    name: Seq<char>,
    vers: Seq<char>,
    p1: int,
    p3: int,
    p4: int,
)
    requires
        9 < p1 <= line.len(),
        line.subrange(9, p1 - 1) == json_escaped(name),
        line[p1 - 1] == '"',
        p1 + 9 < p3 <= line.len(),
        line.subrange(p1 + 9, p3 - 1) == json_escaped(vers),
        line[p3 - 1] == '"',
        p4 == p3 + 9,
        !escaped_then_quote(line.skip(p4)),
    ensures
        !is_error_line(line),
{
    if is_error_line(line) {
        let (n, v, t) = choose|n: Seq<char>, v: Seq<char>, t: Seq<char>|
            line == error_line_of(n, v, t);
        lemma_align_name(line, n, v, t, name, p1);
        lemma_align_vers(line, v, t, vers, p1, p3);
        assert(line.skip(p4) =~= line.skip(p3).skip(9));
        assert(line.skip(p4) == json_escaped(t) + seq!['"'] + seq!['}']);
        assert(escaped_then_quote(line.skip(p4)));
        assert(false);
    }
}

/// A line whose time field is not followed by the closing quote and brace,
/// or that carries anything after them, renders no record.
proof fn lemma_refuse_close(
    line: Seq<char>,
    name: Seq<char>,
    vers: Seq<char>,
    time: Seq<char>,
    p1: int,
    p3: int,
    p5: int,
)
    requires
        9 < p1 <= line.len(),
        line.subrange(9, p1 - 1) == json_escaped(name),
        line[p1 - 1] == '"',
        p1 + 9 < p3 <= line.len(),
        line.subrange(p1 + 9, p3 - 1) == json_escaped(vers),
        line[p3 - 1] == '"',
        p3 + 9 < p5 <= line.len(),
        line.subrange(p3 + 9, p5 - 1) == json_escaped(time),
        line[p5 - 1] == '"',
        !(p5 + 1 <= line.len() && line.subrange(p5 - 1, p5 + 1) == "\"}"@ && p5 + 1
            == line.len()),
    ensures
        !is_error_line(line),
{
    reveal_strlit("\"}");
    if is_error_line(line) {
        let (n, v, t) = choose|n: Seq<char>, v: Seq<char>, t: Seq<char>|
            line == error_line_of(n, v, t);
        lemma_align_name(line, n, v, t, name, p1);
        lemma_align_vers(line, v, t, vers, p1, p3);
        lemma_align_time(line, t, time, p3, p5);
        assert(line[p5] == '}');
        assert(line.subrange(p5 - 1, p5 + 1) =~= seq![line[p5 - 1], line[p5]]);
        assert(line.subrange(p5 - 1, p5 + 1) == "\"}"@);
        assert(false);
    }
}

/// A line that is the rendering of some failure record.
pub open spec fn is_error_line(line: Seq<char>) -> bool {
    exists|n: Seq<char>, v: Seq<char>, t: Seq<char>| line == error_line_of(n, v, t)
}

/// Parse one error journal line. Whatever is returned re-renders to exactly
/// the input line, and only a line that renders no record at all is refused:
/// the parse succeeds on every line the journal writer can produce.
pub fn parse_error_line(line: &str) -> (r: Option<ErrorCrate>)
    ensures
        r matches Some(e) ==> line@ == error_line_of(e.name@, e.vers@, e.time@),
        r is None ==> !is_error_line(line@),
{
    let p0 = match expect_lit(line, 0, "{\"name\":\"") {
        Some(p) => p,
        None => {
            proof {
                reveal_strlit("{\"name\":\"");
                lemma_refuse_head(line@);
            }
            return None;
        },
    };
    let (name, p1) = match parse_json_string(line, p0) {
        Some(x) => x,
        None => {
            proof {
                reveal_strlit("{\"name\":\"");
                lemma_refuse_name(line@);
            }
            return None;
        },
    };
    let p2 = match expect_lit(line, p1 - 1, "\",\"vers\":\"") {
        Some(p) => p,
        None => {
            proof {
                reveal_strlit("{\"name\":\"");
                reveal_strlit("\",\"vers\":\"");
                lemma_refuse_sep_vers(line@, name@, p1 as int);
            }
            return None;
        },
    };
    let (vers, p3) = match parse_json_string(line, p2) {
        Some(x) => x,
        None => {
            proof {
                reveal_strlit("{\"name\":\"");
                reveal_strlit("\",\"vers\":\"");
                lemma_refuse_vers(line@, name@, p1 as int, p2 as int);
            }
            return None;
        },
    };
    let p4 = match expect_lit(line, p3 - 1, "\",\"time\":\"") {
        Some(p) => p,
        None => {
            proof {
                reveal_strlit("{\"name\":\"");
                reveal_strlit("\",\"vers\":\"");
                reveal_strlit("\",\"time\":\"");
                lemma_refuse_sep_time(line@, name@, vers@, p1 as int, p3 as int);
            }
            return None;
        },
    };
    let (time, p5) = match parse_json_string(line, p4) {
        Some(x) => x,
        None => {
            proof {
                reveal_strlit("{\"name\":\"");
                reveal_strlit("\",\"vers\":\"");
                reveal_strlit("\",\"time\":\"");
                lemma_refuse_time(line@, name@, vers@, p1 as int, p3 as int, p4 as int);
            }
            return None;
        },
    };
    let line_len = line.unicode_len();
    let p6 = match expect_lit(line, p5 - 1, "\"}") {
        Some(p) => p,
        None => {
            proof {
                reveal_strlit("{\"name\":\"");
                reveal_strlit("\",\"vers\":\"");
                reveal_strlit("\",\"time\":\"");
                reveal_strlit("\"}");
                lemma_refuse_close(
                    line@,
                    name@,
                    vers@,
                    time@,
                    p1 as int,
                    p3 as int,
                    p5 as int,
                );
            }
            return None;
        },
    };
    if p6 != line_len {
        proof {
            reveal_strlit("{\"name\":\"");
            reveal_strlit("\",\"vers\":\"");
            reveal_strlit("\",\"time\":\"");
            reveal_strlit("\"}");
            lemma_refuse_close(line@, name@, vers@, time@, p1 as int, p3 as int, p5 as int);
        }
        return None;
    }
    let e = ErrorCrate { name, vers, time };
    proof {
        assert(line@ =~= line@.subrange(0, p0 as int) + line@.subrange(p0 as int, p1 - 1)
            + line@.subrange(p1 - 1, p2 as int) + line@.subrange(p2 as int, p3 - 1)
            + line@.subrange(p3 - 1, p4 as int) + line@.subrange(p4 as int, p5 - 1)
            + line@.subrange(p5 - 1, p6 as int));
        assert(line@ =~= error_line_of(e.name@, e.vers@, e.time@));
    }
    Some(e)
}

/// Some string of `v` reads `name`.
pub open spec fn has_string(v: Seq<String>, name: Seq<char>) -> bool {
    exists|i: int| 0 <= i < v.len() && v[i]@ == name
}

/// Some entry of `entries` is for a crate called `name`.
pub open spec fn has_entry_named(entries: Seq<ErrorCrate>, name: Seq<char>) -> bool {
    exists|j: int| 0 <= j < entries.len() && entries[j].name@ == name
}

/// The names to repair, one per distinct crate in the journal, in first
/// appearance order: repair is by crate, not by version.
pub fn repair_names(entries: &Vec<ErrorCrate>) -> (r: Vec<String>)
    ensures
        forall|i: int| 0 <= i < r@.len() ==> has_entry_named(entries@, (#[trigger] r@[i])@),
        forall|j: int| 0 <= j < entries@.len() ==> has_string(
            r@,
            (#[trigger] entries@[j]).name@,
        ),
        forall|i: int, k: int| 0 <= i < k < r@.len() ==> (#[trigger] r@[i])@ != (#[trigger] r@[k])@,
{
    let mut r: Vec<String> = Vec::new();
    let mut j: usize = 0;
    while j < entries.len()
        invariant
            j <= entries@.len(),
            forall|i: int| 0 <= i < r@.len() ==> has_entry_named(
                entries@.take(j as int),
                (#[trigger] r@[i])@,
            ),
            forall|jj: int| 0 <= jj < j ==> has_string(r@, (#[trigger] entries@[jj]).name@),
            forall|i: int, k: int| 0 <= i < k < r@.len() ==> (#[trigger] r@[i])@ != (
            #[trigger] r@[k])@,
        decreases entries@.len() - j,
    {
        let name = &entries[j].name;
        let mut seen = false;
        let mut i: usize = 0;
        while i < r.len()
            invariant
                i <= r@.len(),
                seen <==> exists|k: int| 0 <= k < i && r@[k]@ == name@,
            decreases r@.len() - i,
        {
            if text::str_eq(r[i].as_str(), name.as_str()) {
                seen = true;
                assert(r@[i as int]@ == name@);
            }
            i += 1;
        }
        let ghost r0 = r@;
        if !seen {
            r.push(name.clone());
        }
        proof {
            assert(forall|i: int| 0 <= i < r0.len() ==> r@[i] == r0[i]);
            let ghost taken = entries@.take(j + 1);
            assert(taken[j as int].name@ == name@);
            assert forall|i: int| 0 <= i < r@.len() implies has_entry_named(
                taken,
                (#[trigger] r@[i])@,
            ) by {
                if i < r0.len() {
                    let jj = choose|jj: int|
                        0 <= jj < entries@.take(j as int).len() && entries@.take(
                            j as int,
                        )[jj].name@ == r0[i]@;
                    assert(taken[jj].name@ == r@[i]@);
                } else {
                    assert(r@[i]@ == name@);
                    assert(taken[j as int].name@ == r@[i]@);
                }
            }
            assert forall|jj: int| 0 <= jj < j + 1 implies has_string(
                r@,
                (#[trigger] entries@[jj]).name@,
            ) by {
                if jj < j {
                    let i = choose|i: int| 0 <= i < r0.len() && r0[i]@ == entries@[jj].name@;
                    assert(r@[i]@ == entries@[jj].name@);
                } else if seen {
                    let k = choose|k: int| 0 <= k < r0.len() && r0[k]@ == name@;
                    assert(r@[k]@ == entries@[jj].name@);
                } else {
                    assert(r@[r0.len() as int]@ == entries@[jj].name@);
                }
            }
        }
        j += 1;
    }
    proof {
        assert(entries@.take(j as int) =~= entries@);
    }
    r
}

/// A failure record stamped with the present unix time, in decimal; a clock
/// before the epoch stamps zero.
pub fn error_crate_now(name: String, vers: String) -> (r: ErrorCrate)
    ensures
        r.name == name,
        r.vers == vers,
        exists|t: nat| r.time@ == text::dec_of(t),
{
    let now = crate::dates::now_unix();
    let secs = crate::dates::clamp_unix(now);
    let time = text::u64_to_string(secs);
    assert(time@ == text::dec_of(secs as nat));
    ErrorCrate { name, vers, time }
}

/// What the error journal holds after a repair pass: the pass truncates the
/// journal and re-records only its own failures, one line per failure — so a
/// repair pass that completes without new failures leaves the journal empty.
pub fn journal_after_repair(new_failures: &Vec<ErrorCrate>) -> (r: Vec<String>)
    ensures
        r@.len() == new_failures@.len(),
        forall|i: int| 0 <= i < r@.len() ==> (#[trigger] r@[i])@ == error_line_of(
            new_failures@[i].name@,
            new_failures@[i].vers@,
            new_failures@[i].time@,
        ),
        new_failures@.len() == 0 ==> r@.len() == 0,
{
    let mut r: Vec<String> = Vec::new();
    let mut i: usize = 0;
    while i < new_failures.len()
        invariant
            i <= new_failures@.len(),
            r@.len() == i,
            forall|k: int| 0 <= k < i ==> (#[trigger] r@[k])@ == error_line_of(
                new_failures@[k].name@,
                new_failures@[k].vers@,
                new_failures@[k].time@,
            ),
        decreases new_failures@.len() - i,
    {
        let line = error_crate_line(&new_failures[i]);
        r.push(line);
        i += 1;
    }
    r
}

/// One line of the commit-record log: `<from>,<to>,<seconds>`, written only
/// when the two commits differ.
pub open spec fn commit_line_of(from: Seq<char>, to: Seq<char>, seconds: nat) -> Seq<char> {
    from + seq![','] + to + seq![','] + text::dec_of(seconds)
}

/// Render the commit-record line for one index update; `None` exactly when
/// nothing moved (`from == to`), and such an update is not journaled.
pub fn commit_record_line(from: &str, to: &str, seconds: u64) -> (r: Option<String>)
    ensures
        from@ == to@ ==> r is None,
        from@ != to@ ==> (r matches Some(l) && l@ == commit_line_of(from@, to@, seconds as nat)),
{
    proof {
        reveal_strlit(",");
    }
    if text::str_eq(from, to) {
        return None;
    }
    let mut l = String::from_str(from);
    l.append(",");
    l.append(to);
    l.append(",");
    let secs = text::u64_to_string(seconds);
    l.append(secs.as_str());
    assert(l@ =~= commit_line_of(from@, to@, seconds as nat));
    Some(l)
}

/// The commit-record journal holds no line of a do-nothing update: a line is
/// produced for a `from`/`to` pair exactly when the two differ.
pub proof fn lemma_no_self_commit_record(lines: Seq<(Seq<char>, Seq<char>, nat)>)
    ensures
        forall|i: int| 0 <= i < lines.len() && (#[trigger] lines[i]).0 == lines[i].1
            ==> commit_journal_of(lines)[i] is None,
        forall|i: int| 0 <= i < lines.len() && (#[trigger] lines[i]).0 != lines[i].1
            ==> commit_journal_of(lines)[i] == Some(
            commit_line_of(lines[i].0, lines[i].1, lines[i].2),
        ),
{
}

/// What each attempted update contributes to the commit-record journal.
pub open spec fn commit_journal_of(lines: Seq<(Seq<char>, Seq<char>, nat)>) -> Seq<
    Option<Seq<char>>,
> {
    lines.map_values(
        |l: (Seq<char>, Seq<char>, nat)|
            if l.0 == l.1 {
                None
            } else {
                Some(commit_line_of(l.0, l.1, l.2))
            },
    )
}

/// Split a commit-record line at its first two commas: the two commit ids
/// and the timestamp text. Whatever is returned rejoins to exactly the input
/// line, the two ids hold no comma, and only a line with fewer than two
/// commas is refused.
pub fn parse_commit_line(line: &str) -> (r: Option<(String, String, String)>)
    ensures
        r matches Some((from, to, secs)) ==> {
            &&& line@ == from@ + seq![','] + to@ + seq![','] + secs@
            &&& !line@.subrange(0, from@.len() as int).contains(',')
            &&& !to@.contains(',')
        },
        r is None ==> !(exists|i: int, j: int|
            0 <= i < j < line@.len() && line@[i] == ',' && line@[j] == ','),
{
    let len = line.unicode_len();
    let c1 = match text::index_of_char(line, ',', 0) {
        Some(i) => i,
        None => {
            proof {
                assert(!(exists|i: int, j: int|
                    0 <= i < j < line@.len() && line@[i] == ',' && line@[j] == ',')) by {
                    if exists|i: int, j: int|
                        0 <= i < j < line@.len() && line@[i] == ',' && line@[j] == ',' {
                        let (i, j) = choose|i: int, j: int|
                            0 <= i < j < line@.len() && line@[i] == ',' && line@[j] == ',';
                        assert(line@[i] != ',');
                    }
                }
            }
            return None;
        },
    };
    let c2 = match text::index_of_char(line, ',', c1 + 1) {
        Some(i) => i,
        None => {
            proof {
                assert(!(exists|i: int, j: int|
                    0 <= i < j < line@.len() && line@[i] == ',' && line@[j] == ',')) by {
                    if exists|i: int, j: int|
                        0 <= i < j < line@.len() && line@[i] == ',' && line@[j] == ',' {
                        let (i, j) = choose|i: int, j: int|
                            0 <= i < j < line@.len() && line@[i] == ',' && line@[j] == ',';
                        if i < c1 {
                            assert(line@[i] != ',');
                        } else if i > c1 {
                            assert(line@[i] != ',');
                        } else {
                            assert(line@[j] != ',');
                        }
                    }
                }
            }
            return None;
        },
    };
    let from = text::substring(line, 0, c1);
    let to = text::substring(line, c1 + 1, c2);
    let secs = text::substring(line, c2 + 1, len);
    proof {
        assert(line@ =~= from@ + seq![','] + to@ + seq![','] + secs@);
        assert(forall|k: int| 0 <= k < from@.len() ==> from@[k] == line@[k]);
        assert(forall|k: int| 0 <= k < to@.len() ==> to@[k] == line@[c1 + 1 + k]);
        assert(!to@.contains(',')) by {
            if to@.contains(',') {
                let k = choose|k: int| 0 <= k < to@.len() && to@[k] == ',';
                assert(line@[c1 + 1 + k] == ',');
            }
        }
        assert(!line@.subrange(0, from@.len() as int).contains(',')) by {
            let pre = line@.subrange(0, from@.len() as int);
            if pre.contains(',') {
                let k = choose|k: int| 0 <= k < pre.len() && pre[k] == ',';
                assert(line@[k] == ',');
            }
        }
    }
    Some((from, to, secs))
}

} // verus!
