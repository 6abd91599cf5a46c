//! The smart-protocol bridge's plain parts: the helper invocations, the
//! advertisement prefix, and parsing of the child's header block.
use vstd::prelude::*;

use crate::text;

verus! {

/// The bridge to the version-control helpers; it owns no state.
#[derive(Clone, Debug)]
pub struct GitCommand {}

impl Default for GitCommand {
    fn default() -> (r: Self) {
        GitCommand {  }
    }
}

/// The arguments of the reference-advertisement helper: stateless RPC over
/// the index clone under `work_dir`.
pub fn upload_pack_args(work_dir: &str) -> (r: Vec<String>)
    ensures
        r@.len() == 4,
        r@[0]@ == "upload-pack"@,
        r@[1]@ == "--stateless-rpc"@,
        r@[2]@ == "--advertise-refs"@,
        r@[3]@ == work_dir@ + "/crates.io-index"@,
{
    let mut r: Vec<String> = Vec::new();
    r.push(String::from_str("upload-pack"));
    r.push(String::from_str("--stateless-rpc"));
    r.push(String::from_str("--advertise-refs"));
    let mut dir = String::from_str(work_dir);
    dir.append("/crates.io-index");
    r.push(dir);
    r
}

/// The environment of the http-backend helper, in order: the project root,
/// the fixed path info, the request method, the content type when the
/// request carried one, and the export-all switch.
pub fn http_backend_env(work_dir: &str, method: &str, content_type: &Option<String>) -> (r: Vec<
    (String, String),
>)
    ensures
        content_type is Some ==> r@.len() == 5,
        content_type is None ==> r@.len() == 4,
        r@[0].0@ == "GIT_PROJECT_ROOT"@ && r@[0].1@ == work_dir@,
        r@[1].0@ == "PATH_INFO"@ && r@[1].1@ == "/crates.io-index/git-upload-pack"@,
        r@[2].0@ == "REQUEST_METHOD"@ && r@[2].1@ == method@,
        content_type matches Some(c) ==> r@[3].0@ == "CONTENT_TYPE"@ && r@[3].1@ == c@,
        r@[r@.len() - 1].0@ == "GIT_HTTP_EXPORT_ALL"@ && r@[r@.len() - 1].1@ == "true"@,
{
    let mut r: Vec<(String, String)> = Vec::new();
    r.push((String::from_str("GIT_PROJECT_ROOT"), String::from_str(work_dir)));
    r.push(
        (String::from_str("PATH_INFO"), String::from_str("/crates.io-index/git-upload-pack")),
    );
    r.push((String::from_str("REQUEST_METHOD"), String::from_str(method)));
    match content_type {
        Some(c) => {
            r.push((String::from_str("CONTENT_TYPE"), c.clone()));
        },
        None => {},
    }
    r.push((String::from_str("GIT_HTTP_EXPORT_ALL"), String::from_str("true")));
    r
}

/// The bytes prefixed to a reference advertisement: the service banner
/// pkt-line and a flush packet.
pub fn info_refs_prefix() -> (r: &'static str)
    ensures
        r@ == "001e# service=git-upload-pack\n0000"@,
{
    "001e# service=git-upload-pack\n0000"
}

/// The content type and cache headers of a reference advertisement.
pub fn info_refs_headers() -> (r: Vec<(String, String)>)
    ensures
        r@.len() == 2,
        r@[0].0@ == "Content-Type"@ && r@[0].1@
            == "application/x-git-upload-pack-advertisement"@,
        r@[1].0@ == "Cache-Control"@ && r@[1].1@ == "no-cache, max-age=0, must-revalidate"@,
{
    let mut r: Vec<(String, String)> = Vec::new();
    r.push(
        (
            String::from_str("Content-Type"),
            String::from_str("application/x-git-upload-pack-advertisement"),
        ),
    );
    r.push(
        (
            String::from_str("Cache-Control"),
            String::from_str("no-cache, max-age=0, must-revalidate"),
        ),
    );
    r
}

/// A character the end of a header line sheds: the line terminator and
/// surrounding blanks.
pub open spec fn is_line_trailer(c: char) -> bool {
    c == '\n' || c == '\r' || c == ' ' || c == '\t'
}

/// A line with its trailing terminator and blanks removed.
pub open spec fn trimmed_end(s: Seq<char>) -> Seq<char>
    decreases s.len(),
{
    if s.len() > 0 && is_line_trailer(s.last()) {
        trimmed_end(s.drop_last())
    } else {
        s
    }
}

/// Strip the line terminator and trailing blanks from a header line.
pub fn strip_line_end(line: &str) -> (r: String)
    ensures
        r@ == trimmed_end(line@),
{
    let len = line.unicode_len();
    let mut end: usize = len;
    let mut stop = false;
    assert(line@.take(len as int) =~= line@);
    while end > 0 && !stop
        invariant
            end <= len,
            len == line@.len(),
            trimmed_end(line@) == trimmed_end(line@.take(end as int)),
            stop ==> trimmed_end(line@.take(end as int)) == line@.take(end as int),
        decreases 2 * end + (if stop { 0int } else { 1int }),
    {
        let c = line.get_char(end - 1);
        if c == '\n' || c == '\r' || c == ' ' || c == '\t' {
            proof {
                assert(line@.take(end as int).last() == line@[end - 1]);
                assert(line@.take(end as int).drop_last() =~= line@.take(end - 1));
            }
            end -= 1;
        } else {
            proof {
                assert(line@.take(end as int).last() == line@[end - 1]);
            }
            stop = true;
        }
    }
    proof {
        if end == 0 {
            assert(line@.take(0) =~= Seq::<char>::empty());
        }
    }
    text::substring(line, 0, end)
}

/// Split a header line at its first `": "`: the header name and its value.
/// `None` when the line holds no such separator.
pub fn split_header_line(line: &str) -> (r: Option<(String, String)>)
    ensures
        match r {
            Some((k, v)) => {
                &&& line@ == k@ + ": "@ + v@
                &&& forall|j: int|
                    0 <= j < k@.len() ==> !((#[trigger] line@[j]) == ':' && line@[j + 1] == ' ')
            },
            None => forall|j: int|
                0 <= j && j + 1 < line@.len() ==> !((#[trigger] line@[j]) == ':' && line@[j + 1]
                    == ' '),
        },
{
    proof {
        reveal_strlit(": ");
    }
    let len = line.unicode_len();
    if len < 2 {
        return None;
    }
    let mut i: usize = 0;
    while i + 1 < len
        invariant
            len == line@.len(),
            i + 1 <= len,
            forall|j: int| 0 <= j < i ==> !((#[trigger] line@[j]) == ':' && line@[j + 1] == ' '),
        decreases len - i,
    {
        if line.get_char(i) == ':' && line.get_char(i + 1) == ' ' {
            let k = text::substring(line, 0, i);
            let v = text::substring(line, i + 2, len);
            proof {
                reveal_strlit(": ");
                assert(line@ =~= k@ + ": "@ + v@);
            }
            return Some((k, v));
        }
        i += 1;
    }
    None
}

} // verus!
