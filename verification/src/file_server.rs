//! The serving layer's decisions: publish body framing, translation of a
//! publish into an index line and an archive path, the local-first fallback
//! order over serve domains, route path mapping, and rejection responses.
use vstd::prelude::*;

use crate::crates_sync::{Dependency, DependencyKind, IndexFile};
use crate::hashing;
use crate::jsonfmt;
use crate::paths;
use crate::server_model::{CratesPublish, Dep};
use crate::text;
use crate::urlenc;

verus! {

/// The listening endpoint of the server, with its optional TLS key pair.
#[derive(Clone, Debug)]
pub struct FileServer {
    pub cert_path: Option<String>,
    pub key_path: Option<String>,
    pub addr: String,
    pub port: u16,
}

/// The value of four little-endian bytes.
pub open spec fn le32_of(b: Seq<u8>) -> int
    recommends
        b.len() >= 4,
{
    b[0] + 256 * b[1] + 65536 * b[2] + 16777216 * b[3]
}

/// Read a 32-bit little-endian length from the front of `bytes`.
pub fn get_usize_from_bytes(bytes: &[u8]) -> (r: usize)
    requires
        bytes@.len() >= 4,
    ensures
        r == le32_of(bytes@),
{
    (bytes[0] as usize) + 256 * (bytes[1] as usize) + 65536 * (bytes[2] as usize) + 16777216 * (
    bytes[3] as usize)
}

/// How a publish body splits: a little-endian length and the metadata JSON,
/// then a little-endian length and the crate bytes; `None` when the body is
/// too short for its own lengths. Trailing bytes are ignored.
pub open spec fn publish_split_of(body: Seq<u8>) -> Option<(Seq<u8>, Seq<u8>)> {
    if body.len() < 4 {
        None
    } else {
        let n1 = le32_of(body);
        if body.len() < 4 + n1 + 4 {
            None
        } else {
            let n2 = le32_of(body.skip(4 + n1));
            if body.len() < 8 + n1 + n2 {
                None
            } else {
                Some((body.subrange(4, 4 + n1), body.subrange(8 + n1, 8 + n1 + n2)))
            }
        }
    }
}

fn copy_bytes(body: &[u8], from: usize, to: usize) -> (r: Vec<u8>)
    requires
        from <= to <= body@.len(),
    ensures
        r@ == body@.subrange(from as int, to as int),
{
    let mut r: Vec<u8> = Vec::new();
    let mut i: usize = from;
    while i < to
        invariant
            from <= i <= to <= body@.len(),
            r@ == body@.subrange(from as int, i as int),
        decreases to - i,
    {
        r.push(body[i]);
        i += 1;
        proof {
            assert(body@.subrange(from as int, i as int) =~= body@.subrange(from as int, i - 1)
                + seq![body@[i - 1]]);
        }
    }
    r
}

/// Split a publish body into its metadata JSON and its crate bytes.
pub fn split_publish_body(body: &[u8]) -> (r: Option<(Vec<u8>, Vec<u8>)>)
    ensures
        match (r, publish_split_of(body@)) {
            (Some((json, file)), Some((sj, sf))) => json@ == sj && file@ == sf,
            (None, None) => true,
            _ => false,
        },
{
    let len = body.len();
    if len < 4 {
        return None;
    }
    let n1 = get_usize_from_bytes(body);
    if n1 > len - 4 || len - 4 - n1 < 4 {
        return None;
    }
    let tail = copy_bytes(body, 4 + n1, 4 + n1 + 4);
    let n2 = get_usize_from_bytes(tail.as_slice());
    proof {
        assert(tail@ =~= body@.skip(4 + n1).take(4));
        assert(le32_of(tail@) == le32_of(body@.skip(4 + n1)));
    }
    if n2 > len - 8 - n1 {
        return None;
    }
    let json = copy_bytes(body, 4, 4 + n1);
    let file = copy_bytes(body, 8 + n1, 8 + n1 + n2);
    Some((json, file))
}

/// The dependency stage a publish request's `kind` string denotes.
pub open spec fn kind_of_str(s: Seq<char>) -> Option<DependencyKind> {
    if s == "normal"@ {
        Some(DependencyKind::Normal)
    } else if s == "build"@ {
        Some(DependencyKind::Build)
    } else if s == "dev"@ {
        Some(DependencyKind::Dev)
    } else {
        None
    }
}

/// Every dependency of the publish names a known stage.
pub open spec fn valid_kinds(deps: Seq<Dep>) -> bool {
    forall|i: int| 0 <= i < deps.len() ==> kind_of_str((#[trigger] deps[i]).kind@) is Some
}

/// How one published dependency reads as an index dependency.
pub open spec fn dep_rel(d: Dep, out: Dependency) -> bool {
    &&& out.name@ == d.name@
    &&& out.req@ == d.version_req@
    &&& out.features@ == d.features@
    &&& out.optional == d.optional
    &&& out.default_features == d.default_features
    &&& match (out.target, d.target) {
        (Some(a), Some(b)) => a@ == b@,
        (None, None) => true,
        _ => false,
    }
    &&& out.kind == kind_of_str(d.kind@)
    &&& out.package is None
}

/// How a publish request reads as the index entry it creates, with the
/// crate bytes' digest as its checksum.
pub open spec fn publish_index_rel(p: CratesPublish, cksum: Seq<char>, f: IndexFile) -> bool {
    &&& f.name@ == p.name@
    &&& f.vers@ == p.vers@
    &&& f.deps@.len() == p.deps@.len()
    &&& forall|i: int| 0 <= i < p.deps@.len() ==> dep_rel(p.deps@[i], #[trigger] f.deps@[i])
    &&& f.cksum matches Some(c) && c@ == cksum
    &&& f.features@.len() == p.features@.len()
    &&& forall|i: int| 0 <= i < p.features@.len() ==> (#[trigger] f.features@[i]).0
        == p.features@[i].0 && f.features@[i].1@ == p.features@[i].1@
    &&& f.features2 is None
    &&& f.yanked is None
    &&& match (f.links, p.links) {
        (Some(a), Some(b)) => a@ == b@,
        (None, None) => true,
        _ => false,
    }
    &&& f.v is None
}

/// Copy a vector of strings, string by string.
fn clone_string_vec(v: &Vec<String>) -> (r: Vec<String>)
    ensures
        r@ == v@,
{
    let mut r: Vec<String> = Vec::new();
    let mut i: usize = 0;
    while i < v.len()
        invariant
            i <= v@.len(),
            r@ == v@.take(i as int),
        decreases v@.len() - i,
    {
        r.push(v[i].clone());
        i += 1;
        proof {
            assert(r@ =~= v@.take(i as int));
        }
    }
    proof {
        assert(v@.take(v@.len() as int) =~= v@);
    }
    r
}

fn parse_kind(s: &str) -> (r: Option<DependencyKind>)
    ensures
        r == kind_of_str(s@),
{
    if text::str_eq(s, "normal") {
        Some(DependencyKind::Normal)
    } else if text::str_eq(s, "build") {
        Some(DependencyKind::Build)
    } else if text::str_eq(s, "dev") {
        Some(DependencyKind::Dev)
    } else {
        None
    }
}

/// Convert a publish request into the index entry it creates; `None` when a
/// dependency names an unknown stage.
pub fn publish_to_index(p: &CratesPublish, cksum: String) -> (r: Option<IndexFile>)
    ensures
        r matches Some(f) ==> valid_kinds(p.deps@) && publish_index_rel(*p, cksum@, f),
        r is None ==> !valid_kinds(p.deps@),
{
    let mut deps: Vec<Dependency> = Vec::new();
    let mut i: usize = 0;
    while i < p.deps.len()
        invariant
            i <= p.deps@.len(),
            deps@.len() == i,
            forall|k: int| 0 <= k < i ==> dep_rel(p.deps@[k], #[trigger] deps@[k]) && kind_of_str(
                p.deps@[k].kind@,
            ) is Some,
        decreases p.deps@.len() - i,
    {
        let d = &p.deps[i];
        let kind = match parse_kind(d.kind.as_str()) {
            Some(k) => k,
            None => {
                assert(kind_of_str(p.deps@[i as int].kind@) is None);
                return None;
            },
        };
        deps.push(
            Dependency {
                name: d.name.clone(),
                req: d.version_req.clone(),
                features: clone_string_vec(&d.features),
                optional: d.optional,
                default_features: d.default_features,
                target: match &d.target {
                    Some(t) => Some(t.clone()),
                    None => None,
                },
                kind: Some(kind),
                package: None,
            },
        );
        i += 1;
    }
    let mut features: Vec<(String, Vec<String>)> = Vec::new();
    let mut k: usize = 0;
    while k < p.features.len()
        invariant
            k <= p.features@.len(),
            features@.len() == k,
            forall|j: int| 0 <= j < k ==> (#[trigger] features@[j]).0 == p.features@[j].0
                && features@[j].1@ == p.features@[j].1@,
        decreases p.features@.len() - k,
    {
        let key = p.features[k].0.clone();
        let vals = clone_string_vec(&p.features[k].1);
        features.push((key, vals));
        k += 1;
    }
    let f = IndexFile {
        name: p.name.clone(),
        vers: p.vers.clone(),
        deps,
        cksum: Some(cksum),
        features,
        features2: None,
        yanked: None,
        links: match &p.links {
            Some(l) => Some(l.clone()),
            None => None,
        },
        v: None,
    };
    proof {
        assert forall|j: int| 0 <= j < p.deps@.len() implies kind_of_str(
            (#[trigger] p.deps@[j]).kind@,
        ) is Some by {
            assert(dep_rel(p.deps@[j], f.deps@[j]));
        }
        assert(valid_kinds(p.deps@));
        assert(f.name@ == p.name@);
        assert(f.vers@ == p.vers@);
        assert(f.deps@.len() == p.deps@.len());
        assert(forall|j: int| 0 <= j < p.deps@.len() ==> dep_rel(
            p.deps@[j],
            #[trigger] f.deps@[j],
        ));
        assert(f.cksum matches Some(c) && c@ == cksum@);
        assert(f.features@.len() == p.features@.len());
        assert(forall|j: int| 0 <= j < p.features@.len() ==> (#[trigger] f.features@[j]).0
            == p.features@[j].0 && f.features@[j].1@ == p.features@[j].1@);
        assert(match (f.links, p.links) {
            (Some(a), Some(b)) => a@ == b@,
            (None, None) => true,
            _ => false,
        });
    }
    Some(f)
}

/// A publish the registry can record: a named crate whose dependencies all
/// name known stages.
pub open spec fn publishable(p: CratesPublish) -> bool {
    p.name@.len() >= 1 && valid_kinds(p.deps@)
}

/// The index write of a publish: the path of the crate's index file under
/// `index_root`, and the line recorded there, whose checksum is the digest
/// of the posted crate bytes.
pub fn save_crate_index(json: &CratesPublish, content: &[u8], index_root: &str) -> (r: Option<
    (String, String),
>)
    ensures
        r is Some <==> publishable(*json),
        r matches Some((path, line)) ==> {
            &&& path@ == index_root@ + seq!['/'] + paths::index_suffix_of(json.name@)
            &&& exists|f: IndexFile|
                publish_index_rel(*json, hashing::sha256_hex_of(content@), f) && line@
                    == jsonfmt::index_line_of(f)
        },
{
    proof {
        reveal_strlit("/");
    }
    if json.name.unicode_len() == 0 {
        return None;
    }
    let cksum = hashing::sha256_hex(content);
    let f = match publish_to_index(json, cksum) {
        Some(f) => f,
        None => {
            return None;
        },
    };
    let suffix = paths::index_suffix(json.name.as_str());
    let mut path = String::from_str(index_root);
    path.append("/");
    path.append(suffix.as_str());
    let line = jsonfmt::index_line(&f);
    proof {
        assert(path@ =~= index_root@ + seq!['/'] + paths::index_suffix_of(json.name@));
    }
    Some((path, line))
}

/// The archive write of a publish: the posted bytes go byte-for-byte to
/// `<crates_root>/<name>/<name>-<vers>.crate`.
pub fn save_crate_file(json: &CratesPublish, crates_root: &str) -> (r: String)
    ensures
        r@ == paths::crate_path_of(crates_root@, json.name@, json.vers@),
{
    paths::crate_local_path(crates_root, json.name.as_str(), json.vers.as_str())
}

/// The first serve domain that answers: fallback order is exactly the
/// configured order, and the first success wins.
pub fn first_success(results: &Vec<bool>) -> (r: Option<usize>)
    ensures
        match r {
            Some(i) => i < results@.len() && results@[i as int] && forall|k: int|
                0 <= k < i ==> !results@[k],
            None => forall|k: int| 0 <= k < results@.len() ==> !results@[k],
        },
{
    let mut i: usize = 0;
    while i < results.len()
        invariant
            i <= results@.len(),
            forall|k: int| 0 <= k < i ==> !results@[k],
        decreases results@.len() - i,
    {
        if results[i] {
            return Some(i);
        }
        i += 1;
    }
    None
}

/// A serve domain that means the local disk rather than a remote origin.
pub fn domain_is_local(domain: &str) -> (r: bool)
    ensures
        r == (domain@ == "localhost"@),
{
    text::str_eq(domain, "localhost")
}

/// The redirect URL for a file served from a fallback domain:
/// `<domain>/<file_path>`, with the final segment form-urlencoded for a
/// crates request answered by a `myhuaweicloud.com` origin.
pub fn serve_redirect_url(domain: &str, file_path: &str, is_crates: bool) -> (r: String)
    ensures
        ({
            let p = seq!['/'] + file_path@;
            if is_crates && urlenc::huawei_rewrites(domain@, p) {
                r@ == domain@ + urlenc::huawei_encoded_path(p)
            } else {
                r@ == domain@ + p
            }
        }),
{
    proof {
        reveal_strlit("/");
    }
    let mut path = String::from_str("/");
    path.append(file_path);
    assert(path@ =~= seq!['/'] + file_path@);
    let mut r = String::from_str(domain);
    if is_crates {
        let encoded = urlenc::encode_huaweicloud_url(domain, path.as_str());
        r.append(encoded.as_str());
    } else {
        r.append(path.as_str());
        assert(!urlenc::huawei_rewrites(domain@, path@) ==> r@ == domain@ + path@);
        assert(urlenc::huawei_rewrites(domain@, path@) ==> r@ == domain@ + path@);
    }
    proof {
        if !(is_crates && urlenc::huawei_rewrites(domain@, seq!['/'] + file_path@)) {
            assert(r@ == domain@ + (seq!['/'] + file_path@));
        }
    }
    r
}

/// The version a crate file name denotes on the download route: what follows
/// the last `-`, with a `.crate` ending removed.
pub open spec fn version_of_file(file: Seq<char>) -> Seq<char> {
    let seg = file.skip(urlenc::rfind_char(file, '-') + 1);
    if text::has_suffix(seg, ".crate"@) {
        seg.take(seg.len() - 6)
    } else {
        seg
    }
}

/// Extract the version from a crate file name.
pub fn crate_version_of_file(file: &str) -> (r: String)
    ensures
        r@ == version_of_file(file@),
{
    proof {
        reveal_strlit(".crate");
    }
    let len = file.unicode_len();
    let seg = match text::last_index_of_char(file, '-') {
        Some(i) => {
            proof {
                urlenc::lemma_rfind_char(file@, '-');
                let f = urlenc::rfind_char(file@, '-');
                if f == -1 {
                    assert(false);
                } else if f < i {
                    assert(file@[i as int] == '-');
                    assert(false);
                } else if f > i {
                    assert(file@[f] == '-');
                    assert(false);
                }
            }
            text::substring(file, i + 1, len)
        },
        None => {
            proof {
                urlenc::lemma_rfind_char(file@, '-');
                let f = urlenc::rfind_char(file@, '-');
                if f != -1 {
                    assert(file@[f] == '-');
                    assert(false);
                }
                assert(file@.skip(0) =~= file@);
            }
            String::from_str(file)
        },
    };
    let seg_len = seg.unicode_len();
    if text::str_ends_with(seg.as_str(), ".crate") {
        text::substring(seg.as_str(), 0, seg_len - 6)
    } else {
        seg
    }
}

/// The local file a crates request maps to:
/// `crates/<name>/<name>-<version>.crate`.
pub fn crates_file_path(name: &str, version: &str) -> (r: String)
    ensures
        r@ == paths::crate_path_of("crates"@, name@, version@),
{
    paths::crate_local_path("crates", name, version)
}

/// What a request was rejected for.
#[derive(Clone, Copy, Debug, PartialEq, Eq, Structural)]
pub enum Rejection {
    /// No local file and every fallback origin failed.
    NotFound,
    /// The body could not be deserialized.
    BodyDeserialize,
    MethodNotAllowed,
    /// Anything unexpected.
    Other,
}

/// The status code and message of a rejection: misses answer 404,
/// body errors 400, method errors 405, anything else 500.
pub fn rejection_response(rej: &Rejection) -> (r: (u16, String))
    ensures
        rej is NotFound ==> r.0 == 404 && r.1@ == "NOT_FOUND"@,
        rej is BodyDeserialize ==> r.0 == 400 && r.1@ == "BAD_REQUEST"@,
        rej is MethodNotAllowed ==> r.0 == 405 && r.1@ == "METHOD_NOT_ALLOWED"@,
        rej is Other ==> r.0 == 500 && r.1@ == "UNHANDLED_REJECTION"@,
{
    match rej {
        Rejection::NotFound => (404, String::from_str("NOT_FOUND")),
        Rejection::BodyDeserialize => (400, String::from_str("BAD_REQUEST")),
        Rejection::MethodNotAllowed => (405, String::from_str("METHOD_NOT_ALLOWED")),
        Rejection::Other => (500, String::from_str("UNHANDLED_REJECTION")),
    }
}

/// The JSON body of an error response: `{"code":<code>,"message":"<text>"}`.
pub fn error_message_json(code: u16, message: &str) -> (r: String)
    ensures
        r@ == "{\"code\":"@ + text::dec_of(code as nat) + ",\"message\":"@ + jsonfmt::json_str_of(
            message@,
        ) + "}"@,
{
    let mut r = String::from_str("{\"code\":");
    let code_str = text::u64_to_string(code as u64);
    r.append(code_str.as_str());
    r.append(",\"message\":");
    let msg = jsonfmt::json_string(message);
    r.append(msg.as_str());
    r.append("}");
    assert(r@ =~= "{\"code\":"@ + text::dec_of(code as nat) + ",\"message\":"@
        + jsonfmt::json_str_of(message@) + "}"@);
    r
}

} // verus!
