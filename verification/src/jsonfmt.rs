//! JSON rendering of index entries: the exact line the registry writes for a
//! published version, with optional fields omitted the way the index format
//! expects.
use vstd::prelude::*;

use crate::crates_sync::{Dependency, DependencyKind, IndexFile};
use crate::journal;
use crate::text;

verus! {

/// A JSON string: the escaped characters between quotes.
pub open spec fn json_str_of(s: Seq<char>) -> Seq<char> {
    seq!['"'] + journal::json_escaped(s) + seq!['"']
}

/// Render a JSON string.
pub fn json_string(s: &str) -> (r: String)
    ensures
        r@ == json_str_of(s@),
{
    proof {
        reveal_strlit("\"");
    }
    let mut r = String::from_str("\"");
    let body = journal::escape_json(s);
    r.append(body.as_str());
    r.append("\"");
    assert(r@ =~= json_str_of(s@));
    r
}

/// An optional JSON string: `null` when absent.
pub open spec fn json_opt_str_of(o: Option<String>) -> Seq<char> {
    match o {
        None => "null"@,
        Some(s) => json_str_of(s@),
    }
}

/// Render an optional JSON string.
pub fn json_opt_string(o: &Option<String>) -> (r: String)
    ensures
        r@ == json_opt_str_of(*o),
{
    match o {
        None => String::from_str("null"),
        Some(s) => json_string(s.as_str()),
    }
}

/// A JSON boolean.
pub open spec fn json_bool_of(b: bool) -> Seq<char> {
    if b {
        "true"@
    } else {
        "false"@
    }
}

/// An optional JSON boolean: `null` when absent.
pub open spec fn json_opt_bool_of(o: Option<bool>) -> Seq<char> {
    match o {
        None => "null"@,
        Some(b) => json_bool_of(b),
    }
}

/// Render an optional JSON boolean.
pub fn json_opt_bool(o: &Option<bool>) -> (r: String)
    ensures
        r@ == json_opt_bool_of(*o),
{
    match o {
        None => String::from_str("null"),
        Some(b) => if *b {
            String::from_str("true")
        } else {
            String::from_str("false")
        },
    }
}

/// The comma-separated body of a JSON array of strings.
pub open spec fn str_array_body_of(v: Seq<String>) -> Seq<char>
    decreases v.len(),
{
    if v.len() == 0 {
        Seq::empty()
    } else if v.len() == 1 {
        json_str_of(v[0]@)
    } else {
        str_array_body_of(v.drop_last()) + seq![','] + json_str_of(v.last()@)
    }
}

/// A JSON array of strings.
pub open spec fn str_array_of(v: Seq<String>) -> Seq<char> {
    seq!['['] + str_array_body_of(v) + seq![']']
}

/// Render a JSON array of strings.
pub fn json_str_array(v: &Vec<String>) -> (r: String)
    ensures
        r@ == str_array_of(v@),
{
    proof {
        reveal_strlit("[");
        reveal_strlit("]");
        reveal_strlit(",");
    }
    let mut r = String::from_str("[");
    let mut i: usize = 0;
    assert(r@ =~= seq!['['] + str_array_body_of(v@.take(0)));
    while i < v.len()
        invariant
            i <= v@.len(),
            r@ == seq!['['] + str_array_body_of(v@.take(i as int)),
        decreases v@.len() - i,
    {
        proof {
            reveal_strlit(",");
        }
        if i > 0 {
            r.append(",");
        }
        let item = json_string(v[i].as_str());
        r.append(item.as_str());
        i += 1;
        proof {
            assert(v@.take(i as int).drop_last() =~= v@.take(i - 1));
            assert(v@.take(i as int).last() == v@[i - 1]);
            assert(r@ =~= seq!['['] + str_array_body_of(v@.take(i as int)));
        }
    }
    r.append("]");
    proof {
        assert(v@.take(v@.len() as int) =~= v@);
        assert(r@ =~= str_array_of(v@));
    }
    r
}

/// One feature entry: the feature name mapped to what it activates.
pub open spec fn feature_entry_of(e: (String, Vec<String>)) -> Seq<char> {
    json_str_of(e.0@) + seq![':'] + str_array_of(e.1@)
}

/// The comma-separated body of the features object.
pub open spec fn features_body_of(v: Seq<(String, Vec<String>)>) -> Seq<char>
    decreases v.len(),
{
    if v.len() == 0 {
        Seq::empty()
    } else if v.len() == 1 {
        feature_entry_of(v[0])
    } else {
        features_body_of(v.drop_last()) + seq![','] + feature_entry_of(v.last())
    }
}

/// The features object of an index entry.
pub open spec fn features_of(v: Seq<(String, Vec<String>)>) -> Seq<char> {
    seq!['{'] + features_body_of(v) + seq!['}']
}

/// Render the features object.
pub fn json_features(v: &Vec<(String, Vec<String>)>) -> (r: String)
    ensures
        r@ == features_of(v@),
{
    proof {
        reveal_strlit("{");
        reveal_strlit("}");
    }
    let mut r = String::from_str("{");
    let mut i: usize = 0;
    assert(r@ =~= seq!['{'] + features_body_of(v@.take(0)));
    while i < v.len()
        invariant
            i <= v@.len(),
            r@ == seq!['{'] + features_body_of(v@.take(i as int)),
        decreases v@.len() - i,
    {
        proof {
            reveal_strlit(",");
            reveal_strlit(":");
        }
        if i > 0 {
            r.append(",");
        }
        let key = json_string(v[i].0.as_str());
        r.append(key.as_str());
        r.append(":");
        let vals = json_str_array(&v[i].1);
        r.append(vals.as_str());
        i += 1;
        proof {
            assert(v@.take(i as int).drop_last() =~= v@.take(i - 1));
            assert(v@.take(i as int).last() == v@[i - 1]);
            assert(r@ =~= seq!['{'] + features_body_of(v@.take(i as int)));
        }
    }
    r.append("}");
    proof {
        assert(v@.take(v@.len() as int) =~= v@);
        assert(r@ =~= features_of(v@));
    }
    r
}

/// The dependency stage as JSON: `null` when unrecorded.
pub open spec fn kind_json_of(k: Option<DependencyKind>) -> Seq<char> {
    match k {
        None => "null"@,
        Some(DependencyKind::Normal) => "\"normal\""@,
        Some(DependencyKind::Build) => "\"build\""@,
        Some(DependencyKind::Dev) => "\"dev\""@,
    }
}

fn json_kind(k: &Option<DependencyKind>) -> (r: &'static str)
    ensures
        r@ == kind_json_of(*k),
{
    match k {
        None => "null",
        Some(DependencyKind::Normal) => "\"normal\"",
        Some(DependencyKind::Build) => "\"build\"",
        Some(DependencyKind::Dev) => "\"dev\"",
    }
}

/// One dependency as the index records it; the optional rename is omitted
/// when absent.
pub open spec fn dep_json_of(d: Dependency) -> Seq<char> {
    "{\"name\":"@ + json_str_of(d.name@) + ",\"version_req\":"@ + json_str_of(d.req@)
        + ",\"features\":"@ + str_array_of(d.features@) + ",\"optional\":"@ + json_bool_of(
        d.optional,
    ) + ",\"default_features\":"@ + json_bool_of(d.default_features) + ",\"target\":"@
        + json_opt_str_of(d.target) + ",\"kind\":"@ + kind_json_of(d.kind) + (match d.package {
        None => Seq::<char>::empty(),
        Some(p) => ",\"package\":"@ + json_str_of(p@),
    }) + "}"@
}

/// Render one dependency.
pub fn json_dep(d: &Dependency) -> (r: String)
    ensures
        r@ == dep_json_of(*d),
{
    proof {
        reveal_strlit("true");
        reveal_strlit("false");
    }
    let mut r = String::from_str("{\"name\":");
    let name = json_string(d.name.as_str());
    r.append(name.as_str());
    r.append(",\"version_req\":");
    let req = json_string(d.req.as_str());
    r.append(req.as_str());
    r.append(",\"features\":");
    let features = json_str_array(&d.features);
    r.append(features.as_str());
    r.append(",\"optional\":");
    r.append(if d.optional { "true" } else { "false" });
    r.append(",\"default_features\":");
    r.append(if d.default_features { "true" } else { "false" });
    r.append(",\"target\":");
    let target = json_opt_string(&d.target);
    r.append(target.as_str());
    r.append(",\"kind\":");
    r.append(json_kind(&d.kind));
    match &d.package {
        None => {},
        Some(p) => {
            r.append(",\"package\":");
            let package = json_string(p.as_str());
            r.append(package.as_str());
        },
    }
    r.append("}");
    assert(r@ =~= dep_json_of(*d));
    r
}

/// The comma-separated body of the dependency array.
pub open spec fn deps_body_of(v: Seq<Dependency>) -> Seq<char>
    decreases v.len(),
{
    if v.len() == 0 {
        Seq::empty()
    } else if v.len() == 1 {
        dep_json_of(v[0])
    } else {
        deps_body_of(v.drop_last()) + seq![','] + dep_json_of(v.last())
    }
}

/// The dependency array of an index entry.
pub open spec fn deps_json_of(v: Seq<Dependency>) -> Seq<char> {
    seq!['['] + deps_body_of(v) + seq![']']
}

/// Render the dependency array.
pub fn json_deps(v: &Vec<Dependency>) -> (r: String)
    ensures
        r@ == deps_json_of(v@),
{
    proof {
        reveal_strlit("[");
        reveal_strlit("]");
    }
    let mut r = String::from_str("[");
    let mut i: usize = 0;
    assert(r@ =~= seq!['['] + deps_body_of(v@.take(0)));
    while i < v.len()
        invariant
            i <= v@.len(),
            r@ == seq!['['] + deps_body_of(v@.take(i as int)),
        decreases v@.len() - i,
    {
        proof {
            reveal_strlit(",");
        }
        if i > 0 {
            r.append(",");
        }
        let item = json_dep(&v[i]);
        r.append(item.as_str());
        i += 1;
        proof {
            assert(v@.take(i as int).drop_last() =~= v@.take(i - 1));
            assert(v@.take(i as int).last() == v@[i - 1]);
            assert(r@ =~= seq!['['] + deps_body_of(v@.take(i as int)));
        }
    }
    r.append("]");
    proof {
        assert(v@.take(v@.len() as int) =~= v@);
        assert(r@ =~= deps_json_of(v@));
    }
    r
}

/// The JSON line an index entry occupies: field by field in index order,
/// with `cksum`, `features2`, `v` and a dependency's rename omitted when
/// absent, and `yanked` and `links` written as `null` when absent.
pub open spec fn index_line_of(f: IndexFile) -> Seq<char> {
    "{\"name\":"@ + json_str_of(f.name@) + ",\"vers\":"@ + json_str_of(f.vers@) + ",\"deps\":"@
        + deps_json_of(f.deps@) + (match f.cksum {
        None => Seq::<char>::empty(),
        Some(c) => ",\"cksum\":"@ + json_str_of(c@),
    }) + ",\"features\":"@ + features_of(f.features@) + (match f.features2 {
        None => Seq::<char>::empty(),
        Some(m) => ",\"features2\":"@ + features_of(m@),
    }) + ",\"yanked\":"@ + json_opt_bool_of(f.yanked) + ",\"links\":"@ + json_opt_str_of(f.links)
        + (match f.v {
        None => Seq::<char>::empty(),
        Some(n) => ",\"v\":"@ + text::dec_of(n as nat),
    }) + "}"@
}

/// Render the index line of one entry.
#[verifier::rlimit(50)]
pub fn index_line(f: &IndexFile) -> (r: String)
    ensures
        r@ == index_line_of(*f),
{
    let mut r = String::from_str("{\"name\":");
    let name = json_string(f.name.as_str());
    r.append(name.as_str());
    r.append(",\"vers\":");
    let vers = json_string(f.vers.as_str());
    r.append(vers.as_str());
    r.append(",\"deps\":");
    let deps = json_deps(&f.deps);
    r.append(deps.as_str());
    match &f.cksum {
        None => {},
        Some(c) => {
            r.append(",\"cksum\":");
            let cksum = json_string(c.as_str());
            r.append(cksum.as_str());
        },
    }
    r.append(",\"features\":");
    let features = json_features(&f.features);
    r.append(features.as_str());
    match &f.features2 {
        None => {},
        Some(m) => {
            r.append(",\"features2\":");
            let features2 = json_features(m);
            r.append(features2.as_str());
        },
    }
    r.append(",\"yanked\":");
    let yanked = json_opt_bool(&f.yanked);
    r.append(yanked.as_str());
    r.append(",\"links\":");
    let links = json_opt_string(&f.links);
    r.append(links.as_str());
    match &f.v {
        None => {},
        Some(n) => {
            r.append(",\"v\":");
            let v = text::u64_to_string(*n as u64);
            r.append(v.as_str());
        },
    }
    r.append("}");
    assert(r@ =~= index_line_of(*f));
    r
}

} // verus!
