//! Toolchain channel synchronization: manifest fan-out into download tasks,
//! channel name resolution, the per-mode sync plan, retention of dated
//! snapshot directories, and upload path derivation.
use vstd::prelude::*;

use crate::config::{ProxyConfig, RustUpConfig};
use crate::dates;
use crate::dates::Date;
use crate::paths;
use crate::text;

verus! {

/// One platform's entry in a channel manifest: up to two (URL, hash) pairs,
/// one xz-compressed and one plain.
#[derive(Clone, Debug)]
pub struct Target {
    pub available: bool,
    pub url: Option<String>,
    pub hash: Option<String>,
    pub xz_url: Option<String>,
    pub xz_hash: Option<String>,
}

/// One package of a channel manifest: a version and its per-platform targets.
#[derive(Clone, Debug)]
pub struct Pkg {
    pub version: String,
    pub target: Vec<(String, Target)>,
}

/// A parsed channel manifest.
#[derive(Clone, Debug)]
pub struct Channel {
    pub manifest_version: String,
    pub date: String,
    pub pkg: Vec<(String, Pkg)>,
}

/// Options of one `channel` invocation.
#[derive(Clone, Debug)]
pub struct ChannelOptions {
    pub config: RustUpConfig,
    pub proxy: ProxyConfig,
    /// Whether to clean historical versions.
    pub clean: bool,
    /// Sync only this channel.
    pub version: Option<String>,
    pub dist_path: String,
    pub bucket: Option<String>,
    pub upload: bool,
    pub delete_after_upload: bool,
    pub sync_history: bool,
    pub init: bool,
}

/// The task one (URL, hash) pair yields: nothing unless the target is
/// available and both parts are present and non-empty.
pub open spec fn pair_tasks(
    available: bool,
    url: Option<String>,
    hash: Option<String>,
) -> Seq<(Seq<char>, Seq<char>)> {
    match (url, hash) {
        (Some(u), Some(h)) => if available && u@.len() > 0 && h@.len() > 0 {
            seq![(u@, h@)]
        } else {
            Seq::empty()
        },
        _ => Seq::empty(),
    }
}

/// The tasks of one target: the xz pair first, then the plain pair.
pub open spec fn target_tasks(t: Target) -> Seq<(Seq<char>, Seq<char>)> {
    pair_tasks(t.available, t.xz_url, t.xz_hash) + pair_tasks(t.available, t.url, t.hash)
}

/// The tasks of a package's targets, in manifest order.
pub open spec fn targets_tasks(ts: Seq<(String, Target)>) -> Seq<(Seq<char>, Seq<char>)>
    decreases ts.len(),
{
    if ts.len() == 0 {
        Seq::empty()
    } else {
        targets_tasks(ts.drop_last()) + target_tasks(ts.last().1)
    }
}

/// The tasks of a manifest's packages, in manifest order.
pub open spec fn pkgs_tasks(ps: Seq<(String, Pkg)>) -> Seq<(Seq<char>, Seq<char>)>
    decreases ps.len(),
{
    if ps.len() == 0 {
        Seq::empty()
    } else {
        pkgs_tasks(ps.drop_last()) + targets_tasks(ps.last().1.target@)
    }
}

/// All (URL, hash) download tasks of a channel manifest.
pub open spec fn channel_tasks(c: Channel) -> Seq<(Seq<char>, Seq<char>)> {
    pkgs_tasks(c.pkg@)
}

/// The views of a vector of (URL, hash) pairs.
pub open spec fn pair_views(v: Seq<(String, String)>) -> Seq<(Seq<char>, Seq<char>)> {
    v.map_values(|p: (String, String)| (p.0@, p.1@))
}

fn push_pair_tasks(
    out: &mut Vec<(String, String)>,
    available: bool,
    url: &Option<String>,
    hash: &Option<String>,
)
    ensures
        pair_views(final(out)@) == pair_views(old(out)@) + pair_tasks(available, *url, *hash),
{
    let ghost out0 = out@;
    match (url, hash) {
        (Some(u), Some(h)) => {
            if available && u.unicode_len() > 0 && h.unicode_len() > 0 {
                out.push((u.clone(), h.clone()));
                assert(pair_views(out@) =~= pair_views(out0) + pair_tasks(available, *url, *hash));
            } else {
                assert(pair_views(out@) =~= pair_views(out0) + pair_tasks(available, *url, *hash));
            }
        },
        _ => {
            assert(pair_views(out@) =~= pair_views(out0) + pair_tasks(available, *url, *hash));
        },
    }
}

/// Every (URL, hash) download task a parsed channel manifest calls for:
/// for each package and target in order, the xz pair and the plain pair,
/// each only when available, present and non-empty.
pub fn parse_channel_file(channel: &Channel) -> (r: Vec<(String, String)>)
    ensures
        pair_views(r@) == channel_tasks(*channel),
{
    let mut out: Vec<(String, String)> = Vec::new();
    let mut i: usize = 0;
    assert(pair_views(out@) =~= pkgs_tasks(channel.pkg@.take(0)));
    while i < channel.pkg.len()
        invariant
            i <= channel.pkg@.len(),
            pair_views(out@) == pkgs_tasks(channel.pkg@.take(i as int)),
        decreases channel.pkg@.len() - i,
    {
        let targets = &channel.pkg[i].1.target;
        let mut j: usize = 0;
        assert(targets_tasks(targets@.take(0)) =~= Seq::empty());
        assert(pair_views(out@) == pkgs_tasks(channel.pkg@.take(i as int)) + targets_tasks(
            targets@.take(0),
        ));
        while j < targets.len()
            invariant
                j <= targets@.len(),
                i < channel.pkg@.len(),
                targets == &channel.pkg@[i as int].1.target,
                pair_views(out@) == pkgs_tasks(channel.pkg@.take(i as int)) + targets_tasks(
                    targets@.take(j as int),
                ),
            decreases targets@.len() - j,
        {
            let t = &targets[j].1;
            let ghost before = out@;
            push_pair_tasks(&mut out, t.available, &t.xz_url, &t.xz_hash);
            push_pair_tasks(&mut out, t.available, &t.url, &t.hash);
            j += 1;
            proof {
                assert(targets@.take(j as int).drop_last() =~= targets@.take(j - 1));
                assert(targets@.take(j as int).last() == targets@[j - 1]);
                assert(pair_views(out@) =~= pkgs_tasks(channel.pkg@.take(i as int))
                    + targets_tasks(targets@.take(j as int)));
            }
        }
        i += 1;
        proof {
            assert(targets@.take(targets@.len() as int) =~= targets@);
            assert(channel.pkg@.take(i as int).drop_last() =~= channel.pkg@.take(i - 1));
            assert(channel.pkg@.take(i as int).last() == channel.pkg@[i - 1]);
            assert(pair_views(out@) =~= pkgs_tasks(channel.pkg@.take(i as int)));
        }
    }
    proof {
        assert(channel.pkg@.take(channel.pkg@.len() as int) =~= channel.pkg@);
    }
    out
}

/// A target marked unavailable yields no download task at all.
pub proof fn lemma_unavailable_target_no_tasks(t: Target)
    ensures
        !t.available ==> target_tasks(t) =~= Seq::<(Seq<char>, Seq<char>)>::empty(),
{
}

/// Where a channel's manifest lives: its file name, its URL, and the local
/// directory it is downloaded to.
pub open spec fn channel_location_of(
    domain: Seq<char>,
    dist_path: Seq<char>,
    channel: Seq<char>,
) -> (Seq<char>, Seq<char>, Seq<char>) {
    if text::has_prefix(channel, "nightly-"@) {
        let date = channel.skip(8);
        let name = "channel-rust-nightly.toml"@;
        (name, domain + "/dist/"@ + date + seq!['/'] + name, dist_path + seq!['/'] + date)
    } else if text::has_prefix(channel, "beta-"@) {
        let date = channel.skip(5);
        let name = "channel-rust-beta.toml"@;
        (name, domain + "/dist/"@ + date + seq!['/'] + name, dist_path + seq!['/'] + date)
    } else {
        let name = "channel-rust-"@ + channel + ".toml"@;
        (name, domain + "/dist/"@ + name, dist_path)
    }
}

/// Resolve a channel selector to its manifest name, manifest URL and local
/// folder: a dated `nightly-` or `beta-` selector goes under its date's
/// directory, anything else is a top-level channel.
pub fn channel_location(domain: &str, dist_path: &str, channel: &str) -> (r: (
    String,
    String,
    String,
))
    ensures
        (r.0@, r.1@, r.2@) == channel_location_of(domain@, dist_path@, channel@),
{
    proof {
        reveal_strlit("nightly-");
        reveal_strlit("beta-");
        reveal_strlit("/");
    }
    let len = channel.unicode_len();
    if text::str_starts_with(channel, "nightly-") {
        let date = text::substring(channel, 8, len);
        let name = String::from_str("channel-rust-nightly.toml");
        let mut url = String::from_str(domain);
        url.append("/dist/");
        url.append(date.as_str());
        url.append("/");
        url.append(name.as_str());
        let mut folder = String::from_str(dist_path);
        folder.append("/");
        folder.append(date.as_str());
        proof {
            assert(url@ =~= domain@ + "/dist/"@ + channel@.skip(8) + seq!['/']
                + "channel-rust-nightly.toml"@);
            assert(folder@ =~= dist_path@ + seq!['/'] + channel@.skip(8));
        }
        (name, url, folder)
    } else if text::str_starts_with(channel, "beta-") {
        let date = text::substring(channel, 5, len);
        let name = String::from_str("channel-rust-beta.toml");
        let mut url = String::from_str(domain);
        url.append("/dist/");
        url.append(date.as_str());
        url.append("/");
        url.append(name.as_str());
        let mut folder = String::from_str(dist_path);
        folder.append("/");
        folder.append(date.as_str());
        proof {
            assert(url@ =~= domain@ + "/dist/"@ + channel@.skip(5) + seq!['/']
                + "channel-rust-beta.toml"@);
            assert(folder@ =~= dist_path@ + seq!['/'] + channel@.skip(5));
        }
        (name, url, folder)
    } else {
        let mut name = String::from_str("channel-rust-");
        name.append(channel);
        name.append(".toml");
        let mut url = String::from_str(domain);
        url.append("/dist/");
        url.append(name.as_str());
        let folder = String::from_str(dist_path);
        proof {
            assert(name@ =~= "channel-rust-"@ + channel@ + ".toml"@);
            assert(url@ =~= domain@ + "/dist/"@ + name@);
        }
        (name, url, folder)
    }
}

/// The local path of a channel artifact: the URL with its scheme, host and
/// `dist` segments dropped, rejoined under the local `dist` root.
pub fn channel_task_path(dist_path: &str, url: &str) -> (r: String)
    ensures
        r@ == dist_path@ + seq!['/'] + paths::after_segments(url@, 4),
{
    proof {
        reveal_strlit("/");
    }
    let suffix = paths::skip_segments(url, 4);
    let mut r = String::from_str(dist_path);
    r.append("/");
    r.append(suffix.as_str());
    assert(r@ =~= dist_path@ + seq!['/'] + paths::after_segments(url@, 4));
    r
}

/// The remote path of an uploaded file: `prefix` plus the local path with
/// its local root stripped.
pub open spec fn s3_remote_path_of(
    prefix: Seq<char>,
    root: Seq<char>,
    path: Seq<char>,
) -> Seq<char> {
    if text::has_prefix(path, root) {
        prefix + path.skip(root.len() as int)
    } else {
        prefix + path
    }
}

/// Derive the remote object path for an upload.
pub fn s3_remote_path(prefix: &str, root: &str, path: &str) -> (r: String)
    ensures
        r@ == s3_remote_path_of(prefix@, root@, path@),
{
    let mut r = String::from_str(prefix);
    if text::str_starts_with(path, root) {
        let len = path.unicode_len();
        let root_len = root.unicode_len();
        let rest = text::substring(path, root_len, len);
        r.append(rest.as_str());
    } else {
        r.append(path);
    }
    r
}

/// The manifest and its sidecar, each with its remote path, to upload after
/// a channel's artifacts are done; nothing unless uploading was requested.
pub fn replace_toml_and_sha(opts: &ChannelOptions, channel_toml: &str) -> (r: Vec<(String, String)>)
    ensures
        !opts.upload ==> r@.len() == 0,
        opts.upload ==> {
            &&& r@.len() == 2
            &&& r@[0].0@ == channel_toml@
            &&& r@[0].1@ == s3_remote_path_of("dist"@, opts.dist_path@, channel_toml@)
            &&& r@[1].0@ == channel_toml@ + ".sha256"@
            &&& r@[1].1@ == s3_remote_path_of(
                "dist"@,
                opts.dist_path@,
                channel_toml@ + ".sha256"@,
            )
        },
{
    let mut r: Vec<(String, String)> = Vec::new();
    if opts.upload {
        let toml_remote = s3_remote_path("dist", opts.dist_path.as_str(), channel_toml);
        r.push((String::from_str(channel_toml), toml_remote));
        let sha = crate::download::sidecar_file_name(channel_toml);
        let sha_remote = s3_remote_path("dist", opts.dist_path.as_str(), sha.as_str());
        r.push((sha, sha_remote));
    }
    r
}

/// The views of a vector of strings.
pub open spec fn views_of(v: Seq<String>) -> Seq<Seq<char>> {
    v.map_values(|s: String| s@)
}

/// The two selectors a history day is synchronized under.
pub open spec fn day_selectors(d: Date) -> Seq<Seq<char>> {
    seq!["beta-"@ + dates::date_seq_of(d), "nightly-"@ + dates::date_seq_of(d)]
}

/// A bound on the days from `d` through `today`, zero once `d` has passed
/// `today`; each day's step shrinks it.
pub open spec fn days_measure(d: Date, today: Date) -> int {
    if dates::date_le_spec(d, today) {
        403 * (today.year - d.year) + 31 * (12 - d.month) + (31 - d.day) + 1
    } else {
        0
    }
}

/// The channel selectors of history mode: `beta-<d>` and `nightly-<d>` for
/// every day `d` from the start date through today.
pub open spec fn history_channels(d: Date, today: Date) -> Seq<Seq<char>>
    decreases days_measure(d, today),
{
    if !d.wf() || !dates::date_le_spec(d, today) {
        Seq::empty()
    } else {
        day_selectors(d) + history_channels(dates::next_day_spec(d), today)
    }
}

/// The history start date a configuration denotes, when it parses as a
/// well-formed `YYYY-MM-DD` date.
pub open spec fn history_start_of(config: RustUpConfig) -> Option<Date> {
    match config.history_version_start_date {
        Some(s) => if dates::is_date_seq(s@) && dates::date_of_seq(s@).wf() {
            Some(dates::date_of_seq(s@))
        } else {
            None
        },
        None => None,
    }
}

/// The ordered list of channel selectors one `channel download` invocation
/// synchronizes. An explicit version wins; else history mode covers every
/// day from the configured start date through today; else the three current
/// channels, followed by the pinned stable versions when initializing.
pub fn sync_rust_toolchain(opts: &ChannelOptions, today: &Date) -> (r: Vec<String>)
    requires
        today.wf(),
    ensures
        opts.version matches Some(v) ==> views_of(r@) == seq![v@],
        opts.version is None && opts.sync_history ==> match history_start_of(opts.config) {
            Some(start) => views_of(r@) == history_channels(start, *today),
            None => r@.len() == 0,
        },
        opts.version is None && !opts.sync_history ==> views_of(r@) == seq![
            "stable"@,
            "beta"@,
            "nightly"@,
        ] + if opts.init {
            views_of(opts.config.sync_stable_versions@)
        } else {
            Seq::<Seq<char>>::empty()
        },
{
    match &opts.version {
        Some(v) => {
            let mut r: Vec<String> = Vec::new();
            r.push(v.clone());
            assert(views_of(r@) =~= seq![v@]);
            r
        },
        None => {
            if opts.sync_history {
                let mut r: Vec<String> = Vec::new();
                let start = match &opts.config.history_version_start_date {
                    Some(s) => match dates::parse_date(s.as_str()) {
                        Some(d) => d,
                        None => {
                            return r;
                        },
                    },
                    None => {
                        return r;
                    },
                };
                let mut d = start;
                assert(views_of(r@) =~= Seq::<Seq<char>>::empty());
                while dates::date_le(&d, today)
                    invariant
                        today.wf(),
                        d.wf() || !dates::date_le_spec(d, *today),
                        history_channels(start, *today) == views_of(r@) + history_channels(
                            d,
                            *today,
                        ),
                    decreases days_measure(d, *today),
                {
                    let ghost r0 = r@;
                    let ghost d0 = d;
                    let ds = dates::date_to_string(&d);
                    let mut beta = String::from_str("beta-");
                    beta.append(ds.as_str());
                    r.push(beta);
                    let mut nightly = String::from_str("nightly-");
                    nightly.append(ds.as_str());
                    r.push(nightly);
                    d = dates::next_day(&d);
                    proof {
                        assert(history_channels(d0, *today) == day_selectors(d0)
                            + history_channels(d, *today));
                        assert(views_of(r@) =~= views_of(r0) + day_selectors(d0));
                        assert(views_of(r@) + history_channels(d, *today) =~= views_of(r0)
                            + history_channels(d0, *today));
                    }
                }
                proof {
                    assert(history_channels(d, *today) =~= Seq::<Seq<char>>::empty());
                    assert(views_of(r@) =~= history_channels(start, *today));
                }
                r
            } else {
                let mut r: Vec<String> = Vec::new();
                r.push(String::from_str("stable"));
                r.push(String::from_str("beta"));
                r.push(String::from_str("nightly"));
                let ghost base = seq!["stable"@, "beta"@, "nightly"@];
                assert(views_of(r@) =~= base);
                if opts.init {
                    let pinned = &opts.config.sync_stable_versions;
                    let mut i: usize = 0;
                    assert(views_of(r@) =~= base + views_of(pinned@.take(0)));
                    while i < pinned.len()
                        invariant
                            i <= pinned@.len(),
                            views_of(r@) == base + views_of(pinned@.take(i as int)),
                        decreases pinned@.len() - i,
                    {
                        let ghost r0 = r@;
                        r.push(pinned[i].clone());
                        i += 1;
                        proof {
                            assert(pinned@.take(i as int).drop_last() =~= pinned@.take(i - 1));
                            assert(pinned@.take(i as int).last() == pinned@[i - 1]);
                            assert(views_of(pinned@.take(i as int)) =~= views_of(
                                pinned@.take(i - 1),
                            ).push(pinned@[i - 1]@));
                            assert(views_of(r@) =~= views_of(r0).push(r@[r0.len() as int]@));
                            assert(r@[r0.len() as int]@ == pinned@[i - 1]@);
                            assert(views_of(r@) =~= base + views_of(pinned@.take(i as int)));
                        }
                    }
                    proof {
                        assert(pinned@.take(pinned@.len() as int) =~= pinned@);
                    }
                }
                r
            }
        },
    }
}

/// Whether a directory of the `dist` root is due for cleaning: its name is a
/// `YYYY-MM-DD` date lying more than `sync_days` days before today.
pub open spec fn clean_dir_spec(dir_name: Seq<char>, today: Date, sync_days: int) -> bool {
    &&& dates::is_date_seq(dir_name)
    &&& dates::date_of_seq(dir_name).wf()
    &&& dates::day_index_spec(today) - dates::day_index_spec(dates::date_of_seq(dir_name))
        > sync_days
}

/// Decide whether a snapshot directory has aged out of its channel's
/// retention window.
pub fn compare_date(dir_name: &str, today: &Date, sync_days: i64) -> (r: bool)
    requires
        today.wf(),
        0 <= sync_days <= 36_600_000,
    ensures
        r == clean_dir_spec(dir_name@, *today, sync_days as int),
{
    match dates::parse_date(dir_name) {
        Some(d) => dates::date_older_than(&d, today, sync_days),
        None => false,
    }
}

/// The entries a retention pass deletes from one directory listing: each
/// entry pairs a file's name with its path, and those whose name holds the
/// channel tag are kept for deletion, in order.
pub open spec fn kept_for_deletion(files: Seq<(String, String)>, channel: Seq<char>) -> Seq<
    (String, String),
>
    decreases files.len(),
{
    if files.len() == 0 {
        Seq::empty()
    } else if text::contains_sub(files.last().0@, channel) {
        kept_for_deletion(files.drop_last(), channel).push(files.last())
    } else {
        kept_for_deletion(files.drop_last(), channel)
    }
}

/// The deletions of a retention pass over one snapshot directory: every file
/// whose name carries the channel tag when the directory has aged out, and
/// none otherwise. Each listing entry pairs a file's name with its path.
pub fn clean_historical_version(
    dir_name: &str,
    files: &Vec<(String, String)>,
    channel: &str,
    today: &Date,
    sync_days: i64,
) -> (r: Vec<(String, String)>)
    requires
        today.wf(),
        0 <= sync_days <= 36_600_000,
    ensures
        !clean_dir_spec(dir_name@, *today, sync_days as int) ==> r@.len() == 0,
        clean_dir_spec(dir_name@, *today, sync_days as int) ==> r@ == kept_for_deletion(
            files@,
            channel@,
        ),
{
    let mut r: Vec<(String, String)> = Vec::new();
    if !compare_date(dir_name, today, sync_days) {
        return r;
    }
    let mut i: usize = 0;
    assert(r@ =~= kept_for_deletion(files@.take(0), channel@));
    while i < files.len()
        invariant
            i <= files@.len(),
            r@ == kept_for_deletion(files@.take(i as int), channel@),
        decreases files@.len() - i,
    {
        if text::str_contains(files[i].0.as_str(), channel) {
            let entry = (files[i].0.clone(), files[i].1.clone());
            assert(entry == files@[i as int]);
            r.push(entry);
        }
        i += 1;
        proof {
            assert(files@.take(i as int).drop_last() =~= files@.take(i - 1));
            assert(files@.take(i as int).last() == files@[i - 1]);
        }
    }
    proof {
        assert(files@.take(files@.len() as int) =~= files@);
    }
    r
}

/// A retention pass deletes exactly the files whose names carry the channel
/// tag: every member of the deletion list is tagged and comes from the
/// listing, and every tagged entry of the listing is in the deletion list.
pub proof fn lemma_retention_exact(files: Seq<(String, String)>, channel: Seq<char>)
    ensures
        forall|i: int| 0 <= i < kept_for_deletion(files, channel).len() ==> text::contains_sub(
            (#[trigger] kept_for_deletion(files, channel)[i]).0@,
            channel,
        ) && files.contains(kept_for_deletion(files, channel)[i]),
        forall|j: int| 0 <= j < files.len() && text::contains_sub(
            (#[trigger] files[j]).0@,
            channel,
        ) ==> kept_for_deletion(files, channel).contains(files[j]),
    decreases files.len(),
{
    if files.len() > 0 {
        lemma_retention_exact(files.drop_last(), channel);
        let t = files.drop_last();
        let k = kept_for_deletion(files, channel);
        let kt = kept_for_deletion(t, channel);
        assert forall|i: int| 0 <= i < k.len() implies text::contains_sub(
            (#[trigger] k[i]).0@,
            channel,
        ) && files.contains(k[i]) by {
            if i < kt.len() {
                assert(k[i] == kt[i]);
                let j = choose|j: int| 0 <= j < t.len() && t[j] == kt[i];
                assert(files[j] == kt[i]);
            } else {
                assert(k[i] == files.last());
                assert(files[files.len() - 1] == files.last());
            }
        }
        assert forall|j: int|
            0 <= j < files.len() && text::contains_sub((#[trigger] files[j]).0@, channel) implies k
            .contains(files[j]) by {
            if j < files.len() - 1 {
                assert(t[j] == files[j]);
                let i = choose|i: int| 0 <= i < kt.len() && kt[i] == t[j];
                assert(k[i] == files[j]);
            } else {
                assert(k[k.len() - 1] == files.last());
            }
        }
    }
}

} // verus!
