//! Merged configuration: the work-directory layout, per-subsystem domains and
//! thread counts, and the rule that places every artifact subtree under a
//! `freighter` root.
use vstd::prelude::*;

use crate::text;

verus! {

/// Options of the crates subsystem: index and archive locations, upstream
/// domains, and the ordered fallback origins used by the server.
#[derive(Clone, Debug)]
pub struct CratesConfig {
    pub index_path: Option<String>,
    pub crates_path: Option<String>,
    pub index_domain: String,
    pub domain: String,
    pub download_threads: usize,
    pub serve_domains: Option<Vec<String>>,
    pub serve_index: Option<String>,
}

/// Options of the toolchain subsystem: mirror locations, retention windows,
/// pinned stable versions, and the history lower bound.
#[derive(Clone, Debug)]
pub struct RustUpConfig {
    pub rustup_path: Option<String>,
    pub dist_path: Option<String>,
    pub domain: String,
    pub download_threads: usize,
    pub sync_stable_versions: Vec<String>,
    pub sync_nightly_days: i64,
    pub sync_beta_days: i64,
    pub serve_domains: Option<Vec<String>>,
    pub history_version_start_date: Option<String>,
}

/// Logging options; opaque to the core.
#[derive(Clone, Debug)]
pub struct LogConfig {
    pub log_path: Option<String>,
    pub encoder: String,
    pub level: String,
    pub limit: u64,
}

/// Optional HTTP(S) proxy for downloads and index fetches.
#[derive(Clone, Debug)]
pub struct ProxyConfig {
    pub enable: bool,
    pub git_index_proxy: String,
    pub download_proxy: String,
}

/// The merged configuration: the resolved artifact roots plus each
/// subsystem's section.
#[derive(Clone, Debug)]
pub struct Config {
    pub work_dir: Option<String>,
    pub index_path: String,
    pub crates_path: String,
    pub log_path: String,
    pub rustup_path: String,
    pub dist_path: String,
    pub crates: CratesConfig,
    pub rustup: RustUpConfig,
    pub log: LogConfig,
    pub proxy: ProxyConfig,
}

impl Default for CratesConfig {
    fn default() -> (r: Self)
        ensures
            r.index_path is None,
            r.crates_path is None,
            r.index_domain@ == Seq::<char>::empty(),
            r.domain@ == Seq::<char>::empty(),
            r.download_threads == 0,
            r.serve_domains is None,
            r.serve_index is None,
    {
        CratesConfig {
            index_path: None,
            crates_path: None,
            index_domain: String::new(),
            domain: String::new(),
            download_threads: 0,
            serve_domains: None,
            serve_index: None,
        }
    }
}

impl Default for RustUpConfig {
    fn default() -> (r: Self)
        ensures
            r.rustup_path is None,
            r.dist_path is None,
            r.domain@ == Seq::<char>::empty(),
            r.download_threads == 0,
            r.sync_stable_versions@ == Seq::<String>::empty(),
            r.sync_nightly_days == 0,
            r.sync_beta_days == 0,
            r.serve_domains is None,
            r.history_version_start_date is None,
    {
        RustUpConfig {
            rustup_path: None,
            dist_path: None,
            domain: String::new(),
            download_threads: 0,
            sync_stable_versions: Vec::new(),
            sync_nightly_days: 0,
            sync_beta_days: 0,
            serve_domains: None,
            history_version_start_date: None,
        }
    }
}

impl Default for LogConfig {
    fn default() -> (r: Self)
        ensures
            r.log_path is None,
            r.encoder@ == Seq::<char>::empty(),
            r.level@ == Seq::<char>::empty(),
            r.limit == 0,
    {
        LogConfig { log_path: None, encoder: String::new(), level: String::new(), limit: 0 }
    }
}

impl Default for ProxyConfig {
    fn default() -> (r: Self)
        ensures
            !r.enable,
            r.git_index_proxy@ == Seq::<char>::empty(),
            r.download_proxy@ == Seq::<char>::empty(),
    {
        ProxyConfig {
            enable: false,
            git_index_proxy: String::new(),
            download_proxy: String::new(),
        }
    }
}

/// `a` and `b` joined by a single path separator.
pub open spec fn path_joined(a: Seq<char>, b: Seq<char>) -> Seq<char> {
    a + seq!['/'] + b
}

/// Where a subtree named `name` is placed under a base directory: inside a
/// `freighter` directory, which is appended unless the base already names
/// one, and `name` is appended unless the base already names it.
pub open spec fn format_path_rule(base: Seq<char>, name: Seq<char>) -> Seq<char> {
    if !text::contains_sub(base, "freighter"@) {
        path_joined(path_joined(base, "freighter"@), name)
    } else if !text::contains_sub(base, name) {
        path_joined(base, name)
    } else {
        base
    }
}

/// Relies on dirs::home_dir for the user's home directory, rendered as a
/// string; the result depends on the environment.
#[verifier::external_body]
fn home_dir_string() -> (r: Option<String>) {
    dirs::home_dir().and_then(|p| p.to_str().map(|s| s.to_owned()))
}

/// Join two path components with `/`.
pub fn join_path(a: &str, b: &str) -> (r: String)
    ensures
        r@ == path_joined(a@, b@),
{
    proof {
        reveal_strlit("/");
    }
    let mut r = String::from_str(a);
    r.append("/");
    r.append(b);
    assert(r@ =~= path_joined(a@, b@));
    r
}

fn format_path_from(base: &str, name: &str) -> (r: String)
    ensures
        r@ == format_path_rule(base@, name@),
{
    if !text::str_contains(base, "freighter") {
        let first = join_path(base, "freighter");
        join_path(first.as_str(), name)
    } else if !text::str_contains(base, name) {
        join_path(base, name)
    } else {
        String::from_str(base)
    }
}

/// Resolve the directory for the subtree `name`: from `config_path` when the
/// configuration names one, else under `freighter` in the user's home.
pub fn format_path(config_path: &Option<String>, name: &str) -> (r: String)
    ensures
        config_path matches Some(p) ==> r@ == format_path_rule(p@, name@),
        config_path is None ==> exists|h: Seq<char>|
            r@ == format_path_rule(path_joined(h, "freighter"@), name@),
{
    match config_path {
        Some(p) => format_path_from(p.as_str(), name),
        None => {
            let home = match home_dir_string() {
                Some(h) => h,
                None => String::new(),
            };
            let base = join_path(home.as_str(), "freighter");
            let r = format_path_from(base.as_str(), name);
            proof {
                assert(r@ == format_path_rule(path_joined(home@, "freighter"@), name@));
            }
            r
        },
    }
}

impl Config {
    /// A configuration with every path and section empty.
    pub fn new() -> (r: Config)
        ensures
            r.work_dir is None,
            r.index_path@ == Seq::<char>::empty(),
            r.crates_path@ == Seq::<char>::empty(),
            r.log_path@ == Seq::<char>::empty(),
            r.rustup_path@ == Seq::<char>::empty(),
            r.dist_path@ == Seq::<char>::empty(),
    {
        Config {
            work_dir: None,
            index_path: String::new(),
            crates_path: String::new(),
            log_path: String::new(),
            rustup_path: String::new(),
            dist_path: String::new(),
            crates: CratesConfig::default(),
            rustup: RustUpConfig::default(),
            log: LogConfig::default(),
            proxy: ProxyConfig::default(),
        }
    }

    /// Resolve the five artifact roots from this configuration's sections,
    /// remembering `work_dir`. Each root follows `format_path_rule`; when a
    /// section names no path the base is `freighter` under the user's home.
    pub fn load(&self, work_dir: Option<String>) -> (r: Config)
        ensures
            r.work_dir == work_dir,
            self.crates.index_path matches Some(p) ==> r.index_path@ == format_path_rule(
                p@,
                "crates.io-index"@,
            ),
            self.crates.index_path is None ==> exists|h: Seq<char>|
                r.index_path@ == format_path_rule(
                    path_joined(h, "freighter"@),
                    "crates.io-index"@,
                ),
            self.crates.crates_path matches Some(p) ==> r.crates_path@ == format_path_rule(
                p@,
                "crates"@,
            ),
            self.crates.crates_path is None ==> exists|h: Seq<char>|
                r.crates_path@ == format_path_rule(path_joined(h, "freighter"@), "crates"@),
            self.log.log_path matches Some(p) ==> r.log_path@ == format_path_rule(p@, "log"@),
            self.log.log_path is None ==> exists|h: Seq<char>|
                r.log_path@ == format_path_rule(path_joined(h, "freighter"@), "log"@),
            self.rustup.rustup_path matches Some(p) ==> r.rustup_path@ == format_path_rule(
                p@,
                "rustup"@,
            ),
            self.rustup.rustup_path is None ==> exists|h: Seq<char>|
                r.rustup_path@ == format_path_rule(path_joined(h, "freighter"@), "rustup"@),
            self.rustup.dist_path matches Some(p) ==> r.dist_path@ == format_path_rule(
                p@,
                "dist"@,
            ),
            self.rustup.dist_path is None ==> exists|h: Seq<char>|
                r.dist_path@ == format_path_rule(path_joined(h, "freighter"@), "dist"@),
    {
        let index_path = format_path(&self.crates.index_path, "crates.io-index");
        let crates_path = format_path(&self.crates.crates_path, "crates");
        let log_path = format_path(&self.log.log_path, "log");
        let rustup_path = format_path(&self.rustup.rustup_path, "rustup");
        let dist_path = format_path(&self.rustup.dist_path, "dist");
        Config {
            work_dir,
            index_path,
            crates_path,
            log_path,
            rustup_path,
            dist_path,
            crates: self.crates.clone(),
            rustup: self.rustup.clone(),
            log: self.log.clone(),
            proxy: self.proxy.clone(),
        }
    }
}

} // verus!
