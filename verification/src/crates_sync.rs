//! Crate synchronization: the index entry model, derivation of download
//! tasks from index entries, incremental diff handling, and the recovery
//! rule for a torn index clone.
use vstd::prelude::*;

use crate::config::{CratesConfig, ProxyConfig};
use crate::paths;
use crate::text;

verus! {

/// The local clone of the upstream index: its URL and its directory.
#[derive(Clone, Debug)]
pub struct CrateIndex {
    pub url: String,
    pub path: String,
}

impl CrateIndex {
    /// An index clone of `domain` under `work_dir`.
    pub fn new(domain: &str, work_dir: &str) -> (r: CrateIndex)
        ensures
            r.url@ == domain@,
            r.path@ == work_dir@ + "/crates.io-index"@,
    {
        let mut path = String::from_str(work_dir);
        path.append("/crates.io-index");
        CrateIndex { url: String::from_str(domain), path }
    }
}

/// The documented ancestor commit of the public crate index, recorded as the
/// `from` commit of an initial clone.
pub fn first_index_commit() -> (r: &'static str)
    ensures
        r@ == "83ef4b3aa2e01d0cba0d267a68780aec797dd5f1"@,
{
    "83ef4b3aa2e01d0cba0d267a68780aec797dd5f1"
}

/// Which pass a `crates download` run performs.
#[derive(Clone, Copy, Debug, PartialEq, Eq, Structural)]
pub enum DownloadMode {
    Init,
    /// Re-download what the error journal records.
    Fix,
    Increment,
}

impl DownloadMode {
    /// The mode two flags select: `--init` wins, then `--fix`, else the
    /// incremental pass.
    pub fn new(init: bool, fix: bool) -> (r: Self)
        ensures
            init ==> r is Init,
            !init && fix ==> r is Fix,
            !init && !fix ==> r is Increment,
    {
        if init {
            DownloadMode::Init
        } else if fix {
            DownloadMode::Fix
        } else {
            DownloadMode::Increment
        }
    }
}

/// Options of one `crates` invocation.
#[derive(Clone, Debug)]
pub struct CratesOptions {
    pub config: CratesConfig,
    pub proxy: ProxyConfig,
    pub index: CrateIndex,
    /// Whether to hide the progress bar during sync.
    pub no_progressbar: bool,
    pub download_mode: DownloadMode,
    pub upload: bool,
    pub crates_path: String,
    /// Set when a single crate is handled by name.
    pub crates_name: Option<String>,
    pub log_path: String,
    pub bucket_name: String,
    pub delete_after_upload: bool,
}

impl CratesOptions {
    /// The index file of the crate called `name`, under this index clone.
    pub fn get_index_path(&self, name: &str) -> (r: String)
        requires
            name@.len() >= 1,
        ensures
            r@ == self.index.path@ + seq!['/'] + paths::index_suffix_of(name@),
    {
        proof {
            reveal_strlit("/");
        }
        let suffix = paths::index_suffix(name);
        let mut r = String::from_str(self.index.path.as_str());
        r.append("/");
        r.append(suffix.as_str());
        assert(r@ =~= self.index.path@ + seq!['/'] + paths::index_suffix_of(name@));
        r
    }
}

/// Which stage of a dependency graph a dependency belongs to.
#[derive(Clone, Copy, Debug, PartialEq, Eq, Structural)]
pub enum DependencyKind {
    Normal,
    Build,
    Dev,
}

/// One dependency recorded in an index entry.
#[derive(Clone, Debug)]
pub struct Dependency {
    pub name: String,
    pub req: String,
    pub features: Vec<String>,
    pub optional: bool,
    pub default_features: bool,
    pub target: Option<String>,
    pub kind: Option<DependencyKind>,
    pub package: Option<String>,
}

/// One line of a crate's index file: a published version with its checksum.
#[derive(Clone, Debug)]
pub struct IndexFile {
    pub name: String,
    pub vers: String,
    pub deps: Vec<Dependency>,
    pub cksum: Option<String>,
    pub features: Vec<(String, Vec<String>)>,
    pub features2: Option<Vec<(String, Vec<String>)>>,
    pub yanked: Option<bool>,
    pub links: Option<String>,
    pub v: Option<u32>,
}

/// One download task: the archive URL, its local path, and the expected
/// checksum when the entry carries one.
pub struct CrateTask {
    pub url: String,
    pub path: String,
    pub cksum: Option<String>,
}

/// The download task of one index entry.
pub fn index_file_task(entry: &IndexFile, domain: &str, crates_path: &str) -> (r: CrateTask)
    ensures
        r.url@ == paths::crate_url_of(domain@, entry.name@, entry.vers@),
        r.path@ == paths::crate_path_of(crates_path@, entry.name@, entry.vers@),
        match (r.cksum, entry.cksum) {
            (Some(c), Some(e)) => c@ == e@,
            (None, None) => true,
            _ => false,
        },
{
    let url = paths::crate_url(domain, entry.name.as_str(), entry.vers.as_str());
    let path = paths::crate_local_path(crates_path, entry.name.as_str(), entry.vers.as_str());
    let cksum = match &entry.cksum {
        Some(c) => Some(c.clone()),
        None => None,
    };
    CrateTask { url, path, cksum }
}

/// The download tasks of a whole index file, one per entry, in file order.
pub fn index_tasks(entries: &Vec<IndexFile>, domain: &str, crates_path: &str) -> (r: Vec<CrateTask>)
    ensures
        r@.len() == entries@.len(),
        forall|i: int| 0 <= i < entries@.len() ==> {
            &&& (#[trigger] r@[i]).url@ == paths::crate_url_of(
                domain@,
                entries@[i].name@,
                entries@[i].vers@,
            )
            &&& r@[i].path@ == paths::crate_path_of(
                crates_path@,
                entries@[i].name@,
                entries@[i].vers@,
            )
            &&& match (r@[i].cksum, entries@[i].cksum) {
                (Some(c), Some(e)) => c@ == e@,
                (None, None) => true,
                _ => false,
            }
        },
{
    let mut r: Vec<CrateTask> = Vec::new();
    let mut i: usize = 0;
    while i < entries.len()
        invariant
            i <= entries@.len(),
            r@.len() == i,
            forall|k: int| 0 <= k < i ==> {
                &&& (#[trigger] r@[k]).url@ == paths::crate_url_of(
                    domain@,
                    entries@[k].name@,
                    entries@[k].vers@,
                )
                &&& r@[k].path@ == paths::crate_path_of(
                    crates_path@,
                    entries@[k].name@,
                    entries@[k].vers@,
                )
                &&& match (r@[k].cksum, entries@[k].cksum) {
                    (Some(c), Some(e)) => c@ == e@,
                    (None, None) => true,
                    _ => false,
                }
            },
        decreases entries@.len() - i,
    {
        let task = index_file_task(&entries[i], domain, crates_path);
        r.push(task);
        i += 1;
    }
    r
}

/// What one line of a name-only index diff contributes: nothing for the
/// registry's own `config.json`, else the changed crate's index file path.
pub fn diff_line_index_path(index_path: &str, line: &str) -> (r: Option<String>)
    ensures
        match r {
            None => stripped_line(line@) == "config.json"@,
            Some(p) => stripped_line(line@) != "config.json"@ && p@ == index_path@ + seq!['/']
                + stripped_line(line@),
        },
{
    proof {
        reveal_strlit("/");
        reveal_strlit("\n");
    }
    let len = line.unicode_len();
    let stripped = if len > 0 && line.get_char(len - 1) == '\n' {
        text::substring(line, 0, len - 1)
    } else {
        String::from_str(line)
    };
    proof {
        assert(stripped@ == stripped_line(line@));
    }
    if text::str_eq(stripped.as_str(), "config.json") {
        None
    } else {
        let mut p = String::from_str(index_path);
        p.append("/");
        p.append(stripped.as_str());
        assert(p@ =~= index_path@ + seq!['/'] + stripped_line(line@));
        Some(p)
    }
}

/// A diff line without its trailing newline.
pub open spec fn stripped_line(line: Seq<char>) -> Seq<char> {
    if line.len() > 0 && line.last() == '\n' {
        line.drop_last()
    } else {
        line
    }
}

/// The index files an incremental pass reads, in diff order: one path per
/// changed line, with the registry's own `config.json` excluded.
pub open spec fn increment_paths_of(index_path: Seq<char>, lines: Seq<String>) -> Seq<Seq<char>>
    decreases lines.len(),
{
    if lines.len() == 0 {
        Seq::empty()
    } else if stripped_line(lines.last()@) == "config.json"@ {
        increment_paths_of(index_path, lines.drop_last())
    } else {
        increment_paths_of(index_path, lines.drop_last()).push(
            index_path + seq!['/'] + stripped_line(lines.last()@),
        )
    }
}

/// The index files of an incremental pass: exactly the diff's changed
/// paths, resolved under the index root, `config.json` excluded.
pub fn increment_paths(index_path: &str, lines: &Vec<String>) -> (r: Vec<String>)
    ensures
        r@.map_values(|s: String| s@) == increment_paths_of(index_path@, lines@),
{
    let mut r: Vec<String> = Vec::new();
    let mut i: usize = 0;
    assert(r@.map_values(|s: String| s@) =~= increment_paths_of(index_path@, lines@.take(0)));
    while i < lines.len()
        invariant
            i <= lines@.len(),
            r@.map_values(|s: String| s@) == increment_paths_of(index_path@, lines@.take(i as int)),
        decreases lines@.len() - i,
    {
        let ghost r0 = r@;
        match diff_line_index_path(index_path, lines[i].as_str()) {
            Some(p) => {
                r.push(p);
            },
            None => {},
        }
        i += 1;
        proof {
            assert(lines@.take(i as int).drop_last() =~= lines@.take(i - 1));
            assert(lines@.take(i as int).last() == lines@[i - 1]);
            if r@.len() > r0.len() {
                assert(r@.map_values(|s: String| s@) =~= r0.map_values(|s: String| s@).push(
                    r@[r0.len() as int]@,
                ));
            }
            assert(r@.map_values(|s: String| s@) =~= increment_paths_of(
                index_path@,
                lines@.take(i as int),
            ));
        }
    }
    proof {
        assert(lines@.take(lines@.len() as int) =~= lines@);
    }
    r
}

/// Whether a directory walk keeps an entry: the walk's root always, and
/// below it everything whose name does not begin with a dot.
pub fn is_not_hidden(file_name: &str, depth: usize) -> (r: bool)
    ensures
        r == (depth == 0 || !text::has_prefix(file_name@, "."@)),
{
    depth == 0 || !text::str_starts_with(file_name, ".")
}

/// How a `pull` begins, given the state of the index directory.
#[derive(Clone, Copy, Debug, PartialEq, Eq, Structural)]
pub enum PullPlan {
    /// No directory: clone fresh.
    CloneNew,
    /// A torn clone (nothing but version-control bookkeeping inside):
    /// delete it and clone again.
    RemoveAndClone,
    /// A usable clone: fetch and merge.
    Pull,
}

/// Decide how to bring the index clone up to date: a missing directory is
/// cloned, a directory holding no entry besides version-control bookkeeping
/// is a torn clone and is removed and re-cloned, anything else is pulled.
pub fn pull_plan(dir_exists: bool, has_non_git_entry: bool) -> (r: PullPlan)
    ensures
        !dir_exists ==> r is CloneNew,
        dir_exists && !has_non_git_entry ==> r is RemoveAndClone,
        dir_exists && has_non_git_entry ==> r is Pull,
{
    if !dir_exists {
        PullPlan::CloneNew
    } else if !has_non_git_entry {
        PullPlan::RemoveAndClone
    } else {
        PullPlan::Pull
    }
}

} // verus!
