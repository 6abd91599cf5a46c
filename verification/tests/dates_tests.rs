use freighter::crates_sync::{
    diff_line_index_path, first_index_commit, index_file_task, pull_plan, CrateIndex,
    CratesOptions, DownloadMode, IndexFile, PullPlan,
};
use freighter::config::{CratesConfig, ProxyConfig};
use freighter::dates::{date_older_than, date_to_string, parse_date, today_utc, Date};
use freighter::rustup::{platforms, release_stable_task, sync_rustup_init, RustUpOptions};
use freighter::config::RustUpConfig;

#[test]
fn dates_parse_and_render() {
    let d = parse_date("2024-02-29").unwrap();
    assert_eq!((d.year, d.month, d.day), (2024, 2, 29));
    assert_eq!(date_to_string(&d), "2024-02-29");
    assert!(parse_date("2023-02-29").is_none());
    assert!(parse_date("2024-13-01").is_none());
    assert!(parse_date("2024-00-01").is_none());
    assert!(parse_date("2024-1-1").is_none());
    assert!(parse_date("plainly-not").is_none());
    let d = parse_date("0999-12-31").unwrap();
    assert_eq!(date_to_string(&d), "0999-12-31");
}

#[test]
fn day_differences() {
    let today = Date { year: 2024, month: 3, day: 1 };
    let jan = Date { year: 2024, month: 1, day: 1 };
    let feb = Date { year: 2024, month: 2, day: 1 };
    assert!(date_older_than(&jan, &today, 59));
    assert!(!date_older_than(&jan, &today, 60));
    assert!(date_older_than(&feb, &today, 28));
    assert!(!date_older_than(&feb, &today, 29));
    // across a year boundary
    let dec = Date { year: 2023, month: 12, day: 31 };
    assert!(date_older_than(&dec, &today, 60));
    assert!(!date_older_than(&dec, &today, 61));
}

#[test]
fn clock_reports_a_calendar_date() {
    let today = today_utc().unwrap();
    assert!((1..=12).contains(&today.month));
    assert!((1..=31).contains(&today.day));
    assert!(today.year >= 2020);
    assert!(freighter::dates::now_unix() > 1_600_000_000);
    assert_eq!(freighter::dates::clamp_unix(-5), 0);
    assert_eq!(freighter::dates::clamp_unix(1_700_000_000), 1_700_000_000);
}

#[test]
fn dates_from_parts() {
    let d = freighter::dates::date_from_ymd(2024, 2, 29).unwrap();
    assert_eq!((d.year, d.month, d.day), (2024, 2, 29));
    assert!(freighter::dates::date_from_ymd(2023, 2, 29).is_none());
    assert!(freighter::dates::date_from_ymd(2024, 13, 1).is_none());
    assert!(freighter::dates::date_from_ymd(0, 1, 1).is_none());
    assert!(freighter::dates::date_from_ymd(10000, 1, 1).is_none());
}

#[test]
fn initial_crate_sync_scenario() {
    // an index file with two published versions yields exactly their two
    // download tasks, and a pass without failures leaves the journal empty
    let entries: Vec<IndexFile> = ["0.1.0", "0.2.0"]
        .iter()
        .map(|vers| IndexFile {
            name: "footool".to_string(),
            vers: vers.to_string(),
            deps: vec![],
            cksum: Some(freighter::hashing::sha256_hex(vers.as_bytes())),
            features: vec![],
            features2: None,
            yanked: None,
            links: None,
            v: None,
        })
        .collect();
    let tasks = freighter::crates_sync::index_tasks(&entries, "https://upstream/crates", "crates");
    assert_eq!(tasks.len(), 2);
    assert_eq!(tasks[0].url, "https://upstream/crates/footool/footool-0.1.0.crate");
    assert_eq!(tasks[0].path, "crates/footool/footool-0.1.0.crate");
    assert_eq!(tasks[1].path, "crates/footool/footool-0.2.0.crate");
    // the served bytes match their index checksum, so every task accepts
    for (task, vers) in tasks.iter().zip(["0.1.0", "0.2.0"]) {
        let body = vers.as_bytes().to_vec();
        assert!(freighter::download::accept_download(&body, task.cksum.as_ref()));
    }
    let no_failures: Vec<freighter::journal::ErrorCrate> = Vec::new();
    assert!(freighter::journal::journal_after_repair(&no_failures).is_empty());
}

#[test]
fn incremental_diff_scenario() {
    // after an upstream adds one version, the diff names one index file and
    // only that file's entries become tasks
    let lines = ["fo/ot/footool\n", "config.json\n"];
    let changed: Vec<String> = lines
        .iter()
        .filter_map(|l| diff_line_index_path("/idx", l))
        .collect();
    assert_eq!(changed, vec!["/idx/fo/ot/footool".to_string()]);
    let added = IndexFile {
        name: "footool".to_string(),
        vers: "0.3.0".to_string(),
        deps: vec![],
        cksum: Some("cd".repeat(32)),
        features: vec![],
        features2: None,
        yanked: None,
        links: None,
        v: None,
    };
    let tasks = freighter::crates_sync::index_tasks(&vec![added], "https://upstream/crates", "crates");
    assert_eq!(tasks.len(), 1);
    assert_eq!(tasks[0].url, "https://upstream/crates/footool/footool-0.3.0.crate");
    assert_eq!(tasks[0].path, "crates/footool/footool-0.3.0.crate");
}

#[test]
fn download_mode_precedence() {
    assert!(matches!(DownloadMode::new(true, true), DownloadMode::Init));
    assert!(matches!(DownloadMode::new(true, false), DownloadMode::Init));
    assert!(matches!(DownloadMode::new(false, true), DownloadMode::Fix));
    assert!(matches!(DownloadMode::new(false, false), DownloadMode::Increment));
}

#[test]
fn index_tasks_carry_url_path_and_checksum() {
    let entry = IndexFile {
        name: "footool".to_string(),
        vers: "0.1.0".to_string(),
        deps: vec![],
        cksum: Some("ab".repeat(32)),
        features: vec![],
        features2: None,
        yanked: Some(false),
        links: None,
        v: None,
    };
    let task = index_file_task(&entry, "https://static.crates.io/crates", "/data/crates");
    assert_eq!(task.url, "https://static.crates.io/crates/footool/footool-0.1.0.crate");
    assert_eq!(task.path, "/data/crates/footool/footool-0.1.0.crate");
    assert_eq!(task.cksum, Some("ab".repeat(32)));
}

#[test]
fn diff_lines_skip_registry_config() {
    assert!(diff_line_index_path("/idx", "config.json\n").is_none());
    assert!(diff_line_index_path("/idx", "config.json").is_none());
    assert_eq!(diff_line_index_path("/idx", "fo/ot/footool\n"), Some("/idx/fo/ot/footool".to_string()));
    assert_eq!(diff_line_index_path("/idx", "3/b/bar"), Some("/idx/3/b/bar".to_string()));
    let lines = vec![
        "fo/ot/footool\n".to_string(),
        "config.json\n".to_string(),
        "3/b/bar\n".to_string(),
    ];
    assert_eq!(
        freighter::crates_sync::increment_paths("/idx", &lines),
        vec!["/idx/fo/ot/footool".to_string(), "/idx/3/b/bar".to_string()]
    );
}

#[test]
fn torn_clone_is_recovered() {
    assert!(matches!(pull_plan(false, false), PullPlan::CloneNew));
    assert!(matches!(pull_plan(true, false), PullPlan::RemoveAndClone));
    assert!(matches!(pull_plan(true, true), PullPlan::Pull));
    assert_eq!(first_index_commit(), "83ef4b3aa2e01d0cba0d267a68780aec797dd5f1");
}

#[test]
fn crates_options_index_path() {
    let opts = CratesOptions {
        config: CratesConfig::default(),
        proxy: ProxyConfig::default(),
        index: CrateIndex::new("https://github.com/rust-lang/crates.io-index.git", "/data"),
        no_progressbar: false,
        download_mode: DownloadMode::new(false, false),
        upload: false,
        crates_path: "/data/crates".to_string(),
        crates_name: None,
        log_path: "/data/log".to_string(),
        bucket_name: String::new(),
        delete_after_upload: false,
    };
    assert_eq!(opts.index.path, "/data/crates.io-index");
    assert_eq!(opts.get_index_path("footool"), "/data/crates.io-index/fo/ot/footool");
}

#[test]
fn rustup_tasks_cover_all_platforms() {
    let opts = RustUpOptions {
        config: RustUpConfig {
            domain: "https://static.rust-lang.org".to_string(),
            ..RustUpConfig::default()
        },
        proxy: ProxyConfig::default(),
        rustup_path: "/data/rustup".to_string(),
    };
    let (url, path) = release_stable_task(&opts);
    assert_eq!(url, "https://static.rust-lang.org/rustup/release-stable.toml");
    assert_eq!(path, "/data/rustup/release-stable.toml");

    let plats = platforms();
    assert_eq!(plats.len(), 28);
    assert_eq!(plats[0], "aarch64-linux-android");
    assert_eq!(plats[27], "x86_64-pc-windows-msvc");
    let tasks = sync_rustup_init(&opts, &plats);
    assert_eq!(tasks.len(), 28);
    let linux = tasks.iter().find(|t| t.folder.ends_with("x86_64-unknown-linux-gnu")).unwrap();
    assert_eq!(linux.file_name, "rustup-init");
    assert_eq!(
        linux.url,
        "https://static.rust-lang.org/rustup/dist/x86_64-unknown-linux-gnu/rustup-init"
    );
    let win = tasks.iter().find(|t| t.folder.ends_with("x86_64-pc-windows-msvc")).unwrap();
    assert_eq!(win.file_name, "rustup-init.exe");
    assert_eq!(win.folder, "/data/rustup/dist/x86_64-pc-windows-msvc");
}
