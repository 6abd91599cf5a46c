use freighter::channel::{
    channel_location, channel_task_path, clean_historical_version, compare_date,
    parse_channel_file, replace_toml_and_sha, s3_remote_path, sync_rust_toolchain, Channel,
    ChannelOptions, Pkg, Target,
};
use freighter::config::{ProxyConfig, RustUpConfig};
use freighter::dates::Date;

fn target(available: bool, url: Option<&str>, hash: Option<&str>, xz_url: Option<&str>, xz_hash: Option<&str>) -> Target {
    Target {
        available,
        url: url.map(|s| s.to_string()),
        hash: hash.map(|s| s.to_string()),
        xz_url: xz_url.map(|s| s.to_string()),
        xz_hash: xz_hash.map(|s| s.to_string()),
    }
}

fn channel_of(targets: Vec<(String, Target)>) -> Channel {
    Channel {
        manifest_version: "2".to_string(),
        date: "2024-03-01".to_string(),
        pkg: vec![("rust".to_string(), Pkg { version: "1.76.0".to_string(), target: targets })],
    }
}

fn opts() -> ChannelOptions {
    ChannelOptions {
        config: RustUpConfig::default(),
        proxy: ProxyConfig::default(),
        clean: false,
        version: None,
        dist_path: "/data/freighter/dist".to_string(),
        bucket: None,
        upload: false,
        delete_after_upload: false,
        sync_history: false,
        init: false,
    }
}

#[test]
fn unavailable_target_yields_no_tasks() {
    let c = channel_of(vec![(
        "x86_64-unknown-linux-gnu".to_string(),
        target(false, Some("https://u/a.tar.gz"), Some("h1"), Some("https://u/a.tar.xz"), Some("h2")),
    )]);
    assert!(parse_channel_file(&c).is_empty());
}

#[test]
fn available_target_yields_xz_then_plain() {
    let c = channel_of(vec![(
        "x86_64-unknown-linux-gnu".to_string(),
        target(true, Some("https://u/a.tar.gz"), Some("h1"), Some("https://u/a.tar.xz"), Some("h2")),
    )]);
    let tasks = parse_channel_file(&c);
    assert_eq!(
        tasks,
        vec![
            ("https://u/a.tar.xz".to_string(), "h2".to_string()),
            ("https://u/a.tar.gz".to_string(), "h1".to_string()),
        ]
    );
}

#[test]
fn empty_pair_parts_are_discarded() {
    let c = channel_of(vec![
        ("a".to_string(), target(true, Some(""), Some("h1"), None, None)),
        ("b".to_string(), target(true, Some("https://u/b.tar.gz"), Some(""), None, None)),
        ("c".to_string(), target(true, Some("https://u/c.tar.gz"), None, None, None)),
        ("d".to_string(), target(true, None, None, Some("https://u/d.tar.xz"), Some("h4"))),
    ]);
    let tasks = parse_channel_file(&c);
    assert_eq!(tasks, vec![("https://u/d.tar.xz".to_string(), "h4".to_string())]);
}

#[test]
fn channel_names_resolve() {
    let (name, url, folder) =
        channel_location("https://static.rust-lang.org", "/data/dist", "nightly-2022-07-31");
    assert_eq!(name, "channel-rust-nightly.toml");
    assert_eq!(url, "https://static.rust-lang.org/dist/2022-07-31/channel-rust-nightly.toml");
    assert_eq!(folder, "/data/dist/2022-07-31");

    let (name, url, folder) =
        channel_location("https://static.rust-lang.org", "/data/dist", "beta-2022-07-31");
    assert_eq!(name, "channel-rust-beta.toml");
    assert_eq!(url, "https://static.rust-lang.org/dist/2022-07-31/channel-rust-beta.toml");
    // a dated beta goes under its date's directory
    assert_eq!(folder, "/data/dist/2022-07-31");

    let (name, url, folder) = channel_location("https://static.rust-lang.org", "/data/dist", "stable");
    assert_eq!(name, "channel-rust-stable.toml");
    assert_eq!(url, "https://static.rust-lang.org/dist/channel-rust-stable.toml");
    assert_eq!(folder, "/data/dist");
}

#[test]
fn channel_artifact_path_drops_host_prefix() {
    assert_eq!(
        channel_task_path(
            "/data/dist",
            "https://static.rust-lang.org/dist/2022-11-03/rust-1.65.0-i686-pc-windows-gnu.msi"
        ),
        "/data/dist/2022-11-03/rust-1.65.0-i686-pc-windows-gnu.msi"
    );
}

#[test]
fn upload_remote_paths() {
    assert_eq!(
        s3_remote_path("dist", "/data/dist", "/data/dist/2024-01-01/a.tar.xz"),
        "dist/2024-01-01/a.tar.xz"
    );
    assert_eq!(
        s3_remote_path("crates", "/data/crates", "/data/crates/a/a-1.0.0.crate"),
        "crates/a/a-1.0.0.crate"
    );
    let mut o = opts();
    assert!(replace_toml_and_sha(&o, "/data/freighter/dist/channel-rust-stable.toml").is_empty());
    o.upload = true;
    let uploads = replace_toml_and_sha(&o, "/data/freighter/dist/channel-rust-stable.toml");
    assert_eq!(
        uploads,
        vec![
            (
                "/data/freighter/dist/channel-rust-stable.toml".to_string(),
                "dist/channel-rust-stable.toml".to_string()
            ),
            (
                "/data/freighter/dist/channel-rust-stable.toml.sha256".to_string(),
                "dist/channel-rust-stable.toml.sha256".to_string()
            ),
        ]
    );
}

#[test]
fn sync_plan_explicit_version_wins() {
    let mut o = opts();
    o.version = Some("nightly-2022-07-31".to_string());
    o.sync_history = true;
    o.init = true;
    let today = Date { year: 2024, month: 3, day: 1 };
    assert_eq!(sync_rust_toolchain(&o, &today), vec!["nightly-2022-07-31".to_string()]);
}

#[test]
fn sync_plan_default_trio_and_pinned() {
    let mut o = opts();
    let today = Date { year: 2024, month: 3, day: 1 };
    assert_eq!(
        sync_rust_toolchain(&o, &today),
        vec!["stable".to_string(), "beta".to_string(), "nightly".to_string()]
    );
    o.init = true;
    o.config.sync_stable_versions = vec!["1.70".to_string(), "1.71".to_string()];
    assert_eq!(
        sync_rust_toolchain(&o, &today),
        vec![
            "stable".to_string(),
            "beta".to_string(),
            "nightly".to_string(),
            "1.70".to_string(),
            "1.71".to_string()
        ]
    );
}

#[test]
fn sync_plan_history_covers_each_day_inclusive() {
    let mut o = opts();
    o.sync_history = true;
    o.config.history_version_start_date = Some("2024-02-27".to_string());
    let today = Date { year: 2024, month: 3, day: 1 };
    assert_eq!(
        sync_rust_toolchain(&o, &today),
        vec![
            "beta-2024-02-27".to_string(),
            "nightly-2024-02-27".to_string(),
            "beta-2024-02-28".to_string(),
            "nightly-2024-02-28".to_string(),
            "beta-2024-02-29".to_string(),
            "nightly-2024-02-29".to_string(),
            "beta-2024-03-01".to_string(),
            "nightly-2024-03-01".to_string(),
        ]
    );
    // a start date after today syncs nothing
    o.config.history_version_start_date = Some("2024-03-02".to_string());
    assert!(sync_rust_toolchain(&o, &today).is_empty());
    // an unparsable start date syncs nothing
    o.config.history_version_start_date = Some("not-a-date".to_string());
    assert!(sync_rust_toolchain(&o, &today).is_empty());
}

#[test]
fn retention_cleans_only_aged_directories() {
    let today = Date { year: 2024, month: 3, day: 1 };
    // 2024-01-01 lies 60 days back, 2024-02-01 only 29 (2024 is a leap year)
    assert!(compare_date("2024-01-01", &today, 30));
    assert!(!compare_date("2024-02-01", &today, 30));
    assert!(compare_date("2024-02-01", &today, 28));
    assert!(!compare_date("not-a-date", &today, 0));
    assert!(!compare_date("2024-03-01", &today, 0));
}

#[test]
fn channel_retention_scenario() {
    let today = Date { year: 2024, month: 3, day: 1 };
    let entry = |name: &str, dir: &str| (name.to_string(), format!("/data/dist/{}/{}", dir, name));
    let files = vec![
        entry("channel-rust-nightly.toml", "2024-01-01"),
        entry("channel-rust-nightly.toml.sha256", "2024-01-01"),
        entry("rust-nightly-x86_64-unknown-linux-gnu.tar.xz", "2024-01-01"),
        entry("rust-beta-x86_64-unknown-linux-gnu.tar.xz", "2024-01-01"),
    ];
    // with a window both snapshot directories have aged out of, every
    // nightly-tagged file goes and nothing else does
    let deleted = clean_historical_version("2024-01-01", &files, "nightly", &today, 28);
    assert_eq!(
        deleted,
        vec![
            entry("channel-rust-nightly.toml", "2024-01-01"),
            entry("channel-rust-nightly.toml.sha256", "2024-01-01"),
            entry("rust-nightly-x86_64-unknown-linux-gnu.tar.xz", "2024-01-01"),
        ]
    );
    let deleted = clean_historical_version("2024-02-01", &files, "nightly", &today, 28);
    assert_eq!(deleted.len(), 3);
    // a directory still inside the window is untouched
    assert!(clean_historical_version("2024-02-01", &files, "nightly", &today, 30).is_empty());
    // the tag is matched against file names, never against their paths
    let misleading_dir = vec![(
        "rust-docs.tar.xz".to_string(),
        "/data/nightly-mirror/dist/2024-01-01/rust-docs.tar.xz".to_string(),
    )];
    assert!(clean_historical_version("2024-01-01", &misleading_dir, "nightly", &today, 28)
        .is_empty());
}
