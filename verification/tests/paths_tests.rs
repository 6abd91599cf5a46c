use freighter::cloud::{base_name, s3_url_of, upload_single_dir};
use freighter::paths::{crate_file_name, crate_local_path, crate_url, index_suffix, skip_segments};

#[test]
fn index_suffix_length_rule() {
    assert_eq!(index_suffix("a"), "1/a");
    assert_eq!(index_suffix("ab"), "2/ab");
    assert_eq!(index_suffix("abc"), "3/a/abc");
    assert_eq!(index_suffix("abcd"), "ab/cd/abcd");
    assert_eq!(index_suffix("footool"), "fo/ot/footool");
    assert_eq!(index_suffix("serde_json"), "se/rd/serde_json");
}

#[test]
fn crate_archive_path_rule() {
    assert_eq!(crate_file_name("footool", "0.1.0"), "footool-0.1.0.crate");
    assert_eq!(
        crate_local_path("crates", "footool", "0.1.0"),
        "crates/footool/footool-0.1.0.crate"
    );
    assert_eq!(
        crate_url("https://static.crates.io/crates", "footool", "0.2.0"),
        "https://static.crates.io/crates/footool/footool-0.2.0.crate"
    );
}

#[test]
fn url_segments_are_dropped() {
    assert_eq!(
        skip_segments(
            "https://static.rust-lang.org/dist/2022-11-03/rust-1.65.0-i686-pc-windows-gnu.msi",
            4
        ),
        "2022-11-03/rust-1.65.0-i686-pc-windows-gnu.msi"
    );
    assert_eq!(
        skip_segments("https://static.rust-lang.org/dist/channel-rust-stable.toml", 4),
        "channel-rust-stable.toml"
    );
    assert_eq!(skip_segments("a/b", 4), "");
    assert_eq!(skip_segments("a/b/c", 1), "b/c");
    assert_eq!(skip_segments("abc", 0), "abc");
}

#[test]
fn upload_paths() {
    assert_eq!(s3_url_of("bucket", "crates/a/a-1.0.0.crate"), "s3://bucket/crates/a/a-1.0.0.crate");
    assert_eq!(base_name("/data/freighter/crates"), "crates");
    assert_eq!(base_name("crates"), "crates");
    let (folder, bucket) = upload_single_dir("/data/freighter/crates", "footool", "mirror");
    assert_eq!(folder, "/data/freighter/crates/footool");
    assert_eq!(bucket, "mirror/crates");
}
