use freighter::config::{format_path, Config};
use freighter::errors::FreighterError;

#[test]
fn test_format_path() {
    // test config path
    let default = dirs::home_dir().unwrap();
    let default = default.to_str().unwrap();
    assert_eq!(
        format_path(&None, "config.toml"),
        format!("{}/freighter/config.toml", default)
    );
    assert_eq!(
        format_path(&Some("/tmp".to_string()), "config.toml"),
        "/tmp/freighter/config.toml".to_string()
    );

    // test index path
    assert_eq!(format_path(&None, "index"), format!("{}/freighter/index", default));
    assert_eq!(
        format_path(&Some("/tmp".to_string()), "index"),
        "/tmp/freighter/index".to_string()
    );
    assert_eq!(
        format_path(&Some("/tmp/freighter".to_string()), "index"),
        "/tmp/freighter/index".to_string()
    );
    assert_eq!(
        format_path(&Some("/tmp/freighter/index".to_string()), "index"),
        "/tmp/freighter/index".to_string()
    );
}

#[test]
fn config_load_resolves_roots() {
    let mut base = Config::new();
    base.crates.index_path = Some("/data".to_string());
    base.crates.crates_path = Some("/data/freighter".to_string());
    base.rustup.rustup_path = Some("/data/freighter/rustup".to_string());
    base.rustup.dist_path = Some("/data".to_string());
    base.log.log_path = Some("/data".to_string());
    let loaded = base.load(Some("/data".to_string()));
    assert_eq!(loaded.work_dir, Some("/data".to_string()));
    assert_eq!(loaded.index_path, "/data/freighter/crates.io-index");
    assert_eq!(loaded.crates_path, "/data/freighter/crates");
    assert_eq!(loaded.rustup_path, "/data/freighter/rustup");
    assert_eq!(loaded.dist_path, "/data/freighter/dist");
    assert_eq!(loaded.log_path, "/data/freighter/log");
}

#[test]
fn freighter_error_codes_and_messages() {
    let e = FreighterError::unknown_command("frob".to_string());
    assert_eq!(e.code, 1);
    assert_eq!(e.print(), "Unknown command: frob");

    let c = FreighterError::code(42);
    assert_eq!(c.code, 42);
    assert!(c.message.is_none());
    assert_eq!(c.print(), "");

    let n = FreighterError::new("boom".to_string(), 101);
    assert_eq!(n.code, 101);
    assert_eq!(n.print(), "boom");
}
