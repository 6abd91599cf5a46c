use freighter::download::{
    accept_download, decide_download, parse_sidecar, should_delete_after_upload, sidecar_file_name,
    sidecar_url, DownloadPlan,
};
use freighter::hashing::{hash_matches, sha256_hex};
use freighter::urlenc::encode_huaweicloud_url;

#[test]
fn test_huaweicloud_url_serial() {
    let domain = "rust-proxy.obs.cn-east-3.myhuaweicloud.com";
    let path = "/crates/google-coordinate1/google-coordinate1-0.1.1+20141215.crate";
    let encoded = encode_huaweicloud_url(domain, path);
    assert_eq!(
        format!("https://{}{}", domain, encoded),
        "https://rust-proxy.obs.cn-east-3.myhuaweicloud.com/crates/google-coordinate1/google-coordinate1-0.1.1%2B20141215.crate"
    );

    // Skip routes that don't start with /crates
    let path = "/dist/2023-06-05/google-coordinate1-0.1.1+20141215.crate";
    let encoded = encode_huaweicloud_url(domain, path);
    assert_eq!(
        format!("https://{}{}", domain, encoded),
        "https://rust-proxy.obs.cn-east-3.myhuaweicloud.com/dist/2023-06-05/google-coordinate1-0.1.1+20141215.crate"
    );
}

#[test]
fn sha256_known_vectors() {
    assert_eq!(
        sha256_hex(b"abc"),
        "ba7816bf8f01cfea414140de5dae2223b00361a396177a9cb410ff61f20015ad"
    );
    assert_eq!(
        sha256_hex(b""),
        "e3b0c44298fc1c149afbf4c8996fb92427ae41e4649b934ca495991b7852b855"
    );
    assert!(hash_matches(
        b"abc",
        "ba7816bf8f01cfea414140de5dae2223b00361a396177a9cb410ff61f20015ad"
    ));
    assert!(!hash_matches(
        b"abd",
        "ba7816bf8f01cfea414140de5dae2223b00361a396177a9cb410ff61f20015ad"
    ));
}

#[test]
fn download_plan_matching_file_is_kept() {
    let body: Vec<u8> = b"abc".to_vec();
    let good = "ba7816bf8f01cfea414140de5dae2223b00361a396177a9cb410ff61f20015ad".to_string();
    // a present file with the expected digest is kept: no transfer on a rerun
    assert_eq!(decide_download(Some(&body), Some(&good), false), DownloadPlan::Skip);
    // hash mismatch: the local copy is removed and fetched again
    let bad: Vec<u8> = b"garbage".to_vec();
    assert_eq!(decide_download(Some(&bad), Some(&good), false), DownloadPlan::RemoveAndFetch);
    // no expected digest: presence decides, unless overriding is forced
    assert_eq!(decide_download(Some(&body), None, false), DownloadPlan::Skip);
    assert_eq!(decide_download(Some(&body), None, true), DownloadPlan::Fetch);
    assert_eq!(decide_download(None, Some(&good), false), DownloadPlan::Fetch);
}

#[test]
fn accepted_body_matches_digest() {
    let body: Vec<u8> = b"abc".to_vec();
    let good = "ba7816bf8f01cfea414140de5dae2223b00361a396177a9cb410ff61f20015ad".to_string();
    let wrong = "0000000000000000000000000000000000000000000000000000000000000000".to_string();
    assert!(accept_download(&body, Some(&good)));
    assert!(!accept_download(&body, Some(&wrong)));
    assert!(accept_download(&body, None));
}

#[test]
fn delete_after_upload_needs_all_four() {
    assert!(should_delete_after_upload(true, true, true, true));
    assert!(!should_delete_after_upload(false, true, true, true));
    assert!(!should_delete_after_upload(true, false, true, true));
    assert!(!should_delete_after_upload(true, true, false, true));
    assert!(!should_delete_after_upload(true, true, true, false));
}

#[test]
fn sidecar_names_and_digest() {
    assert_eq!(sidecar_url("https://example.org/rustup-init"), "https://example.org/rustup-init.sha256");
    assert_eq!(sidecar_file_name("rustup-init"), "rustup-init.sha256");
    let content = format!("{}  rustup-init\n", "a".repeat(64));
    assert_eq!(parse_sidecar(&content), Some("a".repeat(64)));
    assert_eq!(parse_sidecar("too-short"), None);
}
