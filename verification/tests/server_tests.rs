use freighter::file_server::{
    crate_version_of_file, crates_file_path, domain_is_local, error_message_json, first_success,
    get_usize_from_bytes, publish_to_index, rejection_response, save_crate_file, save_crate_index,
    serve_redirect_url, split_publish_body, Rejection,
};
use freighter::git_protocol::{
    http_backend_env, info_refs_headers, info_refs_prefix, split_header_line, strip_line_end,
    upload_pack_args,
};
use freighter::hashing::sha256_hex;
use freighter::jsonfmt::index_line;
use freighter::server_model::{Badge, CratesPublish, Dep, Errors};

fn publish(name: &str, vers: &str, deps: Vec<Dep>) -> CratesPublish {
    CratesPublish {
        authors: vec![],
        badges: Badge {},
        categories: vec![],
        deps,
        description: String::new(),
        documentation: String::new(),
        features: vec![],
        homepage: String::new(),
        keywords: vec![],
        license: String::new(),
        license_file: None,
        links: None,
        name: name.to_string(),
        readme: String::new(),
        readme_file: String::new(),
        repository: String::new(),
        vers: vers.to_string(),
    }
}

fn dep(name: &str, req: &str, kind: &str) -> Dep {
    Dep {
        default_features: true,
        features: vec![],
        kind: kind.to_string(),
        name: name.to_string(),
        optional: false,
        registry: String::new(),
        target: None,
        version_req: req.to_string(),
        explicit_name_in_toml: None,
    }
}

#[test]
fn little_endian_length() {
    assert_eq!(get_usize_from_bytes(&[42, 0, 0, 0]), 42);
    assert_eq!(get_usize_from_bytes(&[0, 1, 0, 0]), 256);
    assert_eq!(get_usize_from_bytes(&[1, 0, 0, 1, 9, 9]), 16777217);
}

#[test]
fn publish_body_framing() {
    // <len(J)> J <len(B)> B, lengths little-endian
    let json = b"{\"name\":\"bar\"}";
    let file = [7u8; 42];
    let mut body: Vec<u8> = Vec::new();
    body.extend_from_slice(&(json.len() as u32).to_le_bytes());
    body.extend_from_slice(json);
    body.extend_from_slice(&(file.len() as u32).to_le_bytes());
    body.extend_from_slice(&file);
    let (j, f) = split_publish_body(&body).unwrap();
    assert_eq!(j, json.to_vec());
    assert_eq!(f, file.to_vec());

    assert!(split_publish_body(&[1, 0]).is_none());
    assert!(split_publish_body(&[200, 0, 0, 0, 1, 2, 3]).is_none());
}

#[test]
fn publish_round_trip_index_line() {
    // the index line a publish of 42 bytes creates carries their digest
    let bytes = [7u8; 42];
    let hb = sha256_hex(&bytes);
    let p = publish("bar", "0.1.0", vec![]);
    let f = publish_to_index(&p, hb.clone()).unwrap();
    let line = index_line(&f);
    let expected = format!(
        "{{\"name\":\"bar\",\"vers\":\"0.1.0\",\"deps\":[],\"cksum\":\"{}\",\"features\":{{}},\"yanked\":null,\"links\":null}}",
        hb
    );
    assert_eq!(line, expected);

    let (path, line2) = save_crate_index(&p, &bytes, "/data/crates.io-index").unwrap();
    assert_eq!(path, "/data/crates.io-index/3/b/bar");
    assert_eq!(line2, expected);
    assert_eq!(save_crate_file(&p, "/data/crates"), "/data/crates/bar/bar-0.1.0.crate");
}

#[test]
fn publish_with_dependencies_and_bad_kind() {
    let p = publish("bar", "0.1.0", vec![dep("serde", "^1", "normal"), dep("tokio", "^1", "dev")]);
    let f = publish_to_index(&p, "00".repeat(32)).unwrap();
    let line = index_line(&f);
    assert!(line.contains("\"version_req\":\"^1\""));
    assert!(line.contains("\"kind\":\"normal\""));
    assert!(line.contains("\"kind\":\"dev\""));

    let bad = publish("bar", "0.1.0", vec![dep("serde", "^1", "runtime")]);
    assert!(publish_to_index(&bad, "00".repeat(32)).is_none());
    assert!(save_crate_index(&bad, &[1, 2, 3], "/idx").is_none());
}

#[test]
fn fallback_order_is_the_configured_order() {
    // first domain answering wins; localhost means local disk
    assert_eq!(first_success(&vec![true, true]), Some(0));
    assert_eq!(first_success(&vec![false, true]), Some(1));
    assert_eq!(first_success(&vec![false, false]), None);
    assert_eq!(first_success(&vec![]), None);
    assert!(domain_is_local("localhost"));
    assert!(!domain_is_local("https://mirror.example"));
}

#[test]
fn serve_with_fallback_scenario() {
    // the crates route maps a request to its archive path
    assert_eq!(crates_file_path("footool", "0.2.0"), "crates/footool/footool-0.2.0.crate");
    // with the file gone, the request redirects to the next domain
    let url = serve_redirect_url(
        "https://mirror.example",
        "crates/footool/footool-0.2.0.crate",
        true,
    );
    assert_eq!(url, "https://mirror.example/crates/footool/footool-0.2.0.crate");
    // an object-storage origin gets the file name form-urlencoded
    let url = serve_redirect_url(
        "https://x.myhuaweicloud.com",
        "crates/a/a-0.1.1+b.crate",
        true,
    );
    assert_eq!(url, "https://x.myhuaweicloud.com/crates/a/a-0.1.1%2Bb.crate");
}

#[test]
fn version_from_download_route_file() {
    assert_eq!(crate_version_of_file("footool-0.2.0.crate"), "0.2.0");
    assert_eq!(crate_version_of_file("google-coordinate1-0.1.1+20141215.crate"), "0.1.1+20141215");
    assert_eq!(crate_version_of_file("plain"), "plain");
}

#[test]
fn rejection_codes() {
    let (code, msg) = rejection_response(&Rejection::NotFound);
    assert_eq!((code, msg.as_str()), (404, "NOT_FOUND"));
    let (code, msg) = rejection_response(&Rejection::BodyDeserialize);
    assert_eq!((code, msg.as_str()), (400, "BAD_REQUEST"));
    let (code, msg) = rejection_response(&Rejection::MethodNotAllowed);
    assert_eq!((code, msg.as_str()), (405, "METHOD_NOT_ALLOWED"));
    let (code, msg) = rejection_response(&Rejection::Other);
    assert_eq!((code, msg.as_str()), (500, "UNHANDLED_REJECTION"));
    assert_eq!(
        error_message_json(404, "NOT_FOUND"),
        "{\"code\":404,\"message\":\"NOT_FOUND\"}"
    );
}

#[test]
fn error_envelope_holds_one_detail() {
    let e = Errors::new("bad json".to_string());
    assert_eq!(e.errors.len(), 1);
    assert_eq!(e.errors[0].detail, "bad json");
}

#[test]
fn smart_protocol_bridge_pieces() {
    assert_eq!(info_refs_prefix(), "001e# service=git-upload-pack\n0000");
    let args = upload_pack_args("/data");
    assert_eq!(
        args,
        vec![
            "upload-pack".to_string(),
            "--stateless-rpc".to_string(),
            "--advertise-refs".to_string(),
            "/data/crates.io-index".to_string(),
        ]
    );
    let env = http_backend_env("/data", "POST", &Some("application/x-git-upload-pack-request".to_string()));
    assert_eq!(env[0], ("GIT_PROJECT_ROOT".to_string(), "/data".to_string()));
    assert_eq!(env[1], ("PATH_INFO".to_string(), "/crates.io-index/git-upload-pack".to_string()));
    assert_eq!(env[2], ("REQUEST_METHOD".to_string(), "POST".to_string()));
    assert_eq!(
        env[3],
        ("CONTENT_TYPE".to_string(), "application/x-git-upload-pack-request".to_string())
    );
    assert_eq!(env[4], ("GIT_HTTP_EXPORT_ALL".to_string(), "true".to_string()));
    let env = http_backend_env("/data", "GET", &None);
    assert_eq!(env.len(), 4);
    assert_eq!(env[3].0, "GIT_HTTP_EXPORT_ALL");

    let headers = info_refs_headers();
    assert_eq!(headers[0].0, "Content-Type");
    assert_eq!(headers[1].1, "no-cache, max-age=0, must-revalidate");

    assert_eq!(strip_line_end("Content-Type: text/plain\r\n"), "Content-Type: text/plain");
    let (k, v) = split_header_line("Content-Type: text/plain").unwrap();
    assert_eq!(k, "Content-Type");
    assert_eq!(v, "text/plain");
    assert!(split_header_line("no separator").is_none());
    assert!(split_header_line("").is_none());
}
