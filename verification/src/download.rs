//! The downloader's decisions: when a local file is kept, when it is removed
//! and re-fetched, when a fetched body is accepted, and when a file is
//! deleted after a successful upload.
use vstd::prelude::*;

use crate::config::ProxyConfig;
use crate::errors::FreighterError;
use crate::hashing;
use crate::text;

verus! {

/// One download request: the source URL and the local destination path,
/// routed through the configured proxy.
#[derive(Clone, Debug)]
pub struct DownloadOptions {
    pub proxy: ProxyConfig,
    pub url: String,
    pub path: String,
}

/// Interface of a transport that fetches one URL to one path. `Ok(false)`
/// means the origin answered but refused the request.
pub trait Download {
    fn download_to_folder(&self, msg: &str) -> Result<bool, FreighterError>;
}

/// What to do about one artifact before any network transfer.
#[derive(Clone, Copy, Debug, PartialEq, Eq, Structural)]
pub enum DownloadPlan {
    /// Keep the local file; no transfer.
    Skip,
    /// Delete the mismatched local file, then fetch.
    RemoveAndFetch,
    /// Fetch; no local file stands in the way.
    Fetch,
}

/// The downloader's pre-transfer rule: a present file with a matching digest
/// is kept; a present file with a differing digest is removed and re-fetched;
/// with no expected digest a present file is kept unless overriding is forced;
/// an absent file is fetched.
pub open spec fn download_plan_of(
    local: Option<Seq<u8>>,
    check_sum: Option<Seq<char>>,
    is_override: bool,
) -> DownloadPlan {
    match local {
        Some(data) => match check_sum {
            Some(expected) => if hashing::sha256_hex_of(data) == expected {
                DownloadPlan::Skip
            } else {
                DownloadPlan::RemoveAndFetch
            },
            None => if is_override {
                DownloadPlan::Fetch
            } else {
                DownloadPlan::Skip
            },
        },
        None => DownloadPlan::Fetch,
    }
}

/// Decide what to do before fetching: `local` holds the bytes of the
/// destination file when it exists, `check_sum` the expected hex digest.
pub fn decide_download(
    local: Option<&Vec<u8>>,
    check_sum: Option<&String>,
    is_override: bool,
) -> (r: DownloadPlan)
    ensures
        r == download_plan_of(
            match local {
                Some(v) => Some(v@),
                None => None,
            },
            match check_sum {
                Some(s) => Some(s@),
                None => None,
            },
            is_override,
        ),
{
    match local {
        Some(data) => match check_sum {
            Some(expected) => {
                if hashing::hash_matches(data.as_slice(), expected.as_str()) {
                    DownloadPlan::Skip
                } else {
                    DownloadPlan::RemoveAndFetch
                }
            },
            None => {
                if is_override {
                    DownloadPlan::Fetch
                } else {
                    DownloadPlan::Skip
                }
            },
        },
        None => DownloadPlan::Fetch,
    }
}

/// A fetched body is written to disk only when it matches the expected
/// digest, when one is expected.
pub open spec fn accepts_body(body: Seq<u8>, check_sum: Option<Seq<char>>) -> bool {
    match check_sum {
        Some(expected) => hashing::sha256_hex_of(body) == expected,
        None => true,
    }
}

/// Whether a fetched body may be written to the destination.
pub fn accept_download(body: &Vec<u8>, check_sum: Option<&String>) -> (r: bool)
    ensures
        r == accepts_body(
            body@,
            match check_sum {
                Some(s) => Some(s@),
                None => None,
            },
        ),
{
    match check_sum {
        Some(expected) => hashing::hash_matches(body.as_slice(), expected.as_str()),
        None => true,
    }
}

/// Every artifact the downloader leaves on disk matches its expected digest:
/// a present file is kept only when its digest equals the checksum, and a
/// fetched body is accepted against a checksum only when its digest equals
/// that checksum.
pub proof fn lemma_artifact_integrity(local: Seq<u8>, body: Seq<u8>, check_sum: Seq<char>)
    ensures
        download_plan_of(Some(local), Some(check_sum), false) is Skip ==> hashing::sha256_hex_of(
            local,
        ) == check_sum,
        accepts_body(body, Some(check_sum)) ==> hashing::sha256_hex_of(body) == check_sum,
{
}

/// A repeated initial sync over files already on disk whose digests match
/// their index entries plans no transfer at all.
pub proof fn lemma_second_run_fetches_nothing(files: Seq<(Seq<u8>, Seq<char>)>)
    requires
        forall|i: int| 0 <= i < files.len() ==> hashing::sha256_hex_of(#[trigger] files[i].0)
            == files[i].1,
    ensures
        forall|i: int| 0 <= i < files.len() ==> download_plan_of(
            Some(#[trigger] files[i].0),
            Some(files[i].1),
            false,
        ) is Skip,
{
}

/// An HTTP status on which the transfer's body is materialized.
pub fn http_success(status: u16) -> (r: bool)
    ensures
        r == (200 <= status <= 299),
{
    200 <= status && status <= 299
}

/// The local file is deleted exactly when it was downloaded in this pass,
/// uploading was requested, the upload succeeded, and deletion after upload
/// was asked for.
pub open spec fn delete_after_upload_of(
    downloaded: bool,
    upload: bool,
    upload_ok: bool,
    delete_flag: bool,
) -> bool {
    downloaded && upload && upload_ok && delete_flag
}

/// Decide whether to delete the local file after the upload step.
pub fn should_delete_after_upload(
    downloaded: bool,
    upload: bool,
    upload_ok: bool,
    delete_flag: bool,
) -> (r: bool)
    ensures
        r == delete_after_upload_of(downloaded, upload, upload_ok, delete_flag),
{
    downloaded && upload && upload_ok && delete_flag
}

/// The sidecar URL of an artifact: the artifact's URL with `.sha256` added.
pub fn sidecar_url(url: &str) -> (r: String)
    ensures
        r@ == url@ + ".sha256"@,
{
    let mut r = String::from_str(url);
    r.append(".sha256");
    r
}

/// The sidecar file name of an artifact file.
pub fn sidecar_file_name(file_name: &str) -> (r: String)
    ensures
        r@ == file_name@ + ".sha256"@,
{
    sidecar_url(file_name)
}

/// The expected digest carried by a sidecar file: its first 64 characters;
/// a shorter sidecar carries none.
pub fn parse_sidecar(content: &str) -> (r: Option<String>)
    ensures
        content@.len() >= 64 ==> (r matches Some(h) && h@ == content@.subrange(0, 64)),
        content@.len() < 64 ==> r is None,
{
    let len = content.unicode_len();
    if len >= 64 {
        Some(text::substring(content, 0, 64))
    } else {
        None
    }
}

} // verus!
