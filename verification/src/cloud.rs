//! The object-storage uploader interface and the path derivations of the
//! `upload` verbs. The transfers themselves run through an external tool.
use vstd::prelude::*;

use crate::errors::FreightResult;
use crate::urlenc;
use crate::text;

verus! {

/// Interface of an object-storage back end: transfer one file to
/// `<bucket>/<s3_path>`, or a whole tree under `<bucket>/`.
pub trait CloudStorage {
    fn upload_file(&self, file_path: &str, s3_path: &str, bucket: &str) -> FreightResult;

    fn upload_folder(&self, folder: &str, bucket: &str) -> FreightResult;
}

/// The back end that shells out to the `s3cmd` tool.
#[derive(Clone, Debug)]
pub struct S3cmd {}

impl Default for S3cmd {
    fn default() -> (r: Self) {
        S3cmd {  }
    }
}

/// The object URL an upload writes to: `s3://<bucket>/<s3_path>`.
pub fn s3_url_of(bucket: &str, s3_path: &str) -> (r: String)
    ensures
        r@ == "s3://"@ + bucket@ + seq!['/'] + s3_path@,
{
    proof {
        reveal_strlit("/");
    }
    let mut r = String::from_str("s3://");
    r.append(bucket);
    r.append("/");
    r.append(s3_path);
    assert(r@ =~= "s3://"@ + bucket@ + seq!['/'] + s3_path@);
    r
}

/// The final segment of a path: what follows its last separator, or the
/// whole path when it has none.
pub open spec fn base_name_of(path: Seq<char>) -> Seq<char> {
    path.skip(urlenc::rfind_char(path, '/') + 1)
}

/// The final segment of a path.
pub fn base_name(path: &str) -> (r: String)
    ensures
        r@ == base_name_of(path@),
{
    let len = path.unicode_len();
    match text::last_index_of_char(path, '/') {
        Some(i) => {
            proof {
                urlenc::lemma_rfind_char(path@, '/');
                let f = urlenc::rfind_char(path@, '/');
                if f == -1 {
                    assert(false);
                } else if f < i {
                    assert(path@[i as int] == '/');
                    assert(false);
                } else if f > i {
                    assert(path@[f] == '/');
                    assert(false);
                }
            }
            text::substring(path, i + 1, len)
        },
        None => {
            proof {
                urlenc::lemma_rfind_char(path@, '/');
                let f = urlenc::rfind_char(path@, '/');
                if f != -1 {
                    assert(path@[f] == '/');
                    assert(false);
                }
                assert(path@.skip(0) =~= path@);
            }
            String::from_str(path)
        },
    }
}

/// What a single-crate `upload` transfers: the crate's directory
/// `<path>/<crates_name>`, into the bucket path `<bucket>/<base of path>`.
pub fn upload_single_dir(path: &str, crates_name: &str, bucket_name: &str) -> (r: (String, String))
    ensures
        r.0@ == path@ + seq!['/'] + crates_name@,
        r.1@ == bucket_name@ + seq!['/'] + base_name_of(path@),
{
    proof {
        reveal_strlit("/");
    }
    let mut folder = String::from_str(path);
    folder.append("/");
    folder.append(crates_name);
    let mut bucket = String::from_str(bucket_name);
    bucket.append("/");
    let base = base_name(path);
    bucket.append(base.as_str());
    proof {
        assert(folder@ =~= path@ + seq!['/'] + crates_name@);
        assert(bucket@ =~= bucket_name@ + seq!['/'] + base_name_of(path@));
    }
    (folder, bucket)
}

} // verus!
