//! The publish API's records: the metadata a client posts with a new crate,
//! and the response and error envelopes the server answers with.
use vstd::prelude::*;

verus! {

/// The metadata of a publish request, as posted to `/api/v1/crates/new`.
#[derive(Clone, Debug)]
pub struct CratesPublish {
    pub authors: Vec<String>,
    pub badges: Badge,
    pub categories: Vec<String>,
    pub deps: Vec<Dep>,
    pub description: String,
    pub documentation: String,
    pub features: Vec<(String, Vec<String>)>,
    pub homepage: String,
    pub keywords: Vec<String>,
    pub license: String,
    pub license_file: Option<String>,
    pub links: Option<String>,
    pub name: String,
    pub readme: String,
    pub readme_file: String,
    pub repository: String,
    pub vers: String,
}

/// One dependency of a publish request.
#[derive(Clone, Debug)]
pub struct Dep {
    pub default_features: bool,
    pub features: Vec<String>,
    /// `dev`, `build`, or `normal`.
    pub kind: String,
    pub name: String,
    pub optional: bool,
    pub registry: String,
    pub target: Option<String>,
    pub version_req: String,
    /// The new name when the dependency is renamed.
    pub explicit_name_in_toml: Option<String>,
}

/// Status badges of a package; the registry accepts and ignores them.
#[derive(Clone, Debug)]
pub struct Badge {}

/// The response to a successful publish.
#[derive(Clone, Debug)]
pub struct PublishRsp {
    pub warnings: Warning,
}

/// Warnings attached to a publish response.
#[derive(Clone, Debug)]
pub struct Warning {
    pub invalid_categories: Vec<String>,
    pub invalid_badges: Vec<String>,
    pub other: Vec<String>,
}

impl Default for Warning {
    fn default() -> (r: Self)
        ensures
            r.invalid_categories@ == Seq::<String>::empty(),
            r.invalid_badges@ == Seq::<String>::empty(),
            r.other@ == Seq::<String>::empty(),
    {
        Warning { invalid_categories: Vec::new(), invalid_badges: Vec::new(), other: Vec::new() }
    }
}

impl Default for PublishRsp {
    fn default() -> (r: Self)
        ensures
            r.warnings.invalid_categories@ == Seq::<String>::empty(),
            r.warnings.invalid_badges@ == Seq::<String>::empty(),
            r.warnings.other@ == Seq::<String>::empty(),
    {
        PublishRsp { warnings: Warning::default() }
    }
}

/// The error envelope of a failed publish.
#[derive(Clone, Debug)]
pub struct Errors {
    pub errors: Vec<ErrorDetail>,
}

/// One error of the envelope.
#[derive(Clone, Debug)]
pub struct ErrorDetail {
    pub detail: String,
}

impl Errors {
    /// An envelope holding one error message.
    pub fn new(detail: String) -> (r: Errors)
        ensures
            r.errors@.len() == 1,
            r.errors@[0].detail == detail,
    {
        let mut errors: Vec<ErrorDetail> = Vec::new();
        errors.push(ErrorDetail { detail });
        Errors { errors }
    }
}

} // verus!
