//! Why a manifest could not be loaded.
use vstd::prelude::*;

verus! {

/// Why a manifest could not be loaded: its path and the reason.
pub enum ManifestError {
    Read { path: String, reason: String },
    Parse { path: String, reason: String },
}

/// The message of an error.
pub open spec fn manifest_error_text(e: ManifestError) -> Seq<char> {
    match e {
        ManifestError::Read { path, reason } => "failed to read manifest "@ + path@ + ": "@
            + reason@,
        ManifestError::Parse { path, reason } => "failed to parse manifest "@ + path@ + ": "@
            + reason@,
    }
}

impl ManifestError {
    /// The message of the error.
    pub fn message(&self) -> (r: String)
        ensures
            r@ == manifest_error_text(*self),
    {
        match self {
            ManifestError::Read { path, reason } => {
                let mut r = "failed to read manifest ".to_owned();
                r.append(path.as_str());
                r.append(": ");
                r.append(reason.as_str());
                r
            },
            ManifestError::Parse { path, reason } => {
                let mut r = "failed to parse manifest ".to_owned();
                r.append(path.as_str());
                r.append(": ");
                r.append(reason.as_str());
                r
            },
        }
    }
}

} // verus!
