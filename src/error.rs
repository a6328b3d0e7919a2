//! The errors of the package-index subsystem.
use vstd::prelude::*;

use crate::text::{from_chars, push_str};

verus! {

/// Why an operation of the package index failed. Every failure aborts the
/// operation that met it; nothing is retried.
#[derive(Debug, PartialEq, Eq)]
pub enum IndexError {
    /// The transport failed before a response came back.
    Network,
    /// The server answered with a status other than success.
    HttpStatus(u16),
    /// The bytes fetched do not have the declared SHA-256 digest.
    Integrity,
    /// The archive is unreadable or holds no usable top-level path.
    InvalidArchive,
    /// The file is not a gzip-compressed tarball (`.tar.gz`).
    UnsupportedFormat,
    /// No eligible source distribution of `project` has `version`.
    VersionNotFound { project: String, version: String },
    /// The registry's answer is malformed (for instance a digest that is not hex).
    Registry,
    /// A download URL of a release asset could not be parsed.
    InvalidUrl,
}

impl IndexError {
    /// A one-line description of the error, for the operator.
    pub fn message(&self) -> (r: String)
        ensures
            match self {
                IndexError::Network => r@ == "network failure"@,
                IndexError::HttpStatus(_) => r@ == "unsuccessful HTTP status"@,
                IndexError::Integrity => r@ == "file doesn't match hash"@,
                IndexError::InvalidArchive => r@ == "invalid archive"@,
                IndexError::UnsupportedFormat => r@
                    == "project file should only be of sdist type and a gzipped tar archive"@,
                IndexError::VersionNotFound { project, version } => r@ == "no version "@ + version@
                    + " for project "@ + project@,
                IndexError::Registry => r@ == "malformed registry response"@,
                IndexError::InvalidUrl => r@ == "invalid download URL"@,
            },
    {
        let mut out: Vec<char> = Vec::new();
        match self {
            IndexError::Network => push_str(&mut out, "network failure"),
            IndexError::HttpStatus(_) => push_str(&mut out, "unsuccessful HTTP status"),
            IndexError::Integrity => push_str(&mut out, "file doesn't match hash"),
            IndexError::InvalidArchive => push_str(&mut out, "invalid archive"),
            IndexError::UnsupportedFormat => push_str(
                &mut out,
                "project file should only be of sdist type and a gzipped tar archive",
            ),
            IndexError::VersionNotFound { project, version } => {
                push_str(&mut out, "no version ");
                push_str(&mut out, version.as_str());
                push_str(&mut out, " for project ");
                push_str(&mut out, project.as_str());
                assert(out@ =~= "no version "@ + version@ + " for project "@ + project@);
            },
            IndexError::Registry => push_str(&mut out, "malformed registry response"),
            IndexError::InvalidUrl => push_str(&mut out, "invalid download URL"),
        }
        from_chars(&out)
    }
}

} // verus!
