//! The archive validator boundary.
//!
//! Parsing and bounded decompression of the uploaded archive are an external
//! collaborator's work: the publish pipeline receives either the structured
//! manifest data the validator extracted or one of its typed failures, and
//! maps each failure onto its stable client-facing message.

use vstd::prelude::*;

use crate::strutil::join_with;

verus! {

/// The manifest data and provenance the archive validator extracted from a
/// well-formed upload.
pub struct ManifestInfo {
    pub description: Option<String>,
    pub license: Option<String>,
    pub license_file: Option<String>,
    pub homepage: Option<String>,
    pub documentation: Option<String>,
    pub repository: Option<String>,
    pub keywords: Vec<String>,
    pub categories: Vec<String>,
    pub links: Option<String>,
    /// Where the package sits inside its version-control checkout, if the
    /// archive carried that hint.
    pub pkg_path_in_vcs: Option<String>,
}

#[verifier::ext_equal]
pub ghost struct ManifestInfoView {
    pub description: Option<Seq<char>>,
    pub license: Option<Seq<char>>,
    pub license_file: Option<Seq<char>>,
    pub homepage: Option<Seq<char>>,
    pub documentation: Option<Seq<char>>,
    pub repository: Option<Seq<char>>,
    pub keywords: Seq<Seq<char>>,
    pub categories: Seq<Seq<char>>,
    pub links: Option<Seq<char>>,
    pub pkg_path_in_vcs: Option<Seq<char>>,
}

impl View for ManifestInfo {
    type V = ManifestInfoView;

    open spec fn view(&self) -> ManifestInfoView {
        ManifestInfoView {
            description: crate::registry::opt_view(self.description),
            license: crate::registry::opt_view(self.license),
            license_file: crate::registry::opt_view(self.license_file),
            homepage: crate::registry::opt_view(self.homepage),
            documentation: crate::registry::opt_view(self.documentation),
            repository: crate::registry::opt_view(self.repository),
            keywords: crate::validate::seq_views(self.keywords@),
            categories: crate::validate::seq_views(self.categories@),
            links: crate::registry::opt_view(self.links),
            pkg_path_in_vcs: crate::registry::opt_view(self.pkg_path_in_vcs),
        }
    }
}

/// A typed failure of the archive validator.
#[derive(Debug)]
pub enum ArchiveError {
    /// The archive is malformed or overran the decompressed-size ceiling
    /// while streaming.
    Malformed,
    /// A member path escapes or is otherwise unsafe.
    InvalidPath { path: String },
    /// A symlink or hard link member.
    UnexpectedSymlink { path: String },
    /// No manifest in the archive.
    MissingManifest,
    /// A manifest under a miscased file name.
    IncorrectlyCasedManifest { name: String },
    /// More than one manifest candidate.
    TooManyManifests { names: Vec<String> },
    /// The manifest does not parse.
    InvalidManifest { err: String },
}

#[verifier::ext_equal]
pub ghost enum ArchiveErrorView {
    Malformed,
    InvalidPath { path: Seq<char> },
    UnexpectedSymlink { path: Seq<char> },
    MissingManifest,
    IncorrectlyCasedManifest { name: Seq<char> },
    TooManyManifests { names: Seq<Seq<char>> },
    InvalidManifest { err: Seq<char> },
}

impl View for ArchiveError {
    type V = ArchiveErrorView;

    open spec fn view(&self) -> ArchiveErrorView {
        match self {
            ArchiveError::Malformed => ArchiveErrorView::Malformed,
            ArchiveError::InvalidPath { path } => ArchiveErrorView::InvalidPath { path: path@ },
            ArchiveError::UnexpectedSymlink { path } => ArchiveErrorView::UnexpectedSymlink {
                path: path@,
            },
            ArchiveError::MissingManifest => ArchiveErrorView::MissingManifest,
            ArchiveError::IncorrectlyCasedManifest { name } => ArchiveErrorView::IncorrectlyCasedManifest {
                name: name@,
            },
            ArchiveError::TooManyManifests { names } => ArchiveErrorView::TooManyManifests {
                names: crate::validate::seq_views(names@),
            },
            ArchiveError::InvalidManifest { err } => ArchiveErrorView::InvalidManifest {
                err: err@,
            },
        }
    }
}

impl ArchiveErrorView {
    /// The stable client-facing message for each validator failure.
    pub open spec fn spec_message(self) -> Seq<char> {
        match self {
            ArchiveErrorView::Malformed => "uploaded tarball is malformed or too large when decompressed"@,
            ArchiveErrorView::InvalidPath { path } => "invalid path found: "@ + path,
            ArchiveErrorView::UnexpectedSymlink { path } => "unexpected symlink or hard link found: "@
                + path,
            ArchiveErrorView::MissingManifest => "uploaded tarball is missing a `Cargo.toml` manifest file"@,
            ArchiveErrorView::IncorrectlyCasedManifest { name } => "uploaded tarball is missing a `Cargo.toml` manifest file; `"@
                + name + "` was found, but must be named `Cargo.toml` with that exact casing"@,
            ArchiveErrorView::TooManyManifests { names } => "uploaded tarball contains more than one `Cargo.toml` manifest file; found `"@
                + join_with(names, "`, `"@) + "`"@,
            ArchiveErrorView::InvalidManifest { err } => "failed to parse `Cargo.toml` manifest file\n\n"@
                + err,
        }
    }
}

impl ArchiveError {
    pub fn message(&self) -> (r: String)
        ensures
            r@ == self@.spec_message(),
    {
        match self {
            ArchiveError::Malformed => String::from_str(
                "uploaded tarball is malformed or too large when decompressed",
            ),
            ArchiveError::InvalidPath { path } => {
                let mut s = String::from_str("invalid path found: ");
                s.append(path.as_str());
                s
            },
            ArchiveError::UnexpectedSymlink { path } => {
                let mut s = String::from_str("unexpected symlink or hard link found: ");
                s.append(path.as_str());
                s
            },
            ArchiveError::MissingManifest => String::from_str(
                "uploaded tarball is missing a `Cargo.toml` manifest file",
            ),
            ArchiveError::IncorrectlyCasedManifest { name } => {
                let mut s = String::from_str(
                    "uploaded tarball is missing a `Cargo.toml` manifest file; `",
                );
                s.append(name.as_str());
                s.append("` was found, but must be named `Cargo.toml` with that exact casing");
                s
            },
            ArchiveError::TooManyManifests { names } => {
                let mut s = String::from_str(
                    "uploaded tarball contains more than one `Cargo.toml` manifest file; found `",
                );
                s.append(crate::strutil::join_with_exec(names.as_slice(), "`, `").as_str());
                s.append("`");
                s
            },
            ArchiveError::InvalidManifest { err } => {
                let mut s = String::from_str("failed to parse `Cargo.toml` manifest file\n\n");
                s.append(err.as_str());
                s
            },
        }
    }
}

/// The size ceilings that govern one upload.
#[derive(Clone, Copy, Debug, PartialEq, Eq, Structural)]
pub struct Maximums {
    /// Ceiling on the compressed upload.
    pub max_upload_size: u64,
    /// Ceiling on the decompressed contents.
    pub max_unpack_size: u64,
}

/// The ceilings for one upload: a per-package override wins over the
/// registry-wide upload ceiling, and the unpack ceiling is never below the
/// upload ceiling.
pub open spec fn spec_maximums(
    package_max_upload: Option<u64>,
    registry_max_upload: u64,
    registry_max_unpack: u64,
) -> Maximums {
    let max_upload_size = match package_max_upload {
        Some(m) => m,
        None => registry_max_upload,
    };
    Maximums {
        max_upload_size,
        max_unpack_size: vstd::math::max(registry_max_unpack as int, max_upload_size as int) as u64,
    }
}

/// Resolves the ceilings for one upload.
pub fn maximums(
    package_max_upload: Option<u64>,
    registry_max_upload: u64,
    registry_max_unpack: u64,
) -> (r: Maximums)
    ensures
        r == spec_maximums(package_max_upload, registry_max_upload, registry_max_unpack),
{
    let max_upload_size = match package_max_upload {
        Some(m) => m,
        None => registry_max_upload,
    };
    let max_unpack_size = if registry_max_unpack > max_upload_size {
        registry_max_unpack
    } else {
        max_upload_size
    };
    Maximums { max_upload_size, max_unpack_size }
}

} // verus!
