//! What a request path says about the file it asks for.

use vstd::prelude::*;

verus! {

/// The kinds of file a package repository serves.
#[derive(Clone, Copy, Debug, PartialEq, Eq, Structural)]
pub enum ArtifactType {
    /// Current source tarball of a package.
    SrcTar,
    /// Archived (superseded) source tarball.
    ArchiveTar,
    /// Windows binary build.
    WinZip,
    /// macOS binary build.
    MacTgz,
    /// Serialized package index.
    IndexRds,
    /// Compressed package index.
    IndexGz,
    /// Plain-text package index.
    IndexText,
    /// Anything else.
    Unknown,
}

impl ArtifactType {
    /// The name under which the kind appears in logs.
    pub open spec fn name(self) -> Seq<char> {
        match self {
            ArtifactType::SrcTar => "src_tar"@,
            ArtifactType::ArchiveTar => "archive_tar"@,
            ArtifactType::WinZip => "win_zip"@,
            ArtifactType::MacTgz => "mac_tgz"@,
            ArtifactType::IndexRds => "index_rds"@,
            ArtifactType::IndexGz => "index_gz"@,
            ArtifactType::IndexText => "index_text"@,
            ArtifactType::Unknown => "unknown"@,
        }
    }

    /// Position in the order in which the rules are tried; `Unknown`, the
    /// fallback, comes last.
    pub open spec fn rank(self) -> nat {
        match self {
            ArtifactType::SrcTar => 0,
            ArtifactType::ArchiveTar => 1,
            ArtifactType::WinZip => 2,
            ArtifactType::MacTgz => 3,
            ArtifactType::IndexRds => 4,
            ArtifactType::IndexGz => 5,
            ArtifactType::IndexText => 6,
            ArtifactType::Unknown => 7,
        }
    }

    pub fn as_str(&self) -> (s: &'static str)
        ensures
            s@ == self.name(),
    {
        match self {
            ArtifactType::SrcTar => "src_tar",
            ArtifactType::ArchiveTar => "archive_tar",
            ArtifactType::WinZip => "win_zip",
            ArtifactType::MacTgz => "mac_tgz",
            ArtifactType::IndexRds => "index_rds",
            ArtifactType::IndexGz => "index_gz",
            ArtifactType::IndexText => "index_text",
            ArtifactType::Unknown => "unknown",
        }
    }
}

/// Mathematical value of a [`CranInfo`].
pub struct CranInfoView {
    pub artifact_type: ArtifactType,
    pub package: Option<Seq<char>>,
    pub version: Option<Seq<char>>,
    pub r_minor: Option<Seq<char>>,
    pub os: Option<Seq<char>>,
}

impl CranInfoView {
    /// The descriptor of kind `kind` that names nothing.
    pub open spec fn bare(kind: ArtifactType) -> CranInfoView {
        CranInfoView { artifact_type: kind, package: None, version: None, r_minor: None, os: None }
    }

    /// Whether the descriptor names exactly what its kind calls for: a
    /// tarball its package and version; a binary also the R release it was
    /// built for and its operating system; an index or an unknown file
    /// nothing.
    pub open spec fn well_formed(self) -> bool {
        match self.artifact_type {
            ArtifactType::SrcTar | ArtifactType::ArchiveTar => {
                &&& self.package is Some
                &&& self.version is Some
                &&& self.r_minor is None
                &&& self.os is None
            },
            ArtifactType::WinZip => {
                &&& self.package is Some
                &&& self.version is Some
                &&& self.r_minor is Some
                &&& self.os == Some("windows"@)
            },
            ArtifactType::MacTgz => {
                &&& self.package is Some
                &&& self.version is Some
                &&& self.r_minor is Some
                &&& self.os == Some("macos"@)
            },
            _ => self == CranInfoView::bare(self.artifact_type),
        }
    }
}

/// Descriptor of the artifact behind a request path.
#[derive(Clone, Debug, PartialEq, Eq)]
pub struct CranInfo {
    pub artifact_type: ArtifactType,
    pub package: Option<String>,
    pub version: Option<String>,
    /// `major.minor` of the R release a binary was built for.
    pub r_minor: Option<String>,
    pub os: Option<String>,
}

impl View for CranInfo {
    type V = CranInfoView;

    open spec fn view(&self) -> CranInfoView {
        CranInfoView {
            artifact_type: self.artifact_type,
            package: self.package.deep_view(),
            version: self.version.deep_view(),
            r_minor: self.r_minor.deep_view(),
            os: self.os.deep_view(),
        }
    }
}

impl CranInfo {
    /// A descriptor of kind `kind` with every optional field empty.
    pub fn bare(kind: ArtifactType) -> (info: CranInfo)
        ensures
            info@ == CranInfoView::bare(kind),
    {
        CranInfo { artifact_type: kind, package: None, version: None, r_minor: None, os: None }
    }
}

} // verus!
