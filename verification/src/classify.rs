//! The ordered rules that map a request path to its artifact descriptor.
//!
//! A rule has a shape and an expression. The shape is a literal test on the
//! bytes of the path: the directory it begins with and the file name ending
//! it has. It is cheap, it is decided here, and it is what keeps the rules
//! apart. The expression is an anchored regular expression that checks the
//! tokens in between and captures them; it is run only on a path of the right
//! shape. The rules are tried in a fixed order and the first one that matches
//! decides; a path that none matches is `Unknown`. The path is matched as
//! received, without decoding.

use vstd::prelude::*;
use vstd::utf8::{encode_utf8, is_ascii_chars, is_ascii_chars_encode_utf8};
use crate::artifact::{ArtifactType, CranInfo, CranInfoView};
use crate::pattern::{captures, regex_captures};
use crate::shape::{
    ends_with, has_prefix, has_suffix, is_single_segment, lemma_prefix_byte, lemma_suffix_byte,
    single_segment, starts_with, SLASH,
};

verus! {

/// Directory of current source tarballs.
pub const SRC_DIR: &'static str = "/src/contrib/";

/// Directory of archived source tarballs.
pub const ARCHIVE_DIR: &'static str = "/src/contrib/Archive/";

/// Directory of Windows binaries.
pub const WINDOWS_DIR: &'static str = "/bin/windows/contrib/";

/// Directory of macOS binaries.
pub const MACOS_DIR: &'static str = "/bin/macosx/";

/// File name ending of a source tarball.
pub const TARBALL_SUFFIX: &'static str = ".tar.gz";

/// File name ending of a Windows binary.
pub const ZIP_SUFFIX: &'static str = ".zip";

/// File name ending of a macOS binary.
pub const TGZ_SUFFIX: &'static str = ".tgz";

/// Last segment of a serialized index.
pub const INDEX_RDS_NAME: &'static str = "/PACKAGES.rds";

/// Last segment of a compressed index.
pub const INDEX_GZ_NAME: &'static str = "/PACKAGES.gz";

/// Last segment of a plain-text index.
pub const INDEX_TEXT_NAME: &'static str = "/PACKAGES";

/// `/src/contrib/<package>_<version>.tar.gz`
pub const SRC_TAR_PATTERN: &'static str = r"^/src/contrib/([A-Za-z0-9.]+)_([^/]+)\.tar\.gz$";

/// `/src/contrib/Archive/<package>/<name>_<version>.tar.gz`
pub const ARCHIVE_TAR_PATTERN: &'static str = r"^/src/contrib/Archive/([^/]+)/[^/]+_([^/]+)\.tar\.gz$";

/// `/bin/windows/contrib/<r-minor>/<package>_<version>.zip`
pub const WIN_ZIP_PATTERN: &'static str = r"^/bin/windows/contrib/(\d+\.\d+)/([^_]+)_([^/]+)\.zip$";

/// `/bin/macosx/<anything>/contrib/<r-minor>/<package>_<version>.tgz`
pub const MAC_TGZ_PATTERN: &'static str = r"^/bin/macosx/.*/contrib/(\d+\.\d+)/([^_]+)_([^/]+)\.tgz$";

/// `PACKAGES.rds` under a source or binary `contrib` directory.
pub const INDEX_RDS_PATTERN: &'static str = r"^/(src/contrib|bin/.*/contrib/\d+\.\d+)/PACKAGES\.rds$";

/// `PACKAGES.gz` under a source or binary `contrib` directory.
pub const INDEX_GZ_PATTERN: &'static str = r"^/(src/contrib|bin/.*/contrib/\d+\.\d+)/PACKAGES\.gz$";

/// `PACKAGES` under a source or binary `contrib` directory.
pub const INDEX_TEXT_PATTERN: &'static str = r"^/(src/contrib|bin/.*/contrib/\d+\.\d+)/PACKAGES$";

/// The expression of the rule that yields `kind`; `Unknown` has none.
pub open spec fn pattern(kind: ArtifactType) -> Option<Seq<char>> {
    match kind {
        ArtifactType::SrcTar => Some(SRC_TAR_PATTERN@),
        ArtifactType::ArchiveTar => Some(ARCHIVE_TAR_PATTERN@),
        ArtifactType::WinZip => Some(WIN_ZIP_PATTERN@),
        ArtifactType::MacTgz => Some(MAC_TGZ_PATTERN@),
        ArtifactType::IndexRds => Some(INDEX_RDS_PATTERN@),
        ArtifactType::IndexGz => Some(INDEX_GZ_PATTERN@),
        ArtifactType::IndexText => Some(INDEX_TEXT_PATTERN@),
        ArtifactType::Unknown => None,
    }
}

/// Whether the bytes `path` begin with the text `dir`.
pub open spec fn in_dir(path: Seq<u8>, dir: Seq<char>) -> bool {
    starts_with(path, encode_utf8(dir))
}

/// Whether the bytes `path` end with the text `ending`.
pub open spec fn has_ending(path: Seq<u8>, ending: Seq<char>) -> bool {
    ends_with(path, encode_utf8(ending))
}

/// Whether `path`, taken as its UTF-8 bytes, has the shape of the rule that
/// yields `kind`: its directory at the start and its file name ending at the
/// end. A current source tarball lies directly in its directory. No path has
/// the shape of `Unknown`.
pub open spec fn has_shape(kind: ArtifactType, path: Seq<char>) -> bool {
    let bytes = encode_utf8(path);
    match kind {
        ArtifactType::SrcTar => {
            &&& in_dir(bytes, SRC_DIR@)
            &&& has_ending(bytes, TARBALL_SUFFIX@)
            &&& single_segment(bytes, encode_utf8(SRC_DIR@).len() as int)
        },
        ArtifactType::ArchiveTar => in_dir(bytes, ARCHIVE_DIR@) && has_ending(bytes, TARBALL_SUFFIX@),
        ArtifactType::WinZip => in_dir(bytes, WINDOWS_DIR@) && has_ending(bytes, ZIP_SUFFIX@),
        ArtifactType::MacTgz => in_dir(bytes, MACOS_DIR@) && has_ending(bytes, TGZ_SUFFIX@),
        ArtifactType::IndexRds => has_ending(bytes, INDEX_RDS_NAME@),
        ArtifactType::IndexGz => has_ending(bytes, INDEX_GZ_NAME@),
        ArtifactType::IndexText => has_ending(bytes, INDEX_TEXT_NAME@),
        ArtifactType::Unknown => false,
    }
}

/// What the expression of the rule of `kind` finds in a `path` of the
/// rule's shape: its capture groups. `None` where the path has another shape
/// or the expression does not match.
pub open spec fn rule_groups(kind: ArtifactType, path: Seq<char>) -> Option<Seq<Option<Seq<char>>>> {
    if has_shape(kind, path) {
        match pattern(kind) {
            Some(p) => regex_captures(p, path),
            None => None,
        }
    } else {
        None
    }
}

/// Text of capture group `i`, if the match has such a group and it took part.
pub open spec fn group(groups: Seq<Option<Seq<char>>>, i: int) -> Option<Seq<char>> {
    if 0 <= i < groups.len() {
        groups[i]
    } else {
        None
    }
}

/// The descriptor that a match with capture groups `groups` stands for under
/// the rule of `kind`: a tarball takes package and version from the first two
/// groups; a binary takes R release, package and version from the first
/// three; an index takes nothing. There is none where a group that the kind
/// calls for took no part in the match, nor for `Unknown`.
pub open spec fn descriptor(kind: ArtifactType, groups: Seq<Option<Seq<char>>>) -> Option<CranInfoView> {
    match kind {
        ArtifactType::SrcTar | ArtifactType::ArchiveTar => if group(groups, 1) is Some && group(groups, 2) is Some {
            Some(
                CranInfoView {
                    artifact_type: kind,
                    package: group(groups, 1),
                    version: group(groups, 2),
                    r_minor: None,
                    os: None,
                },
            )
        } else {
            None
        },
        ArtifactType::WinZip | ArtifactType::MacTgz => if group(groups, 1) is Some && group(groups, 2) is Some
            && group(groups, 3) is Some {
            Some(
                CranInfoView {
                    artifact_type: kind,
                    package: group(groups, 2),
                    version: group(groups, 3),
                    r_minor: group(groups, 1),
                    os: Some(if kind == ArtifactType::WinZip { "windows"@ } else { "macos"@ }),
                },
            )
        } else {
            None
        },
        ArtifactType::IndexRds | ArtifactType::IndexGz | ArtifactType::IndexText => Some(CranInfoView::bare(kind)),
        ArtifactType::Unknown => None,
    }
}

/// The descriptor that the rule of `kind` gives `path`, or `None` where the
/// rule does not match: the path must have the rule's shape, the expression
/// must match it, and the groups that the kind calls for must be captured.
pub open spec fn rule_descriptor(kind: ArtifactType, path: Seq<char>) -> Option<CranInfoView> {
    match rule_groups(kind, path) {
        Some(groups) => descriptor(kind, groups),
        None => None,
    }
}

/// Whether the rule of `kind` matches `path`.
pub open spec fn rule_matches(kind: ArtifactType, path: Seq<char>) -> bool {
    rule_descriptor(kind, path) is Some
}

/// The descriptor of `path`: that of the first rule, in rank order, that
/// matches it.
pub open spec fn classification(path: Seq<char>) -> CranInfoView {
    if rule_matches(ArtifactType::SrcTar, path) {
        rule_descriptor(ArtifactType::SrcTar, path).unwrap()
    } else if rule_matches(ArtifactType::ArchiveTar, path) {
        rule_descriptor(ArtifactType::ArchiveTar, path).unwrap()
    } else if rule_matches(ArtifactType::WinZip, path) {
        rule_descriptor(ArtifactType::WinZip, path).unwrap()
    } else if rule_matches(ArtifactType::MacTgz, path) {
        rule_descriptor(ArtifactType::MacTgz, path).unwrap()
    } else if rule_matches(ArtifactType::IndexRds, path) {
        rule_descriptor(ArtifactType::IndexRds, path).unwrap()
    } else if rule_matches(ArtifactType::IndexGz, path) {
        rule_descriptor(ArtifactType::IndexGz, path).unwrap()
    } else if rule_matches(ArtifactType::IndexText, path) {
        rule_descriptor(ArtifactType::IndexText, path).unwrap()
    } else {
        CranInfoView::bare(ArtifactType::Unknown)
    }
}

/// Copies capture group `i` out of a match.
fn group_text(groups: &Vec<Option<String>>, i: usize) -> (text: Option<String>)
    ensures
        text.deep_view() == group(groups.deep_view(), i as int),
{
    if i < groups.len() {
        match &groups[i] {
            Some(s) => Some(s.clone()),
            None => None,
        }
    } else {
        None
    }
}

/// Builds the descriptor for a match of the rule of `kind`.
///
/// `groups` are the capture groups of that match, the whole match first.
/// There is no descriptor where a group that the kind calls for is missing,
/// so that a descriptor is never half filled.
pub fn describe(kind: ArtifactType, groups: &Vec<Option<String>>) -> (found: Option<CranInfo>)
    ensures
        match found {
            Some(info) => descriptor(kind, groups.deep_view()) == Some(info@),
            None => descriptor(kind, groups.deep_view()) is None,
        },
{
    match kind {
        ArtifactType::SrcTar | ArtifactType::ArchiveTar => {
            match (group_text(groups, 1), group_text(groups, 2)) {
                (Some(package), Some(version)) => Some(
                    CranInfo {
                        artifact_type: kind,
                        package: Some(package),
                        version: Some(version),
                        r_minor: None,
                        os: None,
                    },
                ),
                _ => None,
            }
        },
        ArtifactType::WinZip | ArtifactType::MacTgz => {
            let os = match kind {
                ArtifactType::WinZip => "windows",
                _ => "macos",
            };
            match (group_text(groups, 1), group_text(groups, 2), group_text(groups, 3)) {
                (Some(r_minor), Some(package), Some(version)) => Some(
                    CranInfo {
                        artifact_type: kind,
                        package: Some(package),
                        version: Some(version),
                        r_minor: Some(r_minor),
                        os: Some(os.to_owned()),
                    },
                ),
                _ => None,
            }
        },
        ArtifactType::IndexRds | ArtifactType::IndexGz | ArtifactType::IndexText => Some(CranInfo::bare(kind)),
        ArtifactType::Unknown => None,
    }
}

/// The expression of the rule that yields `kind`.
fn pattern_of(kind: ArtifactType) -> (p: Option<&'static str>)
    ensures
        p.deep_view() == pattern(kind),
{
    match kind {
        ArtifactType::SrcTar => Some(SRC_TAR_PATTERN),
        ArtifactType::ArchiveTar => Some(ARCHIVE_TAR_PATTERN),
        ArtifactType::WinZip => Some(WIN_ZIP_PATTERN),
        ArtifactType::MacTgz => Some(MAC_TGZ_PATTERN),
        ArtifactType::IndexRds => Some(INDEX_RDS_PATTERN),
        ArtifactType::IndexGz => Some(INDEX_GZ_PATTERN),
        ArtifactType::IndexText => Some(INDEX_TEXT_PATTERN),
        ArtifactType::Unknown => None,
    }
}

/// Tests a path for the shape of the rule that yields `kind`.
pub fn shaped(kind: ArtifactType, path: &str) -> (yes: bool)
    ensures
        yes == has_shape(kind, path@),
{
    let bytes = path.as_bytes();
    match kind {
        ArtifactType::SrcTar => {
            let dir = SRC_DIR.as_bytes();
            has_prefix(bytes, dir) && has_suffix(bytes, TARBALL_SUFFIX.as_bytes()) && is_single_segment(
                bytes,
                dir.len(),
            )
        },
        ArtifactType::ArchiveTar => has_prefix(bytes, ARCHIVE_DIR.as_bytes()) && has_suffix(
            bytes,
            TARBALL_SUFFIX.as_bytes(),
        ),
        ArtifactType::WinZip => has_prefix(bytes, WINDOWS_DIR.as_bytes()) && has_suffix(
            bytes,
            ZIP_SUFFIX.as_bytes(),
        ),
        ArtifactType::MacTgz => has_prefix(bytes, MACOS_DIR.as_bytes()) && has_suffix(
            bytes,
            TGZ_SUFFIX.as_bytes(),
        ),
        ArtifactType::IndexRds => has_suffix(bytes, INDEX_RDS_NAME.as_bytes()),
        ArtifactType::IndexGz => has_suffix(bytes, INDEX_GZ_NAME.as_bytes()),
        ArtifactType::IndexText => has_suffix(bytes, INDEX_TEXT_NAME.as_bytes()),
        ArtifactType::Unknown => false,
    }
}

/// Tries one rule on a path: the descriptor if the rule matches.
pub fn try_rule(kind: ArtifactType, path: &str) -> (found: Option<CranInfo>)
    ensures
        match found {
            Some(info) => rule_descriptor(kind, path@) == Some(info@),
            None => !rule_matches(kind, path@),
        },
{
    if !shaped(kind, path) {
        return None;
    }
    match pattern_of(kind) {
        Some(p) => match captures(p, path) {
            Some(groups) => describe(kind, &groups),
            None => None,
        },
        None => None,
    }
}

/// Classifies a request path.
///
/// Total: every string has a descriptor, `Unknown` with empty fields where no
/// rule matches. The result depends on the path alone, and it is never half
/// filled.
pub fn parse_cran(path: &str) -> (info: CranInfo)
    ensures
        info@ == classification(path@),
        info@.well_formed(),
{
    proof {
        lemma_well_formed(path@);
    }
    if let Some(info) = try_rule(ArtifactType::SrcTar, path) {
        return info;
    }
    if let Some(info) = try_rule(ArtifactType::ArchiveTar, path) {
        return info;
    }
    if let Some(info) = try_rule(ArtifactType::WinZip, path) {
        return info;
    }
    if let Some(info) = try_rule(ArtifactType::MacTgz, path) {
        return info;
    }
    if let Some(info) = try_rule(ArtifactType::IndexRds, path) {
        return info;
    }
    if let Some(info) = try_rule(ArtifactType::IndexGz, path) {
        return info;
    }
    if let Some(info) = try_rule(ArtifactType::IndexText, path) {
        return info;
    }
    CranInfo::bare(ArtifactType::Unknown)
}

/// What a rule yields is of the rule's kind and names exactly what the kind
/// calls for.
pub proof fn lemma_rule_descriptor_well_formed(kind: ArtifactType, path: Seq<char>)
    requires
        rule_matches(kind, path),
    ensures
        rule_descriptor(kind, path).unwrap().artifact_type == kind,
        rule_descriptor(kind, path).unwrap().well_formed(),
        has_shape(kind, path),
{
}

/// Every path's descriptor names exactly what its kind calls for: there is no
/// partial match.
pub proof fn lemma_well_formed(path: Seq<char>)
    ensures
        classification(path).well_formed(),
{
    lemma_kind_of_classification(path);
}

/// The bytes of the literals that the shapes are made of.
proof fn lemma_literal_bytes()
    ensures
        is_ascii_chars(SRC_DIR@) && SRC_DIR@.len() == 13,
        is_ascii_chars(ARCHIVE_DIR@) && ARCHIVE_DIR@.len() == 21 && ARCHIVE_DIR@[20] == '/',
        is_ascii_chars(TARBALL_SUFFIX@) && TARBALL_SUFFIX@.len() == 7,
        TARBALL_SUFFIX@[6] == 'z' && TARBALL_SUFFIX@[4] == '.' && TARBALL_SUFFIX@[3] == 'r',
        is_ascii_chars(ZIP_SUFFIX@) && ZIP_SUFFIX@.len() == 4 && ZIP_SUFFIX@[3] == 'p',
        is_ascii_chars(TGZ_SUFFIX@) && TGZ_SUFFIX@.len() == 4 && TGZ_SUFFIX@[3] == 'z' && TGZ_SUFFIX@[1] == 't',
        is_ascii_chars(INDEX_RDS_NAME@) && INDEX_RDS_NAME@.len() == 13 && INDEX_RDS_NAME@[12] == 's',
        is_ascii_chars(INDEX_GZ_NAME@) && INDEX_GZ_NAME@.len() == 12,
        INDEX_GZ_NAME@[11] == 'z' && INDEX_GZ_NAME@[9] == '.' && INDEX_GZ_NAME@[8] == 'S',
        is_ascii_chars(INDEX_TEXT_NAME@) && INDEX_TEXT_NAME@.len() == 9 && INDEX_TEXT_NAME@[8] == 'S',
{
    reveal_strlit("/src/contrib/");
    reveal_strlit("/src/contrib/Archive/");
    reveal_strlit(".tar.gz");
    reveal_strlit(".zip");
    reveal_strlit(".tgz");
    reveal_strlit("/PACKAGES.rds");
    reveal_strlit("/PACKAGES.gz");
    reveal_strlit("/PACKAGES");
}

/// The last byte of a path that has the shape of `kind`, and for the shapes
/// that end alike the bytes that tell them apart.
proof fn lemma_shape_tail(kind: ArtifactType, path: Seq<char>)
    requires
        has_shape(kind, path),
    ensures
        ({
            let bytes = encode_utf8(path);
            let n = bytes.len() as int;
            match kind {
                ArtifactType::SrcTar => n >= 13 && bytes[n - 1] == 122 && bytes[n - 3] == 46 && bytes[n - 4] == 114
                    && single_segment(bytes, 13),
                ArtifactType::ArchiveTar => n >= 21 && bytes[n - 1] == 122 && bytes[n - 3] == 46 && bytes[n - 4]
                    == 114 && bytes[20] == SLASH,
                ArtifactType::WinZip => n >= 4 && bytes[n - 1] == 112,
                ArtifactType::MacTgz => n >= 4 && bytes[n - 1] == 122 && bytes[n - 3] == 116,
                ArtifactType::IndexRds => n >= 13 && bytes[n - 1] == 115,
                ArtifactType::IndexGz => n >= 12 && bytes[n - 1] == 122 && bytes[n - 3] == 46 && bytes[n - 4] == 83,
                ArtifactType::IndexText => n >= 9 && bytes[n - 1] == 83,
                ArtifactType::Unknown => false,
            }
        }),
{
    lemma_literal_bytes();
    let bytes = encode_utf8(path);
    match kind {
        ArtifactType::SrcTar => {
            is_ascii_chars_encode_utf8(SRC_DIR@);
            is_ascii_chars_encode_utf8(TARBALL_SUFFIX@);
            let ending = encode_utf8(TARBALL_SUFFIX@);
            lemma_suffix_byte(bytes, ending, 1);
            lemma_suffix_byte(bytes, ending, 3);
            lemma_suffix_byte(bytes, ending, 4);
        },
        ArtifactType::ArchiveTar => {
            is_ascii_chars_encode_utf8(ARCHIVE_DIR@);
            is_ascii_chars_encode_utf8(TARBALL_SUFFIX@);
            let ending = encode_utf8(TARBALL_SUFFIX@);
            lemma_suffix_byte(bytes, ending, 1);
            lemma_suffix_byte(bytes, ending, 3);
            lemma_suffix_byte(bytes, ending, 4);
            lemma_prefix_byte(bytes, encode_utf8(ARCHIVE_DIR@), 20);
        },
        ArtifactType::WinZip => {
            is_ascii_chars_encode_utf8(ZIP_SUFFIX@);
            lemma_suffix_byte(bytes, encode_utf8(ZIP_SUFFIX@), 1);
        },
        ArtifactType::MacTgz => {
            is_ascii_chars_encode_utf8(TGZ_SUFFIX@);
            lemma_suffix_byte(bytes, encode_utf8(TGZ_SUFFIX@), 1);
            lemma_suffix_byte(bytes, encode_utf8(TGZ_SUFFIX@), 3);
        },
        ArtifactType::IndexRds => {
            is_ascii_chars_encode_utf8(INDEX_RDS_NAME@);
            lemma_suffix_byte(bytes, encode_utf8(INDEX_RDS_NAME@), 1);
        },
        ArtifactType::IndexGz => {
            is_ascii_chars_encode_utf8(INDEX_GZ_NAME@);
            let ending = encode_utf8(INDEX_GZ_NAME@);
            lemma_suffix_byte(bytes, ending, 1);
            lemma_suffix_byte(bytes, ending, 3);
            lemma_suffix_byte(bytes, ending, 4);
        },
        ArtifactType::IndexText => {
            is_ascii_chars_encode_utf8(INDEX_TEXT_NAME@);
            lemma_suffix_byte(bytes, encode_utf8(INDEX_TEXT_NAME@), 1);
        },
        ArtifactType::Unknown => {},
    }
}

/// The shapes are disjoint: no path has the shape of two kinds.
pub proof fn lemma_shapes_disjoint(path: Seq<char>, a: ArtifactType, b: ArtifactType)
    requires
        has_shape(a, path),
        has_shape(b, path),
    ensures
        a == b,
{
    lemma_shape_tail(a, path);
    lemma_shape_tail(b, path);
}

/// The rules are disjoint: no path is matched by two of them.
pub proof fn lemma_rules_disjoint(path: Seq<char>, a: ArtifactType, b: ArtifactType)
    requires
        rule_matches(a, path),
        rule_matches(b, path),
    ensures
        a == b,
{
    lemma_shapes_disjoint(path, a, b);
}

/// A path that the source-tarball rule matches is classified `SrcTar`, with
/// the package and the version that the expression captured and no R release
/// or operating system.
pub proof fn lemma_src_tar_populated(path: Seq<char>)
    requires
        rule_matches(ArtifactType::SrcTar, path),
    ensures
        ({
            let groups = regex_captures(SRC_TAR_PATTERN@, path).unwrap();
            &&& group(groups, 1) is Some
            &&& group(groups, 2) is Some
            &&& classification(path) == (CranInfoView {
                artifact_type: ArtifactType::SrcTar,
                package: Some(group(groups, 1).unwrap()),
                version: Some(group(groups, 2).unwrap()),
                r_minor: None,
                os: None,
            })
        }),
{
}

/// First match wins: a path is given kind `kind` exactly when the rule of
/// `kind` matches it (for `Unknown`: always) and no rule of lower rank does.
/// In particular a path that the source-tarball rule matches is never
/// resolved by the archive rule.
pub proof fn lemma_first_match_wins(path: Seq<char>, kind: ArtifactType)
    ensures
        classification(path).artifact_type == kind <==> {
            &&& kind != ArtifactType::Unknown ==> rule_matches(kind, path)
            &&& forall|earlier: ArtifactType| earlier.rank() < kind.rank() ==> !#[trigger] rule_matches(earlier, path)
        },
        rule_matches(ArtifactType::SrcTar, path) ==> classification(path).artifact_type == ArtifactType::SrcTar,
{
    lemma_kind_of_classification(path);
    let found = classification(path).artifact_type;
    if found != kind {
        if found.rank() < kind.rank() {
            assert(rule_matches(found, path));
        }
    }
}

/// The kind of a path's descriptor is that of the rule that yielded it, or
/// `Unknown` where none did; either way the descriptor is well formed.
proof fn lemma_kind_of_classification(path: Seq<char>)
    ensures
        ({
            let kind = classification(path).artifact_type;
            &&& kind != ArtifactType::Unknown ==> rule_matches(kind, path) && classification(path) == rule_descriptor(
                kind,
                path,
            ).unwrap()
            &&& forall|earlier: ArtifactType| earlier.rank() < kind.rank() ==> !#[trigger] rule_matches(earlier, path)
            &&& classification(path).well_formed()
        }),
{
    if rule_matches(ArtifactType::SrcTar, path) {
        lemma_rule_descriptor_well_formed(ArtifactType::SrcTar, path);
    } else if rule_matches(ArtifactType::ArchiveTar, path) {
        lemma_rule_descriptor_well_formed(ArtifactType::ArchiveTar, path);
    } else if rule_matches(ArtifactType::WinZip, path) {
        lemma_rule_descriptor_well_formed(ArtifactType::WinZip, path);
    } else if rule_matches(ArtifactType::MacTgz, path) {
        lemma_rule_descriptor_well_formed(ArtifactType::MacTgz, path);
    } else if rule_matches(ArtifactType::IndexRds, path) {
        lemma_rule_descriptor_well_formed(ArtifactType::IndexRds, path);
    } else if rule_matches(ArtifactType::IndexGz, path) {
        lemma_rule_descriptor_well_formed(ArtifactType::IndexGz, path);
    } else if rule_matches(ArtifactType::IndexText, path) {
        lemma_rule_descriptor_well_formed(ArtifactType::IndexText, path);
    } else {
        assert(!rule_matches(ArtifactType::Unknown, path));
    }
}

/// As the rules are disjoint, the order in which they are tried decides
/// nothing: a path is given a kind other than `Unknown` exactly when the rule
/// of that kind matches it, and its descriptor is the one that rule yields.
/// Such a path has the shape of its kind.
pub proof fn lemma_classified_by_matching_rule(path: Seq<char>, kind: ArtifactType)
    requires
        kind != ArtifactType::Unknown,
    ensures
        classification(path).artifact_type == kind <==> rule_matches(kind, path),
        rule_matches(kind, path) ==> rule_descriptor(kind, path) == Some(classification(path)) && has_shape(
            kind,
            path,
        ),
{
    lemma_kind_of_classification(path);
    let found = classification(path).artifact_type;
    if rule_matches(kind, path) && found != ArtifactType::Unknown {
        lemma_rules_disjoint(path, kind, found);
    }
}

/// A path that none of the rules matches is `Unknown` with every optional
/// field empty, and only such a path is `Unknown`.
pub proof fn lemma_unmatched_is_unknown(path: Seq<char>)
    ensures
        (forall|kind: ArtifactType| !#[trigger] rule_matches(kind, path)) <==> classification(path).artifact_type
            == ArtifactType::Unknown,
        classification(path).artifact_type == ArtifactType::Unknown ==> classification(path) == CranInfoView::bare(
            ArtifactType::Unknown,
        ),
{
    lemma_kind_of_classification(path);
    if classification(path).artifact_type == ArtifactType::Unknown {
        assert forall|kind: ArtifactType| !#[trigger] rule_matches(kind, path) by {
            if kind != ArtifactType::Unknown {
                assert(kind.rank() < ArtifactType::Unknown.rank());
            }
        }
    }
}

} // verus!
