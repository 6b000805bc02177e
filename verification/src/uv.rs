//! Where `uv` comes from: releases, their manifest, and which binary is good enough.

use vstd::prelude::*;

use crate::env_vars::{UV_ASTRAL_MIRROR_URL, UV_CACHE_DIR};
use crate::paths::{program_file, EnvPath};
use crate::process::{from_utf8_lossy, Cmd};
use crate::store::Store;
use crate::text::{
    decimal_text, ends_with, joined, same, split, split_whitespace, starts_with, strip_prefix, trim,
    trim_end_matches,
};
use crate::version::{parse_requirement, parse_version, requirement_matches, Version};

verus! {

/// The version of `uv` that is installed.
pub const CUR_UV_VERSION: &'static str = "0.11.19";

pub const ASTRAL_BASE_URL: &'static str = "https://releases.astral.sh";

pub const GITHUB_UV_RELEASES_URL_PREFIX: &'static str =
    "https://github.com/astral-sh/uv/releases/download/";

pub const ASTRAL_UV_RELEASES_PATH: &'static str = "/github/uv/releases/download/";

pub const UV_MANIFEST_PATH: &'static str = "/github/versions/main/v1/uv.ndjson";

/// A variable that once chose where `uv` is installed from.
pub const PREK_UV_SOURCE: &'static str = "PREK_UV_SOURCE";

/// The versions of `uv` that are good enough.
pub const UV_VERSION_RANGE: &'static str = ">=0.7.0";

/// The archive format of releases, which is another one on Windows.
pub open spec fn archive_format_text(windows: bool) -> Seq<char> {
    if windows {
        "zip"@
    } else {
        "tar.gz"@
    }
}

/// The archive format of releases.
pub fn uv_archive_format(windows: bool) -> (r: &'static str)
    ensures
        r@ == archive_format_text(windows),
{
    if windows {
        "zip"
    } else {
        "tar.gz"
    }
}

/// A place that releases are downloaded from.
#[derive(Debug, PartialEq, Eq)]
pub struct AstralSource {
    pub base_url: String,
}

impl Default for AstralSource {
    fn default() -> (r: AstralSource)
        ensures
            r.base_url@ == ASTRAL_BASE_URL@,
    {
        AstralSource { base_url: ASTRAL_BASE_URL.to_owned() }
    }
}

/// A mirror was configured without an address.
#[derive(Debug, Copy, Clone, PartialEq, Eq, Structural)]
pub struct EmptyMirror;

impl EmptyMirror {
    /// The error in words.
    pub fn message(&self) -> (r: String)
        ensures
            r@ == UV_ASTRAL_MIRROR_URL@ + " must not be empty"@,
    {
        joined(UV_ASTRAL_MIRROR_URL, " must not be empty")
    }
}

/// Why the address of an artifact cannot be used.
#[derive(Debug, Copy, Clone, PartialEq, Eq, Structural)]
pub enum ArtifactUrlError {
    /// It is at the releases host, but no release of `uv`.
    NotUvRelease,
    /// It is at another place.
    UnsupportedSource,
}

impl ArtifactUrlError {
    /// The error in words.
    pub open spec fn text(self) -> Seq<char> {
        match self {
            ArtifactUrlError::NotUvRelease =>
                "uv manifest artifact URL is not an Astral uv release URL"@,
            ArtifactUrlError::UnsupportedSource =>
                "uv manifest artifact URL is not under a supported source"@,
        }
    }

    /// The error in words.
    pub fn message(&self) -> (r: String)
        ensures
            r@ == self.text(),
    {
        match self {
            ArtifactUrlError::NotUvRelease =>
                "uv manifest artifact URL is not an Astral uv release URL".to_owned(),
            ArtifactUrlError::UnsupportedSource =>
                "uv manifest artifact URL is not under a supported source".to_owned(),
        }
    }
}

/// An artifact of a release.
#[derive(Debug, PartialEq, Eq)]
pub struct UvArtifact {
    pub platform: String,
    pub variant: String,
    pub url: String,
    pub archive_format: String,
}

/// The contents of a [`UvArtifact`].
pub struct UvArtifactView {
    pub platform: Seq<char>,
    pub variant: Seq<char>,
    pub url: Seq<char>,
    pub archive_format: Seq<char>,
}

impl View for UvArtifact {
    type V = UvArtifactView;

    open spec fn view(&self) -> UvArtifactView {
        UvArtifactView {
            platform: self.platform@,
            variant: self.variant@,
            url: self.url@,
            archive_format: self.archive_format@,
        }
    }
}

impl UvArtifactView {
    /// `uv-<platform>.<archive format>`
    pub open spec fn archive_name(self) -> Seq<char> {
        "uv-"@ + self.platform + "."@ + self.archive_format
    }

    /// The path of the artifact below a releases host.
    ///
    /// An address at the host itself keeps its path, which has to be one of a
    /// release of `uv`. One of a release on GitHub has the same path there.
    pub open spec fn astral_path(self) -> Result<Seq<char>, ArtifactUrlError> {
        let at_host = self.url.skip(ASTRAL_BASE_URL@.len() as int);
        if ASTRAL_BASE_URL@.is_prefix_of(self.url) && "/"@.is_prefix_of(at_host) {
            if ASTRAL_UV_RELEASES_PATH@.is_prefix_of(at_host) {
                Ok(at_host)
            } else {
                Err(ArtifactUrlError::NotUvRelease)
            }
        } else if GITHUB_UV_RELEASES_URL_PREFIX@.is_prefix_of(self.url) {
            Ok(
                ASTRAL_UV_RELEASES_PATH@ + self.url.skip(
                    GITHUB_UV_RELEASES_URL_PREFIX@.len() as int,
                ),
            )
        } else {
            Err(ArtifactUrlError::UnsupportedSource)
        }
    }

    /// Whether this is the default artifact of a version for a platform, in an
    /// archive format, and its address ends as that of such an artifact does.
    pub open spec fn matches(
        self,
        version: Seq<char>,
        platform: Seq<char>,
        archive_format: Seq<char>,
    ) -> bool {
        &&& self.platform == platform
        &&& self.variant == "default"@
        &&& self.archive_format == archive_format
        &&& ("/"@ + version + "/"@ + self.archive_name()).is_suffix_of(self.url)
    }
}

/// The contents of a text, or an error.
pub open spec fn text_result<E>(r: Result<String, E>) -> Result<Seq<char>, E> {
    match r {
        Ok(text) => Ok(text@),
        Err(error) => Err(error),
    }
}

impl UvArtifact {
    /// The name of the archive.
    pub fn archive_name(&self) -> (r: String)
        ensures
            r@ == self@.archive_name(),
    {
        let mut name: String = joined("uv-", self.platform.as_str());
        name.append(".");
        name.append(self.archive_format.as_str());
        name
    }

    /// The path of the artifact below a releases host.
    pub fn astral_path(&self) -> (r: Result<String, ArtifactUrlError>)
        ensures
            text_result(r) == self@.astral_path(),
    {
        let url: &str = self.url.as_str();
        match strip_prefix(url, ASTRAL_BASE_URL) {
            Some(path) => {
                assert(url@.skip(ASTRAL_BASE_URL@.len() as int) == path@);
                if starts_with(path.as_str(), "/") {
                    if !starts_with(path.as_str(), ASTRAL_UV_RELEASES_PATH) {
                        return Err(ArtifactUrlError::NotUvRelease);
                    }
                    return Ok(path);
                }
            },
            None => {},
        }
        match strip_prefix(url, GITHUB_UV_RELEASES_URL_PREFIX) {
            Some(path) => {
                assert(url@.skip(GITHUB_UV_RELEASES_URL_PREFIX@.len() as int) == path@);
                Ok(joined(ASTRAL_UV_RELEASES_PATH, path.as_str()))
            },
            None => Err(ArtifactUrlError::UnsupportedSource),
        }
    }

    /// Whether this is the default artifact of a version for a platform, in an
    /// archive format, at an address that ends as it should.
    pub fn matches(&self, version: &str, platform: &str, archive_format: &str) -> (r: bool)
        ensures
            r == self@.matches(version@, platform@, archive_format@),
    {
        let mut expected_suffix: String = joined("/", version);
        expected_suffix.append("/");
        expected_suffix.append(self.archive_name().as_str());
        same(self.platform.as_str(), platform) && same(self.variant.as_str(), "default") && same(
            self.archive_format.as_str(),
            archive_format,
        ) && ends_with(self.url.as_str(), expected_suffix.as_str())
    }

    /// The same artifact.
    pub fn copy(&self) -> (r: UvArtifact)
        ensures
            r@ == self@,
    {
        UvArtifact {
            platform: self.platform.clone(),
            variant: self.variant.clone(),
            url: self.url.clone(),
            archive_format: self.archive_format.clone(),
        }
    }
}

/// The address of an artifact below a base address.
pub open spec fn download_address(base_url: Seq<char>, artifact: UvArtifactView) -> Result<
    Seq<char>,
    ArtifactUrlError,
> {
    match artifact.astral_path() {
        Ok(path) => Ok(base_url + path),
        Err(error) => Err(error),
    }
}

impl AstralSource {
    /// A mirror of the releases host. Slashes at the end of its address do not
    /// count.
    pub fn mirror(base_url: &str) -> (r: Result<AstralSource, EmptyMirror>)
        ensures
            r is Err <==> crate::text::without_trailing(base_url@, '/').len() == 0,
            r matches Ok(source) ==> source.base_url@ == crate::text::without_trailing(
                base_url@,
                '/',
            ),
    {
        let base_url: String = trim_end_matches(base_url, '/');
        if base_url.as_str().is_empty() {
            return Err(EmptyMirror);
        }
        Ok(AstralSource { base_url })
    }

    /// The address of a path.
    pub fn url(&self, path: &str) -> (r: String)
        ensures
            r@ == self.base_url@ + path@,
    {
        joined(self.base_url.as_str(), path)
    }

    /// The address of the manifest of all versions.
    pub fn manifest_url(&self) -> (r: String)
        ensures
            r@ == self.base_url@ + UV_MANIFEST_PATH@,
    {
        self.url(UV_MANIFEST_PATH)
    }

    /// The address of an artifact.
    pub fn download_url(&self, artifact: &UvArtifact) -> (r: Result<String, ArtifactUrlError>)
        ensures
            text_result(r) == download_address(self.base_url@, artifact@),
    {
        match artifact.astral_path() {
            Ok(path) => Ok(self.url(path.as_str())),
            Err(error) => Err(error),
        }
    }
}

/// The source that is configured: a mirror, or the releases host itself.
pub fn astral_source_from_mirror_url(mirror_url: Option<String>) -> (r: Result<
    AstralSource,
    EmptyMirror,
>)
    ensures
        (match mirror_url {
            Some(url) => {
                &&& r is Err <==> crate::text::without_trailing(url@, '/').len() == 0
                &&& r matches Ok(source) ==> source.base_url@ == crate::text::without_trailing(
                    url@,
                    '/',
                )
            },
            None => r matches Ok(source) && source.base_url@ == ASTRAL_BASE_URL@,
        }),
{
    match mirror_url {
        Some(mirror_url) => AstralSource::mirror(mirror_url.as_str()),
        None => Ok(AstralSource::default()),
    }
}

/// A line of the manifest: its number, counted from one, and its text without
/// the white space around it.
#[derive(Debug, PartialEq, Eq)]
pub struct ManifestLine {
    pub number: usize,
    pub text: String,
}

/// The numbers and texts of a list of lines.
pub open spec fn line_texts(lines: Seq<ManifestLine>) -> Seq<(int, Seq<char>)> {
    lines.map_values(|line: ManifestLine| (line.number as int, line.text@))
}

/// The lines that are not blank, trimmed, each with its number.
pub open spec fn numbered_lines(lines: Seq<Seq<char>>) -> Seq<(int, Seq<char>)>
    decreases lines.len(),
{
    if lines.len() == 0 {
        Seq::empty()
    } else {
        let before = numbered_lines(lines.drop_last());
        let text = crate::text::trimmed(lines.last());
        if text.len() == 0 {
            before
        } else {
            before.push((lines.len() as int, text))
        }
    }
}

/// The lines of a manifest that are not blank. Each describes a version.
pub fn manifest_lines(manifest: &str) -> (r: Vec<ManifestLine>)
    ensures
        line_texts(r@) == numbered_lines(crate::text::pieces(manifest@, '\n')),
{
    let lines: Vec<String> = split(manifest, '\n');
    let ghost all = crate::text::texts(lines@);
    let mut kept: Vec<ManifestLine> = Vec::new();
    assert(line_texts(kept@) == numbered_lines(all.take(0)));
    for i in 0..lines.len()
        invariant
            all == crate::text::texts(lines@),
            line_texts(kept@) == numbered_lines(all.take(i as int)),
    {
        let text: String = trim(lines[i].as_str());
        assert(all.take(i + 1).drop_last() == all.take(i as int));
        assert(all.take(i + 1).last() == lines@[i as int]@);
        if !text.as_str().is_empty() {
            let ghost before = kept@;
            let ghost shown = text@;
            kept.push(ManifestLine { number: i + 1, text });
            assert(line_texts(kept@) == line_texts(before).push((i + 1, shown)));
        }
    }
    assert(all.take(all.len() as int) == all);
    kept
}

/// A version in the manifest, with its artifacts.
#[derive(Debug, PartialEq, Eq)]
pub struct UvVersionManifest {
    pub version: String,
    pub artifacts: Vec<UvArtifact>,
}

/// A line of the manifest, and the version that it describes, or why it could
/// not be read.
#[derive(Debug, PartialEq, Eq)]
pub struct ManifestEntry {
    pub line: usize,
    pub release: Result<UvVersionManifest, String>,
}

/// Why the manifest gives no artifact.
#[derive(Debug, PartialEq, Eq)]
pub enum ManifestError {
    /// A line could not be read.
    Parse { line: usize, cause: String },
    /// The version is there, but not the artifact.
    MissingArtifact { version: String, platform: String, archive_format: String },
    /// The version is not there.
    MissingVersion { version: String },
}

/// The contents of a [`ManifestError`].
pub enum ManifestErrorView {
    Parse { line: int, cause: Seq<char> },
    MissingArtifact { version: Seq<char>, platform: Seq<char>, archive_format: Seq<char> },
    MissingVersion { version: Seq<char> },
}

impl View for ManifestError {
    type V = ManifestErrorView;

    open spec fn view(&self) -> ManifestErrorView {
        match self {
            ManifestError::Parse { line, cause } => ManifestErrorView::Parse {
                line: *line as int,
                cause: cause@,
            },
            ManifestError::MissingArtifact { version, platform, archive_format } =>
                ManifestErrorView::MissingArtifact {
                version: version@,
                platform: platform@,
                archive_format: archive_format@,
            },
            ManifestError::MissingVersion { version } => ManifestErrorView::MissingVersion {
                version: version@,
            },
        }
    }
}

impl ManifestErrorView {
    /// The error in words.
    pub open spec fn text(self) -> Seq<char> {
        match self {
            ManifestErrorView::Parse { line, .. } => "Failed to parse uv manifest line "@
                + crate::text::decimal(line as nat),
            ManifestErrorView::MissingArtifact { version, platform, archive_format } =>
                "Could not find uv "@ + version + " artifact for platform `"@ + platform
                + "` and archive format `"@ + archive_format
                + "` in Astral's versions manifest. Install a compatible system uv or set "@
                + UV_ASTRAL_MIRROR_URL@ + " to a mirror that provides the required artifact."@,
            ManifestErrorView::MissingVersion { version } => "Could not find uv "@ + version
                + " in Astral's versions manifest"@,
        }
    }
}

impl ManifestError {
    /// The error in words.
    pub fn message(&self) -> (r: String)
        ensures
            r@ == self@.text(),
    {
        match self {
            ManifestError::Parse { line, .. } => joined(
                "Failed to parse uv manifest line ",
                decimal_text(*line as u64).as_str(),
            ),
            ManifestError::MissingArtifact { version, platform, archive_format } => {
                let mut message: String = joined("Could not find uv ", version.as_str());
                message.append(" artifact for platform `");
                message.append(platform.as_str());
                message.append("` and archive format `");
                message.append(archive_format.as_str());
                message.append(
                    "` in Astral's versions manifest. Install a compatible system uv or set ",
                );
                message.append(UV_ASTRAL_MIRROR_URL);
                message.append(" to a mirror that provides the required artifact.");
                message
            },
            ManifestError::MissingVersion { version } => {
                let mut message: String = joined("Could not find uv ", version.as_str());
                message.append(" in Astral's versions manifest");
                message
            },
        }
    }
}

/// The first artifact that matches.
pub open spec fn first_match(
    artifacts: Seq<UvArtifact>,
    version: Seq<char>,
    platform: Seq<char>,
    archive_format: Seq<char>,
) -> Option<UvArtifactView>
    decreases artifacts.len(),
{
    if artifacts.len() == 0 {
        None
    } else if artifacts[0]@.matches(version, platform, archive_format) {
        Some(artifacts[0]@)
    } else {
        first_match(artifacts.drop_first(), version, platform, archive_format)
    }
}

/// The artifact that a manifest gives for a version and a platform, in an archive
/// format. The first line with that version decides; a line before it that could
/// not be read is an error.
pub open spec fn selected_artifact(
    entries: Seq<ManifestEntry>,
    version: Seq<char>,
    platform: Seq<char>,
    archive_format: Seq<char>,
) -> Result<UvArtifactView, ManifestErrorView>
    decreases entries.len(),
{
    if entries.len() == 0 {
        Err(ManifestErrorView::MissingVersion { version })
    } else {
        match entries[0].release {
            Err(cause) => Err(
                ManifestErrorView::Parse { line: entries[0].line as int, cause: cause@ },
            ),
            Ok(release) => if release.version@ != version {
                selected_artifact(entries.drop_first(), version, platform, archive_format)
            } else {
                match first_match(release.artifacts@, version, platform, archive_format) {
                    Some(artifact) => Ok(artifact),
                    None => Err(
                        ManifestErrorView::MissingArtifact { version, platform, archive_format },
                    ),
                }
            },
        }
    }
}

/// The contents of an artifact that was selected, or of the error in its place.
pub open spec fn artifact_result(r: Result<UvArtifact, ManifestError>) -> Result<
    UvArtifactView,
    ManifestErrorView,
> {
    match r {
        Ok(artifact) => Ok(artifact@),
        Err(error) => Err(error@),
    }
}

/// The first artifact that matches.
fn find_artifact(
    artifacts: &Vec<UvArtifact>,
    version: &str,
    platform: &str,
    archive_format: &str,
) -> (r: Option<UvArtifact>)
    ensures
        r is Some <==> first_match(artifacts@, version@, platform@, archive_format@) is Some,
        r matches Some(artifact) ==> first_match(
            artifacts@,
            version@,
            platform@,
            archive_format@,
        ) == Some(artifact@),
{
    assert(artifacts@.skip(0) == artifacts@);
    for i in 0..artifacts.len()
        invariant
            first_match(artifacts@.skip(i as int), version@, platform@, archive_format@)
                == first_match(artifacts@, version@, platform@, archive_format@),
    {
        assert(artifacts@.skip(i as int).drop_first() == artifacts@.skip(i + 1));
        if artifacts[i].matches(version, platform, archive_format) {
            return Some(artifacts[i].copy());
        }
    }
    None
}

/// The artifact that a manifest gives for a version and a platform, in an archive
/// format.
pub fn uv_artifact_from_manifest(
    manifest: &Vec<ManifestEntry>,
    version: &str,
    platform: &str,
    archive_format: &str,
) -> (r: Result<UvArtifact, ManifestError>)
    ensures
        artifact_result(r) == selected_artifact(manifest@, version@, platform@, archive_format@),
{
    assert(manifest@.skip(0) == manifest@);
    for i in 0..manifest.len()
        invariant
            selected_artifact(manifest@.skip(i as int), version@, platform@, archive_format@)
                == selected_artifact(manifest@, version@, platform@, archive_format@),
    {
        assert(manifest@.skip(i as int).drop_first() == manifest@.skip(i + 1));
        let entry: &ManifestEntry = &manifest[i];
        match &entry.release {
            Err(cause) => {
                return Err(ManifestError::Parse { line: entry.line, cause: cause.clone() });
            },
            Ok(release) => {
                if same(release.version.as_str(), version) {
                    return match find_artifact(
                        &release.artifacts,
                        version,
                        platform,
                        archive_format,
                    ) {
                        Some(artifact) => Ok(artifact),
                        None => Err(
                            ManifestError::MissingArtifact {
                                version: version.to_owned(),
                                platform: platform.to_owned(),
                                archive_format: archive_format.to_owned(),
                            },
                        ),
                    };
                }
            },
        }
    }
    Err(ManifestError::MissingVersion { version: version.to_owned() })
}

/// An archive to download.
#[derive(Debug, PartialEq, Eq)]
pub struct ArtifactDownload {
    pub url: String,
    pub archive_name: String,
}

/// Why there is nothing to download.
#[derive(Debug, PartialEq, Eq)]
pub enum DownloadError {
    /// The manifest could not be fetched.
    Status { status: String },
    /// The manifest gives no artifact.
    Manifest(ManifestError),
    /// The address of the artifact cannot be used.
    Url(ArtifactUrlError),
}

/// The contents of an [`ArtifactDownload`].
pub struct ArtifactDownloadView {
    pub url: Seq<char>,
    pub archive_name: Seq<char>,
}

/// The contents of a [`DownloadError`].
pub enum DownloadErrorView {
    Status { status: Seq<char> },
    Manifest(ManifestErrorView),
    Url(ArtifactUrlError),
}

impl View for DownloadError {
    type V = DownloadErrorView;

    open spec fn view(&self) -> DownloadErrorView {
        match self {
            DownloadError::Status { status } => DownloadErrorView::Status { status: status@ },
            DownloadError::Manifest(error) => DownloadErrorView::Manifest(error@),
            DownloadError::Url(error) => DownloadErrorView::Url(*error),
        }
    }
}

impl DownloadErrorView {
    /// The error in words.
    pub open spec fn text(self) -> Seq<char> {
        match self {
            DownloadErrorView::Status { status } => "Failed to fetch uv versions manifest: "@
                + status,
            DownloadErrorView::Manifest(error) => error.text(),
            DownloadErrorView::Url(error) => error.text(),
        }
    }
}

impl DownloadError {
    /// The error in words.
    pub fn message(&self) -> (r: String)
        ensures
            r@ == self@.text(),
    {
        match self {
            DownloadError::Status { status } => joined(
                "Failed to fetch uv versions manifest: ",
                status.as_str(),
            ),
            DownloadError::Manifest(error) => error.message(),
            DownloadError::Url(error) => error.message(),
        }
    }
}

/// The contents of a download that was chosen, or of the error in its place.
pub open spec fn download_result(r: Result<ArtifactDownload, DownloadError>) -> Result<
    ArtifactDownloadView,
    DownloadErrorView,
> {
    match r {
        Ok(download) => Ok(
            ArtifactDownloadView { url: download.url@, archive_name: download.archive_name@ },
        ),
        Err(error) => Err(error@),
    }
}

/// The download of the current version for a platform.
pub open spec fn chosen_download(
    base_url: Seq<char>,
    entries: Seq<ManifestEntry>,
    platform: Seq<char>,
    archive_format: Seq<char>,
) -> Result<ArtifactDownloadView, DownloadErrorView> {
    match selected_artifact(entries, CUR_UV_VERSION@, platform, archive_format) {
        Ok(artifact) => match download_address(base_url, artifact) {
            Ok(url) => Ok(ArtifactDownloadView { url, archive_name: artifact.archive_name() }),
            Err(error) => Err(DownloadErrorView::Url(error)),
        },
        Err(error) => Err(DownloadErrorView::Manifest(error)),
    }
}

/// The platform that this was built for, from `target_lexicon::HOST`. Nothing is
/// stated of the name, which differs from build to build.
#[verifier::external_body]
fn host_platform() -> (r: String) {
    target_lexicon::HOST.to_string()
}

impl AstralSource {
    /// Whether the manifest was fetched.
    pub fn check_response(success: bool, status: &str) -> (r: Result<(), DownloadError>)
        ensures
            r is Ok <==> success,
            r matches Err(error) ==> error@ == (DownloadErrorView::Status { status: status@ }),
    {
        if success {
            Ok(())
        } else {
            Err(DownloadError::Status { status: status.to_owned() })
        }
    }

    /// The download of the current version for a platform.
    pub fn download_for(
        &self,
        manifest: &Vec<ManifestEntry>,
        platform: &str,
        archive_format: &str,
    ) -> (r: Result<ArtifactDownload, DownloadError>)
        ensures
            download_result(r) == chosen_download(
                self.base_url@,
                manifest@,
                platform@,
                archive_format@,
            ),
    {
        let artifact: UvArtifact = match uv_artifact_from_manifest(
            manifest,
            CUR_UV_VERSION,
            platform,
            archive_format,
        ) {
            Ok(artifact) => artifact,
            Err(error) => {
                return Err(DownloadError::Manifest(error));
            },
        };
        let archive_name: String = artifact.archive_name();
        match self.download_url(&artifact) {
            Ok(url) => Ok(ArtifactDownload { url, archive_name }),
            Err(error) => Err(DownloadError::Url(error)),
        }
    }

    /// The download of the current version for the platform that this was built
    /// for, whichever that is.
    pub fn download_for_host(&self, manifest: &Vec<ManifestEntry>, windows: bool) -> (r: Result<
        ArtifactDownload,
        DownloadError,
    >)
        ensures
            exists|platform: Seq<char>|
                download_result(r) == #[trigger] chosen_download(
                    self.base_url@,
                    manifest@,
                    platform,
                    archive_format_text(windows),
                ),
    {
        let platform: String = host_platform();
        self.download_for(manifest, platform.as_str(), uv_archive_format(windows))
    }
}

/// Why a binary is not good enough.
#[derive(Debug, PartialEq, Eq)]
pub enum UvVersionError {
    /// It failed to say its version.
    Failed,
    /// What it said has no version in it.
    Format,
    /// What it said as its version is none.
    Version { message: String },
    /// Its version is out of range.
    OutOfRange { version: Version },
}

/// The contents of a [`UvVersionError`].
pub enum UvVersionErrorView {
    Failed,
    Format,
    Version { message: Seq<char> },
    OutOfRange { version: crate::version::VersionView },
}

impl View for UvVersionError {
    type V = UvVersionErrorView;

    open spec fn view(&self) -> UvVersionErrorView {
        match self {
            UvVersionError::Failed => UvVersionErrorView::Failed,
            UvVersionError::Format => UvVersionErrorView::Format,
            UvVersionError::Version { message } => UvVersionErrorView::Version {
                message: message@,
            },
            UvVersionError::OutOfRange { version } => UvVersionErrorView::OutOfRange {
                version: version@,
            },
        }
    }
}

impl UvVersionErrorView {
    /// The error in words.
    pub open spec fn text(self) -> Seq<char> {
        match self {
            UvVersionErrorView::Failed => "Failed to get uv version"@,
            UvVersionErrorView::Format => "Invalid version output format"@,
            UvVersionErrorView::Version { message } => message,
            UvVersionErrorView::OutOfRange { version } => "uv version `"@
                + crate::version::version_text(version) + "` does not satisfy required range `"@
                + UV_VERSION_RANGE@ + "`"@,
        }
    }
}

impl UvVersionError {
    /// The error in words.
    pub fn message(&self) -> (r: String)
        ensures
            r@ == self@.text(),
    {
        match self {
            UvVersionError::Failed => "Failed to get uv version".to_owned(),
            UvVersionError::Format => "Invalid version output format".to_owned(),
            UvVersionError::Version { message } => message.clone(),
            UvVersionError::OutOfRange { version } => {
                let mut text: String = joined("uv version `", version.text().as_str());
                text.append("` does not satisfy required range `");
                text.append(UV_VERSION_RANGE);
                text.append("`");
                text
            },
        }
    }
}

/// The contents of a version, or of the error in its place.
pub open spec fn uv_version_result(r: Result<Version, UvVersionError>) -> Result<
    crate::version::VersionView,
    UvVersionErrorView,
> {
    match r {
        Ok(version) => Ok(version@),
        Err(error) => Err(error@),
    }
}

/// The version that `uv --version` says: the second word of its output.
pub open spec fn stated_version(success: bool, output: Seq<char>) -> Result<
    crate::version::VersionView,
    UvVersionErrorView,
> {
    if !success {
        Err(UvVersionErrorView::Failed)
    } else if crate::text::words(output).len() < 2 {
        Err(UvVersionErrorView::Format)
    } else {
        match crate::version::semver_version(crate::text::words(output)[1]) {
            Ok(version) => Ok(version),
            Err(message) => Err(UvVersionErrorView::Version { message }),
        }
    }
}

/// Whether a release is the second word of an output.
pub open spec fn states_release(output: Seq<char>, release: crate::version::Release) -> bool {
    crate::text::words(output).len() > 1 && crate::text::words(output)[1]
        == crate::version::release_text(release)
}

/// The version that a text says, the output of `uv --version`.
pub fn uv_version_from_text(success: bool, output: &str) -> (r: Result<Version, UvVersionError>)
    ensures
        uv_version_result(r) == stated_version(success, output@),
        forall|release: crate::version::Release|
            success && #[trigger] states_release(output@, release) ==> uv_version_result(r)
                == Ok::<_, UvVersionErrorView>(crate::version::released(release)),
{
    if !success {
        return Err(UvVersionError::Failed);
    }
    let words: Vec<String> = split_whitespace(output);
    proof {
        assert(crate::text::texts(words@).len() == words@.len());
    }
    if words.len() < 2 {
        return Err(UvVersionError::Format);
    }
    assert(crate::text::texts(words@)[1] == words@[1]@);
    match parse_version(words[1].as_str()) {
        Ok(version) => Ok(version),
        Err(message) => Err(UvVersionError::Version { message }),
    }
}

/// The version that `uv --version` says.
pub fn get_uv_version(success: bool, stdout: &Vec<u8>) -> (r: Result<Version, UvVersionError>)
    ensures
        uv_version_result(r) == stated_version(success, crate::process::lossy_text(stdout@)),
        forall|release: crate::version::Release|
            success && #[trigger] states_release(crate::process::lossy_text(stdout@), release)
                ==> uv_version_result(r) == Ok::<_, UvVersionErrorView>(
                crate::version::released(release),
            ),
{
    let output: String = from_utf8_lossy(stdout.as_slice());
    uv_version_from_text(success, output.as_str())
}

/// The oldest release that is good enough.
pub open spec fn oldest_uv() -> crate::version::Release {
    crate::version::Release { major: 0, minor: 7, patch: 0 }
}

/// Whether a version is good enough: a release, the oldest one or a later one.
pub open spec fn uv_supported(version: crate::version::VersionView) -> bool {
    version.pre.len() == 0 && !version.release.precedes(oldest_uv())
}

/// The notation of the range, taken apart.
proof fn lemma_uv_version_range()
    ensures
        UV_VERSION_RANGE@ == crate::version::limits_text(
            seq![
                crate::version::Limit {
                    op: crate::version::Op::GreaterEq,
                    version: oldest_uv(),
                },
            ],
        ),
{
    reveal_strlit(">=0.7.0");
    reveal_with_fuel(crate::version::limits_text, 2);
    reveal_with_fuel(crate::text::decimal, 2);
    let list = seq![
        crate::version::Limit { op: crate::version::Op::GreaterEq, version: oldest_uv() },
    ];
    assert(UV_VERSION_RANGE@ == ">=0.7.0"@);
    assert(crate::version::release_text(oldest_uv()) == seq!['0', '.', '7', '.', '0']);
    assert(crate::version::limits_text(list) == seq!['>', '=', '0', '.', '7', '.', '0']);
    assert(">=0.7.0"@ == seq!['>', '=', '0', '.', '7', '.', '0']);
}

/// Whether a version is in [`UV_VERSION_RANGE`].
pub fn uv_version_in_range(version: &Version) -> (r: bool)
    ensures
        r == uv_supported(version@),
{
    let ghost list = seq![
        crate::version::Limit { op: crate::version::Op::GreaterEq, version: oldest_uv() },
    ];
    proof {
        lemma_uv_version_range();
        assert(crate::version::notes_limits(UV_VERSION_RANGE@, list));
    }
    match parse_requirement(UV_VERSION_RANGE) {
        Some(range) => {
            assert(range@ == crate::version::limits_requirement(list));
            assert(range@.len() == 1);
            assert(crate::version::full_limit(range@[0]));
            assert(crate::version::satisfies(range@, version@) == uv_supported(version@)) by {
                assert(crate::version::within(range@[0], version@.release) <==> (
                oldest_uv().precedes(version@.release) || oldest_uv() == version@.release));
            }
            requirement_matches(&range, version)
        },
        None => false,
    }
}

/// A version, where it is good enough.
pub open spec fn required_version(version: crate::version::VersionView) -> Result<
    crate::version::VersionView,
    UvVersionErrorView,
> {
    if uv_supported(version) {
        Ok(version)
    } else {
        Err(UvVersionErrorView::OutOfRange { version })
    }
}

/// A version, where it is good enough.
pub fn require_uv_version(version: Version) -> (r: Result<Version, UvVersionError>)
    ensures
        uv_version_result(r) == required_version(version@),
{
    if !uv_version_in_range(&version) {
        return Err(UvVersionError::OutOfRange { version });
    }
    Ok(version)
}

/// The version that a binary states, where it is good enough.
pub open spec fn validated_version(success: bool, output: Seq<char>) -> Result<
    crate::version::VersionView,
    UvVersionErrorView,
> {
    match stated_version(success, output) {
        Ok(version) => required_version(version),
        Err(error) => Err(error),
    }
}

/// The version that a binary states, where it is good enough.
pub fn validate_uv_binary(success: bool, stdout: &Vec<u8>) -> (r: Result<Version, UvVersionError>)
    ensures
        uv_version_result(r) == validated_version(success, crate::process::lossy_text(stdout@)),
        forall|release: crate::version::Release|
            success && #[trigger] states_release(crate::process::lossy_text(stdout@), release)
                ==> uv_version_result(r) == required_version(crate::version::released(release)),
{
    match get_uv_version(success, stdout) {
        Ok(version) => require_uv_version(version),
        Err(error) => Err(error),
    }
}

/// A `uv` binary.
#[derive(Debug, PartialEq, Eq)]
pub struct Uv {
    pub path: EnvPath,
}

/// A command that runs `uv`, with the cache of the store.
pub open spec fn uv_command(
    path: crate::paths::EnvPathView,
    summary: Seq<char>,
    store: Store,
) -> crate::process::CmdView {
    crate::process::CmdView {
        envs: Map::empty().insert(UV_CACHE_DIR@, Some(store.uv_cache@)),
        ..crate::process::bare_command(path, summary)
    }
}

impl Uv {
    /// The binary at a path.
    pub fn new(path: EnvPath) -> (r: Uv)
        ensures
            r.path == path,
    {
        Uv { path }
    }

    /// A command that runs the binary.
    pub fn cmd(&self, summary: &str, store: &Store) -> (r: Cmd)
        ensures
            r@ == uv_command(self.path@, summary@, *store),
    {
        let mut cmd: Cmd = Cmd::new(&self.path, summary);
        cmd.env(UV_CACHE_DIR, store.uv_cache.as_str());
        cmd
    }
}

/// Where a `uv` binary may be.
#[derive(Debug, Copy, Clone, PartialEq, Eq, Structural)]
pub enum UvProbe {
    /// Next to the running program.
    Beside,
    /// The next one on the search path.
    System,
    /// The one that is managed here, without or with the lock held.
    Managed { locked: bool },
}

/// What was found there.
#[derive(Debug, PartialEq, Eq)]
pub enum UvProbeOutcome {
    /// Nothing.
    Missing,
    /// A binary that is not good enough.
    Incompatible,
    /// A binary that is.
    Compatible { path: EnvPath },
}

/// What to do next in the search for a binary.
#[derive(Debug, PartialEq, Eq)]
pub enum UvStep {
    /// Look at a place.
    Probe(UvProbe),
    /// Take the lock on the managed binary, then look there once more.
    Lock,
    /// Install the managed binary.
    Install,
    /// Use a binary.
    Use(Uv),
}

/// The contents of a [`UvStep`].
pub enum UvStepView {
    Probe(UvProbe),
    Lock,
    Install,
    Use(crate::paths::EnvPathView),
}

impl View for UvStep {
    type V = UvStepView;

    open spec fn view(&self) -> UvStepView {
        match self {
            UvStep::Probe(probe) => UvStepView::Probe(*probe),
            UvStep::Lock => UvStepView::Lock,
            UvStep::Install => UvStepView::Install,
            UvStep::Use(uv) => UvStepView::Use(uv.path@),
        }
    }
}

/// What follows what was found at a place. The first binary that is good enough
/// is used; what is not good enough is passed over.
pub open spec fn step_after(probe: UvProbe, outcome: UvProbeOutcome) -> UvStepView {
    match outcome {
        UvProbeOutcome::Compatible { path } => UvStepView::Use(path@),
        _ => match probe {
            UvProbe::Beside => UvStepView::Probe(UvProbe::System),
            UvProbe::System => if outcome is Missing {
                UvStepView::Probe(UvProbe::Managed { locked: false })
            } else {
                UvStepView::Probe(UvProbe::System)
            },
            UvProbe::Managed { locked } => if locked {
                UvStepView::Install
            } else {
                UvStepView::Lock
            },
        },
    }
}

/// Why the binary that was installed is of no use.
pub open spec fn failed_validation_text(path: Seq<char>, cause: Seq<char>) -> Seq<char> {
    "Installed uv at `"@ + path + "` failed validation: "@ + cause
        + ". This usually means the downloaded uv binary is incompatible with the current runtime environment, for example due to a libc mismatch or a missing dynamic loader path. If this keeps happening, please report it with details about your environment and the full error output."@
}

impl Uv {
    /// Where the search for a binary starts.
    pub fn install_start() -> (r: UvStep)
        ensures
            r@ == UvStepView::Probe(UvProbe::Beside),
    {
        UvStep::Probe(UvProbe::Beside)
    }

    /// What follows what was found at a place.
    pub fn after_probe(probe: UvProbe, outcome: UvProbeOutcome) -> (r: UvStep)
        ensures
            r@ == step_after(probe, outcome),
    {
        match outcome {
            UvProbeOutcome::Compatible { path } => UvStep::Use(Uv::new(path)),
            UvProbeOutcome::Missing => match probe {
                UvProbe::Beside => UvStep::Probe(UvProbe::System),
                UvProbe::System => UvStep::Probe(UvProbe::Managed { locked: false }),
                UvProbe::Managed { locked } => if locked {
                    UvStep::Install
                } else {
                    UvStep::Lock
                },
            },
            UvProbeOutcome::Incompatible => match probe {
                UvProbe::Beside => UvStep::Probe(UvProbe::System),
                UvProbe::System => UvStep::Probe(UvProbe::System),
                UvProbe::Managed { locked } => if locked {
                    UvStep::Install
                } else {
                    UvStep::Lock
                },
            },
        }
    }

    /// What follows when the lock is held.
    pub fn after_lock() -> (r: UvStep)
        ensures
            r@ == UvStepView::Probe(UvProbe::Managed { locked: true }),
    {
        UvStep::Probe(UvProbe::Managed { locked: true })
    }

    /// The binary that was installed, if it is good enough; why it is of no use
    /// otherwise. `shown` is its path as it is shown to users.
    pub fn after_install(path: EnvPath, shown: &str, validation: Result<(), String>) -> (r: Result<
        Uv,
        String,
    >)
        ensures
            r is Ok <==> validation is Ok,
            r matches Ok(uv) ==> uv.path@ == path@,
            r matches Err(message) ==> message@ == failed_validation_text(
                shown@,
                validation->Err_0@,
            ),
    {
        match validation {
            Ok(_) => Ok(Uv::new(path)),
            Err(cause) => {
                let mut message: String = joined("Installed uv at `", shown);
                message.append("` failed validation: ");
                message.append(cause.as_str());
                message.append(
                    ". This usually means the downloaded uv binary is incompatible with the current runtime environment, for example due to a libc mismatch or a missing dynamic loader path. If this keeps happening, please report it with details about your environment and the full error output.",
                );
                Err(message)
            },
        }
    }

    /// The binary in a directory.
    pub fn binary_in(dir: &EnvPath, exe_extension: &str) -> (r: EnvPath)
        ensures
            r@ == dir@.join(crate::paths::program_name("uv"@, exe_extension@)),
    {
        let name: String = program_file("uv", exe_extension);
        dir.join(name.as_str())
    }
}

} // verus!
