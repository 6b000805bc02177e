//! What holds of the addresses that `uv` is downloaded from, of the artifact that
//! is chosen, and of the search for a binary.

use vstd::prelude::*;

use crate::uv::{
    ArtifactDownload, ArtifactDownloadView, ArtifactUrlError, DownloadError, DownloadErrorView,
    ManifestEntry, ManifestError, ManifestErrorView, ManifestLine, Uv, UvArtifact, UvArtifactView,
    UvProbe, UvProbeOutcome, UvStep, UvStepView, UvVersionError, UvVersionErrorView,
};
use crate::version::{Release, Version, VersionView};

verus! {

/// The address of a mirror ends in no slash, and differs from what was configured
/// only by the slashes at its end.
pub proof fn mirrors_end_in_no_slash(url: Seq<char>)
    ensures
        ({
            let base = crate::text::without_trailing(url, '/');
            &&& base.len() > 0 ==> base.last() != '/'
            &&& base.is_prefix_of(url)
            &&& forall|i: int| base.len() <= i < url.len() ==> #[trigger] url[i] == '/'
            &&& crate::text::without_trailing(base, '/') == base
        }),
    decreases url.len(),
{
    if url.len() > 0 && url.last() == '/' {
        mirrors_end_in_no_slash(url.drop_last());
        let base = crate::text::without_trailing(url, '/');
        assert(url.subrange(0, base.len() as int) == url.drop_last().subrange(
            0,
            base.len() as int,
        ));
        assert forall|i: int| base.len() <= i < url.len() implies #[trigger] url[i] == '/' by {
            if i < url.len() - 1 {
                assert(url.drop_last()[i] == '/');
            }
        }
    } else {
        assert(url.subrange(0, url.len() as int) == url);
    }
}

/// Nothing but a release of `uv` is ever downloaded: an address that is built is
/// that of a path of releases, below the base address.
pub proof fn downloads_are_uv_releases(base_url: Seq<char>, artifact: UvArtifactView)
    ensures
        crate::uv::download_address(base_url, artifact) matches Ok(url) ==> {
            &&& artifact.astral_path() matches Ok(path) && url == base_url + path
                && crate::uv::ASTRAL_UV_RELEASES_PATH@.is_prefix_of(path)
        },
        crate::uv::download_address(base_url, artifact) is Ok <==> artifact.astral_path() is Ok,
{
    if crate::uv::GITHUB_UV_RELEASES_URL_PREFIX@.is_prefix_of(artifact.url) {
        let rest = artifact.url.skip(crate::uv::GITHUB_UV_RELEASES_URL_PREFIX@.len() as int);
        let path = crate::uv::ASTRAL_UV_RELEASES_PATH@ + rest;
        assert(path.subrange(0, crate::uv::ASTRAL_UV_RELEASES_PATH@.len() as int)
            == crate::uv::ASTRAL_UV_RELEASES_PATH@);
    }
}

/// A mirror changes the base address and nothing else: an artifact has the same
/// path below every base, or none below any.
pub proof fn mirrors_replace_the_base_address(
    base_url: Seq<char>,
    mirror_url: Seq<char>,
    artifact: UvArtifactView,
)
    ensures
        (match crate::uv::download_address(base_url, artifact) {
            Ok(url) => exists|path: Seq<char>|
                url == #[trigger] (base_url + path) && crate::uv::download_address(
                    mirror_url,
                    artifact,
                ) == Ok::<Seq<char>, ArtifactUrlError>(mirror_url + path),
            Err(error) => crate::uv::download_address(mirror_url, artifact) == Err::<
                Seq<char>,
                ArtifactUrlError,
            >(error),
        }),
{
    if crate::uv::download_address(base_url, artifact) is Ok {
        let path = artifact.astral_path()->Ok_0;
        assert(crate::uv::download_address(base_url, artifact)->Ok_0 == base_url + path);
    }
}

/// An address at the releases host itself is kept as it is.
pub proof fn mirrored_addresses_are_kept(artifact: UvArtifactView, rest: Seq<char>)
    requires
        artifact.url == crate::uv::ASTRAL_BASE_URL@ + crate::uv::ASTRAL_UV_RELEASES_PATH@ + rest,
    ensures
        crate::uv::download_address(crate::uv::ASTRAL_BASE_URL@, artifact) == Ok::<
            Seq<char>,
            ArtifactUrlError,
        >(artifact.url),
{
    let base = crate::uv::ASTRAL_BASE_URL@;
    let releases = crate::uv::ASTRAL_UV_RELEASES_PATH@;
    let path = artifact.url.skip(base.len() as int);
    reveal_strlit("/");
    reveal_strlit("/github/uv/releases/download/");
    assert(path == releases + rest);
    assert(path.subrange(0, releases.len() as int) == releases);
    assert(artifact.url.subrange(0, base.len() as int) == base);
    assert(path.subrange(0, 1) == "/"@);
    assert(artifact.url == base + path);
}

/// A release on GitHub is taken from the same path below the base address.
pub proof fn github_addresses_are_moved(
    base_url: Seq<char>,
    artifact: UvArtifactView,
    rest: Seq<char>,
)
    requires
        artifact.url == crate::uv::GITHUB_UV_RELEASES_URL_PREFIX@ + rest,
    ensures
        crate::uv::download_address(base_url, artifact) == Ok::<Seq<char>, ArtifactUrlError>(
            base_url + (crate::uv::ASTRAL_UV_RELEASES_PATH@ + rest),
        ),
{
    let github = crate::uv::GITHUB_UV_RELEASES_URL_PREFIX@;
    let base = crate::uv::ASTRAL_BASE_URL@;
    reveal_strlit("https://github.com/astral-sh/uv/releases/download/");
    reveal_strlit("https://releases.astral.sh");
    assert(artifact.url.subrange(0, github.len() as int) == github);
    assert(artifact.url.skip(github.len() as int) == rest);
    assert(!base.is_prefix_of(artifact.url)) by {
        assert(artifact.url[8] == 'g');
        assert(base[8] == 'r');
        assert(artifact.url.subrange(0, base.len() as int)[8] == 'g');
    }
}

/// An artifact that is found matches, and is one of the list; where none is found,
/// none matches.
pub proof fn first_match_is_a_match(
    artifacts: Seq<UvArtifact>,
    version: Seq<char>,
    platform: Seq<char>,
    archive_format: Seq<char>,
)
    ensures
        (match crate::uv::first_match(artifacts, version, platform, archive_format) {
            Some(artifact) => {
                &&& artifact.matches(version, platform, archive_format)
                &&& exists|i: int| 0 <= i < artifacts.len() && #[trigger] artifacts[i]@ == artifact
            },
            None => forall|i: int|
                0 <= i < artifacts.len() ==> !(#[trigger] artifacts[i]@).matches(
                    version,
                    platform,
                    archive_format,
                ),
        }),
    decreases artifacts.len(),
{
    if artifacts.len() > 0 {
        if artifacts[0]@.matches(version, platform, archive_format) {
            assert(artifacts[0]@ == artifacts[0]@);
        } else {
            let rest = artifacts.drop_first();
            first_match_is_a_match(rest, version, platform, archive_format);
            match crate::uv::first_match(rest, version, platform, archive_format) {
                Some(artifact) => {
                    let i = choose|i: int|
                        0 <= i < rest.len() && #[trigger] rest[i]@ == artifact;
                    assert(artifacts[i + 1]@ == artifact);
                },
                None => {
                    assert forall|i: int| 0 <= i < artifacts.len() implies !(
                    #[trigger] artifacts[i]@).matches(version, platform, archive_format) by {
                        if i > 0 {
                            assert(rest[i - 1]@ == artifacts[i]@);
                        }
                    }
                },
            }
        }
    }
}

/// Whether a line of the manifest was read and describes another version.
pub open spec fn other_version(entry: ManifestEntry, version: Seq<char>) -> bool {
    entry.release matches Ok(release) && release.version@ != version
}

/// Whether a line of the manifest was read and describes this version.
pub open spec fn this_version(entry: ManifestEntry, version: Seq<char>) -> bool {
    entry.release matches Ok(release) && release.version@ == version
}

/// The artifact that is chosen matches in version, platform and format, and is
/// listed at the first line with that version; every line before it was read.
pub proof fn chosen_artifacts_match(
    entries: Seq<ManifestEntry>,
    version: Seq<char>,
    platform: Seq<char>,
    archive_format: Seq<char>,
)
    ensures
        crate::uv::selected_artifact(entries, version, platform, archive_format) matches Ok(
            artifact,
        ) ==> {
            &&& artifact.matches(version, platform, archive_format)
            &&& exists|k: int|
                {
                    &&& 0 <= k < entries.len()
                    &&& this_version(#[trigger] entries[k], version)
                    &&& exists|i: int|
                        0 <= i < entries[k].release->Ok_0.artifacts@.len()
                            && #[trigger] entries[k].release->Ok_0.artifacts@[i]@ == artifact
                    &&& forall|j: int|
                        0 <= j < k ==> other_version(#[trigger] entries[j], version)
                }
        },
    decreases entries.len(),
{
    if entries.len() > 0 {
        match entries[0].release {
            Err(_) => {},
            Ok(release) => {
                if release.version@ == version {
                    first_match_is_a_match(
                        release.artifacts@,
                        version,
                        platform,
                        archive_format,
                    );
                    assert(this_version(entries[0], version));
                } else {
                    let rest = entries.drop_first();
                    chosen_artifacts_match(rest, version, platform, archive_format);
                    if crate::uv::selected_artifact(
                        rest,
                        version,
                        platform,
                        archive_format,
                    ) is Ok {
                        let artifact = crate::uv::selected_artifact(
                            rest,
                            version,
                            platform,
                            archive_format,
                        )->Ok_0;
                        let k = choose|k: int|
                            {
                                &&& 0 <= k < rest.len()
                                &&& this_version(#[trigger] rest[k], version)
                                &&& exists|i: int|
                                    0 <= i < rest[k].release->Ok_0.artifacts@.len()
                                        && #[trigger] rest[k].release->Ok_0.artifacts@[i]@
                                        == artifact
                                &&& forall|j: int|
                                    0 <= j < k ==> other_version(#[trigger] rest[j], version)
                            };
                        assert(entries[k + 1] == rest[k]);
                        assert forall|j: int| 0 <= j < k + 1 implies other_version(
                            #[trigger] entries[j],
                            version,
                        ) by {
                            if j > 0 {
                                assert(rest[j - 1] == entries[j]);
                            }
                        }
                        assert(this_version(entries[k + 1], version));
                    }
                }
            },
        }
    }
}

/// A version is missing exactly where every line was read and describes another.
pub proof fn versions_are_missing_where_no_line_has_them(
    entries: Seq<ManifestEntry>,
    version: Seq<char>,
    platform: Seq<char>,
    archive_format: Seq<char>,
)
    ensures
        crate::uv::selected_artifact(entries, version, platform, archive_format) == Err::<
            UvArtifactView,
            ManifestErrorView,
        >(ManifestErrorView::MissingVersion { version }) <==> forall|i: int|
            0 <= i < entries.len() ==> other_version(#[trigger] entries[i], version),
    decreases entries.len(),
{
    if entries.len() > 0 {
        let rest = entries.drop_first();
        versions_are_missing_where_no_line_has_them(rest, version, platform, archive_format);
        if other_version(entries[0], version) {
            if forall|i: int| 0 <= i < rest.len() ==> other_version(#[trigger] rest[i], version) {
                assert forall|i: int| 0 <= i < entries.len() implies other_version(
                    #[trigger] entries[i],
                    version,
                ) by {
                    if i > 0 {
                        assert(rest[i - 1] == entries[i]);
                    }
                }
            }
            if forall|i: int|
                0 <= i < entries.len() ==> other_version(#[trigger] entries[i], version) {
                assert forall|i: int| 0 <= i < rest.len() implies other_version(
                    #[trigger] rest[i],
                    version,
                ) by {
                    assert(rest[i] == entries[i + 1]);
                }
            }
        }
    }
}

/// Lines after the one that decides do not count, not even where they could not
/// be read.
pub proof fn later_lines_do_not_count(
    entries: Seq<ManifestEntry>,
    more: Seq<ManifestEntry>,
    version: Seq<char>,
    platform: Seq<char>,
    archive_format: Seq<char>,
)
    requires
        exists|i: int| 0 <= i < entries.len() && !other_version(#[trigger] entries[i], version),
    ensures
        crate::uv::selected_artifact(entries + more, version, platform, archive_format)
            == crate::uv::selected_artifact(entries, version, platform, archive_format),
    decreases entries.len(),
{
    assert((entries + more)[0] == entries[0]);
    if other_version(entries[0], version) {
        let i = choose|i: int|
            0 <= i < entries.len() && !other_version(#[trigger] entries[i], version);
        let rest = entries.drop_first();
        assert(rest[i - 1] == entries[i]);
        later_lines_do_not_count(rest, more, version, platform, archive_format);
        assert((entries + more).drop_first() == rest + more);
    }
}

/// What is downloaded is named as the current version and the archive: the address
/// ends in both.
pub proof fn downloads_end_in_version_and_archive(
    base_url: Seq<char>,
    entries: Seq<ManifestEntry>,
    platform: Seq<char>,
    archive_format: Seq<char>,
)
    ensures
        crate::uv::chosen_download(base_url, entries, platform, archive_format) matches Ok(
            download,
        ) ==> ("/"@ + crate::uv::CUR_UV_VERSION@ + "/"@ + download.archive_name).is_suffix_of(
            download.url,
        ),
{
    let version = crate::uv::CUR_UV_VERSION@;
    if crate::uv::chosen_download(base_url, entries, platform, archive_format) is Ok {
        chosen_artifacts_match(entries, version, platform, archive_format);
        let artifact = crate::uv::selected_artifact(
            entries,
            version,
            platform,
            archive_format,
        )->Ok_0;
        let suffix = "/"@ + version + "/"@ + artifact.archive_name();
        let path = artifact.astral_path()->Ok_0;
        let url = artifact.url;
        let at_host = url.skip(crate::uv::ASTRAL_BASE_URL@.len() as int);
        reveal_strlit("/");
        reveal_strlit("0.11.19");
        reveal_strlit("https://releases.astral.sh");
        reveal_strlit("https://github.com/astral-sh/uv/releases/download/");
        reveal_strlit("/github/uv/releases/download/");
        assert(suffix[0] == '/');
        assert(suffix[1] == '0');
        let start = url.len() - suffix.len();
        assert(url.subrange(start, url.len() as int) == suffix);
        assert(url[start] == suffix[0]);
        assert(url[start + 1] == suffix[1]);
        if crate::uv::ASTRAL_BASE_URL@.is_prefix_of(url) && "/"@.is_prefix_of(at_host) {
            let base = crate::uv::ASTRAL_BASE_URL@;
            assert forall|i: int| 0 <= i < base.len() implies url[i] == #[trigger] base[i] by {
                assert(url.subrange(0, base.len() as int)[i] == base[i]);
            }
            assert(start >= base.len()) by {
                if start < base.len() - 1 {
                    assert(url[start + 1] == base[start + 1]);
                } else if start == base.len() - 1 {
                    assert(url[start] == base[start]);
                }
            }
            assert(path == at_host);
            assert(path.subrange(path.len() - suffix.len(), path.len() as int) == suffix);
        } else {
            let github = crate::uv::GITHUB_UV_RELEASES_URL_PREFIX@;
            let rest = url.skip(github.len() as int);
            assert forall|i: int| 0 <= i < github.len() implies url[i] == #[trigger] github[i] by {
                assert(url.subrange(0, github.len() as int)[i] == github[i]);
            }
            assert(start >= github.len() - 1) by {
                if start < github.len() - 1 {
                    assert(url[start + 1] == github[start + 1]);
                }
            }
            let releases = crate::uv::ASTRAL_UV_RELEASES_PATH@;
            assert(path == releases + rest);
            assert(releases.last() == '/');
            assert(github.last() == '/');
            let from = path.len() - suffix.len();
            assert(path.subrange(from, path.len() as int) == suffix) by {
                assert forall|i: int| 0 <= i < suffix.len() implies path[from + i]
                    == #[trigger] suffix[i] by {
                    assert(url.subrange(start, url.len() as int)[i] == url[start + i]);
                }
            }
        }
        let whole = base_url + path;
        assert(whole.subrange(whole.len() - suffix.len(), whole.len() as int) == path.subrange(
            path.len() - suffix.len(),
            path.len() as int,
        ));
    }
}

/// The first binary that is good enough is used, wherever it is found.
pub proof fn compatible_binaries_are_used(probe: UvProbe, outcome: UvProbeOutcome)
    ensures
        crate::uv::step_after(probe, outcome) is Use <==> outcome is Compatible,
        outcome matches UvProbeOutcome::Compatible { path } ==> crate::uv::step_after(
            probe,
            outcome,
        ) == UvStepView::Use(path@),
{
}

/// Nothing is installed before the managed binary was looked at with the lock
/// held, and the lock is taken only after it was looked at without.
pub proof fn installation_needs_the_lock(probe: UvProbe, outcome: UvProbeOutcome)
    ensures
        crate::uv::step_after(probe, outcome) is Install ==> probe == (UvProbe::Managed {
            locked: true,
        }),
        crate::uv::step_after(probe, outcome) is Lock ==> probe == (UvProbe::Managed {
            locked: false,
        }),
{
}

/// How far the search has come.
pub open spec fn places_left(probe: UvProbe) -> nat {
    match probe {
        UvProbe::Beside => 3,
        UvProbe::System => 2,
        UvProbe::Managed { locked: false } => 1,
        UvProbe::Managed { locked: true } => 0,
    }
}

/// The search ends: each step goes to a later place, or to the next binary on the
/// search path where the one before was not good enough.
pub proof fn the_search_ends(probe: UvProbe, outcome: UvProbeOutcome)
    ensures
        crate::uv::step_after(probe, outcome) matches UvStepView::Probe(next) ==> {
            ||| places_left(next) < places_left(probe)
            ||| next == probe && probe is System && outcome is Incompatible
        },
{
}

/// A release later than one that is good enough is good enough too.
pub proof fn later_releases_are_supported(version: VersionView, later: VersionView)
    requires
        crate::uv::uv_supported(version),
        version.release.precedes(later.release),
        later.pre.len() == 0,
    ensures
        crate::uv::uv_supported(later),
{
}

/// The version that is installed is good enough.
pub proof fn the_installed_version_is_supported()
    ensures
        exists|release: Release|
            crate::uv::CUR_UV_VERSION@ == #[trigger] crate::version::release_text(release)
                && crate::uv::uv_supported(crate::version::released(release)),
{
    let release = Release { major: 0, minor: 11, patch: 19 };
    reveal_strlit("0.11.19");
    reveal_with_fuel(crate::text::decimal, 3);
    assert(crate::text::decimal(0) == seq!['0']);
    assert(crate::text::decimal(11) == seq!['1', '1']);
    assert(crate::text::decimal(19) == seq!['1', '9']);
    assert(crate::version::release_text(release) == seq!['0', '.', '1', '1', '.', '1', '9']);
    assert(crate::uv::CUR_UV_VERSION@ == crate::version::release_text(release));
}

/// Releases are zip archives on Windows and compressed tar archives elsewhere. An
/// archive is named by its platform and its format.
pub proof fn archives_are_named_by_platform_and_format(artifact: UvArtifactView)
    ensures
        crate::uv::archive_format_text(true) == "zip"@,
        crate::uv::archive_format_text(false) == "tar.gz"@,
        artifact.archive_name() == "uv-"@ + artifact.platform + "."@ + artifact.archive_format,
{
}

/// An address at the releases host has its own path below every base address.
pub proof fn host_addresses_keep_their_path(
    base_url: Seq<char>,
    artifact: UvArtifactView,
    rest: Seq<char>,
)
    requires
        artifact.url == "https://releases.astral.sh"@ + "/github/uv/releases/download/"@ + rest,
    ensures
        artifact.astral_path() == Ok::<Seq<char>, ArtifactUrlError>(
            "/github/uv/releases/download/"@ + rest,
        ),
        crate::uv::download_address(base_url, artifact) == Ok::<Seq<char>, ArtifactUrlError>(
            base_url + ("/github/uv/releases/download/"@ + rest),
        ),
{
    mirrored_addresses_are_kept(artifact, rest);
    let base = "https://releases.astral.sh"@;
    let releases = "/github/uv/releases/download/"@;
    let path = artifact.url.skip(base.len() as int);
    reveal_strlit("/");
    reveal_strlit("/github/uv/releases/download/");
    assert(path == releases + rest);
    assert(path.subrange(0, releases.len() as int) == releases);
    assert(artifact.url.subrange(0, base.len() as int) == base);
    assert(path.subrange(0, 1) == "/"@);
}

/// Addresses are used exactly where they are those of releases of `uv`, at the
/// releases host or on GitHub. Others at the host are told apart from those
/// elsewhere.
pub proof fn other_addresses_are_refused(artifact: UvArtifactView)
    ensures
        ({
            let url = artifact.url;
            let host = "https://releases.astral.sh/"@;
            let releases = "https://releases.astral.sh/github/uv/releases/download/"@;
            let github = "https://github.com/astral-sh/uv/releases/download/"@;
            &&& artifact.astral_path() is Ok <==> releases.is_prefix_of(url)
                || github.is_prefix_of(url)
            &&& artifact.astral_path() matches Err(error) ==> (error
                == ArtifactUrlError::NotUvRelease <==> host.is_prefix_of(url))
            &&& releases.is_prefix_of(url) ==> artifact.astral_path() == Ok::<
                Seq<char>,
                ArtifactUrlError,
            >(url.skip("https://releases.astral.sh"@.len() as int))
            &&& github.is_prefix_of(url) ==> artifact.astral_path() == Ok::<
                Seq<char>,
                ArtifactUrlError,
            >("/github/uv/releases/download/"@ + url.skip(github.len() as int))
        }),
{
    let url = artifact.url;
    let base = "https://releases.astral.sh"@;
    let path = "/github/uv/releases/download/"@;
    let host = "https://releases.astral.sh/"@;
    let releases = "https://releases.astral.sh/github/uv/releases/download/"@;
    let github = "https://github.com/astral-sh/uv/releases/download/"@;
    reveal_strlit("/");
    reveal_strlit("https://releases.astral.sh");
    reveal_strlit("/github/uv/releases/download/");
    reveal_strlit("https://releases.astral.sh/");
    reveal_strlit("https://releases.astral.sh/github/uv/releases/download/");
    reveal_strlit("https://github.com/astral-sh/uv/releases/download/");
    assert(host == base + "/"@);
    assert(releases == base + path);
    assert(base[8] == 'r' && github[8] == 'g' && releases[8] == 'r' && host[8] == 'r');
    lemma_prefix_of_sum(base, "/"@, url);
    lemma_prefix_of_sum(base, path, url);
    assert("/"@.is_prefix_of(path)) by {
        assert(path.subrange(0, 1) == "/"@);
    }
    if releases.is_prefix_of(url) {
        let at_host = url.skip(base.len() as int);
        assert(at_host.subrange(0, 1) == "/"@) by {
            assert(at_host.subrange(0, path.len() as int)[0] == '/');
        }
    }
    if github.is_prefix_of(url) && base.is_prefix_of(url) {
        assert(url.subrange(0, github.len() as int)[8] == url[8]);
        assert(url.subrange(0, base.len() as int)[8] == url[8]);
    }
}

/// A text starts with two others, one after the other, exactly where it starts with
/// the one and what follows starts with the other.
proof fn lemma_prefix_of_sum(first: Seq<char>, second: Seq<char>, text: Seq<char>)
    ensures
        (first + second).is_prefix_of(text) <==> first.is_prefix_of(text) && second.is_prefix_of(
            text.skip(first.len() as int),
        ),
{
    let sum = first + second;
    let rest = text.skip(first.len() as int);
    if sum.is_prefix_of(text) {
        assert(text.subrange(0, sum.len() as int) == sum);
        assert(text.subrange(0, first.len() as int) == first) by {
            assert forall|i: int| 0 <= i < first.len() implies text[i] == first[i] by {
                assert(text.subrange(0, sum.len() as int)[i] == sum[i]);
            }
        }
        assert(rest.subrange(0, second.len() as int) == second) by {
            assert forall|i: int| 0 <= i < second.len() implies rest[i] == second[i] by {
                assert(text.subrange(0, sum.len() as int)[first.len() + i] == sum[first.len() + i]);
            }
        }
    }
    if first.is_prefix_of(text) && second.is_prefix_of(rest) {
        assert(text.subrange(0, sum.len() as int) == sum) by {
            assert forall|i: int| 0 <= i < sum.len() implies text[i] == sum[i] by {
                if i < first.len() {
                    assert(text.subrange(0, first.len() as int)[i] == first[i]);
                } else {
                    assert(rest.subrange(0, second.len() as int)[i - first.len()] == second[i
                        - first.len()]);
                }
            }
        }
    }
}

/// An artifact matches exactly where it is the default one for the platform, in the
/// format, and its address ends in the version and the archive.
pub proof fn matches_agree_in_every_part(
    artifact: UvArtifactView,
    version: Seq<char>,
    platform: Seq<char>,
    archive_format: Seq<char>,
)
    ensures
        artifact.matches(version, platform, archive_format) <==> {
            &&& artifact.platform == platform
            &&& artifact.variant == "default"@
            &&& artifact.archive_format == archive_format
            &&& exists|start: Seq<char>|
                artifact.url == #[trigger] (start + ("/"@ + version + "/uv-"@ + platform + "."@
                    + archive_format))
        },
{
    reveal_strlit("/");
    reveal_strlit("uv-");
    reveal_strlit("/uv-");
    let url = artifact.url;
    let suffix = "/"@ + version + "/"@ + ("uv-"@ + platform + "."@ + archive_format);
    let written = "/"@ + version + "/uv-"@ + platform + "."@ + archive_format;
    assert("/uv-"@ == "/"@ + "uv-"@);
    assert(suffix == written);
    if suffix.is_suffix_of(url) {
        let start = url.take(url.len() - suffix.len());
        assert(url == start + written) by {
            assert(url.subrange(url.len() - suffix.len(), url.len() as int) == suffix);
        }
    }
    if exists|start: Seq<char>| url == #[trigger] (start + written) {
        let start = choose|start: Seq<char>| url == #[trigger] (start + written);
        assert(url.subrange(url.len() - suffix.len(), url.len() as int) == suffix);
    }
}

/// Of the artifacts that match, the first one is found, and one is found where any
/// matches.
pub proof fn the_first_match_is_found(
    artifacts: Seq<UvArtifact>,
    i: int,
    version: Seq<char>,
    platform: Seq<char>,
    archive_format: Seq<char>,
)
    requires
        0 <= i < artifacts.len(),
        artifacts[i]@.matches(version, platform, archive_format),
        forall|j: int|
            0 <= j < i ==> !(#[trigger] artifacts[j]@).matches(version, platform, archive_format),
    ensures
        crate::uv::first_match(artifacts, version, platform, archive_format) == Some(
            artifacts[i]@,
        ),
    decreases artifacts.len(),
{
    if i > 0 {
        let rest = artifacts.drop_first();
        assert(!artifacts[0]@.matches(version, platform, archive_format));
        assert(rest[i - 1] == artifacts[i]);
        assert forall|j: int| 0 <= j < i - 1 implies !(#[trigger] rest[j]@).matches(
            version,
            platform,
            archive_format,
        ) by {
            assert(rest[j]@ == artifacts[j + 1]@);
        }
        the_first_match_is_found(rest, i - 1, version, platform, archive_format);
    }
}

/// The first line that describes the version decides, where every line before it
/// was read: its first match is chosen, and the artifact is missing where it has
/// none.
pub proof fn the_first_line_with_the_version_decides(
    entries: Seq<ManifestEntry>,
    k: int,
    version: Seq<char>,
    platform: Seq<char>,
    archive_format: Seq<char>,
)
    requires
        0 <= k < entries.len(),
        entries[k].release matches Ok(release) && release.version@ == version,
        forall|j: int|
            0 <= j < k ==> ((#[trigger] entries[j]).release matches Ok(release)
                && release.version@ != version),
    ensures
        ({
            let chosen = crate::uv::selected_artifact(entries, version, platform, archive_format);
            let found = crate::uv::first_match(
                entries[k].release->Ok_0.artifacts@,
                version,
                platform,
                archive_format,
            );
            &&& found matches Some(artifact) ==> chosen == Ok::<UvArtifactView, ManifestErrorView>(
                artifact,
            )
            &&& found is None ==> chosen == Err::<UvArtifactView, ManifestErrorView>(
                ManifestErrorView::MissingArtifact { version, platform, archive_format },
            )
        }),
    decreases entries.len(),
{
    if k > 0 {
        let rest = entries.drop_first();
        assert(entries[0].release is Ok && entries[0].release->Ok_0.version@ != version);
        assert(rest[k - 1] == entries[k]);
        assert forall|j: int| 0 <= j < k - 1 implies ((#[trigger] rest[j]).release matches Ok(
            release,
        ) && release.version@ != version) by {
            assert(rest[j] == entries[j + 1]);
        }
        the_first_line_with_the_version_decides(rest, k - 1, version, platform, archive_format);
    }
}

/// A line that could not be read is an error, with its number and cause, where no
/// line before it describes the version.
pub proof fn an_unreadable_line_is_an_error(
    entries: Seq<ManifestEntry>,
    k: int,
    version: Seq<char>,
    platform: Seq<char>,
    archive_format: Seq<char>,
)
    requires
        0 <= k < entries.len(),
        entries[k].release is Err,
        forall|j: int|
            0 <= j < k ==> ((#[trigger] entries[j]).release matches Ok(release)
                && release.version@ != version),
    ensures
        crate::uv::selected_artifact(entries, version, platform, archive_format) == Err::<
            UvArtifactView,
            ManifestErrorView,
        >(
            ManifestErrorView::Parse {
                line: entries[k].line as int,
                cause: entries[k].release->Err_0@,
            },
        ),
    decreases entries.len(),
{
    if k > 0 {
        let rest = entries.drop_first();
        assert(entries[0].release is Ok && entries[0].release->Ok_0.version@ != version);
        assert(rest[k - 1] == entries[k]);
        assert forall|j: int| 0 <= j < k - 1 implies ((#[trigger] rest[j]).release matches Ok(
            release,
        ) && release.version@ != version) by {
            assert(rest[j] == entries[j + 1]);
        }
        an_unreadable_line_is_an_error(rest, k - 1, version, platform, archive_format);
    }
}

/// A version that no line describes is missing.
pub proof fn undescribed_versions_are_missing(
    entries: Seq<ManifestEntry>,
    version: Seq<char>,
    platform: Seq<char>,
    archive_format: Seq<char>,
)
    requires
        forall|j: int|
            0 <= j < entries.len() ==> ((#[trigger] entries[j]).release matches Ok(release)
                && release.version@ != version),
    ensures
        crate::uv::selected_artifact(entries, version, platform, archive_format) == Err::<
            UvArtifactView,
            ManifestErrorView,
        >(ManifestErrorView::MissingVersion { version }),
    decreases entries.len(),
{
    if entries.len() > 0 {
        let rest = entries.drop_first();
        assert(entries[0].release is Ok && entries[0].release->Ok_0.version@ != version);
        assert forall|j: int| 0 <= j < rest.len() implies ((#[trigger] rest[j]).release matches Ok(
            release,
        ) && release.version@ != version) by {
            assert(rest[j] == entries[j + 1]);
        }
        undescribed_versions_are_missing(rest, version, platform, archive_format);
    }
}

/// What is downloaded is the artifact that the manifest gives for the current
/// version, in every archive format: its address is the base address of the source
/// followed by the path of that artifact, and its archive is named after it. There
/// is a download exactly where there is such an artifact with such a path.
pub proof fn downloads_come_from_the_source(
    base_url: Seq<char>,
    entries: Seq<ManifestEntry>,
    platform: Seq<char>,
    archive_format: Seq<char>,
)
    ensures
        ({
            let chosen = crate::uv::chosen_download(base_url, entries, platform, archive_format);
            let selected = crate::uv::selected_artifact(
                entries,
                "0.11.19"@,
                platform,
                archive_format,
            );
            &&& chosen is Ok <==> selected is Ok && selected->Ok_0.astral_path() is Ok
            &&& chosen matches Ok(download) ==> {
                &&& base_url.is_prefix_of(download.url)
                &&& download.url.skip(base_url.len() as int)
                    == selected->Ok_0.astral_path()->Ok_0
                &&& download.archive_name == "uv-"@ + platform + "."@ + archive_format
            }
            &&& selected matches Err(error) ==> chosen->Err_0 == DownloadErrorView::Manifest(error)
            &&& selected is Ok && selected->Ok_0.astral_path() is Err ==> chosen->Err_0
                == DownloadErrorView::Url(selected->Ok_0.astral_path()->Err_0)
        }),
{
    let chosen = crate::uv::chosen_download(base_url, entries, platform, archive_format);
    chosen_artifacts_match(entries, "0.11.19"@, platform, archive_format);
    if chosen is Ok {
        let path = crate::uv::selected_artifact(
            entries,
            "0.11.19"@,
            platform,
            archive_format,
        )->Ok_0.astral_path()->Ok_0;
        let url = base_url + path;
        assert(chosen->Ok_0.url == url);
        assert(url.subrange(0, base_url.len() as int) == base_url);
        assert(url.skip(base_url.len() as int) == path);
    }
}

/// Two sources differ in their base address alone: they give the same download
/// below it, or the same error.
pub proof fn sources_differ_in_their_base_address_alone(
    base_url: Seq<char>,
    mirror_url: Seq<char>,
    entries: Seq<ManifestEntry>,
    platform: Seq<char>,
    archive_format: Seq<char>,
)
    ensures
        ({
            let one = crate::uv::chosen_download(base_url, entries, platform, archive_format);
            let other = crate::uv::chosen_download(mirror_url, entries, platform, archive_format);
            &&& one is Ok <==> other is Ok
            &&& one is Ok ==> {
                &&& one->Ok_0.archive_name == other->Ok_0.archive_name
                &&& base_url.is_prefix_of(one->Ok_0.url)
                &&& mirror_url.is_prefix_of(other->Ok_0.url)
                &&& one->Ok_0.url.skip(base_url.len() as int) == other->Ok_0.url.skip(
                    mirror_url.len() as int,
                )
            }
            &&& one is Err ==> one->Err_0 == other->Err_0
        }),
{
    downloads_come_from_the_source(base_url, entries, platform, archive_format);
    downloads_come_from_the_source(mirror_url, entries, platform, archive_format);
}

/// The lines of a manifest that are not blank are kept, trimmed and with their
/// numbers, and no others, in their order.
pub proof fn lines_keep_their_numbers(lines: Seq<Seq<char>>)
    ensures
        ({
            let kept = crate::uv::numbered_lines(lines);
            &&& forall|i: int|
                #![trigger lines[i]]
                0 <= i < lines.len() && crate::text::trimmed(lines[i]).len() > 0 ==> kept.contains(
                    (i + 1, crate::text::trimmed(lines[i])),
                )
            &&& forall|k: int|
                #![trigger kept[k]]
                0 <= k < kept.len() ==> 1 <= kept[k].0 <= lines.len() && kept[k].1
                    == crate::text::trimmed(lines[kept[k].0 - 1]) && kept[k].1.len() > 0
            &&& forall|j: int, k: int|
                #![trigger kept[j], kept[k]]
                0 <= j < k < kept.len() ==> kept[j].0 < kept[k].0
        }),
    decreases lines.len(),
{
    if lines.len() > 0 {
        let earlier = lines.drop_last();
        lines_keep_their_numbers(earlier);
        let before = crate::uv::numbered_lines(earlier);
        let kept = crate::uv::numbered_lines(lines);
        assert forall|i: int|
            #![trigger lines[i]]
            0 <= i < lines.len() && crate::text::trimmed(lines[i]).len()
                > 0 implies kept.contains((i + 1, crate::text::trimmed(lines[i]))) by {
            if i < earlier.len() {
                assert(earlier[i] == lines[i]);
                let k = choose|k: int|
                    0 <= k < before.len() && before[k] == (i + 1, crate::text::trimmed(lines[i]));
                assert(kept[k] == before[k]);
            } else {
                assert(kept[kept.len() - 1] == (i + 1, crate::text::trimmed(lines[i])));
            }
        }
        assert forall|k: int|
            #![trigger kept[k]]
            0 <= k < kept.len() implies 1 <= kept[k].0 <= lines.len() && kept[k].1
            == crate::text::trimmed(lines[kept[k].0 - 1]) && kept[k].1.len() > 0 by {
            if k < before.len() {
                assert(kept[k] == before[k]);
                assert(earlier[before[k].0 - 1] == lines[before[k].0 - 1]);
            }
        }
        assert forall|j: int, k: int|
            #![trigger kept[j], kept[k]]
            0 <= j < k < kept.len() implies kept[j].0 < kept[k].0 by {
            assert(kept[j] == before[j]);
            if k < before.len() {
                assert(kept[k] == before[k]);
            }
        }
    }
}

/// Every error names what it is about.
pub proof fn errors_name_what_they_are_about(
    line: nat,
    cause: Seq<char>,
    version: Seq<char>,
    platform: Seq<char>,
    archive_format: Seq<char>,
    status: Seq<char>,
    manifest: ManifestErrorView,
    url: ArtifactUrlError,
    found: VersionView,
)
    ensures
        (ManifestErrorView::Parse { line: line as int, cause }).text()
            == "Failed to parse uv manifest line "@ + crate::text::decimal(line),
        (ManifestErrorView::MissingArtifact { version, platform, archive_format }).text()
            == "Could not find uv "@ + version + " artifact for platform `"@ + platform
            + "` and archive format `"@ + archive_format
            + "` in Astral's versions manifest. Install a compatible system uv or set "@
            + "UV_ASTRAL_MIRROR_URL"@ + " to a mirror that provides the required artifact."@,
        (ManifestErrorView::MissingVersion { version }).text() == "Could not find uv "@ + version
            + " in Astral's versions manifest"@,
        ArtifactUrlError::NotUvRelease.text()
            == "uv manifest artifact URL is not an Astral uv release URL"@,
        ArtifactUrlError::UnsupportedSource.text()
            == "uv manifest artifact URL is not under a supported source"@,
        (DownloadErrorView::Status { status }).text() == "Failed to fetch uv versions manifest: "@
            + status,
        DownloadErrorView::Manifest(manifest).text() == manifest.text(),
        DownloadErrorView::Url(url).text() == url.text(),
        UvVersionErrorView::Failed.text() == "Failed to get uv version"@,
        UvVersionErrorView::Format.text() == "Invalid version output format"@,
        (UvVersionErrorView::Version { message: cause }).text() == cause,
        (UvVersionErrorView::OutOfRange { version: found }).text() == "uv version `"@
            + crate::version::version_text(found) + "` does not satisfy required range `"@
            + ">=0.7.0"@ + "`"@,
        crate::uv::failed_validation_text(platform, cause) == "Installed uv at `"@ + platform
            + "` failed validation: "@ + cause
            + ". This usually means the downloaded uv binary is incompatible with the current runtime environment, for example due to a libc mismatch or a missing dynamic loader path. If this keeps happening, please report it with details about your environment and the full error output."@,
{
}

/// The version that a binary states is the second word of its output: a release
/// there is that version, whatever the other words are. Without success, or without
/// a second word, there is none.
pub proof fn the_second_word_is_the_version(success: bool, output: Seq<char>)
    ensures
        ({
            let stated = crate::uv::stated_version(success, output);
            let words = crate::text::words(output);
            &&& !success ==> stated == Err::<VersionView, UvVersionErrorView>(
                UvVersionErrorView::Failed,
            )
            &&& success && words.len() < 2 ==> stated == Err::<VersionView, UvVersionErrorView>(
                UvVersionErrorView::Format,
            )
            &&& success && words.len() >= 2 ==> (match crate::version::semver_version(words[1]) {
                Ok(version) => stated == Ok::<VersionView, UvVersionErrorView>(version),
                Err(message) => stated == Err::<VersionView, UvVersionErrorView>(
                    UvVersionErrorView::Version { message },
                ),
            })
        }),
        forall|release: Release| #[trigger]
            crate::uv::states_release(output, release) <==> crate::text::words(output).len() >= 2
                && crate::text::words(output)[1] == crate::version::release_text(release),
{
}

/// A version is good enough exactly where it is a release, without a prerelease
/// tag, from 0.7.0 on. Its build metadata do not count.
pub proof fn releases_from_the_oldest_on_are_supported(version: VersionView)
    ensures
        crate::uv::uv_supported(version) <==> version.pre.len() == 0 && (version.release.major > 0
            || version.release.minor >= 7),
        crate::uv::uv_supported(version) ==> crate::uv::required_version(version) == Ok::<
            VersionView,
            UvVersionErrorView,
        >(version),
        !crate::uv::uv_supported(version) ==> crate::uv::required_version(version) == Err::<
            VersionView,
            UvVersionErrorView,
        >(UvVersionErrorView::OutOfRange { version }),
{
}

/// A binary is validated exactly where it states a version that is good enough;
/// that version is the answer. What it fails to state is the error otherwise.
pub proof fn stated_versions_are_validated(success: bool, output: Seq<char>)
    ensures
        ({
            let stated = crate::uv::stated_version(success, output);
            let validated = crate::uv::validated_version(success, output);
            &&& validated is Ok <==> stated is Ok && stated->Ok_0.pre.len() == 0 && (
            stated->Ok_0.release.major > 0 || stated->Ok_0.release.minor >= 7)
            &&& validated is Ok ==> validated->Ok_0 == stated->Ok_0
            &&& stated is Err ==> validated is Err && validated->Err_0 == stated->Err_0
            &&& stated is Ok && validated is Err ==> validated->Err_0 == (
            UvVersionErrorView::OutOfRange { version: stated->Ok_0 })
        }),
{
}

/// The places are looked at in order: next to the program, then along the search
/// path to its end, then the managed binary without the lock and again with it,
/// and only then is one installed. No place is skipped.
pub proof fn places_are_looked_at_in_order(probe: UvProbe, outcome: UvProbeOutcome)
    requires
        !(outcome is Compatible),
    ensures
        probe is Beside ==> crate::uv::step_after(probe, outcome) == UvStepView::Probe(
            UvProbe::System,
        ),
        probe is System && outcome is Incompatible ==> crate::uv::step_after(probe, outcome)
            == UvStepView::Probe(UvProbe::System),
        probe is System && outcome is Missing ==> crate::uv::step_after(probe, outcome)
            == UvStepView::Probe(UvProbe::Managed { locked: false }),
        probe == (UvProbe::Managed { locked: false }) ==> crate::uv::step_after(probe, outcome)
            is Lock,
        probe == (UvProbe::Managed { locked: true }) ==> crate::uv::step_after(probe, outcome)
            is Install,
{
}

/// Artifacts, lines, errors, results and steps are shown as they are.
pub proof fn results_are_shown_as_they_are(
    artifact: UvArtifact,
    download: ArtifactDownload,
    lines: Seq<ManifestLine>,
    line: usize,
    text: String,
    manifest: ManifestError,
    url: ArtifactUrlError,
    version: Version,
    probe: UvProbe,
    uv: Uv,
)
    ensures
        artifact@.platform == artifact.platform@,
        artifact@.variant == artifact.variant@,
        artifact@.url == artifact.url@,
        artifact@.archive_format == artifact.archive_format@,
        crate::uv::line_texts(lines).len() == lines.len(),
        forall|i: int|
            0 <= i < lines.len() ==> #[trigger] crate::uv::line_texts(lines)[i] == (
                lines[i].number as int,
                lines[i].text@,
            ),
        (ManifestError::Parse { line, cause: text })@ == (ManifestErrorView::Parse {
            line: line as int,
            cause: text@,
        }),
        (ManifestError::MissingVersion { version: text })@ == (ManifestErrorView::MissingVersion {
            version: text@,
        }),
        (DownloadError::Status { status: text })@ == (DownloadErrorView::Status { status: text@ }),
        DownloadError::Manifest(manifest)@ == DownloadErrorView::Manifest(manifest@),
        DownloadError::Url(url)@ == DownloadErrorView::Url(url),
        UvVersionError::Failed@ is Failed,
        UvVersionError::Format@ is Format,
        (UvVersionError::Version { message: text })@ == (UvVersionErrorView::Version {
            message: text@,
        }),
        (UvVersionError::OutOfRange { version })@ == (UvVersionErrorView::OutOfRange {
            version: version@,
        }),
        UvStep::Probe(probe)@ == UvStepView::Probe(probe),
        UvStep::Lock@ is Lock,
        UvStep::Install@ is Install,
        UvStep::Use(uv)@ == UvStepView::Use(uv.path@),
        crate::uv::artifact_result(Ok(artifact)) == Ok::<UvArtifactView, ManifestErrorView>(
            artifact@,
        ),
        crate::uv::artifact_result(Err(manifest)) == Err::<UvArtifactView, ManifestErrorView>(
            manifest@,
        ),
        crate::uv::text_result(Ok::<String, ArtifactUrlError>(text)) == Ok::<
            Seq<char>,
            ArtifactUrlError,
        >(text@),
        crate::uv::text_result(Err::<String, ArtifactUrlError>(url)) == Err::<
            Seq<char>,
            ArtifactUrlError,
        >(url),
        crate::uv::download_result(Ok(download)) is Ok,
        crate::uv::download_result(Ok(download))->Ok_0.url == download.url@,
        crate::uv::download_result(Ok(download))->Ok_0.archive_name == download.archive_name@,
        crate::uv::download_result(Err(DownloadError::Manifest(manifest))) == Err::<
            ArtifactDownloadView,
            DownloadErrorView,
        >(DownloadErrorView::Manifest(manifest@)),
        crate::uv::download_result(Err(DownloadError::Url(url))) == Err::<
            ArtifactDownloadView,
            DownloadErrorView,
        >(DownloadErrorView::Url(url)),
        crate::uv::uv_version_result(Ok(version)) == Ok::<VersionView, UvVersionErrorView>(
            version@,
        ),
        crate::uv::uv_version_result(Err(UvVersionError::OutOfRange { version })) == Err::<
            VersionView,
            UvVersionErrorView,
        >(UvVersionErrorView::OutOfRange { version: version@ }),
        crate::uv::uv_version_result(Err(UvVersionError::Failed)) == Err::<
            VersionView,
            UvVersionErrorView,
        >(UvVersionErrorView::Failed),
        crate::uv::uv_version_result(Err(UvVersionError::Format)) == Err::<
            VersionView,
            UvVersionErrorView,
        >(UvVersionErrorView::Format),
        crate::uv::uv_version_result(Err(UvVersionError::Version { message: text })) == Err::<
            VersionView,
            UvVersionErrorView,
        >(UvVersionErrorView::Version { message: text@ }),
{
}

/// An artifact that is missing is shown with the version, the platform and the
/// format that were sought.
pub proof fn missing_artifacts_are_shown_as_they_are(
    version: String,
    platform: String,
    archive_format: String,
)
    ensures
        (ManifestError::MissingArtifact { version, platform, archive_format })@ == (
        ManifestErrorView::MissingArtifact {
            version: version@,
            platform: platform@,
            archive_format: archive_format@,
        }),
{
}

} // verus!
