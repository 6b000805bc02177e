use prek_python::paths::EnvPath;
use prek_python::store::Store;
use prek_python::uv::{
    astral_source_from_mirror_url, get_uv_version, manifest_lines, require_uv_version,
    uv_archive_format, uv_artifact_from_manifest, uv_version_from_text, uv_version_in_range,
    validate_uv_binary, ArtifactUrlError, AstralSource, DownloadError, EmptyMirror, ManifestEntry,
    ManifestError, Uv, UvArtifact, UvProbe, UvProbeOutcome, UvStep, UvVersionError,
    UvVersionManifest, CUR_UV_VERSION,
};
use prek_python::version::Version;

fn field(value: &serde_json::Value, name: &str) -> Result<String, String> {
    match value.get(name).and_then(|value| value.as_str()) {
        Some(text) => Ok(text.to_string()),
        None => Err(format!("no {name}")),
    }
}

fn release(text: &str) -> Result<UvVersionManifest, String> {
    let value: serde_json::Value =
        serde_json::from_str(text).map_err(|error| error.to_string())?;
    let mut artifacts = Vec::new();
    for artifact in value["artifacts"].as_array().ok_or("no artifacts")? {
        artifacts.push(UvArtifact {
            platform: field(artifact, "platform")?,
            variant: field(artifact, "variant")?,
            url: field(artifact, "url")?,
            archive_format: field(artifact, "archive_format")?,
        });
    }
    Ok(UvVersionManifest {
        version: field(&value, "version")?,
        artifacts,
    })
}

fn entries(manifest: &str) -> Vec<ManifestEntry> {
    manifest_lines(manifest)
        .iter()
        .map(|line| ManifestEntry {
            line: line.number,
            release: release(&line.text),
        })
        .collect()
}

fn select(
    manifest: &str,
    version: &str,
    platform: &str,
    archive_format: &str,
) -> Result<UvArtifact, ManifestError> {
    uv_artifact_from_manifest(&entries(manifest), version, platform, archive_format)
}

fn artifact(url: &str) -> UvArtifact {
    UvArtifact {
        platform: "x86_64-unknown-linux-gnu".to_string(),
        variant: "default".to_string(),
        url: url.to_string(),
        archive_format: "tar.gz".to_string(),
    }
}

#[test]
fn ensure_cur_uv_version_in_range() {
    let version = Version::parse(CUR_UV_VERSION).expect("Invalid CUR_UV_VERSION");
    assert!(
        uv_version_in_range(&version),
        "CUR_UV_VERSION {CUR_UV_VERSION} does not satisfy the version requirement"
    );
}

#[test]
fn parses_manifest_and_selects_default_host_artifact() {
    let manifest = r#"
{"version":"0.11.13","date":"2026-05-01T00:00:00Z","artifacts":[{"platform":"x86_64-unknown-linux-gnu","variant":"default","url":"https://github.com/astral-sh/uv/releases/download/0.11.13/uv-x86_64-unknown-linux-gnu.tar.gz","archive_format":"tar.gz","sha256":"ignored"}]}
{"version":"0.11.14","date":"2026-05-02T00:00:00Z","artifacts":[{"platform":"x86_64-unknown-linux-gnu","variant":"minimal","url":"https://github.com/astral-sh/uv/releases/download/0.11.14/uv-x86_64-unknown-linux-gnu.tar.gz","archive_format":"tar.gz","sha256":"ignored"},{"platform":"x86_64-unknown-linux-gnu","variant":"default","url":"https://github.com/astral-sh/uv/releases/download/0.11.14/uv-x86_64-unknown-linux-gnu.tar.gz","archive_format":"tar.gz","sha256":"ignored"},{"platform":"aarch64-apple-darwin","variant":"default","url":"https://github.com/astral-sh/uv/releases/download/0.11.14/uv-aarch64-apple-darwin.tar.gz","archive_format":"tar.gz","sha256":"ignored"},{"platform":"x86_64-pc-windows-msvc","variant":"default","url":"https://github.com/astral-sh/uv/releases/download/0.11.14/uv-x86_64-pc-windows-msvc.zip","archive_format":"zip","sha256":"ignored"}]}
"#;

    let artifact = select(manifest, "0.11.14", "x86_64-unknown-linux-gnu", "tar.gz").unwrap();

    assert_eq!(artifact.platform, "x86_64-unknown-linux-gnu");
    assert_eq!(artifact.variant, "default");
    assert_eq!(
        artifact.archive_name(),
        "uv-x86_64-unknown-linux-gnu.tar.gz"
    );
}

#[test]
fn manifest_selection_requires_matching_version_platform_and_format() {
    let manifest = r#"
{"version":"0.11.14","artifacts":[{"platform":"x86_64-unknown-linux-gnu","variant":"default","url":"https://github.com/astral-sh/uv/releases/download/0.11.14/uv-x86_64-unknown-linux-gnu.tar.gz","archive_format":"tar.gz","sha256":"ignored"}]}
"#;

    assert!(select(manifest, "0.11.13", "x86_64-unknown-linux-gnu", "tar.gz").is_err());
    assert!(select(manifest, "0.11.14", "aarch64-apple-darwin", "tar.gz").is_err());
    assert!(select(manifest, "0.11.14", "x86_64-unknown-linux-gnu", "zip").is_err());
}

#[test]
fn manifest_selection_requires_matching_artifact_url() {
    let wrong_filename_manifest = r#"
{"version":"0.11.14","artifacts":[{"platform":"x86_64-unknown-linux-gnu","variant":"default","url":"https://github.com/astral-sh/uv/releases/download/0.11.14/uv-aarch64-unknown-linux-gnu.tar.gz","archive_format":"tar.gz","sha256":"ignored"}]}
"#;
    let wrong_version_manifest = r#"
{"version":"0.11.14","artifacts":[{"platform":"x86_64-unknown-linux-gnu","variant":"default","url":"https://github.com/astral-sh/uv/releases/download/0.11.13/uv-x86_64-unknown-linux-gnu.tar.gz","archive_format":"tar.gz","sha256":"ignored"}]}
"#;

    assert!(select(
        wrong_filename_manifest,
        "0.11.14",
        "x86_64-unknown-linux-gnu",
        "tar.gz",
    )
    .is_err());
    assert!(select(
        wrong_version_manifest,
        "0.11.14",
        "x86_64-unknown-linux-gnu",
        "tar.gz",
    )
    .is_err());
}

#[test]
fn astral_source_builds_default_urls() {
    let source = AstralSource::default();
    let artifact = artifact("https://github.com/astral-sh/uv/releases/download/0.11.14/uv-x86_64-unknown-linux-gnu.tar.gz");

    assert_eq!(
        source.manifest_url(),
        "https://releases.astral.sh/github/versions/main/v1/uv.ndjson"
    );
    assert_eq!(
        source.download_url(&artifact).unwrap(),
        "https://releases.astral.sh/github/uv/releases/download/0.11.14/uv-x86_64-unknown-linux-gnu.tar.gz"
    );
}

#[test]
fn astral_mirror_replaces_releases_base_url() {
    let source = AstralSource::mirror("https://mirror.example.com/astral///").unwrap();
    let artifact = artifact("https://github.com/astral-sh/uv/releases/download/0.11.14/uv-x86_64-unknown-linux-gnu.tar.gz");

    assert_eq!(
        source.manifest_url(),
        "https://mirror.example.com/astral/github/versions/main/v1/uv.ndjson"
    );
    assert_eq!(
        source.download_url(&artifact).unwrap(),
        "https://mirror.example.com/astral/github/uv/releases/download/0.11.14/uv-x86_64-unknown-linux-gnu.tar.gz"
    );
}

#[test]
fn astral_mirror_rejects_non_astral_artifact_urls() {
    let source = AstralSource::mirror("https://mirror.example.com/astral").unwrap();
    let wrong_host_artifact = artifact("https://example.com/astral-sh/uv/releases/download/0.11.14/uv-x86_64-unknown-linux-gnu.tar.gz");
    let wrong_github_repo_artifact = artifact("https://github.com/astral-sh/ruff/releases/download/0.11.14/uv-x86_64-unknown-linux-gnu.tar.gz");
    let wrong_astral_repo_artifact = artifact("https://releases.astral.sh/github/ruff/releases/download/0.11.14/uv-x86_64-unknown-linux-gnu.tar.gz");

    assert!(source.download_url(&wrong_host_artifact).is_err());
    assert!(source.download_url(&wrong_github_repo_artifact).is_err());
    assert!(source.download_url(&wrong_astral_repo_artifact).is_err());
}

#[test]
fn astral_source_preserves_already_mirrored_artifact_urls() {
    let source = AstralSource::default();
    let artifact = artifact("https://releases.astral.sh/github/uv/releases/download/0.11.14/uv-x86_64-unknown-linux-gnu.tar.gz");

    assert_eq!(
        source.download_url(&artifact).unwrap(),
        "https://releases.astral.sh/github/uv/releases/download/0.11.14/uv-x86_64-unknown-linux-gnu.tar.gz"
    );
}

#[test]
fn env_selection_uses_default_astral_source() {
    let source = astral_source_from_mirror_url(None).unwrap();

    assert!(source.base_url == "https://releases.astral.sh");
}

#[test]
fn env_selection_uses_astral_mirror() {
    let source =
        astral_source_from_mirror_url(Some("https://mirror.example.com/astral/".to_string()))
            .unwrap();

    assert!(source.base_url == "https://mirror.example.com/astral");
}

#[test]
fn env_selection_rejects_empty_astral_mirror() {
    let source = astral_source_from_mirror_url(Some("///".to_string()));
    assert!(source.is_err());
}

#[test]
fn parses_manifest_for_current_host_artifact() {
    let host = target_lexicon::HOST.to_string();
    let windows =
        target_lexicon::HOST.operating_system == target_lexicon::OperatingSystem::Windows;
    let manifest = format!(
        r#"{{"version":"{CUR_UV_VERSION}","date":"2026-05-02T00:00:00Z","artifacts":[{{"platform":"{}","variant":"default","url":"https://github.com/astral-sh/uv/releases/download/{CUR_UV_VERSION}/uv-{}.{}","archive_format":"{}","sha256":"ignored"}}]}}"#,
        host,
        host,
        uv_archive_format(windows),
        uv_archive_format(windows),
    );

    let artifact = select(
        &manifest,
        CUR_UV_VERSION,
        &host,
        uv_archive_format(windows),
    )
    .unwrap();
    assert_eq!(artifact.platform, host);
    assert_eq!(artifact.archive_format, uv_archive_format(windows));

    let download = AstralSource::default()
        .download_for_host(&entries(&manifest), windows)
        .unwrap();
    assert_eq!(
        download.archive_name,
        format!("uv-{}.{}", host, uv_archive_format(windows))
    );
    assert_eq!(
        download.url,
        format!(
            "https://releases.astral.sh/github/uv/releases/download/{CUR_UV_VERSION}/{}",
            download.archive_name
        )
    );
}

#[test]
fn archives_are_zipped_on_windows() {
    assert_eq!(uv_archive_format(true), "zip");
    assert_eq!(uv_archive_format(false), "tar.gz");
}

#[test]
fn mirrors_lose_slashes_at_their_end_only() {
    assert_eq!(AstralSource::mirror("/a//b//").unwrap().base_url, "/a//b");
    assert_eq!(AstralSource::mirror(""), Err(EmptyMirror));
    assert_eq!(
        EmptyMirror.message(),
        "UV_ASTRAL_MIRROR_URL must not be empty"
    );
    assert_eq!(
        AstralSource::mirror("https://m").unwrap().url("/x"),
        "https://m/x"
    );
}

#[test]
fn artifact_paths_are_those_of_uv_releases() {
    let path = |url: &str| artifact(url).astral_path();
    assert_eq!(
        path("https://releases.astral.sh/github/uv/releases/download/1/x"),
        Ok("/github/uv/releases/download/1/x".to_string())
    );
    assert_eq!(
        path("https://releases.astral.sh/github/ruff/x"),
        Err(ArtifactUrlError::NotUvRelease)
    );
    assert_eq!(
        path("https://releases.astral.sh.evil.example/github/uv/releases/download/1/x"),
        Err(ArtifactUrlError::UnsupportedSource)
    );
    assert_eq!(
        path("https://github.com/astral-sh/uv/releases/download/"),
        Ok("/github/uv/releases/download/".to_string())
    );
    assert_eq!(path(""), Err(ArtifactUrlError::UnsupportedSource));
    assert_eq!(
        ArtifactUrlError::NotUvRelease.message(),
        "uv manifest artifact URL is not an Astral uv release URL"
    );
    assert_eq!(
        ArtifactUrlError::UnsupportedSource.message(),
        "uv manifest artifact URL is not under a supported source"
    );
}

#[test]
fn blank_lines_count_and_are_skipped() {
    let lines = manifest_lines("\n  a \r\n\t\n\u{3000}b\u{a0}\n\n");
    let seen: Vec<(usize, &str)> = lines
        .iter()
        .map(|line| (line.number, line.text.as_str()))
        .collect();
    assert_eq!(seen, vec![(2, "a"), (4, "b")]);
    assert!(manifest_lines("").is_empty());
    assert!(manifest_lines(" \n ").is_empty());
    assert_eq!(manifest_lines("x").len(), 1);
}

#[test]
fn the_first_line_with_the_version_decides() {
    let good = r#"{"version":"1.0.0","artifacts":[{"platform":"p","variant":"default","url":"https://x/1.0.0/uv-p.zip","archive_format":"zip"}]}"#;
    let empty = r#"{"version":"1.0.0","artifacts":[]}"#;
    let other = r#"{"version":"0.9.0","artifacts":[]}"#;

    let found = select(&format!("{other}\n{good}\nbroken"), "1.0.0", "p", "zip").unwrap();
    assert_eq!(found.url, "https://x/1.0.0/uv-p.zip");
    assert!(found.matches("1.0.0", "p", "zip"));
    assert!(!found.matches("1.0", "p", "zip"));

    let missing = select(&format!("{empty}\n{good}"), "1.0.0", "p", "zip").unwrap_err();
    assert_eq!(
        missing.message(),
        "Could not find uv 1.0.0 artifact for platform `p` and archive format `zip` in Astral's versions manifest. Install a compatible system uv or set UV_ASTRAL_MIRROR_URL to a mirror that provides the required artifact."
    );

    let absent = select(other, "1.0.0", "p", "zip").unwrap_err();
    assert_eq!(
        absent.message(),
        "Could not find uv 1.0.0 in Astral's versions manifest"
    );

    let broken = select(&format!("\nbroken\n{good}"), "1.0.0", "p", "zip").unwrap_err();
    assert_eq!(broken.message(), "Failed to parse uv manifest line 2");
    match broken {
        ManifestError::Parse { line, cause } => {
            assert_eq!(line, 2);
            assert!(!cause.is_empty());
        }
        _ => panic!("a broken line is reported"),
    }
}

#[test]
fn downloads_are_chosen_for_the_current_version() {
    let line = |url: &str| {
        format!(
            r#"{{"version":"{CUR_UV_VERSION}","artifacts":[{{"platform":"p","variant":"default","url":"{url}","archive_format":"zip"}}]}}"#
        )
    };
    let source = AstralSource::mirror("https://m/").unwrap();
    let good = line(&format!(
        "https://github.com/astral-sh/uv/releases/download/{CUR_UV_VERSION}/uv-p.zip"
    ));
    let download = source.download_for(&entries(&good), "p", "zip").unwrap();
    assert_eq!(
        download.url,
        format!("https://m/github/uv/releases/download/{CUR_UV_VERSION}/uv-p.zip")
    );
    assert_eq!(download.archive_name, "uv-p.zip");

    let foreign = line(&format!("https://elsewhere/{CUR_UV_VERSION}/uv-p.zip"));
    assert_eq!(
        source.download_for(&entries(&foreign), "p", "zip"),
        Err(DownloadError::Url(ArtifactUrlError::UnsupportedSource))
    );
    let absent = source.download_for(&vec![], "p", "zip").unwrap_err();
    assert_eq!(
        absent.message(),
        format!("Could not find uv {CUR_UV_VERSION} in Astral's versions manifest")
    );
    assert_eq!(AstralSource::check_response(true, "200 OK"), Ok(()));
    assert_eq!(
        AstralSource::check_response(false, "404 Not Found")
            .unwrap_err()
            .message(),
        "Failed to fetch uv versions manifest: 404 Not Found"
    );
}

#[test]
fn versions_are_the_second_word_of_the_output() {
    let stated = |text: &str| uv_version_from_text(true, text).map(|version| version.text());
    assert_eq!(stated("uv 0.11.14\n"), Ok("0.11.14".to_string()));
    assert_eq!(
        stated("  uv\t0.11.14 (abc 2026-01-01)"),
        Ok("0.11.14".to_string())
    );
    assert_eq!(
        stated("uv 0.7.0-rc.1+linux"),
        Ok("0.7.0-rc.1+linux".to_string())
    );
    assert_eq!(stated("uv"), Err(UvVersionError::Format));
    assert_eq!(stated(" "), Err(UvVersionError::Format));
    assert_eq!(
        stated("uv 01.0.0"),
        Err(UvVersionError::Version {
            message: "invalid leading zero in major version number".to_string()
        })
    );
    assert_eq!(
        uv_version_from_text(false, "uv 0.11.14"),
        Err(UvVersionError::Failed)
    );
    assert_eq!(
        get_uv_version(true, &b"\xff 0.11.14".to_vec()).map(|version| version.text()),
        Ok("0.11.14".to_string())
    );
    assert_eq!(
        get_uv_version(false, &vec![]),
        Err(UvVersionError::Failed)
    );
}

#[test]
fn binaries_need_a_release_in_range() {
    let check = |text: &str| validate_uv_binary(true, &text.as_bytes().to_vec());
    assert_eq!(check("uv 0.7.0"), Ok(Version::new(0, 7, 0)));
    assert_eq!(check("uv 1.0.0"), Ok(Version::new(1, 0, 0)));
    assert!(check("uv 0.6.99").is_err());
    // A prerelease is not in the range, whatever its numbers.
    let early = check("uv 0.8.0-alpha.1").unwrap_err();
    assert_eq!(
        early.message(),
        "uv version `0.8.0-alpha.1` does not satisfy required range `>=0.7.0`"
    );
    assert!(check("uv 0.7.0+local").is_ok());
    assert_eq!(
        check("nothing").unwrap_err().message(),
        "Invalid version output format"
    );
    assert_eq!(
        UvVersionError::Failed.message(),
        "Failed to get uv version"
    );
    assert!(require_uv_version(Version::new(0, 6, 0)).is_err());
    // A later release is in range where an earlier one is.
    assert!(uv_version_in_range(&Version::new(0, 7, 1)));
}

#[test]
fn versions_agree_in_every_part() {
    let version = |text: &str| Version::parse(text).unwrap();
    assert!(version("1.2.3").equals(&Version::new(1, 2, 3)));
    assert!(!version("1.2.3-a").equals(&Version::new(1, 2, 3)));
    assert!(!version("1.2.3+a").equals(&Version::new(1, 2, 3)));
    assert!(version("1.2.3-a.1+b").equals(&version("1.2.3-a.1+b")));
    assert_eq!(version("1.2.3-a.1+b").text(), "1.2.3-a.1+b");
    assert_eq!(version("1.2.3-a.1+b").pre, "a.1");
    assert_eq!(version("1.2.3-a.1+b").build, "b");
    assert!(Version::parse("1.2").is_err());
}

#[test]
fn commands_of_uv_use_the_cache_of_the_store() {
    let store = Store {
        uv_cache: "/cache/uv".to_string(),
        python_tools: "/tools/python".to_string(),
    };
    let uv = Uv::new(EnvPath::new("/usr/bin/uv"));
    let cmd = uv.cmd("uv pip", &store);
    assert_eq!(cmd.program, EnvPath::new("/usr/bin/uv"));
    assert_eq!(cmd.summary, "uv pip");
    assert_eq!(
        cmd.env_change("UV_CACHE_DIR"),
        Some(Some("/cache/uv".to_string()))
    );
    assert_eq!(cmd.env_change("UV_PYTHON"), None);
}

#[test]
fn the_search_for_uv_takes_the_first_that_is_good_enough() {
    assert_eq!(Uv::install_start(), UvStep::Probe(UvProbe::Beside));
    let unlocked = UvProbe::Managed { locked: false };
    let locked = UvProbe::Managed { locked: true };
    let missing = |probe| Uv::after_probe(probe, UvProbeOutcome::Missing);
    let unfit = |probe| Uv::after_probe(probe, UvProbeOutcome::Incompatible);
    assert_eq!(missing(UvProbe::Beside), UvStep::Probe(UvProbe::System));
    assert_eq!(unfit(UvProbe::Beside), UvStep::Probe(UvProbe::System));
    assert_eq!(unfit(UvProbe::System), UvStep::Probe(UvProbe::System));
    assert_eq!(missing(UvProbe::System), UvStep::Probe(unlocked));
    assert_eq!(missing(unlocked), UvStep::Lock);
    assert_eq!(unfit(unlocked), UvStep::Lock);
    assert_eq!(Uv::after_lock(), UvStep::Probe(locked));
    assert_eq!(missing(locked), UvStep::Install);
    assert_eq!(unfit(locked), UvStep::Install);
    for probe in [UvProbe::Beside, UvProbe::System, unlocked, locked] {
        let path = EnvPath::new("/opt/uv");
        let outcome = UvProbeOutcome::Compatible { path };
        assert_eq!(
            Uv::after_probe(probe, outcome),
            UvStep::Use(Uv::new(EnvPath::new("/opt/uv")))
        );
    }
}

#[test]
fn an_installed_binary_is_validated() {
    let path = Uv::binary_in(&EnvPath::new("/tools/uv"), "exe");
    assert_eq!(path.base, "/tools/uv");
    assert_eq!(path.names, vec!["uv.exe".to_string()]);
    assert_eq!(
        Uv::binary_in(&EnvPath::new("/tools/uv"), "").names,
        vec!["uv".to_string()]
    );
    let used = Uv::after_install(path, "/tools/uv/uv.exe", Ok(())).unwrap();
    assert_eq!(used.path.names, vec!["uv.exe".to_string()]);
    let failed = Uv::after_install(
        EnvPath::new("/tools/uv"),
        "/tools/uv/uv",
        Err("Failed to execute uv".to_string()),
    )
    .unwrap_err();
    assert_eq!(
        failed,
        "Installed uv at `/tools/uv/uv` failed validation: Failed to execute uv. This usually means the downloaded uv binary is incompatible with the current runtime environment, for example due to a libc mismatch or a missing dynamic loader path. If this keeps happening, please report it with details about your environment and the full error output."
    );
}
