use dko_launcher::game_manifest::{
    client_executable, validate_manifest, validate_relative_path, GameManifest, ManagedFile, ManifestError,
};
use dko_launcher::launch::{is_published, launcher_download_path, launcher_not_published, platform, published_launcher};
use dko_launcher::launcher_update::{self, LauncherArtifact, LauncherManifest, ReleaseError};
use dko_launcher::paths;
use dko_launcher::settings::{configure, Build};

fn build() -> Build {
    let values: Vec<Option<String>> = [
        "/game/manifest", "/game/files/", "DKO.exe", "/launcher/manifest", "/launcher/files/", "/launch/",
        "/ack", "/status", "/transport", "DivineKnockoutPK", "runtime-v1", "1.2.3.4", &"a".repeat(64),
        &"b".repeat(64), "1.2.3",
    ]
    .iter()
    .map(|v| Some((*v).to_owned()))
    .collect();
    configure(&values, &Vec::new()).ok().unwrap()
}

fn file(path: &str, digit: &str) -> ManagedFile {
    let sha256 = digit.repeat(64);
    ManagedFile {
        path: path.to_owned(),
        size: 1,
        download_path: format!("/game/files/{sha256}"),
        sha256,
    }
}

fn manifest(files: Vec<ManagedFile>) -> GameManifest {
    GameManifest {
        schema: 2,
        version: "v1".to_owned(),
        target_build: "1.2.3.4".to_owned(),
        target_exe_sha256: "a".repeat(64),
        target_pak_sha256: "b".repeat(64),
        managed_files: files,
    }
}

fn exe() -> ManagedFile {
    file("DivineKnockout/Binaries/Win64/DKO.exe", "c")
}

#[test]
fn a_manifest_is_accepted() {
    let manifest = manifest(vec![exe(), file("DivineKnockout/Content/A.pak", "D")]);
    assert_eq!(validate_manifest(&manifest, &build()), Ok(()));
    assert_eq!(client_executable(&manifest, &build()).ok().unwrap().path, "DivineKnockout/Binaries/Win64/DKO.exe");
}

#[test]
fn manifests_for_other_builds_are_refused() {
    let build = build();
    let refused = |change: fn(&mut GameManifest)| {
        let mut manifest = manifest(vec![exe()]);
        change(&mut manifest);
        validate_manifest(&manifest, &build)
    };
    assert_eq!(refused(|m| m.schema = 1), Err(ManifestError::Unsupported));
    assert_eq!(refused(|m| m.target_build = "1.2.3.5".to_owned()), Err(ManifestError::Unsupported));
    assert_eq!(refused(|m| m.target_exe_sha256 = "A".repeat(64)), Err(ManifestError::Unsupported));
    assert_eq!(refused(|m| m.target_pak_sha256.clear()), Err(ManifestError::Unsupported));
    assert_eq!(refused(|m| m.version.clear()), Err(ManifestError::Unsupported));
    assert_eq!(refused(|m| m.managed_files.clear()), Err(ManifestError::Unsupported));
    assert_eq!(ManifestError::Unsupported.message(), "game manifest is not for the supported DKO build");
}

#[test]
fn file_metadata_is_checked() {
    let build = build();
    let refused = |change: fn(&mut ManagedFile)| {
        let mut odd = file("DivineKnockout/x", "d");
        change(&mut odd);
        validate_manifest(&manifest(vec![exe(), odd]), &build)
    };
    assert_eq!(refused(|_| {}), Ok(()));
    assert_eq!(refused(|f| f.size = 0), Err(ManifestError::Metadata));
    assert_eq!(refused(|f| f.sha256 = "d".repeat(63)), Err(ManifestError::Metadata));
    assert_eq!(refused(|f| f.sha256 = "g".repeat(64)), Err(ManifestError::Metadata));
    assert_eq!(refused(|f| f.download_path = "/other".to_owned()), Err(ManifestError::Metadata));
    assert_eq!(refused(|f| f.path = "Other/x".to_owned()), Err(ManifestError::Metadata));
    assert_eq!(refused(|f| f.path = "DivineKnockout/Binaries/win64/dko.EXE".to_owned()), Err(ManifestError::Metadata));
    assert_eq!(refused(|f| f.path = "DivineKnockout/../x".to_owned()), Err(ManifestError::UnsafePath));
    assert_eq!(ManifestError::Metadata.message(), "game manifest contains invalid file metadata");
    assert_eq!(ManifestError::UnsafePath.message(), "unsafe game file path");
}

#[test]
fn sizes_must_add_up() {
    let mut large = file("DivineKnockout/x", "d");
    large.size = u64::MAX;
    let error = validate_manifest(&manifest(vec![exe(), large]), &build()).unwrap_err();
    assert_eq!(error, ManifestError::SizeOverflow);
    assert_eq!(error.message(), "game download size overflow");
}

#[test]
fn files_and_directories_must_not_collide() {
    let error =
        validate_manifest(&manifest(vec![exe(), file("DivineKnockout/A", "d"), file("DivineKnockout/a/b", "e")]), &build())
            .unwrap_err();
    assert_eq!(error, ManifestError::Overlap);
    assert_eq!(error.message(), "game manifest contains overlapping file paths");
    let near = manifest(vec![exe(), file("DivineKnockout/A", "d"), file("DivineKnockout/ab/b", "e")]);
    assert_eq!(validate_manifest(&near, &build()), Ok(()));
}

#[test]
fn the_executable_must_be_there_once() {
    let error = validate_manifest(&manifest(vec![file("DivineKnockout/x", "d")]), &build()).unwrap_err();
    assert_eq!(error, ManifestError::NoExecutable);
    assert_eq!(error.message(), "server manifest omitted the game executable");
    let twice = manifest(vec![exe(), exe()]);
    assert_eq!(client_executable(&twice, &build()).err(), Some(ManifestError::RepeatedExecutable));
    assert_eq!(ManifestError::RepeatedExecutable.message(), "server manifest repeats the game executable");
    assert_eq!(validate_manifest(&twice, &build()), Err(ManifestError::Metadata));
}

#[test]
fn relative_paths() {
    for good in ["a", "a/b.c", "DivineKnockout/com10", "a b/c", "COM", "lpt0", "\u{e9}"] {
        assert_eq!(validate_relative_path(good.as_bytes()), Ok(()), "{good}");
    }
    for bad in [
        "", "/a", "a/", "a//b", ".", "..", "a/..", "a.", "a ", "a\\b", "a:b", "a%b", "a?", "a*", "a\"", "a<", "a>",
        "a|", "a\u{1}", "con", "a/CON.txt", "nul.x.y", "COM1", "a/lpt9.log", "Aux", "prn",
    ] {
        assert_eq!(validate_relative_path(bad.as_bytes()), Err(ManifestError::UnsafePath), "{bad:?}");
    }
    assert_eq!(validate_relative_path(b"a\xff"), Err(ManifestError::PathNotUtf8));
    assert_eq!(ManifestError::PathNotUtf8.message(), "game file path is not valid UTF-8");
}

#[test]
fn managed_files_stay_below_their_directory() {
    for good in ["a", "DivineKnockout/x.y/z", "\u{e9}/b"] {
        assert_eq!(validate_relative_path(good.as_bytes()), Ok(()));
        assert!(paths::join(b"/runtime", good.as_bytes()).starts_with(b"/runtime/"));
    }
}

fn release() -> LauncherManifest {
    LauncherManifest {
        schema: 1,
        version: "9".to_owned(),
        target_build: "1.2.3.4".to_owned(),
        target_exe_sha256: "a".repeat(64),
        target_pak_sha256: "b".repeat(64),
        launchers: vec![
            LauncherArtifact { platform: "windows-x86_64".to_owned(), size: 5, sha256: "1".repeat(64) },
            LauncherArtifact { platform: "linux-x86_64".to_owned(), size: 6, sha256: "2".repeat(64) },
        ],
    }
}

#[test]
fn launcher_manifests_are_checked() {
    let build = build();
    assert_eq!(launcher_update::validate_manifest(&release(), &build), Ok(()));
    let refused = |change: fn(&mut LauncherManifest)| {
        let mut manifest = release();
        change(&mut manifest);
        launcher_update::validate_manifest(&manifest, &build).unwrap_err()
    };
    assert_eq!(refused(|m| m.schema = 2), ReleaseError::Unsupported);
    assert_eq!(refused(|m| m.target_build.clear()), ReleaseError::Unsupported);
    assert_eq!(refused(|m| m.launchers.clear()), ReleaseError::NoArtifacts);
    assert_eq!(refused(|m| m.launchers[1].size = 0), ReleaseError::Metadata);
    assert_eq!(refused(|m| m.launchers[0].platform = "macos".to_owned()), ReleaseError::Metadata);
    assert_eq!(refused(|m| m.launchers[0].sha256.push('0')), ReleaseError::Metadata);
    assert_eq!(ReleaseError::Unsupported.message(), "launcher manifest is not for the supported DKO build");
    assert_eq!(ReleaseError::NoArtifacts.message(), "launcher manifest contains no platform artifacts");
    assert_eq!(ReleaseError::Metadata.message(), "launcher manifest contains invalid artifact metadata");
}

#[test]
fn the_launcher_for_a_platform_is_found() {
    let release = release();
    let artifact = published_launcher(&release, platform(false)).unwrap();
    assert_eq!(artifact.size, 6);
    assert_eq!(published_launcher(&release, platform(true)).unwrap().size, 5);
    assert!(published_launcher(&release, "macos").is_none());
    assert_eq!(launcher_not_published("macos"), "server did not publish a launcher for macos");
    assert_eq!(launcher_download_path(&build(), artifact), format!("/launcher/files/{}", "2".repeat(64)));
    assert!(is_published(artifact, &Some("2".repeat(64))));
    assert!(!is_published(artifact, &Some("3".repeat(64))));
    assert!(!is_published(artifact, &None));
}
