use dko_launcher::settings::{configure, local_entries, BuildError, Setting, SETTINGS};

fn values() -> Vec<Option<String>> {
    [
        "/game/manifest", "/game/files/", "DKO.exe", "/launcher/manifest", "/launcher/files/",
        "/launch/", "/ack", "/status", "/transport", "DivineKnockoutPK", "runtime-v1", "1.2.3.4",
        "AAAAAAAAAAAAAAAAAAAAAAAAAAAAAAAAAAAAAAAAAAAAAAAAAAAAAAAAAAAAAAAA",
        "bbbbbbbbbbbbbbbbbbbbbbbbbbbbbbbbbbbbbbbbbbbbbbbbbbbbbbbbbbbbbbbb", "10.20.30",
    ]
    .iter()
    .map(|v| Some((*v).to_owned()))
    .collect()
}

fn with(setting: usize, value: &str) -> Result<(), BuildError> {
    let mut all = values();
    all[setting] = Some(value.to_owned());
    configure(&all, &Vec::new()).map(|_| ())
}

#[test]
fn settings_are_taken_over_and_digests_lowered() {
    let build = configure(&values(), &Vec::new()).ok().unwrap();
    assert_eq!(build.get(Setting::GameExecutableName), "DKO.exe");
    assert_eq!(build.get(Setting::TargetExeSha256), "a".repeat(64));
    assert_eq!(build.get(Setting::LauncherVersion), "10.20.30");
    assert_eq!(SETTINGS, 15);
}

#[test]
fn the_environment_comes_before_the_local_file() {
    let mut all = values();
    all[5] = None;
    let local = local_entries("# comment\n\n KNOCKOUT_LAUNCH_PREFIX = /go/ \nKNOCKOUT_LAUNCH_ACK_PATH=/other\n").ok().unwrap();
    let build = configure(&all, &local).ok().unwrap();
    assert_eq!(build.get(Setting::LaunchPrefix), "/go/");
    assert_eq!(build.get(Setting::LaunchAckPath), "/ack");
}

#[test]
fn a_missing_setting_is_reported_in_order() {
    let mut all = values();
    all[2] = None;
    all[9] = None;
    let error = configure(&all, &Vec::new()).err().unwrap();
    assert_eq!(error, BuildError::Missing { setting: Setting::GameExecutableName });
    assert_eq!(
        error.message(),
        "set KNOCKOUT_GAME_EXECUTABLE_NAME in the environment or a local .env before building"
    );
}

#[test]
fn invalid_settings_are_refused() {
    assert_eq!(with(0, "game"), Err(BuildError::Invalid { setting: Setting::GameManifestPath }));
    for bad in ["", "//a", "/a?b", "/a#b", "/a\\b", "/a%b", "/a:b", "/a/../b", "/./a", "/a\u{7}"] {
        assert!(with(0, bad).is_err(), "{bad:?}");
    }
    assert!(with(0, "/a//b").is_ok());
    let open = with(1, "/files").unwrap_err();
    assert_eq!(open, BuildError::OpenPrefix { setting: Setting::GameFilesPrefix });
    assert_eq!(open.message(), "KNOCKOUT_GAME_FILES_PREFIX must end with /");
    assert!(with(2, "game").is_err());
    assert!(with(2, "a/game.exe").is_err());
    assert!(with(9, "Knockout").is_err());
    assert!(with(9, "DivineKnockout/x").is_err());
    assert!(with(10, "..").is_err());
    assert!(with(11, "1.2.3").is_err());
    assert!(with(11, "1.2.3.65536").is_err());
    assert!(with(11, "1.2.3.").is_err());
    assert!(with(11, "1.2.3.0065535").is_ok());
    assert!(with(14, "1.2.3.4").is_err());
    assert!(with(12, "abc").is_err());
    assert!(with(12, &"g".repeat(64)).is_err());
    assert_eq!(with(12, "").unwrap_err().message(), "invalid KNOCKOUT_TARGET_EXE_SHA256");
}

#[test]
fn the_local_file_must_be_well_formed() {
    assert_eq!(local_entries("KEY").err(), Some(BuildError::Entry));
    assert_eq!(local_entries("A=1\nA = 2").err(), Some(BuildError::DuplicateKey));
    assert_eq!(BuildError::Entry.message(), ".env entries must be KEY=value");
    assert_eq!(BuildError::DuplicateKey.message(), "duplicate .env key");
    let entries = local_entries("A=1=2\r\n#B=3\n").ok().unwrap();
    assert_eq!(entries, vec![(vec!['A'], vec!['1', '=', '2'])]);
}

#[test]
fn settings_know_their_names() {
    let names: Vec<&str> = (0..SETTINGS).map(|i| Setting::at(i).name()).collect();
    assert_eq!(names[8], "KNOCKOUT_TRANSPORT_PATH");
    assert_eq!(names[14], "KNOCKOUT_LAUNCHER_VERSION");
}

#[test]
fn the_version_is_packed_into_four_numbers() {
    let build = configure(&values(), &Vec::new()).ok().unwrap();
    assert_eq!(build.packed_version(), 0x000a_0014_001e_0000);
    let mut all = values();
    all[14] = Some("65535.0.1".to_owned());
    assert_eq!(configure(&all, &Vec::new()).ok().unwrap().packed_version(), 0xffff_0000_0001_0000);
}
