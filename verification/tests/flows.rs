use dko_launcher::game_manifest::{GameManifest, ManagedFile};
use dko_launcher::generations::{
    message_of_install, next_install_step, next_replace_step, next_swap_step, InstallStep, ReplaceStep, StepResult,
    SwapStep,
};
use dko_launcher::install::{
    adjacent_runtime_directory, copy_refused, display_name, download_path, file_is_current, inactive_generations,
    installed_runtime_is_current, may_copy, retail_paths, runtime_directory, runtime_generation_directory,
    total_download_size, verify_executable, verify_retail_build, verify_version, version_file, FoundFile, InstalledRuntime,
    RetailError,
};
use dko_launcher::launch::{
    executable_missing, game_not_found, message_of_launch, message_of_setup, message_of_update, next_launch_step,
    next_setup_step, next_update_step, registry_command, registry_icon, repair_server, report_of_launch, Answer,
    LaunchStep, SetupStep, UpdateStep,
};
use dko_launcher::settings::{configure, Build};

fn build() -> Build {
    let values: Vec<Option<String>> = [
        "/game/manifest", "/game/files/", "DKO.exe", "/launcher/manifest", "/launcher/files/", "/launch/",
        "/ack", "/status", "/transport", "DivineKnockoutPK", "runtime-v1", "1.2.3.4", &"a".repeat(64),
        &"b".repeat(64), "1.2.3",
    ]
    .iter()
    .map(|v| Some((*v).to_owned()))
    .collect();
    configure(&values, &Vec::new()).ok().unwrap()
}

fn manifest() -> GameManifest {
    let sha256 = "c".repeat(64);
    GameManifest {
        schema: 2,
        version: "v1".to_owned(),
        target_build: "1.2.3.4".to_owned(),
        target_exe_sha256: "a".repeat(64),
        target_pak_sha256: "b".repeat(64),
        managed_files: vec![ManagedFile {
            path: "DivineKnockout/Binaries/Win64/DKO.exe".to_owned(),
            size: 7,
            download_path: format!("/game/files/{sha256}"),
            sha256,
        }],
    }
}

fn text(path: &[u8]) -> String {
    String::from_utf8(path.to_vec()).unwrap()
}

const EXE: &[u8] = b"/s/Divine Knockout/DivineKnockout/Binaries/Win64/DivineKnockout.exe";

#[test]
fn the_retail_game_around_an_executable() {
    let (root, pak) = retail_paths(EXE, false).ok().unwrap();
    assert_eq!(text(&root), "/s/Divine Knockout");
    assert_eq!(text(&pak), "/s/Divine Knockout/DivineKnockout/Content/Paks/pakchunk0-WindowsNoEditor.pak");
    assert_eq!(text(&version_file(&root, false)), "/s/Divine Knockout/DivineKnockout/Assembly/GameVersion.txt");
    let message = |path: &str| retail_paths(path.as_bytes(), false).err().unwrap().message();
    assert_eq!(
        message("/a.exe"),
        "selected executable is outside the expected DivineKnockout/Binaries/Win64 path"
    );
    assert_eq!(message("/a/b/c/d.exe"), "selected executable is outside a Divine Knockout installation");
    assert_eq!(message("/divineknockout/b/c/d.exe"), "selected executable is outside a Divine Knockout installation");
    assert_eq!(RetailError::NoRoot.message(), "selected DKO installation has no root");
    assert_eq!(RetailError::NoParent.message(), "selected DKO installation has no parent");
}

#[test]
fn only_the_supported_game_is_accepted() {
    let build = build();
    let (a, b) = ("a".repeat(64), "b".repeat(64));
    assert!(verify_retail_build(&build, " 1.2.3.4\r\n", &a, &b).is_ok());
    assert_eq!(
        verify_retail_build(&build, "1.2.3.5\n", &a, &b).err().unwrap().message(),
        "game launch requires DKO 1.2.3.4; selected installation is 1.2.3.5"
    );
    assert!(verify_version(&build, "1.2.3.4\n").is_ok());
    assert!(matches!(verify_version(&build, "1.2.3"), Err(RetailError::Version { .. })));
    assert!(verify_executable(&build, &a).is_ok());
    assert!(matches!(verify_executable(&build, &b), Err(RetailError::Files)));
    for (exe, pak) in [(&b, &b), (&a, &a)] {
        let error = verify_retail_build(&build, "1.2.3.4", exe, pak).err().unwrap();
        assert!(matches!(error, RetailError::Files));
        assert_eq!(error.message(), "selected DKO files do not match the supported stock build");
    }
}

#[test]
fn where_the_runtime_is() {
    assert_eq!(text(&adjacent_runtime_directory(EXE, false).ok().unwrap()), "/s/.project-knockout-dko-runtime");
    assert_eq!(text(&runtime_directory(b"/data", EXE, false).ok().unwrap()), "/s/.project-knockout-dko-runtime");
    assert!(matches!(runtime_directory(b"/d", b"/x", false), Err(RetailError::TooShallow)));
    let shallow = b"/DivineKnockout/Binaries/Win64/x.exe";
    assert!(matches!(adjacent_runtime_directory(shallow, false), Err(RetailError::NoParent)));
    assert_eq!(text(&runtime_generation_directory(b"/s/.run", "staging", false)), "/s/.run.staging");
    let inactive: Vec<String> = inactive_generations(b"/d", false).iter().map(|p| text(p)).collect();
    assert_eq!(inactive, ["/d/runtime.staging", "/d/runtime.previous"]);
}

#[test]
fn where_the_runtime_is_on_windows() {
    let runtime = |data: &str, exe: &str| {
        runtime_directory(data.as_bytes(), exe.as_bytes(), true).map(|p| text(&p)).map_err(|e| e.message())
    };
    let exe = "C:\\Steam\\G\\DivineKnockout\\Binaries\\Win64\\x.exe";
    assert_eq!(runtime("c:\\Data", exe).unwrap(), "c:\\Data\\runtime");
    assert_eq!(runtime("D:\\Data", exe).unwrap(), "C:\\Steam\\.project-knockout-dko-runtime");
    let at_root = "C:\\DivineKnockout\\Binaries\\Win64\\x.exe";
    assert_eq!(runtime("c:\\Data", at_root).unwrap(), "c:\\Data\\runtime");
    assert_eq!(runtime("D:\\Data", at_root).unwrap_err(), "selected DKO installation has no parent");
    assert_eq!(text(&retail_paths(at_root.as_bytes(), true).ok().unwrap().0), "C:\\");
    assert_eq!(
        runtime("D:\\Data", "C:\\a\\x.exe").unwrap_err(),
        "selected executable is outside the expected DivineKnockout/Binaries/Win64 path"
    );
    let shared = "\\\\?\\UNC\\one\\share\\G\\DivineKnockout\\Binaries\\Win64\\x.exe";
    assert_eq!(runtime("\\\\?\\UNC\\one\\share\\Data", shared).unwrap(), "\\\\?\\UNC\\one\\share\\Data\\runtime");
    assert_eq!(
        runtime("\\\\?\\UNC\\two\\share\\Data", shared).unwrap(),
        "\\\\?\\UNC\\one\\share\\.project-knockout-dko-runtime"
    );
    assert_eq!(text(&runtime_generation_directory(b"C:\\d\\runtime", "staging", true)), "C:\\d\\runtime.staging");
    let inactive: Vec<String> = inactive_generations(b"C:\\d", true).iter().map(|p| text(p)).collect();
    assert_eq!(inactive, ["C:\\d\\runtime.staging", "C:\\d\\runtime.previous"]);
    assert_eq!(
        copy_refused(b"D:\\a.pak", 99, "x"),
        "cannot create a space-efficient link for D:\\a.pak (99 bytes): x; refusing to copy a large retail file"
    );
}

#[test]
fn large_files_are_not_copied() {
    assert!(may_copy(64 * 1024 * 1024));
    assert!(!may_copy(64 * 1024 * 1024 + 1));
    assert_eq!(
        copy_refused(b"/a", 99, "cross-device"),
        "cannot create a space-efficient link for /a (99 bytes): cross-device; refusing to copy a large retail file"
    );
}

#[test]
fn a_runtime_is_current_file_by_file() {
    let build = build();
    let found = |size, digest: &str| vec![FoundFile { is_file: true, size, sha256: Some(digest.to_owned()) }];
    let record = |layout: &str| Some(InstalledRuntime { manifest: manifest(), layout: layout.to_owned() });
    let current = |record: &Option<InstalledRuntime>, found: &Vec<FoundFile>| {
        installed_runtime_is_current(&build, record, &manifest(), found)
    };
    let good = record("manifest-runtime-v1");
    assert!(current(&good, &found(7, &"C".repeat(64))));
    assert!(!current(&good, &found(8, &"c".repeat(64))));
    assert!(!current(&good, &found(7, &"d".repeat(64))));
    assert!(!current(&good, &Vec::new()));
    assert!(!current(&record("other"), &found(7, &"c".repeat(64))));
    assert!(!current(&None, &found(7, &"c".repeat(64))));
    let mut changed = manifest();
    changed.version = "v2".to_owned();
    let stale = Some(InstalledRuntime { manifest: changed, layout: "manifest-runtime-v1".to_owned() });
    assert!(!current(&stale, &found(7, &"c".repeat(64))));
    let file = &manifest().managed_files[0];
    assert!(!file_is_current(file, &FoundFile { is_file: false, size: 7, sha256: Some("c".repeat(64)) }));
    assert!(!file_is_current(file, &FoundFile { is_file: true, size: 7, sha256: None }));
}

#[test]
fn downloads_of_the_game() {
    let build = build();
    let manifest = manifest();
    let file = &manifest.managed_files[0];
    assert_eq!(total_download_size(&manifest), 7);
    assert_eq!(display_name("a/b.pak", false), "b.pak");
    assert_eq!(display_name("..", true), "..");
    assert_eq!(download_path(&build, &None, file), format!("/game/files/{}", "c".repeat(64)));
    assert_eq!(
        download_path(&build, &Some("dkl~t".to_owned()), file),
        format!("/launch/dkl~t/game/files/{}", "c".repeat(64))
    );
}

/// Replays a swap on three names; `fails` says which operation fails.
fn swap(current: Option<&str>, fails: &[SwapStep]) -> (SwapStep, [Option<String>; 3]) {
    let mut names = [current.map(str::to_owned), Some("new".to_owned()), None];
    let mut step = SwapStep::Look;
    loop {
        let failed = fails.contains(&step);
        let ok = match step {
            SwapStep::Look => names[0].is_some(),
            SwapStep::LookBack => names[2].is_some() && names[0].is_none(),
            SwapStep::SetAside if !failed => {
                names[2] = names[0].take();
                true
            }
            SwapStep::Activate if !failed => {
                names[0] = names[1].take();
                true
            }
            SwapStep::Restore if !failed => {
                names[0] = names[2].take();
                true
            }
            SwapStep::Finished | SwapStep::NotSetAside | SwapStep::NotActivated => return (step, names),
            _ => false,
        };
        step = next_swap_step(step, ok);
    }
}

#[test]
fn a_swap_never_loses_what_is_installed() {
    let new = Some("new".to_owned());
    let old = Some("old".to_owned());
    assert_eq!(swap(Some("old"), &[]), (SwapStep::Finished, [new.clone(), None, old.clone()]));
    assert_eq!(swap(None, &[]), (SwapStep::Finished, [new.clone(), None, None]));
    assert_eq!(swap(Some("old"), &[SwapStep::SetAside]), (SwapStep::NotSetAside, [old.clone(), new.clone(), None]));
    assert_eq!(swap(Some("old"), &[SwapStep::Activate]), (SwapStep::NotActivated, [old.clone(), new.clone(), None]));
    assert_eq!(
        swap(Some("old"), &[SwapStep::Activate, SwapStep::Restore]),
        (SwapStep::NotActivated, [None, new.clone(), old])
    );
    assert_eq!(swap(None, &[SwapStep::Activate]), (SwapStep::NotActivated, [None, new, None]));
}

#[test]
fn replacing_the_launcher() {
    let ok = StepResult { ok: true, denied: false };
    let denied = StepResult { ok: false, denied: true };
    let next = |step, result| next_replace_step(step, result, false, false);
    assert_eq!(next(ReplaceStep::RemoveStaged, ok), ReplaceStep::RemovePrevious);
    assert_eq!(next(ReplaceStep::RemovePrevious, ok), ReplaceStep::Copy);
    assert_eq!(next_replace_step(ReplaceStep::RemovePrevious, ok, true, false), ReplaceStep::Done);
    assert_eq!(next(ReplaceStep::Copy, ok), ReplaceStep::Swap { step: SwapStep::Look });
    assert_eq!(next(ReplaceStep::Swap { step: SwapStep::Activate }, ok), ReplaceStep::RemoveOld);
    assert_eq!(next(ReplaceStep::Swap { step: SwapStep::SetAside }, denied), ReplaceStep::Failed);
    assert_eq!(next(ReplaceStep::RemoveOld, ok), ReplaceStep::Done);
    assert_eq!(next(ReplaceStep::RemoveOld, denied), ReplaceStep::Failed);
    assert_eq!(next_replace_step(ReplaceStep::RemoveOld, denied, false, true), ReplaceStep::Done);
    for step in [ReplaceStep::RemoveStaged, ReplaceStep::RemovePrevious, ReplaceStep::Copy] {
        assert_eq!(next(step, denied), ReplaceStep::Failed);
    }
}

#[test]
fn installing_the_game() {
    let mut step = InstallStep::FetchManifest;
    let mut messages = Vec::new();
    let mut steps = 0;
    while !matches!(step, InstallStep::Done { .. } | InstallStep::Failed) {
        messages.extend(message_of_install(step));
        let ok = !matches!(step, InstallStep::Inspect);
        step = next_install_step(step, ok, 3);
        steps += 1;
    }
    assert_eq!(step, InstallStep::Done { updated: true });
    assert_eq!(steps, 17);
    messages.extend(message_of_install(step));
    assert_eq!(
        messages,
        [
            ("Checking the game update manifest", 240),
            ("Verifying DivineKnockout.exe and the stock game PAK", 280),
            ("Checking installed game update files", 360),
            ("Preparing the isolated game update", 420),
            ("Verifying downloaded game update files", 850),
            ("Installing the verified game update", 880),
            ("Game update installed", 900),
        ]
    );
    assert_eq!(next_install_step(InstallStep::Inspect, true, 3), InstallStep::Done { updated: false });
    assert_eq!(
        message_of_install(InstallStep::Done { updated: false }),
        Some(("Game update files are current", 900))
    );
    assert_eq!(next_install_step(InstallStep::Download { index: 1 }, false, 3), InstallStep::Failed);
    assert_eq!(next_install_step(InstallStep::Download { index: 1 }, true, 3), InstallStep::Download { index: 2 });
    assert_eq!(next_install_step(InstallStep::Download { index: 2 }, true, 3), InstallStep::Record);
}

#[test]
fn keeping_the_launcher_up_to_date() {
    let run = |answers: &[Answer]| answers.iter().fold(UpdateStep::FetchManifest, |step, answer| next_update_step(step, *answer));
    let (yes, no, failed) = (Answer::Yes, Answer::No, Answer::Failed);
    assert_eq!(run(&[yes, yes, failed, yes, yes]), UpdateStep::Current);
    assert_eq!(run(&[yes, yes, yes, yes, no, yes]), UpdateStep::Replaced);
    assert_eq!(run(&[yes, yes, yes, yes, failed]), UpdateStep::Failed);
    assert_eq!(run(&[yes, yes, yes, no, yes, yes, yes, yes, yes]), UpdateStep::Replaced);
    assert_eq!(run(&[yes, yes, yes, failed, no]), UpdateStep::Failed);
    assert_eq!(run(&[no]), UpdateStep::Failed);
    assert_eq!(message_of_update(UpdateStep::Stage), Some(("Verifying and installing launcher update", 205)));
    assert_eq!(message_of_update(UpdateStep::Restart), Some(("Launcher updated — restarting", 220)));
    assert_eq!(message_of_update(UpdateStep::Download), None);
}

#[test]
fn launching_the_game() {
    let (yes, no, failed) = (Answer::Yes, Answer::No, Answer::Failed);
    let mut step = LaunchStep::CheckRepair;
    let mut reports = Vec::new();
    let mut messages = Vec::new();
    while step != LaunchStep::Done {
        reports.extend(report_of_launch(step));
        messages.extend(message_of_launch(step));
        let answer = if matches!(step, LaunchStep::CheckRepair | LaunchStep::Update) { no } else { yes };
        step = next_launch_step(step, answer);
    }
    assert_eq!(reports, ["launcher_updating", "preflight_passed", "process_starting", "process_started"]);
    assert_eq!(messages.len(), 5);
    assert_eq!(messages[4], ("Starting Divine Knockout", 940));
    assert_eq!(next_launch_step(LaunchStep::CheckRepair, yes), LaunchStep::Repair);
    assert_eq!(next_launch_step(LaunchStep::Repair, no), LaunchStep::Failed);
    assert_eq!(next_launch_step(LaunchStep::Update, yes), LaunchStep::Done);
    assert_eq!(next_launch_step(LaunchStep::ReadLink, failed), LaunchStep::Failed);
    assert_eq!(next_launch_step(LaunchStep::ReportUpdating, failed), LaunchStep::Update);
    for step in [LaunchStep::Acknowledge, LaunchStep::Update, LaunchStep::VerifyGame, LaunchStep::Start] {
        assert_eq!(next_launch_step(step, failed), LaunchStep::ReportFailure);
    }
    assert_eq!(report_of_launch(LaunchStep::ReportFailure), Some("failed"));
    assert_eq!(next_launch_step(LaunchStep::ReportFailure, failed), LaunchStep::Failed);
}

#[test]
fn setting_up_changes_nothing_before_the_game_is_verified() {
    let mut step = SetupStep::CheckServer;
    let mut seen = Vec::new();
    while step != SetupStep::Done {
        seen.push(step);
        assert_eq!(next_setup_step(step, false), SetupStep::Failed);
        step = next_setup_step(step, true);
    }
    assert_eq!(seen.len(), 9);
    assert_eq!(seen[3], SetupStep::VerifyGame);
    assert_eq!(seen[4], SetupStep::InstallLauncher);
    assert_eq!(message_of_setup(SetupStep::ChooseGame), Some("Choose DivineKnockout.exe in the file window"));
    assert_eq!(message_of_setup(SetupStep::Finish), None);
}

#[test]
fn what_is_said_and_written() {
    assert_eq!(executable_missing(b"/x"), "DKO executable missing: /x");
    assert_eq!(game_not_found(b"/x"), "Divine Knockout was not found at /x");
    assert_eq!(registry_command("C:\\x.exe"), "\"C:\\x.exe\" __protocol-launch \"%1\"");
    assert_eq!(registry_icon("C:\\x.exe"), "\"C:\\x.exe\",0");
    assert_eq!(repair_server(Some("a".to_owned()), Some("b".to_owned())).unwrap(), "a");
    assert_eq!(repair_server(None, Some("b".to_owned())).unwrap(), "b");
    assert_eq!(repair_server(None, None), None);
}
