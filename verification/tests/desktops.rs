use dko_launcher::desktop::{
    competes, default_steam_root, desktop_exec_argument, directory_unavailable, game_compat_directory,
    game_data_directory, launcher_log_path, legacy_linux_launcher_settings_path, linux_desktop_entry,
    linux_installed_executable, linux_launcher_settings_path, linux_user_directory, next_settings_step,
    project_knockout_desktop_entry, refused_executable, remove_project_knockout_mime_type, settings_failed,
    steam_root_candidates, validate_linux_game_executable, FileResult, SettingsStep,
};
use dko_launcher::settings::configure;

fn some(path: &str) -> Option<Vec<u8>> {
    Some(path.as_bytes().to_vec())
}

#[test]
fn directories_of_the_user() {
    assert_eq!(linux_user_directory(&some("/c"), &some("/h"), ".config"), some("/c"));
    assert_eq!(linux_user_directory(&None, &some("/h"), ".config"), some("/h/.config"));
    assert_eq!(linux_user_directory(&None, &None, ".config"), None);
    assert_eq!(directory_unavailable("XDG_CONFIG_HOME"), "XDG_CONFIG_HOME and HOME are unavailable");
    assert_eq!(linux_launcher_settings_path(b"/c"), b"/c/ProjectKNOCKOUT/launcher.json");
    assert_eq!(legacy_linux_launcher_settings_path(b"/c"), b"/c/dko-preservation/launcher.json");
    assert_eq!(linux_installed_executable(b"/d"), b"/d/ProjectKNOCKOUT/Project-KNOCKOUT");
    assert_eq!(linux_desktop_entry(b"/d"), b"/d/applications/Project-KNOCKOUT.desktop");
    assert_eq!(launcher_log_path(b"/s"), b"/s/ProjectKNOCKOUT/logs/launcher.log");
    let values: Vec<Option<String>> = [
        "/m", "/f/", "DKO.exe", "/l", "/g/", "/launch/", "/ack", "/status", "/t", "DivineKnockoutPK", "run", "1.2.3.4",
        &"a".repeat(64), &"b".repeat(64), "1.2.3",
    ]
    .iter()
    .map(|v| Some((*v).to_owned()))
    .collect();
    let build = configure(&values, &Vec::new()).ok().unwrap();
    assert_eq!(game_data_directory(&build, b"/d"), b"/d/ProjectKNOCKOUT/run");
    assert_eq!(game_compat_directory(b"/d/x"), b"/d/x/compatdata");
}

#[test]
fn steam_is_found() {
    let candidates = steam_root_candidates(&some("/d"), &some("/h"));
    assert_eq!(candidates.len(), 7);
    assert_eq!(candidates[0], b"/d/Steam");
    assert_eq!(candidates[6], b"/h/snap/steam/common/.local/share/Steam");
    let mut found = vec![false; 7];
    assert_eq!(default_steam_root(&candidates, &found), b"/d/Steam");
    found[3] = true;
    assert_eq!(default_steam_root(&candidates, &found), b"/h/.steam/root");
    assert_eq!(default_steam_root(&steam_root_candidates(&None, &None), &Vec::new()), b".local/share/Steam");
}

fn read_back(argument: &str) -> String {
    let inner = &argument[1..argument.len() - 1];
    let mut out = String::new();
    let mut letters = inner.chars();
    while let Some(c) = letters.next() {
        out.push(if c == '\\' { letters.next().unwrap() } else { c });
    }
    out
}

#[test]
fn paths_in_desktop_entries_are_escaped() {
    assert_eq!(desktop_exec_argument(b"/a b").unwrap(), "\"/a b\"");
    assert_eq!(desktop_exec_argument(b"/\\\"`$").unwrap(), "\"/\\\\\\\"\\`\\$\"");
    for path in ["/a b", "/\\\"`$x", "/\\\\", "/\u{e9}$"] {
        assert_eq!(read_back(&desktop_exec_argument(path.as_bytes()).unwrap()), path);
    }
    assert_eq!(desktop_exec_argument(b"/\xff"), None);
    assert_eq!(
        project_knockout_desktop_entry(b"/x").unwrap(),
        "[Desktop Entry]\nType=Application\nName=Project KNOCKOUT Launcher\nComment=Launch Divine Knockout from Project KNOCKOUT\nExec=\"/x\" __protocol-launch %u\nTerminal=false\nNoDisplay=true\nMimeType=x-scheme-handler/project-knockout;\nCategories=Game;\n"
    );
    assert_eq!(project_knockout_desktop_entry(b"/\xff"), None);
}

#[test]
fn other_programs_are_unregistered() {
    let clean = |body: &str| remove_project_knockout_mime_type(body);
    assert_eq!(clean("[Desktop Entry]\nMimeType=text/plain;\n"), None);
    assert_eq!(clean(""), None);
    assert_eq!(
        clean("A=1\r\nMimeType=text/plain;X-Scheme-Handler/project-knockout;;a/b;\r\nB=2").unwrap(),
        "A=1\nMimeType=text/plain;a/b;\nB=2\n"
    );
    assert_eq!(clean("MimeType=x-scheme-handler/project-knockout\n").unwrap(), "");
    assert_eq!(clean("MimeType=x-scheme-handler/project-knockout;\nX\n").unwrap(), "X\n");
    assert_eq!(clean("mimetype=x-scheme-handler/project-knockout;"), None);
    let once = clean("MimeType=a;x-scheme-handler/project-knockout;b\n").unwrap();
    assert_eq!(clean(&once), None);
}

#[test]
fn competing_entries() {
    assert!(competes(b"/a/x.desktop", b"/a/own.desktop", true));
    assert!(!competes(b"/a/./own.desktop", b"/a/own.desktop", true));
    assert!(!competes(b"/a/x.desktop", b"/a/own.desktop", false));
    assert!(!competes(b"/a/x.txt", b"/a/own.desktop", true));
    assert!(!competes(b"/a/desktop", b"/a/own.desktop", true));
}

#[test]
fn selections_on_linux() {
    let select = |path: &str, nested, is_file| validate_linux_game_executable(path.as_bytes().to_vec(), nested, is_file);
    assert_eq!(select("/g/DivineKnockout.exe", false, true), Ok(b"/g/DivineKnockout.exe".to_vec()));
    assert_eq!(
        select("/g/DivineKnockout.exe", true, true),
        Ok(b"/g/DivineKnockout/Binaries/Win64/DivineKnockout.exe".to_vec())
    );
    assert_eq!(select("/g/x.exe", false, true), Err(b"/g/x.exe".to_vec()));
    assert_eq!(select("/g/DivineKnockout.exe", false, false), Err(b"/g/DivineKnockout.exe".to_vec()));
    assert_eq!(
        refused_executable(b"/g/x.exe"),
        "select the retail executable named DivineKnockout.exe (received /g/x.exe)"
    );
}

#[test]
fn settings_of_an_earlier_launcher_are_taken_over() {
    let mut step = SettingsStep::Read;
    step = next_settings_step(step, FileResult::Missing);
    let expected = [
        SettingsStep::ReadLegacy,
        SettingsStep::CheckLegacy,
        SettingsStep::CreateDirectory,
        SettingsStep::WriteStaged,
        SettingsStep::ProtectStaged,
        SettingsStep::Promote,
        SettingsStep::Decode,
        SettingsStep::Done,
    ];
    for next in expected {
        assert_eq!(step, next);
        step = next_settings_step(step, FileResult::Good);
    }
    assert_eq!(next_settings_step(SettingsStep::Read, FileResult::Good), SettingsStep::Decode);
    assert_eq!(next_settings_step(SettingsStep::Read, FileResult::Failed), SettingsStep::Unreadable);
    assert_eq!(next_settings_step(SettingsStep::ReadLegacy, FileResult::Missing), SettingsStep::Unreadable);
    assert_eq!(next_settings_step(SettingsStep::CheckLegacy, FileResult::Failed), SettingsStep::LegacyInvalid);
    assert_eq!(next_settings_step(SettingsStep::Promote, FileResult::Failed), SettingsStep::NotMigrated);
    assert_eq!(next_settings_step(SettingsStep::Decode, FileResult::Failed), SettingsStep::Invalid);
    assert_eq!(
        settings_failed(SettingsStep::Unreadable, b"/c").unwrap(),
        "read launcher settings /c; run setup again"
    );
    assert_eq!(
        settings_failed(SettingsStep::LegacyInvalid, b"/c").unwrap(),
        "decode legacy Linux launcher settings; run the latest setup and select DivineKnockout.exe"
    );
    assert_eq!(
        settings_failed(SettingsStep::Invalid, b"/c").unwrap(),
        "decode Linux launcher settings; run the latest setup and select DivineKnockout.exe"
    );
    assert!(settings_failed(SettingsStep::Done, b"/c").is_none());
}
