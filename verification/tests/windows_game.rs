use dko_launcher::process_windows::{
    configured_game_executable, confirm_selection, discover_or_select_and_remember_game_executable,
    discover_or_select_game_executable_candidate, find_game_pid_with_homedir, game_data_directory,
    has_launch_argument, installed_launcher_executable, is_game_pid, launcher_log_path, legacy_launchers,
    library_paths, default_steam_root, locate_game_executable, nested_executable, path_from_picker,
    select_game_executable_candidate, selected_game_executable, steam_game_candidates, steam_game_executables,
    suggested_game_executable, unreal_abslog_argument, Paths, Picked, ProcessInfo, Remember, SelectError,
};
use dko_launcher::settings::{configure, Build};
use dko_launcher::windows_paths::{file_name, join, named, parent, windows_volume_prefix, with_file_name};
use dko_launcher::wide::{decode_utf16, encode_utf16, wide_text};

fn build() -> Build {
    let values: Vec<Option<String>> = [
        "/game/manifest", "/game/files/", "DKO.exe", "/launcher/manifest", "/launcher/files/", "/launch/",
        "/ack", "/status", "/transport", "DivineKnockoutPK", "runtime-v1", "1.2.3.4", &"a".repeat(64),
        &"b".repeat(64), "1.2.3",
    ]
    .iter()
    .map(|v| Some((*v).to_owned()))
    .collect();
    configure(&values, &Vec::new()).ok().unwrap()
}

fn text(path: &[u8]) -> String {
    String::from_utf8(path.to_vec()).unwrap()
}

#[test]
fn paths_are_taken_apart_as_windows_does() {
    let parent_text = |path: &str| parent(path.as_bytes()).map(|p| text(&p));
    for (path, above) in [
        ("C:\\a\\b", Some("C:\\a")),
        ("C:\\a", Some("C:\\")),
        ("C:\\", None),
        ("C:", None),
        ("C:a", Some("C:")),
        ("C:/a//b/./", Some("C:/a")),
        ("a\\b", Some("a")),
        ("a", Some("")),
        ("", None),
        (".", Some("")),
        (".\\a", Some(".")),
        ("\\a", Some("\\")),
        ("\\", None),
        ("\\\\server\\share\\a", Some("\\\\server\\share\\")),
        ("\\\\server\\share\\", None),
        ("\\\\server\\share", None),
        ("//server/share/a/b", Some("//server/share/a")),
        ("\\\\.\\COM1\\a", Some("\\\\.\\COM1\\")),
        ("\\\\?\\C:\\a/b", Some("\\\\?\\C:\\")),
        ("\\\\?\\C:\\a\\.", Some("\\\\?\\C:\\a")),
        ("\\\\?\\name\\a", Some("\\\\?\\name\\")),
        ("\\\\?\\UNC\\server\\share\\a", Some("\\\\?\\UNC\\server\\share\\")),
        ("\\\\?\\UNC\\server\\share", None),
    ] {
        assert_eq!(parent_text(path).as_deref(), above, "{path}");
    }
    let name = |path: &str| file_name(path.as_bytes()).map(|p| text(&p));
    assert_eq!(name("C:\\a/b.exe").as_deref(), Some("b.exe"));
    assert_eq!(name("C:a").as_deref(), Some("a"));
    assert_eq!(name("C:\\"), None);
    assert_eq!(name("C:\\a\\.."), None);
    assert_eq!(name("\\\\?\\C:\\a\\."), None);
    assert_eq!(name("\\\\?\\C:\\a/b").as_deref(), Some("a/b"));
}

#[test]
fn paths_are_put_together_as_windows_does() {
    for (base, more, joined) in [
        ("C:\\a", "b/c", "C:\\a\\b/c"),
        ("C:\\", "b", "C:\\b"),
        ("C:", "b", "C:b"),
        ("", "b", "b"),
        ("a/", "b", "a/b"),
        ("C:\\a", "D:b", "D:b"),
        ("C:\\a", "\\b", "C:\\b"),
        ("\\\\server\\share", "b", "\\\\server\\share\\b"),
        ("\\\\?\\C:\\a\\b", "c/./../d", "\\\\?\\C:\\a\\b\\d"),
        ("\\\\?\\C:\\a", "/b", "\\\\?\\C:\\b"),
        ("\\\\?\\C:\\a", "..", "\\\\?\\C:\\"),
        ("\\\\?\\name", "b", "\\\\?\\name\\b"),
        ("\\\\?\\C:\\a", "", "\\\\?\\C:\\a\\"),
    ] {
        assert_eq!(text(&join(base.as_bytes(), more.as_bytes())), joined, "{base} {more}");
    }
    assert_eq!(text(&with_file_name(b"C:\\a", b"b")), "C:\\b");
    assert_eq!(text(&with_file_name(b"C:\\", b"b")), "C:\\b");
    let volume = |path: &str| windows_volume_prefix(path.as_bytes()).map(|p| text(&p));
    assert_eq!(volume("c:\\x").as_deref(), Some("c:"));
    assert_eq!(volume("\\\\server\\share\\x").as_deref(), Some("\\\\server\\share"));
    assert_eq!(volume("\\\\?\\UNC\\server\\share\\x").as_deref(), Some("\\\\?\\UNC\\server\\share"));
    assert_eq!(volume("\\x"), None);
    assert!(named(b"C:\\x\\divineknockout.EXE", "DivineKnockout.exe"));
    assert!(!named(b"C:\\x/DivineKnockout.exe.bak", "DivineKnockout.exe"));
}

#[test]
fn where_steam_is_on_windows() {
    let found = |user: Option<&str>, machine: Option<&str>, x86: Option<&str>, other: Option<&str>| {
        let own = |value: Option<&str>| value.map(str::to_owned);
        let bytes = |value: Option<&str>| value.map(|v| v.as_bytes().to_vec());
        text(&default_steam_root(&own(user), &own(machine), &bytes(x86), &bytes(other)))
    };
    assert_eq!(found(Some("c:/steam"), Some("D:\\S"), None, None), "c:/steam");
    assert_eq!(found(None, Some("D:\\S"), Some("E:\\P"), None), "D:\\S");
    assert_eq!(found(None, None, Some("E:\\P"), Some("F:\\P")), "E:\\P\\Steam");
    assert_eq!(found(None, None, None, Some("F:\\P")), "F:\\P\\Steam");
    assert_eq!(found(None, None, None, None), "C:\\Program Files (x86)\\Steam");
}

#[test]
fn windows_libraries_are_listed() {
    let contents = "\"0\" { \"path\"\t\t\"C:\\\\Steam\" } \"path\" \"\" \"path\"\"x\" \"1\" { \"path\"  \"D:\\\\Lib\" \"label\" \"\" } \"path\" \"open";
    let paths: Vec<String> = library_paths(contents).into_iter().map(|p| p.into_iter().collect()).collect();
    assert_eq!(paths, ["C:\\Steam", "D:\\Lib"]);
    let tail = "steamapps/common/Divine Knockout/DivineKnockout/Binaries/Win64/DivineKnockout.exe";
    let candidates = steam_game_candidates(b"C:\\Steam", &Some(contents.to_owned()));
    let texts: Vec<String> = candidates.iter().map(|c| text(c)).collect();
    assert_eq!(texts, [format!("C:\\Steam\\{tail}"), format!("C:\\Steam\\{tail}"), format!("D:\\Lib\\{tail}")]);
    assert_eq!(steam_game_executables(&candidates, &vec![false, false, true]), vec![candidates[2].clone()]);
    assert_eq!(steam_game_candidates(b"C:\\Steam", &None).len(), 1);
}

#[test]
fn a_supported_game_is_suggested_first() {
    let build = build();
    let executables = vec![b"/1".to_vec(), b"/2".to_vec()];
    let other = Some("c".repeat(64));
    let supported = Some("a".repeat(64));
    assert_eq!(suggested_game_executable(&build, &executables, &vec![other.clone(), supported]), Some(b"/2".to_vec()));
    assert_eq!(suggested_game_executable(&build, &executables, &vec![None, other]), Some(b"/1".to_vec()));
    assert_eq!(suggested_game_executable(&build, &Vec::new(), &Vec::new()), None);
}

#[test]
fn selections_are_resolved_and_confirmed() {
    let nested = b"C:\\Game\\DivineKnockout/Binaries/Win64/DivineKnockout.exe".to_vec();
    let root = b"C:\\Game\\DivineKnockout.exe".to_vec();
    assert_eq!(nested_executable(&root, true), Some(nested.clone()));
    assert_eq!(nested_executable(b"C:\\", true), None);
    assert_eq!(configured_game_executable(Some(root.clone()), true, true), Some(nested.clone()));
    assert_eq!(configured_game_executable(Some(root.clone()), false, true), Some(root.clone()));
    assert_eq!(configured_game_executable(Some(root.clone()), false, false), None);
    assert_eq!(configured_game_executable(Some(b"C:\\x.exe".to_vec()), false, true), None);
    assert_eq!(configured_game_executable(None, true, true), None);
    assert_eq!(confirm_selection(Ok(root.clone()), true).ok(), Some(root.clone()));
    assert!(matches!(confirm_selection(Ok(root.clone()), false), Err(SelectError::NotTheGame)));
    assert!(matches!(confirm_selection(Ok(b"x".to_vec()), true), Err(SelectError::NotTheGame)));
    assert_eq!(select_game_executable_candidate(Ok(root.clone()), true).ok(), Some(nested.clone()));
    assert_eq!(discover_or_select_game_executable_candidate(Ok(root.clone()), false).ok(), Some(root.clone()));
    assert!(matches!(
        discover_or_select_and_remember_game_executable(Ok(root.clone()), true),
        Remember::Save { executable } if executable == nested
    ));
    assert!(matches!(
        discover_or_select_and_remember_game_executable(Err(SelectError::NotTheGame), true),
        Remember::Fail { error: SelectError::NotTheGame }
    ));
}

#[test]
fn the_remembered_game_comes_first() {
    let game = b"C:\\DivineKnockout.exe".to_vec();
    assert_eq!(selected_game_executable(Some(game.clone())).ok(), Some(game.clone()));
    let error = selected_game_executable(None).err().unwrap();
    assert_eq!(
        error.message(),
        "Divine Knockout is not configured at the path selected during setup; run setup again"
    );
    assert!(matches!(
        locate_game_executable(Some(game.clone()), Err(SelectError::NothingSelected)),
        Remember::Use { executable } if executable == game
    ));
    assert!(matches!(locate_game_executable(None, Ok(game.clone())), Remember::Save { executable } if executable == game));
    assert!(matches!(
        locate_game_executable(None, Err(SelectError::NothingSelected)),
        Remember::Fail { error: SelectError::NothingSelected }
    ));
}

#[test]
fn the_file_picker_hands_back_a_path() {
    let mut buffer: Vec<u16> = "C:\\a\u{e9}\u{1f600}.exe".encode_utf16().collect();
    buffer.extend([0, 65, 0]);
    assert_eq!(path_from_picker(&Picked::Chosen { buffer }).ok().unwrap(), "C:\\a\u{e9}\u{1f600}.exe".as_bytes());
    assert!(matches!(path_from_picker(&Picked::Chosen { buffer: vec![0xd800] }), Err(SelectError::NotUnicode)));
    assert!(matches!(path_from_picker(&Picked::Ended { code: 0 }), Err(SelectError::NothingSelected)));
    let error = path_from_picker(&Picked::Ended { code: 0x3002 }).err().unwrap();
    assert_eq!(error.message(), "the Windows file picker failed with error 0x00003002");
    assert_eq!(
        SelectError::NothingSelected.message(),
        "Divine Knockout was not found automatically and no executable was selected"
    );
    assert_eq!(SelectError::NotUnicode.message(), "the selected DivineKnockout.exe path is not valid Unicode");
    assert_eq!(SelectError::NotTheGame.message(), "select the retail executable named DivineKnockout.exe");
}

#[test]
fn texts_for_windows_end_in_zero() {
    assert_eq!(wide_text("a\0\u{1f600}"), vec![97, 32, 0xd83d, 0xde00, 0]);
    assert_eq!(wide_text(""), vec![0]);
    for text in ["", "abc", "a\u{e9}\u{ffff}\u{10000}\u{10ffff}\u{1f600}z"] {
        assert_eq!(encode_utf16(text), text.encode_utf16().collect::<Vec<u16>>());
        assert_eq!(decode_utf16(&encode_utf16(text)).as_deref(), Some(text));
    }
    for units in [vec![0xd800], vec![0xdc00], vec![0xd800, 0x41], vec![0xdbff, 0xdfff], vec![0xe000, 0xd7ff]] {
        assert_eq!(decode_utf16(&units), String::from_utf16(&units).ok(), "{units:x?}");
    }
}

#[test]
fn paths_of_a_launch_on_windows() {
    let build = build();
    let data = Some(b"C:\\Local".to_vec());
    let game = || Ok(b"C:\\DivineKnockout.exe".to_vec());
    let paths = Paths::new_isolated(&data, game(), "DivineKnockoutPK").ok().unwrap();
    assert_eq!(text(&paths.log), "C:\\Local\\DivineKnockoutPK\\Saved/Logs/DivineKnockout.log");
    assert_eq!(text(&Paths::new_selected(&data, game(), "DivineKnockout").ok().unwrap().exe), "C:\\DivineKnockout.exe");
    assert!(matches!(Paths::new_selected(&data, game(), "x"), Err(SelectError::Homedir)));
    let missing = Paths::new_isolated(&None, game(), "DivineKnockout").err().unwrap();
    assert_eq!(missing.message(), "LOCALAPPDATA is unavailable; cannot locate the DKO log directory");
    let explicit = |path: &str, is_file| {
        Paths::new_explicit(&build, &data, path.as_bytes(), is_file, "DivineKnockout")
    };
    assert_eq!(text(&explicit("D:\\dko.exe", true).ok().unwrap().exe), "D:\\dko.exe");
    assert_eq!(
        explicit("D:\\dko.exe", false).err().unwrap().message(),
        "selected game executable is not an approved Divine Knockout executable: D:\\dko.exe"
    );
    assert_eq!(
        explicit("D:\\other.exe", true).err().unwrap().message(),
        "selected game executable is not an approved Divine Knockout executable: D:\\other.exe"
    );
    assert_eq!(
        SelectError::Homedir.message(),
        "visible-client homedir must be a simple DivineKnockout-prefixed name"
    );
    assert_eq!(unreal_abslog_argument("C:\\x.log"), "-ABSLOG=C:\\x.log");
}

#[test]
fn directories_on_windows() {
    let build = build();
    assert_eq!(text(&installed_launcher_executable(b"C:\\L")), "C:\\L\\ProjectKNOCKOUT\\Project-KNOCKOUT.exe");
    assert_eq!(text(&launcher_log_path(b"C:\\L")), "C:\\L\\ProjectKNOCKOUT\\logs/launcher.log");
    assert_eq!(text(&game_data_directory(&build, b"C:\\L")), "C:\\L\\ProjectKNOCKOUT\\runtime-v1");
    let legacy: Vec<String> = legacy_launchers(b"C:\\L").iter().map(|p| text(p)).collect();
    assert_eq!(legacy, ["C:\\L\\ProjectKNOCKOUT\\Project_KNOCKOUT_Launcher.exe", "C:\\L\\ProjectKNOCKOUT\\dko-launcher.exe"]);
}

#[test]
fn the_game_is_recognized_on_windows() {
    let build = build();
    let process = |pid, name: &str, argument: &str| ProcessInfo {
        pid,
        name: name.to_owned(),
        arguments: vec!["x".to_owned(), argument.to_owned()],
    };
    let all = vec![
        process(1, "divineknockout.EXE", "-homedir=a"),
        process(3, "DKO.exe", "-homedir=a"),
        process(4, "DKO.exe", "-homedir=b"),
        process(9, "other.exe", "-homedir=a"),
    ];
    assert_eq!(find_game_pid_with_homedir(&build, &all, "a"), Some(3));
    assert_eq!(find_game_pid_with_homedir(&build, &all, "c"), None);
    assert!(is_game_pid(&build, &all, 4));
    assert!(!is_game_pid(&build, &all, 9));
    assert!(has_launch_argument(&build, &all, 4, "-homedir=b"));
    assert!(!has_launch_argument(&build, &all, 4, "-homedir=a"));
    assert!(!has_launch_argument(&build, &all, 9, "-homedir=a"));
}
