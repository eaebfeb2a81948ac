use dko_launcher::process::game::{
    find_game_pid_with_homedir, game_process_matches, has_launch_argument, is_explicit_game_executable, is_game_pid,
    launch_plan, next_wait, unreal_abslog_argument, waiting_timed_out, Paths, PathsError, ProcessInfo, WaitStep,
};
use dko_launcher::process::libraries::{game_executable_in_library, locate_game_library, steam_library_roots};
use dko_launcher::process::proton::{
    directory_tools, id_of_release, installed_proton_tools, override_directory, override_tool, proton_search_roots,
    resolve_proton_in_roots, tool_directories, ProtonError, Tool,
};
use dko_launcher::process::vdf::{compat_tool_name, parse_vdf, VdfValue};
use dko_launcher::settings::{configure, Build};

fn build() -> Build {
    let values: Vec<Option<String>> = [
        "/game/manifest", "/game/files/", "DKO.exe", "/launcher/manifest", "/launcher/files/", "/launch/",
        "/ack", "/status", "/transport", "DivineKnockoutPK", "runtime-v1", "1.2.3.4", &"a".repeat(64),
        &"b".repeat(64), "1.2.3",
    ]
    .iter()
    .map(|v| Some((*v).to_owned()))
    .collect();
    configure(&values, &Vec::new()).ok().unwrap()
}

fn bytes(paths: &[&str]) -> Vec<Vec<u8>> {
    paths.iter().map(|p| p.as_bytes().to_vec()).collect()
}

fn tool(path: &str, name: &str) -> Tool {
    Tool { path: path.as_bytes().to_vec(), name: name.to_owned() }
}

fn named(tools: &[Tool]) -> Vec<(String, String)> {
    tools.iter().map(|t| (String::from_utf8(t.path.clone()).unwrap(), t.name.clone())).collect()
}

fn mapping(app: &str, name: &str) -> String {
    format!(
        "\"InstallConfigStore\" {{ \"Software\" {{ \"Valve\" {{ \"Steam\" {{ \"CompatToolMapping\" {{ \"{app}\" {{ \"name\" \"{name}\" }} }} }} }} }} }}"
    )
}

#[test]
fn configurations_are_parsed() {
    let value = parse_vdf("// note\n\"a\" { b \"x // \\\"y\\\" \\\\z\" c{ } }").unwrap();
    let inner = value.get("A").unwrap();
    assert_eq!(inner.get("B").unwrap().text(), Some("x // \"y\" \\z"));
    assert!(inner.get("c").unwrap().get("x").is_none());
    assert!(inner.get("c").unwrap().text().is_none());
    for broken in ["a", "a {", "}", "{ }", "a { b }", "a }"] {
        assert!(parse_vdf(broken).is_none(), "{broken}");
    }
    assert!(parse_vdf("").is_some());
    let nested = |depth: usize| format!("{}{}", "a { ".repeat(depth), "} ".repeat(depth));
    assert!(parse_vdf(&nested(32)).is_some());
    assert!(parse_vdf(&nested(33)).is_none());
}

#[test]
fn the_tool_of_an_app_is_found() {
    assert_eq!(compat_tool_name(&mapping("1294660", "GE-Proton"), "1294660").unwrap(), "GE-Proton");
    assert_eq!(compat_tool_name(&mapping("1294660", ""), "1294660"), None);
    assert_eq!(compat_tool_name(&mapping("0", "x"), "1294660"), None);
    assert_eq!(compat_tool_name("broken {", "0"), None);
}

#[test]
fn libraries_are_listed_once() {
    let first = "\"libraryfolders\" { \"0\" { \"path\" \"/steam\" } \"1\" { \"path\" \"/mnt/games/\" } \"x\" { \"path\" \"/no\" } \"2\" { \"path\" \"relative\" } }";
    let second = "\"LibraryFolders\" { \"1\" \"/old\" \"2\" \"/mnt/games\" \"3\" { } }";
    let roots = steam_library_roots(b"/steam", &vec![Some(first.to_owned()), Some(second.to_owned())]);
    assert_eq!(roots, bytes(&["/steam", "/mnt/games/", "/old"]));
    assert_eq!(steam_library_roots(b"/steam", &vec![None, Some("{".to_owned())]), bytes(&["/steam"]));
}

#[test]
fn the_game_is_found_in_a_library() {
    let libraries = bytes(&["/steam", "/a", "/b"]);
    assert_eq!(locate_game_library(&libraries, &vec![false, true, true]), b"/a");
    assert_eq!(locate_game_library(&libraries, &vec![false, false, false]), b"/steam");
    assert_eq!(
        game_executable_in_library(b"/a"),
        b"/a/steamapps/common/Divine Knockout/DivineKnockout/Binaries/Win64/DivineKnockout.exe"
    );
}

#[test]
fn tools_are_looked_for_in_order() {
    let roots = proton_search_roots(b"/steam", &bytes(&["/steam", "/b"]), &Some(b"/x:/usr/share/steam/compatibilitytools.d/".to_vec()));
    assert_eq!(
        roots,
        bytes(&[
            "/steam/compatibilitytools.d",
            "/steam/steamapps/common",
            "/b/steamapps/common",
            "/b/compatibilitytools.d",
            "/usr/local/share/steam/compatibilitytools.d",
            "/usr/share/steam/compatibilitytools.d",
            "/x",
        ])
    );
    assert_eq!(tool_directories(b"/r", bytes(&["b", "a c", "B"])), bytes(&["/r", "/r/B", "/r/a c", "/r/b"]));
}

#[test]
fn releases_have_ids() {
    let cases = [
        ("Proton - Experimental", Some("proton_experimental")),
        ("Proton Hotfix", Some("proton_hotfix")),
        ("Proton Next", Some("proton_next")),
        ("Proton 9.0", Some("proton_9")),
        ("Proton 5.13", Some("proton_5")),
        ("Proton 4.11", Some("proton_411")),
        ("Proton 4.", Some("proton_4")),
        ("Proton .9", None),
        ("Proton 9", None),
        ("Proton 9.0 (Beta)", None),
        ("Proton 4294967296.0", None),
        ("GE-Proton9", None),
    ];
    for (name, id) in cases {
        assert_eq!(id_of_release(name).as_deref(), id, "{name}");
    }
}

#[test]
fn tools_of_a_directory() {
    let metadata = "\"compatibilitytools\" { \"compat_tools\" { \"GE\" { \"install_path\" \"sub\" } \"Own\" { } } }";
    assert_eq!(
        named(&directory_tools(b"/r/Proton 9.0", &Some(metadata.to_owned()))),
        [
            ("/r/Proton 9.0/sub".to_owned(), "GE".to_owned()),
            ("/r/Proton 9.0/.".to_owned(), "Own".to_owned()),
            ("/r/Proton 9.0".to_owned(), "Proton 9.0".to_owned()),
            ("/r/Proton 9.0".to_owned(), "proton_9".to_owned()),
        ]
    );
    assert!(directory_tools(b"/", &None).is_empty());
    let candidates = vec![tool("/a", "x"), tool("/a/.", "x"), tool("/b", "x"), tool("/a", "y")];
    assert_eq!(
        named(&installed_proton_tools(&candidates, &vec![true, true, false, true])),
        [("/a".to_owned(), "x".to_owned()), ("/a".to_owned(), "y".to_owned())]
    );
}

fn resolve(config: &str, tools: &Vec<Tool>) -> Result<Tool, ProtonError> {
    resolve_proton_in_roots(b"/steam/config/config.vdf", config, &bytes(&["/r1", "/r2"]), tools)
}

#[test]
fn steam_decides_which_tool_is_used() {
    let tools = vec![tool("/r/Proton 9.0", "proton_9"), tool("/r/GE", "GE"), tool("/s/GE", "GE")];
    assert_eq!(resolve(&mapping("1294660", "GE"), &tools).ok().unwrap().path, b"/r/GE");
    assert_eq!(resolve(&mapping("0", "GE"), &tools).ok().unwrap().path, b"/r/GE");
    let error = resolve(&mapping("1294660", "Gone"), &tools).err().unwrap();
    assert_eq!(
        error.message(),
        "Steam selected compatibility tool \"Gone\", but its Proton launcher was not found. Install that version in Steam Library > Tools, or select an installed Proton version in Divine Knockout > Properties > Compatibility. Steam configuration: /steam/config/config.vdf. Searched: /r1, /r2. Detected tools: proton_9, GE, GE"
    );
}

#[test]
fn without_a_choice_the_newest_release_is_used() {
    let tools = vec![
        tool("/r/Proton 9.0", "a"),
        tool("/r/Proton 10.0", "b"),
        tool("/s/Proton 10.0", "c"),
        tool("/r/Proton 8.12", "proton_experimental"),
    ];
    assert_eq!(resolve("", &tools).ok().unwrap().name, "c");
    let unstable = vec![tool("/r/x", "x"), tool("/r/y", "proton_experimental")];
    assert_eq!(resolve("", &unstable).ok().unwrap().name, "proton_experimental");
    assert_eq!(resolve("", &vec![tool("/r/x", "x")]).ok().unwrap().name, "x");
    assert_eq!(
        resolve("", &Vec::new()).err().unwrap().message(),
        "No installed Proton launcher was found. Install Proton in Steam Library > Tools, then select it in Divine Knockout > Properties > Compatibility and retry. Steam configuration: /steam/config/config.vdf. Searched: /r1, /r2"
    );
    assert_eq!(
        resolve("{", &tools).err().unwrap().message(),
        "Could not parse Steam Proton configuration at /steam/config/config.vdf. Restart Steam and select Proton again in Divine Knockout > Properties > Compatibility."
    );
}

#[test]
fn a_tool_may_be_asked_for() {
    assert_eq!(override_directory(b"p", b"/cwd"), b"/cwd/p");
    assert_eq!(override_directory(b"/p", b"/cwd"), b"/p");
    assert_eq!(override_tool(b"/x/My Proton", true).ok().unwrap().name, "My Proton");
    assert_eq!(override_tool(b"/", true).ok().unwrap().name, "custom-proton");
    assert_eq!(
        override_tool(b"/x", false).err().unwrap().message(),
        "Selected Proton tool has no launcher: /x. Choose the directory containing the proton launcher."
    );
}

#[test]
fn paths_of_a_launch() {
    let ge = || Ok(tool("/r/GE", "GE"));
    let paths = Paths::new_isolated(b"/steam", ge(), true, b"/lib", &None, b"/cwd", "DivineKnockoutPK").ok().unwrap();
    assert_eq!(paths.compat_data, b"/lib/steamapps/compatdata/1294660");
    assert_eq!(paths.proton, b"/r/GE/proton");
    assert_eq!(
        paths.log,
        b"/lib/steamapps/compatdata/1294660/pfx/drive_c/users/steamuser/AppData/Local/DivineKnockoutPK/Saved/Logs/DivineKnockout.log"
    );
    let own = Paths::new_isolated(b"/steam", ge(), true, b"/lib", &Some(b"data".to_vec()), b"/cwd", "DivineKnockout").ok().unwrap();
    assert_eq!(own.prefix, b"/cwd/data/pfx");
    let homedir = |name: &str| Paths::new_isolated(b"/s", ge(), true, b"/l", &None, b"/", name).err().map(|e| e.message());
    for bad in ["Other", "DivineKnockout/x", "DivineKnockout\\x"] {
        assert_eq!(homedir(bad).unwrap(), "visible-client homedir must be a simple DivineKnockout-prefixed name");
    }
    let bare = Paths::new_isolated(b"/s", ge(), false, b"/l", &None, b"/", "DivineKnockout").err().unwrap();
    assert_eq!(bare.message(), "selected Proton tool has no launcher: /r/GE/proton");
    let failed = Err(ProtonError::Override { directory: b"/x".to_vec() });
    assert!(matches!(
        Paths::new_isolated(b"/s", failed, true, b"/l", &None, b"/", "DivineKnockout"),
        Err(PathsError::Proton { .. })
    ));
}

#[test]
fn a_selected_game_uses_its_own_library() {
    let select = |exe: &str, is_file| {
        Paths::new_selected(b"/steam", Ok(tool("/r/GE", "GE")), true, b"/lib", exe.as_bytes(), is_file, b"/", "DivineKnockout")
    };
    let paths = select("/mnt/steamapps/common/G/divineknockout.EXE", true).ok().unwrap();
    assert_eq!(paths.compat_data, b"/mnt/steamapps/compatdata/1294660");
    assert_eq!(paths.exe, b"/mnt/steamapps/common/G/divineknockout.EXE");
    assert_eq!(select("/opt/DivineKnockout.exe", true).ok().unwrap().compat_data, b"/lib/steamapps/compatdata/1294660");
    assert_eq!(
        select("/opt/DivineKnockout.exe", false).err().unwrap().message(),
        "selected game executable is not DivineKnockout.exe: /opt/DivineKnockout.exe"
    );
    assert!(select("/opt/Other.exe", true).is_err());
}

#[test]
fn an_approved_executable_keeps_its_state() {
    let build = build();
    let explicit = |exe: &str| {
        Paths::new_explicit(
            &build, b"/steam", Ok(tool("/r/GE", "GE")), true, b"/lib", &Some(b"/data".to_vec()), exe.as_bytes(), true,
            b"/", "DivineKnockout",
        )
    };
    let paths = explicit("/mnt/steamapps/dko.EXE").ok().unwrap();
    assert_eq!(paths.compat_data, b"/data");
    assert_eq!(
        explicit("/x/Other.exe").err().unwrap().message(),
        "selected game executable is not an approved Divine Knockout executable: /x/Other.exe"
    );
    assert!(is_explicit_game_executable(&build, b"/a/DivineKnockout.exe"));
    assert!(!is_explicit_game_executable(&build, b"/a/x"));
}

#[test]
fn the_game_is_started_through_the_tool() {
    let paths = Paths::new_isolated(b"/steam", Ok(tool("/r/GE", "GE")), true, b"/lib", &Some(b"/data".to_vec()), b"/", "DivineKnockout").ok().unwrap();
    let extra = vec!["-AUTH_PASSWORD=x".to_owned(), "-windowed".to_owned()];
    let plan = launch_plan(&paths, "https://e.com/launch/t", "DivineKnockout", "me", &extra);
    let arguments: Vec<String> = plan.arguments.iter().map(|a| String::from_utf8(a.clone()).unwrap()).collect();
    assert_eq!(plan.program, b"/r/GE/proton");
    assert_eq!(arguments[0], "run");
    assert_eq!(arguments[2], "DivineKnockout");
    assert_eq!(arguments[3], "-homedir=DivineKnockout");
    assert_eq!(arguments[10], "-RallyHereURL=https://e.com/launch/t");
    assert!(arguments[12].starts_with("-ABSLOG=Z:\\data\\pfx\\drive_c\\users"));
    assert_eq!(arguments[15], "-AUTH_LOGIN=me");
    assert_eq!(arguments.len(), 22);
    assert_eq!(arguments[21], "-windowed");
    assert_eq!(plan.variables[0], ("STEAM_COMPAT_CLIENT_INSTALL_PATH".to_owned(), b"/steam".to_vec()));
    assert_eq!(plan.variables[3], ("SteamGameId".to_owned(), b"1294660".to_vec()));
    assert_eq!(plan.removed, ["VK_ICD_FILENAMES", "VK_DRIVER_FILES"]);
    assert_eq!(unreal_abslog_argument(b"/a/b"), "-ABSLOG=Z:\\a\\b");
}

fn process(pid: u32, comm: &str, cmdline: &[u8]) -> ProcessInfo {
    ProcessInfo { pid, comm: comm.to_owned(), cmdline: cmdline.to_vec() }
}

#[test]
fn the_process_of_the_game_is_recognized() {
    let build = build();
    assert!(has_launch_argument(b"a\0-homedir=x\0", "-homedir=x"));
    assert!(!has_launch_argument(b"a\0-homedir=xy\0", "-homedir=x"));
    let game = process(1, "GameThread\n", b"Z:\\DivineKnockout.exe\0-homedir=DivineKnockoutPK\0");
    assert!(is_game_pid(&build, &game));
    assert!(is_game_pid(&build, &process(1, "GameThread", b"x/DKO.exe")));
    assert!(!is_game_pid(&build, &process(1, "wine", b"x/DKO.exe")));
    assert!(!is_game_pid(&build, &process(1, "GameThread", b"other.exe")));
    assert!(game_process_matches(&build, &game, "DivineKnockoutPK"));
    assert!(!game_process_matches(&build, &game, "DivineKnockout"));
    let all = vec![
        process(7, "GameThread", b"DKO.exe\0-homedir=DivineKnockoutPK\0"),
        process(9, "GameThread", b"DKO.exe\0-homedir=other\0"),
        process(8, "GameThread", b"DKO.exe\0-homedir=DivineKnockoutPK\0"),
    ];
    assert_eq!(find_game_pid_with_homedir(&build, &all, "DivineKnockoutPK"), Some(8));
    assert_eq!(find_game_pid_with_homedir(&build, &all, "none"), None);
    assert_eq!(waiting_timed_out("x"), "timed out waiting for DivineKnockout.exe homedir x");
}

fn render(value: &VdfValue) -> String {
    let quoted = |text: &str| format!("\"{}\"", text.replace('\\', "\\\\").replace('"', "\\\""));
    match value {
        VdfValue::Text(text) => quoted(text),
        VdfValue::Object(entries) => entries
            .iter()
            .map(|(key, inner)| match inner {
                VdfValue::Text(_) => format!("{} {}", quoted(key), render(inner)),
                VdfValue::Object(_) => format!("{} {{ {} }}", quoted(key), render(inner)),
            })
            .collect::<Vec<String>>()
            .join(" "),
    }
}

fn same_value(a: &VdfValue, b: &VdfValue) -> bool {
    match (a, b) {
        (VdfValue::Text(a), VdfValue::Text(b)) => a == b,
        (VdfValue::Object(a), VdfValue::Object(b)) => {
            a.len() == b.len() && a.iter().zip(b).all(|(a, b)| a.0 == b.0 && same_value(&a.1, &b.1))
        }
        _ => false,
    }
}

#[test]
fn written_configurations_are_read_back() {
    let word = |text: &str| VdfValue::Text(text.to_owned());
    let value = VdfValue::Object(vec![
        ("a".to_owned(), word("\\\"//{ }\n\\\\\"\"\\")),
        ("a".to_owned(), VdfValue::Object(vec![("".to_owned(), word("")), ("\\".to_owned(), word("x y"))])),
        ("\"".to_owned(), VdfValue::Object(Vec::new())),
    ]);
    assert!(same_value(&parse_vdf(&render(&value)).unwrap(), &value));
    let nest = |depth: usize| (0..depth).fold(VdfValue::Object(Vec::new()), |inner, _| {
        VdfValue::Object(vec![("k".to_owned(), inner)])
    });
    assert!(same_value(&parse_vdf(&render(&nest(32))).unwrap(), &nest(32)));
    assert!(parse_vdf(&render(&nest(33))).is_none());
}

#[test]
fn waiting_for_the_game_ends() {
    assert_eq!(next_wait(1, 2, None), WaitStep::Wait);
    assert_eq!(next_wait(1, 2, Some(7)), WaitStep::Found { pid: 7 });
    assert_eq!(next_wait(2, 2, Some(7)), WaitStep::TimedOut);
    assert_eq!(next_wait(3, 2, None), WaitStep::TimedOut);
}
