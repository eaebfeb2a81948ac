use dko_launcher::dialog::{
    dialog_initialization_failed, dialog_program, error_prompt, judge_dialog, linux_error_dialog_args, repair_question, wrap,
    DialogExit, DialogInput, DialogStep, DialogVerdict, ErrorWindow, COLUMNS, ROWS,
};
use dko_launcher::picker::{
    after_dialog, asking_failed, first_asker, kdialog_args, suggestion, terminal_question, typed_path, zenity_args,
    Asker, DialogEnd, PickerStep,
};

fn still() -> DialogInput {
    DialogInput {
        open: true,
        escape: false,
        repair: false,
        enter: false,
        down: false,
        up: false,
        wheel_down: false,
        wheel_up: false,
    }
}

fn lines(prompt: &str) -> Vec<String> {
    wrap(prompt).into_iter().map(|l| l.into_iter().collect()).collect()
}

#[test]
fn dialog_programs_are_tried_in_order() {
    assert_eq!([dialog_program(0), dialog_program(1), dialog_program(2)], [Some("zenity"), Some("kdialog"), None]);
}

#[test]
fn prompts() {
    assert_eq!(error_prompt("m", "/log", false), "m\n\nDebug log: /log");
    assert_eq!(
        error_prompt("m", "/log", true),
        "m\n\nDebug log: /log\n\nRepair the launcher and choose DivineKnockout.exe now?"
    );
    assert_eq!(
        repair_question("m", "l"),
        "m\n\nWould you like to repair the launcher and choose DivineKnockout.exe now?\n\nDebug log: l"
    );
}

#[test]
fn arguments_of_dialog_programs() {
    assert_eq!(
        linux_error_dialog_args("zenity", "p", true),
        ["--question", "--title=Project KNOCKOUT Launcher", "--no-markup", "--width=640", "--text", "p", "--ok-label=Repair", "--cancel-label=Close"]
    );
    assert_eq!(
        linux_error_dialog_args("zenity", "p", false),
        ["--error", "--title=Project KNOCKOUT Launcher", "--no-markup", "--width=640", "--text", "p"]
    );
    assert_eq!(
        linux_error_dialog_args("kdialog", "p", true),
        ["--title", "Project KNOCKOUT Launcher", "--yesno", "p", "--yes-label", "Repair", "--no-label", "Close"]
    );
    assert_eq!(
        linux_error_dialog_args("kdialog", "p", false),
        ["--title", "Project KNOCKOUT Launcher", "--error", "p"]
    );
}

#[test]
fn dialogs_that_never_appeared() {
    for text in [
        "Cannot open display: :0",
        "qt.qpa.xcb: could not connect to display",
        "Failed to open display",
        "Could not load the Qt platform plugin",
        "no Qt platform plugin could be initialized",
        "Unknown option --x",
        "cannot parse arguments",
    ] {
        assert!(dialog_initialization_failed(text.as_bytes()), "{text}");
    }
    assert!(!dialog_initialization_failed(b"Gtk-WARNING: theme"));
    assert!(!dialog_initialization_failed(b""));
    assert!(dialog_initialization_failed(b"\xff\xfe unknown option"));
}

#[test]
fn verdicts_on_dialogs() {
    let exit = |success, code, stderr: &str| Some(DialogExit { success, code, stderr: stderr.as_bytes().to_vec() });
    assert_eq!(judge_dialog(&exit(true, Some(0), ""), true), DialogVerdict::Answered { repair: true });
    assert_eq!(judge_dialog(&exit(true, Some(0), ""), false), DialogVerdict::Answered { repair: false });
    assert_eq!(judge_dialog(&exit(false, Some(1), "warning"), true), DialogVerdict::Answered { repair: false });
    assert_eq!(judge_dialog(&exit(false, Some(1), "cannot open display"), true), DialogVerdict::Unseen);
    assert_eq!(judge_dialog(&exit(false, Some(2), ""), true), DialogVerdict::Unseen);
    assert_eq!(judge_dialog(&exit(false, None, ""), true), DialogVerdict::Unseen);
    assert_eq!(judge_dialog(&None, true), DialogVerdict::Unseen);
}

#[test]
fn texts_are_wrapped() {
    assert_eq!(lines("one  two\n\nthree\n"), ["one two", "", "three"]);
    let long = "x".repeat(200);
    assert_eq!(lines(&long), ["x".repeat(88), "x".repeat(88), "x".repeat(24)]);
    let word = "y".repeat(43);
    assert_eq!(lines(&format!("{word} {word}z {word}")), [format!("{word} {word}z"), word.clone()]);
    assert_eq!(lines(&format!("{word} {word}zz")), [word.clone(), format!("{word}zz")]);
}

#[test]
fn wrapping_keeps_what_is_said() {
    let text = format!("alpha {} beta\r\ngamma\t{}\n\n delta", "b".repeat(100), "c d ".repeat(60));
    let wrapped = lines(&text);
    assert!(wrapped.iter().all(|l| l.chars().count() <= COLUMNS));
    let ink = |s: &str| s.chars().filter(|c| !c.is_whitespace()).collect::<String>();
    assert_eq!(ink(&wrapped.concat()), ink(&text));
}

#[test]
fn the_error_window_scrolls() {
    let prompt = (0..30).map(|i| i.to_string()).collect::<Vec<_>>().join("\n");
    let mut window = ErrorWindow::new(&prompt, true);
    assert_eq!(window.visible().len(), ROWS);
    assert_eq!(window.visible()[0], "0");
    assert_eq!(window.step(DialogInput { up: true, ..still() }), DialogStep::Show);
    assert_eq!(window.offset, 0);
    window.step(DialogInput { down: true, ..still() });
    window.step(DialogInput { wheel_down: true, ..still() });
    assert_eq!(window.offset, 4);
    for _ in 0..5 {
        window.step(DialogInput { wheel_down: true, ..still() });
    }
    assert_eq!(window.offset, 10);
    assert_eq!(window.visible().last().unwrap(), "29");
    window.step(DialogInput { wheel_up: true, ..still() });
    assert_eq!(window.offset, 7);
    window.step(DialogInput { down: true, up: true, ..still() });
    assert_eq!(window.offset, 7);
}

#[test]
fn the_error_window_closes() {
    let mut offer = ErrorWindow::new("x", true);
    assert_eq!(offer.step(DialogInput { repair: true, ..still() }), DialogStep::Close { repair: true });
    assert_eq!(offer.step(DialogInput { enter: true, ..still() }), DialogStep::Show);
    assert_eq!(offer.step(DialogInput { escape: true, repair: true, ..still() }), DialogStep::Close { repair: false });
    assert_eq!(offer.step(DialogInput { open: false, ..still() }), DialogStep::Close { repair: false });
    let mut plain = ErrorWindow::new("x", false);
    assert_eq!(plain.step(DialogInput { repair: true, ..still() }), DialogStep::Show);
    assert_eq!(plain.step(DialogInput { enter: true, ..still() }), DialogStep::Close { repair: false });
    assert_eq!(plain.visible(), ["x"]);
}

#[test]
fn asking_for_the_game() {
    assert_eq!(first_asker(true), Asker::Zenity);
    assert_eq!(first_asker(false), Asker::Terminal);
    let chosen = after_dialog(Asker::Zenity, DialogEnd::Success { output: b" /a/b.exe\n".to_vec() });
    assert!(matches!(&chosen, PickerStep::Chosen { path } if path == "/a/b.exe"));
    assert!(asking_failed(&chosen).is_none());
    assert!(matches!(after_dialog(Asker::Zenity, DialogEnd::Missing), PickerStep::Ask { asker: Asker::Kdialog }));
    assert!(matches!(after_dialog(Asker::Kdialog, DialogEnd::Missing), PickerStep::Ask { asker: Asker::Terminal }));
    let canceled = after_dialog(Asker::Kdialog, DialogEnd::Dismissed);
    assert_eq!(asking_failed(&canceled).unwrap(), "DivineKnockout.exe selection was canceled");
    let odd = after_dialog(Asker::Kdialog, DialogEnd::Success { output: vec![0xff] });
    assert_eq!(asking_failed(&odd).unwrap(), "Linux file picker returned an invalid path");
    let broken = after_dialog(Asker::Kdialog, DialogEnd::Broken);
    assert_eq!(asking_failed(&broken).unwrap(), "open the Linux DivineKnockout.exe picker");
}

#[test]
fn arguments_of_file_dialogs() {
    let (suggested, start) = suggestion(b"/steam");
    let text = "/steam/steamapps/common/Divine Knockout/DivineKnockout/Binaries/Win64";
    assert_eq!(start, text.as_bytes());
    assert_eq!(suggested, format!("{text}/DivineKnockout.exe").as_bytes());
    let common = ["--file-selection", "--title=Select DivineKnockout.exe", "--file-filter=DivineKnockout.exe | DivineKnockout.exe"];
    assert_eq!(zenity_args(&suggested, false), common);
    let all = zenity_args(&suggested, true);
    assert_eq!(all[3], format!("--filename={text}/DivineKnockout.exe"));
    let second = kdialog_args(&start);
    assert_eq!(second.len(), 5);
    assert_eq!(second[0], b"--getopenfilename");
    assert_eq!(second[1], start);
    assert_eq!(second[2], b"DivineKnockout.exe|DivineKnockout.exe");
    assert_eq!(second[4], b"Select DivineKnockout.exe");
}

#[test]
fn asking_on_the_terminal() {
    assert_eq!(terminal_question(&None), "Path to DivineKnockout.exe: ");
    assert_eq!(terminal_question(&Some(b"/g".to_vec())), "Path to DivineKnockout.exe [/g]: ");
    assert_eq!(typed_path(" /x \n", None), Some(b"/x".to_vec()));
    assert_eq!(typed_path("\n", Some(b"/g".to_vec())), Some(b"/g".to_vec()));
    assert_eq!(typed_path("\n", None), None);
}
