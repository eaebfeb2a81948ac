//! Asking the player for the game's executable, with whatever the desktop has for it.
use crate::dialog::{decode_lossy, lossy_text};
use crate::paths::{parent, parent_of};
use crate::process::libraries::{game_executable_in_library, game_in};
use crate::text::{
    bytes_of, concat, copied, decode_bytes, letters, text_of, texts, trim, trimmed, views,
};
use vstd::prelude::*;

verus! {

/// A way to ask.
#[derive(Clone, Copy, Debug, PartialEq, Eq, Structural)]
pub enum Asker {
    Zenity,
    Kdialog,
    Terminal,
}

/// How a file dialog ended.
pub enum DialogEnd {
    /// The player chose something.
    Success { output: Vec<u8> },
    /// The player chose nothing.
    Dismissed,
    /// There is no such program.
    Missing,
    /// The program could not be started.
    Broken,
}

/// What is to be done next.
pub enum PickerStep {
    /// The player chose this path.
    Chosen { path: String },
    /// Ask in this way.
    Ask { asker: Asker },
    Canceled,
    NotUnicode,
    Broken,
}

/// What is to be done, with the path by its content.
pub enum PickerOutcome {
    Chosen { path: Seq<char> },
    Ask { asker: Asker },
    Canceled,
    NotUnicode,
    Broken,
}

impl PickerStep {
    pub open spec fn outcome(self) -> PickerOutcome {
        match self {
            PickerStep::Chosen { path } => PickerOutcome::Chosen { path: path@ },
            PickerStep::Ask { asker } => PickerOutcome::Ask { asker },
            PickerStep::Canceled => PickerOutcome::Canceled,
            PickerStep::NotUnicode => PickerOutcome::NotUnicode,
            PickerStep::Broken => PickerOutcome::Broken,
        }
    }
}

/// The first way to ask: a desktop has dialogs.
pub fn first_asker(graphical: bool) -> (r: Asker)
    ensures
        r == if graphical {
            Asker::Zenity
        } else {
            Asker::Terminal
        },
{
    if graphical {
        Asker::Zenity
    } else {
        Asker::Terminal
    }
}

/// The way to ask when a program is missing.
pub open spec fn next_asker(asker: Asker) -> Asker {
    match asker {
        Asker::Zenity => Asker::Kdialog,
        _ => Asker::Terminal,
    }
}

/// What the end of a dialog leads to.
pub open spec fn picker_outcome(asker: Asker, end: DialogEnd) -> PickerOutcome {
    match end {
        DialogEnd::Success { output } => if vstd::utf8::valid_utf8(output@) {
            PickerOutcome::Chosen { path: trimmed(vstd::utf8::decode_utf8(output@)) }
        } else {
            PickerOutcome::NotUnicode
        },
        DialogEnd::Dismissed => PickerOutcome::Canceled,
        DialogEnd::Missing => PickerOutcome::Ask { asker: next_asker(asker) },
        DialogEnd::Broken => PickerOutcome::Broken,
    }
}

/// What the end of a dialog leads to.
pub fn after_dialog(asker: Asker, end: DialogEnd) -> (r: PickerStep)
    ensures
        r.outcome() == picker_outcome(asker, end),
{
    match end {
        DialogEnd::Success { output } => match decode_bytes(output) {
            Some(text) => {
                let path = trim(letters(text.as_str()).as_slice());
                PickerStep::Chosen { path: text_of(path.as_slice()) }
            },
            None => PickerStep::NotUnicode,
        },
        DialogEnd::Dismissed => PickerStep::Canceled,
        DialogEnd::Missing => match asker {
            Asker::Zenity => PickerStep::Ask { asker: Asker::Kdialog },
            _ => PickerStep::Ask { asker: Asker::Terminal },
        },
        DialogEnd::Broken => PickerStep::Broken,
    }
}

/// Asking comes to an end: after two missing programs the terminal is asked.
pub proof fn law_asking_ends(asker: Asker)
    ensures
        next_asker(next_asker(asker)) == Asker::Terminal,
{
}

/// What is said when asking fails.
pub fn asking_failed(step: &PickerStep) -> (r: Option<String>)
    ensures
        match step {
            PickerStep::Canceled => r matches Some(text) && text@
                == "DivineKnockout.exe selection was canceled"@,
            PickerStep::NotUnicode => r matches Some(text) && text@
                == "Linux file picker returned an invalid path"@,
            PickerStep::Broken => r matches Some(text) && text@
                == "open the Linux DivineKnockout.exe picker"@,
            _ => r is None,
        },
{
    match step {
        PickerStep::Canceled => Some("DivineKnockout.exe selection was canceled".to_owned()),
        PickerStep::NotUnicode => Some("Linux file picker returned an invalid path".to_owned()),
        PickerStep::Broken => Some("open the Linux DivineKnockout.exe picker".to_owned()),
        _ => None,
    }
}

/// The arguments of the first program. The suggestion is preselected when it is there.
pub open spec fn zenity_arguments(suggested: Seq<u8>, is_file: bool) -> Seq<Seq<char>> {
    seq![
        "--file-selection"@,
        "--title=Select DivineKnockout.exe"@,
        "--file-filter=DivineKnockout.exe | DivineKnockout.exe"@,
    ] + (if is_file {
        seq!["--filename="@ + lossy_text(suggested)]
    } else {
        Seq::empty()
    })
}

/// The arguments of the first program.
pub fn zenity_args(suggested: &[u8], is_file: bool) -> (r: Vec<String>)
    ensures
        texts(r@) == zenity_arguments(suggested@, is_file),
{
    let mut args: Vec<String> = Vec::new();
    args.push("--file-selection".to_owned());
    args.push("--title=Select DivineKnockout.exe".to_owned());
    args.push("--file-filter=DivineKnockout.exe | DivineKnockout.exe".to_owned());
    if is_file {
        args.push(concat("--filename=", decode_lossy(suggested).as_str()));
    }
    assert(texts(args@) =~= zenity_arguments(suggested@, is_file));
    args
}

/// The arguments of the second program, which starts in a directory.
pub open spec fn kdialog_arguments(start: Seq<u8>) -> Seq<Seq<u8>> {
    seq![
        vstd::utf8::encode_utf8("--getopenfilename"@),
        start,
        vstd::utf8::encode_utf8("DivineKnockout.exe|DivineKnockout.exe"@),
        vstd::utf8::encode_utf8("--title"@),
        vstd::utf8::encode_utf8("Select DivineKnockout.exe"@),
    ]
}

/// The arguments of the second program.
pub fn kdialog_args(start: &[u8]) -> (r: Vec<Vec<u8>>)
    ensures
        views(r@) == kdialog_arguments(start@),
{
    let mut args: Vec<Vec<u8>> = Vec::new();
    args.push(bytes_of("--getopenfilename"));
    let place = copied(start);
    assert(place@ =~= start@);
    args.push(place);
    args.push(bytes_of("DivineKnockout.exe|DivineKnockout.exe"));
    args.push(bytes_of("--title"));
    args.push(bytes_of("Select DivineKnockout.exe"));
    assert(views(args@) =~= kdialog_arguments(start@));
    args
}

/// The executable that is suggested, and the directory that the second program starts
/// in.
pub fn suggestion(steam_root: &[u8]) -> (r: (Vec<u8>, Vec<u8>))
    ensures
        r.0@ == game_in(steam_root@),
        r.1@ == match parent_of(game_in(steam_root@)) {
            Some(directory) => directory,
            None => steam_root@,
        },
{
    let suggested = game_executable_in_library(steam_root);
    let start = match parent(suggested.as_slice()) {
        Some(directory) => directory,
        None => {
            let own = copied(steam_root);
            assert(own@ =~= steam_root@);
            own
        },
    };
    (suggested, start)
}

/// The question on the terminal; the default stands in brackets.
pub fn terminal_question(default: &Option<Vec<u8>>) -> (r: String)
    ensures
        r@ == "Path to DivineKnockout.exe"@ + (match default {
            Some(path) => " ["@ + lossy_text(path@) + "]"@,
            None => ""@,
        }) + ": "@,
{
    let hint = match default {
        Some(path) => {
            let start = concat(" [", decode_lossy(path.as_slice()).as_str());
            concat(start.as_str(), "]")
        },
        None => "".to_owned(),
    };
    let text = concat("Path to DivineKnockout.exe", hint.as_str());
    concat(text.as_str(), ": ")
}

/// The path that an answer on the terminal stands for: the default, if it is empty.
pub open spec fn typed(answer: Seq<char>, default: Option<Seq<u8>>) -> Option<Seq<u8>> {
    if trimmed(answer).len() == 0 {
        default
    } else {
        Some(vstd::utf8::encode_utf8(trimmed(answer)))
    }
}

/// The path that an answer on the terminal stands for. Nothing when there is neither
/// an answer nor a default.
pub fn typed_path(answer: &str, default: Option<Vec<u8>>) -> (r: Option<Vec<u8>>)
    ensures
        crate::desktop::maybe_view(r) == typed(answer@, crate::desktop::maybe_view(default)),
{
    let text = trim(letters(answer).as_slice());
    if text.len() == 0 {
        default
    } else {
        Some(bytes_of(text_of(text.as_slice()).as_str()))
    }
}

} // verus!
