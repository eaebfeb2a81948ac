//! What the player is asked, and what the answers mean.
use crate::dialog::{
    dialog_args, dialog_step, prompt_of, question_of, reports_no_dialog, scrolled, verdict, wrapped,
    DialogInput, DialogStep, DialogVerdict, ErrorWindow, Page,
};
use crate::laws::text::{law_only_white_space_is_trimmed, law_text_is_found};
use crate::picker::{
    kdialog_arguments, picker_outcome, typed, zenity_arguments, Asker, DialogEnd, PickerOutcome,
};
use crate::text::{is_space, joined, lowercase, occurs, words_of};
use vstd::prelude::*;
use vstd::utf8::encode_utf8;

verus! {

/// Letters that fit behind what a line holds are put there.
pub proof fn law_letters_stay_on_the_line(page: Page, s: Seq<char>)
    requires
        page.open.len() + s.len() <= 88,
    ensures
        page.with_letters(s) == (Page { done: page.done, open: page.open + s }),
    decreases s.len(),
{
    if s.len() == 0 {
        assert(page.open + s =~= page.open);
    } else {
        law_letters_stay_on_the_line(page, s.drop_last());
        assert((page.open + s.drop_last()).push(s.last()) =~= page.open + s);
    }
}

/// A word that fits on the line is put there, after one space; another one starts the
/// next line.
pub proof fn law_words_are_wrapped(page: Page, word: Seq<char>)
    requires
        word.len() <= 88,
        page.open.len() <= 88,
    ensures
        page.open.len() == 0 ==> page.with_word(word) == (Page { done: page.done, open: word }),
        page.open.len() > 0 && page.open.len() + 1 + word.len() <= 88 ==> page.with_word(word) == (
        Page { done: page.done, open: page.open + seq![' '] + word }),
        page.open.len() > 0 && page.open.len() + 1 + word.len() > 88 ==> page.with_word(word) == (
        Page { done: page.done.push(page.open), open: word }),
{
    if page.open.len() == 0 {
        law_letters_stay_on_the_line(page, word);
        assert(page.open + word =~= word);
    } else if page.open.len() + 1 + word.len() <= 88 {
        let spaced = Page { done: page.done, open: page.open.push(' ') };
        law_letters_stay_on_the_line(spaced, word);
        assert(page.open.push(' ') =~= page.open + seq![' ']);
    } else {
        let next = Page { done: page.done.push(page.open), open: Seq::<char>::empty() };
        assert(page.broken() == next);
        law_letters_stay_on_the_line(next, word);
        assert(next.open + word =~= word);
    }
}

proof fn lemma_letters_join(page: Page, a: Seq<char>, b: Seq<char>)
    ensures
        page.with_letters(a + b) == page.with_letters(a).with_letters(b),
    decreases b.len(),
{
    if b.len() == 0 {
        assert(a + b =~= a);
    } else {
        assert((a + b).drop_last() =~= a + b.drop_last());
        lemma_letters_join(page, a, b.drop_last());
    }
}

/// A word that is longer than a line fills whole lines first.
pub proof fn law_long_words_are_cut(page: Page, line: Seq<char>, c: char, rest: Seq<char>)
    requires
        page.open.len() == 0,
        line.len() == 88,
    ensures
        page.with_word(line + seq![c] + rest) == (Page {
            done: page.done.push(line),
            open: seq![c],
        }).with_letters(rest),
{
    let head = line + seq![c];
    law_letters_stay_on_the_line(page, line);
    assert(page.open + line =~= line);
    let full = page.with_letters(line);
    assert(head.drop_last() =~= line);
    assert(page.with_letters(head) == full.with_letter(c));
    assert(Seq::<char>::empty().push(c) =~= seq![c]);
    lemma_letters_join(page, head, rest);
}

/// Every paragraph starts a line of its own, and takes one even if it is empty. One that
/// fits on a line is there whole, with one space between its words.
pub proof fn law_paragraphs_are_kept_apart(paragraphs: Seq<Seq<char>>, paragraph: Seq<char>)
    ensures
        words_of(paragraph).len() == 0 ==> wrapped(paragraphs.push(paragraph)) == wrapped(
            paragraphs,
        ).push(Seq::empty()),
        joined(words_of(paragraph), seq![' ']).len() <= 88 && (forall|i: int|
            0 <= i < words_of(paragraph).len() ==> (#[trigger] words_of(paragraph)[i]).len() > 0)
            ==> wrapped(paragraphs.push(paragraph)) == wrapped(paragraphs).push(
            joined(words_of(paragraph), seq![' ']),
        ),
{
    assert(paragraphs.push(paragraph).drop_last() =~= paragraphs);
    let page = Page { done: wrapped(paragraphs), open: Seq::<char>::empty() };
    let words = words_of(paragraph);
    if words.len() == 0 {
        assert(page.with_words(words) == page);
    }
    if joined(words, seq![' ']).len() <= 88 && (forall|i: int|
        0 <= i < words.len() ==> (#[trigger] words[i]).len() > 0) {
        lemma_line_of_words(page, words);
    }
}

proof fn lemma_line_of_words(page: Page, words: Seq<Seq<char>>)
    requires
        page.open.len() == 0,
        joined(words, seq![' ']).len() <= 88,
        forall|i: int| 0 <= i < words.len() ==> (#[trigger] words[i]).len() > 0,
    ensures
        page.with_words(words) == (Page { done: page.done, open: joined(words, seq![' ']) }),
        words.len() > 0 ==> joined(words, seq![' ']).len() > 0,
    decreases words.len(),
{
    if words.len() == 0 {
        assert(page.open =~= joined(words, seq![' ']));
    } else {
        let front = words.drop_last();
        assert(words[words.len() - 1].len() > 0);
        if words.len() == 1 {
            assert(front =~= Seq::empty());
            assert(page.with_words(front) == page);
            law_words_are_wrapped(page, words.last());
        } else {
            assert forall|i: int| 0 <= i < front.len() implies (#[trigger] front[i]).len() > 0 by {
                assert(words[i].len() > 0);
            }
            lemma_line_of_words(page, front);
            law_words_are_wrapped(page.with_words(front), words.last());
        }
    }
}

/// The window shows twenty lines from where it starts, or as many as are left.
pub proof fn law_window_shows_twenty_lines(window: ErrorWindow, i: int)
    requires
        window.offset <= window.lines@.len(),
    ensures
        window.shown().len() == (if window.lines@.len() - window.offset < 20 {
            window.lines@.len() - window.offset
        } else {
            20
        }),
        0 <= i < window.shown().len() ==> window.shown()[i] == window.lines@[window.offset + i]@,
{
}

/// The keys scroll by one line and the wheel by three, up to the first line and down to
/// the last page, and never further.
pub proof fn law_scrolling(window: ErrorWindow, input: DialogInput)
    requires
        window.is_sound(),
    ensures
        ({
            let lines = window.lines@.len() as int;
            let last = if lines > 20 {
                lines - 20
            } else {
                0
            };
            let before = window.offset as int;
            let after = scrolled(before, window.lines@.len(), input);
            &&& 0 <= after <= last
            &&& !input.down && !input.up && !input.wheel_down && !input.wheel_up ==> after == before
            &&& input.down && !input.up && !input.wheel_down && !input.wheel_up ==> after == before
                + 1 || before == last == after
            &&& !input.down && input.up && !input.wheel_down && !input.wheel_up ==> after == before
                - 1 || before == 0 == after
            &&& !input.down && !input.up && input.wheel_down && !input.wheel_up ==> after == before
                + 3 || (after == last && last - before < 3)
            &&& !input.down && !input.up && !input.wheel_down && input.wheel_up ==> after == before
                - 3 || (after == 0 && before < 3)
            &&& 3 < before < last - 3 ==> after == before + (if input.down {
                1int
            } else {
                0
            }) - (if input.up {
                1int
            } else {
                0
            }) + (if input.wheel_down {
                3int
            } else {
                0
            }) - (if input.wheel_up {
                3int
            } else {
                0
            })
        }),
{
}

/// The window closes when it is closed and with the escape key; with the repair key
/// where a repair is offered, and only there with the wish for one; and with the enter
/// key where none is offered. Scrolling keeps it open.
pub proof fn law_window_is_closed(offer_repair: bool, input: DialogInput)
    ensures
        dialog_step(offer_repair, input) == (DialogStep::Close { repair: true }) <==> input.open
            && !input.escape && offer_repair && input.repair,
        dialog_step(offer_repair, input) == (DialogStep::Close { repair: false }) <==> !input.open
            || input.escape || (!offer_repair && input.enter),
        dialog_step(offer_repair, input) == DialogStep::Show <==> input.open && !input.escape
            && !(offer_repair && input.repair) && !(!offer_repair && input.enter),
{
}

/// A dialog that reports success was answered, with a repair where one was offered. The
/// player dismissed it when it reports 1, unless it could not be shown. Anything else
/// means that the player saw nothing.
pub proof fn law_answers_of_dialogs(success: bool, code: Option<i32>, silent: bool, offer: bool)
    ensures
        success ==> verdict(success, code, silent, offer) == (DialogVerdict::Answered {
            repair: offer,
        }),
        verdict(success, code, silent, offer) == DialogVerdict::Unseen <==> !success && !(code
            == Some(1i32) && silent),
        verdict(success, code, silent, offer) == (DialogVerdict::Answered { repair: true })
            <==> success && offer,
{
}

/// What programs say that cannot show a dialog.
pub open spec fn display_faults() -> Seq<Seq<char>> {
    seq![
        "cannot open display"@,
        "could not connect to display"@,
        "failed to open display"@,
        "could not load the qt platform plugin"@,
        "no qt platform plugin could be initialized"@,
        "unknown option"@,
        "cannot parse arguments"@,
    ]
}

/// A fault of the display is recognized wherever the program speaks of it, in any case,
/// and no other output is taken for one.
pub proof fn law_faults_of_displays(output: Seq<char>)
    ensures
        reports_no_dialog(output) <==> exists|i: int|
            0 <= i < 7 && occurs(lowercase(output), #[trigger] display_faults()[i]),
{
    let all = display_faults();
    assert(all[0] == "cannot open display"@ && all[1] == "could not connect to display"@ && all[2]
        == "failed to open display"@ && all[3] == "could not load the qt platform plugin"@ && all[4]
        == "no qt platform plugin could be initialized"@ && all[5] == "unknown option"@ && all[6]
        == "cannot parse arguments"@);
}

/// However a fault is written, and whatever stands around it, it is recognized.
pub proof fn law_faults_are_recognized_anywhere(
    before: Seq<char>,
    fault: Seq<char>,
    after: Seq<char>,
    i: int,
)
    requires
        0 <= i < 7,
        lowercase(fault) == display_faults()[i],
    ensures
        reports_no_dialog(before + fault + after),
{
    let output = before + fault + after;
    assert(lowercase(output) =~= lowercase(before) + lowercase(fault) + lowercase(after));
    law_text_is_found(lowercase(before), lowercase(fault), lowercase(after));
    law_faults_of_displays(output);
}

/// The message comes first, then where the log is, and a question only where a repair is
/// offered.
pub proof fn law_prompts(message: Seq<char>, log: Seq<char>)
    ensures
        prompt_of(message, log, false) == message + "\n\nDebug log: "@ + log,
        prompt_of(message, log, true) == prompt_of(message, log, false)
            + "\n\nRepair the launcher and choose DivineKnockout.exe now?"@,
        question_of(message, log).len() == message.len() + log.len() + question_of(
            Seq::empty(),
            Seq::empty(),
        ).len(),
        question_of(message, log).take(message.len() as int) == message,
        question_of(message, log).skip(question_of(message, log).len() - log.len()) == log,
{
    reveal_strlit("");
    assert(prompt_of(message, log, false) =~= message + "\n\nDebug log: "@ + log);
    assert(question_of(message, log).take(message.len() as int) =~= message);
    assert(question_of(message, log).skip(question_of(message, log).len() - log.len()) =~= log);
}

/// The prompt is one argument, shown as it is. A question is asked only where a repair
/// is offered, with two named answers, and else an error is shown.
pub proof fn law_arguments_of_dialogs(prompt: Seq<char>)
    ensures
        dialog_args("zenity"@, prompt, true) == seq![
            "--question"@,
            "--title=Project KNOCKOUT Launcher"@,
            "--no-markup"@,
            "--width=640"@,
            "--text"@,
            prompt,
            "--ok-label=Repair"@,
            "--cancel-label=Close"@,
        ],
        dialog_args("zenity"@, prompt, false) == seq![
            "--error"@,
            "--title=Project KNOCKOUT Launcher"@,
            "--no-markup"@,
            "--width=640"@,
            "--text"@,
            prompt,
        ],
        dialog_args("kdialog"@, prompt, true) == seq![
            "--title"@,
            "Project KNOCKOUT Launcher"@,
            "--yesno"@,
            prompt,
            "--yes-label"@,
            "Repair"@,
            "--no-label"@,
            "Close"@,
        ],
        dialog_args("kdialog"@, prompt, false) == seq![
            "--title"@,
            "Project KNOCKOUT Launcher"@,
            "--error"@,
            prompt,
        ],
{
    reveal_strlit("zenity");
    reveal_strlit("kdialog");
    assert("zenity"@[0] != "kdialog"@[0]);
    assert(dialog_args("zenity"@, prompt, true) =~= seq![
        "--question"@,
        "--title=Project KNOCKOUT Launcher"@,
        "--no-markup"@,
        "--width=640"@,
        "--text"@,
        prompt,
        "--ok-label=Repair"@,
        "--cancel-label=Close"@,
    ]);
    assert(dialog_args("zenity"@, prompt, false) =~= seq![
        "--error"@,
        "--title=Project KNOCKOUT Launcher"@,
        "--no-markup"@,
        "--width=640"@,
        "--text"@,
        prompt,
    ]);
    assert(dialog_args("kdialog"@, prompt, true) =~= seq![
        "--title"@,
        "Project KNOCKOUT Launcher"@,
        "--yesno"@,
        prompt,
        "--yes-label"@,
        "Repair"@,
        "--no-label"@,
        "Close"@,
    ]);
    assert(dialog_args("kdialog"@, prompt, false) =~= seq![
        "--title"@,
        "Project KNOCKOUT Launcher"@,
        "--error"@,
        prompt,
    ]);
}

/// What the player chose is taken as it was written, but for the white space around it.
pub proof fn law_chosen_path_is_taken(
    asker: Asker,
    end: DialogEnd,
    before: Seq<char>,
    path: Seq<char>,
    after: Seq<char>,
)
    requires
        end is Success,
        end->Success_output@ == encode_utf8(before + path + after),
        crate::laws::text::all_spaces(before),
        crate::laws::text::all_spaces(after),
        path.len() > 0 ==> !is_space(path[0]) && !is_space(path.last()),
    ensures
        picker_outcome(asker, end) == (PickerOutcome::Chosen { path }),
{
    let text = before + path + after;
    vstd::utf8::encode_utf8_valid_utf8(text);
    vstd::utf8::encode_utf8_decode_utf8(text);
    law_only_white_space_is_trimmed(before, path, after);
}

/// A program that is missing is passed over, up to the terminal. A player who chooses
/// nothing is not asked again, and neither is one whose program broke.
pub proof fn law_ways_to_ask(asker: Asker, end: DialogEnd)
    ensures
        end is Missing ==> picker_outcome(asker, end) == (PickerOutcome::Ask {
            asker: if asker == Asker::Zenity {
                Asker::Kdialog
            } else {
                Asker::Terminal
            },
        }),
        end is Dismissed ==> picker_outcome(asker, end) == PickerOutcome::Canceled,
        end is Broken ==> picker_outcome(asker, end) == PickerOutcome::Broken,
        end is Success && !vstd::utf8::valid_utf8(end->Success_output@) ==> picker_outcome(
            asker,
            end,
        ) == PickerOutcome::NotUnicode,
{
}

/// What is typed is taken without the white space around it, and nothing but white space
/// stands for the suggestion.
pub proof fn law_typed_paths(
    before: Seq<char>,
    path: Seq<char>,
    after: Seq<char>,
    default: Option<Seq<u8>>,
)
    requires
        crate::laws::text::all_spaces(before),
        crate::laws::text::all_spaces(after),
        path.len() > 0 ==> !is_space(path[0]) && !is_space(path.last()),
    ensures
        typed(before + path + after, default) == (if path.len() > 0 {
            Some(encode_utf8(path))
        } else {
            default
        }),
{
    law_only_white_space_is_trimmed(before, path, after);
}

/// The suggestion is preselected only when it is there; the other program starts in the
/// directory that it is given.
pub proof fn law_arguments_of_file_dialogs(suggested: Seq<u8>, start: Seq<u8>)
    ensures
        zenity_arguments(suggested, false) == seq![
            "--file-selection"@,
            "--title=Select DivineKnockout.exe"@,
            "--file-filter=DivineKnockout.exe | DivineKnockout.exe"@,
        ],
        zenity_arguments(suggested, true) == zenity_arguments(suggested, false).push(
            "--filename="@ + crate::dialog::lossy_text(suggested),
        ),
        kdialog_arguments(start).len() == 5,
        kdialog_arguments(start)[0] == encode_utf8("--getopenfilename"@),
        kdialog_arguments(start)[1] == start,
        kdialog_arguments(start)[2] == encode_utf8("DivineKnockout.exe|DivineKnockout.exe"@),
        kdialog_arguments(start)[3] == encode_utf8("--title"@),
        kdialog_arguments(start)[4] == encode_utf8("Select DivineKnockout.exe"@),
{
    assert(zenity_arguments(suggested, false) =~= seq![
        "--file-selection"@,
        "--title=Select DivineKnockout.exe"@,
        "--file-filter=DivineKnockout.exe | DivineKnockout.exe"@,
    ]);
    assert(zenity_arguments(suggested, true) =~= zenity_arguments(suggested, false).push(
        "--filename="@ + crate::dialog::lossy_text(suggested),
    ));
}

} // verus!
