//! Telling the player what went wrong, on a desktop that may or may not have a
//! program for it.
use crate::text::{
    concat, contains, is_space, letters, lines, lines_of, lower_all, lowercase, occurs, spells,
    text_of, texts, views, words, words_of,
};
use vstd::prelude::*;

verus! {

/// What `String::from_utf8_lossy` makes of bytes.
pub uninterp spec fn lossy_text(bytes: Seq<u8>) -> Seq<char>;

/// `String::from_utf8_lossy`: the text that the bytes encode, or a text in which
/// replacement characters stand for what is not valid UTF-8. Only where they stand
/// is left to the library.
#[verifier::external_body]
pub(crate) fn decode_lossy(bytes: &[u8]) -> (r: String)
    ensures
        r@ == lossy_text(bytes@),
        vstd::utf8::valid_utf8(bytes@) ==> r@ == vstd::utf8::decode_utf8(bytes@),
{
    String::from_utf8_lossy(bytes).into_owned()
}

/// The question that a dialog asks, or the statement that it makes.
pub open spec fn prompt_of(message: Seq<char>, log: Seq<char>, offer_repair: bool) -> Seq<char> {
    message + "\n\nDebug log: "@ + log + (if offer_repair {
        "\n\nRepair the launcher and choose DivineKnockout.exe now?"@
    } else {
        ""@
    })
}

/// The question that a dialog asks, or the statement that it makes.
pub fn error_prompt(message: &str, log: &str, offer_repair: bool) -> (r: String)
    ensures
        r@ == prompt_of(message@, log@, offer_repair),
{
    let start = concat(message, "\n\nDebug log: ");
    let start = concat(start.as_str(), log);
    concat(
        start.as_str(),
        if offer_repair {
            "\n\nRepair the launcher and choose DivineKnockout.exe now?"
        } else {
            ""
        },
    )
}

/// The question on a system that asks it in a box of its own.
pub open spec fn question_of(message: Seq<char>, log: Seq<char>) -> Seq<char> {
    message
        + "\n\nWould you like to repair the launcher and choose DivineKnockout.exe now?\n\nDebug log: "@
        + log
}

/// The question on a system that asks it in a box of its own.
pub fn repair_question(message: &str, log: &str) -> (r: String)
    ensures
        r@ == question_of(message@, log@),
{
    let start = concat(
        message,
        "\n\nWould you like to repair the launcher and choose DivineKnockout.exe now?\n\nDebug log: ",
    );
    concat(start.as_str(), log)
}

/// The arguments of a dialog program.
pub open spec fn dialog_args(program: Seq<char>, prompt: Seq<char>, offer_repair: bool) -> Seq<
    Seq<char>,
> {
    if program == "zenity"@ {
        seq![
            if offer_repair {
                "--question"@
            } else {
                "--error"@
            },
            "--title=Project KNOCKOUT Launcher"@,
            "--no-markup"@,
            "--width=640"@,
            "--text"@,
            prompt,
        ] + (if offer_repair {
            seq!["--ok-label=Repair"@, "--cancel-label=Close"@]
        } else {
            Seq::empty()
        })
    } else {
        seq![
            "--title"@,
            "Project KNOCKOUT Launcher"@,
            if offer_repair {
                "--yesno"@
            } else {
                "--error"@
            },
            prompt,
        ] + (if offer_repair {
            seq!["--yes-label"@, "Repair"@, "--no-label"@, "Close"@]
        } else {
            Seq::empty()
        })
    }
}

/// The program that is to show a failure after `tried` others could not.
pub fn dialog_program(tried: usize) -> (r: Option<&'static str>)
    ensures
        match r {
            Some(program) => (tried == 0 && program@ == "zenity"@) || (tried == 1 && program@
                == "kdialog"@),
            None => tried >= 2,
        },
{
    if tried == 0 {
        Some("zenity")
    } else if tried == 1 {
        Some("kdialog")
    } else {
        None
    }
}

/// The arguments of a dialog program.
pub fn linux_error_dialog_args(program: &str, prompt: &str, offer_repair: bool) -> (r: Vec<String>)
    ensures
        texts(r@) == dialog_args(program@, prompt@, offer_repair),
{
    let mut args: Vec<String> = Vec::new();
    if spells(letters(program).as_slice(), "zenity") {
        args.push(
            (if offer_repair {
                "--question"
            } else {
                "--error"
            }).to_owned(),
        );
        args.push("--title=Project KNOCKOUT Launcher".to_owned());
        args.push("--no-markup".to_owned());
        args.push("--width=640".to_owned());
        args.push("--text".to_owned());
        args.push(prompt.to_owned());
        if offer_repair {
            args.push("--ok-label=Repair".to_owned());
            args.push("--cancel-label=Close".to_owned());
        }
    } else {
        args.push("--title".to_owned());
        args.push("Project KNOCKOUT Launcher".to_owned());
        args.push(
            (if offer_repair {
                "--yesno"
            } else {
                "--error"
            }).to_owned(),
        );
        args.push(prompt.to_owned());
        if offer_repair {
            args.push("--yes-label".to_owned());
            args.push("Repair".to_owned());
            args.push("--no-label".to_owned());
            args.push("Close".to_owned());
        }
    }
    assert(texts(args@) =~= dialog_args(program@, prompt@, offer_repair));
    args
}

/// The program says that it could not show anything.
pub open spec fn reports_no_dialog(output: Seq<char>) -> bool {
    let message = lowercase(output);
    ||| occurs(message, "cannot open display"@)
    ||| occurs(message, "could not connect to display"@)
    ||| occurs(message, "failed to open display"@)
    ||| occurs(message, "could not load the qt platform plugin"@)
    ||| occurs(message, "no qt platform plugin could be initialized"@)
    ||| occurs(message, "unknown option"@)
    ||| occurs(message, "cannot parse arguments"@)
}

/// Whether a program's output says that it could not show anything.
pub fn output_reports_no_dialog(output: &str) -> (r: bool)
    ensures
        r == reports_no_dialog(output@),
{
    let message = lower_all(letters(output).as_slice());
    let text = message.as_slice();
    contains(text, letters("cannot open display").as_slice()) || contains(
        text,
        letters("could not connect to display").as_slice(),
    ) || contains(text, letters("failed to open display").as_slice()) || contains(
        text,
        letters("could not load the qt platform plugin").as_slice(),
    ) || contains(text, letters("no qt platform plugin could be initialized").as_slice())
        || contains(text, letters("unknown option").as_slice()) || contains(
        text,
        letters("cannot parse arguments").as_slice(),
    )
}

/// Whether a program could not show anything, going by what it wrote.
pub fn dialog_initialization_failed(stderr: &[u8]) -> (r: bool)
    ensures
        r == reports_no_dialog(lossy_text(stderr@)),
{
    output_reports_no_dialog(decode_lossy(stderr).as_str())
}

/// How a dialog program ended.
pub struct DialogExit {
    pub success: bool,
    pub code: Option<i32>,
    pub stderr: Vec<u8>,
}

/// What a dialog program's end means.
#[derive(Clone, Copy, Debug, PartialEq, Eq, Structural)]
pub enum DialogVerdict {
    /// The player answered.
    Answered { repair: bool },
    /// The player saw nothing; another way is to be tried.
    Unseen,
}

/// What a dialog program's end means; `silent` says that its output does not report a
/// failure to show anything. A program may warn even after it showed its dialog, so
/// only such a report overrides the player's dismissal.
pub open spec fn verdict(success: bool, code: Option<i32>, silent: bool, offer_repair: bool) -> DialogVerdict {
    if success {
        DialogVerdict::Answered { repair: offer_repair }
    } else if code == Some(1i32) && silent {
        DialogVerdict::Answered { repair: false }
    } else {
        DialogVerdict::Unseen
    }
}

/// What the end of a dialog program means; `None` when it could not be started.
pub fn judge_dialog(exit: &Option<DialogExit>, offer_repair: bool) -> (r: DialogVerdict)
    ensures
        match exit {
            Some(exit) => r == verdict(
                exit.success,
                exit.code,
                !reports_no_dialog(lossy_text(exit.stderr@)),
                offer_repair,
            ),
            None => r == DialogVerdict::Unseen,
        },
{
    match exit {
        None => DialogVerdict::Unseen,
        Some(exit) => {
            if exit.success {
                return DialogVerdict::Answered { repair: offer_repair };
            }
            let dismissed = match exit.code {
                Some(code) => code == 1,
                None => false,
            };
            if dismissed && !dialog_initialization_failed(exit.stderr.as_slice()) {
                DialogVerdict::Answered { repair: false }
            } else {
                DialogVerdict::Unseen
            }
        },
    }
}

/// A repair starts only when it was offered and the program reports that the player
/// chose it.
pub proof fn law_repair_needs_consent(success: bool, code: Option<i32>, silent: bool, offer_repair: bool)
    requires
        verdict(success, code, silent, offer_repair) == (DialogVerdict::Answered { repair: true }),
    ensures
        offer_repair,
        success,
{
}

/// How many characters fit on a line of the built-in window.
pub const COLUMNS: usize = 88;

/// How many lines fit in the built-in window.
pub const ROWS: usize = 20;

/// Lines of text, the last one still open.
#[verifier::ext_equal]
pub struct Page {
    pub done: Seq<Seq<char>>,
    pub open: Seq<char>,
}

impl Page {
    pub open spec fn broken(self) -> Page {
        Page { done: self.done.push(self.open), open: Seq::empty() }
    }

    /// One more character; a full line is ended first.
    pub open spec fn with_letter(self, c: char) -> Page {
        let page = if self.open.len() == COLUMNS {
            self.broken()
        } else {
            self
        };
        Page { open: page.open.push(c), ..page }
    }

    pub open spec fn with_letters(self, s: Seq<char>) -> Page
        decreases s.len(),
    {
        if s.len() == 0 {
            self
        } else {
            self.with_letters(s.drop_last()).with_letter(s.last())
        }
    }

    /// One more word, on the next line if it does not fit on this one.
    pub open spec fn with_word(self, word: Seq<char>) -> Page {
        let page = if self.open.len() > 0 && self.open.len() + 1 + word.len() > COLUMNS {
            self.broken()
        } else {
            self
        };
        let page = if page.open.len() > 0 {
            Page { open: page.open.push(' '), ..page }
        } else {
            page
        };
        page.with_letters(word)
    }

    pub open spec fn with_words(self, words: Seq<Seq<char>>) -> Page
        decreases words.len(),
    {
        if words.len() == 0 {
            self
        } else {
            self.with_words(words.drop_last()).with_word(words.last())
        }
    }
}

/// The lines that paragraphs take up.
pub open spec fn wrapped(paragraphs: Seq<Seq<char>>) -> Seq<Seq<char>>
    decreases paragraphs.len(),
{
    if paragraphs.len() == 0 {
        Seq::empty()
    } else {
        let page = Page { done: wrapped(paragraphs.drop_last()), open: Seq::empty() };
        page.with_words(words_of(paragraphs.last())).broken().done
    }
}

struct PageText {
    done: Vec<Vec<char>>,
    open: Vec<char>,
}

impl PageText {
    spec fn page(self) -> Page {
        Page { done: views(self.done@), open: self.open@ }
    }

    fn end_line(&mut self)
        ensures
            final(self).page() == old(self).page().broken(),
    {
        let ghost before = views(self.done@);
        let mut line: Vec<char> = Vec::new();
        std::mem::swap(&mut line, &mut self.open);
        let ghost ended = line@;
        self.done.push(line);
        assert(views(self.done@) =~= before.push(ended));
        assert(self.open@ =~= Seq::empty());
    }

    fn push_word(&mut self, word: &[char])
        ensures
            final(self).page() == old(self).page().with_word(word@),
    {
        if self.open.len() > 0 && (word.len() > COLUMNS || self.open.len() > COLUMNS
            || self.open.len() + 1 + word.len() > COLUMNS) {
            self.end_line();
        }
        if self.open.len() > 0 {
            self.open.push(' ');
        }
        let ghost start = self.page();
        let mut i: usize = 0;
        assert(word@.take(0) =~= Seq::empty());
        while i < word.len()
            invariant
                i <= word@.len(),
                self.page() == start.with_letters(word@.take(i as int)),
            decreases word@.len() - i,
        {
            assert(word@.take(i + 1).drop_last() =~= word@.take(i as int));
            if self.open.len() == COLUMNS {
                self.end_line();
            }
            let ghost page = self.page();
            self.open.push(word[i]);
            assert(self.page() =~= (Page { open: page.open.push(word@[i as int]), ..page }));
            i = i + 1;
        }
        assert(word@.take(i as int) =~= word@);
    }
}

/// Breaks a text into the lines of the built-in window.
pub fn wrap(prompt: &str) -> (r: Vec<Vec<char>>)
    ensures
        views(r@) == wrapped(lines_of(prompt@)),
{
    let paragraphs = lines(letters(prompt).as_slice());
    let ghost all = views(paragraphs@);
    let mut page = PageText { done: Vec::new(), open: Vec::new() };
    let mut i: usize = 0;
    assert(all.take(0) =~= Seq::empty());
    assert(views(page.done@) =~= Seq::empty());
    assert(page.open@ =~= Seq::empty());
    while i < paragraphs.len()
        invariant
            i <= paragraphs@.len(),
            all == views(paragraphs@),
            page.page() == (Page { done: wrapped(all.take(i as int)), open: Seq::empty() }),
        decreases paragraphs@.len() - i,
    {
        assert(all.take(i + 1).drop_last() =~= all.take(i as int));
        let list = words(paragraphs[i].as_slice());
        let ghost start = page.page();
        let ghost expected = views(list@);
        let mut k: usize = 0;
        assert(expected.take(0) =~= Seq::empty());
        while k < list.len()
            invariant
                k <= list@.len(),
                expected == views(list@),
                page.page() == start.with_words(expected.take(k as int)),
            decreases list@.len() - k,
        {
            assert(expected.take(k + 1).drop_last() =~= expected.take(k as int));
            page.push_word(list[k].as_slice());
            k = k + 1;
        }
        assert(expected.take(k as int) =~= expected);
        page.end_line();
        i = i + 1;
    }
    assert(all.take(i as int) =~= all);
    page.done
}

proof fn lemma_letters_fit(page: Page, s: Seq<char>)
    requires
        page.open.len() <= COLUMNS,
        forall|i: int| 0 <= i < page.done.len() ==> (#[trigger] page.done[i]).len() <= COLUMNS,
    ensures
        page.with_letters(s).open.len() <= COLUMNS,
        forall|i: int|
            0 <= i < page.with_letters(s).done.len() ==> (#[trigger] page.with_letters(
                s,
            ).done[i]).len() <= COLUMNS,
    decreases s.len(),
{
    if s.len() > 0 {
        lemma_letters_fit(page, s.drop_last());
    }
}

proof fn lemma_words_fit(page: Page, words: Seq<Seq<char>>)
    requires
        page.open.len() <= COLUMNS,
        forall|i: int| 0 <= i < page.done.len() ==> (#[trigger] page.done[i]).len() <= COLUMNS,
        forall|i: int| 0 <= i < words.len() ==> (#[trigger] words[i]).len() > 0,
    ensures
        page.with_words(words).open.len() <= COLUMNS,
        forall|i: int|
            0 <= i < page.with_words(words).done.len() ==> (#[trigger] page.with_words(
                words,
            ).done[i]).len() <= COLUMNS,
    decreases words.len(),
{
    if words.len() > 0 {
        assert(words.last().len() > 0);
        assert forall|i: int| 0 <= i < words.drop_last().len() implies (
        #[trigger] words.drop_last()[i]).len() > 0 by {
            assert(words[i].len() > 0);
        }
        lemma_words_fit(page, words.drop_last());
        let before = page.with_words(words.drop_last());
        let word = words.last();
        let broken = if before.open.len() > 0 && before.open.len() + 1 + word.len() > COLUMNS {
            before.broken()
        } else {
            before
        };
        let spaced = if broken.open.len() > 0 {
            Page { open: broken.open.push(' '), ..broken }
        } else {
            broken
        };
        lemma_letters_fit(spaced, word);
    }
}

proof fn lemma_words_are_not_empty(s: Seq<char>)
    ensures
        forall|i: int| 0 <= i < words_of(s).len() ==> (#[trigger] words_of(s)[i]).len() > 0,
        s.len() > 0 && !is_space(s.last()) ==> words_of(s).len() > 0,
    decreases s.len(),
{
    if s.len() > 0 {
        lemma_words_are_not_empty(s.drop_last());
        let before = words_of(s.drop_last());
        if s.len() > 1 {
            assert(s.drop_last().last() == s[s.len() - 2]);
        }
        assert forall|i: int| 0 <= i < words_of(s).len() implies (#[trigger] words_of(s)[i]).len()
            > 0 by {
            if i < before.len() {
                assert(before[i].len() > 0);
            }
        }
    }
}

/// No line is wider than the window.
pub proof fn law_wrapped_lines_fit(paragraphs: Seq<Seq<char>>, i: int)
    requires
        0 <= i < wrapped(paragraphs).len(),
    ensures
        wrapped(paragraphs)[i].len() <= COLUMNS,
    decreases paragraphs.len(),
{
    if paragraphs.len() > 0 {
        let page = Page { done: wrapped(paragraphs.drop_last()), open: Seq::empty() };
        assert forall|k: int| 0 <= k < page.done.len() implies (#[trigger] page.done[k]).len()
            <= COLUMNS by {
            law_wrapped_lines_fit(paragraphs.drop_last(), k);
        }
        lemma_words_are_not_empty(paragraphs.last());
        lemma_words_fit(page, words_of(paragraphs.last()));
    }
}

/// The characters of a text that are not white space.
pub open spec fn ink(s: Seq<char>) -> Seq<char>
    decreases s.len(),
{
    if s.len() == 0 {
        Seq::empty()
    } else if is_space(s.last()) {
        ink(s.drop_last())
    } else {
        ink(s.drop_last()).push(s.last())
    }
}

/// The characters of several texts that are not white space.
pub open spec fn total_ink(parts: Seq<Seq<char>>) -> Seq<char>
    decreases parts.len(),
{
    if parts.len() == 0 {
        Seq::empty()
    } else {
        total_ink(parts.drop_last()) + ink(parts.last())
    }
}

impl Page {
    pub open spec fn ink(self) -> Seq<char> {
        total_ink(self.done) + ink(self.open)
    }
}

proof fn lemma_ink_of_break(page: Page)
    ensures
        page.broken().ink() == page.ink(),
{
    assert(page.broken().done.drop_last() =~= page.done);
    assert(page.broken().ink() =~= page.ink());
}

proof fn lemma_ink_of_letters(page: Page, s: Seq<char>)
    ensures
        page.with_letters(s).ink() == page.ink() + ink(s),
    decreases s.len(),
{
    if s.len() == 0 {
        assert(page.ink() + ink(s) =~= page.ink());
    } else {
        lemma_ink_of_letters(page, s.drop_last());
        let before = page.with_letters(s.drop_last());
        lemma_ink_of_break(before);
        let ready = if before.open.len() == COLUMNS {
            before.broken()
        } else {
            before
        };
        assert(ready.ink() == before.ink());
        let after = page.with_letters(s);
        assert(after.open.drop_last() =~= ready.open);
        assert(after.open.last() == s.last());
        assert(after.done == ready.done);
        assert(after.ink() =~= if is_space(s.last()) {
            ready.ink()
        } else {
            ready.ink().push(s.last())
        });
        assert(after.ink() =~= page.ink() + ink(s));
    }
}

proof fn lemma_ink_of_words(page: Page, words: Seq<Seq<char>>)
    ensures
        page.with_words(words).ink() == page.ink() + total_ink(words),
    decreases words.len(),
{
    if words.len() == 0 {
        assert(page.ink() + total_ink(words) =~= page.ink());
    } else {
        lemma_ink_of_words(page, words.drop_last());
        let before = page.with_words(words.drop_last());
        let word = words.last();
        lemma_ink_of_break(before);
        let broken = if before.open.len() > 0 && before.open.len() + 1 + word.len() > COLUMNS {
            before.broken()
        } else {
            before
        };
        let spaced = if broken.open.len() > 0 {
            Page { open: broken.open.push(' '), ..broken }
        } else {
            broken
        };
        assert(broken.open.push(' ').drop_last() =~= broken.open);
        assert(is_space(' '));
        assert(spaced.ink() =~= before.ink());
        lemma_ink_of_letters(spaced, word);
        assert(page.with_words(words).ink() =~= page.ink() + total_ink(words));
    }
}

proof fn lemma_ink_in_words(s: Seq<char>)
    ensures
        total_ink(words_of(s)) == ink(s),
        s.len() > 0 && !is_space(s.last()) ==> words_of(s).len() > 0,
    decreases s.len(),
{
    if s.len() > 0 {
        let before = words_of(s.drop_last());
        let after = words_of(s);
        lemma_ink_in_words(s.drop_last());
        if is_space(s.last()) {
        } else if s.len() == 1 || is_space(s[s.len() - 2]) {
            assert(after.drop_last() =~= before);
            assert(seq![s.last()].drop_last() =~= Seq::empty());
            assert(ink(seq![s.last()].drop_last()) =~= Seq::empty());
            assert(ink(seq![s.last()]) =~= seq![s.last()]);
            assert(total_ink(after) =~= ink(s));
        } else {
            assert(s.drop_last().last() == s[s.len() - 2]);
            assert(after.drop_last() =~= before.drop_last());
            assert(after.last().drop_last() =~= before.last());
            assert(total_ink(after) =~= ink(s));
        }
    }
}

/// Wrapping loses nothing but white space: the other characters come out one by one,
/// in their order.
pub proof fn law_wrapping_keeps_every_character(paragraphs: Seq<Seq<char>>)
    ensures
        total_ink(wrapped(paragraphs)) == total_ink(paragraphs),
    decreases paragraphs.len(),
{
    if paragraphs.len() > 0 {
        law_wrapping_keeps_every_character(paragraphs.drop_last());
        let page = Page { done: wrapped(paragraphs.drop_last()), open: Seq::empty() };
        let list = words_of(paragraphs.last());
        lemma_ink_of_words(page, list);
        lemma_ink_in_words(paragraphs.last());
        lemma_ink_of_break(page.with_words(list));
        assert(page.ink() =~= total_ink(paragraphs.drop_last()));
        assert(page.with_words(list).broken().ink() =~= total_ink(wrapped(paragraphs)));
    }
}

/// What the player does with the built-in window during one frame.
#[derive(Clone, Copy, Debug, PartialEq, Eq, Structural)]
pub struct DialogInput {
    pub open: bool,
    pub escape: bool,
    pub repair: bool,
    pub enter: bool,
    pub down: bool,
    pub up: bool,
    pub wheel_down: bool,
    pub wheel_up: bool,
}

/// What a frame of the built-in window leads to.
#[derive(Clone, Copy, Debug, PartialEq, Eq, Structural)]
pub enum DialogStep {
    /// The window closes; true when the player wants a repair.
    Close { repair: bool },
    Show,
}

/// The built-in window.
pub struct ErrorWindow {
    pub lines: Vec<Vec<char>>,
    pub offset: usize,
    pub offer_repair: bool,
}

/// The last line that the window can start with.
pub open spec fn last_offset(lines: nat) -> int {
    if lines > ROWS {
        lines - ROWS
    } else {
        0
    }
}

pub open spec fn lesser(a: int, b: int) -> int {
    if a < b {
        a
    } else {
        b
    }
}

pub open spec fn at_least_zero(a: int) -> int {
    if a < 0 {
        0
    } else {
        a
    }
}

/// Where the window starts after the player scrolled.
pub open spec fn scrolled(offset: int, lines: nat, input: DialogInput) -> int {
    let offset = if input.down {
        lesser(offset + 1, last_offset(lines))
    } else {
        offset
    };
    let offset = if input.up {
        at_least_zero(offset - 1)
    } else {
        offset
    };
    let offset = if input.wheel_down {
        lesser(offset + 3, last_offset(lines))
    } else {
        offset
    };
    if input.wheel_up {
        at_least_zero(offset - 3)
    } else {
        offset
    }
}

/// What a frame leads to.
pub open spec fn dialog_step(offer_repair: bool, input: DialogInput) -> DialogStep {
    if !input.open || input.escape {
        DialogStep::Close { repair: false }
    } else if offer_repair && input.repair {
        DialogStep::Close { repair: true }
    } else if !offer_repair && input.enter {
        DialogStep::Close { repair: false }
    } else {
        DialogStep::Show
    }
}

impl ErrorWindow {
    /// The window never starts behind its last page.
    pub open spec fn is_sound(self) -> bool {
        self.offset <= last_offset(self.lines@.len())
    }

    /// The lines that are shown.
    pub open spec fn shown(self) -> Seq<Seq<char>> {
        let rest = views(self.lines@).skip(self.offset as int);
        if rest.len() > ROWS {
            rest.take(ROWS as int)
        } else {
            rest
        }
    }

    pub fn new(prompt: &str, offer_repair: bool) -> (r: ErrorWindow)
        ensures
            r.is_sound(),
            views(r.lines@) == wrapped(lines_of(prompt@)),
            r.offset == 0,
            r.offer_repair == offer_repair,
    {
        ErrorWindow { lines: wrap(prompt), offset: 0, offer_repair }
    }

    fn furthest(&self) -> (r: usize)
        ensures
            r == last_offset(self.lines@.len()),
    {
        if self.lines.len() > ROWS {
            self.lines.len() - ROWS
        } else {
            0
        }
    }

    /// One frame of the window.
    pub fn step(&mut self, input: DialogInput) -> (r: DialogStep)
        requires
            old(self).is_sound(),
        ensures
            final(self).is_sound(),
            r == dialog_step(old(self).offer_repair, input),
            final(self).lines == old(self).lines,
            final(self).offer_repair == old(self).offer_repair,
            final(self).offset == if r == DialogStep::Show {
                scrolled(old(self).offset as int, old(self).lines@.len(), input)
            } else {
                old(self).offset as int
            },
    {
        if !input.open || input.escape {
            return DialogStep::Close { repair: false };
        }
        if self.offer_repair && input.repair {
            return DialogStep::Close { repair: true };
        }
        if !self.offer_repair && input.enter {
            return DialogStep::Close { repair: false };
        }
        let furthest = self.furthest();
        let mut offset: usize = self.offset;
        if input.down {
            offset = if offset < furthest {
                offset + 1
            } else {
                furthest
            };
        }
        if input.up {
            offset = if offset > 1 {
                offset - 1
            } else {
                0
            };
        }
        if input.wheel_down {
            offset = if furthest > 3 && offset < furthest - 3 {
                offset + 3
            } else {
                furthest
            };
        }
        if input.wheel_up {
            offset = if offset > 3 {
                offset - 3
            } else {
                0
            };
        }
        self.offset = offset;
        DialogStep::Show
    }

    /// The lines to show.
    pub fn visible(&self) -> (r: Vec<String>)
        requires
            self.is_sound(),
        ensures
            texts(r@) == self.shown(),
    {
        let ghost all = views(self.lines@);
        let mut r: Vec<String> = Vec::new();
        let mut end: usize = self.lines.len();
        if end - self.offset > ROWS {
            end = self.offset + ROWS;
        }
        let mut i: usize = self.offset;
        while i < end
            invariant
                self.offset <= i <= end <= self.lines@.len(),
                all == views(self.lines@),
                texts(r@) == all.subrange(self.offset as int, i as int),
            decreases end - i,
        {
            let ghost before = texts(r@);
            let line = text_of(self.lines[i].as_slice());
            let ghost added = line@;
            r.push(line);
            assert(texts(r@) =~= before.push(added));
            assert(all.subrange(self.offset as int, i + 1) =~= all.subrange(
                self.offset as int,
                i as int,
            ).push(all[i as int]));
            i = i + 1;
        }
        assert(self.shown() =~= all.subrange(self.offset as int, end as int));
        r
    }
}

} // verus!
