//! How the files of Steam are read, word by word.
use crate::laws::text::law_nothing_else_is_replaced;
use crate::process::vdf::{
    bare_end, closing_quote, is_brace, line_end, object_from, unescaped, words_from, Vdf, Word,
};
use crate::text::{is_space, occurs, occurs_at, replaced};
use vstd::prelude::*;

verus! {

proof fn lemma_line_end_shifts(s: Seq<char>, from: int, i: int)
    requires
        0 <= from <= s.len(),
        0 <= i,
    ensures
        line_end(s, from + i) == from + line_end(s.skip(from), i),
        i <= line_end(s.skip(from), i),
        i <= s.len() - from ==> line_end(s.skip(from), i) <= s.len() - from,
    decreases s.len() - i,
{
    if from + i < s.len() && s[from + i] != '\n' {
        lemma_line_end_shifts(s, from, i + 1);
    }
}

proof fn lemma_bare_end_shifts(s: Seq<char>, from: int, i: int)
    requires
        0 <= from <= s.len(),
        0 <= i,
    ensures
        bare_end(s, from + i) == from + bare_end(s.skip(from), i),
        i <= bare_end(s.skip(from), i),
        i <= s.len() - from ==> bare_end(s.skip(from), i) <= s.len() - from,
    decreases s.len() - i,
{
    if from + i < s.len() && !is_space(s[from + i]) && s[from + i] != '"' && s[from + i] != '{'
        && s[from + i] != '}' {
        lemma_bare_end_shifts(s, from, i + 1);
    }
}

proof fn lemma_closing_quote_shifts(s: Seq<char>, from: int, i: int)
    requires
        0 <= from <= s.len(),
        0 <= i,
    ensures
        closing_quote(s, from + i) == match closing_quote(s.skip(from), i) {
            Some(end) => Some(from + end),
            None => None,
        },
        closing_quote(s.skip(from), i) matches Some(end) ==> i <= end < s.len() - from,
    decreases s.len() - i,
{
    if from + i < s.len() && s[from + i] != '"' {
        if s[from + i] == '\\' {
            if from + i + 1 < s.len() && s[from + i + 1] != '\n' {
                lemma_closing_quote_shifts(s, from, i + 2);
            }
        } else {
            lemma_closing_quote_shifts(s, from, i + 1);
        }
    }
}

proof fn lemma_words_shift(s: Seq<char>, from: int, i: int)
    requires
        0 <= from <= s.len(),
        0 <= i,
    ensures
        words_from(s, from + i) == words_from(s.skip(from), i),
    decreases s.len() - from - i,
{
    let rest = s.skip(from);
    if from + i < s.len() {
        let c = s[from + i];
        assert(rest[i] == c);
        if c == '/' && from + i + 1 < s.len() && s[from + i + 1] == '/' {
            assert(rest[i + 1] == '/');
            lemma_line_end_shifts(s, from, i + 2);
            lemma_words_shift(s, from, line_end(rest, i + 2));
        } else if c == '"' {
            lemma_closing_quote_shifts(s, from, i + 1);
            match closing_quote(rest, i + 1) {
                Some(end) => {
                    assert(rest.subrange(i + 1, end) =~= s.subrange(from + i + 1, from + end));
                    lemma_words_shift(s, from, end + 1);
                },
                None => {
                    lemma_words_shift(s, from, i + 1);
                },
            }
        } else if c == '{' || c == '}' || is_space(c) {
            lemma_words_shift(s, from, i + 1);
        } else {
            lemma_bare_end_shifts(s, from, i + 1);
            let end = bare_end(rest, i + 1);
            assert(rest.subrange(i, end) =~= s.subrange(from + i, from + end));
            lemma_words_shift(s, from, end);
        }
    }
}

proof fn lemma_line_end(s: Seq<char>, i: int, n: int)
    requires
        0 <= i <= n <= s.len(),
        forall|k: int| i <= k < n ==> #[trigger] s[k] != '\n',
        n < s.len() ==> s[n] == '\n',
    ensures
        line_end(s, i) == n,
    decreases n - i,
{
    if i < n {
        assert(s[i] != '\n');
        lemma_line_end(s, i + 1, n);
    }
}

/// Two slashes hide the rest of their line, and nothing beyond it.
pub proof fn law_comments_are_skipped(comment: Seq<char>, rest: Seq<char>)
    requires
        !comment.contains('\n'),
    ensures
        words_from(seq!['/', '/'] + comment + seq!['\n'] + rest, 0) == words_from(rest, 0),
        words_from(seq!['/', '/'] + comment, 0) == Seq::<Word>::empty(),
{
    let s = seq!['/', '/'] + comment + seq!['\n'] + rest;
    let n = comment.len() as int + 2;
    assert forall|k: int| 2 <= k < n implies #[trigger] s[k] != '\n' by {
        assert(comment.contains(comment[k - 2]));
    }
    lemma_line_end(s, 2, n);
    assert(s[0] == '/' && s[1] == '/');
    assert(s[n] == '\n');
    assert(is_space('\n'));
    lemma_words_shift(s, n + 1, 0);
    assert(s.skip(n + 1) =~= rest);
    assert(words_from(s, n) == words_from(s, n + 1));
    let last = seq!['/', '/'] + comment;
    assert forall|k: int| 2 <= k < n implies #[trigger] last[k] != '\n' by {
        assert(comment.contains(comment[k - 2]));
    }
    lemma_line_end(last, 2, n);
    assert(last[0] == '/' && last[1] == '/');
    assert(words_from(last, n) == Seq::<Word>::empty());
}

/// White space separates words and is none.
pub proof fn law_white_space_is_skipped(space: char, rest: Seq<char>)
    requires
        is_space(space),
    ensures
        words_from(seq![space] + rest, 0) == words_from(rest, 0),
        words_from(Seq::empty(), 0) == Seq::<Word>::empty(),
{
    let s = seq![space] + rest;
    assert(s[0] == space);
    lemma_words_shift(s, 1, 0);
    assert(s.skip(1) =~= rest);
}

/// A brace is a word of its own.
pub proof fn law_braces_are_words(brace: char, rest: Seq<char>)
    requires
        brace == '{' || brace == '}',
    ensures
        words_from(seq![brace] + rest, 0) == seq![Word { text: seq![brace], quoted: false }]
            + words_from(rest, 0),
{
    let s = seq![brace] + rest;
    assert(s[0] == brace);
    lemma_words_shift(s, 1, 0);
    assert(s.skip(1) =~= rest);
}

/// The character can stand in a word without quotes.
pub open spec fn is_bare(c: char) -> bool {
    !is_space(c) && c != '"' && c != '{' && c != '}'
}

proof fn lemma_bare_end(s: Seq<char>, i: int, n: int)
    requires
        0 <= i <= n <= s.len(),
        forall|k: int| i <= k < n ==> is_bare(#[trigger] s[k]),
        n < s.len() ==> !is_bare(s[n]),
    ensures
        bare_end(s, i) == n,
    decreases n - i,
{
    if i < n {
        assert(is_bare(s[i]));
        lemma_bare_end(s, i + 1, n);
    }
}

/// A word without quotes reaches up to white space, a quote or a brace.
pub proof fn law_bare_words(word: Seq<char>, rest: Seq<char>)
    requires
        word.len() > 0,
        forall|k: int| 0 <= k < word.len() ==> is_bare(#[trigger] word[k]),
        word[0] != '/',
        rest.len() > 0 ==> !is_bare(rest[0]),
    ensures
        words_from(word + rest, 0) == seq![Word { text: word, quoted: false }] + words_from(
            rest,
            0,
        ),
{
    let s = word + rest;
    let n = word.len() as int;
    assert(is_bare(word[0]));
    assert(s[0] == word[0]);
    assert forall|k: int| 1 <= k < n implies is_bare(#[trigger] s[k]) by {
        assert(is_bare(word[k]));
    }
    if n < s.len() {
        assert(s[n] == rest[0]);
    }
    lemma_bare_end(s, 1, n);
    assert(s.subrange(0, n) =~= word);
    lemma_words_shift(s, n, 0);
    assert(s.skip(n) =~= rest);
}

proof fn lemma_closing_quote(s: Seq<char>, i: int, n: int)
    requires
        0 <= i <= n <= s.len(),
        forall|k: int| i <= k < n ==> #[trigger] s[k] != '"' && s[k] != '\\',
        n < s.len() ==> s[n] == '"',
    ensures
        closing_quote(s, i) == (if n < s.len() {
            Some(n)
        } else {
            None
        }),
    decreases n - i,
{
    if i < n {
        assert(s[i] != '"');
        lemma_closing_quote(s, i + 1, n);
    }
}

/// What stands in quotes is one word, with its white space, braces and slashes.
pub proof fn law_quoted_words(text: Seq<char>, rest: Seq<char>)
    requires
        !text.contains('"'),
        !text.contains('\\'),
    ensures
        words_from(seq!['"'] + text + seq!['"'] + rest, 0) == seq![Word { text, quoted: true }]
            + words_from(rest, 0),
{
    let s = seq!['"'] + text + seq!['"'] + rest;
    let n = text.len() as int + 1;
    assert(s[0] == '"' && s[n] == '"');
    assert forall|k: int| 1 <= k < n implies #[trigger] s[k] != '"' && s[k] != '\\' by {
        assert(text.contains(text[k - 1]));
    }
    lemma_closing_quote(s, 1, n);
    assert(s.subrange(1, n) =~= text);
    let quote = seq!['\\', '"'];
    let backslash = seq!['\\', '\\'];
    assert(!occurs(text, quote)) by {
        if occurs(text, quote) {
            let i = choose|i: int| #[trigger] occurs_at(text, quote, i);
            assert(text.subrange(i, i + 2)[0] == '\\');
            assert(text.contains(text[i]));
        }
    }
    assert(!occurs(text, backslash)) by {
        if occurs(text, backslash) {
            let i = choose|i: int| #[trigger] occurs_at(text, backslash, i);
            assert(text.subrange(i, i + 2)[0] == '\\');
            assert(text.contains(text[i]));
        }
    }
    law_nothing_else_is_replaced(text, quote, seq!['"']);
    law_nothing_else_is_replaced(text, backslash, seq!['\\']);
    assert(unescaped(text) == text);
    lemma_words_shift(s, n + 1, 0);
    assert(s.skip(n + 1) =~= rest);
}

/// A quote that is never closed does not count.
pub proof fn law_open_quotes_are_skipped(text: Seq<char>)
    requires
        !text.contains('"'),
        !text.contains('\\'),
    ensures
        words_from(seq!['"'] + text, 0) == words_from(text, 0),
{
    let s = seq!['"'] + text;
    let n = s.len() as int;
    assert(s[0] == '"');
    assert forall|k: int| 1 <= k < n implies #[trigger] s[k] != '"' && s[k] != '\\' by {
        assert(text.contains(text[k - 1]));
    }
    lemma_closing_quote(s, 1, n);
    lemma_words_shift(s, 1, 0);
    assert(s.skip(1) =~= text);
}

/// A key and a text are an entry; a key needs a value; a brace that was not opened, and
/// one that is not closed, spoil the file.
pub proof fn law_entries_of_words(key: Word, value: Word, other: Word)
    requires
        !is_brace(key, '{') && !is_brace(key, '}'),
        !is_brace(value, '{') && !is_brace(value, '}'),
    ensures
        object_from(seq![key, value], 0, false, 0, Seq::empty()) == Some(
            (Vdf::Object(seq![(key.text, Vdf::Text(value.text))]), 2int),
        ),
        object_from(seq![key], 0, false, 0, Seq::empty()) is None,
        is_brace(other, '}') ==> object_from(seq![other], 0, false, 0, Seq::empty()) is None,
        is_brace(other, '{') ==> object_from(seq![key, other], 0, false, 0, Seq::empty()) is None,
        is_brace(other, '{') ==> object_from(seq![other], 0, false, 0, Seq::empty()) is None,
        is_brace(other, '}') ==> object_from(seq![key, other], 0, false, 0, Seq::empty()) is None,
        object_from(Seq::empty(), 0, false, 0, Seq::empty()) == Some(
            (Vdf::Object(Seq::empty()), 0int),
        ),
{
    reveal_with_fuel(object_from, 3);
    let two = seq![key, value];
    let empty = Seq::<(Seq<char>, Vdf)>::empty();
    assert(empty.push((key.text, Vdf::Text(value.text))) =~= seq![
        (key.text, Vdf::Text(value.text)),
    ]);
    assert(two[0] == key && two[1] == value);
    let one = seq![key];
    assert(one[0] == key);
    let brace = seq![other];
    assert(brace[0] == other);
    let open = seq![key, other];
    assert(open[0] == key && open[1] == other);
    assert(!is_brace(other, '{') || !is_brace(other, '}')) by {
        assert(seq!['{'][0] != seq!['}'][0]);
    }
}

/// A word in quotes is never a brace.
pub proof fn law_quoted_braces_are_text(text: Seq<char>, brace: char)
    ensures
        !is_brace(Word { text, quoted: true }, brace),
        is_brace(Word { text: seq![brace], quoted: false }, brace),
{
}

/// A line break cannot be taken along by a backslash: the quote before it is never
/// closed.
pub proof fn law_line_breaks_are_not_escaped(text: Seq<char>, rest: Seq<char>)
    requires
        !text.contains('"'),
        !text.contains('\\'),
    ensures
        closing_quote(text + seq!['\\', '\n'] + rest, 0) is None,
    decreases text.len(),
{
    lemma_broken_quote(text + seq!['\\', '\n'] + rest, 0, text.len() as int, text);
}

proof fn lemma_broken_quote(s: Seq<char>, i: int, n: int, text: Seq<char>)
    requires
        0 <= i <= n,
        n + 1 < s.len(),
        text.len() == n,
        forall|k: int| 0 <= k < n ==> #[trigger] s[k] == text[k],
        !text.contains('"'),
        !text.contains('\\'),
        s[n] == '\\',
        s[n + 1] == '\n',
    ensures
        closing_quote(s, i) is None,
    decreases n - i,
{
    if i < n {
        assert(text.contains(text[i]));
        assert(s[i] == text[i]);
        lemma_broken_quote(s, i + 1, n, text);
    }
}

/// A backslash takes the quote behind it along.
pub proof fn law_quotes_can_be_escaped(c: char, rest: Seq<char>)
    requires
        c != '\n',
    ensures
        closing_quote(seq!['\\', c, '"'] + rest, 0) == Some(2int),
        unescaped(seq!['\\', '"']) == seq!['"'],
        unescaped(seq!['\\', '\\']) == seq!['\\'],
{
    let s = seq!['\\', c, '"'] + rest;
    assert(s[0] == '\\' && s[1] == c && s[2] == '"');
    assert(closing_quote(s, 2) == Some(2int));
    let none = Seq::<char>::empty();
    let quote = seq!['\\', '"'];
    let pair = seq!['\\', '\\'];
    assert(quote.subrange(0, 2) =~= quote);
    assert(occurs_at(quote, quote, 0));
    assert(quote.skip(2) =~= none);
    assert(replaced(none, quote, seq!['"']) =~= none);
    assert(replaced(quote, quote, seq!['"']) =~= seq!['"']);
    let one = seq!['"'];
    assert(!occurs_at(one, pair, 0));
    assert(one.skip(1) =~= none);
    assert(replaced(none, pair, seq!['\\']) =~= none);
    assert(replaced(one, pair, seq!['\\']) =~= one);
    assert(pair[1] != quote[1]);
    assert(!occurs_at(pair, quote, 0)) by {
        assert(pair.subrange(0, 2)[1] == '\\');
    }
    assert(pair.skip(1) =~= seq!['\\']);
    let lone = seq!['\\'];
    assert(!occurs_at(lone, quote, 0));
    assert(lone.skip(1) =~= none);
    assert(replaced(lone, quote, seq!['"']) =~= lone);
    assert(replaced(pair, quote, seq!['"']) =~= pair);
    assert(pair.subrange(0, 2) =~= pair);
    assert(occurs_at(pair, pair, 0));
    assert(pair.skip(2) =~= none);
    assert(replaced(pair, pair, seq!['\\']) =~= seq!['\\']);
}

} // verus!
