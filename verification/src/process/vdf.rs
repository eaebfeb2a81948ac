//! Steam's key-value files: the library list and the compatibility tool mapping.
//!
//! A file is a list of entries, each a key followed by a text or by a braced list
//! of entries. Words may be quoted; `//` starts a comment where a word could start.
use crate::text::{
    is_space, letters, occurs_at, part, replace, replaced, same_folded, same_ignoring_case, text_of,
    white_space,
};
use vstd::prelude::*;

verus! {

/// A word of the file, or a brace; quoted words are never braces.
pub struct Token {
    pub text: Vec<char>,
    pub quoted: bool,
}

/// A word as the grammar sees it.
pub struct Word {
    pub text: Seq<char>,
    pub quoted: bool,
}

impl Token {
    pub open spec fn word(self) -> Word {
        Word { text: self.text@, quoted: self.quoted }
    }
}

/// The grammar's view of a list of tokens.
pub open spec fn words(tokens: Seq<Token>) -> Seq<Word> {
    Seq::new(tokens.len(), |i: int| tokens[i].word())
}

/// The words in a text: what stands between comments, white space and quotes that
/// are never closed.
pub open spec fn words_from(s: Seq<char>, i: int) -> Seq<Word>
    decreases s.len() - i,
    via words_from_shrinks
{
    if i < 0 || i >= s.len() {
        Seq::empty()
    } else if s[i] == '/' && i + 1 < s.len() && s[i + 1] == '/' {
        words_from(s, line_end(s, i + 2))
    } else if s[i] == '"' {
        match closing_quote(s, i + 1) {
            Some(end) => seq![
                Word { text: unescaped(s.subrange(i + 1, end)), quoted: true },
            ] + words_from(s, end + 1),
            None => words_from(s, i + 1),
        }
    } else if s[i] == '{' || s[i] == '}' {
        seq![Word { text: seq![s[i]], quoted: false }] + words_from(s, i + 1)
    } else if is_space(s[i]) {
        words_from(s, i + 1)
    } else {
        seq![
            Word { text: s.subrange(i, bare_end(s, i + 1)), quoted: false },
        ] + words_from(s, bare_end(s, i + 1))
    }
}

/// The end of the line that `i` lies in.
pub open spec fn line_end(s: Seq<char>, i: int) -> int
    decreases s.len() - i,
{
    if i < s.len() && s[i] != '\n' {
        line_end(s, i + 1)
    } else {
        i
    }
}

/// The end of the unquoted word that reaches up to `i`.
pub open spec fn bare_end(s: Seq<char>, i: int) -> int
    decreases s.len() - i,
{
    if i < s.len() && !is_space(s[i]) && s[i] != '"' && s[i] != '{' && s[i] != '}' {
        bare_end(s, i + 1)
    } else {
        i
    }
}

/// The quote that closes a quoted word whose text goes on at `i`. A backslash
/// takes the character behind it along, which must not be a line break.
pub open spec fn closing_quote(s: Seq<char>, i: int) -> Option<int>
    decreases s.len() - i,
{
    if i >= s.len() {
        None
    } else if s[i] == '"' {
        Some(i)
    } else if s[i] == '\\' {
        if i + 1 < s.len() && s[i + 1] != '\n' {
            closing_quote(s, i + 2)
        } else {
            None
        }
    } else {
        closing_quote(s, i + 1)
    }
}

/// A quoted text with `\"` standing for a quote and `\\` for a backslash.
pub open spec fn unescaped(s: Seq<char>) -> Seq<char> {
    replaced(replaced(s, seq!['\\', '"'], seq!['"']), seq!['\\', '\\'], seq!['\\'])
}

#[via_fn]
proof fn words_from_shrinks(s: Seq<char>, i: int) {
    if 0 <= i < s.len() {
        lemma_line_end(s, i + 2);
        lemma_bare_end(s, i + 1);
        lemma_closing_quote(s, i + 1);
    }
}

proof fn lemma_line_end(s: Seq<char>, i: int)
    ensures
        i <= line_end(s, i),
        i <= s.len() ==> line_end(s, i) <= s.len(),
    decreases s.len() - i,
{
    if i < s.len() && s[i] != '\n' {
        lemma_line_end(s, i + 1);
    }
}

proof fn lemma_bare_end(s: Seq<char>, i: int)
    ensures
        i <= bare_end(s, i),
        i <= s.len() ==> bare_end(s, i) <= s.len(),
    decreases s.len() - i,
{
    if i < s.len() && !is_space(s[i]) && s[i] != '"' && s[i] != '{' && s[i] != '}' {
        lemma_bare_end(s, i + 1);
    }
}

proof fn lemma_closing_quote(s: Seq<char>, i: int)
    ensures
        closing_quote(s, i) is Some ==> i <= closing_quote(s, i)->0 < s.len(),
    decreases s.len() - i,
{
    if i < s.len() {
        if s[i] == '\\' {
            if i + 1 < s.len() && s[i + 1] != '\n' {
                lemma_closing_quote(s, i + 2);
            }
        } else if s[i] != '"' {
            lemma_closing_quote(s, i + 1);
        }
    }
}

fn find_line_end(s: &[char], from: usize) -> (r: usize)
    requires
        from <= s@.len(),
    ensures
        r == line_end(s@, from as int),
        from <= r <= s@.len(),
{
    let mut i: usize = from;
    while i < s.len() && s[i] != '\n'
        invariant
            from <= i <= s@.len(),
            line_end(s@, from as int) == line_end(s@, i as int),
        decreases s.len() - i,
    {
        i = i + 1;
    }
    i
}

fn find_bare_end(s: &[char], from: usize) -> (r: usize)
    requires
        from <= s@.len(),
    ensures
        r == bare_end(s@, from as int),
        from <= r <= s@.len(),
{
    let mut i: usize = from;
    while i < s.len() && !white_space(s[i]) && s[i] != '"' && s[i] != '{' && s[i] != '}'
        invariant
            from <= i <= s@.len(),
            bare_end(s@, from as int) == bare_end(s@, i as int),
        decreases s.len() - i,
    {
        i = i + 1;
    }
    i
}

fn find_closing_quote(s: &[char], from: usize) -> (r: Option<usize>)
    requires
        from <= s@.len(),
    ensures
        match r {
            Some(end) => closing_quote(s@, from as int) == Some(end as int) && from <= end < s@.len(),
            None => closing_quote(s@, from as int) is None,
        },
{
    let mut i: usize = from;
    while i < s.len()
        invariant
            from <= i <= s@.len(),
            closing_quote(s@, from as int) == closing_quote(s@, i as int),
        decreases s.len() - i,
    {
        if s[i] == '"' {
            return Some(i);
        }
        if s[i] == '\\' {
            if s.len() - i >= 2 && s[i + 1] != '\n' {
                i = i + 2;
            } else {
                return None;
            }
        } else {
            i = i + 1;
        }
    }
    None
}

fn unescape(s: &[char]) -> (r: Vec<char>)
    ensures
        r@ == unescaped(s@),
{
    let quote: [char; 2] = ['\\', '"'];
    let plain_quote: [char; 1] = ['"'];
    let slash: [char; 2] = ['\\', '\\'];
    let plain_slash: [char; 1] = ['\\'];
    assert(quote@ =~= seq!['\\', '"']);
    assert(plain_quote@ =~= seq!['"']);
    assert(slash@ =~= seq!['\\', '\\']);
    assert(plain_slash@ =~= seq!['\\']);
    let once = replace(s, quote.as_slice(), plain_quote.as_slice());
    replace(once.as_slice(), slash.as_slice(), plain_slash.as_slice())
}

/// The words of a text.
pub fn tokenize(s: &[char]) -> (r: Vec<Token>)
    ensures
        words(r@) == words_from(s@, 0),
{
    let mut r: Vec<Token> = Vec::new();
    let mut i: usize = 0;
    assert(words(r@) + words_from(s@, 0) =~= words_from(s@, 0));
    while i < s.len()
        invariant
            i <= s.len(),
            words(r@) + words_from(s@, i as int) == words_from(s@, 0),
        decreases s.len() - i,
    {
        let c = s[i];
        let ghost before = words(r@);
        if c == '/' && s.len() - i >= 2 && s[i + 1] == '/' {
            i = find_line_end(s, i + 2);
        } else if c == '"' {
            match find_closing_quote(s, i + 1) {
                Some(end) => {
                    let inner = part(s, i + 1, end);
                    let text = unescape(inner.as_slice());
                    let token = Token { text, quoted: true };
                    let ghost word = token.word();
                    r.push(token);
                    assert(words(r@) =~= before.push(word));
                    assert(before.push(word) + words_from(s@, end + 1) =~= before + (seq![word]
                        + words_from(s@, end + 1)));
                    i = end + 1;
                },
                None => {
                    i = i + 1;
                },
            }
        } else if c == '{' || c == '}' {
            let mut text: Vec<char> = Vec::new();
            text.push(c);
            assert(text@ =~= seq![c]);
            let token = Token { text, quoted: false };
            let ghost word = token.word();
            r.push(token);
            assert(words(r@) =~= before.push(word));
            assert(before.push(word) + words_from(s@, i + 1) =~= before + (seq![word]
                + words_from(s@, i + 1)));
            i = i + 1;
        } else if white_space(c) {
            i = i + 1;
        } else {
            let end = find_bare_end(s, i + 1);
            let token = Token { text: part(s, i, end), quoted: false };
            let ghost word = token.word();
            r.push(token);
            assert(words(r@) =~= before.push(word));
            assert(before.push(word) + words_from(s@, end as int) =~= before + (seq![word]
                + words_from(s@, end as int)));
            i = end;
        }
    }
    assert(words(r@) + words_from(s@, i as int) =~= words(r@));
    r
}

/// A value of a key-value file.
pub enum VdfValue {
    Text(String),
    Object(Vec<(String, VdfValue)>),
}

/// What a value holds.
pub enum Vdf {
    Text(Seq<char>),
    Object(Seq<(Seq<char>, Vdf)>),
}

impl VdfValue {
    pub open spec fn model(self) -> Vdf
        decreases self,
    {
        match self {
            VdfValue::Text(text) => Vdf::Text(text@),
            VdfValue::Object(entries) => Vdf::Object(
                Seq::new(
                    entries@.len(),
                    |i: int|
                        if 0 <= i < entries@.len() {
                            (entries@[i].0@, entries@[i].1.model())
                        } else {
                            arbitrary()
                        },
                ),
            ),
        }
    }
}

/// What a list of entries holds.
pub open spec fn entries_model(entries: Seq<(String, VdfValue)>) -> Seq<(Seq<char>, Vdf)> {
    Seq::new(entries.len(), |i: int| (entries[i].0@, entries[i].1.model()))
}

pub proof fn lemma_object_model(entries: Vec<(String, VdfValue)>)
    ensures
        VdfValue::Object(entries).model() == Vdf::Object(entries_model(entries@)),
{
    let model = VdfValue::Object(entries).model();
    assert(model->Object_0 =~= entries_model(entries@));
}

/// What an optional value holds.
pub open spec fn model_of(value: Option<&VdfValue>) -> Option<Vdf> {
    match value {
        Some(value) => Some(value.model()),
        None => None,
    }
}

/// The word is this brace.
pub open spec fn is_brace(word: Word, brace: char) -> bool {
    !word.quoted && word.text == seq![brace]
}

/// Braces nest at most this deep.
pub const MAX_DEPTH: usize = 32;

/// Reads entries from word `i` on, after `entries`: up to the closing brace when
/// `nested`, to the end of the file otherwise. Gives the object and the first word
/// after it, or nothing if the words form no such object.
pub open spec fn object_from(
    words: Seq<Word>,
    i: int,
    nested: bool,
    depth: int,
    entries: Seq<(Seq<char>, Vdf)>,
) -> Option<(Vdf, int)>
    decreases words.len() - i,
{
    if depth > MAX_DEPTH {
        None
    } else if i >= words.len() {
        if nested {
            None
        } else {
            Some((Vdf::Object(entries), i))
        }
    } else if is_brace(words[i], '}') {
        if nested {
            Some((Vdf::Object(entries), i + 1))
        } else {
            None
        }
    } else if is_brace(words[i], '{') || i + 1 >= words.len() || is_brace(words[i + 1], '}') {
        None
    } else if is_brace(words[i + 1], '{') {
        match object_from(words, i + 2, true, depth + 1, Seq::empty()) {
            Some((value, next)) => if i + 2 <= next <= words.len() {
                object_from(words, next, nested, depth, entries.push((words[i].text, value)))
            } else {
                None
            },
            None => None,
        }
    } else {
        object_from(
            words,
            i + 2,
            nested,
            depth,
            entries.push((words[i].text, Vdf::Text(words[i + 1].text))),
        )
    }
}

/// Reading an object never goes back and never passes the end of the file.
pub proof fn law_object_ends_within_file(
    words: Seq<Word>,
    i: int,
    nested: bool,
    depth: int,
    entries: Seq<(Seq<char>, Vdf)>,
)
    requires
        i <= words.len(),
    ensures
        object_from(words, i, nested, depth, entries) matches Some((_, next)) ==> i <= next
            <= words.len(),
    decreases words.len() - i,
{
    if depth <= MAX_DEPTH && i + 1 < words.len() && !is_brace(words[i], '}') && !is_brace(
        words[i],
        '{',
    ) && !is_brace(words[i + 1], '}') {
        if is_brace(words[i + 1], '{') {
            law_object_ends_within_file(words, i + 2, true, depth + 1, Seq::empty());
            match object_from(words, i + 2, true, depth + 1, Seq::empty()) {
                Some((value, next)) => {
                    law_object_ends_within_file(
                        words,
                        next,
                        nested,
                        depth,
                        entries.push((words[i].text, value)),
                    );
                },
                None => {},
            }
        } else {
            law_object_ends_within_file(
                words,
                i + 2,
                nested,
                depth,
                entries.push((words[i].text, Vdf::Text(words[i + 1].text))),
            );
        }
    }
}

/// The object that a file holds, if it is well formed.
pub open spec fn parsed(contents: Seq<char>) -> Option<Vdf> {
    match object_from(words_from(contents, 0), 0, false, 0, Seq::empty()) {
        Some((value, _)) => Some(value),
        None => None,
    }
}

fn brace(token: &Token, which: char) -> (r: bool)
    ensures
        r == is_brace(token.word(), which),
{
    if token.quoted || token.text.len() != 1 {
        return false;
    }
    let r = token.text[0] == which;
    assert(r ==> token.text@ =~= seq![which]);
    r
}

fn read_object(tokens: &Vec<Token>, start: usize, nested: bool, depth: usize) -> (r: Option<
    (VdfValue, usize),
>)
    requires
        start <= tokens@.len(),
        depth <= MAX_DEPTH + 1,
    ensures
        match r {
            Some((value, next)) => object_from(
                words(tokens@),
                start as int,
                nested,
                depth as int,
                Seq::empty(),
            ) == Some((value.model(), next as int)) && start <= next <= tokens@.len(),
            None => object_from(
                words(tokens@),
                start as int,
                nested,
                depth as int,
                Seq::empty(),
            ) is None,
        },
    decreases tokens@.len() - start,
{
    if depth > MAX_DEPTH {
        return None;
    }
    let ghost all = words(tokens@);
    let mut entries: Vec<(String, VdfValue)> = Vec::new();
    let mut i: usize = start;
    assert(entries_model(entries@) =~= Seq::empty());
    while i < tokens.len()
        invariant
            start <= i <= tokens@.len(),
            depth <= MAX_DEPTH,
            all == words(tokens@),
            object_from(all, start as int, nested, depth as int, Seq::empty()) == object_from(
                all,
                i as int,
                nested,
                depth as int,
                entries_model(entries@),
            ),
        decreases tokens@.len() - i,
    {
        if brace(&tokens[i], '}') {
            if nested {
                proof {
                    lemma_object_model(entries);
                }
                return Some((VdfValue::Object(entries), i + 1));
            }
            return None;
        }
        if brace(&tokens[i], '{') || tokens.len() - i < 2 || brace(&tokens[i + 1], '}') {
            return None;
        }
        let key = text_of(tokens[i].text.as_slice());
        let ghost before = entries_model(entries@);
        if brace(&tokens[i + 1], '{') {
            match read_object(tokens, i + 2, true, depth + 1) {
                Some((value, next)) => {
                    let ghost pair = (key@, value.model());
                    entries.push((key, value));
                    assert(entries_model(entries@) =~= before.push(pair));
                    i = next;
                },
                None => {
                    return None;
                },
            }
        } else {
            let value = VdfValue::Text(text_of(tokens[i + 1].text.as_slice()));
            let ghost pair = (key@, value.model());
            entries.push((key, value));
            assert(entries_model(entries@) =~= before.push(pair));
            i = i + 2;
        }
    }
    if nested {
        None
    } else {
        proof {
            lemma_object_model(entries);
        }
        Some((VdfValue::Object(entries), i))
    }
}

/// Reads a key-value file.
pub fn parse_vdf(contents: &str) -> (r: Option<VdfValue>)
    ensures
        match r {
            Some(value) => parsed(contents@) == Some(value.model()),
            None => parsed(contents@) is None,
        },
{
    let s = letters(contents);
    let tokens = tokenize(s.as_slice());
    match read_object(&tokens, 0, false, 0) {
        Some((value, _)) => Some(value),
        None => None,
    }
}

/// The first entry from `i` on whose name is `key` up to ASCII case.
pub open spec fn entry_from(entries: Seq<(Seq<char>, Vdf)>, key: Seq<char>, i: int) -> Option<Vdf>
    decreases entries.len() - i,
{
    if i < 0 || i >= entries.len() {
        None
    } else if same_folded(entries[i].0, key) {
        Some(entries[i].1)
    } else {
        entry_from(entries, key, i + 1)
    }
}

impl Vdf {
    /// The entry of an object under this name; a text has none.
    pub open spec fn get(self, key: Seq<char>) -> Option<Vdf> {
        match self {
            Vdf::Object(entries) => entry_from(entries, key, 0),
            Vdf::Text(_) => None,
        }
    }

    /// The text of a value that is one.
    pub open spec fn text(self) -> Option<Seq<char>> {
        match self {
            Vdf::Text(text) => Some(text),
            Vdf::Object(_) => None,
        }
    }
}

/// The entry under this name of a value that may be missing.
pub open spec fn dig(value: Option<Vdf>, key: Seq<char>) -> Option<Vdf> {
    match value {
        Some(value) => value.get(key),
        None => None,
    }
}

/// The text of a value that may be missing.
pub open spec fn text_in(value: Option<Vdf>) -> Option<Seq<char>> {
    match value {
        Some(value) => value.text(),
        None => None,
    }
}

impl VdfValue {
    /// The entry of an object under this name, ASCII case aside.
    pub fn get(&self, key: &str) -> (r: Option<&VdfValue>)
        ensures
            model_of(r) == self.model().get(key@),
    {
        match self {
            VdfValue::Object(entries) => {
                let wanted = letters(key);
                let ghost all = entries_model(entries@);
                proof {
                    lemma_object_model(*entries);
                }
                let mut i: usize = 0;
                while i < entries.len()
                    invariant
                        i <= entries@.len(),
                        wanted@ == key@,
                        all == entries_model(entries@),
                        entry_from(all, key@, 0) == entry_from(all, key@, i as int),
                        self.model() == Vdf::Object(all),
                    decreases entries@.len() - i,
                {
                    let name = letters(entries[i].0.as_str());
                    if same_ignoring_case(name.as_slice(), wanted.as_slice()) {
                        return Some(&entries[i].1);
                    }
                    i = i + 1;
                }
                None
            },
            VdfValue::Text(_) => None,
        }
    }

    /// The text of a value that is one.
    pub fn text(&self) -> (r: Option<&str>)
        ensures
            match r {
                Some(text) => self.model().text() == Some(text@),
                None => self.model().text() is None,
            },
    {
        match self {
            VdfValue::Text(text) => Some(text.as_str()),
            VdfValue::Object(_) => None,
        }
    }
}

/// The entry under this name of a value that may be missing.
pub fn dig_value<'a>(value: Option<&'a VdfValue>, key: &str) -> (r: Option<&'a VdfValue>)
    ensures
        model_of(r) == dig(model_of(value), key@),
{
    match value {
        Some(value) => value.get(key),
        None => None,
    }
}

/// The compatibility tool that a Steam configuration selects for an application.
pub open spec fn selected_tool(config: Seq<char>, app_id: Seq<char>) -> Option<Seq<char>> {
    let steam = dig(
        dig(dig(dig(parsed(config), "InstallConfigStore"@), "Software"@), "Valve"@),
        "Steam"@,
    );
    match text_in(dig(dig(dig(steam, "CompatToolMapping"@), app_id), "name"@)) {
        Some(name) => if name.len() > 0 {
            Some(name)
        } else {
            None
        },
        None => None,
    }
}

/// The compatibility tool that a Steam configuration selects for an application.
pub fn compat_tool_name(config: &str, app_id: &str) -> (r: Option<String>)
    ensures
        match r {
            Some(name) => selected_tool(config@, app_id@) == Some(name@),
            None => selected_tool(config@, app_id@) is None,
        },
{
    let parsed_config = parse_vdf(config);
    let root = match &parsed_config {
        Some(value) => Some(value),
        None => None,
    };
    let valve = dig_value(dig_value(dig_value(root, "InstallConfigStore"), "Software"), "Valve");
    let mapping = dig_value(dig_value(valve, "Steam"), "CompatToolMapping");
    match dig_value(dig_value(mapping, app_id), "name") {
        Some(value) => match value.text() {
            Some(name) => if name.is_empty() {
                None
            } else {
                Some(name.to_owned())
            },
            None => None,
        },
        None => None,
    }
}

/// A text as it stands between quotes: its quotes and backslashes have a backslash in
/// front of them.
pub open spec fn escaped(text: Seq<char>) -> Seq<char>
    decreases text.len(),
{
    if text.len() == 0 {
        Seq::empty()
    } else if text[0] == '"' || text[0] == '\\' {
        seq!['\\', text[0]] + escaped(text.skip(1))
    } else {
        seq![text[0]] + escaped(text.skip(1))
    }
}

/// A word as it stands in a file: braces are left bare.
pub open spec fn written_word(word: Word) -> Seq<char> {
    if word.quoted {
        seq!['"'] + escaped(word.text) + seq!['"']
    } else {
        word.text
    }
}

/// Words in a file, a space between every two.
pub open spec fn written(words: Seq<Word>) -> Seq<char>
    decreases words.len(),
{
    if words.len() == 0 {
        Seq::empty()
    } else if words.len() == 1 {
        written_word(words[0])
    } else {
        written_word(words[0]) + seq![' '] + written(words.skip(1))
    }
}

pub open spec fn brace_word(brace: char) -> Word {
    Word { text: seq![brace], quoted: false }
}

/// The words of entries: each key is followed by its text, or by its entries in braces.
pub open spec fn entry_words(entries: Seq<(Seq<char>, Vdf)>) -> Seq<Word>
    decreases entries,
{
    if entries.len() == 0 {
        Seq::empty()
    } else {
        let value = match entries[0].1 {
            Vdf::Text(text) => seq![Word { text, quoted: true }],
            Vdf::Object(inner) => seq![brace_word('{')] + entry_words(inner) + seq![
                brace_word('}'),
            ],
        };
        seq![Word { text: entries[0].0, quoted: true }] + value + entry_words(entries.skip(1))
    }
}

/// How deep the braces of entries nest.
pub open spec fn nesting(entries: Seq<(Seq<char>, Vdf)>) -> int
    decreases entries,
{
    if entries.len() == 0 {
        0
    } else {
        let first = match entries[0].1 {
            Vdf::Text(_) => 0,
            Vdf::Object(inner) => 1 + nesting(inner),
        };
        let others = nesting(entries.skip(1));
        if first > others {
            first
        } else {
            others
        }
    }
}

/// The file that holds entries.
pub open spec fn rendered(entries: Seq<(Seq<char>, Vdf)>) -> Seq<char> {
    written(entry_words(entries))
}

/// A text with its backslashes, and nothing else, escaped.
spec fn doubled(text: Seq<char>) -> Seq<char>
    decreases text.len(),
{
    if text.len() == 0 {
        Seq::empty()
    } else if text[0] == '\\' {
        seq!['\\', '\\'] + doubled(text.skip(1))
    } else {
        seq![text[0]] + doubled(text.skip(1))
    }
}

proof fn lemma_quotes_return(text: Seq<char>)
    ensures
        replaced(escaped(text), seq!['\\', '"'], seq!['"']) == doubled(text),
    decreases text.len(),
{
    let from = seq!['\\', '"'];
    let to = seq!['"'];
    if text.len() > 0 {
        let rest = text.skip(1);
        let tail = escaped(rest);
        lemma_quotes_return(rest);
        let s = escaped(text);
        if text[0] == '"' {
            assert(s =~= from + tail);
            assert(s.subrange(0, 2) =~= from);
            assert(s.skip(2) =~= tail);
            assert(to + replaced(tail, from, to) =~= doubled(text));
        } else if text[0] == '\\' {
            assert(s =~= seq!['\\', '\\'] + tail);
            assert(s.subrange(0, 2)[1] == '\\');
            let once = s.skip(1);
            assert(once =~= seq!['\\'] + tail);
            if tail.len() > 0 {
                assert(once.subrange(0, 2)[1] == tail[0]);
                assert(tail[0] != '"');
            }
            assert(!occurs_at(once, from, 0));
            assert(once.skip(1) =~= tail);
            assert(replaced(once, from, to) =~= seq!['\\'] + replaced(tail, from, to));
            assert(replaced(s, from, to) =~= seq!['\\'] + replaced(once, from, to));
            assert(replaced(s, from, to) =~= doubled(text));
        } else {
            assert(s =~= seq![text[0]] + tail);
            if s.len() >= 2 {
                assert(s.subrange(0, 2)[0] == text[0]);
            }
            assert(!occurs_at(s, from, 0));
            assert(s.skip(1) =~= tail);
        }
    }
}

proof fn lemma_backslashes_return(text: Seq<char>)
    ensures
        replaced(doubled(text), seq!['\\', '\\'], seq!['\\']) == text,
    decreases text.len(),
{
    let from = seq!['\\', '\\'];
    let to = seq!['\\'];
    if text.len() > 0 {
        let rest = text.skip(1);
        let tail = doubled(rest);
        lemma_backslashes_return(rest);
        let s = doubled(text);
        if text[0] == '\\' {
            assert(s =~= from + tail);
            assert(s.subrange(0, 2) =~= from);
            assert(s.skip(2) =~= tail);
        } else {
            assert(s =~= seq![text[0]] + tail);
            if s.len() >= 2 {
                assert(s.subrange(0, 2)[0] == text[0]);
            }
            assert(!occurs_at(s, from, 0));
            assert(s.skip(1) =~= tail);
        }
        assert(seq![text[0]] + rest =~= text);
    }
}

proof fn lemma_escaped_text_closes(s: Seq<char>, i: int, text: Seq<char>)
    requires
        0 <= i,
        i + escaped(text).len() < s.len(),
        s.subrange(i, i + escaped(text).len()) == escaped(text),
        s[i + escaped(text).len()] == '"',
    ensures
        closing_quote(s, i) == Some(i + escaped(text).len()),
    decreases text.len(),
{
    if text.len() > 0 {
        let whole = escaped(text);
        let tail = escaped(text.skip(1));
        let taken: int = if text[0] == '"' || text[0] == '\\' {
            2
        } else {
            1
        };
        assert(whole.len() == taken + tail.len());
        assert(s[i] == whole[0]);
        if taken == 2 {
            assert(s[i + 1] == whole[1]);
        }
        assert(s.subrange(i + taken, i + taken + tail.len()) =~= tail) by {
            assert forall|k: int| 0 <= k < tail.len() implies s[i + taken + k] == tail[k] by {
                assert(s.subrange(i, i + whole.len())[taken + k] == whole[taken + k]);
            }
        }
        lemma_escaped_text_closes(s, i + taken, text.skip(1));
    }
}

/// The word can stand in a file: it is quoted, or a brace.
pub open spec fn is_writable(word: Word) -> bool {
    word.quoted || is_brace(word, '{') || is_brace(word, '}')
}

proof fn lemma_written_words_return(s: Seq<char>, i: int, all: Seq<Word>)
    requires
        0 <= i <= s.len(),
        s.skip(i) == written(all),
        forall|k: int| 0 <= k < all.len() ==> is_writable(#[trigger] all[k]),
    ensures
        words_from(s, i) == all,
    decreases all.len(),
{
    let view = s.skip(i);
    assert(view.len() == s.len() - i);
    if all.len() == 0 {
        assert(words_from(s, i) =~= all);
    } else {
        let word = all[0];
        let first = written_word(word);
        let rest = all.skip(1);
        let end = i + first.len();
        assert(is_writable(word));
        assert(end <= s.len());
        assert forall|k: int| 0 <= k < first.len() implies s[i + k] == first[k] by {
            assert(view[k] == first[k]);
        }
        if all.len() == 1 {
            assert(view.len() == first.len());
            assert(words_from(s, end) =~= Seq::empty());
        } else {
            assert(view[first.len() as int] == ' ');
            assert(s[end] == ' ');
            assert(s.skip(end + 1) =~= written(rest)) by {
                assert forall|k: int| 0 <= k < written(rest).len() implies s[end + 1 + k]
                    == written(rest)[k] by {
                    assert(view[first.len() + 1 + k] == written(rest)[k]);
                }
            }
            assert forall|k: int| 0 <= k < rest.len() implies is_writable(#[trigger] rest[k]) by {
                assert(is_writable(all[k + 1]));
            }
            lemma_written_words_return(s, end + 1, rest);
            assert(words_from(s, end) == words_from(s, end + 1));
        }
        assert(words_from(s, end) =~= rest);
        if word.quoted {
            let inner = escaped(word.text);
            assert(s.subrange(i + 1, i + 1 + inner.len()) =~= inner) by {
                assert forall|k: int| 0 <= k < inner.len() implies s[i + 1 + k] == inner[k] by {
                    assert(first[1 + k] == inner[k]);
                }
            }
            assert(s[i] == first[0]);
            assert(s[i + 1 + inner.len()] == first[1 + inner.len() as int]);
            lemma_escaped_text_closes(s, i + 1, word.text);
            lemma_quotes_return(word.text);
            lemma_backslashes_return(word.text);
            assert(unescaped(inner) == word.text);
            assert(words_from(s, i) == seq![word] + words_from(s, end));
        } else {
            assert(s[i] == first[0]);
            assert(word.text =~= seq![s[i]]);
            assert(words_from(s, i) == seq![word] + words_from(s, end));
        }
        assert(seq![word] + rest =~= all);
    }
}

/// Inside quotes everything is data, braces and `//` too: an escaped text in quotes
/// reads as exactly that text.
pub proof fn law_quoted_text_is_data(text: Seq<char>)
    ensures
        words_from(seq!['"'] + escaped(text) + seq!['"'], 0) == seq![Word { text, quoted: true }],
{
    let s = seq!['"'] + escaped(text) + seq!['"'];
    let all = seq![Word { text, quoted: true }];
    assert(s.skip(0) =~= written(all));
    lemma_written_words_return(s, 0, all);
}

proof fn lemma_entry_words_are_writable(entries: Seq<(Seq<char>, Vdf)>)
    ensures
        forall|k: int|
            0 <= k < entry_words(entries).len() ==> is_writable(#[trigger] entry_words(entries)[k]),
    decreases entries,
{
    if entries.len() > 0 {
        let others = entry_words(entries.skip(1));
        lemma_entry_words_are_writable(entries.skip(1));
        let value = match entries[0].1 {
            Vdf::Text(text) => seq![Word { text, quoted: true }],
            Vdf::Object(inner) => {
                lemma_entry_words_are_writable(inner);
                seq![brace_word('{')] + entry_words(inner) + seq![brace_word('}')]
            },
        };
        assert forall|k: int| 0 <= k < value.len() implies is_writable(#[trigger] value[k]) by {
            match entries[0].1 {
                Vdf::Text(_) => {},
                Vdf::Object(inner) => {
                    if 1 <= k < value.len() - 1 {
                        assert(value[k] == entry_words(inner)[k - 1]);
                    }
                },
            }
        }
        let all = entry_words(entries);
        assert forall|k: int| 0 <= k < all.len() implies is_writable(#[trigger] all[k]) by {
            if 1 <= k <= value.len() {
                assert(all[k] == value[k - 1]);
            } else if k > value.len() {
                assert(all[k] == others[k - 1 - value.len()]);
            }
        }
    }
}

proof fn lemma_nesting_counts(entries: Seq<(Seq<char>, Vdf)>)
    ensures
        nesting(entries) >= 0,
    decreases entries,
{
    if entries.len() > 0 {
        lemma_nesting_counts(entries.skip(1));
    }
}

/// The words from `i` on begin with those of the entries.
spec fn stand_at(all: Seq<Word>, i: int, entries: Seq<(Seq<char>, Vdf)>) -> bool {
    &&& 0 <= i
    &&& i + entry_words(entries).len() <= all.len()
    &&& all.subrange(i, i + entry_words(entries).len()) == entry_words(entries)
}

/// Where the words of the first entry end.
spec fn first_end(i: int, entries: Seq<(Seq<char>, Vdf)>) -> int {
    match entries[0].1 {
        Vdf::Text(_) => i + 2,
        Vdf::Object(inner) => i + 3 + entry_words(inner).len(),
    }
}

proof fn lemma_words_come_apart(all: Seq<Word>, i: int, entries: Seq<(Seq<char>, Vdf)>)
    requires
        stand_at(all, i, entries),
        entries.len() > 0,
    ensures
        all[i] == (Word { text: entries[0].0, quoted: true }),
        match entries[0].1 {
            Vdf::Text(text) => all[i + 1] == (Word { text, quoted: true }),
            Vdf::Object(inner) => {
                &&& is_brace(all[i + 1], '{')
                &&& stand_at(all, i + 2, inner)
                &&& is_brace(all[i + 2 + entry_words(inner).len()], '}')
            },
        },
        stand_at(all, first_end(i, entries), entries.skip(1)),
        i + 2 <= first_end(i, entries) <= all.len(),
        first_end(i, entries) + entry_words(entries.skip(1)).len() == i + entry_words(entries).len(),
{
    let words = entry_words(entries);
    let others = entry_words(entries.skip(1));
    let next = first_end(i, entries);
    assert forall|k: int| 0 <= k < words.len() implies all[i + k] == words[k] by {
        assert(all.subrange(i, i + words.len())[k] == words[k]);
    }
    assert(words.len() == next - i + others.len());
    assert(all[i] == words[0]);
    assert(all[i + 1] == words[1]);
    match entries[0].1 {
        Vdf::Text(_) => {},
        Vdf::Object(inner) => {
            let within = entry_words(inner);
            assert(all.subrange(i + 2, i + 2 + within.len()) =~= within) by {
                assert forall|k: int| 0 <= k < within.len() implies all[i + 2 + k] == within[k] by {
                    assert(words[2 + k] == within[k]);
                }
            }
            assert(all[i + 2 + within.len()] == words[2 + within.len() as int]);
        },
    }
    assert(all.subrange(next, next + others.len()) =~= others) by {
        assert forall|k: int| 0 <= k < others.len() implies all[next + k] == others[k] by {
            assert(words[next - i + k] == others[k]);
        }
    }
}

proof fn lemma_entries_return(
    all: Seq<Word>,
    i: int,
    nested: bool,
    depth: int,
    before: Seq<(Seq<char>, Vdf)>,
    entries: Seq<(Seq<char>, Vdf)>,
)
    requires
        stand_at(all, i, entries),
        depth + nesting(entries) <= MAX_DEPTH,
    ensures
        object_from(all, i, nested, depth, before) == object_from(
            all,
            i + entry_words(entries).len(),
            nested,
            depth,
            before + entries,
        ),
    decreases entries,
{
    if entries.len() == 0 {
        assert(before + entries =~= before);
    } else {
        let rest = entries.skip(1);
        let next = first_end(i, entries);
        lemma_words_come_apart(all, i, entries);
        lemma_nesting_counts(rest);
        assert(depth <= MAX_DEPTH);
        match entries[0].1 {
            Vdf::Text(_) => {
                assert(!is_brace(all[i], '}') && !is_brace(all[i], '{'));
                assert(!is_brace(all[i + 1], '}') && !is_brace(all[i + 1], '{'));
                assert(entries[0] == (all[i].text, Vdf::Text(all[i + 1].text)));
                assert(object_from(all, i, nested, depth, before) == object_from(
                    all,
                    next,
                    nested,
                    depth,
                    before.push(entries[0]),
                ));
            },
            Vdf::Object(inner) => {
                lemma_nesting_counts(inner);
                lemma_entries_return(all, i + 2, true, depth + 1, Seq::empty(), inner);
                assert(Seq::<(Seq<char>, Vdf)>::empty() + inner =~= inner);
                assert(object_from(all, i + 2, true, depth + 1, Seq::empty()) == Some(
                    (Vdf::Object(inner), next),
                ));
                assert(entries[0] == (all[i].text, Vdf::Object(inner)));
                assert(!is_brace(all[i + 1], '}')) by {
                    assert(seq!['{'][0] != seq!['}'][0]);
                }
                assert(object_from(all, i, nested, depth, before) == object_from(
                    all,
                    next,
                    nested,
                    depth,
                    before.push(entries[0]),
                ));
            },
        }
        lemma_entries_return(all, next, nested, depth, before.push(entries[0]), rest);
        assert(before.push(entries[0]) + rest =~= before + entries);
    }
}

proof fn lemma_deep_entries_fail(
    all: Seq<Word>,
    i: int,
    nested: bool,
    depth: int,
    before: Seq<(Seq<char>, Vdf)>,
    entries: Seq<(Seq<char>, Vdf)>,
)
    requires
        stand_at(all, i, entries),
        depth + nesting(entries) > MAX_DEPTH,
    ensures
        object_from(all, i, nested, depth, before) is None,
    decreases entries,
{
    if entries.len() > 0 && depth <= MAX_DEPTH {
        let rest = entries.skip(1);
        let next = first_end(i, entries);
        lemma_words_come_apart(all, i, entries);
        match entries[0].1 {
            Vdf::Text(_) => {
                lemma_deep_entries_fail(all, next, nested, depth, before.push(entries[0]), rest);
            },
            Vdf::Object(inner) => {
                if depth + 1 + nesting(inner) > MAX_DEPTH {
                    lemma_deep_entries_fail(all, i + 2, true, depth + 1, Seq::empty(), inner);
                } else {
                    lemma_entries_return(all, i + 2, true, depth + 1, Seq::empty(), inner);
                    lemma_nesting_counts(inner);
                    assert(Seq::<(Seq<char>, Vdf)>::empty() + inner =~= inner);
                    lemma_deep_entries_fail(
                        all,
                        next,
                        nested,
                        depth,
                        before.push(entries[0]),
                        rest,
                    );
                }
            },
        }
    }
}

/// A file that is written with every text in quotes reads as exactly what was written:
/// all entries, in order, repeated keys too, and every text as it was. When its braces
/// nest deeper than 32, it does not read at all.
pub proof fn law_rendered_file_is_read_back(entries: Seq<(Seq<char>, Vdf)>)
    ensures
        nesting(entries) <= MAX_DEPTH ==> parsed(rendered(entries)) == Some(Vdf::Object(entries)),
        nesting(entries) > MAX_DEPTH ==> parsed(rendered(entries)) is None,
{
    let s = rendered(entries);
    let all = entry_words(entries);
    lemma_entry_words_are_writable(entries);
    assert(s.skip(0) =~= s);
    lemma_written_words_return(s, 0, all);
    assert(all.subrange(0, all.len() as int) =~= all);
    if nesting(entries) <= MAX_DEPTH {
        lemma_nesting_counts(entries);
        lemma_entries_return(all, 0, false, 0, Seq::empty(), entries);
        assert(Seq::<(Seq<char>, Vdf)>::empty() + entries =~= entries);
    } else {
        lemma_deep_entries_fail(all, 0, false, 0, Seq::empty(), entries);
    }
}

} // verus!
