//! Searching, splitting and rebuilding of text and of raw bytes.
//!
//! Text is handled as a sequence of characters and file system names as a
//! sequence of bytes; everything both need is written once over [`Letter`].
use vstd::prelude::*;

verus! {

/// Appending one character to a `String`: the new text is the old text followed
/// by that character.
pub assume_specification[ String::push ](text: &mut String, letter: char)
    ensures
        final(text)@ == old(text)@.push(letter),
;

/// A symbol that can be compared and folded to ASCII lower case.
pub trait Letter: Copy {
    /// The symbol with `A`..`Z` replaced by `a`..`z`.
    spec fn lowered(self) -> Self;

    fn same(self, other: Self) -> (same: bool)
        ensures
            same == (self == other),
    ;

    fn lower(self) -> (lower: Self)
        ensures
            lower == self.lowered(),
    ;
}

impl Letter for char {
    open spec fn lowered(self) -> char {
        if 'A' <= self && self <= 'Z' {
            (self as u32 + 32) as char
        } else {
            self
        }
    }

    fn same(self, other: char) -> (same: bool) {
        self == other
    }

    fn lower(self) -> (lower: char) {
        if 'A' <= self && self <= 'Z' {
            ((self as u8) + 32) as char
        } else {
            self
        }
    }
}

impl Letter for u8 {
    open spec fn lowered(self) -> u8 {
        if 65 <= self <= 90 {
            (self + 32) as u8
        } else {
            self
        }
    }

    fn same(self, other: u8) -> (same: bool) {
        self == other
    }

    fn lower(self) -> (lower: u8) {
        if 65 <= self && self <= 90 {
            self + 32
        } else {
            self
        }
    }
}

/// The sequence with every symbol folded to ASCII lower case.
pub open spec fn lowercase<T: Letter>(s: Seq<T>) -> Seq<T> {
    Seq::new(s.len(), |i: int| s[i].lowered())
}

/// Equality that disregards ASCII case.
pub open spec fn same_folded<T: Letter>(a: Seq<T>, b: Seq<T>) -> bool {
    lowercase(a) == lowercase(b)
}

/// `needle` stands in `s` at position `i`.
pub open spec fn occurs_at<T>(s: Seq<T>, needle: Seq<T>, i: int) -> bool {
    &&& 0 <= i
    &&& i + needle.len() <= s.len()
    &&& s.subrange(i, i + needle.len()) == needle
}

/// `needle` stands somewhere in `s`.
pub open spec fn occurs<T>(s: Seq<T>, needle: Seq<T>) -> bool {
    exists|i: int| #[trigger] occurs_at(s, needle, i)
}

/// The pieces of `s` between occurrences of `separator`; always at least one.
pub open spec fn pieces<T>(s: Seq<T>, separator: T) -> Seq<Seq<T>>
    decreases s.len(),
{
    if s.len() == 0 {
        seq![Seq::<T>::empty()]
    } else {
        let before = pieces(s.drop_last(), separator);
        if s.last() == separator {
            before.push(Seq::<T>::empty())
        } else {
            before.update(before.len() - 1, before.last().push(s.last()))
        }
    }
}

/// The pieces written one after the other with `separator` in between.
pub open spec fn joined<T>(parts: Seq<Seq<T>>, separator: Seq<T>) -> Seq<T>
    decreases parts.len(),
{
    if parts.len() == 0 {
        Seq::<T>::empty()
    } else if parts.len() == 1 {
        parts[0]
    } else {
        joined(parts.drop_last(), separator) + separator + parts.last()
    }
}

/// The views of a list of vectors.
pub open spec fn views<T>(parts: Seq<Vec<T>>) -> Seq<Seq<T>> {
    Seq::new(parts.len(), |i: int| parts[i]@)
}

/// The texts of a list of strings.
pub open spec fn texts(parts: Seq<String>) -> Seq<Seq<char>> {
    Seq::new(parts.len(), |i: int| parts[i]@)
}

/// The text of a string that may be absent.
pub open spec fn maybe_text(text: Option<String>) -> Option<Seq<char>> {
    match text {
        Some(text) => Some(text@),
        None => None,
    }
}

/// Whether two slices hold the same symbols.
pub fn same<T: Letter>(a: &[T], b: &[T]) -> (r: bool)
    ensures
        r == (a@ == b@),
{
    if a.len() != b.len() {
        return false;
    }
    let mut i: usize = 0;
    while i < a.len()
        invariant
            i <= a.len(),
            a.len() == b.len(),
            forall|j: int| 0 <= j < i ==> a@[j] == b@[j],
        decreases a.len() - i,
    {
        if !a[i].same(b[i]) {
            return false;
        }
        i = i + 1;
    }
    assert(a@ =~= b@);
    true
}

/// Whether two slices hold the same symbols up to ASCII case.
pub fn same_ignoring_case<T: Letter>(a: &[T], b: &[T]) -> (r: bool)
    ensures
        r == same_folded(a@, b@),
{
    if a.len() != b.len() {
        assert(lowercase(a@).len() != lowercase(b@).len());
        return false;
    }
    let mut i: usize = 0;
    while i < a.len()
        invariant
            i <= a.len(),
            a.len() == b.len(),
            forall|j: int| 0 <= j < i ==> #[trigger] a@[j].lowered() == b@[j].lowered(),
        decreases a.len() - i,
    {
        if !a[i].lower().same(b[i].lower()) {
            assert(lowercase(a@)[i as int] != lowercase(b@)[i as int]);
            return false;
        }
        i = i + 1;
    }
    assert(lowercase(a@) =~= lowercase(b@));
    true
}

/// The characters of a text.
pub fn letters(text: &str) -> (r: Vec<char>)
    ensures
        r@ == text@,
{
    let mut r: Vec<char> = Vec::new();
    for c in it: text.chars()
        invariant
            r@ == it.seq().take(it.index() as int),
            it.seq() == text@,
    {
        r.push(c);
        assert(it.seq().take(it.index() as int + 1) =~= it.seq().take(it.index() as int).push(c));
    }
    assert(text@.take(text@.len() as int) =~= text@);
    r
}

/// The text made of some characters.
pub fn text_of(letters: &[char]) -> (r: String)
    ensures
        r@ == letters@,
{
    let mut r = String::new();
    let mut i: usize = 0;
    while i < letters.len()
        invariant
            i <= letters.len(),
            r@ == letters@.take(i as int),
        decreases letters.len() - i,
    {
        r.push(letters[i]);
        i = i + 1;
        assert(letters@.take(i as int) =~= letters@.take(i - 1).push(letters@[i - 1]));
    }
    assert(letters@.take(i as int) =~= letters@);
    r
}

/// Whether `needle` stands in `s` at position `i`.
pub fn stands_at<T: Letter>(s: &[T], needle: &[T], i: usize) -> (r: bool)
    ensures
        r == occurs_at(s@, needle@, i as int),
{
    if i > s.len() || needle.len() > s.len() - i {
        return false;
    }
    let mut k: usize = 0;
    while k < needle.len()
        invariant
            i + needle.len() <= s.len(),
            k <= needle.len(),
            forall|j: int| 0 <= j < k ==> s@[i + j] == needle@[j],
        decreases needle.len() - k,
    {
        if !s[i + k].same(needle[k]) {
            assert(s@.subrange(i as int, i + needle@.len())[k as int] != needle@[k as int]);
            return false;
        }
        k = k + 1;
    }
    assert(s@.subrange(i as int, i + needle@.len()) =~= needle@);
    true
}

/// The first position from `from` on at which `needle` stands in `s`.
pub fn find<T: Letter>(s: &[T], needle: &[T], from: usize) -> (r: Option<usize>)
    ensures
        match r {
            Some(i) => from <= i && occurs_at(s@, needle@, i as int) && forall|j: int|
                from <= j < i ==> !#[trigger] occurs_at(s@, needle@, j),
            None => forall|j: int| from <= j ==> !#[trigger] occurs_at(s@, needle@, j),
        },
{
    if needle.len() > s.len() || from > s.len() - needle.len() {
        return None;
    }
    let last: usize = s.len() - needle.len();
    let mut i: usize = from;
    loop
        invariant
            from <= i <= last,
            last == s.len() - needle.len(),
            needle.len() <= s.len(),
            forall|j: int| from <= j < i ==> !#[trigger] occurs_at(s@, needle@, j),
        decreases last - i,
    {
        if stands_at(s, needle, i) {
            return Some(i);
        }
        if i == last {
            return None;
        }
        i = i + 1;
    }
}

/// Whether `needle` stands somewhere in `s`.
pub fn contains<T: Letter>(s: &[T], needle: &[T]) -> (r: bool)
    ensures
        r == occurs(s@, needle@),
{
    match find(s, needle, 0) {
        Some(i) => {
            assert(occurs_at(s@, needle@, i as int));
            true
        },
        None => false,
    }
}

/// Whether one particular symbol stands in `s`.
pub fn contains_letter<T: Letter>(s: &[T], letter: T) -> (r: bool)
    ensures
        r == s@.contains(letter),
{
    let mut i: usize = 0;
    while i < s.len()
        invariant
            i <= s.len(),
            forall|j: int| 0 <= j < i ==> s@[j] != letter,
        decreases s.len() - i,
    {
        if s[i].same(letter) {
            assert(s@[i as int] == letter);
            return true;
        }
        i = i + 1;
    }
    false
}

/// Whether `s` starts with `prefix`.
pub fn begins<T: Letter>(s: &[T], prefix: &[T]) -> (r: bool)
    ensures
        r == prefix@.is_prefix_of(s@),
{
    let r = stands_at(s, prefix, 0);
    assert(occurs_at(s@, prefix@, 0) <==> prefix@.is_prefix_of(s@));
    r
}

/// Whether `s` ends with `suffix`.
pub fn ends<T: Letter>(s: &[T], suffix: &[T]) -> (r: bool)
    ensures
        r == suffix@.is_suffix_of(s@),
{
    if suffix.len() > s.len() {
        return false;
    }
    let r = stands_at(s, suffix, s.len() - suffix.len());
    assert(s@.subrange(s@.len() - suffix@.len(), s@.len() as int) =~= s@.subrange(
        s@.len() - suffix@.len(),
        s@.len() - suffix@.len() + suffix@.len(),
    ));
    r
}

/// A copy of the symbols from `from` up to `to`.
pub fn part<T: Copy>(s: &[T], from: usize, to: usize) -> (r: Vec<T>)
    requires
        from <= to <= s@.len(),
    ensures
        r@ == s@.subrange(from as int, to as int),
{
    let mut r: Vec<T> = Vec::new();
    let mut i: usize = from;
    while i < to
        invariant
            from <= i <= to <= s@.len(),
            r@ == s@.subrange(from as int, i as int),
        decreases to - i,
    {
        r.push(s[i]);
        i = i + 1;
        assert(s@.subrange(from as int, i as int) =~= s@.subrange(from as int, i - 1).push(s@[i - 1]));
    }
    r
}

/// A copy of all symbols.
pub fn copied<T: Copy>(s: &[T]) -> (r: Vec<T>)
    ensures
        r@ == s@,
{
    let r = part(s, 0, s.len());
    assert(r@ =~= s@);
    r
}

/// Appends `more` to `s`.
pub fn append<T: Copy>(s: &mut Vec<T>, more: &[T])
    ensures
        final(s)@ == old(s)@ + more@,
{
    let ghost start = s@;
    let mut i: usize = 0;
    while i < more.len()
        invariant
            i <= more.len(),
            s@ == start + more@.take(i as int),
        decreases more.len() - i,
    {
        s.push(more[i]);
        i = i + 1;
        assert(start + more@.take(i as int) =~= (start + more@.take(i - 1)).push(more@[i - 1]));
    }
    assert(more@.take(i as int) =~= more@);
}

/// The sequence folded to ASCII lower case.
pub fn lower_all<T: Letter>(s: &[T]) -> (r: Vec<T>)
    ensures
        r@ == lowercase(s@),
{
    let mut r: Vec<T> = Vec::new();
    let mut i: usize = 0;
    while i < s.len()
        invariant
            i <= s.len(),
            r@ == lowercase(s@.take(i as int)),
        decreases s.len() - i,
    {
        r.push(s[i].lower());
        i = i + 1;
        assert(lowercase(s@.take(i as int)) =~= lowercase(s@.take(i - 1)).push(
            s@[i - 1].lowered(),
        ));
    }
    assert(s@.take(i as int) =~= s@);
    r
}

/// Every sequence has at least one piece.
pub proof fn lemma_pieces_not_empty<T>(s: Seq<T>, separator: T)
    ensures
        pieces(s, separator).len() >= 1,
    decreases s.len(),
{
    if s.len() > 0 {
        lemma_pieces_not_empty(s.drop_last(), separator);
    }
}

/// What is appended without a separator lengthens the last piece.
pub proof fn lemma_pieces_append<T>(s: Seq<T>, more: Seq<T>, separator: T)
    requires
        !more.contains(separator),
    ensures
        pieces(s, separator).len() >= 1,
        pieces(s + more, separator) == pieces(s, separator).update(
            pieces(s, separator).len() - 1,
            pieces(s, separator).last() + more,
        ),
    decreases more.len(),
{
    lemma_pieces_not_empty(s, separator);
    let before = pieces(s, separator);
    if more.len() == 0 {
        assert(s + more =~= s);
        assert(before.last() + more =~= before.last());
        assert(before.update(before.len() - 1, before.last()) =~= before);
    } else {
        let head = more.drop_last();
        assert(!head.contains(separator)) by {
            if head.contains(separator) {
                let k = choose|k: int| 0 <= k < head.len() && head[k] == separator;
                assert(more[k] == separator);
            }
        }
        lemma_pieces_append(s, head, separator);
        assert((s + more).drop_last() =~= s + head);
        assert(more.contains(more.last()));
        assert((before.last() + head).push(more.last()) =~= before.last() + more);
        assert(pieces(s + more, separator) =~= before.update(
            before.len() - 1,
            before.last() + more,
        ));
    }
}

/// The pieces of `s` between occurrences of `separator`.
pub fn split<T: Letter>(s: &[T], separator: T) -> (r: Vec<Vec<T>>)
    ensures
        views(r@) == pieces(s@, separator),
        r@.len() >= 1,
{
    let mut done: Vec<Vec<T>> = Vec::new();
    let mut open: Vec<T> = Vec::new();
    let mut i: usize = 0;
    assert(s@.take(0) =~= Seq::<T>::empty());
    assert(views(done@).push(open@) =~= seq![Seq::<T>::empty()]);
    while i < s.len()
        invariant
            i <= s.len(),
            views(done@).push(open@) == pieces(s@.take(i as int), separator),
        decreases s.len() - i,
    {
        let c = s[i];
        let ghost before = pieces(s@.take(i as int), separator);
        assert(s@.take(i + 1).drop_last() =~= s@.take(i as int));
        assert(s@.take(i + 1).last() == c);
        let ghost prior = views(done@);
        if c.same(separator) {
            let ghost finished = open@;
            done.push(open);
            open = Vec::new();
            assert(views(done@) =~= prior.push(finished));
            assert(views(done@).push(open@) =~= before.push(Seq::<T>::empty()));
        } else {
            let ghost was = open@;
            open.push(c);
            assert(views(done@).push(open@) =~= before.update(before.len() - 1, was.push(c)));
        }
        i = i + 1;
    }
    assert(s@.take(i as int) =~= s@);
    let ghost prior = views(done@);
    let ghost finished = open@;
    done.push(open);
    assert(views(done@) =~= prior.push(finished));
    done
}

/// The parts written one after the other with `separator` in between.
pub fn join<T: Copy>(parts: &Vec<Vec<T>>, separator: &[T]) -> (r: Vec<T>)
    ensures
        r@ == joined(views(parts@), separator@),
{
    let mut r: Vec<T> = Vec::new();
    let ghost all = views(parts@);
    let mut i: usize = 0;
    while i < parts.len()
        invariant
            i <= parts.len(),
            all == views(parts@),
            r@ == joined(all.take(i as int), separator@),
        decreases parts.len() - i,
    {
        assert(all.take(i + 1).drop_last() =~= all.take(i as int));
        if i > 0 {
            append(&mut r, separator);
        }
        append(&mut r, parts[i].as_slice());
        i = i + 1;
        assert(r@ =~= joined(all.take(i as int), separator@));
    }
    assert(all.take(i as int) =~= all);
    r
}

/// One text followed by another.
pub fn concat(a: &str, b: &str) -> (r: String)
    ensures
        r@ == a@ + b@,
{
    let mut r = a.to_owned();
    r.append(b);
    r
}

/// The length of a text in UTF-8.
pub fn byte_length(text: &str) -> (r: usize)
    ensures
        r == vstd::utf8::encode_utf8(text@).len(),
{
    text.as_bytes().len()
}

/// The UTF-8 bytes of a text.
pub fn bytes_of(text: &str) -> (r: Vec<u8>)
    ensures
        r@ == vstd::utf8::encode_utf8(text@),
{
    let bytes = text.as_bytes();
    part(bytes, 0, bytes.len())
}

/// `String::from_utf8`: the text that the bytes encode, or nothing when they are
/// not valid UTF-8.
#[verifier::external_body]
pub(crate) fn decode_bytes(bytes: Vec<u8>) -> (r: Option<String>)
    ensures
        r is Some <==> vstd::utf8::valid_utf8(bytes@),
        r is Some ==> r->0@ == vstd::utf8::decode_utf8(bytes@),
{
    String::from_utf8(bytes).ok()
}

/// `s` with every occurrence of `from`, taken from the left without overlap,
/// replaced by `to`.
pub open spec fn replaced<T>(s: Seq<T>, from: Seq<T>, to: Seq<T>) -> Seq<T>
    decreases s.len(),
{
    if s.len() == 0 {
        s
    } else if from.len() > 0 && occurs_at(s, from, 0) {
        to + replaced(s.skip(from.len() as int), from, to)
    } else {
        seq![s[0]] + replaced(s.skip(1), from, to)
    }
}

/// Replaces every occurrence of `from` by `to`.
pub fn replace<T: Letter>(s: &[T], from: &[T], to: &[T]) -> (r: Vec<T>)
    requires
        from@.len() > 0,
    ensures
        r@ == replaced(s@, from@, to@),
{
    let mut r: Vec<T> = Vec::new();
    let mut i: usize = 0;
    assert(s@.skip(0) =~= s@);
    while i < s.len()
        invariant
            i <= s.len(),
            from@.len() > 0,
            r@ + replaced(s@.skip(i as int), from@, to@) == replaced(s@, from@, to@),
        decreases s.len() - i,
    {
        let ghost rest = s@.skip(i as int);
        let ghost before = r@;
        if stands_at(s, from, i) {
            assert(rest.subrange(0, from@.len() as int) =~= s@.subrange(
                i as int,
                i + from@.len(),
            ));
            append(&mut r, to);
            i = i + from.len();
            assert(rest.skip(from@.len() as int) =~= s@.skip(i as int));
            assert(r@ + replaced(s@.skip(i as int), from@, to@) =~= before + (to@ + replaced(
                s@.skip(i as int),
                from@,
                to@,
            )));
        } else {
            assert(!occurs_at(rest, from@, 0)) by {
                if occurs_at(rest, from@, 0) {
                    assert(rest.subrange(0, from@.len() as int) =~= s@.subrange(
                        i as int,
                        i + from@.len(),
                    ));
                }
            }
            r.push(s[i]);
            i = i + 1;
            assert(rest.skip(1) =~= s@.skip(i as int));
            assert(r@ + replaced(s@.skip(i as int), from@, to@) =~= before + (seq![rest[0]]
                + replaced(s@.skip(i as int), from@, to@)));
        }
    }
    assert(s@.skip(i as int) =~= Seq::<T>::empty());
    assert(r@ + Seq::<T>::empty() =~= r@);
    r
}

/// A character with the Unicode property `White_Space`.
pub open spec fn is_space(c: char) -> bool {
    let n = c as u32;
    ||| 0x9 <= n <= 0xd
    ||| n == 0x20
    ||| n == 0x85
    ||| n == 0xa0
    ||| n == 0x1680
    ||| 0x2000 <= n <= 0x200a
    ||| n == 0x2028
    ||| n == 0x2029
    ||| n == 0x202f
    ||| n == 0x205f
    ||| n == 0x3000
}

pub fn white_space(c: char) -> (r: bool)
    ensures
        r == is_space(c),
{
    let n: u32 = c as u32;
    (0x9 <= n && n <= 0xd) || n == 0x20 || n == 0x85 || n == 0xa0 || n == 0x1680 || (0x2000 <= n && n
        <= 0x200a) || n == 0x2028 || n == 0x2029 || n == 0x202f || n == 0x205f || n == 0x3000
}

/// A control code: the Unicode general category `Cc`.
pub open spec fn is_control(c: char) -> bool {
    let n = c as u32;
    n <= 0x1f || 0x7f <= n <= 0x9f
}

pub fn control(c: char) -> (r: bool)
    ensures
        r == is_control(c),
{
    let n: u32 = c as u32;
    n <= 0x1f || (0x7f <= n && n <= 0x9f)
}

/// Whether a control code stands in the text.
pub open spec fn has_control(s: Seq<char>) -> bool {
    exists|i: int| 0 <= i < s.len() && is_control(#[trigger] s[i])
}

pub fn any_control(s: &[char]) -> (r: bool)
    ensures
        r == has_control(s@),
{
    let mut i: usize = 0;
    while i < s.len()
        invariant
            i <= s.len(),
            forall|j: int| 0 <= j < i ==> !is_control(#[trigger] s@[j]),
        decreases s.len() - i,
    {
        if control(s[i]) {
            assert(is_control(s@[i as int]));
            return true;
        }
        i = i + 1;
    }
    false
}

/// The text without the white space before and after it.
pub open spec fn trimmed(s: Seq<char>) -> Seq<char>
    decreases s.len(),
{
    if s.len() == 0 {
        s
    } else if is_space(s[0]) {
        trimmed(s.skip(1))
    } else if is_space(s.last()) {
        trimmed(s.drop_last())
    } else {
        s
    }
}

/// Removes the white space before and after a text.
pub fn trim(s: &[char]) -> (r: Vec<char>)
    ensures
        r@ == trimmed(s@),
{
    let mut i: usize = 0;
    let mut j: usize = s.len();
    assert(s@.subrange(0, s@.len() as int) =~= s@);
    while i < j && white_space(s[i])
        invariant
            i <= j <= s.len(),
            trimmed(s@.subrange(i as int, j as int)) == trimmed(s@),
        decreases j - i,
    {
        assert(s@.subrange(i as int, j as int).skip(1) =~= s@.subrange(i + 1, j as int));
        i = i + 1;
    }
    while i < j && white_space(s[j - 1])
        invariant
            i <= j <= s.len(),
            i < j ==> !is_space(s@[i as int]),
            trimmed(s@.subrange(i as int, j as int)) == trimmed(s@),
        decreases j - i,
    {
        assert(s@.subrange(i as int, j as int).drop_last() =~= s@.subrange(i as int, j - 1));
        j = j - 1;
    }
    part(s, i, j)
}

/// The text before `i` and the text after it, leaving out the `i`th symbol.
pub open spec fn split_at_symbol<T>(s: Seq<T>, i: int) -> (Seq<T>, Seq<T>) {
    (s.take(i), s.skip(i + 1))
}

/// The texts before and after the first `separator`.
pub open spec fn split_once<T>(s: Seq<T>, separator: T) -> Option<(Seq<T>, Seq<T>)> {
    if s.contains(separator) {
        Some(split_at_symbol(s, s.index_of_first(separator)->0))
    } else {
        None
    }
}

/// Splits a text at the first `separator`.
pub fn divide<T: Letter>(s: &[T], separator: T) -> (r: Option<(Vec<T>, Vec<T>)>)
    ensures
        match r {
            Some((before, after)) => split_once(s@, separator) == Some((before@, after@)),
            None => split_once(s@, separator) is None,
        },
{
    let mut i: usize = 0;
    while i < s.len()
        invariant
            i <= s.len(),
            forall|j: int| 0 <= j < i ==> s@[j] != separator,
        decreases s.len() - i,
    {
        if s[i].same(separator) {
            assert(s@[i as int] == separator);
            proof {
                s@.index_of_first_ensures(separator);
                let first = s@.index_of_first(separator)->0;
                assert(first == i as int);
            }
            let before = part(s, 0, i);
            let after = part(s, i + 1, s.len());
            assert(before@ =~= s@.take(i as int));
            assert(after@ =~= s@.skip(i + 1));
            return Some((before, after));
        }
        i = i + 1;
    }
    None
}

pub open spec fn is_digit(c: char) -> bool {
    '0' <= c && c <= '9'
}

/// The number that decimal digits stand for.
pub open spec fn decimal(s: Seq<char>) -> int
    decreases s.len(),
{
    if s.len() == 0 {
        0
    } else {
        decimal(s.drop_last()) * 10 + (s.last() as u32 - '0' as u32)
    }
}

pub open spec fn all_digits(s: Seq<char>) -> bool {
    forall|i: int| 0 <= i < s.len() ==> is_digit(#[trigger] s[i])
}

pub proof fn lemma_decimal_grows(s: Seq<char>, i: int)
    requires
        all_digits(s),
        0 <= i <= s.len(),
    ensures
        0 <= decimal(s.take(i)) <= decimal(s),
    decreases s.len(),
{
    if i == s.len() {
        assert(s.take(i) =~= s);
    }
    if s.len() > 0 {
        assert(is_digit(s.last()));
        assert(all_digits(s.drop_last())) by {
            assert forall|k: int| 0 <= k < s.drop_last().len() implies is_digit(
                #[trigger] s.drop_last()[k],
            ) by {
                assert(is_digit(s[k]));
            }
        }
        if i < s.len() {
            lemma_decimal_grows(s.drop_last(), i);
            assert(s.drop_last().take(i) =~= s.take(i));
        } else {
            lemma_decimal_grows(s.drop_last(), 0);
        }
    }
}

/// Reads an unsigned number of at most `limit`, written in decimal digits alone.
pub fn parse_decimal(s: &[char], limit: u64) -> (r: Option<u64>)
    ensures
        match r {
            Some(n) => s@.len() > 0 && all_digits(s@) && n == decimal(s@) && n <= limit,
            None => s@.len() == 0 || !all_digits(s@) || decimal(s@) > limit,
        },
{
    if s.len() == 0 {
        return None;
    }
    let mut k: usize = 0;
    while k < s.len()
        invariant
            k <= s.len(),
            forall|j: int| 0 <= j < k ==> is_digit(#[trigger] s@[j]),
        decreases s.len() - k,
    {
        if !('0' <= s[k] && s[k] <= '9') {
            assert(!is_digit(s@[k as int]));
            return None;
        }
        k = k + 1;
    }
    let mut value: u64 = 0;
    let mut i: usize = 0;
    while i < s.len()
        invariant
            i <= s.len(),
            all_digits(s@),
            value == decimal(s@.take(i as int)),
            value <= limit,
        decreases s.len() - i,
    {
        assert(s@.take(i + 1).drop_last() =~= s@.take(i as int));
        assert(is_digit(s@[i as int]));
        let digit: u64 = (s[i] as u32 - '0' as u32) as u64;
        if digit > limit || value > (limit - digit) / 10 {
            proof {
                lemma_decimal_grows(s@, i + 1);
            }
            return None;
        }
        value = value * 10 + digit;
        i = i + 1;
    }
    assert(s@.take(i as int) =~= s@);
    Some(value)
}

/// Whether a text consists of decimal digits alone.
pub fn digits_only(s: &[char]) -> (r: bool)
    ensures
        r == all_digits(s@),
{
    let mut k: usize = 0;
    while k < s.len()
        invariant
            k <= s@.len(),
            forall|j: int| 0 <= j < k ==> is_digit(#[trigger] s@[j]),
        decreases s@.len() - k,
    {
        if !('0' <= s[k] && s[k] <= '9') {
            assert(!is_digit(s@[k as int]));
            return false;
        }
        k = k + 1;
    }
    true
}

pub open spec fn is_hex_digit(c: char) -> bool {
    ||| '0' <= c && c <= '9'
    ||| 'a' <= c && c <= 'f'
    ||| 'A' <= c && c <= 'F'
}

/// The text is a SHA-256 digest written in hexadecimal.
pub open spec fn is_digest(s: Seq<char>) -> bool {
    s.len() == 64 && forall|i: int| 0 <= i < s.len() ==> is_hex_digit(#[trigger] s[i])
}

/// Whether a text is a SHA-256 digest in hexadecimal.
pub fn digest_text(s: &[char]) -> (r: bool)
    ensures
        r == is_digest(s@),
{
    if s.len() != 64 {
        return false;
    }
    let mut i: usize = 0;
    while i < s.len()
        invariant
            i <= s.len(),
            forall|j: int| 0 <= j < i ==> is_hex_digit(#[trigger] s@[j]),
        decreases s.len() - i,
    {
        let c = s[i];
        if !(('0' <= c && c <= '9') || ('a' <= c && c <= 'f') || ('A' <= c && c <= 'F')) {
            assert(!is_hex_digit(s@[i as int]));
            return false;
        }
        i = i + 1;
    }
    true
}

/// Some symbol of `set` stands in `s`.
pub open spec fn meets<T>(s: Seq<T>, set: Seq<T>) -> bool {
    exists|i: int| 0 <= i < s.len() && set.contains(#[trigger] s[i])
}

/// Whether some symbol of `set` stands in `s`.
pub fn contains_any<T: Letter>(s: &[T], set: &[T]) -> (r: bool)
    ensures
        r == meets(s@, set@),
{
    let mut i: usize = 0;
    while i < s.len()
        invariant
            i <= s.len(),
            forall|j: int| 0 <= j < i ==> !set@.contains(#[trigger] s@[j]),
        decreases s.len() - i,
    {
        if contains_letter(set, s[i]) {
            assert(set@.contains(s@[i as int]));
            return true;
        }
        i = i + 1;
    }
    false
}

/// Whether some characters spell a literal text.
pub fn spells(s: &[char], text: &str) -> (r: bool)
    ensures
        r == (s@ == text@),
{
    same(s, letters(text).as_slice())
}

/// A number of one decimal digit, as text.
pub open spec fn digit_letter(n: int) -> char {
    ('0' as u32 + n) as char
}

/// A number in decimal digits.
pub open spec fn decimal_text(n: int) -> Seq<char>
    decreases n,
{
    if n < 10 {
        seq![digit_letter(n)]
    } else {
        decimal_text(n / 10).push(digit_letter(n % 10))
    }
}

/// Writes a number in decimal digits.
pub fn write_decimal(n: u64) -> (r: Vec<char>)
    ensures
        r@ == decimal_text(n as int),
    decreases n,
{
    let digit: u8 = (n % 10) as u8;
    let letter: char = (48 + digit) as char;
    let mut r: Vec<char> = if n < 10 {
        Vec::new()
    } else {
        write_decimal(n / 10)
    };
    r.push(letter);
    assert(n < 10 ==> r@ =~= seq![digit_letter(n as int)]);
    r
}

/// A number that is written out is read back.
pub proof fn law_decimal_round_trip(n: int)
    requires
        0 <= n,
    ensures
        decimal_text(n).len() > 0,
        all_digits(decimal_text(n)),
        decimal(decimal_text(n)) == n,
    decreases n,
{
    let s = decimal_text(n);
    let digit = digit_letter(n % 10);
    assert(is_digit(digit) && digit as u32 - '0' as u32 == n % 10);
    if n < 10 {
        assert(s.drop_last() =~= Seq::empty());
        assert(decimal(s.drop_last()) == 0);
    } else {
        law_decimal_round_trip(n / 10);
        assert(s.drop_last() =~= decimal_text(n / 10));
        assert forall|i: int| 0 <= i < s.len() implies is_digit(#[trigger] s[i]) by {
            if i < s.len() - 1 {
                assert(is_digit(decimal_text(n / 10)[i]));
            }
        }
    }
}

/// The text without one `suffix` at its end.
pub open spec fn chopped(s: Seq<char>, suffix: char) -> Seq<char> {
    if s.len() > 0 && s.last() == suffix {
        s.drop_last()
    } else {
        s
    }
}

/// Removes one `suffix` at the end of a text.
pub fn chop(s: &[char], suffix: char) -> (r: Vec<char>)
    ensures
        r@ == chopped(s@, suffix),
{
    if s.len() > 0 && s[s.len() - 1] == suffix {
        let r = part(s, 0, s.len() - 1);
        assert(r@ =~= s@.drop_last());
        r
    } else {
        let r = part(s, 0, s.len());
        assert(r@ =~= s@);
        r
    }
}

/// The lines of a text, without their ends: a line ends in a line feed, before which
/// one carriage return does not count, or at the end of the text.
pub open spec fn lines_of(s: Seq<char>) -> Seq<Seq<char>> {
    let parts = pieces(s, '\n');
    let ended = Seq::new((parts.len() - 1) as nat, |i: int| chopped(parts[i], '\r'));
    if parts.last().len() == 0 {
        ended
    } else {
        ended.push(parts.last())
    }
}

/// The lines of a text.
pub fn lines(s: &[char]) -> (r: Vec<Vec<char>>)
    ensures
        views(r@) == lines_of(s@),
{
    let mut parts = split(s, '\n');
    let ghost all = views(parts@);
    let count: usize = parts.len() - 1;
    let mut r: Vec<Vec<char>> = Vec::new();
    let mut i: usize = 0;
    while i < count
        invariant
            i <= count,
            count == parts@.len() - 1,
            all == views(parts@),
            views(r@) == Seq::new(i as nat, |k: int| chopped(all[k], '\r')),
        decreases count - i,
    {
        let ghost before = views(r@);
        let line = chop(parts[i].as_slice(), '\r');
        let ghost added = line@;
        r.push(line);
        assert(views(r@) =~= before.push(added));
        assert(views(r@) =~= Seq::new((i + 1) as nat, |k: int| chopped(all[k], '\r')));
        i = i + 1;
    }
    let last = parts.pop();
    if let Some(last) = last {
        assert(last@ == all.last());
        if last.len() > 0 {
            let ghost before = views(r@);
            r.push(last);
            assert(views(r@) =~= before.push(all.last()));
        }
    }
    r
}

/// The words of a text, between its white space.
pub open spec fn words_of(s: Seq<char>) -> Seq<Seq<char>>
    decreases s.len(),
{
    if s.len() == 0 {
        Seq::empty()
    } else {
        let before = words_of(s.drop_last());
        if is_space(s.last()) {
            before
        } else if s.len() == 1 || is_space(s[s.len() - 2]) {
            before.push(seq![s.last()])
        } else {
            before.update(before.len() - 1, before.last().push(s.last()))
        }
    }
}

/// The words of a text.
pub fn words(s: &[char]) -> (r: Vec<Vec<char>>)
    ensures
        views(r@) == words_of(s@),
{
    let mut done: Vec<Vec<char>> = Vec::new();
    let mut open: Vec<char> = Vec::new();
    let mut i: usize = 0;
    assert(s@.take(0) =~= Seq::empty());
    assert(views(done@) =~= Seq::empty());
    while i < s.len()
        invariant
            i <= s@.len(),
            open@.len() > 0 <==> (i > 0 && !is_space(s@[i - 1])),
            words_of(s@.take(i as int)) == if open@.len() > 0 {
                views(done@).push(open@)
            } else {
                views(done@)
            },
        decreases s@.len() - i,
    {
        let ghost before = words_of(s@.take(i as int));
        let ghost prior = views(done@);
        assert(s@.take(i + 1).drop_last() =~= s@.take(i as int));
        assert(s@.take(i + 1).last() == s@[i as int]);
        assert(i > 0 ==> s@.take(i + 1)[i - 1] == s@[i - 1]);
        let c = s[i];
        if white_space(c) {
            if open.len() > 0 {
                let ghost word = open@;
                done.push(open);
                open = Vec::new();
                assert(views(done@) =~= prior.push(word));
            }
        } else {
            let ghost was = open@;
            open.push(c);
            proof {
                if was.len() > 0 {
                    assert(prior.push(open@) =~= before.update(before.len() - 1, was.push(c)));
                } else {
                    assert(open@ =~= seq![c]);
                    assert(prior.push(open@) =~= before.push(seq![c]));
                }
            }
        }
        i = i + 1;
    }
    assert(s@.take(i as int) =~= s@);
    if open.len() > 0 {
        let ghost prior = views(done@);
        let ghost word = open@;
        done.push(open);
        assert(views(done@) =~= prior.push(word));
    }
    done
}

/// One byte string comes before another one: at the first difference its byte is the
/// lower one, or it ends there.
pub open spec fn precedes(a: Seq<u8>, b: Seq<u8>) -> bool
    decreases a.len(),
{
    if b.len() == 0 {
        false
    } else if a.len() == 0 {
        true
    } else if a[0] != b[0] {
        a[0] < b[0]
    } else {
        precedes(a.skip(1), b.skip(1))
    }
}

pub proof fn lemma_precedes_is_strict(a: Seq<u8>)
    ensures
        !precedes(a, a),
    decreases a.len(),
{
    if a.len() > 0 {
        lemma_precedes_is_strict(a.skip(1));
    }
}

pub proof fn lemma_precedes_is_transitive(a: Seq<u8>, b: Seq<u8>, c: Seq<u8>)
    requires
        precedes(a, b),
        precedes(b, c),
    ensures
        precedes(a, c),
    decreases a.len(),
{
    if a.len() > 0 && b.len() > 0 && c.len() > 0 && a[0] == b[0] && b[0] == c[0] {
        lemma_precedes_is_transitive(a.skip(1), b.skip(1), c.skip(1));
    }
}

pub proof fn lemma_precedes_is_total(a: Seq<u8>, b: Seq<u8>)
    requires
        a != b,
    ensures
        precedes(a, b) || precedes(b, a),
    decreases a.len(),
{
    if a.len() == 0 || b.len() == 0 {
        if a.len() == b.len() {
            assert(a =~= b);
        }
    } else if a[0] == b[0] {
        if a.skip(1) == b.skip(1) {
            assert(a =~= seq![a[0]] + a.skip(1));
            assert(b =~= seq![b[0]] + b.skip(1));
        }
        lemma_precedes_is_total(a.skip(1), b.skip(1));
    }
}

/// Whether one byte string comes before another one.
pub fn comes_before(a: &[u8], b: &[u8]) -> (r: bool)
    ensures
        r == precedes(a@, b@),
{
    let mut i: usize = 0;
    assert(a@.skip(0) =~= a@);
    assert(b@.skip(0) =~= b@);
    while i < a.len() && i < b.len()
        invariant
            i <= a@.len(),
            i <= b@.len(),
            precedes(a@.skip(i as int), b@.skip(i as int)) == precedes(a@, b@),
        decreases a@.len() - i,
    {
        assert(a@.skip(i as int).skip(1) =~= a@.skip(i + 1));
        assert(b@.skip(i as int).skip(1) =~= b@.skip(i + 1));
        if a[i] != b[i] {
            return a[i] < b[i];
        }
        i = i + 1;
    }
    i < b.len()
}

/// The list is in byte order; equal entries may stand next to each other.
pub open spec fn is_sorted(list: Seq<Seq<u8>>) -> bool {
    forall|i: int, j: int| 0 <= i < j < list.len() ==> !precedes(#[trigger] list[j], #[trigger] list[i])
}

/// Puts a list into byte order.
pub fn sort(list: Vec<Vec<u8>>) -> (r: Vec<Vec<u8>>)
    ensures
        is_sorted(views(r@)),
        views(r@).to_multiset() == views(list@).to_multiset(),
{
    let mut rest = list;
    let mut r: Vec<Vec<u8>> = Vec::new();
    let ghost all = views(list@).to_multiset();
    proof {
        views(rest@).to_multiset_ensures();
        views(r@).to_multiset_ensures();
        assert(views(r@) =~= Seq::empty());
        assert(views(r@).to_multiset() =~= vstd::multiset::Multiset::empty());
        assert(views(r@).to_multiset().add(views(rest@).to_multiset()) =~= all);
    }
    while rest.len() > 0
        invariant
            is_sorted(views(r@)),
            views(r@).to_multiset().add(views(rest@).to_multiset()) == all,
        decreases rest@.len(),
    {
        let ghost before = views(rest@);
        let ghost done = views(r@);
        let item = rest.pop().unwrap();
        proof {
            assert(views(rest@) =~= before.drop_last());
            assert(before =~= before.drop_last().push(item@));
            before.drop_last().to_multiset_ensures();
        }
        let mut i: usize = 0;
        while i < r.len() && !comes_before(item.as_slice(), r[i].as_slice())
            invariant
                i <= r@.len(),
                forall|k: int| 0 <= k < i ==> !precedes(item@, #[trigger] views(r@)[k]),
            decreases r@.len() - i,
        {
            assert(views(r@)[i as int] == r@[i as int]@);
            i = i + 1;
        }
        let ghost added = item@;
        assert(i < done.len() ==> precedes(added, done[i as int]));
        r.insert(i, item);
        proof {
            assert(views(r@) =~= done.insert(i as int, added));
            done.to_multiset_ensures();
            assert(done.insert(i as int, added).to_multiset() =~= done.to_multiset().insert(added)) by {
                vstd::seq_lib::to_multiset_insert(done, i as int, added);
            }
            assert(views(r@).to_multiset().add(views(rest@).to_multiset()) =~= all);
            let after = views(r@);
            assert forall|a: int, b: int| 0 <= a < b < after.len() implies !precedes(
                #[trigger] after[b],
                #[trigger] after[a],
            ) by {
                let from = if a < i {
                    a
                } else {
                    a - 1
                };
                let to = if b < i {
                    b
                } else {
                    b - 1
                };
                if a == i {
                    if precedes(done[b - 1], added) {
                        lemma_precedes_is_transitive(done[b - 1], added, done[i as int]);
                        if b - 1 > i {
                            assert(!precedes(done[b - 1], done[i as int]));
                        } else {
                            lemma_precedes_is_strict(done[i as int]);
                        }
                    }
                } else if b == i {
                    assert(!precedes(added, done[a]));
                } else {
                    assert(!precedes(done[to], done[from]));
                }
            }
        }
    }
    proof {
        assert(views(rest@) =~= Seq::empty());
        views(rest@).to_multiset_ensures();
        assert(views(rest@).to_multiset() =~= vstd::multiset::Multiset::empty());
        assert(views(r@).to_multiset() =~= all);
    }
    r
}

/// The digits of an unsigned number; a plus sign before them does not count.
pub open spec fn unsigned_digits(s: Seq<char>) -> Seq<char> {
    if s.len() > 1 && s[0] == '+' {
        s.skip(1)
    } else {
        s
    }
}

/// The 32 bit number that a text stands for.
pub open spec fn number_of(s: Seq<char>) -> Option<int> {
    let digits = unsigned_digits(s);
    if digits.len() > 0 && all_digits(digits) && decimal(digits) <= u32::MAX {
        Some(decimal(digits))
    } else {
        None
    }
}

/// Reads a 32 bit number.
pub fn parse_number(s: &[char]) -> (r: Option<u32>)
    ensures
        match r {
            Some(n) => number_of(s@) == Some(n as int),
            None => number_of(s@) is None,
        },
{
    let start: usize = if s.len() > 1 && s[0] == '+' {
        1
    } else {
        0
    };
    let digits = part(s, start, s.len());
    assert(digits@ =~= unsigned_digits(s@));
    match parse_decimal(digits.as_slice(), 0xffff_ffff) {
        Some(n) => Some(n as u32),
        None => None,
    }
}

} // verus!
