//! Texts: searching, splitting, trimming, folding and numbers.
use crate::digest::hex_of;
use crate::text::{
    decimal, decimal_text, is_control, is_digest, is_digit, is_hex_digit, is_space, joined,
    law_decimal_round_trip, lemma_pieces_append, lemma_pieces_not_empty, lines_of, lowercase,
    number_of, occurs, occurs_at, pieces, precedes, replaced, same_folded, split_once, trimmed,
    words_of, Letter,
};
use vstd::prelude::*;

verus! {

/// The sixteen hexadecimal digits, and no other characters, stand in a digest, in
/// either case; it has 64 of them.
pub proof fn law_digest_is_64_hexadecimal_digits(s: Seq<char>)
    ensures
        is_digest(s) <==> s.len() == 64 && forall|i: int|
            0 <= i < s.len() ==> "0123456789abcdefABCDEF"@.contains(#[trigger] s[i]),
{
    reveal_strlit("0123456789abcdefABCDEF");
    let digits = "0123456789abcdefABCDEF"@;
    assert forall|c: char| #[trigger] is_hex_digit(c) <==> digits.contains(c) by {
        if is_hex_digit(c) {
            let n = c as u32;
            let k: int = if n <= 57 {
                n - 48
            } else if n >= 97 {
                n - 87
            } else {
                n - 49
            };
            assert(0 <= k < 22);
            assert(digits[k] == c);
        }
    }
    if is_digest(s) {
        assert forall|i: int| 0 <= i < s.len() implies digits.contains(#[trigger] s[i]) by {
            assert(is_hex_digit(s[i]));
        }
    }
    if s.len() == 64 && forall|i: int| 0 <= i < s.len() ==> digits.contains(#[trigger] s[i]) {
        assert forall|i: int| 0 <= i < s.len() implies is_hex_digit(#[trigger] s[i]) by {
            assert(digits.contains(s[i]));
        }
    }
}

/// Bytes in hexadecimal: the upper half of each byte comes first.
pub proof fn law_bytes_in_hexadecimal(data: Seq<u8>, i: int)
    requires
        0 <= i < data.len(),
    ensures
        hex_of(data).len() == 2 * data.len(),
        hex_of(data)[2 * i] == "0123456789abcdef"@[data[i] as int / 16],
        hex_of(data)[2 * i + 1] == "0123456789abcdef"@[data[i] as int % 16],
{
    reveal_strlit("0123456789abcdef");
    let high = data[i] as int / 16;
    let low = data[i] as int % 16;
    assert((2 * i) / 2 == i && (2 * i) % 2 == 0);
    assert((2 * i + 1) / 2 == i && (2 * i + 1) % 2 == 1);
    assert(0 <= high < 16 && 0 <= low < 16);
}

/// Whatever digest a file has, its hexadecimal form is accepted as one.
pub proof fn law_every_digest_is_accepted(bytes: Seq<u8>)
    requires
        bytes.len() == 32,
    ensures
        is_digest(hex_of(bytes)),
{
    let s = hex_of(bytes);
    reveal_strlit("0123456789abcdef");
    assert forall|k: int| 0 <= k < s.len() implies is_hex_digit(#[trigger] s[k]) by {
        law_bytes_in_hexadecimal(bytes, k / 2);
        let half = if k % 2 == 0 {
            bytes[k / 2] as int / 16
        } else {
            bytes[k / 2] as int % 16
        };
        assert(s[k] == "0123456789abcdef"@[half]);
        assert(0 <= half < 16);
    }
}

/// Digests are told apart by their hexadecimal forms.
pub proof fn law_hexadecimal_form_is_unique(a: Seq<u8>, b: Seq<u8>)
    requires
        hex_of(a) == hex_of(b),
    ensures
        a == b,
{
    assert(hex_of(a).len() == 2 * a.len());
    assert(hex_of(b).len() == 2 * b.len());
    reveal_strlit("0123456789abcdef");
    assert forall|i: int| 0 <= i < a.len() implies a[i] == b[i] by {
        law_bytes_in_hexadecimal(a, i);
        law_bytes_in_hexadecimal(b, i);
        let digits = "0123456789abcdef"@;
        assert(digits[a[i] as int / 16] == digits[b[i] as int / 16]);
        assert(digits[a[i] as int % 16] == digits[b[i] as int % 16]);
        assert(a[i] as int / 16 == b[i] as int / 16);
        assert(a[i] as int % 16 == b[i] as int % 16);
    }
    assert(a =~= b);
}

/// Folding turns each capital into its small letter and leaves all else alone.
pub proof fn law_capitals_are_folded(i: int, c: char)
    requires
        0 <= i < 26,
    ensures
        "ABCDEFGHIJKLMNOPQRSTUVWXYZ"@[i].lowered() == "abcdefghijklmnopqrstuvwxyz"@[i],
        !"ABCDEFGHIJKLMNOPQRSTUVWXYZ"@.contains(c) ==> c.lowered() == c,
{
    reveal_strlit("ABCDEFGHIJKLMNOPQRSTUVWXYZ");
    reveal_strlit("abcdefghijklmnopqrstuvwxyz");
    let capitals = "ABCDEFGHIJKLMNOPQRSTUVWXYZ"@;
    if 'A' <= c && c <= 'Z' {
        let k = c as u32 - 65;
        assert(capitals[k] == c);
    }
}

/// Folding bytes is folding the characters that they stand for.
pub proof fn law_bytes_fold_like_characters(b: u8)
    ensures
        (b as char).lowered() as u32 == b.lowered() as u32,
{
}

/// Texts that differ in case alone count as the same, and no others do.
pub proof fn law_case_is_all_that_is_disregarded(a: Seq<char>, b: Seq<char>)
    ensures
        same_folded(a, lowercase(a)),
        same_folded(a, b) <==> a.len() == b.len() && forall|i: int|
            0 <= i < a.len() ==> (#[trigger] a[i]).lowered() == b[i].lowered(),
{
    assert(lowercase(lowercase(a)) =~= lowercase(a)) by {
        assert forall|i: int| 0 <= i < a.len() implies a[i].lowered().lowered()
            == #[trigger] a[i].lowered() by {}
    }
    if same_folded(a, b) {
        assert(lowercase(a).len() == lowercase(b).len());
        assert forall|i: int| 0 <= i < a.len() implies (#[trigger] a[i]).lowered()
            == b[i].lowered() by {
            assert(lowercase(a)[i] == lowercase(b)[i]);
        }
    }
    if a.len() == b.len() && forall|i: int|
        0 <= i < a.len() ==> (#[trigger] a[i]).lowered() == b[i].lowered() {
        assert(lowercase(a) =~= lowercase(b));
    }
}

/// Blanks, tabs and line ends are white space; what is visible on an English keyboard
/// is not, nor is it a control code.
pub proof fn law_white_space(c: char)
    ensures
        c == ' ' || c == '\t' || c == '\n' || c == '\r' ==> is_space(c),
        '!' <= c && c <= '~' ==> !is_space(c) && !is_control(c),
        c == '\u{a0}' || c == '\u{3000}' || c == '\u{2003}' || c == '\u{85}' ==> is_space(c),
        (c as u32) < 32 || c as u32 == 127 || 128 <= c as u32 <= 159 ==> is_control(c),
        c as u32 == 32 || c as u32 >= 160 ==> !is_control(c),
        c == '\u{200b}' || c == '\u{feff}' ==> !is_space(c),
{
}

pub open spec fn all_spaces(s: Seq<char>) -> bool {
    forall|i: int| 0 <= i < s.len() ==> is_space(#[trigger] s[i])
}

/// Trimming takes all the white space from both ends and nothing else.
pub proof fn law_only_white_space_is_trimmed(before: Seq<char>, text: Seq<char>, after: Seq<char>)
    requires
        all_spaces(before),
        all_spaces(after),
        text.len() > 0 ==> !is_space(text[0]) && !is_space(text.last()),
    ensures
        trimmed(before + text + after) == text,
    decreases before.len() + after.len(),
{
    let s = before + text + after;
    if before.len() > 0 {
        assert(is_space(before[0]));
        assert(s.skip(1) =~= before.skip(1) + text + after);
        assert forall|i: int| 0 <= i < before.skip(1).len() implies is_space(
            #[trigger] before.skip(1)[i],
        ) by {
            assert(is_space(before[i + 1]));
        }
        law_only_white_space_is_trimmed(before.skip(1), text, after);
    } else if after.len() > 0 {
        assert(is_space(after.last()));
        assert(s.last() == after.last());
        assert(s.drop_last() =~= before + text + after.drop_last());
        assert forall|i: int| 0 <= i < after.drop_last().len() implies is_space(
            #[trigger] after.drop_last()[i],
        ) by {
            assert(is_space(after[i]));
        }
        law_only_white_space_is_trimmed(before, text, after.drop_last());
        if text.len() == 0 {
            assert(is_space(after[0]));
            assert(s.skip(1) =~= before + text + after.skip(1));
            assert forall|i: int| 0 <= i < after.skip(1).len() implies is_space(
                #[trigger] after.skip(1)[i],
            ) by {
                assert(is_space(after[i + 1]));
            }
            law_only_white_space_is_trimmed(before, text, after.skip(1));
        } else {
            assert(s[0] == text[0]);
        }
    } else {
        assert(s =~= text);
    }
}

/// The pieces of a text hold no separator, and put together again they are the text.
pub proof fn law_pieces_make_up_the_text<T>(s: Seq<T>, separator: T)
    ensures
        pieces(s, separator).len() >= 1,
        joined(pieces(s, separator), seq![separator]) == s,
        forall|i: int|
            0 <= i < pieces(s, separator).len() ==> !(#[trigger] pieces(s, separator)[i]).contains(
                separator,
            ),
    decreases s.len(),
{
    lemma_pieces_not_empty(s, separator);
    if s.len() > 0 {
        let front = s.drop_last();
        let before = pieces(front, separator);
        law_pieces_make_up_the_text(front, separator);
        let all = pieces(s, separator);
        if s.last() == separator {
            assert(all.drop_last() =~= before);
            assert(joined(all, seq![separator]) =~= front + seq![separator]);
            assert(front + seq![separator] =~= s);
            assert forall|i: int| 0 <= i < all.len() implies !(#[trigger] all[i]).contains(
                separator,
            ) by {
                if i < before.len() {
                    assert(!before[i].contains(separator));
                }
            }
        } else {
            let last = before.last();
            assert(all.last() == last.push(s.last()));
            if before.len() > 1 {
                assert(all.drop_last() =~= before.drop_last());
            }
            assert(joined(all, seq![separator]) =~= joined(before, seq![separator]).push(s.last()));
            assert(front.push(s.last()) =~= s);
            assert forall|i: int| 0 <= i < all.len() implies !(#[trigger] all[i]).contains(
                separator,
            ) by {
                assert(!before[i].contains(separator));
                if i == before.len() - 1 && all[i].contains(separator) {
                    let k = choose|k: int| 0 <= k < all[i].len() && all[i][k] == separator;
                    if k < last.len() {
                        assert(last[k] == separator);
                    }
                }
            }
        }
    }
}

/// A text is split at the first separator.
pub proof fn law_text_is_split_at_the_first_separator<T>(
    before: Seq<T>,
    after: Seq<T>,
    separator: T,
)
    requires
        !before.contains(separator),
    ensures
        split_once(before + seq![separator] + after, separator) == Some((before, after)),
        split_once(before, separator) is None,
{
    let s = before + seq![separator] + after;
    let n = before.len() as int;
    assert(s[n] == separator);
    s.index_of_first_ensures(separator);
    let k = s.index_of_first(separator)->0;
    assert(k == n) by {
        if k < n {
            assert(before[k] == s[k]);
            assert(before.contains(separator));
        }
    }
    assert(s.take(n) =~= before);
    assert(s.skip(n + 1) =~= after);
}

/// A text occurs in whatever is written around it.
pub proof fn law_text_is_found<T>(before: Seq<T>, text: Seq<T>, after: Seq<T>)
    ensures
        occurs(before + text + after, text),
{
    let s = before + text + after;
    assert(s.subrange(before.len() as int, before.len() as int + text.len() as int) =~= text);
    assert(occurs_at(s, text, before.len() as int));
}

/// Where a text occurs, the whole is made of what stands before it, the text, and what
/// stands after it.
pub proof fn law_found_text_is_there<T>(s: Seq<T>, text: Seq<T>) -> (parts: (Seq<T>, Seq<T>))
    requires
        occurs(s, text),
    ensures
        s == parts.0 + text + parts.1,
{
    let i = choose|i: int| #[trigger] occurs_at(s, text, i);
    let parts = (s.take(i), s.skip(i + text.len()));
    assert(s =~= parts.0 + s.subrange(i, i + text.len()) + parts.1);
    parts
}

/// Replacing changes nothing where there is nothing to replace.
pub proof fn law_nothing_else_is_replaced<T>(s: Seq<T>, from: Seq<T>, to: Seq<T>)
    requires
        !occurs(s, from),
    ensures
        replaced(s, from, to) == s,
    decreases s.len(),
{
    if s.len() > 0 {
        assert(!occurs_at(s, from, 0));
        let rest = s.skip(1);
        assert(!occurs(rest, from)) by {
            if occurs(rest, from) {
                let i = choose|i: int| #[trigger] occurs_at(rest, from, i);
                assert(s.subrange(i + 1, i + 1 + from.len()) =~= rest.subrange(i, i + from.len()));
                assert(occurs_at(s, from, i + 1));
            }
        }
        law_nothing_else_is_replaced(rest, from, to);
        assert(seq![s[0]] + rest =~= s);
    }
}

/// The first occurrence is replaced, and then the others after it.
pub proof fn law_occurrences_are_replaced<T>(
    before: Seq<T>,
    from: Seq<T>,
    after: Seq<T>,
    to: Seq<T>,
)
    requires
        from.len() > 0,
        forall|i: int| 0 <= i < before.len() ==> !#[trigger] occurs_at(before + from + after, from, i),
    ensures
        replaced(before + from + after, from, to) == before + to + replaced(after, from, to),
    decreases before.len(),
{
    let s = before + from + after;
    if before.len() == 0 {
        assert(s.subrange(0, from.len() as int) =~= from);
        assert(occurs_at(s, from, 0));
        assert(s.skip(from.len() as int) =~= after);
        assert(before + to + replaced(after, from, to) =~= to + replaced(after, from, to));
    } else {
        assert(!occurs_at(s, from, 0));
        let rest = before.skip(1);
        assert(s.skip(1) =~= rest + from + after);
        assert forall|i: int| 0 <= i < rest.len() implies !#[trigger] occurs_at(
            rest + from + after,
            from,
            i,
        ) by {
            if occurs_at(rest + from + after, from, i) {
                assert(s.subrange(i + 1, i + 1 + from.len()) =~= (rest + from + after).subrange(
                    i,
                    i + from.len(),
                ));
                assert(occurs_at(s, from, i + 1));
            }
        }
        law_occurrences_are_replaced(rest, from, after, to);
        assert(seq![s[0]] + (rest + to + replaced(after, from, to)) =~= before + to + replaced(
            after,
            from,
            to,
        ));
    }
}

/// A line ends at a line feed, before which one carriage return does not count; what
/// follows the last line feed is a line only when it holds something.
pub proof fn law_lines_end_at_line_feeds(before: Seq<char>, line: Seq<char>)
    requires
        !line.contains('\n'),
        before.len() > 0 ==> before.last() == '\n',
    ensures
        line.len() > 0 ==> lines_of(before + line) == lines_of(before).push(line),
        line.len() > 0 && line.last() != '\r' ==> lines_of(before + line + seq!['\n'])
            == lines_of(before).push(line) && lines_of(before + line + seq!['\r', '\n'])
            == lines_of(before).push(line),
        lines_of(before + seq!['\n']) == lines_of(before).push(Seq::empty()),
        lines_of(Seq::empty()) == Seq::<Seq<char>>::empty(),
{
    lemma_pieces_append(before, line, '\n');
    let parts = pieces(before, '\n');
    assert(parts.last().len() == 0) by {
        if before.len() > 0 {
            assert(parts.last() == Seq::<char>::empty());
        }
    }
    assert(pieces(Seq::<char>::empty(), '\n').last().len() == 0);
    assert(lines_of(Seq::empty()) =~= Seq::<Seq<char>>::empty());
    let whole = pieces(before + line, '\n');
    assert(parts.last() + line =~= line);
    assert(whole.last() == line);
    if line.len() > 0 {
        assert(lines_of(before + line) =~= lines_of(before).push(line));
    }
    let ended = before + line + seq!['\n'];
    assert(ended.drop_last() =~= before + line);
    assert(pieces(ended, '\n') == whole.push(Seq::empty()));
    if line.len() > 0 && line.last() != '\r' {
        assert(lines_of(ended) =~= lines_of(before).push(line));
        let more = line.push('\r');
        assert(!more.contains('\n')) by {
            if more.contains('\n') {
                let k = choose|k: int| 0 <= k < more.len() && more[k] == '\n';
                assert(line[k] == '\n');
            }
        }
        lemma_pieces_append(before, more, '\n');
        let returned = before + line + seq!['\r', '\n'];
        assert(returned.drop_last() =~= before + more);
        assert(parts.last() + more =~= more);
        assert(pieces(returned, '\n') == pieces(before + more, '\n').push(Seq::empty()));
        assert(more.drop_last() =~= line);
        assert(lines_of(returned) =~= lines_of(before).push(line));
    }
    let blank = before + seq!['\n'];
    assert(blank.drop_last() =~= before);
    assert(pieces(blank, '\n') == parts.push(Seq::empty()));
    assert(lines_of(blank) =~= lines_of(before).push(Seq::empty()));
}

/// Words stand between white space: each is kept whole, and nothing else is.
pub proof fn law_words_stand_between_white_space(before: Seq<char>, space: char, word: Seq<char>)
    requires
        is_space(space),
        word.len() > 0,
        forall|i: int| 0 <= i < word.len() ==> !is_space(#[trigger] word[i]),
    ensures
        words_of(before + seq![space]) == words_of(before),
        words_of(before + seq![space] + word) == words_of(before).push(word),
        words_of(word) == seq![word],
    decreases word.len(),
{
    assert((before + seq![space]).drop_last() =~= before);
    let s = before + seq![space] + word;
    let head = word.drop_last();
    assert(s.drop_last() =~= before + seq![space] + head);
    assert(!is_space(word.last()));
    assert(s.last() == word.last());
    if word.len() == 1 {
        assert(word =~= seq![word.last()]);
        assert(s.drop_last() =~= before + seq![space]);
        assert(s[s.len() - 2] == space);
        assert(word.drop_last() =~= Seq::empty());
        assert(words_of(word.drop_last()) =~= Seq::empty());
        assert(words_of(word) == words_of(word.drop_last()).push(seq![word.last()]));
        assert(words_of(word) =~= seq![word]);
    } else {
        assert forall|i: int| 0 <= i < head.len() implies !is_space(#[trigger] head[i]) by {
            assert(!is_space(word[i]));
        }
        law_words_stand_between_white_space(before, space, head);
        assert(s[s.len() - 2] == word[word.len() - 2]);
        assert(!is_space(word[word.len() - 2]));
        assert(head.push(word.last()) =~= word);
        assert(words_of(s) =~= words_of(before).push(word));
        assert(words_of(head) == seq![head]);
        assert(words_of(word) == words_of(head).update(0, head.push(word.last())));
        let all = words_of(word);
        assert(all.len() == 1);
        assert(all[0] == word);
        assert(all =~= seq![word]);
    }
}

/// Byte strings are ordered at their first difference, and a beginning comes before
/// what it begins.
pub proof fn law_order_of_byte_strings(start: Seq<u8>, x: u8, a: Seq<u8>, y: u8, b: Seq<u8>)
    requires
        x < y,
    ensures
        precedes(start + seq![x] + a, start + seq![y] + b),
        !precedes(start + seq![y] + b, start + seq![x] + a),
        precedes(start, start + seq![x] + a),
        !precedes(start + seq![x] + a, start),
    decreases start.len(),
{
    let lower = start + seq![x] + a;
    let upper = start + seq![y] + b;
    if start.len() > 0 {
        law_order_of_byte_strings(start.skip(1), x, a, y, b);
        assert(lower.skip(1) =~= start.skip(1) + seq![x] + a);
        assert(upper.skip(1) =~= start.skip(1) + seq![y] + b);
        assert(lower[0] == start[0] && upper[0] == start[0]);
    }
}

/// The ten digits count, in this order.
pub proof fn law_decimal_digits(s: Seq<char>, d: int)
    requires
        0 <= d < 10,
    ensures
        decimal(s.push("0123456789"@[d])) == 10 * decimal(s) + d,
        decimal(Seq::empty()) == 0,
        is_digit("0123456789"@[d]),
        decimal_text(d) == seq!["0123456789"@[d]],
{
    reveal_strlit("0123456789");
    let t = s.push("0123456789"@[d]);
    assert(t.drop_last() =~= s);
}

/// Nothing but the ten digits is a digit.
pub proof fn law_digits_are_these_ten(c: char)
    ensures
        is_digit(c) <==> "0123456789"@.contains(c),
{
    reveal_strlit("0123456789");
    if is_digit(c) {
        let k = c as u32 - 48;
        assert("0123456789"@[k] == c);
    }
}

/// A number in decimal digits is read as that number up to the largest of 32 bits,
/// with a plus sign before it too, and not beyond.
pub proof fn law_numbers_are_read(n: int)
    requires
        0 <= n,
    ensures
        n <= 4294967295 ==> number_of(decimal_text(n)) == Some(n) && number_of(
            seq!['+'] + decimal_text(n),
        ) == Some(n),
        n > 4294967295 ==> number_of(decimal_text(n)) is None,
        number_of(Seq::empty()) is None,
        number_of(seq!['+']) is None,
        number_of(seq!['-'] + decimal_text(n)) is None,
{
    law_decimal_round_trip(n);
    let s = decimal_text(n);
    assert(is_digit(s[0]));
    let plus = seq!['+'] + s;
    assert(plus.skip(1) =~= s);
    let minus = seq!['-'] + s;
    assert(minus[0] == '-');
    assert(!is_digit(minus[0]));
    let lone = seq!['+'];
    assert(!is_digit(lone[0]));
}

/// White space is these characters and no others.
pub proof fn law_all_white_space(c: char)
    ensures
        is_space(c) <==> seq![
            '\u{9}',
            '\u{a}',
            '\u{b}',
            '\u{c}',
            '\u{d}',
            '\u{20}',
            '\u{85}',
            '\u{a0}',
            '\u{1680}',
            '\u{2000}',
            '\u{2001}',
            '\u{2002}',
            '\u{2003}',
            '\u{2004}',
            '\u{2005}',
            '\u{2006}',
            '\u{2007}',
            '\u{2008}',
            '\u{2009}',
            '\u{200a}',
            '\u{2028}',
            '\u{2029}',
            '\u{202f}',
            '\u{205f}',
            '\u{3000}',
        ].contains(c),
{
    let all = seq![
        '\u{9}',
        '\u{a}',
        '\u{b}',
        '\u{c}',
        '\u{d}',
        '\u{20}',
        '\u{85}',
        '\u{a0}',
        '\u{1680}',
        '\u{2000}',
        '\u{2001}',
        '\u{2002}',
        '\u{2003}',
        '\u{2004}',
        '\u{2005}',
        '\u{2006}',
        '\u{2007}',
        '\u{2008}',
        '\u{2009}',
        '\u{200a}',
        '\u{2028}',
        '\u{2029}',
        '\u{202f}',
        '\u{205f}',
        '\u{3000}',
    ];
    if is_space(c) {
        let n = c as u32;
        let k: int = if n <= 0xd {
            n - 9
        } else if n == 0x20 {
            5
        } else if n == 0x85 {
            6
        } else if n == 0xa0 {
            7
        } else if n == 0x1680 {
            8
        } else if n <= 0x200a {
            n - 0x2000 + 9
        } else if n == 0x2028 {
            20
        } else if n == 0x2029 {
            21
        } else if n == 0x202f {
            22
        } else if n == 0x205f {
            23
        } else {
            24
        };
        assert(all[k] == c);
    }
}

} // verus!
