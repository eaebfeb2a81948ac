//! Text in 16 bit units, as Windows takes and gives it.
use crate::text::{letters, replace, replaced, text_of};
use vstd::prelude::*;

verus! {

/// A number that is a character: neither too large nor one of those that UTF-16 keeps
/// for itself.
pub open spec fn is_character(n: u32) -> bool {
    n <= 0xd7ff || 0xe000 <= n <= 0x10ffff
}

/// `char::from_u32`: the character of a number, if it is one.
pub assume_specification[ char::from_u32 ](n: u32) -> (r: Option<char>)
    ensures
        match r {
            Some(c) => is_character(n) && c as u32 == n,
            None => !is_character(n),
        },
;

/// The units of a character: one, or two when it does not fit.
pub open spec fn units_of(c: char) -> Seq<u16> {
    let n = c as u32;
    if n < 0x1_0000 {
        seq![n as u16]
    } else {
        seq![
            (0xd800 + (n - 0x1_0000) / 0x400) as u16,
            (0xdc00 + (n - 0x1_0000) % 0x400) as u16,
        ]
    }
}

/// The units of a text.
pub open spec fn utf16_of(s: Seq<char>) -> Seq<u16>
    decreases s.len(),
{
    if s.len() == 0 {
        Seq::empty()
    } else {
        utf16_of(s.drop_last()) + units_of(s.last())
    }
}

/// The first of two units that belong together.
pub open spec fn is_high(unit: u16) -> bool {
    0xd800 <= unit <= 0xdbff
}

/// The second of two units that belong together.
pub open spec fn is_low(unit: u16) -> bool {
    0xdc00 <= unit <= 0xdfff
}

/// The number of the character that two units encode.
pub open spec fn paired(high: u16, low: u16) -> u32 {
    (0x1_0000 + (high - 0xd800) * 0x400 + (low - 0xdc00)) as u32
}

/// The text that units encode; there is none when one of two units that belong
/// together is alone.
pub open spec fn text_from(units: Seq<u16>) -> Option<Seq<char>>
    decreases units.len(),
{
    if units.len() == 0 {
        Some(Seq::empty())
    } else if is_high(units[0]) {
        if units.len() > 1 && is_low(units[1]) {
            match text_from(units.skip(2)) {
                Some(rest) => Some(
                    seq![paired(units[0], units[1]) as char] + rest,
                ),
                None => None,
            }
        } else {
            None
        }
    } else if is_low(units[0]) {
        None
    } else {
        match text_from(units.skip(1)) {
            Some(rest) => Some(seq![(units[0] as u32) as char] + rest),
            None => None,
        }
    }
}

/// The units of a text.
pub fn encode_utf16(text: &str) -> (r: Vec<u16>)
    ensures
        r@ == utf16_of(text@),
{
    let s = letters(text);
    let mut r: Vec<u16> = Vec::new();
    let mut i: usize = 0;
    assert(s@.take(0) =~= Seq::empty());
    while i < s.len()
        invariant
            i <= s@.len(),
            r@ == utf16_of(s@.take(i as int)),
        decreases s@.len() - i,
    {
        assert(s@.take(i + 1).drop_last() =~= s@.take(i as int));
        let n: u32 = s[i] as u32;
        if n < 0x1_0000 {
            r.push(n as u16);
        } else {
            r.push((0xd800 + (n - 0x1_0000) / 0x400) as u16);
            r.push((0xdc00 + (n - 0x1_0000) % 0x400) as u16);
        }
        assert(r@ =~= utf16_of(s@.take(i as int)) + units_of(s@[i as int]));
        i = i + 1;
    }
    assert(s@.take(i as int) =~= s@);
    r
}

/// The text that units encode.
pub fn decode_utf16(units: &[u16]) -> (r: Option<String>)
    ensures
        match r {
            Some(text) => text_from(units@) == Some(text@),
            None => text_from(units@) is None,
        },
{
    let mut done: Vec<char> = Vec::new();
    let mut i: usize = 0;
    let ghost whole = text_from(units@);
    assert(units@.skip(0) =~= units@);
    proof {
        if let Some(all) = whole {
            assert(Seq::<char>::empty() + all =~= all);
        }
    }
    while i < units.len()
        invariant
            i <= units@.len(),
            whole == text_from(units@),
            match text_from(units@.skip(i as int)) {
                Some(rest) => whole == Some(done@ + rest),
                None => whole is None,
            },
        decreases units@.len() - i,
    {
        let ghost rest = units@.skip(i as int);
        let ghost before = done@;
        let unit: u16 = units[i];
        if 0xd800 <= unit && unit <= 0xdbff {
            if units.len() - i < 2 {
                return None;
            }
            let other: u16 = units[i + 1];
            if !(0xdc00 <= other && other <= 0xdfff) {
                return None;
            }
            let n: u32 = 0x1_0000 + (unit as u32 - 0xd800) * 0x400 + (other as u32 - 0xdc00);
            match char::from_u32(n) {
                Some(c) => {
                    assert(rest.skip(2) =~= units@.skip(i + 2));
                    proof {
                        vstd::utf8::char_u32_cast(c, paired(rest[0], rest[1]));
                    }
                    done.push(c);
                    proof {
                        if let Some(tail) = text_from(units@.skip(i + 2)) {
                            assert(done@ + tail =~= before + (seq![c] + tail));
                        }
                    }
                    i = i + 2;
                },
                None => {
                    return None;
                },
            }
        } else if 0xdc00 <= unit && unit <= 0xdfff {
            return None;
        } else {
            match char::from_u32(unit as u32) {
                Some(c) => {
                    assert(rest.skip(1) =~= units@.skip(i + 1));
                    proof {
                        vstd::utf8::char_u32_cast(c, rest[0] as u32);
                    }
                    done.push(c);
                    proof {
                        if let Some(tail) = text_from(units@.skip(i + 1)) {
                            assert(done@ + tail =~= before + (seq![c] + tail));
                        }
                    }
                    i = i + 1;
                },
                None => {
                    return None;
                },
            }
        }
    }
    assert(units@.skip(i as int) =~= Seq::empty());
    assert(done@ + Seq::<char>::empty() =~= done@);
    Some(text_of(done.as_slice()))
}

proof fn lemma_units_are_read(c: char, rest: Seq<u16>)
    ensures
        text_from(units_of(c) + rest) == match text_from(rest) {
            Some(text) => Some(seq![c] + text),
            None => None,
        },
{
    let n = c as u32;
    let all = units_of(c) + rest;
    if n < 0x1_0000 {
        assert(all.skip(1) =~= rest);
        assert(all[0] == n as u16);
        vstd::utf8::char_u32_cast(c, all[0] as u32);
    } else {
        assert(all.skip(2) =~= rest);
        let k = n - 0x1_0000;
        assert(all[0] == (0xd800 + k / 0x400) as u16);
        assert(all[1] == (0xdc00 + k % 0x400) as u16);
        assert(k / 0x400 <= 0x3ff);
        assert(paired(all[0], all[1]) == n);
        vstd::utf8::char_u32_cast(c, paired(all[0], all[1]));
    }
}

proof fn lemma_text_returns(s: Seq<char>, rest: Seq<u16>)
    ensures
        text_from(utf16_of(s) + rest) == match text_from(rest) {
            Some(text) => Some(s + text),
            None => None,
        },
    decreases s.len(),
{
    if s.len() == 0 {
        assert(utf16_of(s) + rest =~= rest);
        if let Some(text) = text_from(rest) {
            assert(s + text =~= text);
        }
    } else {
        let head = s.drop_last();
        assert(utf16_of(s) + rest =~= utf16_of(head) + (units_of(s.last()) + rest));
        lemma_units_are_read(s.last(), rest);
        lemma_text_returns(head, units_of(s.last()) + rest);
        if let Some(text) = text_from(rest) {
            assert(head + (seq![s.last()] + text) =~= s + text);
        }
    }
}

/// Every text comes back from its units.
pub proof fn law_units_are_read_back(s: Seq<char>)
    ensures
        text_from(utf16_of(s)) == Some(s),
{
    lemma_text_returns(s, Seq::empty());
    assert(utf16_of(s) + Seq::<u16>::empty() =~= utf16_of(s));
    assert(s + Seq::<char>::empty() =~= s);
}

/// A text for Windows: without zero characters, and with one at its end.
pub fn wide_text(text: &str) -> (r: Vec<u16>)
    ensures
        r@ == utf16_of(replaced(text@, seq!['\0'], seq![' '])).push(0),
{
    let clean = replace(letters(text).as_slice(), ['\0'].as_slice(), [' '].as_slice());
    assert(['\0']@ =~= seq!['\0']);
    assert([' ']@ =~= seq![' ']);
    let mut units = encode_utf16(text_of(clean.as_slice()).as_str());
    units.push(0);
    units
}

} // verus!
