//! What holds on Windows: its paths, its texts, and where the game is there.
use crate::digest::hex_of;
use crate::laws::text::{all_spaces, law_bytes_in_hexadecimal};
use crate::process_windows::{
    game_candidates, game_in, hex_digits, launcher_directory, log_in, path_entries, path_entry,
    picked_path, present, quote_end, resolved, space_end, steam_root_of, until_zero, Picked,
    SelectError,
};
use crate::text::{is_space, occurs_at, replaced};
use crate::wide::{text_from, units_of, utf16_of};
use crate::windows_paths::{
    body_start, filled, is_rooted, join_of, join_on, lined_up, name_of, next_separator, parent_of,
    parent_on, parts_of, prefix_length, prefix_of, renamed, tail, tail_start, volume_of, walked,
    without_end, Prefix,
};
use vstd::prelude::*;
use vstd::utf8::{encode_utf8, is_ascii_chars};

verus! {

/// A path on a drive, from its root on: a letter, a colon and a backslash come first.
pub open spec fn is_on_a_drive(p: Seq<u8>) -> bool {
    p.len() >= 3 && (65 <= p[0] <= 90 || 97 <= p[0] <= 122) && p[1] == 58 && p[2] == 92
}

/// The name of one file or directory.
pub open spec fn is_windows_name(name: Seq<u8>) -> bool {
    &&& name.len() > 0
    &&& forall|i: int|
        0 <= i < name.len() ==> #[trigger] name[i] != 47 && name[i] != 92 && name[i] != 58
    &&& name != seq![46u8]
    &&& name != seq![46u8, 46u8]
}

/// A directory on a drive, written without a separator at its end unless it is the root,
/// and without a last component that is a dot.
pub open spec fn is_plain_directory(p: Seq<u8>) -> bool {
    &&& is_on_a_drive(p)
    &&& without_end(p, 3, false) == p
}

proof fn lemma_drive(p: Seq<u8>)
    requires
        is_on_a_drive(p),
    ensures
        prefix_of(p) == Prefix::Drive,
        prefix_length(p) == 2,
        is_rooted(p),
        body_start(p) == 3,
        volume_of(p) == Some(p.take(2)),
{
}

proof fn lemma_plain_more(more: Seq<u8>)
    requires
        more.len() > 0,
        more[0] != 47,
        more[0] != 92,
        more.len() > 1 ==> more[1] != 58,
    ensures
        prefix_of(more) == Prefix::Nothing,
        !is_rooted(more),
{
}

proof fn lemma_tail_of_name(head: Seq<u8>, name: Seq<u8>, from: int)
    requires
        forall|i: int| 0 <= i < name.len() ==> #[trigger] name[i] != 47 && name[i] != 92,
        0 <= from <= head.len(),
        head.len() == from || head.last() == 92,
    ensures
        tail_start(head + name, from, false) == head.len(),
    decreases name.len(),
{
    if name.len() == 0 {
        assert(head + name =~= head);
    } else {
        let rest = name.drop_last();
        assert forall|i: int| 0 <= i < rest.len() implies #[trigger] rest[i] != 47 && rest[i]
            != 92 by {
            assert(name[i] != 47);
        }
        assert(name[name.len() - 1] != 47);
        assert((head + name).drop_last() =~= head + rest);
        assert((head + name).last() == name.last());
        lemma_tail_of_name(head, rest, from);
    }
}

/// A file in a directory of a drive is written behind a backslash; its name and its
/// directory can be read off again.
pub proof fn law_windows_paths_come_apart(directory: Seq<u8>, name: Seq<u8>)
    requires
        is_plain_directory(directory),
        is_windows_name(name),
    ensures
        join_of(directory, name) == (if directory.len() == 3 {
            directory + name
        } else {
            directory + seq![92u8] + name
        }),
        is_plain_directory(join_of(directory, name)),
        name_of(join_of(directory, name)) == Some(name),
        parent_of(join_of(directory, name)) == Some(directory),
{
    lemma_drive(directory);
    assert(name[0] != 47);
    if name.len() > 1 {
        assert(name[1] != 58);
    }
    lemma_plain_more(name);
    if directory.len() > 3 {
        let last = directory.last();
        if last == 47 || last == 92 {
            assert(tail(directory, 3, false).len() == 0);
            assert(without_end(directory, 3, false).len() <= directory.drop_last().len()) by {
                lemma_without_end_shrinks(directory.drop_last());
            }
        }
    }
    let whole = join_of(directory, name);
    let head = if directory.len() == 3 {
        directory
    } else {
        directory + seq![92u8]
    };
    assert(whole =~= head + name);
    assert(whole[0] == directory[0] && whole[1] == directory[1] && whole[2] == directory[2]);
    lemma_drive(whole);
    lemma_tail_of_name(head, name, 3);
    assert(tail(whole, 3, false) =~= name);
    assert(without_end(whole, 3, false) == whole);
    let cut = if head.len() > 3 {
        head.len() - 1
    } else {
        head.len() as int
    };
    assert(whole.take(cut) =~= directory);
}

proof fn lemma_without_end_shrinks(p: Seq<u8>)
    ensures
        without_end(p, 3, false).len() <= p.len(),
    decreases p.len(),
{
    if p.len() > 3 {
        lemma_without_end_shrinks(p.drop_last());
    }
}

/// Renaming a file leaves it in its directory, and its volume is its drive.
pub proof fn law_windows_files_are_renamed(directory: Seq<u8>, name: Seq<u8>, other: Seq<u8>)
    requires
        is_plain_directory(directory),
        is_windows_name(name),
        is_windows_name(other),
    ensures
        renamed(join_of(directory, name), other) == join_of(directory, other),
        volume_of(join_of(directory, name)) == Some(directory.take(2)),
{
    law_windows_paths_come_apart(directory, name);
    law_windows_paths_come_apart(directory, other);
    let whole = join_of(directory, name);
    lemma_drive(whole);
    assert(whole.take(2) =~= directory.take(2));
}

/// A path on a drive stands for itself wherever it is looked at from, and both
/// separators are understood.
pub proof fn law_windows_paths_from_a_drive(base: Seq<u8>, p: Seq<u8>)
    requires
        is_on_a_drive(p),
    ensures
        join_of(base, p) == p,
{
    lemma_drive(p);
}

/// A slash separates as a backslash does.
pub proof fn law_slash_separates_too(directory: Seq<u8>, name: Seq<u8>)
    requires
        is_plain_directory(directory),
        directory.len() > 3,
        is_windows_name(name),
    ensures
        name_of(directory + seq![47u8] + name) == Some(name),
        parent_of(directory + seq![47u8] + name) == Some(directory),
{
    let head = directory + seq![47u8];
    let whole = head + name;
    assert(whole =~= directory + seq![47u8] + name);
    assert(whole[0] == directory[0] && whole[1] == directory[1] && whole[2] == directory[2]);
    lemma_drive(whole);
    lemma_tail_behind_slash(head, name);
    assert(tail(whole, 3, false) =~= name);
    assert(without_end(whole, 3, false) == whole);
    assert(whole.take(head.len() - 1) =~= directory);
}

proof fn lemma_tail_behind_slash(head: Seq<u8>, name: Seq<u8>)
    requires
        forall|i: int| 0 <= i < name.len() ==> #[trigger] name[i] != 47 && name[i] != 92,
        head.len() > 3,
        head.last() == 47,
    ensures
        tail_start(head + name, 3, false) == head.len(),
    decreases name.len(),
{
    if name.len() == 0 {
        assert(head + name =~= head);
    } else {
        let rest = name.drop_last();
        assert forall|i: int| 0 <= i < rest.len() implies #[trigger] rest[i] != 47 && rest[i]
            != 92 by {
            assert(name[i] != 47);
        }
        assert(name[name.len() - 1] != 47);
        assert((head + name).drop_last() =~= head + rest);
        assert((head + name).last() == name.last());
        lemma_tail_behind_slash(head, rest);
    }
}

proof fn lemma_next_separator(p: Seq<u8>, i: int, n: int)
    requires
        0 <= i <= n <= p.len(),
        forall|k: int| i <= k < n ==> #[trigger] p[k] != 47 && p[k] != 92,
        n < p.len() ==> p[n] == 92,
    ensures
        next_separator(p, i, false) == n,
        next_separator(p, i, true) == n,
    decreases n - i,
{
    if i < n {
        assert(p[i] != 47);
        lemma_next_separator(p, i + 1, n);
    }
}

/// The name of a server or of a share.
pub open spec fn is_share_name(name: Seq<u8>) -> bool {
    name.len() > 0 && forall|i: int|
        0 <= i < name.len() ==> #[trigger] name[i] != 47 && name[i] != 92
}

/// A share on a server is a volume: two backslashes, the server, and the share. What
/// lies on it is looked at from it.
pub proof fn law_shares_are_volumes(server: Seq<u8>, share: Seq<u8>, rest: Seq<u8>)
    requires
        is_share_name(server),
        is_share_name(share),
        server != seq![63u8],
        server != seq![46u8],
        rest.len() > 0 ==> rest[0] == 92,
    ensures
        ({
            let volume = seq![92u8, 92u8] + server + seq![92u8] + share;
            &&& volume_of(volume + rest) == Some(volume)
            &&& join_of(Seq::empty(), volume + rest) == volume + rest
            &&& rest.len() <= 1 ==> parent_of(volume + rest) is None && name_of(volume + rest)
                is None
        }),
{
    let volume = seq![92u8, 92u8] + server + seq![92u8] + share;
    let p = volume + rest;
    let n = 2 + server.len();
    let m = n + 1 + share.len();
    assert(p[0] == 92 && p[1] == 92);
    assert(server[0] != 47 && share[0] != 47);
    assert forall|k: int| 2 <= k < n implies #[trigger] p[k] != 47 && p[k] != 92 by {
        assert(p[k] == server[k - 2]);
    }
    assert(p[n as int] == 92);
    lemma_next_separator(p, 2, n as int);
    assert forall|k: int| n + 1 <= k < m implies #[trigger] p[k] != 47 && p[k] != 92 by {
        assert(p[k] == share[k - n - 1]);
    }
    if rest.len() > 0 {
        assert(p[m as int] == rest[0]);
    }
    lemma_next_separator(p, n as int + 1, m as int);
    assert(p[2] == server[0]);
    if server.len() == 1 {
        assert(p[3] == 92);
        assert(server =~= seq![server[0]]);
    } else {
        assert(p[3] == server[1]);
    }
    assert(prefix_of(p) == Prefix::Share);
    assert(prefix_length(p) == m);
    assert(p.take(m as int) =~= volume);
}

/// The units before the first zero are the text; the rest of a buffer does not count.
pub proof fn law_text_ends_at_zero(units: Seq<u16>, rest: Seq<u16>)
    requires
        !units.contains(0),
    ensures
        until_zero(units) == units,
        until_zero(units + seq![0u16] + rest) == units,
    decreases units.len(),
{
    let whole = units + seq![0u16] + rest;
    if units.len() > 0 {
        assert(units.contains(units[0]));
        let tail = units.skip(1);
        assert forall|i: int| 0 <= i < tail.len() implies tail[i] != 0 by {
            assert(units.contains(units[i + 1]));
        }
        law_text_ends_at_zero(tail, rest);
        assert(whole.skip(1) =~= tail + seq![0u16] + rest);
        assert(seq![units[0]] + tail =~= units);
    } else {
        assert(whole[0] == 0);
        assert(until_zero(units) =~= units);
        assert(until_zero(whole) =~= units);
    }
}

proof fn lemma_own_units_are_no_zeros(c: char, i: int)
    requires
        c != '\0',
        0 <= i < units_of(c).len(),
    ensures
        units_of(c)[i] != 0,
{
    let n = c as u32;
    if n < 0x1_0000 {
        assert(units_of(c)[0] == n);
    } else {
        assert((n - 0x1_0000) / 0x400 <= 0x3ff);
        assert(units_of(c)[0] >= 0xd800);
        assert(units_of(c)[1] >= 0xdc00);
    }
}

proof fn lemma_units_hold_no_zero(s: Seq<char>)
    requires
        !s.contains('\0'),
    ensures
        !utf16_of(s).contains(0),
    decreases s.len(),
{
    if s.len() > 0 {
        let front = s.drop_last();
        assert forall|i: int| 0 <= i < front.len() implies front[i] != '\0' by {
            assert(s.contains(s[i]));
        }
        lemma_units_hold_no_zero(front);
        assert(s.contains(s.last()));
        let all = utf16_of(s);
        let before = utf16_of(front);
        let own = units_of(s.last());
        assert forall|i: int| 0 <= i < all.len() implies all[i] != 0 by {
            if i < before.len() {
                assert(before.contains(before[i]));
            } else {
                assert(all[i] == own[i - before.len()]);
                lemma_own_units_are_no_zeros(s.last(), i - before.len());
            }
        }
    }
}

/// The path that the player picked is taken from the start of the buffer, whatever
/// stands behind it.
pub proof fn law_picked_path_is_taken(path: Seq<char>, rest: Seq<u16>, picked: Picked)
    requires
        !path.contains('\0'),
        picked is Chosen,
        picked->buffer@ == utf16_of(path) + seq![0u16] + rest,
    ensures
        picked_path(picked) == Ok::<Seq<u8>, SelectError>(encode_utf8(path)),
{
    lemma_units_hold_no_zero(path);
    law_text_ends_at_zero(utf16_of(path), rest);
    crate::wide::law_units_are_read_back(path);
}

/// A picker that ended without a path failed, unless it says nothing: then nothing was
/// picked.
pub proof fn law_picker_without_a_path(code: u32)
    ensures
        picked_path(Picked::Ended { code }) == Err::<Seq<u8>, SelectError>(
            if code == 0 {
                SelectError::NothingSelected
            } else {
                SelectError::PickerFailed { code }
            },
        ),
{
}

/// The code of a failure is written with eight hexadecimal digits, the highest first.
pub proof fn law_codes_in_hexadecimal(n: u32)
    ensures
        hex_digits(n).len() == 8,
        hex_digits(n)[0] == "0123456789abcdef"@[n as int / 0x1000_0000],
        hex_digits(n)[1] == "0123456789abcdef"@[n as int / 0x100_0000 % 16],
        hex_digits(n)[2] == "0123456789abcdef"@[n as int / 0x10_0000 % 16],
        hex_digits(n)[3] == "0123456789abcdef"@[n as int / 0x1_0000 % 16],
        hex_digits(n)[4] == "0123456789abcdef"@[n as int / 0x1000 % 16],
        hex_digits(n)[5] == "0123456789abcdef"@[n as int / 0x100 % 16],
        hex_digits(n)[6] == "0123456789abcdef"@[n as int / 0x10 % 16],
        hex_digits(n)[7] == "0123456789abcdef"@[n as int % 16],
{
    let bytes = seq![
        (n / 0x100_0000) as u8,
        (n / 0x1_0000 % 0x100) as u8,
        (n / 0x100 % 0x100) as u8,
        (n % 0x100) as u8,
    ];
    law_bytes_in_hexadecimal(bytes, 0);
    law_bytes_in_hexadecimal(bytes, 1);
    law_bytes_in_hexadecimal(bytes, 2);
    law_bytes_in_hexadecimal(bytes, 3);
    assert(hex_digits(n) == hex_of(bytes));
    assert(n / 0x100_0000 < 0x100 && n / 0x100_0000 / 16 == n / 0x1000_0000 && n / 0x1_0000 % 0x100
        / 16 == n / 0x10_0000 % 16 && n / 0x1_0000 % 0x100 % 16 == n / 0x1_0000 % 16 && n / 0x100
        % 0x100 / 16 == n / 0x1000 % 16 && n / 0x100 % 0x100 % 16 == n / 0x100 % 16 && n % 0x100
        / 16 == n / 0x10 % 16 && n % 0x100 % 16 == n % 16) by (bit_vector);
    assert(bytes[0] == n / 0x100_0000);
    assert(bytes[1] == n / 0x1_0000 % 0x100);
    assert(bytes[2] == n / 0x100 % 0x100);
    assert(bytes[3] == n % 0x100);
}

/// Where Steam says that it is comes first: for the user, then for the machine; then its
/// usual place among the programs.
pub proof fn law_steam_on_windows(
    user: Option<Seq<char>>,
    machine: Option<Seq<char>>,
    programs_x86: Option<Seq<u8>>,
    programs: Option<Seq<u8>>,
)
    ensures
        ({
            let root = steam_root_of(user, machine, programs_x86, programs);
            let steam = encode_utf8("Steam"@);
            &&& user is Some ==> root == encode_utf8(user->0)
            &&& user is None && machine is Some ==> root == encode_utf8(machine->0)
            &&& user is None && machine is None && programs_x86 is Some ==> root == join_of(
                programs_x86->0,
                steam,
            )
            &&& user is None && machine is None && programs_x86 is None && programs is Some ==> root
                == join_of(programs->0, steam)
            &&& user is None && machine is None && programs_x86 is None && programs is None ==> root
                == join_of(encode_utf8("C:\\Program Files (x86)"@), steam)
        }),
{
}

proof fn lemma_space_end(s: Seq<char>, i: int, n: int)
    requires
        0 <= i <= n <= s.len(),
        forall|k: int| i <= k < n ==> is_space(#[trigger] s[k]),
        n < s.len() ==> !is_space(s[n]),
    ensures
        space_end(s, i) == n,
    decreases n - i,
{
    if i < n {
        assert(is_space(s[i]));
        lemma_space_end(s, i + 1, n);
    }
}

proof fn lemma_quote_end(s: Seq<char>, i: int, n: int)
    requires
        0 <= i <= n < s.len(),
        forall|k: int| i <= k < n ==> #[trigger] s[k] != '"',
        s[n] == '"',
    ensures
        quote_end(s, i) == n,
    decreases n - i,
{
    if i < n {
        assert(s[i] != '"');
        lemma_quote_end(s, i + 1, n);
    }
}

proof fn lemma_space_end_shifts(s: Seq<char>, from: int, i: int)
    requires
        0 <= from,
        0 <= i,
        from + i <= s.len(),
    ensures
        space_end(s, from + i) == from + space_end(s.skip(from), i),
        i <= space_end(s.skip(from), i) <= s.len() - from,
    decreases s.len() - i,
{
    if from + i < s.len() && is_space(s[from + i]) {
        lemma_space_end_shifts(s, from, i + 1);
    }
}

proof fn lemma_quote_end_shifts(s: Seq<char>, from: int, i: int)
    requires
        0 <= from,
        0 <= i,
        from <= s.len(),
    ensures
        quote_end(s, from + i) == from + quote_end(s.skip(from), i),
        i <= quote_end(s.skip(from), i),
    decreases s.len() - i,
{
    if from + i < s.len() && s[from + i] != '"' {
        lemma_quote_end_shifts(s, from, i + 1);
    }
}

proof fn lemma_entry_shifts(s: Seq<char>, from: int, i: int)
    requires
        0 <= from <= s.len(),
        0 <= i,
    ensures
        path_entry(s.skip(from), i) is Some <==> path_entry(s, from + i) is Some,
        path_entry(s.skip(from), i) is Some ==> {
            let (start, end) = path_entry(s.skip(from), i)->0;
            &&& path_entry(s, from + i) == Some((from + start, from + end))
            &&& i < start < end < s.len() - from
        },
{
    reveal_strlit("\"path\"");
    let word = "\"path\""@;
    let rest = s.skip(from);
    if from + i + 6 <= s.len() {
        assert(rest.subrange(i, i + 6) =~= s.subrange(from + i, from + i + 6));
        lemma_space_end_shifts(s, from, i + 6);
        lemma_quote_end_shifts(s, from, space_end(rest, i + 6) + 1);
    }
}

proof fn lemma_entries_shift(s: Seq<char>, from: int, i: int)
    requires
        0 <= from <= s.len(),
        0 <= i,
    ensures
        path_entries(s, from + i) == path_entries(s.skip(from), i),
    decreases s.len() - from - i,
{
    let rest = s.skip(from);
    if from + i < s.len() {
        lemma_entry_shifts(s, from, i);
        match path_entry(rest, i) {
            Some((start, end)) => {
                lemma_entries_shift(s, from, end + 1);
                assert(rest.subrange(start, end) =~= s.subrange(from + start, from + end));
            },
            None => {
                lemma_entries_shift(s, from, i + 1);
            },
        }
    }
}

proof fn lemma_nothing_before_a_quote(s: Seq<char>, i: int, n: int)
    requires
        0 <= i <= n <= s.len(),
        forall|k: int| i <= k < n ==> #[trigger] s[k] != '"',
    ensures
        path_entries(s, i) == path_entries(s, n),
    decreases n - i,
{
    if i < n {
        reveal_strlit("\"path\"");
        assert(s[i] != '"');
        if occurs_at(s, "\"path\""@, i) {
            assert(s.subrange(i, i + 6)[0] == '"');
        }
        assert(path_entry(s, i) is None);
        lemma_nothing_before_a_quote(s, i + 1, n);
    }
}

/// Every path in a list of libraries is found, one after the other: what stands in
/// quotes behind the word `"path"`, with doubled backslashes made single.
pub proof fn law_listed_paths_are_found(
    before: Seq<char>,
    spaces: Seq<char>,
    text: Seq<char>,
    after: Seq<char>,
)
    requires
        !before.contains('"'),
        spaces.len() > 0,
        all_spaces(spaces),
        text.len() > 0,
        !text.contains('"'),
    ensures
        path_entries(before + "\"path\""@ + spaces + seq!['"'] + text + seq!['"'] + after, 0)
            == seq![replaced(text, seq!['\\', '\\'], seq!['\\'])] + path_entries(after, 0),
        path_entries(before, 0) == Seq::<Seq<char>>::empty(),
{
    reveal_strlit("\"path\"");
    reveal_strlit("\\\\");
    reveal_strlit("\\");
    assert("\\\\"@ =~= seq!['\\', '\\']);
    assert("\\"@ =~= seq!['\\']);
    let word = "\"path\""@;
    let s = before + word + spaces + seq!['"'] + text + seq!['"'] + after;
    let n = before.len() as int;
    assert forall|k: int| 0 <= k < n implies #[trigger] s[k] != '"' by {
        assert(before.contains(before[k]));
    }
    lemma_nothing_before_a_quote(s, 0, n);
    assert forall|k: int| 0 <= k < n implies #[trigger] before[k] != '"' by {
        assert(before.contains(before[k]));
    }
    lemma_nothing_before_a_quote(before, 0, n);
    assert(s.subrange(n, n + 6) =~= word);
    assert(occurs_at(s, word, n));
    let opening = n + 6 + spaces.len();
    assert forall|k: int| n + 6 <= k < opening implies is_space(#[trigger] s[k]) by {
        assert(is_space(spaces[k - n - 6]));
    }
    assert(s[opening] == '"');
    assert(!is_space('"'));
    lemma_space_end(s, n + 6, opening);
    let closing = opening + 1 + text.len();
    assert forall|k: int| opening + 1 <= k < closing implies #[trigger] s[k] != '"' by {
        assert(s[k] == text[k - opening - 1]);
        assert(text.contains(text[k - opening - 1]));
    }
    assert(s[closing] == '"');
    lemma_quote_end(s, opening + 1, closing);
    assert(path_entry(s, n) == Some((opening + 1, closing)));
    assert(s.subrange(opening + 1, closing) =~= text);
    lemma_entries_shift(s, closing + 1, 0);
    assert(s.skip(closing + 1) =~= after);
}

/// The game is looked for in Steam's own directory first, and then in every library, in
/// the place where Steam installs it.
pub proof fn law_game_is_looked_for(root: Seq<u8>, contents: Seq<char>, i: int)
    ensures
        game_candidates(root, None) == seq![
            join_of(
                root,
                encode_utf8(
                    "steamapps/common/Divine Knockout/DivineKnockout/Binaries/Win64/DivineKnockout.exe"@,
                ),
            ),
        ],
        game_candidates(root, Some(contents)).len() == 1 + path_entries(contents, 0).len(),
        game_candidates(root, Some(contents))[0] == game_candidates(root, None)[0],
        0 <= i < path_entries(contents, 0).len() ==> game_candidates(root, Some(contents))[i + 1]
            == game_candidates(encode_utf8(path_entries(contents, 0)[i]), None)[0],
{
    assert(game_candidates(root, None) =~= seq![game_in(root)]);
    if 0 <= i < path_entries(contents, 0).len() {
        let library = encode_utf8(path_entries(contents, 0)[i]);
        assert(game_candidates(library, None) =~= seq![game_in(library)]);
    }
}

/// The candidates that are files are kept, in their order.
pub proof fn law_candidates_that_are_there(
    candidates: Seq<Seq<u8>>,
    is_file: Seq<bool>,
    candidate: Seq<u8>,
    there: bool,
)
    requires
        candidates.len() == is_file.len(),
    ensures
        present(candidates.push(candidate), is_file.push(there)) == (if there {
            present(candidates, is_file).push(candidate)
        } else {
            present(candidates, is_file)
        }),
        present(Seq::empty(), is_file) == Seq::<Seq<u8>>::empty(),
{
    lemma_present_prefix(candidates, is_file, there);
    assert(candidates.push(candidate).drop_last() =~= candidates);
}

proof fn lemma_present_prefix(candidates: Seq<Seq<u8>>, is_file: Seq<bool>, there: bool)
    requires
        candidates.len() <= is_file.len(),
    ensures
        present(candidates, is_file.push(there)) == present(candidates, is_file),
    decreases candidates.len(),
{
    if candidates.len() > 0 {
        lemma_present_prefix(candidates.drop_last(), is_file, there);
        assert(is_file.push(there)[candidates.len() - 1] == is_file[candidates.len() - 1]);
    }
}

/// A selected file stands for the game below its directory when that is there, and else
/// for itself, on Windows and elsewhere.
pub proof fn law_selection_stands_for_the_game(path: Seq<u8>, directory: Seq<u8>, windows: bool)
    requires
        parent_on(windows, path) == Some(directory),
    ensures
        resolved(path, true, windows) == join_on(
            windows,
            directory,
            "DivineKnockout/Binaries/Win64/DivineKnockout.exe"@,
        ),
        resolved(path, false, windows) == path,
{
}

/// The log of the game is below its own directory, among the local data.
pub proof fn law_log_on_windows(data: Seq<u8>, homedir: Seq<char>)
    requires
        is_plain_directory(data),
        is_windows_name(encode_utf8(homedir)),
    ensures
        log_in(data, homedir) == join_of(data, encode_utf8(homedir)) + seq![92u8] + encode_utf8(
            "Saved/Logs/DivineKnockout.log"@,
        ),
        launcher_directory(data) == join_of(data, encode_utf8("ProjectKNOCKOUT"@)),
        parent_of(launcher_directory(data)) == Some(data),
{
    let own = encode_utf8(homedir);
    law_windows_paths_come_apart(data, own);
    let directory = join_of(data, own);
    lemma_drive(directory);
    reveal_strlit("Saved/Logs/DivineKnockout.log");
    let file = "Saved/Logs/DivineKnockout.log"@;
    assert(is_ascii_chars(file));
    vstd::utf8::is_ascii_chars_encode_utf8(file);
    assert(encode_utf8(file)[0] == 83 && encode_utf8(file)[1] == 97);
    lemma_plain_more(encode_utf8(file));
    assert(directory.len() > 3 && directory.last() == own.last());
    assert(own[own.len() - 1] != 47);
    reveal_strlit("ProjectKNOCKOUT");
    let launcher = "ProjectKNOCKOUT"@;
    assert(is_ascii_chars(launcher));
    vstd::utf8::is_ascii_chars_encode_utf8(launcher);
    let bytes = encode_utf8(launcher);
    assert forall|i: int| 0 <= i < bytes.len() implies #[trigger] bytes[i] != 47 && bytes[i] != 92
        && bytes[i] != 58 by {
        assert(bytes[i] == launcher[i] as u8);
    }
    assert(bytes.len() == 15);
    assert(seq![46u8].len() == 1 && seq![46u8, 46u8].len() == 2);
    law_windows_paths_come_apart(data, bytes);
}

/// A unit that needs another one spoils the text when it is alone.
pub proof fn law_lone_units_are_no_text(unit: u16, next: u16, rest: Seq<u16>)
    requires
        0xd800 <= unit <= 0xdfff,
        !(0xdc00 <= next <= 0xdfff),
    ensures
        text_from(seq![unit]) is None,
        text_from(seq![unit, next] + rest) is None,
        unit >= 0xdc00 ==> text_from(seq![unit] + rest) is None,
{
    let one = seq![unit];
    assert(one[0] == unit);
    let two = seq![unit, next] + rest;
    assert(two[0] == unit && two[1] == next);
    let low = seq![unit] + rest;
    assert(low[0] == unit);
}

/// Seen from a verbatim path, a name leads down, two dots lead up again, and a single
/// dot or nothing between separators leads nowhere.
pub proof fn law_steps_from_a_verbatim_path(names: Seq<Seq<u8>>, parts: Seq<Seq<u8>>, name: Seq<u8>)
    requires
        name.len() > 0,
        name != seq![46u8],
        name != seq![46u8, 46u8],
    ensures
        walked(names, Seq::empty()) == names,
        walked(names, parts.push(name)) == walked(names, parts).push(name),
        walked(names, parts.push(seq![46u8])) == walked(names, parts),
        walked(names, parts.push(Seq::empty())) == walked(names, parts),
        walked(names, parts.push(name).push(seq![46u8, 46u8])) == walked(names, parts),
{
    let up = seq![46u8, 46u8];
    assert(up.len() == 2 && seq![46u8].len() == 1);
    assert(parts.push(name).drop_last() =~= parts);
    assert(parts.push(seq![46u8]).drop_last() =~= parts);
    assert(parts.push(Seq::<u8>::empty()).drop_last() =~= parts);
    assert(parts.push(name).push(up).drop_last() =~= parts.push(name));
    assert(walked(names, parts).push(name).drop_last() =~= walked(names, parts));
}

proof fn lemma_verbatim_tail(head: Seq<u8>, name: Seq<u8>, from: int)
    requires
        forall|i: int| 0 <= i < name.len() ==> #[trigger] name[i] != 92,
        0 <= from <= head.len(),
        head.len() == from || head.last() == 92,
    ensures
        tail_start(head + name, from, true) == head.len(),
    decreases name.len(),
{
    if name.len() == 0 {
        assert(head + name =~= head);
    } else {
        let rest = name.drop_last();
        assert forall|i: int| 0 <= i < rest.len() implies #[trigger] rest[i] != 92 by {
            assert(name[i] != 92);
        }
        assert(name[name.len() - 1] != 92);
        assert((head + name).drop_last() =~= head + rest);
        assert((head + name).last() == name.last());
        lemma_verbatim_tail(head, rest, from);
    }
}

/// In a verbatim path a slash is a character like any other.
pub proof fn law_verbatim_paths_keep_slashes(letter: u8, name: Seq<u8>)
    requires
        65 <= letter <= 90 || 97 <= letter <= 122,
        name.len() > 0,
        forall|i: int| 0 <= i < name.len() ==> #[trigger] name[i] != 92,
        name != seq![46u8],
        name != seq![46u8, 46u8],
    ensures
        ({
            let root = seq![92u8, 92u8, 63u8, 92u8, letter, 58u8, 92u8];
            &&& prefix_of(root + name) == Prefix::VerbatimDrive
            &&& name_of(root + name) == Some(name)
            &&& parent_of(root + name) == Some(root)
            &&& volume_of(root + name) == Some(root.take(6))
        }),
{
    let root = seq![92u8, 92u8, 63u8, 92u8, letter, 58u8, 92u8];
    let p = root + name;
    assert(p[0] == 92 && p[1] == 92 && p[2] == 63 && p[3] == 92 && p[4] == letter && p[5] == 58
        && p[6] == 92);
    assert(prefix_length(p) == 6);
    assert(body_start(p) == 7);
    lemma_verbatim_tail(root, name, 7);
    assert(tail(p, 7, true) =~= name);
    assert(without_end(p, 7, true) == p);
    assert(p.take(7) =~= root);
    assert(without_end(root, 7, true) == root);
    assert(p.take(6) =~= root.take(6));
}

/// A drive without a root is followed by what is looked at from it: it has a current
/// directory of its own.
pub proof fn law_drives_have_current_directories(letter: u8, name: Seq<u8>)
    requires
        65 <= letter <= 90 || 97 <= letter <= 122,
        is_windows_name(name),
    ensures
        join_of(seq![letter, 58u8], name) == seq![letter, 58u8] + name,
        join_of(seq![letter, 58u8, 92u8], name) == seq![letter, 58u8, 92u8] + name,
{
    assert(name[0] != 47);
    if name.len() > 1 {
        assert(name[1] != 58);
    }
    lemma_plain_more(name);
    let drive = seq![letter, 58u8];
    assert(drive[0] == letter && drive[1] == 58);
    let root = seq![letter, 58u8, 92u8];
    assert(root[0] == letter && root[1] == 58 && root[2] == 92);
}

/// The word `"path"` and the path are two words: something stands between them.
pub proof fn law_paths_are_kept_apart_from_their_word(before: Seq<char>, rest: Seq<char>)
    requires
        rest.len() > 0 ==> !is_space(rest[0]),
    ensures
        path_entry(before + "\"path\""@ + rest, before.len() as int) is None,
{
    reveal_strlit("\"path\"");
    let s = before + "\"path\""@ + rest;
    let n = before.len() as int + 6;
    if n < s.len() {
        assert(s[n] == rest[0]);
    }
    lemma_space_end(s, n, n);
}

/// A device is a volume, and so is a share that is named verbatim.
pub proof fn law_devices_are_volumes(name: Seq<u8>, share: Seq<u8>, rest: Seq<u8>)
    requires
        is_share_name(name),
        is_share_name(share),
        rest.len() > 0 ==> rest[0] == 92,
    ensures
        ({
            let device = seq![92u8, 92u8, 46u8, 92u8] + name;
            let verbatim = seq![92u8, 92u8, 63u8, 92u8, 85u8, 78u8, 67u8, 92u8] + name + seq![92u8]
                + share;
            &&& prefix_of(device + rest) == Prefix::Device
            &&& volume_of(device + rest) == Some(device)
            &&& prefix_of(verbatim + rest) == Prefix::VerbatimShare
            &&& volume_of(verbatim + rest) == Some(verbatim)
        }),
{
    let device = seq![92u8, 92u8, 46u8, 92u8] + name;
    let p = device + rest;
    let n = 4 + name.len() as int;
    assert(p[0] == 92 && p[1] == 92 && p[2] == 46 && p[3] == 92);
    assert forall|k: int| 4 <= k < n implies #[trigger] p[k] != 47 && p[k] != 92 by {
        assert(p[k] == name[k - 4]);
    }
    if n < p.len() {
        assert(p[n] == rest[0]);
    }
    lemma_next_separator(p, 4, n);
    assert(p.take(n) =~= device);
    let start = seq![92u8, 92u8, 63u8, 92u8, 85u8, 78u8, 67u8, 92u8];
    let verbatim = start + name + seq![92u8] + share;
    let q = verbatim + rest;
    assert(q[0] == 92 && q[1] == 92 && q[2] == 63 && q[3] == 92 && q[4] == 85 && q[5] == 78 && q[6]
        == 67 && q[7] == 92);
    let m = 8 + name.len() as int;
    assert forall|k: int| 8 <= k < m implies #[trigger] q[k] != 47 && q[k] != 92 by {
        assert(q[k] == name[k - 8]);
    }
    assert(q[m] == 92);
    lemma_next_separator(q, 8, m);
    let e = m + 1 + share.len() as int;
    assert forall|k: int| m + 1 <= k < e implies #[trigger] q[k] != 47 && q[k] != 92 by {
        assert(q[k] == share[k - m - 1]);
    }
    if e < q.len() {
        assert(q[e] == rest[0]);
    }
    lemma_next_separator(q, m + 1, e);
    assert(q.take(e) =~= verbatim);
}

proof fn lemma_one_part(name: Seq<u8>, verbatim: bool)
    requires
        forall|i: int| 0 <= i < name.len() ==> #[trigger] name[i] != 92 && (verbatim || name[i] != 47),
    ensures
        parts_of(name, verbatim) == seq![name],
    decreases name.len(),
{
    if name.len() == 0 {
        assert(name =~= Seq::empty());
    } else {
        let front = name.drop_last();
        assert forall|i: int| 0 <= i < front.len() implies #[trigger] front[i] != 92 && (verbatim
            || front[i] != 47) by {
            assert(name[i] != 92);
        }
        lemma_one_part(front, verbatim);
        assert(name[name.len() - 1] != 92);
        assert(front.push(name.last()) =~= name);
        assert(parts_of(name, verbatim) =~= seq![name]);
    }
}

/// A file in a directory that is named verbatim is written behind a backslash, and a step
/// upwards leads to the root.
pub proof fn law_verbatim_paths_are_joined(letter: u8, directory: Seq<u8>, name: Seq<u8>)
    requires
        65 <= letter <= 90 || 97 <= letter <= 122,
        is_windows_name(directory),
        is_windows_name(name),
    ensures
        ({
            let root = seq![92u8, 92u8, 63u8, 92u8, letter, 58u8, 92u8];
            &&& join_of(root + directory, name) == root + directory + seq![92u8] + name
            &&& join_of(root + directory, seq![46u8, 46u8]) == root
        }),
{
    let root = seq![92u8, 92u8, 63u8, 92u8, letter, 58u8, 92u8];
    let base = root + directory;
    assert forall|i: int| 0 <= i < directory.len() implies #[trigger] directory[i] != 92 by {}
    law_verbatim_paths_keep_slashes(letter, directory);
    assert(base[0] == 92 && base[1] == 92 && base[2] == 63 && base[3] == 92 && base[4] == letter
        && base[5] == 58 && base[6] == 92);
    assert(prefix_length(base) == 6);
    assert(body_start(base) == 7);
    assert(base.skip(7) =~= directory);
    lemma_one_part(directory, true);
    let own = seq![directory];
    assert(own.drop_last() =~= Seq::empty());
    assert(filled(own.drop_last()) =~= Seq::empty());
    assert(filled(own) =~= own);
    assert(name[0] != 92);
    if name.len() > 1 {
        assert(name[1] != 58);
    }
    lemma_plain_more(name);
    lemma_one_part(name, false);
    let none = Seq::<Seq<u8>>::empty();
    law_steps_from_a_verbatim_path(own, none, name);
    assert(none.push(name) =~= seq![name]);
    let both = own.push(name);
    assert(both.drop_last() =~= own);
    assert(lined_up(own.drop_last()) =~= Seq::<u8>::empty());
    assert(lined_up(own) =~= seq![92u8] + directory);
    assert(lined_up(both) =~= seq![92u8] + directory + seq![92u8] + name);
    assert(base.take(6) + lined_up(both) =~= root + directory + seq![92u8] + name);
    let up = seq![46u8, 46u8];
    assert(up[0] == 46 && up[1] == 46);
    lemma_plain_more(up);
    lemma_one_part(up, false);
    let step = seq![up];
    assert(step.drop_last() =~= none);
    assert(walked(own, none) == own);
    assert(up != seq![46u8]) by {
        assert(seq![46u8].len() == 1);
    }
    assert(walked(own, step) =~= none);
    assert(base.take(6) + seq![92u8] =~= root);
}

} // verus!
