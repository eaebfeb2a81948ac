//! The launcher's place on a Linux desktop: its directories, and the entry by which
//! browsers find it.
use crate::dialog::{decode_lossy, lossy_text};
use crate::paths::{equal, extension, extension_of, join_of, join_text, same_path};
use crate::process::game::{is_named, named};
use crate::settings::{Build, Setting};
use crate::text::{
    append, begins, bytes_of, chop, chopped, concat, copied, decode_bytes, join, joined,
    lemma_pieces_append, lemma_pieces_not_empty, letters, lines, lines_of, part, pieces, same,
    same_folded, same_ignoring_case, split, text_of, views,
};
use vstd::prelude::*;

verus! {

/// A directory of the user: where the desktop says, or else below the home directory.
pub open spec fn user_directory(
    configured: Option<Seq<u8>>,
    home: Option<Seq<u8>>,
    fallback: Seq<char>,
) -> Option<Seq<u8>> {
    match configured {
        Some(path) => Some(path),
        None => match home {
            Some(home) => Some(join_of(home, vstd::utf8::encode_utf8(fallback))),
            None => None,
        },
    }
}

pub open spec fn maybe_view(path: Option<Vec<u8>>) -> Option<Seq<u8>> {
    match path {
        Some(path) => Some(path@),
        None => None,
    }
}

/// A directory of the user.
pub fn linux_user_directory(
    configured: &Option<Vec<u8>>,
    home: &Option<Vec<u8>>,
    fallback: &str,
) -> (r: Option<Vec<u8>>)
    ensures
        maybe_view(r) == user_directory(maybe_view(*configured), maybe_view(*home), fallback@),
{
    match configured {
        Some(path) => Some(copied(path.as_slice())),
        None => match home {
            Some(home) => Some(join_text(home.as_slice(), fallback)),
            None => None,
        },
    }
}

/// What is said when a directory of the user is not known.
pub fn directory_unavailable(variable: &str) -> (r: String)
    ensures
        r@ == variable@ + " and HOME are unavailable"@,
{
    concat(variable, " and HOME are unavailable")
}

/// A file of the launcher below a directory of the user.
pub open spec fn file_below(directory: Seq<u8>, file: Seq<char>) -> Seq<u8> {
    join_of(directory, vstd::utf8::encode_utf8(file))
}

/// The launcher's settings, below the directory for configuration.
pub fn linux_launcher_settings_path(config: &[u8]) -> (r: Vec<u8>)
    ensures
        r@ == file_below(config@, "ProjectKNOCKOUT/launcher.json"@),
{
    join_text(config, "ProjectKNOCKOUT/launcher.json")
}

/// Where earlier launchers kept their settings.
pub fn legacy_linux_launcher_settings_path(config: &[u8]) -> (r: Vec<u8>)
    ensures
        r@ == file_below(config@, "dko-preservation/launcher.json"@),
{
    join_text(config, "dko-preservation/launcher.json")
}

/// The installed launcher, below the directory for data.
pub fn linux_installed_executable(data: &[u8]) -> (r: Vec<u8>)
    ensures
        r@ == file_below(data@, "ProjectKNOCKOUT/Project-KNOCKOUT"@),
{
    join_text(data, "ProjectKNOCKOUT/Project-KNOCKOUT")
}

/// The launcher's desktop entry, below the directory for data.
pub fn linux_desktop_entry(data: &[u8]) -> (r: Vec<u8>)
    ensures
        r@ == file_below(data@, "applications/Project-KNOCKOUT.desktop"@),
{
    join_text(data, "applications/Project-KNOCKOUT.desktop")
}

/// The launcher's log, below the directory for state.
pub fn launcher_log_path(state: &[u8]) -> (r: Vec<u8>)
    ensures
        r@ == file_below(state@, "ProjectKNOCKOUT/logs/launcher.log"@),
{
    join_text(state, "ProjectKNOCKOUT/logs/launcher.log")
}

/// Where Steam may be.
pub open spec fn steam_candidates(data: Option<Seq<u8>>, home: Option<Seq<u8>>) -> Seq<Seq<u8>> {
    (match data {
        Some(data) => seq![file_below(data, "Steam"@)],
        None => Seq::empty(),
    }) + (match home {
        Some(home) => seq![
            file_below(home, ".local/share/Steam"@),
            file_below(home, ".steam/steam"@),
            file_below(home, ".steam/root"@),
            file_below(home, ".steam/debian-install"@),
            file_below(home, ".var/app/com.valvesoftware.Steam/data/Steam"@),
            file_below(home, "snap/steam/common/.local/share/Steam"@),
        ],
        None => Seq::empty(),
    })
}

/// Where Steam may be; `data` is the directory for data that the desktop says.
pub fn steam_root_candidates(data: &Option<Vec<u8>>, home: &Option<Vec<u8>>) -> (r: Vec<Vec<u8>>)
    ensures
        views(r@) == steam_candidates(maybe_view(*data), maybe_view(*home)),
{
    let mut r: Vec<Vec<u8>> = Vec::new();
    if let Some(data) = data {
        r.push(join_text(data.as_slice(), "Steam"));
    }
    if let Some(home) = home {
        r.push(join_text(home.as_slice(), ".local/share/Steam"));
        r.push(join_text(home.as_slice(), ".steam/steam"));
        r.push(join_text(home.as_slice(), ".steam/root"));
        r.push(join_text(home.as_slice(), ".steam/debian-install"));
        r.push(join_text(home.as_slice(), ".var/app/com.valvesoftware.Steam/data/Steam"));
        r.push(join_text(home.as_slice(), "snap/steam/common/.local/share/Steam"));
    }
    assert(views(r@) =~= steam_candidates(maybe_view(*data), maybe_view(*home)));
    r
}

/// `r` is where Steam is: the first candidate that holds games, or else the first one.
pub open spec fn is_steam_root(candidates: Seq<Seq<u8>>, has_games: Seq<bool>, r: Seq<u8>) -> bool {
    if candidates.len() == 0 {
        r == vstd::utf8::encode_utf8(".local/share/Steam"@)
    } else {
        crate::process::libraries::is_game_library(candidates, has_games, r)
    }
}

/// Where Steam is; `has_games` says of each candidate whether it holds games.
pub fn default_steam_root(candidates: &Vec<Vec<u8>>, has_games: &Vec<bool>) -> (r: Vec<u8>)
    ensures
        is_steam_root(views(candidates@), has_games@, r@),
{
    if candidates.len() == 0 {
        return bytes_of(".local/share/Steam");
    }
    crate::process::libraries::locate_game_library(candidates, has_games)
}

/// A character of a desktop entry's argument.
pub open spec fn escaped(c: char) -> Seq<char> {
    if c == '\\' || c == '"' || c == '`' || c == '$' {
        seq!['\\', c]
    } else {
        seq![c]
    }
}

/// The characters of a desktop entry's argument.
pub open spec fn all_escaped(s: Seq<char>) -> Seq<char>
    decreases s.len(),
{
    if s.len() == 0 {
        Seq::empty()
    } else {
        all_escaped(s.drop_last()) + escaped(s.last())
    }
}

/// A path as an argument in a desktop entry.
pub open spec fn exec_argument(path: Seq<char>) -> Seq<char> {
    seq!['"'] + all_escaped(path) + seq!['"']
}

/// A path as an argument in a desktop entry; nothing when it is not valid UTF-8.
pub fn desktop_exec_argument(path: &[u8]) -> (r: Option<String>)
    ensures
        match r {
            Some(argument) => vstd::utf8::valid_utf8(path@) && argument@ == exec_argument(
                vstd::utf8::decode_utf8(path@),
            ),
            None => !vstd::utf8::valid_utf8(path@),
        },
{
    let text = match decode_bytes(copied(path)) {
        Some(text) => letters(text.as_str()),
        None => {
            return None;
        },
    };
    let mut r: Vec<char> = Vec::new();
    r.push('"');
    let mut i: usize = 0;
    assert(text@.take(0) =~= Seq::empty());
    assert(r@ =~= seq!['"'] + all_escaped(text@.take(0)));
    while i < text.len()
        invariant
            i <= text@.len(),
            r@ == seq!['"'] + all_escaped(text@.take(i as int)),
        decreases text@.len() - i,
    {
        assert(text@.take(i + 1).drop_last() =~= text@.take(i as int));
        let c = text[i];
        if c == '\\' || c == '"' || c == '`' || c == '$' {
            r.push('\\');
        }
        r.push(c);
        assert(r@ =~= seq!['"'] + all_escaped(text@.take(i + 1)));
        i = i + 1;
    }
    assert(text@.take(i as int) =~= text@);
    r.push('"');
    assert(r@ =~= exec_argument(text@));
    Some(text_of(r.as_slice()))
}

/// What a desktop reads inside of the quotes: a backslash stands for the character
/// behind it.
pub open spec fn read_back(s: Seq<char>) -> Seq<char>
    decreases s.len(),
{
    if s.len() == 0 {
        Seq::empty()
    } else if s[0] == '\\' && s.len() > 1 {
        seq![s[1]] + read_back(s.skip(2))
    } else {
        seq![s[0]] + read_back(s.skip(1))
    }
}

proof fn lemma_read_back_ends(s: Seq<char>, c: char)
    ensures
        read_back(all_escaped(s) + escaped(c)) == read_back(all_escaped(s)).push(c),
{
    lemma_read_back_joins(s, escaped(c));
    let e = escaped(c);
    if e.len() == 2 {
        assert(e.skip(2) =~= Seq::empty());
        assert(read_back(e.skip(2)) =~= Seq::empty());
        assert(read_back(e) =~= seq![c]);
    } else {
        assert(e.skip(1) =~= Seq::empty());
        assert(read_back(e.skip(1)) =~= Seq::empty());
        assert(read_back(e) =~= seq![c]);
    }
    assert(read_back(all_escaped(s)) + seq![c] =~= read_back(all_escaped(s)).push(c));
}

/// What is read back of an escaped text does not depend on what follows it.
proof fn lemma_read_back_joins(s: Seq<char>, rest: Seq<char>)
    ensures
        read_back(all_escaped(s) + rest) == read_back(all_escaped(s)) + read_back(rest),
    decreases s.len(),
{
    if s.len() == 0 {
        assert(all_escaped(s) + rest =~= rest);
        assert(Seq::<char>::empty() + read_back(rest) =~= read_back(rest));
    } else {
        let head = s.drop_last();
        let e = escaped(s.last());
        assert(all_escaped(s) + rest =~= all_escaped(head) + (e + rest));
        lemma_read_back_joins(head, e + rest);
        lemma_read_back_joins(head, e);
        if e.len() == 2 {
            assert((e + rest).skip(2) =~= rest);
            assert(e.skip(2) =~= Seq::empty());
            assert(read_back(e.skip(2)) =~= Seq::empty());
            assert(read_back(e) =~= seq![s.last()]);
            assert(read_back(e + rest) =~= seq![s.last()] + read_back(rest));
        } else {
            assert((e + rest).skip(1) =~= rest);
            assert(e.skip(1) =~= Seq::empty());
            assert(read_back(e.skip(1)) =~= Seq::empty());
            assert(read_back(e) =~= seq![s.last()]);
            assert(read_back(e + rest) =~= seq![s.last()] + read_back(rest));
        }
        assert(read_back(all_escaped(head)) + (seq![s.last()] + read_back(rest)) =~= (read_back(
            all_escaped(head),
        ) + seq![s.last()]) + read_back(rest));
    }
}

/// A desktop reads exactly the path that was written, whatever characters it holds.
pub proof fn law_exec_argument_is_read_back(path: Seq<char>)
    ensures
        read_back(exec_argument(path).subrange(1, exec_argument(path).len() - 1)) == path,
    decreases path.len(),
{
    assert(exec_argument(path).subrange(1, exec_argument(path).len() - 1) =~= all_escaped(path));
    if path.len() > 0 {
        law_exec_argument_is_read_back(path.drop_last());
        assert(exec_argument(path.drop_last()).subrange(
            1,
            exec_argument(path.drop_last()).len() - 1,
        ) =~= all_escaped(path.drop_last()));
        lemma_read_back_ends(path.drop_last(), path.last());
        assert(path.drop_last().push(path.last()) =~= path);
    }
}

/// The launcher's desktop entry.
pub open spec fn entry_for(argument: Seq<char>) -> Seq<char> {
    "[Desktop Entry]\nType=Application\nName=Project KNOCKOUT Launcher\nComment=Launch Divine Knockout from Project KNOCKOUT\nExec="@
        + argument
        + " __protocol-launch %u\nTerminal=false\nNoDisplay=true\nMimeType=x-scheme-handler/project-knockout;\nCategories=Game;\n"@
}

/// The launcher's desktop entry; nothing when its path is not valid UTF-8.
pub fn project_knockout_desktop_entry(installed_executable: &[u8]) -> (r: Option<String>)
    ensures
        match r {
            Some(entry) => vstd::utf8::valid_utf8(installed_executable@) && entry@ == entry_for(
                exec_argument(vstd::utf8::decode_utf8(installed_executable@)),
            ),
            None => !vstd::utf8::valid_utf8(installed_executable@),
        },
{
    match desktop_exec_argument(installed_executable) {
        Some(argument) => {
            let start = concat(
                "[Desktop Entry]\nType=Application\nName=Project KNOCKOUT Launcher\nComment=Launch Divine Knockout from Project KNOCKOUT\nExec=",
                argument.as_str(),
            );
            Some(
                concat(
                    start.as_str(),
                    " __protocol-launch %u\nTerminal=false\nNoDisplay=true\nMimeType=x-scheme-handler/project-knockout;\nCategories=Game;\n",
                ),
            )
        },
        None => None,
    }
}

/// The type of the launcher's links.
pub open spec fn is_launcher_type(value: Seq<char>) -> bool {
    same_folded(value, "x-scheme-handler/project-knockout"@)
}

/// The types of a list that are kept: neither the launcher's own nor empty ones.
pub open spec fn kept_types(values: Seq<Seq<char>>) -> Seq<Seq<char>>
    decreases values.len(),
{
    if values.len() == 0 {
        Seq::empty()
    } else {
        let before = kept_types(values.drop_last());
        if is_launcher_type(values.last()) || values.last().len() == 0 {
            before
        } else {
            before.push(values.last())
        }
    }
}

/// The line registers a program for the launcher's links.
pub open spec fn registers(line: Seq<char>) -> bool {
    &&& "MimeType="@.is_prefix_of(line)
    &&& exists|i: int|
        0 <= i < listed_types(line).len() && is_launcher_type(#[trigger] listed_types(line)[i])
}

/// The types that a line lists.
pub open spec fn listed_types(line: Seq<char>) -> Seq<Seq<char>> {
    pieces(line.skip("MimeType="@.len() as int), ';')
}

/// What becomes of a line.
pub open spec fn cleaned_line(line: Seq<char>) -> Option<Seq<char>> {
    if !registers(line) {
        Some(line)
    } else if kept_types(listed_types(line)).len() == 0 {
        None
    } else {
        Some("MimeType="@ + joined(kept_types(listed_types(line)), ";"@) + ";"@)
    }
}

pub open spec fn cleaned_lines(lines: Seq<Seq<char>>) -> Seq<Seq<char>>
    decreases lines.len(),
{
    if lines.len() == 0 {
        Seq::empty()
    } else {
        let before = cleaned_lines(lines.drop_last());
        match cleaned_line(chopped(lines.last(), '\r')) {
            Some(line) => before.push(line),
            None => before,
        }
    }
}

pub open spec fn any_registers(lines: Seq<Seq<char>>) -> bool {
    exists|i: int| 0 <= i < lines.len() && registers(chopped(#[trigger] lines[i], '\r'))
}

/// A desktop entry that does not register for the launcher's links any more; nothing
/// when it never did.
pub open spec fn unregistered(body: Seq<char>) -> Option<Seq<char>> {
    if any_registers(lines_of(body)) {
        let text = joined(cleaned_lines(lines_of(body)), "\n"@);
        Some(
            if text.len() == 0 {
                text
            } else {
                text.push('\n')
            },
        )
    } else {
        None
    }
}

fn keep_types(values: &Vec<Vec<char>>) -> (r: (Vec<Vec<char>>, bool))
    ensures
        views(r.0@) == kept_types(views(values@)),
        r.1 == exists|i: int|
            0 <= i < values@.len() && is_launcher_type(#[trigger] views(values@)[i]),
{
    let ghost all = views(values@);
    let own = letters("x-scheme-handler/project-knockout");
    let mut kept: Vec<Vec<char>> = Vec::new();
    let mut removed = false;
    let mut i: usize = 0;
    assert(views(kept@) =~= Seq::empty());
    assert(all.take(0) =~= Seq::empty());
    while i < values.len()
        invariant
            i <= values@.len(),
            all == views(values@),
            own@ == "x-scheme-handler/project-knockout"@,
            views(kept@) == kept_types(all.take(i as int)),
            removed == exists|k: int| 0 <= k < i && is_launcher_type(#[trigger] all[k]),
        decreases values@.len() - i,
    {
        assert(all.take(i + 1).drop_last() =~= all.take(i as int));
        let value = &values[i];
        if same_ignoring_case(value.as_slice(), own.as_slice()) {
            assert(is_launcher_type(all[i as int]));
            removed = true;
        } else {
            assert(!is_launcher_type(all[i as int]));
            if value.len() > 0 {
                let ghost before = views(kept@);
                let copy = copied(value.as_slice());
                assert(copy@ =~= all[i as int]);
                kept.push(copy);
                assert(views(kept@) =~= before.push(all[i as int]));
            }
        }
        i = i + 1;
    }
    assert(all.take(i as int) =~= all);
    (kept, removed)
}

/// What becomes of a line, and whether it registered a program.
fn clean_line(line: &[char]) -> (r: (Option<Vec<char>>, bool))
    ensures
        match r.0 {
            Some(text) => cleaned_line(line@) == Some(text@),
            None => cleaned_line(line@) is None,
        },
        r.1 == registers(line@),
{
    let prefix = letters("MimeType=");
    let whole = copied(line);
    assert(whole@ =~= line@);
    if !begins(line, prefix.as_slice()) {
        return (Some(whole), false);
    }
    let value = part(line, prefix.len(), line.len());
    assert(value@ =~= line@.skip(prefix@.len() as int));
    let values = split(value.as_slice(), ';');
    let (kept, removed) = keep_types(&values);
    let ghost listed = listed_types(line@);
    assert(listed == views(values@));
    if !removed {
        assert(!registers(line@)) by {
            assert forall|i: int| 0 <= i < listed.len() implies !is_launcher_type(
                #[trigger] listed[i],
            ) by {
                assert(!is_launcher_type(views(values@)[i]));
            }
        }
        return (Some(whole), false);
    }
    assert(registers(line@)) by {
        let i = choose|i: int|
            0 <= i < values@.len() && is_launcher_type(#[trigger] views(values@)[i]);
        assert(is_launcher_type(listed[i]));
    }
    if kept.len() == 0 {
        assert(views(kept@).len() == 0);
        return (None, true);
    }
    assert(views(kept@).len() > 0);
    let mut text = prefix;
    append(&mut text, join(&kept, letters(";").as_slice()).as_slice());
    append(&mut text, letters(";").as_slice());
    (Some(text), true)
}

/// Takes the launcher's links away from the program of a desktop entry.
pub fn remove_project_knockout_mime_type(body: &str) -> (r: Option<String>)
    ensures
        match r {
            Some(text) => unregistered(body@) == Some(text@),
            None => unregistered(body@) is None,
        },
{
    let list = lines(letters(body).as_slice());
    let ghost all = views(list@);
    let mut output: Vec<Vec<char>> = Vec::new();
    let mut changed = false;
    let mut i: usize = 0;
    assert(views(output@) =~= Seq::empty());
    assert(all.take(0) =~= Seq::empty());
    while i < list.len()
        invariant
            i <= list@.len(),
            all == views(list@),
            views(output@) == cleaned_lines(all.take(i as int)),
            changed == exists|k: int| 0 <= k < i && registers(chopped(#[trigger] all[k], '\r')),
        decreases list@.len() - i,
    {
        assert(all.take(i + 1).drop_last() =~= all.take(i as int));
        let line = chop(list[i].as_slice(), '\r');
        assert(line@ == chopped(all[i as int], '\r'));
        let (cleaned, registered) = clean_line(line.as_slice());
        if registered {
            changed = true;
        }
        if let Some(text) = cleaned {
            let ghost before = views(output@);
            let ghost added = text@;
            output.push(text);
            assert(views(output@) =~= before.push(added));
        }
        i = i + 1;
    }
    assert(all.take(i as int) =~= all);
    assert(all == lines_of(body@));
    if !changed {
        assert(!any_registers(lines_of(body@)));
        return None;
    }
    assert(any_registers(lines_of(body@)));
    let mut text = join(&output, letters("\n").as_slice());
    if text.len() > 0 {
        text.push('\n');
    }
    Some(text_of(text.as_slice()))
}

/// A list of types that is written out is read back.
proof fn lemma_pieces_of_joined(parts: Seq<Seq<char>>)
    requires
        parts.len() > 0,
        forall|i: int| 0 <= i < parts.len() ==> !(#[trigger] parts[i]).contains(';'),
    ensures
        pieces(joined(parts, ";"@), ';') == parts,
    decreases parts.len(),
{
    reveal_strlit(";");
    let empty = Seq::<char>::empty();
    if parts.len() == 1 {
        lemma_pieces_append(empty, parts[0], ';');
        assert(empty + parts[0] =~= parts[0]);
        assert(pieces(empty, ';') =~= seq![empty]);
        assert(pieces(parts[0], ';') =~= parts);
    } else {
        let front = parts.drop_last();
        assert forall|i: int| 0 <= i < front.len() implies !(#[trigger] front[i]).contains(';') by {
            assert(!parts[i].contains(';'));
        }
        lemma_pieces_of_joined(front);
        let start = joined(front, ";"@);
        let ended = start + ";"@;
        assert(ended.drop_last() =~= start);
        assert(ended.last() == ';');
        assert(pieces(ended, ';') == front.push(empty));
        assert(!parts.last().contains(';')) by {
            assert(!parts[parts.len() - 1].contains(';'));
        }
        lemma_pieces_append(ended, parts.last(), ';');
        assert(empty + parts.last() =~= parts.last());
        assert(pieces(ended + parts.last(), ';') =~= parts);
    }
}

proof fn lemma_pieces_hold_no_separator(s: Seq<char>, separator: char, i: int)
    requires
        0 <= i < pieces(s, separator).len(),
    ensures
        !pieces(s, separator)[i].contains(separator),
    decreases s.len(),
{
    if s.len() > 0 {
        let before = pieces(s.drop_last(), separator);
        lemma_pieces_not_empty(s.drop_last(), separator);
        if i < before.len() {
            lemma_pieces_hold_no_separator(s.drop_last(), separator, i);
            let piece = pieces(s, separator)[i];
            if piece.contains(separator) {
                let k = choose|k: int| 0 <= k < piece.len() && piece[k] == separator;
                assert(before[i][k] == separator);
                assert(before[i].contains(separator));
            }
        }
    }
}

proof fn lemma_kept_types(values: Seq<Seq<char>>)
    ensures
        forall|i: int|
            0 <= i < kept_types(values).len() ==> !is_launcher_type(
                #[trigger] kept_types(values)[i],
            ) && values.contains(kept_types(values)[i]),
    decreases values.len(),
{
    if values.len() > 0 {
        lemma_kept_types(values.drop_last());
        let kept = kept_types(values);
        assert forall|i: int| 0 <= i < kept.len() implies !is_launcher_type(#[trigger] kept[i])
            && values.contains(kept[i]) by {
            let before = kept_types(values.drop_last());
            if i < before.len() {
                assert(kept[i] == before[i]);
                let k = choose|k: int| 0 <= k < values.drop_last().len() && values.drop_last()[k] == before[i];
                assert(values[k] == kept[i]);
            } else {
                assert(values[values.len() - 1] == kept[i]);
            }
        }
    }
}

/// No line that is left registers a program for the launcher's links.
pub proof fn law_cleaned_line_registers_nothing(line: Seq<char>)
    requires
        cleaned_line(line) is Some,
    ensures
        !registers(cleaned_line(line)->0),
{
    if registers(line) {
        reveal_strlit(";");
        reveal_strlit("x-scheme-handler/project-knockout");
        let values = listed_types(line);
        let kept = kept_types(values);
        let text = cleaned_line(line)->0;
        let prefix = "MimeType="@;
        let list = joined(kept, ";"@);
        lemma_kept_types(values);
        assert forall|i: int| 0 <= i < kept.len() implies !(#[trigger] kept[i]).contains(';') by {
            let k = choose|k: int| 0 <= k < values.len() && values[k] == kept[i];
            lemma_pieces_hold_no_separator(line.skip(prefix.len() as int), ';', k);
        }
        lemma_pieces_of_joined(kept);
        assert(text.skip(prefix.len() as int) =~= list + ";"@);
        let ended = list + ";"@;
        assert(ended.drop_last() =~= list);
        assert(ended.last() == ';');
        assert(pieces(ended, ';') == kept.push(Seq::empty()));
        assert(listed_types(text) == kept.push(Seq::empty()));
        let empty = Seq::<char>::empty();
        assert(!is_launcher_type(empty)) by {
            assert(crate::text::lowercase(empty).len() == 0);
            assert(crate::text::lowercase("x-scheme-handler/project-knockout"@).len() > 0);
        }
        assert forall|i: int| 0 <= i < listed_types(text).len() implies !is_launcher_type(
            #[trigger] listed_types(text)[i],
        ) by {
            if i < kept.len() {
                assert(listed_types(text)[i] == kept[i]);
            } else {
                assert(listed_types(text)[i] == empty);
            }
        }
    }
}

/// A desktop entry that may compete with the launcher's own.
pub open spec fn may_compete(path: Seq<u8>, canonical: Seq<u8>, is_file: bool) -> bool {
    &&& !same_path(path, canonical)
    &&& is_file
    &&& extension_of(path) == Some(vstd::utf8::encode_utf8("desktop"@))
}

/// Whether a file is a desktop entry that may compete with the launcher's own.
pub fn competes(path: &[u8], canonical: &[u8], is_file: bool) -> (r: bool)
    ensures
        r == may_compete(path@, canonical@, is_file),
{
    if equal(path, canonical) || !is_file {
        return false;
    }
    match extension(path) {
        Some(own) => same(own.as_slice(), "desktop".as_bytes()),
        None => false,
    }
}

/// The retail executable that a selection stands for, or why it is refused.
pub open spec fn accepted_executable(path: Seq<u8>, nested_is_file: bool, is_file: bool) -> Result<
    Seq<u8>,
    Seq<u8>,
> {
    let chosen = crate::process_windows::resolved(path, nested_is_file, false);
    if is_file && is_named(chosen, "DivineKnockout.exe"@) {
        Ok(chosen)
    } else {
        Err(chosen)
    }
}

/// The retail executable that a selection stands for. `nested_is_file` says whether
/// the executable below its directory is there, and `is_file` whether the one that the
/// selection stands for is. A refused selection is handed back.
pub fn validate_linux_game_executable(path: Vec<u8>, nested_is_file: bool, is_file: bool) -> (r:
    Result<Vec<u8>, Vec<u8>>)
    ensures
        match r {
            Ok(chosen) => accepted_executable(path@, nested_is_file, is_file) == Ok::<
                Seq<u8>,
                Seq<u8>,
            >(chosen@),
            Err(refused) => accepted_executable(path@, nested_is_file, is_file) == Err::<
                Seq<u8>,
                Seq<u8>,
            >(refused@),
        },
{
    let chosen = crate::process_windows::resolve_divine_knockout_executable(
        path,
        nested_is_file,
        false,
    );
    if is_file && named(chosen.as_slice(), "DivineKnockout.exe") {
        Ok(chosen)
    } else {
        Err(chosen)
    }
}

/// What is said about a selection that is refused.
pub fn refused_executable(path: &[u8]) -> (r: String)
    ensures
        r@ == "select the retail executable named DivineKnockout.exe (received "@ + lossy_text(path@)
            + ")"@,
{
    let text = concat(
        "select the retail executable named DivineKnockout.exe (received ",
        decode_lossy(path).as_str(),
    );
    concat(text.as_str(), ")")
}

/// One step of reading the launcher's settings, which an earlier launcher kept in
/// another place.
#[derive(Clone, Copy, Debug, PartialEq, Eq, Structural)]
pub enum SettingsStep {
    Read,
    ReadLegacy,
    /// Can the earlier launcher's settings be understood?
    CheckLegacy,
    CreateDirectory,
    WriteStaged,
    ProtectStaged,
    /// Rename the copy to the name of the settings.
    Promote,
    /// The settings were read; are they understood?
    Decode,
    Done,
    /// The settings cannot be read.
    Unreadable,
    /// The earlier launcher's settings cannot be understood.
    LegacyInvalid,
    /// The settings cannot be understood.
    Invalid,
    /// The earlier launcher's settings cannot be taken over.
    NotMigrated,
}

/// How reading or writing turned out.
#[derive(Clone, Copy, Debug, PartialEq, Eq, Structural)]
pub enum FileResult {
    Good,
    Missing,
    Failed,
}

/// The step that follows.
pub open spec fn settings_after(step: SettingsStep, result: FileResult) -> SettingsStep {
    match step {
        SettingsStep::Read => match result {
            FileResult::Good => SettingsStep::Decode,
            FileResult::Missing => SettingsStep::ReadLegacy,
            FileResult::Failed => SettingsStep::Unreadable,
        },
        SettingsStep::ReadLegacy => if result == FileResult::Good {
            SettingsStep::CheckLegacy
        } else {
            SettingsStep::Unreadable
        },
        SettingsStep::CheckLegacy => if result == FileResult::Good {
            SettingsStep::CreateDirectory
        } else {
            SettingsStep::LegacyInvalid
        },
        SettingsStep::CreateDirectory => if result == FileResult::Good {
            SettingsStep::WriteStaged
        } else {
            SettingsStep::NotMigrated
        },
        SettingsStep::WriteStaged => if result == FileResult::Good {
            SettingsStep::ProtectStaged
        } else {
            SettingsStep::NotMigrated
        },
        SettingsStep::ProtectStaged => if result == FileResult::Good {
            SettingsStep::Promote
        } else {
            SettingsStep::NotMigrated
        },
        SettingsStep::Promote => if result == FileResult::Good {
            SettingsStep::Decode
        } else {
            SettingsStep::NotMigrated
        },
        SettingsStep::Decode => if result == FileResult::Good {
            SettingsStep::Done
        } else {
            SettingsStep::Invalid
        },
        other => other,
    }
}

/// The step that follows.
pub fn next_settings_step(step: SettingsStep, result: FileResult) -> (r: SettingsStep)
    ensures
        r == settings_after(step, result),
{
    let ok = result == FileResult::Good;
    match step {
        SettingsStep::Read => match result {
            FileResult::Good => SettingsStep::Decode,
            FileResult::Missing => SettingsStep::ReadLegacy,
            FileResult::Failed => SettingsStep::Unreadable,
        },
        SettingsStep::ReadLegacy => if ok {
            SettingsStep::CheckLegacy
        } else {
            SettingsStep::Unreadable
        },
        SettingsStep::CheckLegacy => if ok {
            SettingsStep::CreateDirectory
        } else {
            SettingsStep::LegacyInvalid
        },
        SettingsStep::CreateDirectory => if ok {
            SettingsStep::WriteStaged
        } else {
            SettingsStep::NotMigrated
        },
        SettingsStep::WriteStaged => if ok {
            SettingsStep::ProtectStaged
        } else {
            SettingsStep::NotMigrated
        },
        SettingsStep::ProtectStaged => if ok {
            SettingsStep::Promote
        } else {
            SettingsStep::NotMigrated
        },
        SettingsStep::Promote => if ok {
            SettingsStep::Decode
        } else {
            SettingsStep::NotMigrated
        },
        SettingsStep::Decode => if ok {
            SettingsStep::Done
        } else {
            SettingsStep::Invalid
        },
        other => other,
    }
}

/// The step writes to the launcher's directory.
pub open spec fn writes_settings(step: SettingsStep) -> bool {
    match step {
        SettingsStep::CreateDirectory
        | SettingsStep::WriteStaged
        | SettingsStep::ProtectStaged
        | SettingsStep::Promote => true,
        _ => false,
    }
}

/// An earlier launcher's settings that cannot be understood are never taken over: the
/// first step that writes anything follows on their having been understood.
pub proof fn law_only_valid_settings_are_taken_over(step: SettingsStep, result: FileResult)
    requires
        writes_settings(settings_after(step, result)),
    ensures
        result == FileResult::Good,
        writes_settings(step) || step == SettingsStep::CheckLegacy,
{
}

/// What is said when reading the settings fails; the path is where they should be.
pub fn settings_failed(step: SettingsStep, path: &[u8]) -> (r: Option<String>)
    ensures
        match step {
            SettingsStep::Unreadable => r matches Some(text) && text@ == "read launcher settings "@
                + lossy_text(path@) + "; run setup again"@,
            SettingsStep::LegacyInvalid => r matches Some(text) && text@
                == "decode legacy Linux launcher settings; run the latest setup and select DivineKnockout.exe"@,
            SettingsStep::Invalid => r matches Some(text) && text@
                == "decode Linux launcher settings; run the latest setup and select DivineKnockout.exe"@,
            _ => r is None,
        },
{
    match step {
        SettingsStep::Unreadable => {
            let text = concat("read launcher settings ", decode_lossy(path).as_str());
            Some(concat(text.as_str(), "; run setup again"))
        },
        SettingsStep::LegacyInvalid => Some(
            "decode legacy Linux launcher settings; run the latest setup and select DivineKnockout.exe".to_owned(),
        ),
        SettingsStep::Invalid => Some(
            "decode Linux launcher settings; run the latest setup and select DivineKnockout.exe".to_owned(),
        ),
        _ => None,
    }
}

/// The launcher's data about the game, below the directory for data.
pub fn game_data_directory(build: &Build, data: &[u8]) -> (r: Vec<u8>)
    ensures
        r@ == join_of(
            file_below(data@, "ProjectKNOCKOUT"@),
            vstd::utf8::encode_utf8(build.value(Setting::RuntimeDirectory)),
        ),
{
    let own = join_text(data, "ProjectKNOCKOUT");
    join_text(own.as_slice(), build.get(Setting::RuntimeDirectory))
}

/// The game's state, with the launcher's data about the game.
pub fn game_compat_directory(game_data: &[u8]) -> (r: Vec<u8>)
    ensures
        r@ == file_below(game_data@, "compatdata"@),
{
    join_text(game_data, "compatdata")
}

} // verus!
