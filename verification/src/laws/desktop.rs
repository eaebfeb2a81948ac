//! The launcher among the other programs of a desktop, and the game below Steam.
use crate::desktop::{
    accepted_executable, all_escaped, any_registers, cleaned_line, cleaned_lines, entry_for,
    escaped, exec_argument, is_launcher_type, is_steam_root, kept_types, listed_types, may_compete,
    registers, steam_candidates, unregistered, user_directory,
};
use crate::dialog::lossy_text;
use crate::laws::manifest::lemma_joined_parts;
use crate::laws::paths::law_directories_are_found_upwards;
use crate::paths::{
    is_plain_name, join_of, law_joined_path_comes_apart, lemma_joined_path_is_bare, name_of,
    nearest_named, same_path, without_end,
};
use crate::process::game::{abslog_argument, compat_data_in, is_named, log_in, prefix_in, Paths};
use crate::text::{joined, lines_of, lowercase, occurs, occurs_at, replaced, same_folded};
use vstd::prelude::*;
use vstd::utf8::{encode_utf8, is_ascii_chars};

verus! {

/// What the desktop says comes before the usual place below the home directory.
pub proof fn law_user_directories(configured: Seq<u8>, home: Option<Seq<u8>>, fallback: Seq<char>)
    ensures
        user_directory(Some(configured), home, fallback) == Some(configured),
        home is Some ==> user_directory(None, home, fallback) == Some(
            join_of(home->0, encode_utf8(fallback)),
        ),
        home is None ==> user_directory(None, home, fallback) is None,
{
}

/// Steam is looked for among the user's data first, and then in the places below the
/// home directory where its packages put it.
pub proof fn law_places_of_steam(data: Seq<u8>, home: Seq<u8>)
    ensures
        steam_candidates(None, None) == Seq::<Seq<u8>>::empty(),
        steam_candidates(Some(data), None) == seq![join_of(data, encode_utf8("Steam"@))],
        steam_candidates(Some(data), Some(home)) == steam_candidates(Some(data), None)
            + steam_candidates(None, Some(home)),
        steam_candidates(None, Some(home)) == seq![
            join_of(home, encode_utf8(".local/share/Steam"@)),
            join_of(home, encode_utf8(".steam/steam"@)),
            join_of(home, encode_utf8(".steam/root"@)),
            join_of(home, encode_utf8(".steam/debian-install"@)),
            join_of(home, encode_utf8(".var/app/com.valvesoftware.Steam/data/Steam"@)),
            join_of(home, encode_utf8("snap/steam/common/.local/share/Steam"@)),
        ],
{
    assert(steam_candidates(None, None) =~= Seq::<Seq<u8>>::empty());
    assert(steam_candidates(Some(data), None) =~= seq![join_of(data, encode_utf8("Steam"@))]);
    assert(steam_candidates(Some(data), Some(home)) =~= steam_candidates(Some(data), None)
        + steam_candidates(None, Some(home)));
    assert(steam_candidates(None, Some(home)) =~= seq![
        join_of(home, encode_utf8(".local/share/Steam"@)),
        join_of(home, encode_utf8(".steam/steam"@)),
        join_of(home, encode_utf8(".steam/root"@)),
        join_of(home, encode_utf8(".steam/debian-install"@)),
        join_of(home, encode_utf8(".var/app/com.valvesoftware.Steam/data/Steam"@)),
        join_of(home, encode_utf8("snap/steam/common/.local/share/Steam"@)),
    ]);
}

/// Steam is at the first of its places that holds games, and else at the first of them.
pub proof fn law_steam_is_where_games_are(
    candidates: Seq<Seq<u8>>,
    has_games: Seq<bool>,
    i: int,
    r: Seq<u8>,
)
    requires
        candidates.len() == has_games.len(),
        0 <= i < candidates.len(),
        forall|j: int| 0 <= j < i ==> !#[trigger] has_games[j],
        is_steam_root(candidates, has_games, r),
    ensures
        has_games[i] ==> r == candidates[i],
        i == candidates.len() - 1 && !has_games[i] ==> r == candidates[0],
{
}

/// A character that means something to a desktop is written behind a backslash, and no
/// other one is.
pub proof fn law_arguments_are_escaped(path: Seq<char>, c: char)
    ensures
        exec_argument(Seq::empty()) == seq!['"', '"'],
        exec_argument(path.push(c)) == exec_argument(path).drop_last() + (if "\\\"`$"@.contains(c) {
            seq!['\\', c]
        } else {
            seq![c]
        }) + seq!['"'],
{
    reveal_strlit("\\\"`$");
    let special = "\\\"`$"@;
    assert(special[0] == '\\' && special[1] == '"' && special[2] == '`' && special[3] == '$');
    assert(special.contains(c) <==> c == '\\' || c == '"' || c == '`' || c == '$');
    assert(path.push(c).drop_last() =~= path);
    assert(exec_argument(path).drop_last() =~= seq!['"'] + all_escaped(path));
    assert(exec_argument(Seq::empty()) =~= seq!['"', '"']);
    assert(exec_argument(path.push(c)) =~= exec_argument(path).drop_last() + escaped(c) + seq!['"']);
}

/// A desktop entry registers the launcher's links with the launcher, hands them over
/// with the launch, and is shown neither in menus nor in a terminal.
pub proof fn law_desktop_entry(argument: Seq<char>)
    ensures
        occurs(entry_for(argument), "\nExec="@ + argument + " __protocol-launch %u\n"@),
        occurs(entry_for(argument), "\nMimeType=x-scheme-handler/project-knockout;\n"@),
        occurs(entry_for(argument), "\nTerminal=false\nNoDisplay=true\n"@),
        entry_for(argument).take(33) == "[Desktop Entry]\nType=Application\n"@,
{
    reveal_strlit("\nExec=");
    reveal_strlit(" __protocol-launch %u\n");
    reveal_strlit("\nMimeType=x-scheme-handler/project-knockout;\n");
    reveal_strlit("\nTerminal=false\nNoDisplay=true\n");
    reveal_strlit("[Desktop Entry]\nType=Application\n");
    reveal_strlit(
        "[Desktop Entry]\nType=Application\nName=Project KNOCKOUT Launcher\nComment=Launch Divine Knockout from Project KNOCKOUT\nExec=",
    );
    reveal_strlit(
        " __protocol-launch %u\nTerminal=false\nNoDisplay=true\nMimeType=x-scheme-handler/project-knockout;\nCategories=Game;\n",
    );
    let head =
        "[Desktop Entry]\nType=Application\nName=Project KNOCKOUT Launcher\nComment=Launch Divine Knockout from Project KNOCKOUT\nExec="@;
    let foot =
        " __protocol-launch %u\nTerminal=false\nNoDisplay=true\nMimeType=x-scheme-handler/project-knockout;\nCategories=Game;\n"@;
    let entry = entry_for(argument);
    let n = (head.len() + argument.len()) as int;
    let exec = "\nExec="@ + argument + " __protocol-launch %u\n"@;
    assert(entry.subrange(head.len() - 6, head.len() - 6 + exec.len()) =~= exec);
    assert(occurs_at(entry, exec, head.len() - 6));
    let hidden = "\nTerminal=false\nNoDisplay=true\n"@;
    assert(entry.subrange(n + 21, n + 21 + hidden.len()) =~= hidden);
    assert(occurs_at(entry, hidden, n + 21));
    let links = "\nMimeType=x-scheme-handler/project-knockout;\n"@;
    assert(entry.subrange(n + 51, n + 51 + links.len()) =~= links);
    assert(occurs_at(entry, links, n + 51));
    assert(entry.take(33) =~= "[Desktop Entry]\nType=Application\n"@);
}

/// The types of a line are what stands between its semicolons.
pub proof fn law_types_of_a_line(types: Seq<Seq<char>>)
    requires
        types.len() > 0,
        forall|i: int| 0 <= i < types.len() ==> !(#[trigger] types[i]).contains(';'),
    ensures
        listed_types("MimeType="@ + joined(types, seq![';'])) == types,
        registers("MimeType="@ + joined(types, seq![';'])) <==> exists|i: int|
            0 <= i < types.len() && lowercase(#[trigger] types[i])
                == "x-scheme-handler/project-knockout"@,
{
    lemma_joined_parts(types, ';');
    let prefix = "MimeType="@;
    let line = prefix + joined(types, seq![';']);
    assert(line.skip(prefix.len() as int) =~= joined(types, seq![';']));
    assert(prefix =~= line.subrange(0, prefix.len() as int));
    lemma_own_type();
    let own = "x-scheme-handler/project-knockout"@;
    if registers(line) {
        let i = choose|i: int|
            0 <= i < listed_types(line).len() && is_launcher_type(#[trigger] listed_types(line)[i]);
        assert(lowercase(types[i]) == own);
    }
    if exists|i: int| 0 <= i < types.len() && lowercase(#[trigger] types[i]) == own {
        let i = choose|i: int| 0 <= i < types.len() && lowercase(#[trigger] types[i]) == own;
        assert(is_launcher_type(listed_types(line)[i]));
    }
}

proof fn lemma_own_type()
    ensures
        lowercase("x-scheme-handler/project-knockout"@) == "x-scheme-handler/project-knockout"@,
{
    reveal_strlit("x-scheme-handler/project-knockout");
    assert(lowercase("x-scheme-handler/project-knockout"@)
        =~= "x-scheme-handler/project-knockout"@);
}

/// A line of another kind registers nothing and stays as it is.
pub proof fn law_other_lines_stay(line: Seq<char>)
    requires
        line.len() < 9 || line.take(9) != "MimeType="@,
    ensures
        cleaned_line(line) == Some(line),
{
    reveal_strlit("MimeType=");
    if "MimeType="@.is_prefix_of(line) {
        assert(line.take(9) =~= line.subrange(0, 9));
    }
}

/// Of the types of a line all are kept but the launcher's own, in any case, and empty
/// ones.
pub proof fn law_types_are_kept(types: Seq<Seq<char>>, last: Seq<char>)
    ensures
        kept_types(Seq::empty()) == Seq::<Seq<char>>::empty(),
        kept_types(types.push(last)) == (if last.len() == 0 || lowercase(last)
            == "x-scheme-handler/project-knockout"@ {
            kept_types(types)
        } else {
            kept_types(types).push(last)
        }),
{
    lemma_own_type();
    assert(types.push(last).drop_last() =~= types);
}

/// A line that registers for the launcher's links keeps its other types, each with a
/// semicolon behind it; it goes when there are none. A line that does not stays.
pub proof fn law_registrations_are_removed(types: Seq<Seq<char>>)
    requires
        types.len() > 0,
        forall|i: int| 0 <= i < types.len() ==> !(#[trigger] types[i]).contains(';'),
    ensures
        ({
            let line = "MimeType="@ + joined(types, seq![';']);
            let ours = exists|i: int|
                0 <= i < types.len() && lowercase(#[trigger] types[i])
                    == "x-scheme-handler/project-knockout"@;
            cleaned_line(line) == (if !ours {
                Some(line)
            } else if kept_types(types).len() == 0 {
                None
            } else {
                Some("MimeType="@ + joined(kept_types(types), seq![';']) + seq![';'])
            })
        }),
{
    law_types_of_a_line(types);
    reveal_strlit(";");
    assert(";"@ =~= seq![';']);
}

/// The lines of an entry are cleaned one by one.
pub proof fn law_lines_are_cleaned(lines: Seq<Seq<char>>, line: Seq<char>)
    requires
        line.len() == 0 || line.last() != '\r',
    ensures
        cleaned_lines(Seq::empty()) == Seq::<Seq<char>>::empty(),
        cleaned_lines(lines.push(line)) == (match cleaned_line(line) {
            Some(rest) => cleaned_lines(lines).push(rest),
            None => cleaned_lines(lines),
        }),
        cleaned_lines(lines.push(line.push('\r'))) == cleaned_lines(lines.push(line)),
{
    assert(lines.push(line).drop_last() =~= lines);
    assert(lines.push(line.push('\r')).drop_last() =~= lines);
    assert(line.push('\r').drop_last() =~= line);
}

/// An entry is left alone when none of its lines registers for the launcher's links, and
/// else it is written anew, with a line feed behind each line.
pub proof fn law_entries_are_cleaned(body: Seq<char>)
    ensures
        unregistered(body) is Some <==> any_registers(lines_of(body)),
        unregistered(body) is Some ==> unregistered(body)->0 == (if joined(
            cleaned_lines(lines_of(body)),
            seq!['\n'],
        ).len() == 0 {
            Seq::<char>::empty()
        } else {
            joined(cleaned_lines(lines_of(body)), seq!['\n']) + seq!['\n']
        }),
{
    reveal_strlit("\n");
    assert("\n"@ =~= seq!['\n']);
    let text = joined(cleaned_lines(lines_of(body)), seq!['\n']);
    assert(text.push('\n') =~= text + seq!['\n']);
    if text.len() == 0 {
        assert(text =~= Seq::empty());
    }
}

/// Another desktop entry competes with the launcher's; the launcher's own does not, and
/// neither does what is no file or no desktop entry.
pub proof fn law_competing_entries(
    directory: Seq<u8>,
    stem: Seq<u8>,
    extension: Seq<u8>,
    canonical: Seq<u8>,
    is_file: bool,
)
    requires
        without_end(directory) == directory,
        stem.len() > 0,
        !extension.contains(46),
        is_plain_name(stem + seq![46u8] + extension),
    ensures
        ({
            let path = join_of(directory, stem + seq![46u8] + extension);
            may_compete(path, canonical, is_file) <==> is_file && !same_path(path, canonical)
                && extension == encode_utf8("desktop"@)
        }),
{
    crate::laws::paths::law_extensions(directory, stem, extension, extension);
}

/// A selected executable is accepted under the game's name, in any case, when it is a
/// file, and stands for the one below its directory when that is there.
pub proof fn law_selected_executables(
    directory: Seq<u8>,
    name: Seq<u8>,
    nested_is_file: bool,
    is_file: bool,
)
    requires
        without_end(directory) == directory,
        is_plain_name(name),
    ensures
        ({
            let path = join_of(directory, name);
            let own = same_folded(name, encode_utf8("DivineKnockout.exe"@));
            &&& !nested_is_file && is_file && own ==> accepted_executable(path, false, is_file)
                == Ok::<Seq<u8>, Seq<u8>>(path)
            &&& !nested_is_file && !(is_file && own) ==> accepted_executable(path, false, is_file)
                == Err::<Seq<u8>, Seq<u8>>(path)
            &&& is_file ==> accepted_executable(path, true, is_file) == Ok::<Seq<u8>, Seq<u8>>(
                join_of(
                    directory,
                    encode_utf8("DivineKnockout/Binaries/Win64/DivineKnockout.exe"@),
                ),
            )
        }),
{
    law_joined_path_comes_apart(directory, name);
    lemma_nested_game(directory);
}

proof fn lemma_ascii(s: Seq<char>)
    requires
        is_ascii_chars(s),
        !s.contains('/'),
        s.len() > 2,
    ensures
        is_plain_name(encode_utf8(s)),
{
    vstd::utf8::is_ascii_chars_encode_utf8(s);
    let bytes = encode_utf8(s);
    assert forall|i: int| 0 <= i < bytes.len() implies bytes[i] != 47 by {
        assert(s.contains(s[i]));
        assert(bytes[i] == s[i] as u8);
    }
    assert(bytes.len() > 2);
    assert(seq![46u8].len() == 1 && seq![46u8, 46u8].len() == 2);
}

proof fn lemma_nested_game(directory: Seq<u8>)
    requires
        without_end(directory) == directory,
    ensures
        ({
            let nested = join_of(
                directory,
                encode_utf8("DivineKnockout/Binaries/Win64/DivineKnockout.exe"@),
            );
            name_of(nested) == Some(encode_utf8("DivineKnockout.exe"@))
        }),
{
    reveal_strlit("DivineKnockout/Binaries/Win64/DivineKnockout.exe");
    reveal_strlit("DivineKnockout.exe");
    reveal_strlit("DivineKnockout");
    reveal_strlit("Binaries");
    reveal_strlit("Win64");
    let whole = "DivineKnockout/Binaries/Win64/DivineKnockout.exe"@;
    let a = encode_utf8("DivineKnockout"@);
    let b = encode_utf8("Binaries"@);
    let c = encode_utf8("Win64"@);
    let d = encode_utf8("DivineKnockout.exe"@);
    lemma_ascii("DivineKnockout"@);
    lemma_ascii("Binaries"@);
    lemma_ascii("Win64"@);
    lemma_ascii("DivineKnockout.exe"@);
    vstd::utf8::is_ascii_chars_encode_utf8(whole);
    vstd::utf8::is_ascii_chars_encode_utf8("DivineKnockout"@);
    vstd::utf8::is_ascii_chars_encode_utf8("Binaries"@);
    vstd::utf8::is_ascii_chars_encode_utf8("Win64"@);
    vstd::utf8::is_ascii_chars_encode_utf8("DivineKnockout.exe"@);
    assert(encode_utf8(whole) =~= a + seq![47u8] + b + seq![47u8] + c + seq![47u8] + d);
    let first = join_of(directory, a);
    lemma_joined_path_is_bare(directory, a);
    let second = join_of(first, b);
    lemma_joined_path_is_bare(first, b);
    let third = join_of(second, c);
    lemma_joined_path_is_bare(second, c);
    law_joined_path_comes_apart(third, d);
    assert(a[0] != 47 && b[0] != 47 && c[0] != 47 && d[0] != 47);
    assert(first.last() != 47 && second.last() != 47 && third.last() != 47) by {
        assert(first.last() == a.last() && a.contains(a.last()));
        assert(second.last() == b.last() && b.contains(b.last()));
        assert(third.last() == c.last() && c.contains(c.last()));
    }
    assert(join_of(third, d) =~= join_of(directory, encode_utf8(whole)));
}

/// The library of a game is the directory that holds its `steamapps`.
pub proof fn law_library_of_a_game(library: Seq<u8>, names: Seq<Seq<u8>>)
    requires
        without_end(library) == library,
        forall|i: int|
            0 <= i < names.len() ==> is_plain_name(#[trigger] names[i]) && names[i] != encode_utf8(
                "steamapps"@,
            ),
    ensures
        Paths::library_of(below(join_of(library, encode_utf8("steamapps"@)), names)) == Some(
            library,
        ),
{
    reveal_strlit("steamapps");
    lemma_ascii("steamapps"@);
    let steamapps = encode_utf8("steamapps"@);
    law_joined_path_comes_apart(library, steamapps);
    lemma_joined_path_is_bare(library, steamapps);
    law_directories_are_found_upwards(library, steamapps, steamapps);
    lemma_found_from_below(join_of(library, steamapps), names, steamapps);
}

/// A path that leads through directories of these names.
pub open spec fn below(directory: Seq<u8>, names: Seq<Seq<u8>>) -> Seq<u8>
    decreases names.len(),
{
    if names.len() == 0 {
        directory
    } else {
        join_of(below(directory, names.drop_last()), names.last())
    }
}

proof fn lemma_found_from_below(directory: Seq<u8>, names: Seq<Seq<u8>>, wanted: Seq<u8>)
    requires
        without_end(directory) == directory,
        forall|i: int|
            0 <= i < names.len() ==> is_plain_name(#[trigger] names[i]) && names[i] != wanted,
    ensures
        without_end(below(directory, names)) == below(directory, names),
        nearest_named(below(directory, names), wanted) == nearest_named(directory, wanted),
    decreases names.len(),
{
    if names.len() > 0 {
        let front = names.drop_last();
        assert forall|i: int| 0 <= i < front.len() implies is_plain_name(#[trigger] front[i])
            && front[i] != wanted by {
            assert(is_plain_name(names[i]));
        }
        lemma_found_from_below(directory, front, wanted);
        assert(is_plain_name(names[names.len() - 1]));
        lemma_joined_path_is_bare(below(directory, front), names.last());
        law_directories_are_found_upwards(below(directory, front), names.last(), wanted);
    }
}

proof fn lemma_bytes_of_both(a: Seq<char>, b: Seq<char>)
    ensures
        encode_utf8(a + b) == encode_utf8(a) + encode_utf8(b),
    decreases a.len(),
{
    if a.len() == 0 {
        assert(a + b =~= b);
        assert(encode_utf8(a) + encode_utf8(b) =~= encode_utf8(b));
    } else {
        assert((a + b).drop_first() =~= a.drop_first() + b);
        lemma_bytes_of_both(a.drop_first(), b);
        assert(encode_utf8(a + b) =~= encode_utf8(a) + encode_utf8(b));
    }
}

proof fn lemma_one_path(directory: Seq<u8>, names: Seq<Seq<u8>>)
    requires
        names.len() > 0,
        forall|i: int| 0 <= i < names.len() ==> is_plain_name(#[trigger] names[i]),
    ensures
        below(directory, names) == join_of(directory, joined(names, seq![47u8])),
        joined(names, seq![47u8]).len() > 0,
        joined(names, seq![47u8])[0] == names[0][0],
        names[0][0] != 47,
        joined(names, seq![47u8]).last() != 47,
    decreases names.len(),
{
    let last = names.last();
    assert(is_plain_name(names[0]));
    assert(is_plain_name(names[names.len() - 1]));
    assert(names[0].contains(names[0][0]));
    assert(last.contains(last[0]) && last.contains(last.last()));
    if names.len() == 1 {
        assert(names.drop_last() =~= Seq::empty());
        assert(below(directory, names.drop_last()) == directory);
    } else {
        let front = names.drop_last();
        assert forall|i: int| 0 <= i < front.len() implies is_plain_name(#[trigger] front[i]) by {
            assert(is_plain_name(names[i]));
        }
        lemma_one_path(directory, front);
        assert(front[0] == names[0]);
        assert(below(directory, names) =~= join_of(directory, joined(names, seq![47u8])));
    }
}

/// The state of the game is kept in its library under its number, with the Windows
/// installation in it.
pub proof fn law_state_of_the_game(library: Seq<u8>)
    ensures
        compat_data_in(library) == below(
            library,
            seq![encode_utf8("steamapps"@), encode_utf8("compatdata"@), encode_utf8("1294660"@)],
        ),
        prefix_in(compat_data_in(library)) == below(
            compat_data_in(library),
            seq![encode_utf8("pfx"@)],
        ),
{
    reveal_strlit("steamapps/compatdata/1294660");
    reveal_strlit("steamapps");
    reveal_strlit("compatdata");
    reveal_strlit("1294660");
    reveal_strlit("pfx");
    let whole = "steamapps/compatdata/1294660"@;
    let a = encode_utf8("steamapps"@);
    let b = encode_utf8("compatdata"@);
    let c = encode_utf8("1294660"@);
    lemma_ascii("steamapps"@);
    lemma_ascii("compatdata"@);
    lemma_ascii("1294660"@);
    lemma_ascii("pfx"@);
    vstd::utf8::is_ascii_chars_encode_utf8(whole);
    vstd::utf8::is_ascii_chars_encode_utf8("steamapps"@);
    vstd::utf8::is_ascii_chars_encode_utf8("compatdata"@);
    vstd::utf8::is_ascii_chars_encode_utf8("1294660"@);
    assert(encode_utf8(whole) =~= a + seq![47u8] + b + seq![47u8] + c);
    let names = seq![a, b, c];
    lemma_one_path(library, names);
    let two = names.drop_last();
    assert(two =~= seq![a, b]);
    assert(two.drop_last() =~= seq![a]);
    assert(joined(two.drop_last(), seq![47u8]) == a);
    assert(joined(two, seq![47u8]) =~= a + seq![47u8] + b);
    assert(joined(names, seq![47u8]) =~= encode_utf8(whole));
    let prefix = seq![encode_utf8("pfx"@)];
    lemma_one_path(compat_data_in(library), prefix);
    assert(joined(prefix, seq![47u8]) =~= encode_utf8("pfx"@));
}

/// The log of the game is in its own directory among the local data of that
/// installation.
pub proof fn law_place_of_the_log(prefix: Seq<u8>, homedir: Seq<char>)
    requires
        is_plain_name(encode_utf8(homedir)),
    ensures
        log_in(prefix, homedir) == below(
            prefix,
            seq![
                encode_utf8("drive_c"@),
                encode_utf8("users"@),
                encode_utf8("steamuser"@),
                encode_utf8("AppData"@),
                encode_utf8("Local"@),
                encode_utf8(homedir),
                encode_utf8("Saved"@),
                encode_utf8("Logs"@),
                encode_utf8("DivineKnockout.log"@),
            ],
        ),
{
    let start = "drive_c/users/steamuser/AppData/Local/"@;
    let end = "/Saved/Logs/DivineKnockout.log"@;
    reveal_strlit("drive_c/users/steamuser/AppData/Local/");
    reveal_strlit("/Saved/Logs/DivineKnockout.log");
    reveal_strlit("drive_c");
    reveal_strlit("users");
    reveal_strlit("steamuser");
    reveal_strlit("AppData");
    reveal_strlit("Local");
    reveal_strlit("Saved");
    reveal_strlit("Logs");
    reveal_strlit("DivineKnockout.log");
    lemma_ascii("drive_c"@);
    lemma_ascii("users"@);
    lemma_ascii("steamuser"@);
    lemma_ascii("AppData"@);
    lemma_ascii("Local"@);
    lemma_ascii("Saved"@);
    lemma_ascii("Logs"@);
    lemma_ascii("DivineKnockout.log"@);
    vstd::utf8::is_ascii_chars_encode_utf8(start);
    vstd::utf8::is_ascii_chars_encode_utf8(end);
    vstd::utf8::is_ascii_chars_encode_utf8("drive_c"@);
    vstd::utf8::is_ascii_chars_encode_utf8("users"@);
    vstd::utf8::is_ascii_chars_encode_utf8("steamuser"@);
    vstd::utf8::is_ascii_chars_encode_utf8("AppData"@);
    vstd::utf8::is_ascii_chars_encode_utf8("Local"@);
    vstd::utf8::is_ascii_chars_encode_utf8("Saved"@);
    vstd::utf8::is_ascii_chars_encode_utf8("Logs"@);
    vstd::utf8::is_ascii_chars_encode_utf8("DivineKnockout.log"@);
    let slash = seq![47u8];
    let own = encode_utf8(homedir);
    let front = seq![
        encode_utf8("drive_c"@),
        encode_utf8("users"@),
        encode_utf8("steamuser"@),
        encode_utf8("AppData"@),
        encode_utf8("Local"@),
    ];
    assert(front.drop_last() =~= front.take(4));
    assert(front.take(4).drop_last() =~= front.take(3));
    assert(front.take(3).drop_last() =~= front.take(2));
    assert(front.take(2).drop_last() =~= front.take(1));
    assert(joined(front, slash) + slash =~= encode_utf8(start)) by {
        assert(joined(front.take(1), slash) == front[0]);
        assert(joined(front.take(2), slash) == front[0] + slash + front[1]);
        assert(joined(front.take(3), slash) == front[0] + slash + front[1] + slash + front[2]);
        assert(joined(front.take(4), slash) == front[0] + slash + front[1] + slash + front[2] + slash
            + front[3]);
    }
    let back = seq![
        own,
        encode_utf8("Saved"@),
        encode_utf8("Logs"@),
        encode_utf8("DivineKnockout.log"@),
    ];
    let names = front + back;
    assert(names.drop_last() =~= names.take(8));
    assert(names.take(8).drop_last() =~= names.take(7));
    assert(names.take(7).drop_last() =~= names.take(6));
    assert(names.take(6).drop_last() =~= front);
    assert(joined(names, slash) =~= joined(front, slash) + slash + own + encode_utf8(end)) by {
        assert(joined(names.take(6), slash) == joined(front, slash) + slash + own);
        assert(joined(names.take(7), slash) == joined(front, slash) + slash + own + slash + back[1]);
        assert(joined(names.take(8), slash) == joined(front, slash) + slash + own + slash + back[1]
            + slash + back[2]);
        assert(encode_utf8(end) =~= slash + back[1] + slash + back[2] + slash + back[3]);
    }
    lemma_bytes_of_both(start, homedir);
    lemma_bytes_of_both(start + homedir, end);
    lemma_one_path(prefix, names);
    assert(names =~= seq![
        encode_utf8("drive_c"@),
        encode_utf8("users"@),
        encode_utf8("steamuser"@),
        encode_utf8("AppData"@),
        encode_utf8("Local"@),
        encode_utf8(homedir),
        encode_utf8("Saved"@),
        encode_utf8("Logs"@),
        encode_utf8("DivineKnockout.log"@),
    ]);
}

proof fn lemma_slashes_are_turned(s: Seq<char>)
    ensures
        replaced(s, seq!['/'], seq!['\\']).len() == s.len(),
        forall|i: int|
            0 <= i < s.len() ==> #[trigger] replaced(s, seq!['/'], seq!['\\'])[i] == (if s[i]
                == '/' {
                '\\'
            } else {
                s[i]
            }),
    decreases s.len(),
{
    if s.len() > 0 {
        let slash = seq!['/'];
        let rest = s.skip(1);
        lemma_slashes_are_turned(rest);
        let turned = replaced(rest, slash, seq!['\\']);
        assert(occurs_at(s, slash, 0) <==> s[0] == '/') by {
            assert(s.subrange(0, 1) =~= seq![s[0]]);
            assert(seq![s[0]][0] == s[0]);
            assert(slash[0] == '/');
        }
        let whole = replaced(s, slash, seq!['\\']);
        assert forall|i: int| 0 <= i < s.len() implies #[trigger] whole[i] == (if s[i] == '/' {
            '\\'
        } else {
            s[i]
        }) by {
            if i > 0 {
                assert(whole[i] == turned[i - 1]);
                assert(rest[i - 1] == s[i]);
            }
        }
    }
}

/// The game is told of its log as Windows would name it: on the drive that stands for
/// the root, every slash turned around and nothing else changed.
pub proof fn law_log_argument(path: Seq<u8>, i: int)
    ensures
        abslog_argument(path).len() == 10 + lossy_text(path).len(),
        abslog_argument(path).take(10) == seq!['-', 'A', 'B', 'S', 'L', 'O', 'G', '=', 'Z', ':'],
        0 <= i < lossy_text(path).len() ==> abslog_argument(path)[10 + i] == (if lossy_text(path)[i]
            == '/' {
            '\\'
        } else {
            lossy_text(path)[i]
        }),
{
    reveal_strlit("-ABSLOG=Z:");
    lemma_slashes_are_turned(lossy_text(path));
    assert(abslog_argument(path).take(10) =~= seq![
        '-',
        'A',
        'B',
        'S',
        'L',
        'O',
        'G',
        '=',
        'Z',
        ':',
    ]);
}

/// A file goes by its name, whatever the case of its letters.
pub proof fn law_files_go_by_their_names(directory: Seq<u8>, name: Seq<u8>, wanted: Seq<char>)
    requires
        without_end(directory) == directory,
        is_plain_name(name),
    ensures
        is_named(join_of(directory, name), wanted) <==> lowercase_bytes(name) == lowercase_bytes(
            encode_utf8(wanted),
        ),
{
    law_joined_path_comes_apart(directory, name);
    let other = encode_utf8(wanted);
    if same_folded(name, other) {
        assert(lowercase_bytes(name) =~= lowercase_bytes(other)) by {
            lemma_folded_bytes(name, other);
        }
    }
    if lowercase_bytes(name) == lowercase_bytes(other) {
        lemma_folded_bytes(name, other);
    }
}

/// The bytes of a text in lower case.
pub open spec fn lowercase_bytes(s: Seq<u8>) -> Seq<u8> {
    Seq::new(
        s.len(),
        |i: int|
            if 65 <= s[i] <= 90 {
                (s[i] + 32) as u8
            } else {
                s[i]
            },
    )
}

proof fn lemma_folded_bytes(a: Seq<u8>, b: Seq<u8>)
    ensures
        same_folded(a, b) <==> lowercase_bytes(a) == lowercase_bytes(b),
{
    assert(lowercase(a) =~= lowercase_bytes(a));
    assert(lowercase(b) =~= lowercase_bytes(b));
}

} // verus!
