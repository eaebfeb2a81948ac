//! Tools and runtimes: what else holds of where they are, and of what is refused.
use crate::windows_paths;
use crate::dialog::lossy_text;
use crate::install::{retail_of, runtime_of, RetailError};
use crate::laws::runtime::is_directory;
use crate::laws::steam::{
    has_candidate, law_entries_are_found_by_name, law_installed_tools_have_launchers, only,
};
use crate::laws::windows_system::{
    is_plain_directory, is_windows_name, law_windows_files_are_renamed,
    law_windows_paths_come_apart,
};
use crate::p2p::wire::{payload_of, sequence_of, Cipher};
use crate::paths::{
    is_plain_name, join_of, law_joined_path_comes_apart, lemma_joined_path_is_bare, same_path,
};
use crate::process::libraries::has_path;
use crate::process::proton::{
    candidates_in, distinct_paths, has_tool, installed, own_tools, release_id, same_tool,
    search_roots, ToolModel,
};
use crate::process::vdf::{law_rendered_file_is_read_back, nesting, parsed, rendered, Vdf};
use crate::text::{decimal_text, law_decimal_round_trip, pieces, same_folded};
use vstd::prelude::*;
use vstd::utf8::{encode_utf8, is_ascii_chars};

verus! {

/// The tools that a directory's own description names come first, each where the
/// description says, and in the directory itself where it says nothing.
pub proof fn law_described_tools_come_first(
    directory: Seq<u8>,
    entries: Seq<(Seq<char>, Vdf)>,
    i: int,
    path: Seq<char>,
)
    requires
        nesting(
            only("compatibilitytools"@, Vdf::Object(only("compat_tools"@, Vdf::Object(entries)))),
        ) <= 32,
        0 <= i < entries.len(),
    ensures
        ({
            let text = rendered(
                only(
                    "compatibilitytools"@,
                    Vdf::Object(only("compat_tools"@, Vdf::Object(entries))),
                ),
            );
            let all = candidates_in(directory, Some(text));
            &&& all.len() == entries.len() + own_tools(directory).len()
            &&& all[i].name == entries[i].0
            &&& entries[i].1.get("install_path"@) == Some(Vdf::Text(path)) ==> all[i].path
                == join_of(directory, encode_utf8(path))
            &&& entries[i].1.get("install_path"@) is None ==> all[i].path == join_of(
                directory,
                encode_utf8("."@),
            )
        }),
{
    let tools = Vdf::Object(entries);
    let inner = Vdf::Object(only("compat_tools"@, tools));
    let whole = only("compatibilitytools"@, inner);
    law_rendered_file_is_read_back(whole);
    let none = Seq::<(Seq<char>, Vdf)>::empty();
    law_entries_are_found_by_name(none, "compatibilitytools"@, inner, none, "compatibilitytools"@);
    law_entries_are_found_by_name(none, "compat_tools"@, tools, none, "compat_tools"@);
    assert(none + seq![("compatibilitytools"@, inner)] + none =~= whole);
    assert(none + seq![("compat_tools"@, tools)] + none =~= only("compat_tools"@, tools));
}

/// A description that cannot be read names no tools.
pub proof fn law_unreadable_descriptions_name_nothing(directory: Seq<u8>, text: Seq<char>)
    requires
        parsed(text) is None,
    ensures
        candidates_in(directory, Some(text)) == own_tools(directory),
{
    assert(candidates_in(directory, Some(text)) =~= own_tools(directory));
}

proof fn lemma_distinct_prefix(a: Seq<Seq<u8>>, b: Seq<Seq<u8>>)
    ensures
        distinct_paths(a).is_prefix_of(distinct_paths(a + b)),
        distinct_paths(a).len() <= distinct_paths(a + b).len(),
    decreases b.len(),
{
    if b.len() == 0 {
        assert(a + b =~= a);
        assert(distinct_paths(a) =~= distinct_paths(a).subrange(0, distinct_paths(a).len() as int));
    } else {
        assert((a + b).drop_last() =~= a + b.drop_last());
        lemma_distinct_prefix(a, b.drop_last());
        let start = distinct_paths(a);
        let before = distinct_paths(a + b.drop_last());
        let all = distinct_paths(a + b);
        assert(start == before.subrange(0, start.len() as int));
        assert(all.subrange(0, start.len() as int) =~= before.subrange(0, start.len() as int));
    }
}

/// Steam's own directory is searched first. What the player adds is searched last, and
/// changes nothing of the order of the rest.
pub proof fn law_order_of_the_search(
    steam_root: Seq<u8>,
    libraries: Seq<Seq<u8>>,
    extra: Seq<u8>,
)
    ensures
        search_roots(steam_root, libraries, None).len() >= 1,
        search_roots(steam_root, libraries, None)[0] == join_of(
            steam_root,
            encode_utf8("compatibilitytools.d"@),
        ),
        search_roots(steam_root, libraries, None).is_prefix_of(
            search_roots(steam_root, libraries, Some(extra)),
        ),
{
    let first = seq![join_of(steam_root, encode_utf8("compatibilitytools.d"@))];
    let system = seq![
        encode_utf8("/usr/local/share/steam/compatibilitytools.d"@),
        encode_utf8("/usr/share/steam/compatibilitytools.d"@),
    ];
    let rest = crate::process::proton::library_tool_roots(libraries) + system;
    let list = first + crate::process::proton::library_tool_roots(libraries) + system;
    assert(list =~= first + rest);
    lemma_distinct_prefix(first, rest);
    assert(first.drop_last() =~= Seq::empty());
    let none = distinct_paths(first.drop_last());
    assert(none =~= Seq::empty());
    assert(!has_path(none, first[0]));
    assert(distinct_paths(first) =~= first);
    assert(distinct_paths(list).subrange(0, 1)[0] == first[0]);
    assert(list + Seq::<Seq<u8>>::empty() =~= list);
    lemma_distinct_prefix(list, pieces(extra, 58u8));
}

/// Names that do not follow the pattern of releases are no releases.
pub proof fn law_other_names_are_no_releases(name: Seq<char>, n: int)
    requires
        n >= 0,
    ensures
        name.len() < 7 || name.take(7) != "Proton "@ ==> release_id(name) is None,
        release_id("Proton "@ + decimal_text(n)) is None,
{
    reveal_strlit("Proton ");
    reveal_strlit("Proton - Experimental");
    reveal_strlit("Proton Hotfix");
    reveal_strlit("Proton Next");
    let prefix = "Proton "@;
    assert("Proton - Experimental"@.take(7) =~= prefix);
    assert("Proton Hotfix"@.take(7) =~= prefix);
    assert("Proton Next"@.take(7) =~= prefix);
    if prefix.is_prefix_of(name) {
        assert(name.take(7) =~= name.subrange(0, 7));
    }
    let number = decimal_text(n);
    law_decimal_round_trip(n);
    let whole = prefix + number;
    assert(whole.skip(7) =~= number);
    assert(crate::text::is_digit(number[0]));
    assert(whole[7] == number[0]);
    assert("Proton - Experimental"@[7] == '-' && "Proton Hotfix"@[7] == 'H' && "Proton Next"@[7]
        == 'N');
    assert(!number.contains('.')) by {
        if number.contains('.') {
            let k = choose|k: int| 0 <= k < number.len() && number[k] == '.';
            assert(crate::text::is_digit(number[k]));
        }
    }
    crate::laws::text::law_text_is_split_at_the_first_separator(number, Seq::empty(), '.');
}

/// An executable outside of a directory `DivineKnockout` is not the game's.
pub proof fn law_executables_outside_the_game(directory: Seq<u8>, names: Seq<Seq<u8>>)
    requires
        is_directory(directory),
        names.len() == 4,
        is_plain_name(names[0]) && is_plain_name(names[1]) && is_plain_name(names[2])
            && is_plain_name(names[3]),
        names[0] != encode_utf8("DivineKnockout"@),
    ensures
        retail_of(
            join_of(join_of(join_of(join_of(directory, names[0]), names[1]), names[2]), names[3]),
            false,
        ) == Err::<(Seq<u8>, Seq<u8>), RetailError>(RetailError::OutsideGame),
{
    let a = join_of(directory, names[0]);
    let b = join_of(a, names[1]);
    let c = join_of(b, names[2]);
    lemma_joined_path_is_bare(directory, names[0]);
    lemma_joined_path_is_bare(a, names[1]);
    lemma_joined_path_is_bare(b, names[2]);
    law_joined_path_comes_apart(directory, names[0]);
    law_joined_path_comes_apart(a, names[1]);
    law_joined_path_comes_apart(b, names[2]);
    law_joined_path_comes_apart(c, names[3]);
}

proof fn lemma_windows_name(s: Seq<char>)
    requires
        is_ascii_chars(s),
        s.len() > 2,
        forall|i: int| 0 <= i < s.len() ==> #[trigger] s[i] != '/' && s[i] != '\\' && s[i] != ':',
    ensures
        is_windows_name(encode_utf8(s)),
{
    vstd::utf8::is_ascii_chars_encode_utf8(s);
    let bytes = encode_utf8(s);
    assert forall|i: int| 0 <= i < bytes.len() implies #[trigger] bytes[i] != 47 && bytes[i] != 92
        && bytes[i] != 58 by {
        assert(s[i] != '/');
        assert(bytes[i] == s[i] as u8);
    }
    assert(seq![46u8].len() == 1 && seq![46u8, 46u8].len() == 2);
}

proof fn lemma_windows_names()
    ensures
        is_windows_name(encode_utf8("DivineKnockout"@)),
        is_windows_name(encode_utf8("Binaries"@)),
        is_windows_name(encode_utf8("Win64"@)),
{
    reveal_strlit("DivineKnockout");
    reveal_strlit("Binaries");
    reveal_strlit("Win64");
    lemma_windows_name("DivineKnockout"@);
    lemma_windows_name("Binaries"@);
    lemma_windows_name("Win64"@);
}

proof fn lemma_windows_step(directory: Seq<u8>, name: Seq<u8>)
    requires
        is_plain_directory(directory),
        is_windows_name(name),
    ensures
        is_plain_directory(windows_paths::join_of(directory, name)),
        windows_paths::name_of(windows_paths::join_of(directory, name)) == Some(name),
        windows_paths::parent_of(windows_paths::join_of(directory, name)) == Some(directory),
        windows_paths::volume_of(windows_paths::join_of(directory, name)) == Some(
            directory.take(2),
        ),
{
    law_windows_paths_come_apart(directory, name);
    law_windows_files_are_renamed(directory, name, name);
}

/// The executable of a game on Windows, in the place that it has in the game.
pub open spec fn windows_executable(root: Seq<u8>, name: Seq<u8>) -> Seq<u8> {
    windows_paths::join_of(
        windows_paths::join_of(
            windows_paths::join_of(
                windows_paths::join_of(root, encode_utf8("DivineKnockout"@)),
                encode_utf8("Binaries"@),
            ),
            encode_utf8("Win64"@),
        ),
        name,
    )
}

/// The game around an executable on Windows has its root above `DivineKnockout`.
pub proof fn law_game_around_a_windows_executable(root: Seq<u8>, name: Seq<u8>)
    requires
        is_plain_directory(root),
        is_windows_name(name),
    ensures
        retail_of(windows_executable(root, name), true) == Ok::<(Seq<u8>, Seq<u8>), RetailError>(
            (
                root,
                windows_paths::join_of(
                    windows_paths::join_of(root, encode_utf8("DivineKnockout"@)),
                    encode_utf8("Content/Paks/pakchunk0-WindowsNoEditor.pak"@),
                ),
            ),
        ),
{
    lemma_windows_names();
    let game = windows_paths::join_of(root, encode_utf8("DivineKnockout"@));
    let binaries = windows_paths::join_of(game, encode_utf8("Binaries"@));
    let win64 = windows_paths::join_of(binaries, encode_utf8("Win64"@));
    lemma_windows_step(root, encode_utf8("DivineKnockout"@));
    lemma_windows_step(game, encode_utf8("Binaries"@));
    lemma_windows_step(binaries, encode_utf8("Win64"@));
    lemma_windows_step(win64, name);
}

proof fn lemma_volume(directory: Seq<u8>)
    requires
        is_plain_directory(directory),
    ensures
        windows_paths::volume_of(directory) == Some(directory.take(2)),
{
}

/// On Windows the runtime is with the launcher's data when the game is on the same
/// drive, and beside the game on any other.
pub proof fn law_runtime_on_windows(data: Seq<u8>, outside: Seq<u8>, folder: Seq<u8>, name: Seq<u8>)
    requires
        is_plain_directory(data),
        is_plain_directory(outside),
        is_windows_name(folder),
        is_windows_name(name),
    ensures
        ({
            let executable = windows_executable(windows_paths::join_of(outside, folder), name);
            let together = same_folded(lossy_text(data.take(2)), lossy_text(outside.take(2)));
            &&& together ==> runtime_of(data, executable, true) == Ok::<Seq<u8>, RetailError>(
                windows_paths::join_of(data, encode_utf8("runtime"@)),
            )
            &&& !together ==> runtime_of(data, executable, true) == Ok::<Seq<u8>, RetailError>(
                windows_paths::join_of(outside, encode_utf8(".project-knockout-dko-runtime"@)),
            )
            &&& data.take(2) == outside.take(2) ==> together
        }),
{
    let root = windows_paths::join_of(outside, folder);
    lemma_windows_step(outside, folder);
    law_game_around_a_windows_executable(root, name);
    lemma_volume(data);
}

/// A frame of another pair, of the wrong side, too short or too long brings nothing.
pub proof fn law_other_frames_bring_nothing(cipher: Cipher, frame: Seq<u8>, role: u8)
    ensures
        frame.len() < 42 || frame.len() > 65549 ==> cipher.delivered(frame, role) is None,
        frame.len() >= 42 && frame.take(16) != cipher.id@ ==> cipher.delivered(frame, role) is None,
        frame.len() >= 42 && frame[16] != role ==> cipher.delivered(frame, role) is None,
        !cipher.received.admits(sequence_of(frame)) ==> cipher.delivered(frame, role) is None,
        payload_of(cipher.key@, role, frame) is None ==> cipher.delivered(frame, role) is None,
{
    if frame.len() >= 42 {
        assert(frame.take(16) =~= frame.subrange(0, 16));
    }
}

/// Tools are kept in the order in which they were found: more of them come behind.
pub proof fn law_tools_stay_in_order(
    candidates: Seq<ToolModel>,
    has_launcher: Seq<bool>,
    more: ToolModel,
    there: bool,
)
    requires
        candidates.len() == has_launcher.len(),
    ensures
        installed(candidates, has_launcher).is_prefix_of(
            installed(candidates.push(more), has_launcher.push(there)),
        ),
        !there ==> installed(candidates.push(more), has_launcher.push(there)) == installed(
            candidates,
            has_launcher,
        ),
{
    lemma_installed_prefix(candidates, has_launcher, there);
    assert(candidates.push(more).drop_last() =~= candidates);
    let before = installed(candidates, has_launcher);
    let after = installed(candidates.push(more), has_launcher.push(there));
    assert(before =~= after.subrange(0, before.len() as int));
}

proof fn lemma_installed_prefix(candidates: Seq<ToolModel>, has_launcher: Seq<bool>, there: bool)
    requires
        candidates.len() <= has_launcher.len(),
    ensures
        installed(candidates, has_launcher.push(there)) == installed(candidates, has_launcher),
    decreases candidates.len(),
{
    if candidates.len() > 0 {
        lemma_installed_prefix(candidates.drop_last(), has_launcher, there);
        assert(has_launcher.push(there)[candidates.len() - 1] == has_launcher[candidates.len()
            - 1]);
    }
}

/// A tool is known by its place and its name: of two that share only one of these both
/// are kept, and of two that share both only the first.
pub proof fn law_tools_of_one_name_in_two_places(
    candidates: Seq<ToolModel>,
    has_launcher: Seq<bool>,
    more: ToolModel,
)
    requires
        candidates.len() == has_launcher.len(),
    ensures
        (forall|k: int|
            0 <= k < candidates.len() ==> (#[trigger] candidates[k]).name != more.name || !same_path(
                candidates[k].path,
                more.path,
            )) ==> installed(candidates.push(more), has_launcher.push(true)) == installed(
            candidates,
            has_launcher,
        ).push(more),
        (exists|k: int|
            0 <= k < candidates.len() && has_launcher[k] && (#[trigger] candidates[k]) == more)
            ==> installed(candidates.push(more), has_launcher.push(true)) == installed(
            candidates,
            has_launcher,
        ),
{
    lemma_installed_prefix(candidates, has_launcher, true);
    law_installed_tools_have_launchers(candidates, has_launcher);
    assert(candidates.push(more).drop_last() =~= candidates);
    let before = installed(candidates, has_launcher);
    if has_tool(before, more) {
        let k = choose|k: int| 0 <= k < before.len() && same_tool(#[trigger] before[k], more);
        assert(has_candidate(candidates, has_launcher, before[k]));
        let i = choose|i: int|
            0 <= i < candidates.len() && has_launcher[i] && #[trigger] candidates[i] == before[k];
        assert(candidates[i].name == more.name);
    }
}

} // verus!
