//! Steam's files: which compatibility tool is used, and where games and tools are.
use crate::laws::runtime::is_directory;
use crate::laws::text::law_text_is_split_at_the_first_separator;
use crate::paths::{is_plain_name, is_rooted, join_of, law_joined_path_comes_apart, same_path};
use crate::process::libraries::{
    has_path, is_game_library, library_roots, listed_path, with_document, with_entries,
};
use crate::process::proton::{
    candidates_in, declared_tools, distinct_paths, has_release, has_tool, installed, is_choice,
    library_tool_roots, own_tools, release_id, release_version, same_tool, search_roots, ToolModel,
};
use crate::process::vdf::{
    entry_from, law_rendered_file_is_read_back, nesting, parsed, rendered, selected_tool, text_in,
    Vdf,
};
use crate::text::{
    decimal_text, is_digit, law_decimal_round_trip, maybe_text, number_of, pieces, same_folded,
};
use vstd::prelude::*;
use vstd::utf8::{decode_utf8, encode_utf8, valid_utf8};

verus! {

/// The tool that the player chose for the game is used, whatever is set for all games;
/// what is set for all games counts only without such a choice.
pub proof fn law_choice_for_the_game_wins(tools: Seq<ToolModel>, config: Seq<char>, i: int)
    requires
        is_choice(tools, config, i),
    ensures
        0 <= i < tools.len(),
        selected_tool(config, "1294660"@) matches Some(name) ==> tools[i].name == name,
        selected_tool(config, "1294660"@) is None ==> (selected_tool(config, "0"@) matches Some(name)
            ==> tools[i].name == name),
{
}

/// An entry of a list is found by its name, in any case; the first of several counts.
pub proof fn law_entries_are_found_by_name(
    before: Seq<(Seq<char>, Vdf)>,
    name: Seq<char>,
    value: Vdf,
    after: Seq<(Seq<char>, Vdf)>,
    key: Seq<char>,
)
    requires
        forall|i: int| 0 <= i < before.len() ==> !same_folded((#[trigger] before[i]).0, key),
        same_folded(name, key),
    ensures
        Vdf::Object(before + seq![(name, value)] + after).get(key) == Some(value),
        Vdf::Object(before).get(key) is None,
        Vdf::Text(name).get(key) is None,
        Vdf::Text(name).text() == Some(name),
{
    let all = before + seq![(name, value)] + after;
    lemma_entry_is_found(all, key, 0, before.len() as int);
    lemma_entry_is_missing(before, key, 0);
}

proof fn lemma_entry_is_found(all: Seq<(Seq<char>, Vdf)>, key: Seq<char>, from: int, k: int)
    requires
        0 <= from <= k < all.len(),
        forall|i: int| from <= i < k ==> !same_folded((#[trigger] all[i]).0, key),
        same_folded(all[k].0, key),
    ensures
        entry_from(all, key, from) == Some(all[k].1),
    decreases k - from,
{
    if from < k {
        lemma_entry_is_found(all, key, from + 1, k);
    }
}

proof fn lemma_entry_is_missing(all: Seq<(Seq<char>, Vdf)>, key: Seq<char>, from: int)
    requires
        0 <= from,
        forall|i: int| from <= i < all.len() ==> !same_folded((#[trigger] all[i]).0, key),
    ensures
        entry_from(all, key, from) is None,
    decreases all.len() - from,
{
    if from < all.len() {
        lemma_entry_is_missing(all, key, from + 1);
    }
}

/// One entry.
pub open spec fn only(name: Seq<char>, value: Vdf) -> Seq<(Seq<char>, Vdf)> {
    seq![(name, value)]
}

/// The configuration in which Steam keeps the tools that were chosen.
pub open spec fn steam_entries(mapping: Seq<(Seq<char>, Vdf)>) -> Seq<(Seq<char>, Vdf)> {
    only(
        "InstallConfigStore"@,
        Vdf::Object(
            only(
                "Software"@,
                Vdf::Object(
                    only(
                        "Valve"@,
                        Vdf::Object(
                            only(
                                "Steam"@,
                                Vdf::Object(only("CompatToolMapping"@, Vdf::Object(mapping))),
                            ),
                        ),
                    ),
                ),
            ),
        ),
    )
}

proof fn lemma_only(name: Seq<char>, value: Vdf)
    ensures
        Vdf::Object(only(name, value)).get(name) == Some(value),
{
    let none = Seq::<(Seq<char>, Vdf)>::empty();
    assert(none + seq![(name, value)] + none =~= only(name, value));
    law_entries_are_found_by_name(none, name, value, none, name);
}

/// The tool for an application is the name in its entry of Steam's configuration file,
/// wherever the entry stands there; an empty name is no choice.
pub proof fn law_chosen_tool_is_read_from_the_file(
    before: Seq<(Seq<char>, Vdf)>,
    app: Seq<char>,
    earlier: Seq<(Seq<char>, Vdf)>,
    name: Seq<char>,
    later: Seq<(Seq<char>, Vdf)>,
    after: Seq<(Seq<char>, Vdf)>,
)
    requires
        forall|i: int| 0 <= i < before.len() ==> !same_folded((#[trigger] before[i]).0, app),
        forall|i: int| 0 <= i < earlier.len() ==> !same_folded((#[trigger] earlier[i]).0, "name"@),
        nesting(
            steam_entries(
                before + seq![
                    (app, Vdf::Object(earlier + seq![("name"@, Vdf::Text(name))] + later)),
                ] + after,
            ),
        ) <= 32,
    ensures
        selected_tool(
            rendered(
                steam_entries(
                    before + seq![
                        (app, Vdf::Object(earlier + seq![("name"@, Vdf::Text(name))] + later)),
                    ] + after,
                ),
            ),
            app,
        ) == if name.len() > 0 {
            Some(name)
        } else {
            None
        },
{
    let settings = Vdf::Object(earlier + seq![("name"@, Vdf::Text(name))] + later);
    let mapping = before + seq![(app, settings)] + after;
    let entries = steam_entries(mapping);
    law_rendered_file_is_read_back(entries);
    lemma_only("CompatToolMapping"@, Vdf::Object(mapping));
    let steam = Vdf::Object(only("CompatToolMapping"@, Vdf::Object(mapping)));
    lemma_only("Steam"@, steam);
    let valve = Vdf::Object(only("Steam"@, steam));
    lemma_only("Valve"@, valve);
    let software = Vdf::Object(only("Valve"@, valve));
    lemma_only("Software"@, software);
    let store = Vdf::Object(only("Software"@, software));
    lemma_only("InstallConfigStore"@, store);
    law_entries_are_found_by_name(before, app, settings, after, app);
    law_entries_are_found_by_name(earlier, "name"@, Vdf::Text(name), later, "name"@);
}

/// Among Valve's releases the newest is used when nothing was chosen.
pub proof fn law_newest_release_is_used(tools: Seq<ToolModel>, config: Seq<char>, i: int, j: int)
    requires
        is_choice(tools, config, i),
        selected_tool(config, "1294660"@) is None,
        selected_tool(config, "0"@) is None,
        0 <= j < tools.len(),
        release_version(tools[j].path) is Some,
    ensures
        release_version(tools[i].path) matches Some((major, minor)) && {
            let (other_major, other_minor) = release_version(tools[j].path)->0;
            major > other_major || (major == other_major && minor >= other_minor)
        },
{
    assert(has_release(tools));
}

/// Without a release the experimental one is used, and else the first tool there is.
pub proof fn law_any_tool_is_used_at_last(tools: Seq<ToolModel>, config: Seq<char>, i: int)
    requires
        is_choice(tools, config, i),
        selected_tool(config, "1294660"@) is None,
        selected_tool(config, "0"@) is None,
        forall|j: int|
            0 <= j < tools.len() ==> release_version((#[trigger] tools[j]).path) is None,
    ensures
        (exists|j: int| 0 <= j < tools.len() && (#[trigger] tools[j]).name == "proton_experimental"@)
            ==> tools[i].name == "proton_experimental"@,
        (forall|j: int|
            0 <= j < tools.len() ==> (#[trigger] tools[j]).name != "proton_experimental"@) ==> i == 0,
{
    assert(!has_release(tools));
}

/// The directory of a release tells its version, however large the numbers are.
pub proof fn law_directory_tells_the_version(directory: Seq<u8>, major: int, minor: int)
    requires
        is_directory(directory),
        0 <= major <= 4294967295,
        0 <= minor <= 4294967295,
    ensures
        release_version(
            join_of(
                directory,
                encode_utf8("Proton "@ + decimal_text(major) + seq!['.'] + decimal_text(minor)),
            ),
        ) == Some((major, minor)),
{
    reveal_strlit("Proton ");
    let a = decimal_text(major);
    let b = decimal_text(minor);
    let name = "Proton "@ + a + seq!['.'] + b;
    law_decimal_round_trip(major);
    law_decimal_round_trip(minor);
    assert(!a.contains('.')) by {
        if a.contains('.') {
            let k = choose|k: int| 0 <= k < a.len() && a[k] == '.';
            assert(is_digit(a[k]));
        }
    }
    law_text_is_split_at_the_first_separator(a, b, '.');
    assert(name.skip(7) =~= a + seq!['.'] + b);
    assert("Proton "@ =~= name.subrange(0, 7));
    crate::laws::text::law_numbers_are_read(major);
    crate::laws::text::law_numbers_are_read(minor);
    assert(vstd::utf8::is_ascii_chars(name)) by {
        assert forall|i: int| 0 <= i < name.len() implies '\0' <= #[trigger] name[i] && name[i]
            <= '\u{7f}' by {
            if 7 <= i < 7 + a.len() {
                assert(is_digit(a[i - 7]));
            } else if i > 7 + a.len() {
                assert(is_digit(b[i - 8 - a.len()]));
            }
        }
    }
    vstd::utf8::is_ascii_chars_encode_utf8(name);
    let bytes = encode_utf8(name);
    assert(is_plain_name(bytes)) by {
        assert(bytes.len() > 2);
        if bytes.contains(47) {
            let k = choose|k: int| 0 <= k < bytes.len() && bytes[k] == 47;
            assert(name[k] as u8 == bytes[k]);
            if 7 <= k < 7 + a.len() {
                assert(is_digit(a[k - 7]));
            } else if k > 7 + a.len() {
                assert(is_digit(b[k - 8 - a.len()]));
            }
        }
    }
    law_joined_path_comes_apart(directory, bytes);
    vstd::utf8::encode_utf8_valid_utf8(name);
    vstd::utf8::encode_utf8_decode_utf8(name);
}

/// Steam knows a release by its major version from the fifth on, and by both numbers
/// before that; three releases have names of their own.
pub proof fn law_names_of_releases(major: int, minor: int)
    requires
        0 <= major <= 4294967295,
        0 <= minor,
    ensures
        release_id("Proton "@ + decimal_text(major) + seq!['.'] + decimal_text(minor)) == Some(
            if major >= 5 {
                "proton_"@ + decimal_text(major)
            } else {
                "proton_"@ + decimal_text(major) + decimal_text(minor)
            },
        ),
        release_id("Proton - Experimental"@) == Some("proton_experimental"@),
        release_id("Proton Hotfix"@) == Some("proton_hotfix"@),
        release_id("Proton Next"@) == Some("proton_next"@),
{
    reveal_strlit("Proton ");
    reveal_strlit("Proton - Experimental");
    reveal_strlit("Proton Hotfix");
    reveal_strlit("Proton Next");
    let a = decimal_text(major);
    let b = decimal_text(minor);
    let name = "Proton "@ + a + seq!['.'] + b;
    law_decimal_round_trip(major);
    law_decimal_round_trip(minor);
    assert(!a.contains('.')) by {
        if a.contains('.') {
            let k = choose|k: int| 0 <= k < a.len() && a[k] == '.';
            assert(is_digit(a[k]));
        }
    }
    law_text_is_split_at_the_first_separator(a, b, '.');
    assert(name.skip(7) =~= a + seq!['.'] + b);
    assert("Proton "@ =~= name.subrange(0, 7));
    assert(is_digit(a[0]));
    assert(name[7] == a[0]);
    assert("Proton - Experimental"@[7] == '-');
    assert("Proton Hotfix"@[7] == 'H');
    assert("Proton Next"@[7] == 'N');
}

/// A tool counts as installed exactly when it is a candidate that has a launcher, and it
/// is listed once.
pub proof fn law_installed_tools_have_launchers(candidates: Seq<ToolModel>, has_launcher: Seq<bool>)
    requires
        candidates.len() == has_launcher.len(),
    ensures
        forall|i: int|
            0 <= i < candidates.len() && has_launcher[i] ==> has_tool(
                installed(candidates, has_launcher),
                #[trigger] candidates[i],
            ),
        forall|k: int|
            0 <= k < installed(candidates, has_launcher).len() ==> has_candidate(
                candidates,
                has_launcher,
                #[trigger] installed(candidates, has_launcher)[k],
            ),
        forall|k: int, m: int|
            0 <= k < m < installed(candidates, has_launcher).len() ==> !same_tool(
                #[trigger] installed(candidates, has_launcher)[k],
                #[trigger] installed(candidates, has_launcher)[m],
            ),
{
    lemma_installed(candidates, has_launcher);
}

proof fn lemma_same_tool(tool: ToolModel)
    ensures
        same_tool(tool, tool),
{
}

/// The tool is one of the candidates, and has a launcher there.
pub open spec fn has_candidate(
    candidates: Seq<ToolModel>,
    has_launcher: Seq<bool>,
    tool: ToolModel,
) -> bool {
    exists|i: int|
        0 <= i < candidates.len() && has_launcher[i] && #[trigger] candidates[i] == tool
}

proof fn lemma_installed(candidates: Seq<ToolModel>, has_launcher: Seq<bool>)
    requires
        candidates.len() <= has_launcher.len(),
    ensures
        forall|i: int|
            0 <= i < candidates.len() && has_launcher[i] ==> has_tool(
                installed(candidates, has_launcher),
                #[trigger] candidates[i],
            ),
        forall|k: int|
            0 <= k < installed(candidates, has_launcher).len() ==> has_candidate(
                candidates,
                has_launcher,
                #[trigger] installed(candidates, has_launcher)[k],
            ),
        forall|k: int, m: int|
            0 <= k < m < installed(candidates, has_launcher).len() ==> !same_tool(
                #[trigger] installed(candidates, has_launcher)[k],
                #[trigger] installed(candidates, has_launcher)[m],
            ),
    decreases candidates.len(),
{
    if candidates.len() > 0 {
        let front = candidates.drop_last();
        let n = candidates.len() - 1;
        lemma_installed(front, has_launcher);
        let before = installed(front, has_launcher);
        let all = installed(candidates, has_launcher);
        assert forall|i: int| 0 <= i < candidates.len() && has_launcher[i] implies has_tool(
            all,
            #[trigger] candidates[i],
        ) by {
            if i < n {
                assert(front[i] == candidates[i]);
                assert(has_tool(before, front[i]));
                let k = choose|k: int|
                    0 <= k < before.len() && same_tool(#[trigger] before[k], front[i]);
                assert(all[k] == before[k]);
            } else if has_tool(before, candidates[n]) {
                let k = choose|k: int|
                    0 <= k < before.len() && same_tool(#[trigger] before[k], candidates[n]);
                assert(all[k] == before[k]);
            } else {
                assert(all[before.len() as int] == candidates[n]);
                lemma_same_tool(candidates[n]);
            }
        }
        assert forall|k: int| 0 <= k < all.len() implies has_candidate(
            candidates,
            has_launcher,
            #[trigger] all[k],
        ) by {
            if k < before.len() {
                assert(all[k] == before[k]);
                assert(has_candidate(front, has_launcher, before[k]));
                let i = choose|i: int|
                    0 <= i < front.len() && has_launcher[i] && #[trigger] front[i] == before[k];
                assert(candidates[i] == all[k]);
            } else {
                assert(candidates[n] == all[k]);
            }
        }
        assert forall|k: int, m: int| 0 <= k < m < all.len() implies !same_tool(
            #[trigger] all[k],
            #[trigger] all[m],
        ) by {
            if m < before.len() {
                assert(!same_tool(before[k], before[m]));
            } else {
                assert(all[k] == before[k]);
                assert(!has_tool(before, candidates[n]));
            }
        }
    }
}

/// The description of a directory adds its tools under their names, in the places that it
/// gives, or the directory itself; and a directory is a tool under its own name.
pub proof fn law_directories_hold_tools(directory: Seq<u8>, name: Seq<char>)
    requires
        is_directory(directory),
        is_plain_name(encode_utf8(name)),
    ensures
        own_tools(join_of(directory, encode_utf8(name))).len() >= 1,
        own_tools(join_of(directory, encode_utf8(name)))[0] == (ToolModel {
            path: join_of(directory, encode_utf8(name)),
            name,
        }),
        release_id(name) matches Some(id) ==> own_tools(
            join_of(directory, encode_utf8(name)),
        ).contains(ToolModel { path: join_of(directory, encode_utf8(name)), name: id }),
        candidates_in(join_of(directory, encode_utf8(name)), None) == own_tools(
            join_of(directory, encode_utf8(name)),
        ),
{
    law_joined_path_comes_apart(directory, encode_utf8(name));
    vstd::utf8::encode_utf8_valid_utf8(name);
    vstd::utf8::encode_utf8_decode_utf8(name);
    let path = join_of(directory, encode_utf8(name));
    let own = own_tools(path);
    if let Some(id) = release_id(name) {
        assert(own[1] == (ToolModel { path, name: id }));
    }
    assert(declared_tools(path, None) =~= Seq::empty());
    assert(candidates_in(path, None) =~= own);
}

/// A list without repetitions names the same places as before, each once.
pub proof fn law_places_are_named_once(list: Seq<Seq<u8>>)
    ensures
        forall|i: int| 0 <= i < list.len() ==> has_path(distinct_paths(list), #[trigger] list[i]),
        forall|k: int|
            0 <= k < distinct_paths(list).len() ==> list.contains(#[trigger] distinct_paths(list)[k]),
        forall|k: int, m: int|
            0 <= k < m < distinct_paths(list).len() ==> !same_path(
                #[trigger] distinct_paths(list)[k],
                #[trigger] distinct_paths(list)[m],
            ),
    decreases list.len(),
{
    if list.len() > 0 {
        let front = list.drop_last();
        let n = list.len() - 1;
        law_places_are_named_once(front);
        let before = distinct_paths(front);
        let all = distinct_paths(list);
        assert forall|i: int| 0 <= i < list.len() implies has_path(all, #[trigger] list[i]) by {
            if i < n {
                assert(has_path(before, front[i]));
                let k = choose|k: int| 0 <= k < before.len() && same_path(#[trigger] before[k], front[i]);
                assert(all[k] == before[k]);
            } else if has_path(before, list[n]) {
                let k = choose|k: int| 0 <= k < before.len() && same_path(#[trigger] before[k], list[n]);
                assert(all[k] == before[k]);
            } else {
                assert(same_path(all[before.len() as int], list[n]));
            }
        }
        assert forall|k: int| 0 <= k < all.len() implies list.contains(#[trigger] all[k]) by {
            if k < before.len() {
                assert(all[k] == before[k]);
                let i = choose|i: int| 0 <= i < front.len() && front[i] == before[k];
                assert(list[i] == all[k]);
            } else {
                assert(list[n] == all[k]);
            }
        }
        assert forall|k: int, m: int| 0 <= k < m < all.len() implies !same_path(
            #[trigger] all[k],
            #[trigger] all[m],
        ) by {
            if m < before.len() {
                assert(!same_path(before[k], before[m]));
            } else {
                assert(all[k] == before[k]);
                assert(!has_path(before, list[n]));
            }
        }
    }
}

/// Tools are looked for in the Steam directory, in both places of every library, in both
/// places of the system, and wherever the player says.
pub proof fn law_tools_are_looked_for_everywhere(
    steam_root: Seq<u8>,
    libraries: Seq<Seq<u8>>,
    extra: Option<Seq<u8>>,
    i: int,
    k: int,
)
    requires
        0 <= i < libraries.len(),
    ensures
        ({
            let roots = search_roots(steam_root, libraries, extra);
            &&& has_path(roots, join_of(steam_root, encode_utf8("compatibilitytools.d"@)))
            &&& has_path(roots, join_of(libraries[i], encode_utf8("steamapps/common"@)))
            &&& has_path(roots, join_of(libraries[i], encode_utf8("compatibilitytools.d"@)))
            &&& has_path(roots, encode_utf8("/usr/local/share/steam/compatibilitytools.d"@))
            &&& has_path(roots, encode_utf8("/usr/share/steam/compatibilitytools.d"@))
            &&& extra is Some && 0 <= k < pieces(extra->0, 58u8).len() ==> has_path(
                roots,
                pieces(extra->0, 58u8)[k],
            )
        }),
{
    let first = seq![join_of(steam_root, encode_utf8("compatibilitytools.d"@))];
    let middle = library_tool_roots(libraries);
    let system = seq![
        encode_utf8("/usr/local/share/steam/compatibilitytools.d"@),
        encode_utf8("/usr/share/steam/compatibilitytools.d"@),
    ];
    let last = match extra {
        Some(extra) => pieces(extra, 58u8),
        None => Seq::empty(),
    };
    let list = first + middle + system + last;
    lemma_library_tool_roots(libraries, i);
    let n = middle.len() as int;
    assert(list[0] == first[0]);
    assert(list[1 + 2 * i] == middle[2 * i]);
    assert(list[2 + 2 * i] == middle[2 * i + 1]);
    assert(list[1 + n] == system[0]);
    assert(list[2 + n] == system[1]);
    lemma_place_is_named(list, 0);
    lemma_place_is_named(list, 1 + 2 * i);
    lemma_place_is_named(list, 2 + 2 * i);
    lemma_place_is_named(list, 1 + n);
    lemma_place_is_named(list, 2 + n);
    if extra is Some && 0 <= k < pieces(extra->0, 58u8).len() {
        assert(list[3 + n + k] == last[k]);
        lemma_place_is_named(list, 3 + n + k);
    }
}

proof fn lemma_place_is_named(list: Seq<Seq<u8>>, i: int)
    requires
        0 <= i < list.len(),
    ensures
        has_path(distinct_paths(list), list[i]),
{
    law_places_are_named_once(list);
}

proof fn lemma_library_tool_roots(libraries: Seq<Seq<u8>>, i: int)
    requires
        0 <= i < libraries.len(),
    ensures
        library_tool_roots(libraries).len() == 2 * libraries.len(),
        library_tool_roots(libraries)[2 * i] == join_of(
            libraries[i],
            encode_utf8("steamapps/common"@),
        ),
        library_tool_roots(libraries)[2 * i + 1] == join_of(
            libraries[i],
            encode_utf8("compatibilitytools.d"@),
        ),
    decreases libraries.len(),
{
    let front = libraries.drop_last();
    let before = library_tool_roots(front);
    let all = library_tool_roots(libraries);
    assert(all.len() == before.len() + 2);
    assert(all[before.len() as int] == join_of(
        libraries.last(),
        encode_utf8("steamapps/common"@),
    ));
    assert(forall|k: int| 0 <= k < before.len() ==> all[k] == before[k]);
    if front.len() == 0 {
        assert(before.len() == 0);
    } else {
        lemma_library_tool_roots(
            front,
            if i < front.len() {
                i
            } else {
                0
            },
        );
    }
}

/// Every numbered entry of a list of libraries that names an absolute path adds it, in
/// the newer form and in the older one; what was there before stays, and nothing else
/// comes in.
pub proof fn law_listed_libraries_are_added(
    libraries: Seq<Seq<u8>>,
    entries: Seq<(Seq<char>, Vdf)>,
    i: int,
)
    requires
        0 <= i < entries.len(),
        number_of(entries[i].0) is Some,
    ensures
        entries[i].1 matches Vdf::Text(path) ==> (is_rooted(encode_utf8(path)) ==> has_path(
            with_entries(libraries, entries),
            encode_utf8(path),
        )),
        text_in(entries[i].1.get("path"@)) matches Some(path) ==> (is_rooted(encode_utf8(path))
            ==> has_path(with_entries(libraries, entries), encode_utf8(path))),
        libraries.is_prefix_of(with_entries(libraries, entries)),
    decreases entries.len(),
{
    lemma_libraries_stay(libraries, entries);
    let front = entries.drop_last();
    let before = with_entries(libraries, front);
    let all = with_entries(libraries, entries);
    assert forall|path: Seq<u8>| #[trigger] has_path(before, path) implies has_path(all, path) by {
        let k = choose|k: int| 0 <= k < before.len() && same_path(#[trigger] before[k], path);
        assert(all[k] == before[k]);
    }
    if i < front.len() {
        law_listed_libraries_are_added(libraries, front, i);
    } else if let Some(path) = listed_path(entries[i].0, entries[i].1) {
        let bytes = encode_utf8(path);
        if is_rooted(bytes) && !has_path(before, bytes) {
            assert(same_path(all[before.len() as int], bytes));
        }
    }
}

proof fn lemma_libraries_stay(libraries: Seq<Seq<u8>>, entries: Seq<(Seq<char>, Vdf)>)
    ensures
        libraries.is_prefix_of(with_entries(libraries, entries)),
    decreases entries.len(),
{
    let all = with_entries(libraries, entries);
    if entries.len() > 0 {
        let before = with_entries(libraries, entries.drop_last());
        lemma_libraries_stay(libraries, entries.drop_last());
        assert(libraries == before.subrange(0, libraries.len() as int));
        assert(all.subrange(0, libraries.len() as int) =~= before.subrange(
            0,
            libraries.len() as int,
        ));
    } else {
        assert(libraries =~= all.subrange(0, libraries.len() as int));
    }
}

/// Nothing but what such entries name is added.
pub proof fn law_only_listed_libraries_are_added(
    libraries: Seq<Seq<u8>>,
    entries: Seq<(Seq<char>, Vdf)>,
    k: int,
)
    requires
        libraries.len() <= k < with_entries(libraries, entries).len(),
    ensures
        is_rooted(with_entries(libraries, entries)[k]),
        exists|i: int|
            0 <= i < entries.len() && number_of((#[trigger] entries[i]).0) is Some && (text_in(
                entries[i].1.get("path"@),
            ) matches Some(path) && encode_utf8(path) == with_entries(libraries, entries)[k] || (
            entries[i].1 matches Vdf::Text(path) && encode_utf8(path) == with_entries(
                libraries,
                entries,
            )[k])),
    decreases entries.len(),
{
    let front = entries.drop_last();
    let before = with_entries(libraries, front);
    let all = with_entries(libraries, entries);
    if entries.len() > 0 {
        if k < before.len() {
            law_only_listed_libraries_are_added(libraries, front, k);
            let i = choose|i: int|
                0 <= i < front.len() && number_of((#[trigger] front[i]).0) is Some && (text_in(
                    front[i].1.get("path"@),
                ) matches Some(path) && encode_utf8(path) == before[k] || (front[i].1 matches Vdf::Text(
                    path,
                ) && encode_utf8(path) == before[k]));
            assert(entries[i] == front[i]);
        } else {
            assert(entries[entries.len() - 1] == entries.last());
        }
    }
}

/// The Steam directory is always the first library.
pub proof fn law_steam_comes_first(steam_root: Seq<u8>, documents: Seq<Option<String>>)
    ensures
        library_roots(steam_root, documents).len() >= 1,
        library_roots(steam_root, documents)[0] == steam_root,
    decreases documents.len(),
{
    if documents.len() > 0 {
        law_steam_comes_first(steam_root, documents.drop_last());
        let before = library_roots(steam_root, documents.drop_last());
        if let Some(text) = maybe_text(documents.last()) {
            if let Some(value) = parsed(text) {
                if let Some(Vdf::Object(entries)) = value.get("libraryfolders"@) {
                    lemma_libraries_stay(before, entries);
                    let all = with_entries(before, entries);
                    assert(all.subrange(0, before.len() as int)[0] == before[0]);
                }
            }
        }
    }
}

/// A list of libraries that was written out adds its entries.
pub proof fn law_list_of_libraries_is_read(
    libraries: Seq<Seq<u8>>,
    entries: Seq<(Seq<char>, Vdf)>,
)
    requires
        nesting(only("libraryfolders"@, Vdf::Object(entries))) <= 32,
    ensures
        with_document(libraries, Some(rendered(only("libraryfolders"@, Vdf::Object(entries)))))
            == with_entries(libraries, entries),
{
    law_rendered_file_is_read_back(only("libraryfolders"@, Vdf::Object(entries)));
    lemma_only("libraryfolders"@, Vdf::Object(entries));
}

/// The game is in the first library that has it, and in the Steam directory when none
/// has.
pub proof fn law_game_is_in_the_first_library_that_has_it(
    libraries: Seq<Seq<u8>>,
    has_game: Seq<bool>,
    r: Seq<u8>,
    i: int,
)
    requires
        is_game_library(libraries, has_game, r),
        libraries.len() == has_game.len(),
        libraries.len() > 0,
    ensures
        0 <= i < libraries.len() && has_game[i] && (forall|j: int|
            0 <= j < i ==> !#[trigger] has_game[j]) ==> r == libraries[i],
        (forall|j: int| 0 <= j < has_game.len() ==> !#[trigger] has_game[j]) ==> r == libraries[0],
{
    if 0 <= i < libraries.len() && has_game[i] && (forall|j: int|
        0 <= j < i ==> !#[trigger] has_game[j]) {
        if exists|m: int|
            {
                &&& 0 <= m < libraries.len() && m < has_game.len()
                &&& #[trigger] has_game[m]
                &&& r == libraries[m]
                &&& forall|j: int| 0 <= j < m ==> !#[trigger] has_game[j]
            } {
            let m = choose|m: int|
                {
                    &&& 0 <= m < libraries.len() && m < has_game.len()
                    &&& #[trigger] has_game[m]
                    &&& r == libraries[m]
                    &&& forall|j: int| 0 <= j < m ==> !#[trigger] has_game[j]
                };
            assert(m == i);
        }
    }
}

/// Of several tools of the chosen name the first is used, and of several of the newest
/// release the last.
pub proof fn law_one_of_several_is_used(tools: Seq<ToolModel>, config: Seq<char>, i: int, j: int)
    requires
        is_choice(tools, config, i),
        0 <= j < tools.len(),
    ensures
        selected_tool(config, "1294660"@) matches Some(name) ==> (tools[j].name == name ==> i <= j),
        selected_tool(config, "1294660"@) is None ==> (selected_tool(config, "0"@) matches Some(
            name,
        ) ==> (tools[j].name == name ==> i <= j)),
        selected_tool(config, "1294660"@) is None && selected_tool(config, "0"@) is None
            && release_version(tools[j].path) is Some && release_version(tools[j].path)
            == release_version(tools[i].path) ==> j <= i,
{
    if release_version(tools[j].path) is Some {
        assert(has_release(tools));
    }
}

} // verus!
