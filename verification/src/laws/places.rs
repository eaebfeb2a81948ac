//! Where the launcher keeps its files, and what it makes of them.
use crate::{desktop, process_windows, windows_paths};
use crate::game_manifest::ManagedFile;
use crate::install::{display_name, download_path, inactive_generations, may_copy, version_file};
use crate::log::log_is_full;
use crate::p2p::transport::{enable_in_launcher, is_ready_line, LauncherProcess};
use crate::paths::{
    is_plain_name, join_of, law_joined_path_comes_apart, lemma_joined_path_is_bare, name_of,
    parent_of, without_end,
};
use crate::picker::{first_asker, typed_path, Asker};
use crate::process::proton::override_directory;
use crate::settings::{Build, Setting};
use crate::text::{trimmed, views};
use crate::upkeep::handler_is_installed;
use vstd::prelude::*;
use vstd::utf8::{encode_utf8, is_ascii_chars};

verus! {

/// A path of two names is the second in the directory of the first.
proof fn lemma_two_names(directory: Seq<u8>, whole: Seq<char>, a: Seq<char>, b: Seq<char>)
    requires
        is_ascii_chars(whole),
        is_ascii_chars(a),
        is_ascii_chars(b),
        whole == a + seq!['/'] + b,
        a.len() > 2,
        b.len() > 2,
        !a.contains('/'),
        !b.contains('/'),
        without_end(directory) == directory,
    ensures
        join_of(directory, encode_utf8(whole)) == join_of(
            join_of(directory, encode_utf8(a)),
            encode_utf8(b),
        ),
        is_plain_name(encode_utf8(a)),
        is_plain_name(encode_utf8(b)),
{
    vstd::utf8::is_ascii_chars_encode_utf8(whole);
    vstd::utf8::is_ascii_chars_encode_utf8(a);
    vstd::utf8::is_ascii_chars_encode_utf8(b);
    let first = encode_utf8(a);
    let second = encode_utf8(b);
    assert forall|i: int| 0 <= i < first.len() implies first[i] != 47 by {
        assert(a.contains(a[i]));
        assert(first[i] == a[i] as u8);
    }
    assert forall|i: int| 0 <= i < second.len() implies second[i] != 47 by {
        assert(b.contains(b[i]));
        assert(second[i] == b[i] as u8);
    }
    assert(seq![46u8].len() == 1 && seq![46u8, 46u8].len() == 2);
    assert(encode_utf8(whole) =~= first + seq![47u8] + second);
    assert(first[0] != 47 && second[0] != 47);
    let inner = join_of(directory, first);
    assert(inner.last() == first.last());
    assert(join_of(directory, encode_utf8(whole)) =~= join_of(inner, second));
}

/// The settings, the launcher and its desktop entry are files below the directories of
/// the user, the first two in a directory of the launcher's own.
pub proof fn law_places_on_a_desktop(
    config: &[u8],
    data: &[u8],
    settings: Vec<u8>,
    legacy: Vec<u8>,
    executable: Vec<u8>,
    entry: Vec<u8>,
)
    requires
        call_ensures(desktop::linux_launcher_settings_path, (config,), settings),
        call_ensures(desktop::legacy_linux_launcher_settings_path, (config,), legacy),
        call_ensures(desktop::linux_installed_executable, (data,), executable),
        call_ensures(desktop::linux_desktop_entry, (data,), entry),
        without_end(config@) == config@,
        without_end(data@) == data@,
    ensures
        name_of(settings@) == Some(encode_utf8("launcher.json"@)),
        parent_of(settings@) == Some(join_of(config@, encode_utf8("ProjectKNOCKOUT"@))),
        name_of(legacy@) == Some(encode_utf8("launcher.json"@)),
        parent_of(legacy@) == Some(join_of(config@, encode_utf8("dko-preservation"@))),
        name_of(executable@) == Some(encode_utf8("Project-KNOCKOUT"@)),
        parent_of(executable@) == Some(join_of(data@, encode_utf8("ProjectKNOCKOUT"@))),
        name_of(entry@) == Some(encode_utf8("Project-KNOCKOUT.desktop"@)),
        parent_of(entry@) == Some(join_of(data@, encode_utf8("applications"@))),
{
    reveal_strlit("ProjectKNOCKOUT/launcher.json");
    reveal_strlit("ProjectKNOCKOUT");
    reveal_strlit("launcher.json");
    reveal_strlit("dko-preservation/launcher.json");
    reveal_strlit("dko-preservation");
    reveal_strlit("ProjectKNOCKOUT/Project-KNOCKOUT");
    reveal_strlit("Project-KNOCKOUT");
    reveal_strlit("applications/Project-KNOCKOUT.desktop");
    reveal_strlit("applications");
    reveal_strlit("Project-KNOCKOUT.desktop");
    assert("ProjectKNOCKOUT/launcher.json"@ =~= "ProjectKNOCKOUT"@ + seq!['/'] + "launcher.json"@);
    assert("dko-preservation/launcher.json"@ =~= "dko-preservation"@ + seq!['/']
        + "launcher.json"@);
    assert("ProjectKNOCKOUT/Project-KNOCKOUT"@ =~= "ProjectKNOCKOUT"@ + seq!['/']
        + "Project-KNOCKOUT"@);
    assert("applications/Project-KNOCKOUT.desktop"@ =~= "applications"@ + seq!['/']
        + "Project-KNOCKOUT.desktop"@);
    lemma_two_names(
        config@,
        "ProjectKNOCKOUT/launcher.json"@,
        "ProjectKNOCKOUT"@,
        "launcher.json"@,
    );
    lemma_two_names(
        config@,
        "dko-preservation/launcher.json"@,
        "dko-preservation"@,
        "launcher.json"@,
    );
    lemma_two_names(
        data@,
        "ProjectKNOCKOUT/Project-KNOCKOUT"@,
        "ProjectKNOCKOUT"@,
        "Project-KNOCKOUT"@,
    );
    lemma_two_names(
        data@,
        "applications/Project-KNOCKOUT.desktop"@,
        "applications"@,
        "Project-KNOCKOUT.desktop"@,
    );
    lemma_file_in_directory(config@, "ProjectKNOCKOUT"@, "launcher.json"@);
    lemma_file_in_directory(config@, "dko-preservation"@, "launcher.json"@);
    lemma_file_in_directory(data@, "ProjectKNOCKOUT"@, "Project-KNOCKOUT"@);
    lemma_file_in_directory(data@, "applications"@, "Project-KNOCKOUT.desktop"@);
}

proof fn lemma_file_in_directory(directory: Seq<u8>, a: Seq<char>, b: Seq<char>)
    requires
        without_end(directory) == directory,
        is_plain_name(encode_utf8(a)),
        is_plain_name(encode_utf8(b)),
    ensures
        name_of(join_of(join_of(directory, encode_utf8(a)), encode_utf8(b))) == Some(
            encode_utf8(b),
        ),
        parent_of(join_of(join_of(directory, encode_utf8(a)), encode_utf8(b))) == Some(
            join_of(directory, encode_utf8(a)),
        ),
{
    lemma_joined_path_is_bare(directory, encode_utf8(a));
    law_joined_path_comes_apart(join_of(directory, encode_utf8(a)), encode_utf8(b));
}

/// The data of the game is kept in the directory that the build names, beside the
/// launcher's own files, and its state in a directory of that.
pub proof fn law_place_of_the_game_data(
    build: &Build,
    data: &[u8],
    r: Vec<u8>,
    game_data: &[u8],
    state: Vec<u8>,
)
    requires
        call_ensures(desktop::game_data_directory, (build, data), r),
        call_ensures(desktop::game_compat_directory, (game_data,), state),
        game_data@ == r@,
        without_end(data@) == data@,
        is_plain_name(encode_utf8(build.value(Setting::RuntimeDirectory))),
    ensures
        name_of(r@) == Some(encode_utf8(build.value(Setting::RuntimeDirectory))),
        parent_of(r@) == Some(join_of(data@, encode_utf8("ProjectKNOCKOUT"@))),
        state@ == join_of(r@, encode_utf8("compatdata"@)),
{
    reveal_strlit("ProjectKNOCKOUT");
    reveal_strlit("launcher.json");
    let whole = "ProjectKNOCKOUT"@ + seq!['/'] + "launcher.json"@;
    lemma_two_names(data@, whole, "ProjectKNOCKOUT"@, "launcher.json"@);
    lemma_file_in_directory(data@, "ProjectKNOCKOUT"@, build.value(Setting::RuntimeDirectory));
}

/// On Windows the launcher, its log and the data of the game are in the launcher's
/// directory, and so are the launchers of earlier times.
pub proof fn law_places_on_windows(
    build: &Build,
    data: &[u8],
    executable: Vec<u8>,
    log: Vec<u8>,
    game: Vec<u8>,
    legacy: Vec<Vec<u8>>,
)
    requires
        call_ensures(process_windows::installed_launcher_executable, (data,), executable),
        call_ensures(process_windows::launcher_log_path, (data,), log),
        call_ensures(process_windows::game_data_directory, (build, data), game),
        call_ensures(process_windows::legacy_launchers, (data,), legacy),
    ensures
        ({
            let own = windows_paths::join_of(data@, encode_utf8("ProjectKNOCKOUT"@));
            &&& executable@ == windows_paths::join_of(own, encode_utf8("Project-KNOCKOUT.exe"@))
            &&& log@ == windows_paths::join_of(own, encode_utf8("logs/launcher.log"@))
            &&& game@ == windows_paths::join_of(
                own,
                encode_utf8(build.value(Setting::RuntimeDirectory)),
            )
            &&& legacy@.len() == 2
            &&& legacy@[0]@ == windows_paths::join_of(
                own,
                encode_utf8("Project_KNOCKOUT_Launcher.exe"@),
            )
            &&& legacy@[1]@ == windows_paths::join_of(own, encode_utf8("dko-launcher.exe"@))
        }),
{
    let all = views(legacy@);
    assert(all.len() == 2);
    assert(all[0] == legacy@[0]@ && all[1] == legacy@[1]@);
}

/// What an interrupted update left lies beside the runtime.
pub proof fn law_places_of_generations(data: &[u8], windows: bool, r: Vec<Vec<u8>>)
    requires
        call_ensures(inactive_generations, (data, windows), r),
    ensures
        r@.len() == 2,
        r@[0]@ == windows_paths::join_on(windows, data@, "runtime.staging"@),
        r@[1]@ == windows_paths::join_on(windows, data@, "runtime.previous"@),
{
    let all = views(r@);
    assert(all.len() == 2);
    assert(all[0] == r@[0]@ && all[1] == r@[1]@);
}

/// A retail file of up to 64 MiB may be copied, and a log of more than 4 MiB is full.
pub proof fn law_sizes_that_matter(size: u64, small: bool, full: bool)
    requires
        call_ensures(may_copy, (size,), small),
        call_ensures(log_is_full, (size,), full),
    ensures
        small <==> size <= 67_108_864,
        full <==> size > 4_194_304,
{
}

/// A file of the manifest is fetched from its path, on behalf of a ticket from below the
/// prefix for launches.
pub proof fn law_path_of_a_download(
    build: &Build,
    ticket: String,
    file: &ManagedFile,
    plain: String,
    routed: String,
)
    requires
        call_ensures(download_path, (build, &None, file), plain),
        call_ensures(download_path, (build, &Some(ticket), file), routed),
    ensures
        plain@ == file.download_path@,
        routed@ == build.value(Setting::LaunchPrefix) + ticket@ + plain@,
{
}

/// A file is shown under its name.
pub proof fn law_shown_names(path: &str, directory: Seq<u8>, name: Seq<char>, r: String)
    requires
        call_ensures(display_name, (path, false), r),
        without_end(directory) == directory,
        is_plain_name(encode_utf8(name)),
        encode_utf8(path@) == join_of(directory, encode_utf8(name)),
    ensures
        r@ == name,
{
    law_joined_path_comes_apart(directory, encode_utf8(name));
    vstd::utf8::encode_utf8_valid_utf8(name);
    vstd::utf8::encode_utf8_decode_utf8(name);
}

/// The version of the game stands in a file of the game.
pub proof fn law_place_of_the_version(root: &[u8], windows: bool, r: Vec<u8>)
    requires
        call_ensures(version_file, (root, windows), r),
    ensures
        r@ == windows_paths::join_on(windows, root@, "DivineKnockout/Assembly/GameVersion.txt"@),
{
}

/// The launcher handles the links when it is the program that is found for them, and is
/// there.
pub proof fn law_checking_the_handler(
    found: &Option<String>,
    expected: &Option<String>,
    is_file: bool,
    r: bool,
)
    requires
        call_ensures(handler_is_installed, (found, expected, is_file), r),
    ensures
        r ==> is_file && *found is Some && *expected is Some && found->0@ == expected->0@,
        is_file && *found is Some && *expected is Some && found->0@ == expected->0@ ==> r,
{
}

/// The bridge is ready when it says that and nothing else on a line.
pub proof fn law_hearing_of_the_bridge(line: &str, before: Seq<char>, after: Seq<char>, r: bool)
    requires
        call_ensures(is_ready_line, (line,), r),
        crate::laws::text::all_spaces(before),
        crate::laws::text::all_spaces(after),
    ensures
        line@ == before + "ready"@ + after ==> r,
        r ==> trimmed(line@) == "ready"@,
{
    reveal_strlit("ready");
    crate::laws::text::law_only_white_space_is_trimmed(before, "ready"@, after);
}

/// The bridge is switched on for the whole process.
pub proof fn law_switching_the_bridge_on(process: &mut LauncherProcess)
    requires
        call_ensures(enable_in_launcher, (process,), ()),
    ensures
        final(process).enabled,
{
}

/// The directory of another tool is looked at from the current directory, unless it is
/// written from the root on.
pub proof fn law_place_of_another_tool(directory: &[u8], current: &[u8], r: Vec<u8>)
    requires
        call_ensures(override_directory, (directory, current), r),
        directory@.len() > 0,
    ensures
        directory@[0] == 47 ==> r@ == directory@,
        directory@[0] != 47 && current@.len() > 0 && current@.last() != 47 ==> r@ == current@
            + seq![47u8] + directory@,
{
}

/// A player at a desktop is asked in a window, and else in the terminal; an empty answer
/// there stands for the suggestion.
pub proof fn law_asking_for_the_game(
    graphical: bool,
    asker: Asker,
    answer: &str,
    default: Option<Vec<u8>>,
    typed: Option<Vec<u8>>,
)
    requires
        call_ensures(first_asker, (graphical,), asker),
        call_ensures(typed_path, (answer, default), typed),
    ensures
        graphical ==> asker == Asker::Zenity,
        !graphical ==> asker == Asker::Terminal,
        trimmed(answer@).len() > 0 ==> typed is Some && typed->0@ == encode_utf8(trimmed(answer@)),
        trimmed(answer@).len() == 0 && default is None ==> typed is None,
        trimmed(answer@).len() == 0 && default is Some ==> typed is Some && typed->0@
            == default->0@,
{
}

} // verus!
