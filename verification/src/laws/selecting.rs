//! Finding and selecting the game on Windows.
use crate::laws::windows_system::{
    is_plain_directory, is_windows_name, law_picked_path_is_taken, law_windows_paths_come_apart,
};
use crate::process::game::is_homedir;
use crate::process_windows::{
    configured_game_executable, confirm_selection, default_steam_root,
    discover_or_select_and_remember_game_executable, has_launch_argument, is_game_pid, is_supported,
    locate_game_executable, log_in, path_from_picker, resolve_divine_knockout_executable, resolved,
    select_game_executable_candidate, selected_game_executable, suggested_game_executable,
    unreal_abslog_argument, Paths, Picked, ProcessInfo, Remember, SelectError,
};
use crate::settings::{Build, Setting};
use crate::text::same_folded;
use crate::wide::utf16_of;
use crate::windows_paths::{is_named, join_of};
use vstd::prelude::*;
use vstd::utf8::encode_utf8;

verus! {

/// A file stands for the game below its directory when that is there, and else for
/// itself.
pub proof fn law_resolving_a_selection(
    path: Vec<u8>,
    directory: Seq<u8>,
    name: Seq<u8>,
    below: Vec<u8>,
    itself: Vec<u8>,
)
    requires
        call_ensures(resolve_divine_knockout_executable, (path, true, true), below),
        call_ensures(resolve_divine_knockout_executable, (path, false, true), itself),
        is_plain_directory(directory),
        is_windows_name(name),
        path@ == join_of(directory, name),
    ensures
        below@ == join_of(
            directory,
            encode_utf8("DivineKnockout/Binaries/Win64/DivineKnockout.exe"@),
        ),
        itself@ == path@,
{
    law_windows_paths_come_apart(directory, name);
}

/// The remembered game is used as long as it is there under its name; another one must
/// be selected by a setup.
pub proof fn law_remembering_the_game(
    remembered: Option<Vec<u8>>,
    nested_is_file: bool,
    is_file: bool,
    configured: Option<Vec<u8>>,
    selected: Result<Vec<u8>, SelectError>,
)
    requires
        call_ensures(configured_game_executable, (remembered, nested_is_file, is_file), configured),
        call_ensures(selected_game_executable, (configured,), selected),
    ensures
        selected is Ok <==> remembered is Some && is_file && is_named(
            resolved(remembered->0@, nested_is_file, true),
            "DivineKnockout.exe"@,
        ),
        selected is Ok ==> selected->Ok_0@ == resolved(remembered->0@, nested_is_file, true),
        selected is Err ==> selected->Err_0 is NotConfigured,
{
}

/// What the player picked is taken when it is the game's executable, in any case, and a
/// file.
pub proof fn law_confirming_a_selection(
    path: Vec<u8>,
    directory: Seq<u8>,
    name: Seq<u8>,
    is_file: bool,
    r: Result<Vec<u8>, SelectError>,
)
    requires
        call_ensures(confirm_selection, (Ok::<Vec<u8>, SelectError>(path), is_file), r),
        is_plain_directory(directory),
        is_windows_name(name),
        path@ == join_of(directory, name),
    ensures
        is_file && same_folded(name, encode_utf8("DivineKnockout.exe"@)) ==> r is Ok && r->Ok_0
            == path,
        !(is_file && same_folded(name, encode_utf8("DivineKnockout.exe"@))) ==> r is Err
            && r->Err_0 is NotTheGame,
{
    law_windows_paths_come_apart(directory, name);
}

/// Why there is no selection is handed on, and nothing is remembered for it.
pub proof fn law_handing_on_why_not(
    error: SelectError,
    is_file: bool,
    nested: bool,
    confirmed: Result<Vec<u8>, SelectError>,
    candidate: Result<Vec<u8>, SelectError>,
    remember: Remember,
    located: Remember,
)
    requires
        call_ensures(confirm_selection, (Err::<Vec<u8>, SelectError>(error), is_file), confirmed),
        call_ensures(
            select_game_executable_candidate,
            (Err::<Vec<u8>, SelectError>(error), nested),
            candidate,
        ),
        call_ensures(
            discover_or_select_and_remember_game_executable,
            (Err::<Vec<u8>, SelectError>(error), nested),
            remember,
        ),
        call_ensures(
            locate_game_executable,
            (None::<Vec<u8>>, Err::<Vec<u8>, SelectError>(error)),
            located,
        ),
    ensures
        confirmed == Err::<Vec<u8>, SelectError>(error),
        candidate == Err::<Vec<u8>, SelectError>(error),
        remember == (Remember::Fail { error }),
        located == (Remember::Fail { error }),
{
}

/// A confirmed selection is remembered as what it stands for. The game that is
/// remembered already is used, whatever else could be selected.
pub proof fn law_remembering_a_selection(
    path: Vec<u8>,
    nested: bool,
    configured: Vec<u8>,
    selection: Result<Vec<u8>, SelectError>,
    candidate: Result<Vec<u8>, SelectError>,
    remember: Remember,
    kept: Remember,
    located: Remember,
)
    requires
        call_ensures(
            select_game_executable_candidate,
            (Ok::<Vec<u8>, SelectError>(path), nested),
            candidate,
        ),
        call_ensures(
            discover_or_select_and_remember_game_executable,
            (Ok::<Vec<u8>, SelectError>(path), nested),
            remember,
        ),
        call_ensures(locate_game_executable, (Some(configured), selection), kept),
        call_ensures(
            locate_game_executable,
            (None::<Vec<u8>>, Ok::<Vec<u8>, SelectError>(path)),
            located,
        ),
    ensures
        candidate is Ok && candidate->Ok_0@ == resolved(path@, nested, true),
        remember matches Remember::Save { executable } && executable@ == resolved(
            path@,
            nested,
            true,
        ),
        kept == (Remember::Use { executable: configured }),
        located == (Remember::Save { executable: path }),
{
}

/// The first of the executables that is of the supported build is suggested, and the
/// first of all when none is.
pub proof fn law_suggesting_a_game(
    build: &Build,
    executables: &Vec<Vec<u8>>,
    digests: &Vec<Option<String>>,
    i: int,
    r: Option<Vec<u8>>,
)
    requires
        call_ensures(suggested_game_executable, (build, executables, digests), r),
        digests@.len() == executables@.len(),
        0 <= i < executables@.len(),
        ({
            let wanted = build.value(Setting::TargetExeSha256);
            ||| {
                &&& digests@[i] is Some && digests@[i]->0@ == wanted
                &&& forall|j: int|
                    0 <= j < i ==> !(#[trigger] digests@[j] is Some && digests@[j]->0@ == wanted)
            }
            ||| {
                &&& i == 0
                &&& forall|j: int|
                    0 <= j < digests@.len() ==> !(#[trigger] digests@[j] is Some && digests@[j]->0@
                        == wanted)
            }
        }),
    ensures
        r is Some && r->0@ == executables@[i]@,
{
    let input = (build, executables, digests);
    assert(input.1@[i] == executables@[i]);
    assert(input.2@ == digests@ && input.0 == build);
    assert(is_supported(input.0, input.2@, i) == is_supported(build, digests@, i));
    assert(r is Some);
    let k = choose|k: int|
        {
            &&& 0 <= k < executables@.len()
            &&& (#[trigger] executables@[k])@ == r->0@
            &&& forall|j: int|
                0 <= j < k ==> !is_supported(build, digests@, j)
            &&& is_supported(build, digests@, k) || (k == 0 && forall|j: int|
                !#[trigger] is_supported(build, digests@, j))
        };
    if k < i {
        assert(is_supported(build, digests@, i));
        assert(!is_supported(build, digests@, k));
        assert(forall|j: int| !#[trigger] is_supported(build, digests@, j));
    }
    if i < k {
        assert(!is_supported(build, digests@, i));
        assert(is_supported(build, digests@, k));
    }
}

/// The path that the player picked comes out of the buffer of the file window.
pub proof fn law_picking_a_file(
    picked: &Picked,
    path: Seq<char>,
    rest: Seq<u16>,
    r: Result<Vec<u8>, SelectError>,
)
    requires
        call_ensures(path_from_picker, (picked,), r),
        *picked is Chosen,
        picked->buffer@ == utf16_of(path) + seq![0u16] + rest,
        !path.contains('\0'),
    ensures
        r is Ok && r->Ok_0@ == encode_utf8(path),
{
    law_picked_path_is_taken(path, rest, *picked);
}

/// A launch is prepared with the game that was found, and with the log among the local
/// data; what is missing is reported in this order.
pub proof fn law_preparing_on_windows(
    data: &Option<Vec<u8>>,
    located: Result<Vec<u8>, SelectError>,
    homedir: &str,
    isolated: Result<Paths, SelectError>,
    selected: Result<Paths, SelectError>,
)
    requires
        call_ensures(Paths::new_isolated, (data, located, homedir), isolated),
        call_ensures(Paths::new_selected, (data, located, homedir), selected),
    ensures
        isolated is Ok <==> is_homedir(homedir@) && *data is Some && located is Ok,
        selected is Ok <==> isolated is Ok,
        isolated is Ok ==> isolated->Ok_0.exe == located->Ok_0 && isolated->Ok_0.log@ == log_in(
            data->0@,
            homedir@,
        ),
        selected is Ok ==> selected->Ok_0.exe == located->Ok_0 && selected->Ok_0.log@ == log_in(
            data->0@,
            homedir@,
        ),
        !is_homedir(homedir@) ==> isolated->Err_0 is Homedir && selected->Err_0 is Homedir,
        is_homedir(homedir@) && *data is None ==> isolated->Err_0 is NoLocalAppData
            && selected->Err_0 is NoLocalAppData,
        is_homedir(homedir@) && *data is Some && located is Err ==> isolated->Err_0
            == located->Err_0 && selected->Err_0 == located->Err_0,
{
}

/// An executable that is given explicitly must go by one of the two names of the game.
pub proof fn law_preparing_explicitly_on_windows(
    build: &Build,
    data: &Option<Vec<u8>>,
    executable: &[u8],
    is_file: bool,
    homedir: &str,
    r: Result<Paths, SelectError>,
)
    requires
        call_ensures(Paths::new_explicit, (build, data, executable, is_file, homedir), r),
    ensures
        ({
            let approved = is_file && (is_named(executable@, "DivineKnockout.exe"@) || is_named(
                executable@,
                build.value(Setting::GameExecutableName),
            ));
            &&& r is Ok <==> approved && is_homedir(homedir@) && *data is Some
            &&& r is Ok ==> r->Ok_0.exe@ == executable@ && r->Ok_0.log@ == log_in(data->0@, homedir@)
            &&& !approved ==> r is Err && r->Err_0 is NotApproved
            &&& approved && !is_homedir(homedir@) ==> r is Err && r->Err_0 is Homedir
            &&& approved && is_homedir(homedir@) && *data is None ==> r is Err
                && r->Err_0 is NoLocalAppData
        }),
{
}

/// A process is the game when it goes by one of its two names and still has its number;
/// an argument of it counts only then.
pub proof fn law_knowing_the_process(
    build: &Build,
    processes: &Vec<ProcessInfo>,
    pid: u32,
    argument: &str,
    game: bool,
    has: bool,
)
    requires
        call_ensures(is_game_pid, (build, processes, pid), game),
        call_ensures(has_launch_argument, (build, processes, pid, argument), has),
    ensures
        game <==> exists|i: int|
            0 <= i < processes@.len() && (#[trigger] processes@[i]).pid == pid && (same_folded(
                processes@[i].name@,
                "DivineKnockout.exe"@,
            ) || same_folded(processes@[i].name@, build.value(Setting::GameExecutableName))),
        has <==> exists|i: int, k: int|
            0 <= i < processes@.len() && processes@[i].pid == pid && (same_folded(
                processes@[i].name@,
                "DivineKnockout.exe"@,
            ) || same_folded(processes@[i].name@, build.value(Setting::GameExecutableName))) && 0
                <= k < processes@[i].arguments@.len() && (#[trigger] processes@[i].arguments@[k])@
                == argument@,
        has ==> game,
{
    let named = |i: int|
        same_folded(processes@[i].name@, "DivineKnockout.exe"@) || same_folded(
            processes@[i].name@,
            build.value(Setting::GameExecutableName),
        );
    assert forall|i: int| 0 <= i < processes@.len() implies (#[trigger] processes@[i]).is_game(build)
        == named(i) by {}
    let first = (build, processes, pid);
    let second = (build, processes, pid, argument);
    assert forall|i: int| 0 <= i < processes@.len() implies first.1@[i] == #[trigger] processes@[i]
        && second.1@[i] == processes@[i] by {}
    if game {
        let i = choose|i: int|
            0 <= i < processes@.len() && (#[trigger] processes@[i]).is_game(build)
                && processes@[i].pid == pid;
        assert(named(i));
    }
    if has {
        let i = choose|i: int|
            0 <= i < processes@.len() && (#[trigger] processes@[i]).is_game(build)
                && processes@[i].pid == pid && processes@[i].has_argument(argument@);
        let k = choose|k: int|
            0 <= k < processes@[i].arguments@.len() && (#[trigger] processes@[i].arguments@[k])@
                == argument@;
        assert(processes@[i].arguments@[k]@ == argument@);
    }
}

/// The game is told of its log as it is.
pub proof fn law_log_argument_on_windows(path: &str, r: String)
    requires
        call_ensures(unreal_abslog_argument, (path,), r),
    ensures
        r@.len() == 8 + path@.len(),
        r@.take(8) == seq!['-', 'A', 'B', 'S', 'L', 'O', 'G', '='],
        r@.skip(8) == path@,
{
    reveal_strlit("-ABSLOG=");
    assert(r@.take(8) =~= seq!['-', 'A', 'B', 'S', 'L', 'O', 'G', '=']);
    assert(r@.skip(8) =~= path@);
}

/// Steam is where it says for the user, and else where it says for the machine.
pub proof fn law_locating_steam_on_windows(
    user: &Option<String>,
    machine: &Option<String>,
    x86: &Option<Vec<u8>>,
    programs: &Option<Vec<u8>>,
    r: Vec<u8>,
)
    requires
        call_ensures(default_steam_root, (user, machine, x86, programs), r),
    ensures
        *user is Some ==> r@ == encode_utf8(user->0@),
        *user is None && *machine is Some ==> r@ == encode_utf8(machine->0@),
        *user is None && *machine is None && *x86 is Some ==> r@ == join_of(
            x86->0@,
            encode_utf8("Steam"@),
        ),
{
}

} // verus!
