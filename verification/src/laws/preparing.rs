//! Preparing a launch: the game, its files and its processes.
use crate::process_windows;
use crate::digest::{digest_of, Download, DownloadError};
use crate::install::{verify_executable, verify_retail_build, verify_version, RetailError};
use crate::launch::{
    choose_setup, published_launcher, registry_command, registry_icon, repair_server, SetupChoice,
};
use crate::launcher_update::{LauncherArtifact, LauncherManifest};
use crate::laws::command_line::command_line;
use crate::laws::desktop::{below, law_library_of_a_game};
use crate::paths::{is_plain_name, join_of, law_joined_path_comes_apart, without_end};
use crate::process::game::{
    compat_data_in, find_game_pid_with_homedir, is_homedir, is_named, launch_plan, log_in,
    prefix_in, variable_views, LaunchPlan, Paths, PathsError, ProcessInfo,
};
use crate::process::libraries::game_in;
use crate::process::proton::{override_tool, ProtonError, Tool};
use crate::settings::{Build, Setting};
use crate::text::{lowercase, same_folded, texts, trimmed, views};
use crate::windows_setup::BindingError;
use vstd::prelude::*;
use vstd::utf8::encode_utf8;

verus! {

/// A download takes what it gets, piece by piece, until there is more than was
/// announced; then it takes nothing more.
pub proof fn law_taking_a_download(
    download: &mut Download,
    chunk: &[u8],
    r: Result<u64, DownloadError>,
)
    requires
        call_ensures(Download::take, (download, chunk), r),
    ensures
        old(download).body@.len() + chunk@.len() <= old(download).expected_size ==> r == Ok::<
            u64,
            DownloadError,
        >((old(download).body@.len() + chunk@.len()) as u64) && final(download).body@ == old(
            download,
        ).body@ + chunk@,
        old(download).body@.len() + chunk@.len() > old(download).expected_size ==> r is Err
            && r->Err_0 is TooLong && final(download).body@ == old(download).body@,
        final(download).expected_size == old(download).expected_size,
        final(download).expected_sha256@ == old(download).expected_sha256@,
{
}

/// A download is handed out whole when its size and its digest are those that were
/// announced, and else not at all.
pub proof fn law_finishing_a_download(download: Download, r: Result<Vec<u8>, DownloadError>)
    requires
        call_ensures(Download::finish, (download,), r),
    ensures
        r is Ok <==> download.body@.len() == download.expected_size && lowercase(
            download.expected_sha256@,
        ) == digest_of(download.body@),
        r is Ok ==> r->Ok_0@ == download.body@,
{
}

/// A new download expects what was announced, and has nothing yet.
pub proof fn law_starting_a_download(size: u64, sha256: &str, r: Download)
    requires
        call_ensures(Download::new, (size, sha256), r),
    ensures
        r.expected_size == size,
        r.expected_sha256@ == sha256@,
        r.body@ == Seq::<u8>::empty(),
{
    assert(r.body@ =~= Seq::<u8>::empty());
}

/// The game is supported when its version, its executable and its archive are those of
/// the supported build, and the player is told first of another version.
pub proof fn law_verifying_the_game(
    build: &Build,
    version: &str,
    exe: &str,
    pak: &str,
    whole: Result<(), RetailError>,
    alone: Result<(), RetailError>,
    executable: Result<(), RetailError>,
)
    requires
        call_ensures(verify_retail_build, (build, version, exe, pak), whole),
        call_ensures(verify_version, (build, version), alone),
        call_ensures(verify_executable, (build, exe), executable),
    ensures
        ({
            let right = trimmed(version@) == build.value(Setting::TargetBuild);
            let own = exe@ == build.value(Setting::TargetExeSha256);
            let stock = pak@ == build.value(Setting::TargetPakSha256);
            &&& whole is Ok <==> right && own && stock
            &&& whole is Err && right ==> whole->Err_0 == RetailError::Files
            &&& !right ==> (whole matches Err(RetailError::Version { wanted, found }) && wanted@
                == build.value(Setting::TargetBuild) && found@ == trimmed(version@))
            &&& alone is Ok <==> right
            &&& executable is Ok <==> own
            &&& executable is Err ==> executable->Err_0 == RetailError::Files
        }),
{
}

/// The launcher for a platform is the first that is published for it.
pub proof fn law_choosing_the_launcher(
    manifest: &LauncherManifest,
    platform: &str,
    i: int,
    r: Option<&LauncherArtifact>,
)
    requires
        call_ensures(published_launcher, (manifest, platform), r),
    ensures
        0 <= i < manifest.launchers@.len() && manifest.launchers@[i].platform@ == platform@ && (
        forall|j: int| 0 <= j < i ==> (#[trigger] manifest.launchers@[j]).platform@ != platform@)
            ==> r is Some && *r->0 == manifest.launchers@[i],
        (forall|j: int|
            0 <= j < manifest.launchers@.len() ==> (#[trigger] manifest.launchers@[j]).platform@
                != platform@) ==> r is None,
{
    if r is Some {
        let k = choose|k: int|
            {
                &&& 0 <= k < manifest.launchers@.len()
                &&& #[trigger] manifest.launchers@[k] == *r->0
                &&& r->0.platform@ == platform@
                &&& forall|j: int|
                    0 <= j < k ==> (#[trigger] manifest.launchers@[j]).platform@ != platform@
            };
        assert(manifest.launchers@[k].platform@ == platform@);
        if 0 <= i < manifest.launchers@.len() && manifest.launchers@[i].platform@ == platform@ && (
        forall|j: int| 0 <= j < i ==> (#[trigger] manifest.launchers@[j]).platform@ != platform@) {
            assert(k == i);
        }
    } else if 0 <= i < manifest.launchers@.len() {
        let input = (manifest, platform);
        assert(input.0.launchers@[i] == manifest.launchers@[i]);
    }
}

/// A setup that is bound to a server is for that server; one that is not is refused,
/// unless a launcher is installed already. A repair keeps the server that is set up.
pub proof fn law_choosing_the_server(
    bound: Result<String, BindingError>,
    installed: bool,
    choice: SetupChoice,
    configured: Option<String>,
    fallback: Option<String>,
    repaired: Option<String>,
)
    requires
        call_ensures(choose_setup, (bound, installed), choice),
        call_ensures(repair_server, (configured, fallback), repaired),
    ensures
        bound is Ok ==> choice == (SetupChoice::Install { server: bound->Ok_0 }),
        bound is Err && installed ==> choice is AlreadyInstalled,
        bound is Err && !installed ==> choice == (SetupChoice::Fail { error: bound->Err_0 }),
        configured is Some ==> repaired == configured,
        configured is None ==> repaired == fallback,
{
}

/// Windows starts the launcher, in quotes, with the link in quotes behind it.
pub proof fn law_registering_on_windows(executable: &str, command: String, icon: String)
    requires
        call_ensures(registry_command, (executable,), command),
        call_ensures(registry_icon, (executable,), icon),
    ensures
        command@.len() == executable@.len() + 25,
        command@[0] == '"',
        command@.subrange(1, executable@.len() as int + 1) == executable@,
        command@.skip(executable@.len() as int + 1) == "\" __protocol-launch \"%1\""@,
        icon@ == seq!['"'] + executable@ + seq!['"', ',', '0'],
{
    reveal_strlit("\"");
    reveal_strlit("\" __protocol-launch \"%1\"");
    reveal_strlit("\",0");
    assert(command@.subrange(1, executable@.len() as int + 1) =~= executable@);
    assert(command@.skip(executable@.len() as int + 1) =~= "\" __protocol-launch \"%1\""@);
    assert(icon@ =~= seq!['"'] + executable@ + seq!['"', ',', '0']);
}

/// A selected game is prepared in the library that it lies in, or else in the one of the
/// game; what is missing is reported in this order.
pub proof fn law_preparing_a_selected_game(
    steam_root: &[u8],
    tool: Result<Tool, ProtonError>,
    has_launcher: bool,
    game_library: &[u8],
    executable: &[u8],
    is_file: bool,
    current: &[u8],
    homedir: &str,
    r: Result<Paths, PathsError>,
)
    requires
        call_ensures(
            Paths::new_selected,
            (steam_root, tool, has_launcher, game_library, executable, is_file, current, homedir),
            r,
        ),
    ensures
        ({
            let game = is_file && is_named(executable@, "DivineKnockout.exe"@);
            let home = is_homedir(homedir@);
            let data = match Paths::library_of(executable@) {
                Some(library) => compat_data_in(library),
                None => compat_data_in(game_library@),
            };
            &&& r is Ok <==> game && home && tool is Ok && has_launcher
            &&& !game ==> r is Err && r->Err_0 is NotTheGame
            &&& game && !home ==> r is Err && r->Err_0 is Homedir
            &&& game && home && tool is Err ==> r is Err && r->Err_0 is Proton
            &&& game && home && tool is Ok && !has_launcher ==> r is Err && r->Err_0 is NoLauncher
            &&& r is Ok ==> {
                let paths = r->Ok_0;
                &&& paths.exe@ == executable@
                &&& paths.steam_root@ == steam_root@
                &&& paths.proton@ == join_of(tool->Ok_0.path@, encode_utf8("proton"@))
                &&& paths.proton_name@ == tool->Ok_0.name@
                &&& paths.compat_data@ == data
                &&& paths.prefix@ == prefix_in(data)
                &&& paths.log@ == log_in(prefix_in(data), homedir@)
            }
        }),
{
}

/// The state of a game in a library is that of the library, wherever the game lies
/// below `steamapps` there.
pub proof fn law_preparing_a_game_in_a_library(
    steam_root: &[u8],
    tool: Result<Tool, ProtonError>,
    has_launcher: bool,
    game_library: &[u8],
    executable: &[u8],
    is_file: bool,
    current: &[u8],
    homedir: &str,
    library: Seq<u8>,
    names: Seq<Seq<u8>>,
    r: Result<Paths, PathsError>,
)
    requires
        call_ensures(
            Paths::new_selected,
            (steam_root, tool, has_launcher, game_library, executable, is_file, current, homedir),
            r,
        ),
        without_end(library) == library,
        forall|i: int|
            0 <= i < names.len() ==> is_plain_name(#[trigger] names[i]) && names[i] != encode_utf8(
                "steamapps"@,
            ),
        executable@ == below(join_of(library, encode_utf8("steamapps"@)), names),
        r is Ok,
    ensures
        r->Ok_0.compat_data@ == join_of(library, encode_utf8("steamapps/compatdata/1294660"@)),
{
    law_library_of_a_game(library, names);
}

/// A game that is given explicitly, or found in a library, is prepared with the state
/// that is given, or else with that of the library.
pub proof fn law_preparing_another_game(
    build: &Build,
    steam_root: &[u8],
    tool: Result<Tool, ProtonError>,
    has_launcher: bool,
    game_library: &[u8],
    compat_data: &Option<Vec<u8>>,
    executable: &[u8],
    is_file: bool,
    current: &[u8],
    homedir: &str,
    explicit: Result<Paths, PathsError>,
    isolated: Result<Paths, PathsError>,
)
    requires
        call_ensures(
            Paths::new_explicit,
            (
                build,
                steam_root,
                tool,
                has_launcher,
                game_library,
                compat_data,
                executable,
                is_file,
                current,
                homedir,
            ),
            explicit,
        ),
        call_ensures(
            Paths::new_isolated,
            (steam_root, tool, has_launcher, game_library, compat_data, current, homedir),
            isolated,
        ),
    ensures
        ({
            let approved = is_file && (is_named(executable@, "DivineKnockout.exe"@) || is_named(
                executable@,
                build.value(Setting::GameExecutableName),
            ));
            let home = is_homedir(homedir@);
            let data = match compat_data {
                Some(path) => join_of(current@, path@),
                None => compat_data_in(game_library@),
            };
            &&& explicit is Ok <==> approved && home && tool is Ok && has_launcher
            &&& !approved ==> explicit is Err && explicit->Err_0 is NotApproved
            &&& explicit is Ok ==> explicit->Ok_0.exe@ == executable@ && explicit->Ok_0.compat_data@
                == data && explicit->Ok_0.log@ == log_in(prefix_in(data), homedir@)
            &&& isolated is Ok <==> home && tool is Ok && has_launcher
            &&& isolated is Ok ==> isolated->Ok_0.exe@ == game_in(game_library@)
                && isolated->Ok_0.compat_data@ == data && isolated->Ok_0.log@ == log_in(
                prefix_in(data),
                homedir@,
            )
        }),
{
}

/// A tool of the player's own is used when it has a launcher, under the name of its
/// directory.
pub proof fn law_using_another_tool(
    path: &[u8],
    has_launcher: bool,
    directory: Seq<u8>,
    name: Seq<char>,
    r: Result<Tool, ProtonError>,
)
    requires
        call_ensures(override_tool, (path, has_launcher), r),
        without_end(directory) == directory,
        is_plain_name(encode_utf8(name)),
        path@ == join_of(directory, encode_utf8(name)),
    ensures
        r is Ok <==> has_launcher,
        r is Ok ==> r->Ok_0.name@ == name && r->Ok_0.path@ == path@,
        r is Err ==> (r matches Err(ProtonError::Override { directory: place }) && place@ == path@),
{
    law_joined_path_comes_apart(directory, encode_utf8(name));
    vstd::utf8::encode_utf8_valid_utf8(name);
    vstd::utf8::encode_utf8_decode_utf8(name);
}

/// The tool runs the game with the arguments of its command line, and the environment
/// says where Steam and the game's state are, and which game it is.
pub proof fn law_planning_the_launch(
    paths: &Paths,
    url: &str,
    homedir: &str,
    username: &str,
    extra: &Vec<String>,
    i: int,
    r: LaunchPlan,
)
    requires
        call_ensures(launch_plan, (paths, url, homedir, username, extra), r),
    ensures
        ({
            let line = command_line(url@, homedir@, paths.log@, username@, texts(extra@));
            &&& r.program@ == paths.proton@
            &&& r.arguments@.len() == 2 + line.len()
            &&& r.arguments@[0]@ == encode_utf8("run"@)
            &&& r.arguments@[1]@ == paths.exe@
            &&& 0 <= i < line.len() ==> r.arguments@[2 + i]@ == encode_utf8(line[i])
            &&& variable_views(r.variables@).contains(
                ("STEAM_COMPAT_CLIENT_INSTALL_PATH"@, paths.steam_root@),
            )
            &&& variable_views(r.variables@).contains(
                ("STEAM_COMPAT_DATA_PATH"@, paths.compat_data@),
            )
            &&& variable_views(r.variables@).contains(("SteamAppId"@, encode_utf8("1294660"@)))
            &&& variable_views(r.variables@).contains(("SteamGameId"@, encode_utf8("1294660"@)))
            &&& r.variables@.len() == 4
            &&& r.removed@.len() == 2
            &&& texts(r.removed@).contains("VK_ICD_FILENAMES"@)
            &&& texts(r.removed@).contains("VK_DRIVER_FILES"@)
        }),
{
    let line = command_line(url@, homedir@, paths.log@, username@, texts(extra@));
    let all = views(r.arguments@);
    assert(all.len() == 2 + line.len());
    assert(all[0] == encode_utf8("run"@));
    assert(all[1] == paths.exe@);
    if 0 <= i < line.len() {
        assert(all[2 + i] == encode_utf8(line[i]));
    }
    let variables = variable_views(r.variables@);
    assert(variables.len() == 4);
    assert(variables[0] == ("STEAM_COMPAT_CLIENT_INSTALL_PATH"@, paths.steam_root@));
    assert(variables[1] == ("STEAM_COMPAT_DATA_PATH"@, paths.compat_data@));
    assert(variables[2] == ("SteamAppId"@, encode_utf8("1294660"@)));
    assert(variables[3] == ("SteamGameId"@, encode_utf8("1294660"@)));
    let removed = texts(r.removed@);
    assert(removed.len() == 2);
    assert(removed[0] == "VK_ICD_FILENAMES"@);
    assert(removed[1] == "VK_DRIVER_FILES"@);
}

/// Of the processes that play the game from a home directory the one with the highest
/// number is taken, and no other process.
pub proof fn law_finding_the_game(
    build: &Build,
    processes: &Vec<ProcessInfo>,
    homedir: &str,
    i: int,
    r: Option<u32>,
)
    requires
        call_ensures(find_game_pid_with_homedir, (build, processes, homedir), r),
        0 <= i < processes@.len(),
        processes@[i].plays(build, homedir@),
        forall|j: int|
            0 <= j < processes@.len() && (#[trigger] processes@[j]).plays(build, homedir@)
                ==> processes@[j].pid <= processes@[i].pid,
    ensures
        r == Some(processes@[i].pid),
{
    let input = (build, processes, homedir);
    assert(input.1@[i] == processes@[i]);
    assert(r is Some);
    let k = choose|k: int|
        0 <= k < processes@.len() && (#[trigger] processes@[k]).plays(build, homedir@)
            && processes@[k].pid == r->0;
    assert(processes@[k].pid <= processes@[i].pid);
}

/// Where nobody plays the game from the home directory there is no such process.
pub proof fn law_finding_no_game(
    build: &Build,
    processes: &Vec<ProcessInfo>,
    homedir: &str,
    r: Option<u32>,
)
    requires
        call_ensures(find_game_pid_with_homedir, (build, processes, homedir), r),
        forall|j: int|
            0 <= j < processes@.len() ==> !(#[trigger] processes@[j]).plays(build, homedir@),
    ensures
        r is None,
{
}

/// On Windows the process is known by the name of its executable and by the argument
/// that names the home directory.
pub proof fn law_finding_the_game_on_windows(
    build: &Build,
    processes: &Vec<process_windows::ProcessInfo>,
    homedir: &str,
    i: int,
    k: int,
    r: Option<u32>,
)
    requires
        call_ensures(process_windows::find_game_pid_with_homedir, (build, processes, homedir), r),
        0 <= i < processes@.len(),
        same_folded(processes@[i].name@, "DivineKnockout.exe"@) || same_folded(
            processes@[i].name@,
            build.value(Setting::GameExecutableName),
        ),
        0 <= k < processes@[i].arguments@.len(),
        processes@[i].arguments@[k]@ == "-homedir="@ + homedir@,
        forall|j: int|
            0 <= j < processes@.len() ==> (#[trigger] processes@[j]).pid <= processes@[i].pid,
    ensures
        r == Some(processes@[i].pid),
{
    assert(processes@[i].has_argument("-homedir="@ + homedir@));
    assert(processes@[i].is_game(build));
    let input = (build, processes, homedir);
    assert(input.1@[i] == processes@[i]);
    assert(r is Some);
    let n = choose|n: int|
        0 <= n < processes@.len() && (#[trigger] processes@[n]).is_game(build)
            && processes@[n].has_argument("-homedir="@ + homedir@) && processes@[n].pid == r->0;
    assert(processes@[n].pid <= processes@[i].pid);
}

/// A process with another name, or started for another home directory, is left alone.
pub proof fn law_leaving_others_alone_on_windows(
    build: &Build,
    processes: &Vec<process_windows::ProcessInfo>,
    homedir: &str,
    r: Option<u32>,
)
    requires
        call_ensures(process_windows::find_game_pid_with_homedir, (build, processes, homedir), r),
        forall|j: int|
            0 <= j < processes@.len() ==> (!same_folded(
                (#[trigger] processes@[j]).name@,
                "DivineKnockout.exe"@,
            ) && !same_folded(processes@[j].name@, build.value(Setting::GameExecutableName)))
                || forall|k: int|
                0 <= k < processes@[j].arguments@.len() ==> (#[trigger] processes@[j].arguments@[k])@
                    != "-homedir="@ + homedir@,
    ensures
        r is None,
{
}

} // verus!
