//! The game's files, the command that starts it, and how its process is recognized.
use crate::arguments::{passwordless, without_auth_password};
use crate::dialog::{decode_lossy, lossy_text};
use crate::failure::is_about_proton;
use crate::paths::{
    file_name, find_named_above, join, join_of, join_text, name_of, nearest_named, parent,
    parent_of,
};
use crate::process::libraries::{game_executable_in_library, game_in};
use crate::process::proton::{law_proton_errors_are_recognized, ProtonError, Tool};
use crate::settings::{Build, Setting};
use crate::text::{
    begins, bytes_of, concat, contains, contains_letter, copied, letters, lowercase, occurs,
    occurs_at, pieces, replace, replaced, same, same_folded, same_ignoring_case, spells, split,
    text_of, texts, trim, trimmed, views,
};
use vstd::prelude::*;

verus! {

/// Where the parts of a launch are.
pub struct Paths {
    pub steam_root: Vec<u8>,
    pub exe: Vec<u8>,
    pub proton: Vec<u8>,
    pub proton_name: String,
    pub compat_data: Vec<u8>,
    pub prefix: Vec<u8>,
    pub log: Vec<u8>,
}

/// Why a launch cannot be prepared.
pub enum PathsError {
    Homedir,
    Proton { error: ProtonError },
    NoLauncher { proton: Vec<u8> },
    NotTheGame { path: Vec<u8> },
    NotApproved { path: Vec<u8> },
}

impl PathsError {
    pub open spec fn text(self) -> Seq<char> {
        match self {
            PathsError::Homedir =>
                "visible-client homedir must be a simple DivineKnockout-prefixed name"@,
            PathsError::Proton { error } => error.text(),
            PathsError::NoLauncher { proton } => "selected Proton tool has no launcher: "@
                + lossy_text(proton@),
            PathsError::NotTheGame { path } =>
                "selected game executable is not DivineKnockout.exe: "@ + lossy_text(path@),
            PathsError::NotApproved { path } =>
                "selected game executable is not an approved Divine Knockout executable: "@
                    + lossy_text(path@),
        }
    }

    /// What the player reads.
    pub fn message(&self) -> (r: String)
        ensures
            r@ == self.text(),
    {
        match self {
            PathsError::Homedir =>
                "visible-client homedir must be a simple DivineKnockout-prefixed name".to_owned(),
            PathsError::Proton { error } => error.message(),
            PathsError::NoLauncher { proton } => concat(
                "selected Proton tool has no launcher: ",
                decode_lossy(proton.as_slice()).as_str(),
            ),
            PathsError::NotTheGame { path } => concat(
                "selected game executable is not DivineKnockout.exe: ",
                decode_lossy(path.as_slice()).as_str(),
            ),
            PathsError::NotApproved { path } => concat(
                "selected game executable is not an approved Divine Knockout executable: ",
                decode_lossy(path.as_slice()).as_str(),
            ),
        }
    }
}

/// One directory name that starts as the game's own does.
pub open spec fn is_homedir(s: Seq<char>) -> bool {
    "DivineKnockout"@.is_prefix_of(s) && !s.contains('/') && !s.contains('\\')
}

/// Whether a name is one directory name that starts as the game's own does.
pub fn valid_homedir(s: &str) -> (r: bool)
    ensures
        r == is_homedir(s@),
{
    let all = letters(s);
    begins(all.as_slice(), letters("DivineKnockout").as_slice()) && !contains_letter(
        all.as_slice(),
        '/',
    ) && !contains_letter(all.as_slice(), '\\')
}

/// Where the game keeps its state in a library.
pub open spec fn compat_data_in(library: Seq<u8>) -> Seq<u8> {
    join_of(library, vstd::utf8::encode_utf8("steamapps/compatdata/1294660"@))
}

/// The Windows installation in which the game runs.
pub open spec fn prefix_in(compat_data: Seq<u8>) -> Seq<u8> {
    join_of(compat_data, vstd::utf8::encode_utf8("pfx"@))
}

/// The game's log.
pub open spec fn log_in(prefix: Seq<u8>, homedir: Seq<char>) -> Seq<u8> {
    join_of(
        prefix,
        vstd::utf8::encode_utf8(
            "drive_c/users/steamuser/AppData/Local/"@ + homedir
                + "/Saved/Logs/DivineKnockout.log"@,
        ),
    )
}

fn log_file(prefix: &[u8], homedir: &str) -> (r: Vec<u8>)
    ensures
        r@ == log_in(prefix@, homedir@),
{
    let text = concat("drive_c/users/steamuser/AppData/Local/", homedir);
    let text = concat(text.as_str(), "/Saved/Logs/DivineKnockout.log");
    join_text(prefix, text.as_str())
}

/// The file name of a path is the wanted one, up to case.
pub open spec fn is_named(path: Seq<u8>, name: Seq<char>) -> bool {
    name_of(path) is Some && same_folded(name_of(path)->0, vstd::utf8::encode_utf8(name))
}

pub fn named(path: &[u8], name: &str) -> (r: bool)
    ensures
        r == is_named(path@, name@),
{
    match file_name(path) {
        Some(own) => same_ignoring_case(own.as_slice(), name.as_bytes()),
        None => false,
    }
}

impl Paths {
    /// The paths of a launch of an executable with a tool, with the game's state in a
    /// directory.
    pub open spec fn is_prepared(
        self,
        steam_root: Seq<u8>,
        tool: Tool,
        exe: Seq<u8>,
        compat_data: Seq<u8>,
        homedir: Seq<char>,
    ) -> bool {
        &&& self.steam_root@ == steam_root
        &&& self.exe@ == exe
        &&& self.proton@ == join_of(tool.path@, vstd::utf8::encode_utf8("proton"@))
        &&& self.proton_name == tool.name
        &&& self.compat_data@ == compat_data
        &&& self.prefix@ == prefix_in(compat_data)
        &&& self.log@ == log_in(prefix_in(compat_data), homedir)
    }

    /// Prepares a launch of the game in a library. `tool` is the compatibility tool
    /// that was chosen, `has_launcher` says whether its directory holds a launcher; a
    /// place for the game's state that is not absolute is seen from `current`.
    pub fn new_isolated(
        steam_root: &[u8],
        tool: Result<Tool, ProtonError>,
        has_launcher: bool,
        game_library: &[u8],
        compat_data: &Option<Vec<u8>>,
        current: &[u8],
        homedir: &str,
    ) -> (r: Result<Paths, PathsError>)
        ensures
            match r {
                Ok(paths) => {
                    &&& is_homedir(homedir@)
                    &&& has_launcher
                    &&& match tool {
                        Ok(tool) => paths.is_prepared(
                            steam_root@,
                            tool,
                            game_in(game_library@),
                            match compat_data {
                                Some(path) => join_of(current@, path@),
                                None => compat_data_in(game_library@),
                            },
                            homedir@,
                        ),
                        Err(_) => false,
                    }
                },
                Err(PathsError::Homedir) => !is_homedir(homedir@),
                Err(PathsError::Proton { error }) => is_homedir(homedir@) && tool == Err::<
                    Tool,
                    ProtonError,
                >(error),
                Err(PathsError::NoLauncher { proton }) => is_homedir(homedir@) && !has_launcher
                    && match tool {
                    Ok(tool) => proton@ == join_of(
                        tool.path@,
                        vstd::utf8::encode_utf8("proton"@),
                    ),
                    Err(_) => false,
                },
                Err(_) => false,
            },
    {
        if !valid_homedir(homedir) {
            return Err(PathsError::Homedir);
        }
        let compat_data = match compat_data {
            Some(path) => join(current, path.as_slice()),
            None => join_text(game_library, "steamapps/compatdata/1294660"),
        };
        let prefix = join_text(compat_data.as_slice(), "pfx");
        let tool = match tool {
            Ok(tool) => tool,
            Err(error) => {
                return Err(PathsError::Proton { error });
            },
        };
        let proton = join_text(tool.path.as_slice(), "proton");
        if !has_launcher {
            return Err(PathsError::NoLauncher { proton });
        }
        let log = log_file(prefix.as_slice(), homedir);
        Ok(
            Paths {
                steam_root: copied(steam_root),
                exe: game_executable_in_library(game_library),
                proton,
                proton_name: tool.name,
                compat_data,
                prefix,
                log,
            },
        )
    }

    /// The library that an executable lies in.
    pub open spec fn library_of(executable: Seq<u8>) -> Option<Seq<u8>> {
        match nearest_named(executable, vstd::utf8::encode_utf8("steamapps"@)) {
            Some(steamapps) => parent_of(steamapps),
            None => None,
        }
    }

    /// Prepares a launch of the retail executable that the player selected. The game's
    /// state is that of the library that it lies in.
    pub fn new_selected(
        steam_root: &[u8],
        tool: Result<Tool, ProtonError>,
        has_launcher: bool,
        game_library: &[u8],
        game_executable: &[u8],
        is_file: bool,
        current: &[u8],
        homedir: &str,
    ) -> (r: Result<Paths, PathsError>)
        ensures
            match r {
                Ok(paths) => {
                    &&& is_file && is_named(game_executable@, "DivineKnockout.exe"@)
                    &&& is_homedir(homedir@)
                    &&& has_launcher
                    &&& match tool {
                        Ok(tool) => paths.is_prepared(
                            steam_root@,
                            tool,
                            game_executable@,
                            match Paths::library_of(game_executable@) {
                                Some(library) => compat_data_in(library),
                                None => compat_data_in(game_library@),
                            },
                            homedir@,
                        ),
                        Err(_) => false,
                    }
                },
                Err(PathsError::NotTheGame { path }) => path@ == game_executable@ && !(is_file
                    && is_named(game_executable@, "DivineKnockout.exe"@)),
                Err(PathsError::Homedir) => is_file && is_named(
                    game_executable@,
                    "DivineKnockout.exe"@,
                ) && !is_homedir(homedir@),
                Err(PathsError::Proton { error }) => is_file && is_named(
                    game_executable@,
                    "DivineKnockout.exe"@,
                ) && is_homedir(homedir@) && tool == Err::<Tool, ProtonError>(error),
                Err(PathsError::NoLauncher { proton }) => is_file && is_named(
                    game_executable@,
                    "DivineKnockout.exe"@,
                ) && is_homedir(homedir@) && !has_launcher && tool is Ok && proton@ == join_of(
                    tool->Ok_0.path@,
                    vstd::utf8::encode_utf8("proton"@),
                ),
                Err(PathsError::NotApproved { .. }) => false,
            },
    {
        if !is_file || !named(game_executable, "DivineKnockout.exe") {
            return Err(PathsError::NotTheGame { path: copied(game_executable) });
        }
        let mut paths = match Paths::new_isolated(
            steam_root,
            tool,
            has_launcher,
            game_library,
            &None,
            current,
            homedir,
        ) {
            Ok(paths) => paths,
            Err(error) => {
                return Err(error);
            },
        };
        paths.exe = copied(game_executable);
        if let Some(steamapps) = find_named_above(game_executable, "steamapps".as_bytes()) {
            if let Some(library) = parent(steamapps.as_slice()) {
                paths.compat_data = join_text(library.as_slice(), "steamapps/compatdata/1294660");
                paths.prefix = join_text(paths.compat_data.as_slice(), "pfx");
                paths.log = log_file(paths.prefix.as_slice(), homedir);
            }
        }
        Ok(paths)
    }

    /// Prepares a launch of an executable that was approved, and keeps a place for the
    /// game's state that was asked for.
    pub fn new_explicit(
        build: &Build,
        steam_root: &[u8],
        tool: Result<Tool, ProtonError>,
        has_launcher: bool,
        game_library: &[u8],
        compat_data: &Option<Vec<u8>>,
        game_executable: &[u8],
        is_file: bool,
        current: &[u8],
        homedir: &str,
    ) -> (r: Result<Paths, PathsError>)
        ensures
            match r {
                Ok(paths) => {
                    &&& is_file && is_approved(build, game_executable@)
                    &&& is_homedir(homedir@)
                    &&& has_launcher
                    &&& match tool {
                        Ok(tool) => paths.is_prepared(
                            steam_root@,
                            tool,
                            game_executable@,
                            match compat_data {
                                Some(path) => join_of(current@, path@),
                                None => compat_data_in(game_library@),
                            },
                            homedir@,
                        ),
                        Err(_) => false,
                    }
                },
                Err(PathsError::NotApproved { path }) => path@ == game_executable@ && !(is_file
                    && is_approved(build, game_executable@)),
                Err(PathsError::Homedir) => is_file && is_approved(build, game_executable@)
                    && !is_homedir(homedir@),
                Err(PathsError::Proton { error }) => is_file && is_approved(build, game_executable@)
                    && is_homedir(homedir@) && tool == Err::<Tool, ProtonError>(error),
                Err(PathsError::NoLauncher { proton }) => is_file && is_approved(
                    build,
                    game_executable@,
                ) && is_homedir(homedir@) && !has_launcher && tool is Ok && proton@ == join_of(
                    tool->Ok_0.path@,
                    vstd::utf8::encode_utf8("proton"@),
                ),
                Err(PathsError::NotTheGame { .. }) => false,
            },
    {
        if !is_file || !is_explicit_game_executable(build, game_executable) {
            return Err(PathsError::NotApproved { path: copied(game_executable) });
        }
        let mut paths = match Paths::new_isolated(
            steam_root,
            tool,
            has_launcher,
            game_library,
            compat_data,
            current,
            homedir,
        ) {
            Ok(paths) => paths,
            Err(error) => {
                return Err(error);
            },
        };
        paths.exe = copied(game_executable);
        Ok(paths)
    }
}

/// The executable has one of the two names that the game goes by.
pub open spec fn is_approved(build: &Build, path: Seq<u8>) -> bool {
    is_named(path, "DivineKnockout.exe"@) || is_named(path, build.value(Setting::GameExecutableName))
}

/// Whether an executable has one of the two names that the game goes by.
pub fn is_explicit_game_executable(build: &Build, path: &[u8]) -> (r: bool)
    ensures
        r == is_approved(build, path@),
{
    named(path, "DivineKnockout.exe") || named(path, build.get(Setting::GameExecutableName))
}

/// When the compatibility tool is missing, or has no launcher, the server and the
/// player are told that it is about Proton.
pub proof fn law_missing_launcher_is_about_proton(error: PathsError)
    requires
        error is Proton || error is NoLauncher,
    ensures
        is_about_proton(error.text()),
{
    match error {
        PathsError::Proton { error } => {
            law_proton_errors_are_recognized(error);
        },
        PathsError::NoLauncher { proton } => {
            reveal_strlit("proton");
            reveal_strlit("selected Proton tool has no launcher: ");
            let needle = "proton"@;
            let whole = lowercase(error.text());
            assert(whole.subrange(9, 15) =~= needle);
            assert(occurs_at(whole, needle, 9));
        },
        _ => {},
    }
}

/// The argument by which the game is told where to log: Windows sees the root of the
/// file system as a drive.
pub open spec fn abslog_argument(path: Seq<u8>) -> Seq<char> {
    "-ABSLOG=Z:"@ + replaced(lossy_text(path), seq!['/'], seq!['\\'])
}

/// The argument for a path that is given as text.
pub fn abslog_for_text(path: &str) -> (r: String)
    ensures
        r@ == "-ABSLOG=Z:"@ + replaced(path@, seq!['/'], seq!['\\']),
{
    let text = replace(letters(path).as_slice(), ['/'].as_slice(), ['\\'].as_slice());
    assert(['/']@ =~= seq!['/']);
    assert(['\\']@ =~= seq!['\\']);
    concat("-ABSLOG=Z:", text_of(text.as_slice()).as_str())
}

/// The argument by which the game is told where to log.
pub fn unreal_abslog_argument(path: &[u8]) -> (r: String)
    ensures
        r@ == abslog_argument(path@),
{
    abslog_for_text(decode_lossy(path).as_str())
}

/// The arguments of the game, before those that the player adds.
pub open spec fn fixed_arguments(
    url: Seq<char>,
    homedir: Seq<char>,
    log: Seq<char>,
    username: Seq<char>,
) -> Seq<Seq<char>> {
    seq![
        "DivineKnockout"@,
        "-homedir="@ + homedir,
        "-oss=Anon"@,
        "-ini:Engine:[OnlineSubsystem]:SanitizerPlatformService=Anon"@,
        "-nosteam"@,
        "-noeac"@,
        "-hirezenv=RETAIL"@,
        "-RHIgnoreSavedLogin"@,
        "-RallyHereURL="@ + url,
        "-nosplash"@,
        log,
        "-LogCmds=LogBrawler Warning"@,
        "-fileopenlog"@,
        "-AUTH_LOGIN="@ + username,
        "-AUTH_TYPE=password"@,
        "-ini:RallyHereIntegration:[/Script/RallyHereIntegration.RH_LocalPlayerLoginSubsystem]:bLoginOSSRequireOnlinePlayToLogin=false"@,
        "-ini:RallyHereIntegration:[/Script/RallyHereIntegration.RH_LocalPlayerLoginSubsystem]:NicknameOSSName=Anon"@,
        "-ini:RallyHereIntegration:[/Script/RallyHereIntegration.RH_LocalPlayerLoginSubsystem]:bNicknameOSSRequireIdentityLogin=true"@,
        "-ini:RallyHereIntegration:[/Script/RallyHereIntegration.RH_LocalPlayerLoginSubsystem]:bNicknameOSSRequireOnlinePlayToLogin=false"@,
    ]
}

/// The arguments of the game; `log` is the argument that says where to log.
pub fn game_arguments(
    probe_url: &str,
    homedir: &str,
    log: &str,
    username: &str,
    extra_arguments: &Vec<String>,
) -> (r: Vec<String>)
    ensures
        texts(r@) == fixed_arguments(probe_url@, homedir@, log@, username@) + passwordless(
            texts(extra_arguments@),
        ),
{
    let mut arguments: Vec<String> = Vec::new();
    arguments.push("DivineKnockout".to_owned());
    arguments.push(concat("-homedir=", homedir));
    arguments.push("-oss=Anon".to_owned());
    arguments.push("-ini:Engine:[OnlineSubsystem]:SanitizerPlatformService=Anon".to_owned());
    arguments.push("-nosteam".to_owned());
    arguments.push("-noeac".to_owned());
    arguments.push("-hirezenv=RETAIL".to_owned());
    arguments.push("-RHIgnoreSavedLogin".to_owned());
    arguments.push(concat("-RallyHereURL=", probe_url));
    arguments.push("-nosplash".to_owned());
    arguments.push(log.to_owned());
    arguments.push("-LogCmds=LogBrawler Warning".to_owned());
    arguments.push("-fileopenlog".to_owned());
    arguments.push(concat("-AUTH_LOGIN=", username));
    arguments.push("-AUTH_TYPE=password".to_owned());
    arguments.push(
        "-ini:RallyHereIntegration:[/Script/RallyHereIntegration.RH_LocalPlayerLoginSubsystem]:bLoginOSSRequireOnlinePlayToLogin=false".to_owned(),
    );
    arguments.push(
        "-ini:RallyHereIntegration:[/Script/RallyHereIntegration.RH_LocalPlayerLoginSubsystem]:NicknameOSSName=Anon".to_owned(),
    );
    arguments.push(
        "-ini:RallyHereIntegration:[/Script/RallyHereIntegration.RH_LocalPlayerLoginSubsystem]:bNicknameOSSRequireIdentityLogin=true".to_owned(),
    );
    arguments.push(
        "-ini:RallyHereIntegration:[/Script/RallyHereIntegration.RH_LocalPlayerLoginSubsystem]:bNicknameOSSRequireOnlinePlayToLogin=false".to_owned(),
    );
    assert(texts(arguments@) =~= fixed_arguments(probe_url@, homedir@, log@, username@));
    let ghost fixed = texts(arguments@);
    let mut extra = without_auth_password(extra_arguments);
    let ghost added = texts(extra@);
    arguments.append(&mut extra);
    assert(texts(arguments@) =~= fixed + added);
    arguments
}

/// A command line, as the system keeps it: arguments with a zero byte between them.
pub open spec fn is_argument_of(cmdline: Seq<u8>, argument: Seq<char>) -> bool {
    exists|i: int|
        0 <= i < pieces(cmdline, 0).len() && #[trigger] pieces(cmdline, 0)[i]
            == vstd::utf8::encode_utf8(argument)
}

/// Whether a process was started with an argument.
pub fn has_launch_argument(cmdline: &[u8], argument: &str) -> (r: bool)
    ensures
        r == is_argument_of(cmdline@, argument@),
{
    let values = split(cmdline, 0);
    let ghost all = views(values@);
    let wanted = argument.as_bytes();
    let mut i: usize = 0;
    while i < values.len()
        invariant
            i <= values@.len(),
            all == views(values@),
            all == pieces(cmdline@, 0),
            wanted@ == vstd::utf8::encode_utf8(argument@),
            forall|j: int| 0 <= j < i ==> #[trigger] all[j] != vstd::utf8::encode_utf8(argument@),
        decreases values@.len() - i,
    {
        if same(values[i].as_slice(), wanted) {
            assert(all[i as int] == vstd::utf8::encode_utf8(argument@));
            return true;
        }
        assert(all[i as int] != vstd::utf8::encode_utf8(argument@));
        i = i + 1;
    }
    false
}

/// The process is the game: it has the name of the game's main thread, and one of the
/// game's executables stands in its command line.
pub open spec fn is_game(build: &Build, comm: Seq<char>, cmdline: Seq<u8>) -> bool {
    trimmed(comm) == "GameThread"@ && (occurs(
        cmdline,
        vstd::utf8::encode_utf8("DivineKnockout.exe"@),
    ) || occurs(cmdline, vstd::utf8::encode_utf8(build.value(Setting::GameExecutableName))))
}

/// Whether a process is the game.
pub fn is_game_process_identity(build: &Build, comm: &str, cmdline: &[u8]) -> (r: bool)
    ensures
        r == is_game(build, comm@, cmdline@),
{
    spells(trim(letters(comm).as_slice()).as_slice(), "GameThread") && (contains(
        cmdline,
        "DivineKnockout.exe".as_bytes(),
    ) || contains(cmdline, build.get(Setting::GameExecutableName).as_bytes()))
}

/// A running process.
pub struct ProcessInfo {
    pub pid: u32,
    pub comm: String,
    pub cmdline: Vec<u8>,
}

impl ProcessInfo {
    /// The process is the game, started with a home directory.
    pub open spec fn plays(self, build: &Build, homedir: Seq<char>) -> bool {
        is_game(build, self.comm@, self.cmdline@) && is_argument_of(
            self.cmdline@,
            "-homedir="@ + homedir,
        )
    }

}

/// Whether a process is the game.
pub fn is_game_pid(build: &Build, process: &ProcessInfo) -> (r: bool)
    ensures
        r == is_game(build, process.comm@, process.cmdline@),
{
    is_game_process_identity(build, process.comm.as_str(), process.cmdline.as_slice())
}

/// Whether a process is the game, started with a home directory. A game that was found
/// once is watched by this alone, so that a second one with the same home directory
/// does not take its place.
pub fn game_process_matches(build: &Build, process: &ProcessInfo, homedir: &str) -> (r: bool)
    ensures
        r == process.plays(build, homedir@),
{
    is_game_pid(build, process) && has_launch_argument(
        process.cmdline.as_slice(),
        concat("-homedir=", homedir).as_str(),
    )
}

/// The game with a home directory, if it runs: of several the one with the highest
/// number.
pub fn find_game_pid_with_homedir(build: &Build, processes: &Vec<ProcessInfo>, homedir: &str) -> (r:
    Option<u32>)
    ensures
        match r {
            Some(pid) => {
                &&& exists|i: int|
                    0 <= i < processes@.len() && (#[trigger] processes@[i]).plays(build, homedir@)
                        && processes@[i].pid == pid
                &&& forall|i: int|
                    0 <= i < processes@.len() && (#[trigger] processes@[i]).plays(build, homedir@)
                        ==> processes@[i].pid <= pid
            },
            None => forall|i: int|
                0 <= i < processes@.len() ==> !(#[trigger] processes@[i]).plays(build, homedir@),
        },
{
    let mut best: Option<u32> = None;
    let mut i: usize = 0;
    while i < processes.len()
        invariant
            i <= processes@.len(),
            match best {
                Some(pid) => {
                    &&& exists|k: int|
                        0 <= k < i && (#[trigger] processes@[k]).plays(build, homedir@)
                            && processes@[k].pid == pid
                    &&& forall|k: int|
                        0 <= k < i && (#[trigger] processes@[k]).plays(build, homedir@)
                            ==> processes@[k].pid <= pid
                },
                None => forall|k: int|
                    0 <= k < i ==> !(#[trigger] processes@[k]).plays(build, homedir@),
            },
        decreases processes@.len() - i,
    {
        if game_process_matches(build, &processes[i], homedir) {
            let pid = processes[i].pid;
            assert(processes@[i as int].plays(build, homedir@));
            match best {
                Some(previous) => {
                    if pid > previous {
                        best = Some(pid);
                    }
                },
                None => {
                    best = Some(pid);
                },
            }
        }
        i = i + 1;
    }
    best
}

/// What waiting for the game comes to.
#[derive(Clone, Copy, Debug, PartialEq, Eq, Structural)]
pub enum WaitStep {
    Found { pid: u32 },
    /// Look again a little later.
    Wait,
    TimedOut,
}

/// What waiting for the game comes to, when it began to look at a time: nothing that
/// is found later than the deadline counts.
pub fn next_wait(now: u64, deadline: u64, found: Option<u32>) -> (r: WaitStep)
    ensures
        r == if now >= deadline {
            WaitStep::TimedOut
        } else {
            match found {
                Some(pid) => WaitStep::Found { pid },
                None => WaitStep::Wait,
            }
        },
{
    if now >= deadline {
        return WaitStep::TimedOut;
    }
    match found {
        Some(pid) => WaitStep::Found { pid },
        None => WaitStep::Wait,
    }
}

/// What is said when the game does not appear.
pub fn waiting_timed_out(homedir: &str) -> (r: String)
    ensures
        r@ == "timed out waiting for DivineKnockout.exe homedir "@ + homedir@,
{
    concat("timed out waiting for DivineKnockout.exe homedir ", homedir)
}

/// How the game is started.
pub struct LaunchPlan {
    pub program: Vec<u8>,
    pub arguments: Vec<Vec<u8>>,
    /// What is set in the environment of the game.
    pub variables: Vec<(String, Vec<u8>)>,
    /// What is removed from the environment of the game.
    pub removed: Vec<String>,
}

pub open spec fn variable_views(variables: Seq<(String, Vec<u8>)>) -> Seq<(Seq<char>, Seq<u8>)> {
    Seq::new(variables.len(), |i: int| (variables[i].0@, variables[i].1@))
}

fn encode_all(texts_in: &Vec<String>, start: Vec<Vec<u8>>) -> (r: Vec<Vec<u8>>)
    ensures
        views(r@) == views(start@) + Seq::new(
            texts_in@.len(),
            |i: int| vstd::utf8::encode_utf8(texts_in@[i]@),
        ),
{
    let mut r = start;
    let ghost before = views(start@);
    let mut i: usize = 0;
    assert(views(r@) =~= before + Seq::new(0, |k: int| vstd::utf8::encode_utf8(texts_in@[k]@)));
    while i < texts_in.len()
        invariant
            i <= texts_in@.len(),
            views(r@) == before + Seq::new(
                i as nat,
                |k: int| vstd::utf8::encode_utf8(texts_in@[k]@),
            ),
        decreases texts_in@.len() - i,
    {
        let ghost prior = views(r@);
        let bytes = bytes_of(texts_in[i].as_str());
        let ghost added = bytes@;
        r.push(bytes);
        assert(views(r@) =~= prior.push(added));
        assert(views(r@) =~= before + Seq::new(
            (i + 1) as nat,
            |k: int| vstd::utf8::encode_utf8(texts_in@[k]@),
        ));
        i = i + 1;
    }
    r
}

/// How the game is started: through the compatibility tool, with the game's state, and
/// with the arguments that the game takes.
pub fn launch_plan(
    paths: &Paths,
    probe_url: &str,
    homedir: &str,
    username: &str,
    extra_arguments: &Vec<String>,
) -> (r: LaunchPlan)
    ensures
        r.program@ == paths.proton@,
        ({
            let own = fixed_arguments(probe_url@, homedir@, abslog_argument(paths.log@), username@)
                + passwordless(texts(extra_arguments@));
            views(r.arguments@) == seq![vstd::utf8::encode_utf8("run"@), paths.exe@] + Seq::new(
                own.len(),
                |i: int| vstd::utf8::encode_utf8(own[i]),
            )
        }),
        variable_views(r.variables@) == seq![
            ("STEAM_COMPAT_CLIENT_INSTALL_PATH"@, paths.steam_root@),
            ("STEAM_COMPAT_DATA_PATH"@, paths.compat_data@),
            ("SteamAppId"@, vstd::utf8::encode_utf8("1294660"@)),
            ("SteamGameId"@, vstd::utf8::encode_utf8("1294660"@)),
        ],
        texts(r.removed@) == seq!["VK_ICD_FILENAMES"@, "VK_DRIVER_FILES"@],
{
    let log = unreal_abslog_argument(paths.log.as_slice());
    let own = game_arguments(probe_url, homedir, log.as_str(), username, extra_arguments);
    let mut start: Vec<Vec<u8>> = Vec::new();
    start.push(bytes_of("run"));
    start.push(copied(paths.exe.as_slice()));
    assert(views(start@) =~= seq![vstd::utf8::encode_utf8("run"@), paths.exe@]);
    let arguments = encode_all(&own, start);
    assert(views(arguments@) =~= seq![vstd::utf8::encode_utf8("run"@), paths.exe@] + Seq::new(
        texts(own@).len(),
        |i: int| vstd::utf8::encode_utf8(texts(own@)[i]),
    ));
    let mut variables: Vec<(String, Vec<u8>)> = Vec::new();
    variables.push(
        ("STEAM_COMPAT_CLIENT_INSTALL_PATH".to_owned(), copied(paths.steam_root.as_slice())),
    );
    variables.push(
        ("STEAM_COMPAT_DATA_PATH".to_owned(), copied(paths.compat_data.as_slice())),
    );
    variables.push(("SteamAppId".to_owned(), bytes_of("1294660")));
    variables.push(("SteamGameId".to_owned(), bytes_of("1294660")));
    assert(variable_views(variables@) =~= seq![
        ("STEAM_COMPAT_CLIENT_INSTALL_PATH"@, paths.steam_root@),
        ("STEAM_COMPAT_DATA_PATH"@, paths.compat_data@),
        ("SteamAppId"@, vstd::utf8::encode_utf8("1294660"@)),
        ("SteamGameId"@, vstd::utf8::encode_utf8("1294660"@)),
    ]);
    let mut removed: Vec<String> = Vec::new();
    removed.push("VK_ICD_FILENAMES".to_owned());
    removed.push("VK_DRIVER_FILES".to_owned());
    assert(texts(removed@) =~= seq!["VK_ICD_FILENAMES"@, "VK_DRIVER_FILES"@]);
    LaunchPlan { program: copied(paths.proton.as_slice()), arguments, variables, removed }
}

} // verus!
