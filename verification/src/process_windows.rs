//! Finding and starting the game on Windows.
use crate::desktop::maybe_view;
use crate::dialog::{decode_lossy, lossy_text};
use crate::process::game::{is_homedir, valid_homedir};
use crate::settings::{Build, Setting};
use crate::text::{
    bytes_of, concat, copied, is_space, letters, maybe_text, occurs_at, part, replace, replaced,
    same_folded, same_ignoring_case, spells, stands_at, text_of, views, white_space,
};
use crate::wide::{decode_utf16, text_from};
use crate::windows_paths::{
    directory_on, is_named, join_of, join_on, join_text, join_text_on, named, parent_on,
};
use vstd::prelude::*;

verus! {

/// Where the game and its log are.
pub struct Paths {
    pub exe: Vec<u8>,
    pub log: Vec<u8>,
}

/// Why the game is not found or cannot be prepared.
pub enum SelectError {
    Homedir,
    NoLocalAppData,
    NotConfigured,
    NothingSelected,
    PickerFailed { code: u32 },
    NotUnicode,
    NotTheGame,
    NotApproved { path: Vec<u8> },
}

/// The eight hexadecimal digits of a number.
pub open spec fn hex_digits(n: u32) -> Seq<char> {
    crate::digest::hex_of(
        seq![
            (n / 0x100_0000) as u8,
            (n / 0x1_0000 % 0x100) as u8,
            (n / 0x100 % 0x100) as u8,
            (n % 0x100) as u8,
        ],
    )
}

fn write_hex(n: u32) -> (r: String)
    ensures
        r@ == hex_digits(n),
{
    let mut bytes: Vec<u8> = Vec::new();
    bytes.push((n / 0x100_0000) as u8);
    bytes.push((n / 0x1_0000 % 0x100) as u8);
    bytes.push((n / 0x100 % 0x100) as u8);
    bytes.push((n % 0x100) as u8);
    assert(bytes@ =~= seq![
        (n / 0x100_0000) as u8,
        (n / 0x1_0000 % 0x100) as u8,
        (n / 0x100 % 0x100) as u8,
        (n % 0x100) as u8,
    ]);
    crate::digest::hex_text(bytes.as_slice())
}

impl SelectError {
    pub open spec fn text(self) -> Seq<char> {
        match self {
            SelectError::Homedir =>
                "visible-client homedir must be a simple DivineKnockout-prefixed name"@,
            SelectError::NoLocalAppData =>
                "LOCALAPPDATA is unavailable; cannot locate the DKO log directory"@,
            SelectError::NotConfigured =>
                "Divine Knockout is not configured at the path selected during setup; run setup again"@,
            SelectError::NothingSelected =>
                "Divine Knockout was not found automatically and no executable was selected"@,
            SelectError::PickerFailed { code } => "the Windows file picker failed with error 0x"@
                + hex_digits(code),
            SelectError::NotUnicode =>
                "the selected DivineKnockout.exe path is not valid Unicode"@,
            SelectError::NotTheGame => "select the retail executable named DivineKnockout.exe"@,
            SelectError::NotApproved { path } =>
                "selected game executable is not an approved Divine Knockout executable: "@
                    + lossy_text(path@),
        }
    }

    /// What the player reads.
    pub fn message(&self) -> (r: String)
        ensures
            r@ == self.text(),
    {
        match self {
            SelectError::Homedir =>
                "visible-client homedir must be a simple DivineKnockout-prefixed name".to_owned(),
            SelectError::NoLocalAppData =>
                "LOCALAPPDATA is unavailable; cannot locate the DKO log directory".to_owned(),
            SelectError::NotConfigured =>
                "Divine Knockout is not configured at the path selected during setup; run setup again".to_owned(),
            SelectError::NothingSelected =>
                "Divine Knockout was not found automatically and no executable was selected".to_owned(),
            SelectError::PickerFailed { code } => concat(
                "the Windows file picker failed with error 0x",
                write_hex(*code).as_str(),
            ),
            SelectError::NotUnicode =>
                "the selected DivineKnockout.exe path is not valid Unicode".to_owned(),
            SelectError::NotTheGame =>
                "select the retail executable named DivineKnockout.exe".to_owned(),
            SelectError::NotApproved { path } => concat(
                "selected game executable is not an approved Divine Knockout executable: ",
                decode_lossy(path.as_slice()).as_str(),
            ),
        }
    }
}

/// The game's log.
pub open spec fn log_in(local_app_data: Seq<u8>, homedir: Seq<char>) -> Seq<u8> {
    join_of(
        join_of(local_app_data, vstd::utf8::encode_utf8(homedir)),
        vstd::utf8::encode_utf8("Saved/Logs/DivineKnockout.log"@),
    )
}

impl Paths {
    /// Prepares a launch; `located` is the game's executable, as far as it was found.
    pub fn new_isolated(
        local_app_data: &Option<Vec<u8>>,
        located: Result<Vec<u8>, SelectError>,
        homedir: &str,
    ) -> (r: Result<Paths, SelectError>)
        ensures
            if !is_homedir(homedir@) {
                r == Err::<Paths, SelectError>(SelectError::Homedir)
            } else {
                match (local_app_data, located) {
                    (None, _) => r == Err::<Paths, SelectError>(SelectError::NoLocalAppData),
                    (Some(_), Err(error)) => r == Err::<Paths, SelectError>(error),
                    (Some(data), Ok(exe)) => r matches Ok(paths) && paths.exe == exe && paths.log@
                        == log_in(data@, homedir@),
                }
            },
    {
        if !valid_homedir(homedir) {
            return Err(SelectError::Homedir);
        }
        match local_app_data {
            None => Err(SelectError::NoLocalAppData),
            Some(data) => match located {
                Err(error) => Err(error),
                Ok(exe) => {
                    let directory = join_text(data.as_slice(), homedir);
                    let log = join_text(directory.as_slice(), "Saved/Logs/DivineKnockout.log");
                    Ok(Paths { exe, log })
                },
            },
        }
    }

    /// Prepares a launch of the executable that the player selected during setup.
    pub fn new_selected(
        local_app_data: &Option<Vec<u8>>,
        selected: Result<Vec<u8>, SelectError>,
        homedir: &str,
    ) -> (r: Result<Paths, SelectError>)
        ensures
            if !is_homedir(homedir@) {
                r == Err::<Paths, SelectError>(SelectError::Homedir)
            } else {
                match (local_app_data, selected) {
                    (None, _) => r == Err::<Paths, SelectError>(SelectError::NoLocalAppData),
                    (Some(_), Err(error)) => r == Err::<Paths, SelectError>(error),
                    (Some(data), Ok(exe)) => r matches Ok(paths) && paths.exe == exe && paths.log@
                        == log_in(data@, homedir@),
                }
            },
    {
        Paths::new_isolated(local_app_data, selected, homedir)
    }

    /// Prepares a launch of an executable that was approved, whatever installation is
    /// remembered, and without changing what is remembered.
    pub fn new_explicit(
        build: &Build,
        local_app_data: &Option<Vec<u8>>,
        game_executable: &[u8],
        is_file: bool,
        homedir: &str,
    ) -> (r: Result<Paths, SelectError>)
        ensures
            if !is_file || !is_approved(build, game_executable@) {
                r matches Err(SelectError::NotApproved { path }) && path@ == game_executable@
            } else if !is_homedir(homedir@) {
                r == Err::<Paths, SelectError>(SelectError::Homedir)
            } else {
                match local_app_data {
                    None => r == Err::<Paths, SelectError>(SelectError::NoLocalAppData),
                    Some(data) => r matches Ok(paths) && paths.exe@ == game_executable@
                        && paths.log@ == log_in(data@, homedir@),
                }
            },
    {
        if !is_file || !is_explicit_game_executable(build, game_executable) {
            return Err(SelectError::NotApproved { path: copied(game_executable) });
        }
        Paths::new_isolated(local_app_data, Ok(copied(game_executable)), homedir)
    }
}

/// An executable that the launcher may start, going by its name.
pub open spec fn is_approved(build: &Build, path: Seq<u8>) -> bool {
    is_named(path, "DivineKnockout.exe"@) || is_named(
        path,
        build.value(Setting::GameExecutableName),
    )
}

fn is_explicit_game_executable(build: &Build, path: &[u8]) -> (r: bool)
    ensures
        r == is_approved(build, path@),
{
    named(path, "DivineKnockout.exe") || named(path, build.get(Setting::GameExecutableName))
}

/// The retail executable in a library of Steam.
pub open spec fn game_in(library: Seq<u8>) -> Seq<u8> {
    join_of(
        library,
        vstd::utf8::encode_utf8(
            "steamapps/common/Divine Knockout/DivineKnockout/Binaries/Win64/DivineKnockout.exe"@,
        ),
    )
}

fn game_executable_in_library(library: &[u8]) -> (r: Vec<u8>)
    ensures
        r@ == game_in(library@),
{
    join_text(
        library,
        "steamapps/common/Divine Knockout/DivineKnockout/Binaries/Win64/DivineKnockout.exe",
    )
}

/// The retail executable below the directory that a file lies in.
pub open spec fn nested_of(path: Seq<u8>, windows: bool) -> Option<Seq<u8>> {
    match parent_on(windows, path) {
        Some(directory) => Some(
            join_on(windows, directory, "DivineKnockout/Binaries/Win64/DivineKnockout.exe"@),
        ),
        None => None,
    }
}

/// The retail executable below the directory that a file lies in.
pub fn nested_executable(path: &[u8], windows: bool) -> (r: Option<Vec<u8>>)
    ensures
        match r {
            Some(nested) => nested_of(path@, windows) == Some(nested@),
            None => nested_of(path@, windows) is None,
        },
{
    match directory_on(windows, path) {
        Some(directory) => Some(
            join_text_on(
                windows,
                directory.as_slice(),
                "DivineKnockout/Binaries/Win64/DivineKnockout.exe",
            ),
        ),
        None => None,
    }
}

/// The executable that a selection stands for: the retail one below it, if there is
/// one.
pub open spec fn resolved(path: Seq<u8>, nested_is_file: bool, windows: bool) -> Seq<u8> {
    match nested_of(path, windows) {
        Some(nested) => if nested_is_file {
            nested
        } else {
            path
        },
        None => path,
    }
}

/// The executable that a selection stands for.
pub fn resolve_divine_knockout_executable(path: Vec<u8>, nested_is_file: bool, windows: bool) -> (r:
    Vec<u8>)
    ensures
        r@ == resolved(path@, nested_is_file, windows),
{
    match nested_executable(path.as_slice(), windows) {
        Some(nested) => if nested_is_file {
            nested
        } else {
            path
        },
        None => path,
    }
}

/// Whether a file is the game's executable, going by its name.
pub fn is_divine_knockout_executable(path: &[u8], is_file: bool) -> (r: bool)
    ensures
        r == (is_file && is_named(path@, "DivineKnockout.exe"@)),
{
    is_file && named(path, "DivineKnockout.exe")
}

/// The remembered executable, as long as it is there. `resolved_is_file` says whether
/// the executable that the remembered path stands for is a file.
pub fn configured_game_executable(
    remembered: Option<Vec<u8>>,
    nested_is_file: bool,
    resolved_is_file: bool,
) -> (r: Option<Vec<u8>>)
    ensures
        match remembered {
            Some(path) => if resolved_is_file && is_named(
                resolved(path@, nested_is_file, true),
                "DivineKnockout.exe"@,
            ) {
                r matches Some(executable) && executable@ == resolved(path@, nested_is_file, true)
            } else {
                r is None
            },
            None => r is None,
        },
{
    match remembered {
        Some(path) => {
            let executable = resolve_divine_knockout_executable(path, nested_is_file, true);
            if is_divine_knockout_executable(executable.as_slice(), resolved_is_file) {
                Some(executable)
            } else {
                None
            }
        },
        None => None,
    }
}

/// The executable that the player selected during setup.
pub fn selected_game_executable(configured: Option<Vec<u8>>) -> (r: Result<Vec<u8>, SelectError>)
    ensures
        match configured {
            Some(path) => r == Ok::<Vec<u8>, SelectError>(path),
            None => r == Err::<Vec<u8>, SelectError>(SelectError::NotConfigured),
        },
{
    match configured {
        Some(path) => Ok(path),
        None => Err(SelectError::NotConfigured),
    }
}

/// Where the white space that starts at a place ends.
pub open spec fn space_end(s: Seq<char>, i: int) -> int
    decreases s.len() - i,
{
    if 0 <= i < s.len() && is_space(s[i]) {
        space_end(s, i + 1)
    } else {
        i
    }
}

/// Where the next quote is, or the end.
pub open spec fn quote_end(s: Seq<char>, i: int) -> int
    decreases s.len() - i,
{
    if 0 <= i < s.len() && s[i] != '"' {
        quote_end(s, i + 1)
    } else {
        i
    }
}

/// The text in quotes that follows the word `"path"` at a place, and where it ends.
pub open spec fn path_entry(s: Seq<char>, i: int) -> Option<(int, int)> {
    let after = i + "\"path\""@.len();
    let opening = space_end(s, after);
    let closing = quote_end(s, opening + 1);
    if occurs_at(s, "\"path\""@, i) && opening > after && opening < s.len() && s[opening] == '"'
        && closing > opening + 1 && closing < s.len() {
        Some((opening + 1, closing))
    } else {
        None
    }
}

/// The paths in a list of libraries, from a place on.
pub open spec fn path_entries(s: Seq<char>, i: int) -> Seq<Seq<char>>
    decreases s.len() - i,
    via path_entries_shrink
{
    if i >= s.len() || i < 0 {
        Seq::empty()
    } else {
        match path_entry(s, i) {
            Some((start, end)) => seq![replaced(s.subrange(start, end), "\\\\"@, "\\"@)]
                + path_entries(s, end + 1),
            None => path_entries(s, i + 1),
        }
    }
}

#[via_fn]
proof fn path_entries_shrink(s: Seq<char>, i: int) {
    lemma_space_end(s, i + "\"path\""@.len());
    lemma_quote_end(s, space_end(s, i + "\"path\""@.len()) + 1);
}

proof fn lemma_space_end(s: Seq<char>, i: int)
    ensures
        i <= space_end(s, i),
        i <= s.len() ==> space_end(s, i) <= s.len(),
    decreases s.len() - i,
{
    if 0 <= i < s.len() && is_space(s[i]) {
        lemma_space_end(s, i + 1);
    }
}

proof fn lemma_quote_end(s: Seq<char>, i: int)
    ensures
        i <= quote_end(s, i),
        i <= s.len() ==> quote_end(s, i) <= s.len(),
    decreases s.len() - i,
{
    if 0 <= i < s.len() && s[i] != '"' {
        lemma_quote_end(s, i + 1);
    }
}

fn find_path_entry(s: &[char], i: usize) -> (r: Option<(usize, usize)>)
    requires
        i < s@.len(),
    ensures
        match r {
            Some((start, end)) => path_entry(s@, i as int) == Some((start as int, end as int)) && i
                < start <= end < s@.len(),
            None => path_entry(s@, i as int) is None,
        },
{
    let word = letters("\"path\"");
    let length: usize = s.len();
    if length - i < word.len() || !stands_at(s, word.as_slice(), i) {
        return None;
    }
    let after: usize = i + word.len();
    let mut opening: usize = after;
    while opening < s.len() && white_space(s[opening])
        invariant
            after <= opening <= s@.len(),
            space_end(s@, opening as int) == space_end(s@, after as int),
        decreases s@.len() - opening,
    {
        opening = opening + 1;
    }
    if opening == after || opening >= s.len() || s[opening] != '"' {
        return None;
    }
    let mut closing: usize = opening + 1;
    while closing < s.len() && s[closing] != '"'
        invariant
            opening + 1 <= closing <= s@.len(),
            quote_end(s@, closing as int) == quote_end(s@, opening + 1),
        decreases s@.len() - closing,
    {
        closing = closing + 1;
    }
    if closing == opening + 1 || closing >= s.len() {
        return None;
    }
    Some((opening + 1, closing))
}

/// The paths in a list of libraries.
pub fn library_paths(contents: &str) -> (r: Vec<Vec<char>>)
    ensures
        views(r@) == path_entries(contents@, 0),
{
    let s = letters(contents);
    let mut r: Vec<Vec<char>> = Vec::new();
    let mut i: usize = 0;
    assert(views(r@) =~= Seq::empty());
    assert(Seq::<Seq<char>>::empty() + path_entries(s@, 0) =~= path_entries(s@, 0));
    proof {
        reveal_strlit("\\\\");
    }
    while i < s.len()
        invariant
            i <= s@.len(),
            "\\\\"@.len() == 2,
            views(r@) + path_entries(s@, i as int) == path_entries(s@, 0),
        decreases s@.len() - i,
    {
        match find_path_entry(s.as_slice(), i) {
            Some((start, end)) => {
                let ghost before = views(r@);
                let raw = part(s.as_slice(), start, end);
                let value = replace(
                    raw.as_slice(),
                    letters("\\\\").as_slice(),
                    letters("\\").as_slice(),
                );
                let ghost added = value@;
                r.push(value);
                assert(views(r@) =~= before.push(added));
                assert(views(r@) + path_entries(s@, end + 1) =~= before + (seq![added]
                    + path_entries(s@, end + 1)));
                i = end + 1;
            },
            None => {
                i = i + 1;
            },
        }
    }
    assert(path_entries(s@, i as int) =~= Seq::empty());
    assert(views(r@) + Seq::<Seq<char>>::empty() =~= views(r@));
    r
}

/// Where the game may be: in the Steam directory, and in every library that Steam's
/// list names.
pub open spec fn game_candidates(steam_root: Seq<u8>, contents: Option<Seq<char>>) -> Seq<Seq<u8>> {
    seq![game_in(steam_root)] + (match contents {
        Some(contents) => Seq::new(
            path_entries(contents, 0).len(),
            |i: int|
                game_in(vstd::utf8::encode_utf8(path_entries(contents, 0)[i])),
        ),
        None => Seq::empty(),
    })
}

/// Where the game may be; `contents` is Steam's list of libraries.
pub fn steam_game_candidates(steam_root: &[u8], contents: &Option<String>) -> (r: Vec<Vec<u8>>)
    ensures
        views(r@) == game_candidates(
            steam_root@,
            match contents {
                Some(contents) => Some(contents@),
                None => None,
            },
        ),
{
    let mut r: Vec<Vec<u8>> = Vec::new();
    r.push(game_executable_in_library(steam_root));
    assert(views(r@) =~= seq![game_in(steam_root@)]);
    if let Some(contents) = contents {
        let libraries = library_paths(contents.as_str());
        let ghost entries = path_entries(contents@, 0);
        let mut i: usize = 0;
        assert(views(r@) =~= seq![game_in(steam_root@)] + Seq::new(
            0,
            |k: int| game_in(vstd::utf8::encode_utf8(entries[k])),
        ));
        while i < libraries.len()
            invariant
                i <= libraries@.len(),
                entries == views(libraries@),
                views(r@) == seq![game_in(steam_root@)] + Seq::new(
                    i as nat,
                    |k: int| game_in(vstd::utf8::encode_utf8(entries[k])),
                ),
            decreases libraries@.len() - i,
        {
            let ghost before = views(r@);
            let library = text_of(libraries[i].as_slice());
            let candidate = game_executable_in_library(library.as_str().as_bytes());
            let ghost added = candidate@;
            r.push(candidate);
            assert(views(r@) =~= before.push(added));
            assert(views(r@) =~= seq![game_in(steam_root@)] + Seq::new(
                (i + 1) as nat,
                |k: int| game_in(vstd::utf8::encode_utf8(entries[k])),
            ));
            i = i + 1;
        }
    } else {
        assert(views(r@) + Seq::<Seq<u8>>::empty() =~= views(r@));
    }
    r
}

/// The candidates that are there.
pub open spec fn present(candidates: Seq<Seq<u8>>, is_file: Seq<bool>) -> Seq<Seq<u8>>
    decreases candidates.len(),
{
    if candidates.len() == 0 {
        Seq::empty()
    } else {
        let before = present(candidates.drop_last(), is_file);
        if candidates.len() <= is_file.len() && is_file[candidates.len() - 1] {
            before.push(candidates.last())
        } else {
            before
        }
    }
}

/// The candidates that are there.
pub fn steam_game_executables(candidates: &Vec<Vec<u8>>, is_file: &Vec<bool>) -> (r: Vec<Vec<u8>>)
    ensures
        views(r@) == present(views(candidates@), is_file@),
{
    let ghost all = views(candidates@);
    let mut r: Vec<Vec<u8>> = Vec::new();
    let mut i: usize = 0;
    assert(views(r@) =~= Seq::empty());
    assert(all.take(0) =~= Seq::empty());
    while i < candidates.len()
        invariant
            i <= candidates@.len(),
            all == views(candidates@),
            views(r@) == present(all.take(i as int), is_file@),
        decreases candidates@.len() - i,
    {
        assert(all.take(i + 1).drop_last() =~= all.take(i as int));
        if i < is_file.len() && is_file[i] {
            let ghost before = views(r@);
            let copy = copied(candidates[i].as_slice());
            let ghost added = copy@;
            r.push(copy);
            assert(views(r@) =~= before.push(added));
        }
        i = i + 1;
    }
    assert(all.take(i as int) =~= all);
    r
}

/// The executable has the digest of the supported build.
pub open spec fn is_supported(build: &Build, digests: Seq<Option<String>>, i: int) -> bool {
    &&& 0 <= i < digests.len()
    &&& digests[i] is Some
    &&& digests[i]->0@ == build.value(Setting::TargetExeSha256)
}

/// The executable that the player is asked to confirm: the first one of the supported
/// build, or else the first one.
pub fn suggested_game_executable(
    build: &Build,
    executables: &Vec<Vec<u8>>,
    digests: &Vec<Option<String>>,
) -> (r: Option<Vec<u8>>)
    requires
        digests@.len() == executables@.len(),
    ensures
        match r {
            Some(path) => exists|i: int|
                {
                    &&& 0 <= i < executables@.len()
                    &&& (#[trigger] executables@[i])@ == path@
                    &&& forall|j: int| 0 <= j < i ==> !is_supported(build, digests@, j)
                    &&& is_supported(build, digests@, i) || (i == 0 && forall|j: int|
                        !#[trigger] is_supported(build, digests@, j))
                },
            None => executables@.len() == 0,
        },
{
    let mut i: usize = 0;
    while i < executables.len()
        invariant
            i <= executables@.len(),
            digests@.len() == executables@.len(),
            forall|j: int| 0 <= j < i ==> !is_supported(build, digests@, j),
        decreases executables@.len() - i,
    {
        if let Some(digest) = &digests[i] {
            if spells(letters(digest.as_str()).as_slice(), build.get(Setting::TargetExeSha256)) {
                let path = copied(executables[i].as_slice());
                assert(is_supported(build, digests@, i as int));
                assert(executables@[i as int]@ == path@);
                return Some(path);
            }
        }
        i = i + 1;
    }
    if executables.len() == 0 {
        return None;
    }
    let path = copied(executables[0].as_slice());
    assert(executables@[0]@ == path@);
    Some(path)
}

/// The units before the first zero.
pub open spec fn until_zero(units: Seq<u16>) -> Seq<u16>
    decreases units.len(),
{
    if units.len() == 0 || units[0] == 0 {
        Seq::empty()
    } else {
        seq![units[0]] + until_zero(units.skip(1))
    }
}

/// How the file picker ended.
pub enum Picked {
    Chosen { buffer: Vec<u16> },
    Ended { code: u32 },
}

/// The path that the file picker filled its buffer with.
pub open spec fn picked_path(picked: Picked) -> Result<Seq<u8>, SelectError> {
    match picked {
        Picked::Ended { code } => if code == 0 {
            Err(SelectError::NothingSelected)
        } else {
            Err(SelectError::PickerFailed { code })
        },
        Picked::Chosen { buffer } => match text_from(until_zero(buffer@)) {
            Some(path) => Ok(vstd::utf8::encode_utf8(path)),
            None => Err(SelectError::NotUnicode),
        },
    }
}

fn cut_at_zero(units: &Vec<u16>) -> (r: Vec<u16>)
    ensures
        r@ == until_zero(units@),
{
    let mut n: usize = 0;
    assert(units@.skip(0) =~= units@);
    let mut r: Vec<u16> = Vec::new();
    assert(r@ + until_zero(units@) =~= until_zero(units@));
    while n < units.len() && units[n] != 0
        invariant
            n <= units@.len(),
            r@ + until_zero(units@.skip(n as int)) == until_zero(units@),
        decreases units@.len() - n,
    {
        let ghost before = r@;
        let ghost rest = units@.skip(n as int);
        r.push(units[n]);
        assert(rest.skip(1) =~= units@.skip(n + 1));
        assert(r@ + until_zero(units@.skip(n + 1)) =~= before + (seq![rest[0]] + until_zero(
            units@.skip(n + 1),
        )));
        n = n + 1;
    }
    assert(until_zero(units@.skip(n as int)) =~= Seq::empty());
    assert(r@ + Seq::<u16>::empty() =~= r@);
    r
}

/// What the file picker was filled with.
pub fn path_from_picker(picked: &Picked) -> (r: Result<Vec<u8>, SelectError>)
    ensures
        match r {
            Ok(path) => picked_path(*picked) == Ok::<Seq<u8>, SelectError>(path@),
            Err(error) => picked_path(*picked) == Err::<Seq<u8>, SelectError>(error),
        },
{
    match picked {
        Picked::Ended { code } => if *code == 0 {
            Err(SelectError::NothingSelected)
        } else {
            Err(SelectError::PickerFailed { code: *code })
        },
        Picked::Chosen { buffer } => match decode_utf16(cut_at_zero(buffer).as_slice()) {
            Some(path) => Ok(bytes_of(path.as_str())),
            None => Err(SelectError::NotUnicode),
        },
    }
}

/// The player's selection: it must be the retail executable.
pub fn confirm_selection(path: Result<Vec<u8>, SelectError>, is_file: bool) -> (r: Result<
    Vec<u8>,
    SelectError,
>)
    ensures
        match path {
            Err(_) => r == path,
            Ok(chosen) => if is_file && is_named(chosen@, "DivineKnockout.exe"@) {
                r == path
            } else {
                r == Err::<Vec<u8>, SelectError>(SelectError::NotTheGame)
            },
        },
{
    match path {
        Err(error) => Err(error),
        Ok(chosen) => if is_divine_knockout_executable(chosen.as_slice(), is_file) {
            Ok(chosen)
        } else {
            Err(SelectError::NotTheGame)
        },
    }
}

/// The executable that the player's selection stands for. The one that is remembered
/// stays until the new one was verified.
pub fn select_game_executable_candidate(
    selection: Result<Vec<u8>, SelectError>,
    nested_is_file: bool,
) -> (r: Result<Vec<u8>, SelectError>)
    ensures
        match selection {
            Ok(path) => r matches Ok(executable) && executable@ == resolved(path@, nested_is_file, true),
            Err(_) => r == selection,
        },
{
    match selection {
        Ok(path) => Ok(resolve_divine_knockout_executable(path, nested_is_file, true)),
        Err(error) => Err(error),
    }
}

/// The executable that the player's confirmation of a suggestion stands for.
pub fn discover_or_select_game_executable_candidate(
    selection: Result<Vec<u8>, SelectError>,
    nested_is_file: bool,
) -> (r: Result<Vec<u8>, SelectError>)
    ensures
        match selection {
            Ok(path) => r matches Ok(executable) && executable@ == resolved(path@, nested_is_file, true),
            Err(_) => r == selection,
        },
{
    select_game_executable_candidate(selection, nested_is_file)
}

/// What is to be done with a selection.
pub enum Remember {
    /// Remember this executable, and use it.
    Save { executable: Vec<u8> },
    /// Use this executable, which is remembered already.
    Use { executable: Vec<u8> },
    Fail { error: SelectError },
}

/// The executable that is to be remembered once the player confirmed a suggestion.
pub fn discover_or_select_and_remember_game_executable(
    selection: Result<Vec<u8>, SelectError>,
    nested_is_file: bool,
) -> (r: Remember)
    ensures
        match selection {
            Ok(path) => r matches Remember::Save { executable } && executable@ == resolved(
                path@,
                nested_is_file,
                true,
            ),
            Err(error) => r == (Remember::Fail { error }),
        },
{
    match discover_or_select_game_executable_candidate(selection, nested_is_file) {
        Ok(executable) => Remember::Save { executable },
        Err(error) => Remember::Fail { error },
    }
}

/// Where the game is: the remembered executable, as long as it is there, or else the
/// player's selection.
pub fn locate_game_executable(
    configured: Option<Vec<u8>>,
    selection: Result<Vec<u8>, SelectError>,
) -> (r: Remember)
    ensures
        match (configured, selection) {
            (Some(executable), _) => r == (Remember::Use { executable }),
            (None, Ok(executable)) => r == (Remember::Save { executable }),
            (None, Err(error)) => r == (Remember::Fail { error }),
        },
{
    match configured {
        Some(executable) => Remember::Use { executable },
        None => match selection {
            Ok(executable) => Remember::Save { executable },
            Err(error) => Remember::Fail { error },
        },
    }
}

/// The argument by which the game is told where to log.
pub fn unreal_abslog_argument(path: &str) -> (r: String)
    ensures
        r@ == "-ABSLOG="@ + path@,
{
    concat("-ABSLOG=", path)
}

/// A running process.
pub struct ProcessInfo {
    pub pid: u32,
    pub name: String,
    pub arguments: Vec<String>,
}

impl ProcessInfo {
    /// The process is the game, going by its name.
    pub open spec fn is_game(self, build: &Build) -> bool {
        same_folded(self.name@, "DivineKnockout.exe"@) || same_folded(
            self.name@,
            build.value(Setting::GameExecutableName),
        )
    }

    /// The process was started with an argument.
    pub open spec fn has_argument(self, argument: Seq<char>) -> bool {
        exists|i: int| 0 <= i < self.arguments@.len() && (#[trigger] self.arguments@[i])@ == argument
    }

    fn game(&self, build: &Build) -> (r: bool)
        ensures
            r == self.is_game(build),
    {
        let name = letters(self.name.as_str());
        same_ignoring_case(name.as_slice(), letters("DivineKnockout.exe").as_slice())
            || same_ignoring_case(
            name.as_slice(),
            letters(build.get(Setting::GameExecutableName)).as_slice(),
        )
    }

    fn started_with(&self, argument: &str) -> (r: bool)
        ensures
            r == self.has_argument(argument@),
    {
        let mut i: usize = 0;
        while i < self.arguments.len()
            invariant
                i <= self.arguments@.len(),
                forall|j: int| 0 <= j < i ==> (#[trigger] self.arguments@[j])@ != argument@,
            decreases self.arguments@.len() - i,
        {
            if spells(letters(self.arguments[i].as_str()).as_slice(), argument) {
                return true;
            }
            i = i + 1;
        }
        false
    }
}

/// Whether the game runs under a number and was started with an argument.
pub fn has_launch_argument(
    build: &Build,
    processes: &Vec<ProcessInfo>,
    pid: u32,
    argument: &str,
) -> (r: bool)
    ensures
        r == exists|i: int|
            0 <= i < processes@.len() && (#[trigger] processes@[i]).is_game(build)
                && processes@[i].pid == pid && processes@[i].has_argument(argument@),
{
    let mut i: usize = 0;
    while i < processes.len()
        invariant
            i <= processes@.len(),
            forall|j: int|
                0 <= j < i ==> !((#[trigger] processes@[j]).is_game(build) && processes@[j].pid == pid
                    && processes@[j].has_argument(argument@)),
        decreases processes@.len() - i,
    {
        if processes[i].pid == pid && processes[i].game(build) && processes[i].started_with(
            argument,
        ) {
            assert(processes@[i as int].is_game(build));
            return true;
        }
        i = i + 1;
    }
    false
}

/// Whether the game runs under a number.
pub fn is_game_pid(build: &Build, processes: &Vec<ProcessInfo>, pid: u32) -> (r: bool)
    ensures
        r == exists|i: int|
            0 <= i < processes@.len() && (#[trigger] processes@[i]).is_game(build)
                && processes@[i].pid == pid,
{
    let mut i: usize = 0;
    while i < processes.len()
        invariant
            i <= processes@.len(),
            forall|j: int|
                0 <= j < i ==> !((#[trigger] processes@[j]).is_game(build) && processes@[j].pid
                    == pid),
        decreases processes@.len() - i,
    {
        if processes[i].pid == pid && processes[i].game(build) {
            assert(processes@[i as int].is_game(build));
            return true;
        }
        i = i + 1;
    }
    false
}

/// The game with a home directory, if it runs: of several the one with the highest
/// number.
pub fn find_game_pid_with_homedir(build: &Build, processes: &Vec<ProcessInfo>, homedir: &str) -> (r:
    Option<u32>)
    ensures
        match r {
            Some(pid) => {
                &&& exists|i: int|
                    0 <= i < processes@.len() && (#[trigger] processes@[i]).is_game(build)
                        && processes@[i].has_argument("-homedir="@ + homedir@) && processes@[i].pid
                        == pid
                &&& forall|i: int|
                    0 <= i < processes@.len() && (#[trigger] processes@[i]).is_game(build)
                        && processes@[i].has_argument("-homedir="@ + homedir@) ==> processes@[i].pid
                        <= pid
            },
            None => forall|i: int|
                0 <= i < processes@.len() ==> !((#[trigger] processes@[i]).is_game(build)
                    && processes@[i].has_argument("-homedir="@ + homedir@)),
        },
{
    let expected = concat("-homedir=", homedir);
    let ghost wanted = "-homedir="@ + homedir@;
    let mut best: Option<u32> = None;
    let mut i: usize = 0;
    while i < processes.len()
        invariant
            i <= processes@.len(),
            expected@ == wanted,
            match best {
                Some(pid) => {
                    &&& exists|k: int|
                        0 <= k < i && (#[trigger] processes@[k]).is_game(build)
                            && processes@[k].has_argument(wanted) && processes@[k].pid == pid
                    &&& forall|k: int|
                        0 <= k < i && (#[trigger] processes@[k]).is_game(build)
                            && processes@[k].has_argument(wanted) ==> processes@[k].pid <= pid
                },
                None => forall|k: int|
                    0 <= k < i ==> !((#[trigger] processes@[k]).is_game(build)
                        && processes@[k].has_argument(wanted)),
            },
        decreases processes@.len() - i,
    {
        if processes[i].game(build) && processes[i].started_with(expected.as_str()) {
            let pid = processes[i].pid;
            assert(processes@[i as int].is_game(build));
            match best {
                Some(previous) => {
                    if pid > previous {
                        best = Some(pid);
                    }
                },
                None => {
                    best = Some(pid);
                },
            }
        }
        i = i + 1;
    }
    best
}

/// Where Steam is: where it says so itself, for the user or else for the machine, or in
/// its usual place among the programs.
pub open spec fn steam_root_of(
    user: Option<Seq<char>>,
    machine: Option<Seq<char>>,
    programs_x86: Option<Seq<u8>>,
    programs: Option<Seq<u8>>,
) -> Seq<u8> {
    match (user, machine) {
        (Some(path), _) => vstd::utf8::encode_utf8(path),
        (None, Some(path)) => vstd::utf8::encode_utf8(path),
        (None, None) => join_of(
            match (programs_x86, programs) {
                (Some(directory), _) => directory,
                (None, Some(directory)) => directory,
                (None, None) => vstd::utf8::encode_utf8("C:\\Program Files (x86)"@),
            },
            vstd::utf8::encode_utf8("Steam"@),
        ),
    }
}

/// Where Steam is: `user` and `machine` are what it noted for the user and for the
/// machine, `programs_x86` and `programs` the directories of the programs.
pub fn default_steam_root(
    user: &Option<String>,
    machine: &Option<String>,
    programs_x86: &Option<Vec<u8>>,
    programs: &Option<Vec<u8>>,
) -> (r: Vec<u8>)
    ensures
        r@ == steam_root_of(
            maybe_text(*user),
            maybe_text(*machine),
            maybe_view(*programs_x86),
            maybe_view(*programs),
        ),
{
    match (user, machine) {
        (Some(path), _) => bytes_of(path.as_str()),
        (None, Some(path)) => bytes_of(path.as_str()),
        (None, None) => match (programs_x86, programs) {
            (Some(directory), _) => join_text(directory.as_slice(), "Steam"),
            (None, Some(directory)) => join_text(directory.as_slice(), "Steam"),
            (None, None) => join_text("C:\\Program Files (x86)".as_bytes(), "Steam"),
        },
    }
}

/// The launcher's own directory, below the one for local data.
pub open spec fn launcher_directory(local_app_data: Seq<u8>) -> Seq<u8> {
    join_of(local_app_data, vstd::utf8::encode_utf8("ProjectKNOCKOUT"@))
}

/// The installed launcher.
pub fn installed_launcher_executable(local_app_data: &[u8]) -> (r: Vec<u8>)
    ensures
        r@ == join_of(
            launcher_directory(local_app_data@),
            vstd::utf8::encode_utf8("Project-KNOCKOUT.exe"@),
        ),
{
    let own = join_text(local_app_data, "ProjectKNOCKOUT");
    join_text(own.as_slice(), "Project-KNOCKOUT.exe")
}

/// The launcher's log.
pub fn launcher_log_path(local_app_data: &[u8]) -> (r: Vec<u8>)
    ensures
        r@ == join_of(
            launcher_directory(local_app_data@),
            vstd::utf8::encode_utf8("logs/launcher.log"@),
        ),
{
    let own = join_text(local_app_data, "ProjectKNOCKOUT");
    join_text(own.as_slice(), "logs/launcher.log")
}

/// The launcher's data about the game.
pub fn game_data_directory(build: &Build, local_app_data: &[u8]) -> (r: Vec<u8>)
    ensures
        r@ == join_of(
            launcher_directory(local_app_data@),
            vstd::utf8::encode_utf8(build.value(Setting::RuntimeDirectory)),
        ),
{
    let own = join_text(local_app_data, "ProjectKNOCKOUT");
    join_text(own.as_slice(), build.get(Setting::RuntimeDirectory))
}

/// The launchers of earlier releases in the launcher's directory: all but the one that
/// is installed.
pub fn legacy_launchers(local_app_data: &[u8]) -> (r: Vec<Vec<u8>>)
    ensures
        views(r@) == seq![
            join_of(
                launcher_directory(local_app_data@),
                vstd::utf8::encode_utf8("Project_KNOCKOUT_Launcher.exe"@),
            ),
            join_of(
                launcher_directory(local_app_data@),
                vstd::utf8::encode_utf8("dko-launcher.exe"@),
            ),
        ],
{
    let own = join_text(local_app_data, "ProjectKNOCKOUT");
    let mut r: Vec<Vec<u8>> = Vec::new();
    r.push(join_text(own.as_slice(), "Project_KNOCKOUT_Launcher.exe"));
    r.push(join_text(own.as_slice(), "dko-launcher.exe"));
    assert(views(r@) =~= seq![
        join_of(
            launcher_directory(local_app_data@),
            vstd::utf8::encode_utf8("Project_KNOCKOUT_Launcher.exe"@),
        ),
        join_of(
            launcher_directory(local_app_data@),
            vstd::utf8::encode_utf8("dko-launcher.exe"@),
        ),
    ]);
    r
}

} // verus!
