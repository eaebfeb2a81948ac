//! The settings a launcher is built with: which server paths it talks to and which
//! game build it supports.
use crate::text::{
    all_digits, any_control, begins, concat, contains_any, copied, decimal, digest_text, divide,
    ends, has_control, is_digest, letters, lower_all, lowercase, meets, parse_decimal, pieces,
    spells, split, split_once, text_of, trim, trimmed, views,
};
use vstd::prelude::*;

verus! {

#[derive(Clone, Copy, Debug, PartialEq, Eq, Structural)]
pub enum Setting {
    GameManifestPath,
    GameFilesPrefix,
    GameExecutableName,
    LauncherManifestPath,
    LauncherFilesPrefix,
    LaunchPrefix,
    LaunchAckPath,
    LaunchStatusPath,
    TransportPath,
    GameHomedir,
    RuntimeDirectory,
    TargetBuild,
    TargetExeSha256,
    TargetPakSha256,
    LauncherVersion,
}

/// How many settings there are.
pub const SETTINGS: usize = 15;

/// What a setting's value must look like.
#[derive(Clone, Copy, Debug, PartialEq, Eq, Structural)]
pub enum Shape {
    /// A SHA-256 digest in hexadecimal; kept in lower case.
    Digest,
    /// That many decimal numbers of 16 bits between dots.
    Version { parts: u8 },
    /// One directory name, which starts with `DivineKnockout`.
    Homedir,
    /// One directory name.
    Directory,
    /// One file name, which ends in `.exe`.
    Executable,
    /// An absolute path on the server.
    ServerPath,
    /// An absolute path on the server, which ends in a slash.
    Prefix,
}

impl Setting {
    pub open spec fn index(self) -> int {
        match self {
            Setting::GameManifestPath => 0,
            Setting::GameFilesPrefix => 1,
            Setting::GameExecutableName => 2,
            Setting::LauncherManifestPath => 3,
            Setting::LauncherFilesPrefix => 4,
            Setting::LaunchPrefix => 5,
            Setting::LaunchAckPath => 6,
            Setting::LaunchStatusPath => 7,
            Setting::TransportPath => 8,
            Setting::GameHomedir => 9,
            Setting::RuntimeDirectory => 10,
            Setting::TargetBuild => 11,
            Setting::TargetExeSha256 => 12,
            Setting::TargetPakSha256 => 13,
            Setting::LauncherVersion => 14,
        }
    }

    pub open spec fn key(self) -> Seq<char> {
        match self {
            Setting::GameManifestPath => "KNOCKOUT_GAME_MANIFEST_PATH"@,
            Setting::GameFilesPrefix => "KNOCKOUT_GAME_FILES_PREFIX"@,
            Setting::GameExecutableName => "KNOCKOUT_GAME_EXECUTABLE_NAME"@,
            Setting::LauncherManifestPath => "KNOCKOUT_LAUNCHER_MANIFEST_PATH"@,
            Setting::LauncherFilesPrefix => "KNOCKOUT_LAUNCHER_FILES_PREFIX"@,
            Setting::LaunchPrefix => "KNOCKOUT_LAUNCH_PREFIX"@,
            Setting::LaunchAckPath => "KNOCKOUT_LAUNCH_ACK_PATH"@,
            Setting::LaunchStatusPath => "KNOCKOUT_LAUNCH_STATUS_PATH"@,
            Setting::TransportPath => "KNOCKOUT_TRANSPORT_PATH"@,
            Setting::GameHomedir => "KNOCKOUT_GAME_HOMEDIR"@,
            Setting::RuntimeDirectory => "KNOCKOUT_RUNTIME_DIRECTORY"@,
            Setting::TargetBuild => "KNOCKOUT_TARGET_BUILD"@,
            Setting::TargetExeSha256 => "KNOCKOUT_TARGET_EXE_SHA256"@,
            Setting::TargetPakSha256 => "KNOCKOUT_TARGET_PAK_SHA256"@,
            Setting::LauncherVersion => "KNOCKOUT_LAUNCHER_VERSION"@,
        }
    }

    pub open spec fn shape(self) -> Shape {
        match self {
            Setting::TargetExeSha256 | Setting::TargetPakSha256 => Shape::Digest,
            Setting::TargetBuild => Shape::Version { parts: 4 },
            Setting::LauncherVersion => Shape::Version { parts: 3 },
            Setting::GameHomedir => Shape::Homedir,
            Setting::RuntimeDirectory => Shape::Directory,
            Setting::GameExecutableName => Shape::Executable,
            Setting::GameFilesPrefix | Setting::LauncherFilesPrefix | Setting::LaunchPrefix =>
                Shape::Prefix,
            _ => Shape::ServerPath,
        }
    }

    /// The name of the environment variable that holds the setting.
    pub fn name(self) -> (r: &'static str)
        ensures
            r@ == self.key(),
    {
        match self {
            Setting::GameManifestPath => "KNOCKOUT_GAME_MANIFEST_PATH",
            Setting::GameFilesPrefix => "KNOCKOUT_GAME_FILES_PREFIX",
            Setting::GameExecutableName => "KNOCKOUT_GAME_EXECUTABLE_NAME",
            Setting::LauncherManifestPath => "KNOCKOUT_LAUNCHER_MANIFEST_PATH",
            Setting::LauncherFilesPrefix => "KNOCKOUT_LAUNCHER_FILES_PREFIX",
            Setting::LaunchPrefix => "KNOCKOUT_LAUNCH_PREFIX",
            Setting::LaunchAckPath => "KNOCKOUT_LAUNCH_ACK_PATH",
            Setting::LaunchStatusPath => "KNOCKOUT_LAUNCH_STATUS_PATH",
            Setting::TransportPath => "KNOCKOUT_TRANSPORT_PATH",
            Setting::GameHomedir => "KNOCKOUT_GAME_HOMEDIR",
            Setting::RuntimeDirectory => "KNOCKOUT_RUNTIME_DIRECTORY",
            Setting::TargetBuild => "KNOCKOUT_TARGET_BUILD",
            Setting::TargetExeSha256 => "KNOCKOUT_TARGET_EXE_SHA256",
            Setting::TargetPakSha256 => "KNOCKOUT_TARGET_PAK_SHA256",
            Setting::LauncherVersion => "KNOCKOUT_LAUNCHER_VERSION",
        }
    }

    /// The setting at a place of the list.
    pub fn at(index: usize) -> (r: Setting)
        requires
            index < SETTINGS,
        ensures
            r.index() == index,
    {
        match index {
            0 => Setting::GameManifestPath,
            1 => Setting::GameFilesPrefix,
            2 => Setting::GameExecutableName,
            3 => Setting::LauncherManifestPath,
            4 => Setting::LauncherFilesPrefix,
            5 => Setting::LaunchPrefix,
            6 => Setting::LaunchAckPath,
            7 => Setting::LaunchStatusPath,
            8 => Setting::TransportPath,
            9 => Setting::GameHomedir,
            10 => Setting::RuntimeDirectory,
            11 => Setting::TargetBuild,
            12 => Setting::TargetExeSha256,
            13 => Setting::TargetPakSha256,
            _ => Setting::LauncherVersion,
        }
    }

    fn place(self) -> (r: usize)
        ensures
            r == self.index(),
            r < SETTINGS,
    {
        match self {
            Setting::GameManifestPath => 0,
            Setting::GameFilesPrefix => 1,
            Setting::GameExecutableName => 2,
            Setting::LauncherManifestPath => 3,
            Setting::LauncherFilesPrefix => 4,
            Setting::LaunchPrefix => 5,
            Setting::LaunchAckPath => 6,
            Setting::LaunchStatusPath => 7,
            Setting::TransportPath => 8,
            Setting::GameHomedir => 9,
            Setting::RuntimeDirectory => 10,
            Setting::TargetBuild => 11,
            Setting::TargetExeSha256 => 12,
            Setting::TargetPakSha256 => 13,
            Setting::LauncherVersion => 14,
        }
    }

    fn required_shape(self) -> (r: Shape)
        ensures
            r == self.shape(),
    {
        match self {
            Setting::TargetExeSha256 | Setting::TargetPakSha256 => Shape::Digest,
            Setting::TargetBuild => Shape::Version { parts: 4 },
            Setting::LauncherVersion => Shape::Version { parts: 3 },
            Setting::GameHomedir => Shape::Homedir,
            Setting::RuntimeDirectory => Shape::Directory,
            Setting::GameExecutableName => Shape::Executable,
            Setting::GameFilesPrefix | Setting::LauncherFilesPrefix | Setting::LaunchPrefix =>
                Shape::Prefix,
            _ => Shape::ServerPath,
        }
    }
}

/// Why the settings cannot be used.
#[derive(Clone, Copy, Debug, PartialEq, Eq, Structural)]
pub enum BuildError {
    /// A line of the local file that holds no `=`.
    Entry,
    /// A key that the local file gives twice.
    DuplicateKey,
    Missing { setting: Setting },
    Invalid { setting: Setting },
    OpenPrefix { setting: Setting },
}

impl BuildError {
    pub open spec fn text(self) -> Seq<char> {
        match self {
            BuildError::Entry => ".env entries must be KEY=value"@,
            BuildError::DuplicateKey => "duplicate .env key"@,
            BuildError::Missing { setting } => "set "@ + setting.key()
                + " in the environment or a local .env before building"@,
            BuildError::Invalid { setting } => "invalid "@ + setting.key(),
            BuildError::OpenPrefix { setting } => setting.key() + " must end with /"@,
        }
    }

    /// What the player or the packager reads.
    pub fn message(&self) -> (r: String)
        ensures
            r@ == self.text(),
    {
        match self {
            BuildError::Entry => ".env entries must be KEY=value".to_owned(),
            BuildError::DuplicateKey => "duplicate .env key".to_owned(),
            BuildError::Missing { setting } => {
                let start = concat("set ", setting.name());
                concat(start.as_str(), " in the environment or a local .env before building")
            },
            BuildError::Invalid { setting } => concat("invalid ", setting.name()),
            BuildError::OpenPrefix { setting } => concat(setting.name(), " must end with /"),
        }
    }
}

/// A decimal number that fits in 16 bits.
pub open spec fn is_version_part(s: Seq<char>) -> bool {
    s.len() > 0 && all_digits(s) && decimal(s) <= 65535
}

/// The name of one directory entry.
pub open spec fn is_single_name(s: Seq<char>) -> bool {
    !meets(s, seq!['/', '\\', ':'])
}

/// An absolute path that no server reads in two ways.
pub open spec fn is_server_path(s: Seq<char>) -> bool {
    &&& seq!['/'].is_prefix_of(s)
    &&& !seq!['/', '/'].is_prefix_of(s)
    &&& !meets(s, seq!['?', '#', '\\', '%', ':'])
    &&& forall|i: int|
        0 <= i < pieces(s, '/').len() ==> #[trigger] pieces(s, '/')[i] != "."@ && pieces(s, '/')[i]
            != ".."@
}

impl Shape {
    /// The value has the shape, apart from the slash that ends a prefix.
    pub open spec fn fits(self, value: Seq<char>) -> bool {
        &&& value.len() > 0
        &&& !has_control(value)
        &&& match self {
            Shape::Digest => is_digest(value),
            Shape::Version { parts } => {
                let numbers = pieces(value, '.');
                numbers.len() == parts && forall|i: int|
                    0 <= i < numbers.len() ==> is_version_part(#[trigger] numbers[i])
            },
            Shape::Homedir => is_single_name(value) && value != "."@ && value != ".."@
                && "DivineKnockout"@.is_prefix_of(value),
            Shape::Directory => is_single_name(value) && value != "."@ && value != ".."@,
            Shape::Executable => is_single_name(value) && ".exe"@.is_suffix_of(value),
            Shape::ServerPath | Shape::Prefix => is_server_path(value),
        }
    }

    /// The value that the launcher works with.
    pub open spec fn settled(self, value: Seq<char>) -> Seq<char> {
        if self == Shape::Digest {
            lowercase(value)
        } else {
            value
        }
    }
}

impl Setting {
    /// What becomes of a value that is offered for the setting.
    pub open spec fn outcome(self, value: Seq<char>) -> Result<Seq<char>, BuildError> {
        if !self.shape().fits(value) {
            Err(BuildError::Invalid { setting: self })
        } else if self.shape() == Shape::Prefix && value.last() != '/' {
            Err(BuildError::OpenPrefix { setting: self })
        } else {
            Ok(self.shape().settled(value))
        }
    }
}

fn version_fits(value: &[char], parts: u8) -> (r: bool)
    ensures
        r == ({
            let numbers = pieces(value@, '.');
            numbers.len() == parts && forall|i: int|
                0 <= i < numbers.len() ==> is_version_part(#[trigger] numbers[i])
        }),
{
    let numbers = split(value, '.');
    let ghost all = views(numbers@);
    if numbers.len() != parts as usize {
        return false;
    }
    let mut i: usize = 0;
    while i < numbers.len()
        invariant
            i <= numbers.len(),
            all == views(numbers@),
            all == pieces(value@, '.'),
            forall|j: int| 0 <= j < i ==> is_version_part(#[trigger] all[j]),
        decreases numbers.len() - i,
    {
        if parse_decimal(numbers[i].as_slice(), 65535).is_none() {
            assert(!is_version_part(all[i as int]));
            return false;
        }
        assert(is_version_part(all[i as int]));
        i = i + 1;
    }
    true
}

fn single_name(value: &[char]) -> (r: bool)
    ensures
        r == is_single_name(value@),
{
    !contains_any(value, ['/', '\\', ':'].as_slice())
}

fn server_path(value: &[char]) -> (r: bool)
    ensures
        r == is_server_path(value@),
{
    if !begins(value, ['/'].as_slice()) || begins(value, ['/', '/'].as_slice()) || contains_any(
        value,
        ['?', '#', '\\', '%', ':'].as_slice(),
    ) {
        return false;
    }
    let parts = split(value, '/');
    let ghost all = views(parts@);
    let mut i: usize = 0;
    while i < parts.len()
        invariant
            i <= parts.len(),
            all == views(parts@),
            all == pieces(value@, '/'),
            forall|j: int| 0 <= j < i ==> #[trigger] all[j] != "."@ && all[j] != ".."@,
        decreases parts.len() - i,
    {
        if spells(parts[i].as_slice(), ".") || spells(parts[i].as_slice(), "..") {
            assert(all[i as int] == "."@ || all[i as int] == ".."@);
            return false;
        }
        assert(all[i as int] != "."@ && all[i as int] != ".."@);
        i = i + 1;
    }
    true
}

impl Shape {
    fn admits(self, value: &[char]) -> (r: bool)
        ensures
            r == self.fits(value@),
    {
        if value.len() == 0 || any_control(value) {
            return false;
        }
        match self {
            Shape::Digest => digest_text(value),
            Shape::Version { parts } => version_fits(value, parts),
            Shape::Homedir => single_name(value) && !spells(value, ".") && !spells(value, "..")
                && begins(value, letters("DivineKnockout").as_slice()),
            Shape::Directory => single_name(value) && !spells(value, ".") && !spells(value, ".."),
            Shape::Executable => single_name(value) && ends(value, letters(".exe").as_slice()),
            Shape::ServerPath | Shape::Prefix => server_path(value),
        }
    }
}

impl Setting {
    /// Checks a value that is offered for the setting.
    pub fn settle(self, value: &str) -> (r: Result<String, BuildError>)
        ensures
            match r {
                Ok(settled) => self.outcome(value@) == Ok::<Seq<char>, BuildError>(settled@),
                Err(error) => self.outcome(value@) == Err::<Seq<char>, BuildError>(error),
            },
    {
        let all = letters(value);
        let shape = self.required_shape();
        if !shape.admits(all.as_slice()) {
            return Err(BuildError::Invalid { setting: self });
        }
        if shape == Shape::Prefix && all[all.len() - 1] != '/' {
            return Err(BuildError::OpenPrefix { setting: self });
        }
        if shape == Shape::Digest {
            Ok(text_of(lower_all(all.as_slice()).as_slice()))
        } else {
            Ok(value.to_owned())
        }
    }
}

/// Where a key stands in a list of entries.
pub open spec fn lookup(entries: Seq<(Seq<char>, Seq<char>)>, key: Seq<char>) -> Option<Seq<char>>
    decreases entries.len(),
{
    if entries.len() == 0 {
        None
    } else if entries.last().0 == key {
        Some(entries.last().1)
    } else {
        lookup(entries.drop_last(), key)
    }
}

pub open spec fn has_key(entries: Seq<(Seq<char>, Seq<char>)>, key: Seq<char>) -> bool {
    lookup(entries, key) is Some
}

/// The entries of the local settings file: one `KEY=value` to a line, blank lines
/// and lines that start with `#` left out.
pub open spec fn entries_of(lines: Seq<Seq<char>>) -> Result<
    Seq<(Seq<char>, Seq<char>)>,
    BuildError,
>
    decreases lines.len(),
{
    if lines.len() == 0 {
        Ok(Seq::empty())
    } else {
        match entries_of(lines.drop_last()) {
            Err(error) => Err(error),
            Ok(before) => {
                let line = trimmed(lines.last());
                if line.len() == 0 || line[0] == '#' {
                    Ok(before)
                } else {
                    match split_once(line, '=') {
                        None => Err(BuildError::Entry),
                        Some((key, value)) => if has_key(before, trimmed(key)) {
                            Err(BuildError::DuplicateKey)
                        } else {
                            Ok(before.push((trimmed(key), trimmed(value))))
                        },
                    }
                }
            },
        }
    }
}

pub open spec fn entry_views(entries: Seq<(Vec<char>, Vec<char>)>) -> Seq<
    (Seq<char>, Seq<char>),
> {
    Seq::new(entries.len(), |i: int| (entries[i].0@, entries[i].1@))
}

fn find_entry(entries: &Vec<(Vec<char>, Vec<char>)>, key: &[char]) -> (r: Option<Vec<char>>)
    ensures
        match r {
            Some(value) => lookup(entry_views(entries@), key@) == Some(value@),
            None => lookup(entry_views(entries@), key@) is None,
        },
{
    let ghost all = entry_views(entries@);
    let mut i: usize = entries.len();
    assert(all.take(i as int) =~= all);
    while i > 0
        invariant
            i <= entries.len(),
            all == entry_views(entries@),
            lookup(all.take(i as int), key@) == lookup(all, key@),
        decreases i,
    {
        assert(all.take(i as int).drop_last() =~= all.take(i - 1));
        if crate::text::same(entries[i - 1].0.as_slice(), key) {
            let value = &entries[i - 1].1;
            return Some(copied(value.as_slice()));
        }
        i = i - 1;
    }
    None
}

/// Reads the local settings file.
pub fn local_entries(contents: &str) -> (r: Result<Vec<(Vec<char>, Vec<char>)>, BuildError>)
    ensures
        match r {
            Ok(entries) => entries_of(pieces(contents@, '\n')) == Ok::<
                Seq<(Seq<char>, Seq<char>)>,
                BuildError,
            >(entry_views(entries@)),
            Err(error) => entries_of(pieces(contents@, '\n')) == Err::<
                Seq<(Seq<char>, Seq<char>)>,
                BuildError,
            >(error),
        },
{
    let lines = split(letters(contents).as_slice(), '\n');
    let ghost all = views(lines@);
    let mut entries: Vec<(Vec<char>, Vec<char>)> = Vec::new();
    let mut i: usize = 0;
    assert(entry_views(entries@) =~= Seq::empty());
    while i < lines.len()
        invariant
            i <= lines.len(),
            all == views(lines@),
            all == pieces(contents@, '\n'),
            entries_of(all.take(i as int)) == Ok::<Seq<(Seq<char>, Seq<char>)>, BuildError>(
                entry_views(entries@),
            ),
        decreases lines.len() - i,
    {
        assert(all.take(i + 1).drop_last() =~= all.take(i as int));
        let line = trim(lines[i].as_slice());
        if line.len() > 0 && line[0] != '#' {
            match divide(line.as_slice(), '=') {
                None => {
                    proof {
                        lemma_entries_stop(all, i + 1);
                    }
                    return Err(BuildError::Entry);
                },
                Some((key, value)) => {
                    let key = trim(key.as_slice());
                    let value = trim(value.as_slice());
                    if find_entry(&entries, key.as_slice()).is_some() {
                        proof {
                            lemma_entries_stop(all, i + 1);
                        }
                        return Err(BuildError::DuplicateKey);
                    }
                    let ghost before = entry_views(entries@);
                    let ghost added = (key@, value@);
                    entries.push((key, value));
                    assert(entry_views(entries@) =~= before.push(added));
                },
            }
        }
        i = i + 1;
    }
    assert(all.take(i as int) =~= all);
    Ok(entries)
}

proof fn lemma_entries_stop(lines: Seq<Seq<char>>, i: int)
    requires
        0 <= i <= lines.len(),
        entries_of(lines.take(i)) is Err,
    ensures
        entries_of(lines) == entries_of(lines.take(i)),
    decreases lines.len(),
{
    if i == lines.len() {
        assert(lines.take(i) =~= lines);
    } else {
        assert(lines.drop_last().take(i) =~= lines.take(i));
        lemma_entries_stop(lines.drop_last(), i);
    }
}

/// The settings of one launcher.
pub struct Build {
    values: Vec<String>,
}

impl Build {
    pub closed spec fn value(self, setting: Setting) -> Seq<char> {
        self.values@[setting.index()]@
    }

    #[verifier::type_invariant]
    closed spec fn complete(self) -> bool {
        self.values@.len() == SETTINGS
    }

    /// Every value came through the check of its setting.
    pub open spec fn is_settled(self) -> bool {
        forall|setting: Setting| #[trigger]
            is_kept(setting, self.value(setting))
    }

    /// The value of a setting.
    pub fn get(&self, setting: Setting) -> (r: &str)
        ensures
            r@ == self.value(setting),
    {
        proof {
            use_type_invariant(self);
        }
        self.values[setting.place()].as_str()
    }

    /// The launcher's version as the file properties of a program hold it: four numbers
    /// of 16 bits, the last of which is zero.
    pub fn packed_version(&self) -> (r: u64)
        requires
            self.is_settled(),
        ensures
            r == packed(pieces(self.value(Setting::LauncherVersion), '.')),
    {
        let numbers = split(letters(self.get(Setting::LauncherVersion)).as_slice(), '.');
        let ghost all = views(numbers@);
        assert(is_kept(Setting::LauncherVersion, self.value(Setting::LauncherVersion)));
        assert(all.len() == 3);
        let mut r: u64 = 0;
        let mut i: usize = 0;
        while i < 3
            invariant
                i <= 3,
                all == views(numbers@),
                all.len() == 3,
                forall|j: int| 0 <= j < 3 ==> is_version_part(#[trigger] all[j]),
                r == packed(all.take(i as int)) / 65536,
                packed(all.take(i as int)) % 65536 == 0,
                i == 0 ==> r == 0,
                i == 1 ==> r < 0x1_0000,
                i == 2 ==> r < 0x1_0000_0000,
                i == 3 ==> r < 0x1_0000_0000_0000,
            decreases 3 - i,
        {
            assert(all.take(i + 1).drop_last() =~= all.take(i as int));
            assert(is_version_part(all[i as int]));
            let part: u64 = match parse_decimal(numbers[i].as_slice(), 65535) {
                Some(n) => n,
                None => 0,
            };
            r = r * 65536 + part;
            i = i + 1;
        }
        assert(all.take(3) =~= all);
        r * 65536
    }
}

/// Numbers of 16 bits in a row, each followed by the next, and a zero at the end.
pub open spec fn packed(numbers: Seq<Seq<char>>) -> int
    decreases numbers.len(),
{
    if numbers.len() == 0 {
        0
    } else {
        (packed(numbers.drop_last()) + decimal(numbers.last())) * 65536
    }
}

/// The value is what the check of the setting lets through.
pub open spec fn is_kept(setting: Setting, value: Seq<char>) -> bool {
    exists|offered: Seq<char>| setting.outcome(offered) == Ok::<Seq<char>, BuildError>(value)
}

/// The value that is offered for a setting: the environment comes first.
pub open spec fn offered(
    environment: Seq<Option<String>>,
    local: Seq<(Seq<char>, Seq<char>)>,
    setting: Setting,
) -> Option<Seq<char>> {
    if setting.index() < environment.len() && environment[setting.index()] is Some {
        Some(environment[setting.index()]->0@)
    } else {
        lookup(local, setting.key())
    }
}

/// What the settings come to for one setting.
pub open spec fn configured(
    environment: Seq<Option<String>>,
    local: Seq<(Seq<char>, Seq<char>)>,
    setting: Setting,
) -> Result<Seq<char>, BuildError> {
    match offered(environment, local, setting) {
        None => Err(BuildError::Missing { setting }),
        Some(value) => setting.outcome(value),
    }
}

/// Collects the settings from the environment, given in the order of the list, and
/// from the entries of the local file. The first setting that fails is reported.
pub fn configure(
    environment: &Vec<Option<String>>,
    local: &Vec<(Vec<char>, Vec<char>)>,
) -> (r: Result<Build, BuildError>)
    ensures
        match r {
            Ok(build) => build.is_settled() && forall|setting: Setting|
                configured(environment@, entry_views(local@), setting) == Ok::<
                    Seq<char>,
                    BuildError,
                >(#[trigger] build.value(setting)),
            Err(error) => exists|setting: Setting|
                #![trigger setting.index()]
                {
                    &&& configured(environment@, entry_views(local@), setting) == Err::<
                        Seq<char>,
                        BuildError,
                    >(error)
                    &&& forall|earlier: Setting|
                        earlier.index() < setting.index() ==> (#[trigger] configured(
                            environment@,
                            entry_views(local@),
                            earlier,
                        )) is Ok
                },
        },
{
    let mut values: Vec<String> = Vec::new();
    let mut i: usize = 0;
    while i < SETTINGS
        invariant
            i <= SETTINGS,
            values@.len() == i,
            forall|setting: Setting|
                setting.index() < i ==> (#[trigger] configured(
                    environment@,
                    entry_views(local@),
                    setting,
                )) == Ok::<Seq<char>, BuildError>(values@[setting.index()]@),
        decreases SETTINGS - i,
    {
        let setting = Setting::at(i);
        let given: Option<String> = if i < environment.len() {
            environment[i].clone()
        } else {
            None
        };
        let value = match given {
            Some(value) => value,
            None => {
                let key = letters(setting.name());
                match find_entry(local, key.as_slice()) {
                    Some(value) => text_of(value.as_slice()),
                    None => {
                        return Err(BuildError::Missing { setting });
                    },
                }
            },
        };
        match setting.settle(value.as_str()) {
            Ok(settled) => {
                let ghost before = values@;
                values.push(settled);
                assert forall|other: Setting| other.index() < i + 1 implies (#[trigger] configured(
                    environment@,
                    entry_views(local@),
                    other,
                )) == Ok::<Seq<char>, BuildError>(values@[other.index()]@) by {
                    if other.index() == i {
                        assert(other == setting);
                    } else {
                        assert(values@[other.index()] == before[other.index()]);
                    }
                }
            },
            Err(error) => {
                return Err(error);
            },
        }
        i = i + 1;
    }
    let build = Build { values };
    assert forall|setting: Setting| #[trigger] is_kept(setting, build.value(setting)) by {
        let given = offered(environment@, entry_views(local@), setting);
        assert(configured(environment@, entry_views(local@), setting) is Ok);
        assert(setting.outcome(given->0) == Ok::<Seq<char>, BuildError>(build.value(setting)));
    }
    Ok(build)
}

} // verus!
