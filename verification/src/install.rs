//! The retail game, and the runtime that the launcher makes of it.
use crate::dialog::{decode_lossy, lossy_text};
use crate::game_manifest::{GameManifest, ManagedFile};
use crate::settings::{Build, Setting};
use crate::text::{
    concat, copied, decimal_text, decode_bytes, letters, same, same_folded, same_ignoring_case,
    spells, text_of, trim, trimmed, views, write_decimal,
};
use crate::windows_paths::{
    directory_on, file_name_on, join_on, join_text_on, name_on, parent_on, rename_on, renamed_on,
    volume_of, windows_volume_prefix,
};
use vstd::prelude::*;

verus! {

/// Why the selected game cannot be used.
pub enum RetailError {
    TooShallow,
    OutsideGame,
    NoRoot,
    NoParent,
    Version { wanted: String, found: String },
    Files,
}

impl RetailError {
    pub open spec fn text(self) -> Seq<char> {
        match self {
            RetailError::TooShallow =>
                "selected executable is outside the expected DivineKnockout/Binaries/Win64 path"@,
            RetailError::OutsideGame =>
                "selected executable is outside a Divine Knockout installation"@,
            RetailError::NoRoot => "selected DKO installation has no root"@,
            RetailError::NoParent => "selected DKO installation has no parent"@,
            RetailError::Version { wanted, found } => "game launch requires DKO "@ + wanted@
                + "; selected installation is "@ + found@,
            RetailError::Files => "selected DKO files do not match the supported stock build"@,
        }
    }

    /// What the player reads.
    pub fn message(&self) -> (r: String)
        ensures
            r@ == self.text(),
    {
        match self {
            RetailError::TooShallow =>
                "selected executable is outside the expected DivineKnockout/Binaries/Win64 path".to_owned(),
            RetailError::OutsideGame =>
                "selected executable is outside a Divine Knockout installation".to_owned(),
            RetailError::NoRoot => "selected DKO installation has no root".to_owned(),
            RetailError::NoParent => "selected DKO installation has no parent".to_owned(),
            RetailError::Version { wanted, found } => {
                let text = concat("game launch requires DKO ", wanted.as_str());
                let text = concat(text.as_str(), "; selected installation is ");
                concat(text.as_str(), found.as_str())
            },
            RetailError::Files =>
                "selected DKO files do not match the supported stock build".to_owned(),
        }
    }
}

/// The directory above a path, if there is one.
pub open spec fn above(path: Option<Seq<u8>>, windows: bool) -> Option<Seq<u8>> {
    match path {
        Some(path) => parent_on(windows, path),
        None => None,
    }
}

/// The directory `DivineKnockout` of the game that an executable belongs to.
pub open spec fn game_directory(executable: Seq<u8>, windows: bool) -> Option<Seq<u8>> {
    above(above(parent_on(windows, executable), windows), windows)
}

/// The root of the game that an executable belongs to, and its file of contents.
pub open spec fn retail_of(executable: Seq<u8>, windows: bool) -> Result<
    (Seq<u8>, Seq<u8>),
    RetailError,
> {
    match game_directory(executable, windows) {
        None => Err(RetailError::TooShallow),
        Some(directory) => if name_on(windows, directory) != Some(
            vstd::utf8::encode_utf8("DivineKnockout"@),
        ) {
            Err(RetailError::OutsideGame)
        } else {
            match parent_on(windows, directory) {
                None => Err(RetailError::NoRoot),
                Some(root) => Ok(
                    (
                        root,
                        join_on(windows, directory, "Content/Paks/pakchunk0-WindowsNoEditor.pak"@),
                    ),
                ),
            }
        },
    }
}

/// The root of the game that an executable belongs to, and its file of contents.
pub fn retail_paths(executable: &[u8], windows: bool) -> (r: Result<
    (Vec<u8>, Vec<u8>),
    RetailError,
>)
    ensures
        match r {
            Ok((root, pak)) => retail_of(executable@, windows) == Ok::<
                (Seq<u8>, Seq<u8>),
                RetailError,
            >((root@, pak@)),
            Err(error) => retail_of(executable@, windows) == Err::<
                (Seq<u8>, Seq<u8>),
                RetailError,
            >(error),
        },
{
    let binaries = match directory_on(windows, executable) {
        Some(win64) => match directory_on(windows, win64.as_slice()) {
            Some(binaries) => binaries,
            None => {
                return Err(RetailError::TooShallow);
            },
        },
        None => {
            return Err(RetailError::TooShallow);
        },
    };
    let directory = match directory_on(windows, binaries.as_slice()) {
        Some(directory) => directory,
        None => {
            return Err(RetailError::TooShallow);
        },
    };
    match file_name_on(windows, directory.as_slice()) {
        None => {
            return Err(RetailError::OutsideGame);
        },
        Some(name) => {
            if !same(name.as_slice(), "DivineKnockout".as_bytes()) {
                return Err(RetailError::OutsideGame);
            }
        },
    }
    match directory_on(windows, directory.as_slice()) {
        None => Err(RetailError::NoRoot),
        Some(root) => Ok(
            (
                root,
                join_text_on(
                    windows,
                    directory.as_slice(),
                    "Content/Paks/pakchunk0-WindowsNoEditor.pak",
                ),
            ),
        ),
    }
}

/// The file that says which build a game is.
pub fn version_file(root: &[u8], windows: bool) -> (r: Vec<u8>)
    ensures
        r@ == join_on(windows, root@, "DivineKnockout/Assembly/GameVersion.txt"@),
{
    join_text_on(windows, root, "DivineKnockout/Assembly/GameVersion.txt")
}

/// The game is the build that the launcher supports.
pub open spec fn is_supported_game(
    build: &Build,
    version: Seq<char>,
    exe_sha256: Seq<char>,
    pak_sha256: Seq<char>,
) -> bool {
    &&& trimmed(version) == build.value(Setting::TargetBuild)
    &&& exe_sha256 == build.value(Setting::TargetExeSha256)
    &&& pak_sha256 == build.value(Setting::TargetPakSha256)
}

/// Accepts what a game of the supported build says of itself.
pub fn verify_version(build: &Build, version: &str) -> (r: Result<(), RetailError>)
    ensures
        match r {
            Ok(()) => trimmed(version@) == build.value(Setting::TargetBuild),
            Err(RetailError::Version { wanted, found }) => {
                &&& trimmed(version@) != build.value(Setting::TargetBuild)
                &&& wanted@ == build.value(Setting::TargetBuild)
                &&& found@ == trimmed(version@)
            },
            Err(_) => false,
        },
{
    let found = trim(letters(version).as_slice());
    if spells(found.as_slice(), build.get(Setting::TargetBuild)) {
        return Ok(());
    }
    Err(
        RetailError::Version {
            wanted: build.get(Setting::TargetBuild).to_owned(),
            found: text_of(found.as_slice()),
        },
    )
}

/// Accepts the digest of the supported executable.
pub fn verify_executable(build: &Build, exe_sha256: &str) -> (r: Result<(), RetailError>)
    ensures
        match r {
            Ok(()) => exe_sha256@ == build.value(Setting::TargetExeSha256),
            Err(error) => error == RetailError::Files && exe_sha256@ != build.value(
                Setting::TargetExeSha256,
            ),
        },
{
    if spells(letters(exe_sha256).as_slice(), build.get(Setting::TargetExeSha256)) {
        Ok(())
    } else {
        Err(RetailError::Files)
    }
}

/// Accepts the build that the launcher supports, from what the game says of itself and
/// the digests of its two main files.
pub fn verify_retail_build(build: &Build, version: &str, exe_sha256: &str, pak_sha256: &str) -> (r:
    Result<(), RetailError>)
    ensures
        match r {
            Ok(()) => is_supported_game(build, version@, exe_sha256@, pak_sha256@),
            Err(RetailError::Version { wanted, found }) => {
                &&& trimmed(version@) != build.value(Setting::TargetBuild)
                &&& wanted@ == build.value(Setting::TargetBuild)
                &&& found@ == trimmed(version@)
            },
            Err(RetailError::Files) => trimmed(version@) == build.value(Setting::TargetBuild)
                && !is_supported_game(build, version@, exe_sha256@, pak_sha256@),
            Err(_) => false,
        },
{
    match verify_version(build, version) {
        Err(error) => Err(error),
        Ok(()) => match verify_executable(build, exe_sha256) {
            Err(error) => Err(error),
            Ok(()) => if spells(
                letters(pak_sha256).as_slice(),
                build.get(Setting::TargetPakSha256),
            ) {
                Ok(())
            } else {
                Err(RetailError::Files)
            },
        },
    }
}

/// The runtime beside the game.
pub open spec fn adjacent_runtime(executable: Seq<u8>, windows: bool) -> Result<
    Seq<u8>,
    RetailError,
> {
    match retail_of(executable, windows) {
        Err(error) => Err(error),
        Ok((root, _)) => match parent_on(windows, root) {
            Some(directory) => Ok(join_on(windows, directory, ".project-knockout-dko-runtime"@)),
            None => Err(RetailError::NoParent),
        },
    }
}

/// The runtime beside the game.
pub fn adjacent_runtime_directory(executable: &[u8], windows: bool) -> (r: Result<
    Vec<u8>,
    RetailError,
>)
    ensures
        match r {
            Ok(path) => adjacent_runtime(executable@, windows) == Ok::<Seq<u8>, RetailError>(path@),
            Err(error) => adjacent_runtime(executable@, windows) == Err::<Seq<u8>, RetailError>(
                error,
            ),
        },
{
    match retail_paths(executable, windows) {
        Err(error) => Err(error),
        Ok((root, _)) => match directory_on(windows, root.as_slice()) {
            Some(directory) => Ok(
                join_text_on(windows, directory.as_slice(), ".project-knockout-dko-runtime"),
            ),
            None => Err(RetailError::NoParent),
        },
    }
}

/// Both paths are on one volume, up to case.
pub open spec fn same_volume(a: Seq<u8>, b: Seq<u8>) -> bool {
    volume_of(a) is Some && volume_of(b) is Some && same_folded(
        lossy_text(volume_of(a)->0),
        lossy_text(volume_of(b)->0),
    )
}

/// Where the runtime is. Large files of the game are linked and not copied, so it is
/// kept with the launcher's data when they share a volume with the game, which needs no
/// rights in the game's own directory, and beside the game otherwise.
pub open spec fn runtime_of(data: Seq<u8>, executable: Seq<u8>, windows: bool) -> Result<
    Seq<u8>,
    RetailError,
> {
    match retail_of(executable, windows) {
        Err(error) => Err(error),
        Ok((root, _)) => if windows && same_volume(data, root) {
            Ok(join_on(windows, data, "runtime"@))
        } else {
            adjacent_runtime(executable, windows)
        },
    }
}

/// Where the runtime is.
pub fn runtime_directory(data: &[u8], executable: &[u8], windows: bool) -> (r: Result<
    Vec<u8>,
    RetailError,
>)
    ensures
        match r {
            Ok(path) => runtime_of(data@, executable@, windows) == Ok::<Seq<u8>, RetailError>(
                path@,
            ),
            Err(error) => runtime_of(data@, executable@, windows) == Err::<Seq<u8>, RetailError>(
                error,
            ),
        },
{
    match retail_paths(executable, windows) {
        Err(error) => Err(error),
        Ok((root, _)) => {
            if windows {
                if let (Some(own), Some(other)) = (
                    windows_volume_prefix(data),
                    windows_volume_prefix(root.as_slice()),
                ) {
                    let own = letters(decode_lossy(own.as_slice()).as_str());
                    let other = letters(decode_lossy(other.as_slice()).as_str());
                    if same_ignoring_case(own.as_slice(), other.as_slice()) {
                        return Ok(join_text_on(windows, data, "runtime"));
                    }
                }
            }
            adjacent_runtime_directory(executable, windows)
        },
    }
}

/// The directory of another generation of the runtime.
pub open spec fn generation_of(runtime: Seq<u8>, generation: Seq<char>, windows: bool) -> Seq<u8> {
    let name = match name_on(windows, runtime) {
        Some(bytes) => if vstd::utf8::valid_utf8(bytes) {
            vstd::utf8::decode_utf8(bytes)
        } else {
            "runtime"@
        },
        None => "runtime"@,
    };
    renamed_on(windows, runtime, name + "."@ + generation)
}

/// The directory of another generation of the runtime.
pub fn runtime_generation_directory(runtime: &[u8], generation: &str, windows: bool) -> (r: Vec<u8>)
    ensures
        r@ == generation_of(runtime@, generation@, windows),
{
    let name = match file_name_on(windows, runtime) {
        Some(bytes) => match decode_bytes(bytes) {
            Some(name) => name,
            None => "runtime".to_owned(),
        },
        None => "runtime".to_owned(),
    };
    let text = concat(name.as_str(), ".");
    let text = concat(text.as_str(), generation);
    rename_on(windows, runtime, text.as_str())
}

/// The generations that an interrupted update may have left with the launcher's data.
pub fn inactive_generations(data: &[u8], windows: bool) -> (r: Vec<Vec<u8>>)
    ensures
        views(r@) == seq![
            join_on(windows, data@, "runtime.staging"@),
            join_on(windows, data@, "runtime.previous"@),
        ],
{
    let mut r: Vec<Vec<u8>> = Vec::new();
    r.push(join_text_on(windows, data, "runtime.staging"));
    r.push(join_text_on(windows, data, "runtime.previous"));
    assert(views(r@) =~= seq![
        join_on(windows, data@, "runtime.staging"@),
        join_on(windows, data@, "runtime.previous"@),
    ]);
    r
}

/// Files of the game up to 64 MiB are copied when they cannot be linked.
pub fn may_copy(size: u64) -> (r: bool)
    ensures
        r == (size <= 64 * 1024 * 1024),
{
    size <= 64 * 1024 * 1024
}

/// What is said about a file that can neither be linked nor copied.
pub fn copy_refused(path: &[u8], size: u64, reason: &str) -> (r: String)
    ensures
        r@ == "cannot create a space-efficient link for "@ + lossy_text(path@) + " ("@
            + decimal_text(size as int) + " bytes): "@ + reason@
            + "; refusing to copy a large retail file"@,
{
    let text = concat("cannot create a space-efficient link for ", decode_lossy(path).as_str());
    let text = concat(text.as_str(), " (");
    let text = concat(text.as_str(), text_of(write_decimal(size).as_slice()).as_str());
    let text = concat(text.as_str(), " bytes): ");
    let text = concat(text.as_str(), reason);
    concat(text.as_str(), "; refusing to copy a large retail file")
}

/// What is recorded about an installed runtime.
pub struct InstalledRuntime {
    pub manifest: GameManifest,
    pub layout: String,
}

pub open spec fn same_file(a: ManagedFile, b: ManagedFile) -> bool {
    a.path@ == b.path@ && a.size == b.size && a.sha256@ == b.sha256@ && a.download_path@
        == b.download_path@
}

pub open spec fn same_manifest(a: GameManifest, b: GameManifest) -> bool {
    &&& a.schema == b.schema
    &&& a.version@ == b.version@
    &&& a.target_build@ == b.target_build@
    &&& a.target_exe_sha256@ == b.target_exe_sha256@
    &&& a.target_pak_sha256@ == b.target_pak_sha256@
    &&& a.managed_files@.len() == b.managed_files@.len()
    &&& forall|i: int|
        0 <= i < a.managed_files@.len() ==> same_file(
            #[trigger] a.managed_files@[i],
            b.managed_files@[i],
        )
}

fn equal_texts(a: &String, b: &String) -> (r: bool)
    ensures
        r == (a@ == b@),
{
    spells(letters(a.as_str()).as_slice(), b.as_str())
}

fn equal_files(a: &ManagedFile, b: &ManagedFile) -> (r: bool)
    ensures
        r == same_file(*a, *b),
{
    a.size == b.size && equal_texts(&a.path, &b.path) && equal_texts(&a.sha256, &b.sha256)
        && equal_texts(&a.download_path, &b.download_path)
}

fn equal_manifests(a: &GameManifest, b: &GameManifest) -> (r: bool)
    ensures
        r == same_manifest(*a, *b),
{
    if a.schema != b.schema || !equal_texts(&a.version, &b.version) || !equal_texts(
        &a.target_build,
        &b.target_build,
    ) || !equal_texts(&a.target_exe_sha256, &b.target_exe_sha256) || !equal_texts(
        &a.target_pak_sha256,
        &b.target_pak_sha256,
    ) || a.managed_files.len() != b.managed_files.len() {
        return false;
    }
    let mut i: usize = 0;
    while i < a.managed_files.len()
        invariant
            i <= a.managed_files@.len(),
            a.managed_files@.len() == b.managed_files@.len(),
            forall|k: int|
                0 <= k < i ==> same_file(#[trigger] a.managed_files@[k], b.managed_files@[k]),
        decreases a.managed_files@.len() - i,
    {
        if !equal_files(&a.managed_files[i], &b.managed_files[i]) {
            return false;
        }
        i = i + 1;
    }
    true
}

/// What is recorded is what is expected.
pub open spec fn is_current_record(
    build: &Build,
    installed: Option<InstalledRuntime>,
    expected: GameManifest,
) -> bool {
    &&& installed is Some
    &&& expected.fault(build) is None
    &&& same_manifest(installed->0.manifest, expected)
    &&& installed->0.layout@ == "manifest-runtime-v1"@
}

/// Whether what is recorded is what is expected.
pub fn record_is_current(
    build: &Build,
    installed: &Option<InstalledRuntime>,
    expected: &GameManifest,
) -> (r: bool)
    ensures
        r == is_current_record(build, *installed, *expected),
{
    match installed {
        None => false,
        Some(installed) => {
            if crate::game_manifest::validate_manifest(expected, build).is_err() {
                return false;
            }
            equal_manifests(&installed.manifest, expected) && spells(
                letters(installed.layout.as_str()).as_slice(),
                "manifest-runtime-v1",
            )
        },
    }
}

/// What a file in the runtime turns out to be.
pub struct FoundFile {
    pub is_file: bool,
    pub size: u64,
    pub sha256: Option<String>,
}

/// A file in the runtime is what the manifest says.
pub open spec fn is_current_file(file: ManagedFile, found: FoundFile) -> bool {
    &&& found.is_file
    &&& found.size == file.size
    &&& found.sha256 is Some
    &&& same_folded(found.sha256->0@, file.sha256@)
}

/// Whether a file in the runtime is what the manifest says.
pub fn file_is_current(file: &ManagedFile, found: &FoundFile) -> (r: bool)
    ensures
        r == is_current_file(*file, *found),
{
    if !found.is_file || found.size != file.size {
        return false;
    }
    match &found.sha256 {
        Some(digest) => same_ignoring_case(
            letters(digest.as_str()).as_slice(),
            letters(file.sha256.as_str()).as_slice(),
        ),
        None => false,
    }
}

/// The runtime is what the manifest says, file by file.
pub open spec fn is_current_runtime(
    build: &Build,
    installed: Option<InstalledRuntime>,
    expected: GameManifest,
    found: Seq<FoundFile>,
) -> bool {
    &&& is_current_record(build, installed, expected)
    &&& found.len() == expected.managed_files@.len()
    &&& forall|i: int|
        0 <= i < found.len() ==> is_current_file(
            #[trigger] expected.managed_files@[i],
            found[i],
        )
}

/// Whether the runtime is what the manifest says; `found` are its files in the order of
/// the manifest, up to the first that is not what it should be.
pub fn installed_runtime_is_current(
    build: &Build,
    installed: &Option<InstalledRuntime>,
    expected: &GameManifest,
    found: &Vec<FoundFile>,
) -> (r: bool)
    ensures
        r == is_current_runtime(build, *installed, *expected, found@),
{
    if !record_is_current(build, installed, expected) || found.len()
        != expected.managed_files.len() {
        return false;
    }
    let mut i: usize = 0;
    while i < found.len()
        invariant
            i <= found@.len(),
            found@.len() == expected.managed_files@.len(),
            forall|k: int|
                0 <= k < i ==> is_current_file(
                    #[trigger] expected.managed_files@[k],
                    found@[k],
                ),
        decreases found@.len() - i,
    {
        if !file_is_current(&expected.managed_files[i], &found[i]) {
            return false;
        }
        i = i + 1;
    }
    true
}

/// The name by which a file is shown while it is downloaded.
pub open spec fn shown_name(path: Seq<char>, windows: bool) -> Seq<char> {
    match name_on(windows, vstd::utf8::encode_utf8(path)) {
        Some(bytes) => if vstd::utf8::valid_utf8(bytes) {
            vstd::utf8::decode_utf8(bytes)
        } else {
            path
        },
        None => path,
    }
}

/// The name by which a file is shown while it is downloaded.
pub fn display_name(path: &str, windows: bool) -> (r: String)
    ensures
        r@ == shown_name(path@, windows),
{
    match file_name_on(windows, path.as_bytes()) {
        Some(bytes) => match decode_bytes(bytes) {
            Some(name) => name,
            None => path.to_owned(),
        },
        None => path.to_owned(),
    }
}

/// Where a file is downloaded from: on behalf of a ticket, if there is one.
pub fn download_path(build: &Build, ticket: &Option<String>, file: &ManagedFile) -> (r: String)
    ensures
        r@ == match ticket {
            Some(ticket) => crate::web::routed_path(build, ticket@, file.download_path@),
            None => file.download_path@,
        },
{
    match ticket {
        Some(ticket) => crate::web::ticket_routed_path(
            build,
            ticket.as_str(),
            file.download_path.as_str(),
        ),
        None => file.download_path.clone(),
    }
}

/// What the player reads while the game is downloaded.
pub fn game_download_message(name: &str, downloaded: u64, total: u64) -> (r: String)
    ensures
        r@ == "Downloading game update: "@ + name@ + " — "@ + crate::digest::size_text(
            downloaded as int,
        ) + " / "@ + crate::digest::size_text(total as int),
{
    let text = concat("Downloading game update: ", name);
    let text = concat(text.as_str(), " — ");
    let text = concat(text.as_str(), crate::digest::format_download_size(downloaded).as_str());
    let text = concat(text.as_str(), " / ");
    concat(text.as_str(), crate::digest::format_download_size(total).as_str())
}

/// How much there is to download.
pub fn total_download_size(manifest: &GameManifest) -> (r: u64)
    requires
        crate::game_manifest::total_size(manifest.managed_files@) <= u64::MAX,
    ensures
        r == crate::game_manifest::total_size(manifest.managed_files@),
{
    let files = &manifest.managed_files;
    let mut total: u64 = 0;
    let mut i: usize = 0;
    assert(files@.take(0) =~= Seq::empty());
    while i < files.len()
        invariant
            i <= files@.len(),
            crate::game_manifest::total_size(files@) <= u64::MAX,
            total == crate::game_manifest::total_size(files@.take(i as int)),
        decreases files@.len() - i,
    {
        assert(files@.take(i + 1).drop_last() =~= files@.take(i as int));
        proof {
            lemma_sizes_grow(files@, i + 1);
        }
        total = total + files[i].size;
        i = i + 1;
    }
    assert(files@.take(i as int) =~= files@);
    total
}

proof fn lemma_sizes_grow(files: Seq<ManagedFile>, i: int)
    requires
        0 <= i <= files.len(),
    ensures
        crate::game_manifest::total_size(files.take(i)) <= crate::game_manifest::total_size(files),
    decreases files.len(),
{
    if i == files.len() {
        assert(files.take(i) =~= files);
    } else {
        lemma_sizes_grow(files.drop_last(), i);
        assert(files.drop_last().take(i) =~= files.take(i));
    }
}

/// A runtime that counts as current holds every file of the manifest with the size and
/// the digest that the server announced.
pub proof fn law_current_runtime_is_complete(
    build: &Build,
    installed: Option<InstalledRuntime>,
    expected: GameManifest,
    found: Seq<FoundFile>,
    i: int,
)
    requires
        is_current_runtime(build, installed, expected, found),
        0 <= i < expected.managed_files@.len(),
    ensures
        found[i].is_file,
        found[i].size == expected.managed_files@[i].size,
        found[i].sha256 matches Some(digest) && same_folded(
            digest@,
            expected.managed_files@[i].sha256@,
        ),
{
    assert(is_current_file(expected.managed_files@[i], found[i]));
}

} // verus!
