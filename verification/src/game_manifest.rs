//! The server supplies the complete list of files owned by the launcher.
use crate::paths::{is_rooted, join_of, DOT, SLASH};
use crate::settings::{Build, Setting};
use crate::text::{
    any_control, begins, concat, contains_any, copied, decode_bytes, digest_text, has_control,
    is_digest, lemma_pieces_append, lemma_pieces_not_empty, letters, lower_all, lowercase, meets,
    part, pieces, same_folded, same_ignoring_case, spells, split, views,
};
use vstd::prelude::*;
use vstd::utf8::{encode_scalar, encode_utf8};

verus! {

pub struct ManagedFile {
    /// Path relative to the isolated game runtime.
    pub path: String,
    pub size: u64,
    pub sha256: String,
    /// Same-origin, hash-addressed server path.
    pub download_path: String,
}

pub struct GameManifest {
    pub schema: u32,
    pub version: String,
    pub target_build: String,
    pub target_exe_sha256: String,
    pub target_pak_sha256: String,
    pub managed_files: Vec<ManagedFile>,
}

/// Why a manifest or one of its paths is refused.
#[derive(Clone, Copy, Debug, PartialEq, Eq, Structural)]
pub enum ManifestError {
    PathNotUtf8,
    UnsafePath,
    Unsupported,
    Metadata,
    SizeOverflow,
    Overlap,
    NoExecutable,
    RepeatedExecutable,
}

impl ManifestError {
    pub open spec fn text(self) -> Seq<char> {
        match self {
            ManifestError::PathNotUtf8 => "game file path is not valid UTF-8"@,
            ManifestError::UnsafePath => "unsafe game file path"@,
            ManifestError::Unsupported => "game manifest is not for the supported DKO build"@,
            ManifestError::Metadata => "game manifest contains invalid file metadata"@,
            ManifestError::SizeOverflow => "game download size overflow"@,
            ManifestError::Overlap => "game manifest contains overlapping file paths"@,
            ManifestError::NoExecutable => "server manifest omitted the game executable"@,
            ManifestError::RepeatedExecutable => "server manifest repeats the game executable"@,
        }
    }

    /// What the player reads.
    pub fn message(&self) -> (r: String)
        ensures
            r@ == self.text(),
    {
        match self {
            ManifestError::PathNotUtf8 => "game file path is not valid UTF-8".to_owned(),
            ManifestError::UnsafePath => "unsafe game file path".to_owned(),
            ManifestError::Unsupported =>
                "game manifest is not for the supported DKO build".to_owned(),
            ManifestError::Metadata => "game manifest contains invalid file metadata".to_owned(),
            ManifestError::SizeOverflow => "game download size overflow".to_owned(),
            ManifestError::Overlap => "game manifest contains overlapping file paths".to_owned(),
            ManifestError::NoExecutable =>
                "server manifest omitted the game executable".to_owned(),
            ManifestError::RepeatedExecutable =>
                "server manifest repeats the game executable".to_owned(),
        }
    }
}

/// A device name that Windows keeps for itself, in any case.
pub open spec fn is_reserved(stem: Seq<char>) -> bool {
    ||| same_folded(stem, "con"@)
    ||| same_folded(stem, "prn"@)
    ||| same_folded(stem, "aux"@)
    ||| same_folded(stem, "nul"@)
    ||| stem.len() == 4 && '1' <= stem[3] && stem[3] <= '9' && (same_folded(stem.take(3), "com"@)
        || same_folded(stem.take(3), "lpt"@))
}

/// A path component that means the same on every supported system.
pub open spec fn is_safe_part(s: Seq<char>) -> bool {
    &&& s.len() > 0
    &&& s != "."@
    &&& s != ".."@
    &&& s.last() != '.'
    &&& s.last() != ' '
    &&& !is_reserved(pieces(s, '.')[0])
}

/// A relative path that stays below the directory it is used in.
pub open spec fn is_safe_path(s: Seq<char>) -> bool {
    &&& s.len() > 0
    &&& !meets(s, seq!['\\', ':', '%', '?', '*', '"', '<', '>', '|'])
    &&& !has_control(s)
    &&& forall|i: int|
        0 <= i < pieces(s, '/').len() ==> is_safe_part(#[trigger] pieces(s, '/')[i])
}

fn reserved(stem: &[char]) -> (r: bool)
    ensures
        r == is_reserved(stem@),
{
    if same_ignoring_case(stem, letters("con").as_slice()) || same_ignoring_case(
        stem,
        letters("prn").as_slice(),
    ) || same_ignoring_case(stem, letters("aux").as_slice()) || same_ignoring_case(
        stem,
        letters("nul").as_slice(),
    ) {
        return true;
    }
    if stem.len() != 4 || stem[3] < '1' || stem[3] > '9' {
        return false;
    }
    let name = part(stem, 0, 3);
    assert(name@ =~= stem@.take(3));
    same_ignoring_case(name.as_slice(), letters("com").as_slice()) || same_ignoring_case(
        name.as_slice(),
        letters("lpt").as_slice(),
    )
}

fn safe_part(s: &[char]) -> (r: bool)
    ensures
        r == is_safe_part(s@),
{
    if s.len() == 0 || spells(s, ".") || spells(s, "..") {
        return false;
    }
    let last = s[s.len() - 1];
    if last == '.' || last == ' ' {
        return false;
    }
    let names = split(s, '.');
    assert(views(names@)[0] == names@[0]@);
    !reserved(names[0].as_slice())
}

/// Whether a relative path stays below the directory it is used in.
pub fn safe_path(s: &[char]) -> (r: bool)
    ensures
        r == is_safe_path(s@),
{
    if s.len() == 0 || contains_any(
        s,
        ['\\', ':', '%', '?', '*', '"', '<', '>', '|'].as_slice(),
    ) || any_control(s) {
        return false;
    }
    let parts = split(s, '/');
    let ghost all = views(parts@);
    let mut i: usize = 0;
    while i < parts.len()
        invariant
            i <= parts.len(),
            all == views(parts@),
            all == pieces(s@, '/'),
            forall|j: int| 0 <= j < i ==> is_safe_part(#[trigger] all[j]),
        decreases parts.len() - i,
    {
        if !safe_part(parts[i].as_slice()) {
            assert(!is_safe_part(all[i as int]));
            return false;
        }
        assert(is_safe_part(all[i as int]));
        i = i + 1;
    }
    true
}

/// What is wrong with a path as the name of a managed file.
pub open spec fn path_fault(path: Seq<u8>) -> Option<ManifestError> {
    if !vstd::utf8::valid_utf8(path) {
        Some(ManifestError::PathNotUtf8)
    } else if !is_safe_path(vstd::utf8::decode_utf8(path)) {
        Some(ManifestError::UnsafePath)
    } else {
        None
    }
}

/// Accepts the paths that name a managed file.
pub fn validate_relative_path(path: &[u8]) -> (r: Result<(), ManifestError>)
    ensures
        match r {
            Ok(()) => path_fault(path@) is None,
            Err(error) => path_fault(path@) == Some(error),
        },
{
    let bytes = copied(path);
    assert(bytes@ =~= path@);
    match decode_bytes(bytes) {
        None => Err(ManifestError::PathNotUtf8),
        Some(text) => if safe_path(letters(text.as_str()).as_slice()) {
            Ok(())
        } else {
            Err(ManifestError::UnsafePath)
        },
    }
}

/// The path of the game executable below the runtime.
pub open spec fn executable_path(build: &Build) -> Seq<char> {
    "DivineKnockout/Binaries/Win64/"@ + build.value(Setting::GameExecutableName)
}

/// The paths of two files are the same to Windows.
pub open spec fn same_place(a: ManagedFile, b: ManagedFile) -> bool {
    same_folded(a.path@, b.path@)
}

/// What is wrong with a file that follows others in the list, apart from its size.
pub open spec fn file_fault(
    earlier: Seq<ManagedFile>,
    file: ManagedFile,
    build: &Build,
) -> Option<ManifestError> {
    if !is_safe_path(file.path@) {
        Some(ManifestError::UnsafePath)
    } else if !"DivineKnockout/"@.is_prefix_of(file.path@) || (exists|i: int|
        0 <= i < earlier.len() && same_place(#[trigger] earlier[i], file)) || file.size == 0
        || !is_digest(file.sha256@) || file.download_path@ != build.value(Setting::GameFilesPrefix)
        + file.sha256@ {
        Some(ManifestError::Metadata)
    } else {
        None
    }
}

/// How much the files hold together.
pub open spec fn total_size(files: Seq<ManagedFile>) -> int
    decreases files.len(),
{
    if files.len() == 0 {
        0
    } else {
        total_size(files.drop_last()) + files.last().size
    }
}

/// What is first wrong with a list of files, taken one by one.
pub open spec fn list_fault(files: Seq<ManagedFile>, build: &Build) -> Option<ManifestError>
    decreases files.len(),
{
    if files.len() == 0 {
        None
    } else if list_fault(files.drop_last(), build) is Some {
        list_fault(files.drop_last(), build)
    } else if file_fault(files.drop_last(), files.last(), build) is Some {
        file_fault(files.drop_last(), files.last(), build)
    } else if total_size(files) > u64::MAX {
        Some(ManifestError::SizeOverflow)
    } else {
        None
    }
}

/// One file's path is, up to case, a directory of another's.
pub open spec fn lies_below(inner: ManagedFile, outer: ManagedFile) -> bool {
    lowercase(outer.path@).push('/').is_prefix_of(lowercase(inner.path@))
}

pub open spec fn overlaps(files: Seq<ManagedFile>) -> bool {
    exists|i: int, j: int|
        0 <= i < files.len() && 0 <= j < files.len() && lies_below(
            #[trigger] files[i],
            #[trigger] files[j],
        )
}

pub open spec fn is_executable(file: ManagedFile, build: &Build) -> bool {
    file.path@ == executable_path(build)
}

pub open spec fn has_executable(files: Seq<ManagedFile>, build: &Build) -> bool {
    exists|i: int| 0 <= i < files.len() && is_executable(#[trigger] files[i], build)
}

pub open spec fn repeats_executable(files: Seq<ManagedFile>, build: &Build) -> bool {
    exists|i: int, j: int|
        0 <= i < j < files.len() && is_executable(#[trigger] files[i], build) && is_executable(
            #[trigger] files[j],
            build,
        )
}

pub open spec fn executable_fault(files: Seq<ManagedFile>, build: &Build) -> Option<ManifestError> {
    if !has_executable(files, build) {
        Some(ManifestError::NoExecutable)
    } else if repeats_executable(files, build) {
        Some(ManifestError::RepeatedExecutable)
    } else {
        None
    }
}

impl GameManifest {
    /// The manifest describes the build that this launcher supports.
    pub open spec fn is_supported(self, build: &Build) -> bool {
        &&& self.schema == 2
        &&& self.target_build@ == build.value(Setting::TargetBuild)
        &&& self.target_exe_sha256@ == build.value(Setting::TargetExeSha256)
        &&& self.target_pak_sha256@ == build.value(Setting::TargetPakSha256)
        &&& self.version@.len() > 0
        &&& self.managed_files@.len() > 0
    }

    /// What is first wrong with the manifest.
    pub open spec fn fault(self, build: &Build) -> Option<ManifestError> {
        if !self.is_supported(build) {
            Some(ManifestError::Unsupported)
        } else if list_fault(self.managed_files@, build) is Some {
            list_fault(self.managed_files@, build)
        } else if overlaps(self.managed_files@) {
            Some(ManifestError::Overlap)
        } else {
            executable_fault(self.managed_files@, build)
        }
    }
}

fn check_file(files: &Vec<ManagedFile>, i: usize, build: &Build) -> (r: Result<(), ManifestError>)
    requires
        i < files@.len(),
    ensures
        match r {
            Ok(()) => file_fault(files@.take(i as int), files@[i as int], build) is None,
            Err(error) => file_fault(files@.take(i as int), files@[i as int], build) == Some(error),
        },
{
    let file = &files[i];
    let ghost earlier = files@.take(i as int);
    let path = letters(file.path.as_str());
    if !safe_path(path.as_slice()) {
        return Err(ManifestError::UnsafePath);
    }
    if !begins(path.as_slice(), letters("DivineKnockout/").as_slice()) {
        return Err(ManifestError::Metadata);
    }
    let mut k: usize = 0;
    while k < i
        invariant
            k <= i < files@.len(),
            file == files@[i as int],
            path@ == file.path@,
            is_safe_path(path@),
            earlier == files@.take(i as int),
            forall|j: int| 0 <= j < k ==> !same_place(#[trigger] earlier[j], *file),
        decreases i - k,
    {
        let other = letters(files[k].path.as_str());
        assert(earlier[k as int] == files@[k as int]);
        if same_ignoring_case(other.as_slice(), path.as_slice()) {
            assert(same_place(earlier[k as int], *file));
            return Err(ManifestError::Metadata);
        }
        k = k + 1;
    }
    let digest = letters(file.sha256.as_str());
    let address = concat(build.get(Setting::GameFilesPrefix), file.sha256.as_str());
    if file.size == 0 || !digest_text(digest.as_slice()) || !spells(
        letters(file.download_path.as_str()).as_slice(),
        address.as_str(),
    ) {
        return Err(ManifestError::Metadata);
    }
    Ok(())
}

proof fn lemma_list_stops(files: Seq<ManagedFile>, build: &Build, i: int)
    requires
        0 <= i <= files.len(),
        list_fault(files.take(i), build) is Some,
    ensures
        list_fault(files, build) == list_fault(files.take(i), build),
    decreases files.len(),
{
    if i == files.len() {
        assert(files.take(i) =~= files);
    } else {
        assert(files.drop_last().take(i) =~= files.take(i));
        lemma_list_stops(files.drop_last(), build, i);
    }
}

fn check_list(files: &Vec<ManagedFile>, build: &Build) -> (r: Result<(), ManifestError>)
    ensures
        match r {
            Ok(()) => list_fault(files@, build) is None,
            Err(error) => list_fault(files@, build) == Some(error),
        },
{
    let mut total: u64 = 0;
    let mut i: usize = 0;
    while i < files.len()
        invariant
            i <= files@.len(),
            list_fault(files@.take(i as int), build) is None,
            total == total_size(files@.take(i as int)),
        decreases files@.len() - i,
    {
        assert(files@.take(i + 1).drop_last() =~= files@.take(i as int));
        assert(files@.take(i + 1).last() == files@[i as int]);
        match check_file(files, i, build) {
            Ok(()) => {},
            Err(error) => {
                proof {
                    lemma_list_stops(files@, build, i + 1);
                }
                return Err(error);
            },
        }
        match total.checked_add(files[i].size) {
            Some(sum) => {
                total = sum;
            },
            None => {
                proof {
                    lemma_list_stops(files@, build, i + 1);
                }
                return Err(ManifestError::SizeOverflow);
            },
        }
        i = i + 1;
    }
    assert(files@.take(i as int) =~= files@);
    Ok(())
}

fn any_overlap(files: &Vec<ManagedFile>) -> (r: bool)
    ensures
        r == overlaps(files@),
{
    let mut i: usize = 0;
    while i < files.len()
        invariant
            i <= files@.len(),
            forall|a: int, b: int|
                0 <= a < i && 0 <= b < files@.len() ==> !lies_below(
                    #[trigger] files@[a],
                    #[trigger] files@[b],
                ),
        decreases files@.len() - i,
    {
        let inner = lower_all(letters(files[i].path.as_str()).as_slice());
        let mut j: usize = 0;
        while j < files.len()
            invariant
                i < files@.len(),
                j <= files@.len(),
                inner@ == lowercase(files@[i as int].path@),
                forall|a: int, b: int|
                    0 <= a < i && 0 <= b < files@.len() ==> !lies_below(
                        #[trigger] files@[a],
                        #[trigger] files@[b],
                    ),
                forall|b: int|
                    0 <= b < j ==> !lies_below(files@[i as int], #[trigger] files@[b]),
            decreases files@.len() - j,
        {
            let mut outer = lower_all(letters(files[j].path.as_str()).as_slice());
            outer.push('/');
            if begins(inner.as_slice(), outer.as_slice()) {
                assert(lies_below(files@[i as int], files@[j as int]));
                return true;
            }
            j = j + 1;
        }
        i = i + 1;
    }
    false
}

/// Accepts the manifests that this launcher can install from.
pub fn validate_manifest(manifest: &GameManifest, build: &Build) -> (r: Result<(), ManifestError>)
    ensures
        match r {
            Ok(()) => manifest.fault(build) is None,
            Err(error) => manifest.fault(build) == Some(error),
        },
{
    if manifest.schema != 2 || !spells(
        letters(manifest.target_build.as_str()).as_slice(),
        build.get(Setting::TargetBuild),
    ) || !spells(
        letters(manifest.target_exe_sha256.as_str()).as_slice(),
        build.get(Setting::TargetExeSha256),
    ) || !spells(
        letters(manifest.target_pak_sha256.as_str()).as_slice(),
        build.get(Setting::TargetPakSha256),
    ) || letters(manifest.version.as_str()).len() == 0 || manifest.managed_files.len() == 0 {
        return Err(ManifestError::Unsupported);
    }
    match check_list(&manifest.managed_files, build) {
        Ok(()) => {},
        Err(error) => {
            return Err(error);
        },
    }
    if any_overlap(&manifest.managed_files) {
        return Err(ManifestError::Overlap);
    }
    match client_executable(manifest, build) {
        Ok(_) => Ok(()),
        Err(error) => Err(error),
    }
}

/// The one file of the manifest that is the game executable.
pub fn client_executable<'a>(manifest: &'a GameManifest, build: &Build) -> (r: Result<
    &'a ManagedFile,
    ManifestError,
>)
    ensures
        match r {
            Ok(file) => executable_fault(manifest.managed_files@, build) is None && is_executable(
                *file,
                build,
            ) && manifest.managed_files@.contains(*file),
            Err(error) => executable_fault(manifest.managed_files@, build) == Some(error),
        },
{
    let wanted = concat("DivineKnockout/Binaries/Win64/", build.get(Setting::GameExecutableName));
    let files = &manifest.managed_files;
    let mut found: Option<usize> = None;
    let mut i: usize = 0;
    while i < files.len()
        invariant
            i <= files@.len(),
            files@ == manifest.managed_files@,
            wanted@ == executable_path(build),
            match found {
                Some(k) => k < i && is_executable(files@[k as int], build) && forall|j: int|
                    0 <= j < i && j != k ==> !is_executable(#[trigger] files@[j], build),
                None => forall|j: int| 0 <= j < i ==> !is_executable(#[trigger] files@[j], build),
            },
        decreases files@.len() - i,
    {
        if spells(letters(files[i].path.as_str()).as_slice(), wanted.as_str()) {
            assert(is_executable(files@[i as int], build));
            match found {
                Some(k) => {
                    assert(has_executable(files@, build));
                    return Err(ManifestError::RepeatedExecutable);
                },
                None => {
                    found = Some(i);
                },
            }
        }
        i = i + 1;
    }
    match found {
        Some(k) => {
            assert(has_executable(files@, build));
            Ok(&files[k])
        },
        None => Err(ManifestError::NoExecutable),
    }
}

proof fn lemma_list_is_sound(files: Seq<ManagedFile>, build: &Build, k: int)
    requires
        list_fault(files, build) is None,
        0 <= k < files.len(),
    ensures
        file_fault(files.take(k), files[k], build) is None,
        total_size(files) <= u64::MAX,
    decreases files.len(),
{
    if k == files.len() - 1 {
        assert(files.take(k) =~= files.drop_last());
    } else {
        lemma_list_is_sound(files.drop_last(), build, k);
        assert(files.drop_last().take(k) =~= files.take(k));
    }
}

/// In an accepted manifest every file has a safe path below `DivineKnockout`, no two
/// files share a place on a system that disregards case, no file stands where another
/// needs a directory, and the sizes add up to a 64 bit number.
pub proof fn law_accepted_files_stay_apart(manifest: GameManifest, build: &Build, i: int, j: int)
    requires
        manifest.fault(build) is None,
        0 <= i < manifest.managed_files@.len(),
        0 <= j < manifest.managed_files@.len(),
        i != j,
    ensures
        is_safe_path(manifest.managed_files@[i].path@),
        "DivineKnockout/"@.is_prefix_of(manifest.managed_files@[i].path@),
        !same_place(manifest.managed_files@[i], manifest.managed_files@[j]),
        !lies_below(manifest.managed_files@[i], manifest.managed_files@[j]),
        total_size(manifest.managed_files@) <= u64::MAX,
{
    let files = manifest.managed_files@;
    lemma_list_is_sound(files, build, i);
    lemma_list_is_sound(files, build, j);
    if i < j {
        assert(files.take(j)[i] == files[i]);
    } else {
        assert(files.take(i)[j] == files[j]);
    }
}

/// A list of files that passes one by one never repeats the executable: whether an
/// accepted manifest has it is then only a question of its being there.
pub proof fn law_accepted_list_has_at_most_one_executable(files: Seq<ManagedFile>, build: &Build)
    requires
        list_fault(files, build) is None,
    ensures
        !repeats_executable(files, build),
{
    if repeats_executable(files, build) {
        let (i, j) = choose|i: int, j: int|
            0 <= i < j < files.len() && is_executable(#[trigger] files[i], build) && is_executable(
                #[trigger] files[j],
                build,
            );
        lemma_list_is_sound(files, build, j);
        assert(files.take(j)[i] == files[i]);
        assert(same_place(files.take(j)[i], files[j]));
    }
}

/// The encoding of a character is never empty, and of all characters only the slash
/// and the dot have a slash or a dot in theirs.
proof fn lemma_encoded_letter(c: char)
    ensures
        encode_scalar(c as u32).len() > 0,
        c == '/' ==> encode_scalar(c as u32) == seq![SLASH],
        c == '.' ==> encode_scalar(c as u32) == seq![DOT],
        c != '/' ==> !encode_scalar(c as u32).contains(SLASH),
        c != '.' ==> !encode_scalar(c as u32).contains(DOT),
{
    let v = c as u32;
    vstd::utf8::char_is_scalar(c);
    assert(v <= 0x7f ==> (v & 0x7f) as u8 == v) by (bit_vector);
    assert(0xc0 | ((v >> 6) & 0x1f) as u8 >= 0x80) by (bit_vector);
    assert(0xe0 | ((v >> 12) & 0x0f) as u8 >= 0x80) by (bit_vector);
    assert(0xf0 | ((v >> 18) & 0x7) as u8 >= 0x80) by (bit_vector);
    assert(0x80 | (v & 0x3f) as u8 >= 0x80) by (bit_vector);
    assert(0x80 | ((v >> 6) & 0x3f) as u8 >= 0x80) by (bit_vector);
    assert(0x80 | ((v >> 12) & 0x3f) as u8 >= 0x80) by (bit_vector);
    let bytes = encode_scalar(v);
    if v <= 0x7f {
        assert(bytes =~= seq![v as u8]);
        if v == 47 {
            assert(c == '/');
        }
        if v == 46 {
            assert(c == '.');
        }
    } else {
        assert forall|i: int| 0 <= i < bytes.len() implies #[trigger] bytes[i] >= 0x80 by {}
    }
}

proof fn lemma_encode_push(s: Seq<char>, c: char)
    ensures
        encode_utf8(s.push(c)) == encode_utf8(s) + encode_scalar(c as u32),
    decreases s.len(),
{
    if s.len() == 0 {
        assert(s.push(c).drop_first() =~= Seq::empty());
        assert(encode_utf8(s.push(c).drop_first()) =~= Seq::empty());
        assert(encode_utf8(s) =~= Seq::empty());
        assert(s.push(c)[0] == c);
        assert(encode_utf8(s.push(c)) =~= encode_utf8(s) + encode_scalar(c as u32));
    } else {
        lemma_encode_push(s.drop_first(), c);
        assert(s.push(c).drop_first() =~= s.drop_first().push(c));
        assert(encode_utf8(s.push(c)) =~= encode_utf8(s) + encode_scalar(c as u32));
    }
}

/// The components of an encoded path are the encoded components.
proof fn lemma_encoded_parts(s: Seq<char>)
    ensures
        pieces(encode_utf8(s), SLASH).len() == pieces(s, '/').len(),
        forall|i: int|
            0 <= i < pieces(s, '/').len() ==> #[trigger] pieces(encode_utf8(s), SLASH)[i]
                == encode_utf8(pieces(s, '/')[i]),
    decreases s.len(),
{
    if s.len() > 0 {
        let front = s.drop_last();
        let c = s.last();
        lemma_encoded_parts(front);
        lemma_pieces_not_empty(front, '/');
        assert(front.push(c) =~= s);
        lemma_encode_push(front, c);
        lemma_encoded_letter(c);
        let bytes = encode_utf8(front);
        let before = pieces(front, '/');
        if c == '/' {
            assert((bytes + seq![SLASH]).drop_last() =~= bytes);
            assert(pieces(encode_utf8(s), SLASH) == pieces(bytes, SLASH).push(Seq::empty()));
            assert(encode_utf8(Seq::empty()) =~= Seq::<u8>::empty());
        } else {
            lemma_pieces_append(bytes, encode_scalar(c as u32), SLASH);
            lemma_encode_push(before.last(), c);
        }
        assert forall|i: int| 0 <= i < pieces(s, '/').len() implies #[trigger] pieces(
            encode_utf8(s),
            SLASH,
        )[i] == encode_utf8(pieces(s, '/')[i]) by {
            if i < before.len() {
                assert(pieces(bytes, SLASH)[i] == encode_utf8(before[i]));
            }
        }
    }
}

/// Only a dot is encoded as one, and only two dots as two.
proof fn lemma_encoded_dots(s: Seq<char>)
    ensures
        s.len() > 0 ==> encode_utf8(s).len() > 0,
        encode_utf8(s) == seq![DOT] ==> s == "."@,
        encode_utf8(s) == seq![DOT, DOT] ==> s == ".."@,
{
    reveal_strlit(".");
    reveal_strlit("..");
    if s.len() > 0 {
        lemma_encoded_letter(s[0]);
        let first = encode_scalar(s[0] as u32);
        let rest = s.drop_first();
        let bytes = encode_utf8(s);
        assert(bytes == first + encode_utf8(rest));
        assert(bytes[0] == first[0]);
        if bytes == seq![DOT] || bytes == seq![DOT, DOT] {
            assert(first[0] == DOT);
            assert(first.contains(DOT));
            assert(s[0] == '.');
            assert(first == seq![DOT]);
            if rest.len() > 0 {
                lemma_encoded_letter(rest[0]);
                let second = encode_scalar(rest[0] as u32);
                let last = rest.drop_first();
                assert(encode_utf8(rest) == second + encode_utf8(last));
                assert(bytes[1] == second[0]);
                assert(second[0] == DOT);
                assert(second.contains(DOT));
                assert(second == seq![DOT]);
                if last.len() > 0 {
                    lemma_encoded_letter(last[0]);
                    assert(encode_utf8(last).len() > 0);
                    assert(bytes.len() > 2);
                }
                assert(s =~= seq!['.', '.']);
                assert(s =~= ".."@);
            } else {
                assert(s =~= "."@);
                assert(encode_utf8(rest) =~= Seq::empty());
                assert(bytes.len() == 1);
            }
        }
    } else {
        assert(encode_utf8(s).len() == 0);
    }
}

/// A managed file lies below the directory that it is installed in: its path does not
/// start over at the root, and no step of it leads up or stays in place.
pub proof fn law_managed_file_stays_below(directory: Seq<u8>, path: Seq<char>)
    requires
        is_safe_path(path),
    ensures
        !is_rooted(encode_utf8(path)),
        directory.is_prefix_of(join_of(directory, encode_utf8(path))),
        forall|i: int|
            0 <= i < pieces(encode_utf8(path), SLASH).len() ==> {
                let step = #[trigger] pieces(encode_utf8(path), SLASH)[i];
                step.len() > 0 && step != seq![DOT] && step != seq![DOT, DOT]
            },
{
    let bytes = encode_utf8(path);
    lemma_encoded_parts(path);
    assert forall|i: int| 0 <= i < pieces(bytes, SLASH).len() implies {
        let step = #[trigger] pieces(bytes, SLASH)[i];
        step.len() > 0 && step != seq![DOT] && step != seq![DOT, DOT]
    } by {
        assert(is_safe_part(pieces(path, '/')[i]));
        lemma_encoded_dots(pieces(path, '/')[i]);
    }
    lemma_pieces_not_empty(path, '/');
    assert(path[0] != '/') by {
        if path[0] == '/' {
            lemma_leading_separator(path, '/');
            assert(is_safe_part(pieces(path, '/')[0]));
        }
    }
    lemma_encoded_letter(path[0]);
    let first = encode_scalar(path[0] as u32);
    assert(bytes[0] == first[0]);
    assert(first.contains(first[0]));
    assert(!is_rooted(bytes));
    let whole = join_of(directory, bytes);
    assert(whole.subrange(0, directory.len() as int) =~= directory);
}

proof fn lemma_leading_separator(s: Seq<char>, separator: char)
    requires
        s.len() > 0,
        s[0] == separator,
    ensures
        pieces(s, separator).len() >= 2,
        pieces(s, separator)[0].len() == 0,
    decreases s.len(),
{
    lemma_pieces_not_empty(s.drop_last(), separator);
    if s.len() > 1 {
        lemma_leading_separator(s.drop_last(), separator);
    } else {
        assert(s.drop_last() =~= Seq::empty());
        assert(pieces(s.drop_last(), separator) =~= seq![Seq::<char>::empty()]);
    }
}

} // verus!
