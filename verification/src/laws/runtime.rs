//! The game's runtime: when it is current, and where it lies.
use crate::game_manifest::{GameManifest, ManagedFile};
use crate::install::{
    generation_of, is_current_file, is_current_record, is_current_runtime, is_supported_game,
    retail_of, runtime_of, same_file, same_manifest, FoundFile, InstalledRuntime, RetailError,
};
use crate::paths::{is_plain_name, join_of, law_joined_path_comes_apart, without_end, SLASH};
use crate::settings::{Build, Setting};
use crate::text::same_folded;
use vstd::prelude::*;
use vstd::utf8::{decode_utf8, encode_utf8, valid_utf8};

verus! {

/// Two manifests hold the same.
pub open spec fn are_equal(a: GameManifest, b: GameManifest) -> bool {
    &&& a.schema == b.schema
    &&& a.version@ == b.version@
    &&& a.target_build@ == b.target_build@
    &&& a.target_exe_sha256@ == b.target_exe_sha256@
    &&& a.target_pak_sha256@ == b.target_pak_sha256@
    &&& contents(a.managed_files@) == contents(b.managed_files@)
}

/// What a list of files holds.
pub open spec fn contents(files: Seq<ManagedFile>) -> Seq<(Seq<char>, u64, Seq<char>, Seq<char>)> {
    Seq::new(
        files.len(),
        |i: int| (files[i].path@, files[i].size, files[i].sha256@, files[i].download_path@),
    )
}

/// A manifest counts as the expected one exactly when it holds the same, field by field
/// and file by file.
pub proof fn law_equal_manifests_are_the_same(a: GameManifest, b: GameManifest)
    ensures
        same_manifest(a, b) <==> are_equal(a, b),
        same_manifest(a, a),
        same_manifest(a, b) ==> same_manifest(b, a),
{
    let left = contents(a.managed_files@);
    let right = contents(b.managed_files@);
    if same_manifest(a, b) {
        assert forall|i: int| 0 <= i < left.len() implies left[i] == right[i] by {
            assert(same_file(a.managed_files@[i], b.managed_files@[i]));
        }
        assert(left =~= right);
        assert forall|i: int| 0 <= i < b.managed_files@.len() implies same_file(
            #[trigger] b.managed_files@[i],
            a.managed_files@[i],
        ) by {
            assert(same_file(a.managed_files@[i], b.managed_files@[i]));
        }
    }
    if are_equal(a, b) {
        assert(left.len() == a.managed_files@.len() && right.len() == b.managed_files@.len());
        assert forall|i: int| 0 <= i < a.managed_files@.len() implies same_file(
            #[trigger] a.managed_files@[i],
            b.managed_files@[i],
        ) by {
            assert(left[i] == right[i]);
        }
    }
}

/// A runtime whose record is the expected manifest, and whose files are all there as
/// announced, is current: nothing is downloaded. With any other record, or any other
/// file, it is not.
pub proof fn law_recorded_runtime_is_current(
    build: &Build,
    installed: InstalledRuntime,
    expected: GameManifest,
    found: Seq<FoundFile>,
)
    requires
        expected.fault(build) is None,
    ensures
        is_current_runtime(build, Some(installed), expected, found) <==> {
            &&& are_equal(installed.manifest, expected)
            &&& installed.layout@ == "manifest-runtime-v1"@
            &&& found.len() == expected.managed_files@.len()
            &&& forall|i: int|
                0 <= i < found.len() ==> {
                    let file = #[trigger] found[i];
                    &&& file.is_file
                    &&& file.size == expected.managed_files@[i].size
                    &&& file.sha256 matches Some(digest) && same_folded(
                        digest@,
                        expected.managed_files@[i].sha256@,
                    )
                }
        },
        !is_current_runtime(build, None, expected, found),
{
    law_equal_manifests_are_the_same(installed.manifest, expected);
    let files = expected.managed_files@;
    if is_current_runtime(build, Some(installed), expected, found) {
        assert forall|i: int| 0 <= i < found.len() implies (#[trigger] found[i]).is_file
            && found[i].size == files[i].size && found[i].sha256 is Some && same_folded(
            found[i].sha256->0@,
            files[i].sha256@,
        ) by {
            assert(is_current_file(files[i], found[i]));
        }
    }
    if are_equal(installed.manifest, expected) && installed.layout@ == "manifest-runtime-v1"@
        && found.len() == files.len() && forall|i: int|
        0 <= i < found.len() ==> {
            let file = #[trigger] found[i];
            &&& file.is_file
            &&& file.size == files[i].size
            &&& file.sha256 matches Some(digest) && same_folded(digest@, files[i].sha256@)
        } {
        assert forall|i: int| 0 <= i < found.len() implies is_current_file(
            #[trigger] files[i],
            found[i],
        ) by {
            assert(found[i].is_file);
        }
    }
}

/// A manifest that is not accepted makes no runtime current.
pub proof fn law_refused_manifest_is_never_current(
    build: &Build,
    installed: Option<InstalledRuntime>,
    expected: GameManifest,
    found: Seq<FoundFile>,
)
    requires
        expected.fault(build) is Some,
    ensures
        !is_current_runtime(build, installed, expected, found),
        !is_current_record(build, installed, expected),
{
}

/// The game is supported exactly when its version, blanks aside, and the digests of its
/// two files are those that the launcher was built for.
pub proof fn law_supported_game(
    build: &Build,
    before: Seq<char>,
    after: Seq<char>,
    exe: Seq<char>,
    pak: Seq<char>,
)
    requires
        crate::laws::text::all_spaces(before),
        crate::laws::text::all_spaces(after),
        build.value(Setting::TargetBuild).len() > 0,
        !crate::text::is_space(build.value(Setting::TargetBuild)[0]),
        !crate::text::is_space(build.value(Setting::TargetBuild).last()),
    ensures
        is_supported_game(
            build,
            before + build.value(Setting::TargetBuild) + after,
            exe,
            pak,
        ) <==> exe == build.value(Setting::TargetExeSha256) && pak == build.value(
            Setting::TargetPakSha256,
        ),
{
    crate::laws::text::law_only_white_space_is_trimmed(
        before,
        build.value(Setting::TargetBuild),
        after,
    );
}

proof fn lemma_names()
    ensures
        is_plain_name(encode_utf8("DivineKnockout"@)),
        is_plain_name(encode_utf8("Binaries"@)),
        is_plain_name(encode_utf8("Win64"@)),
{
    reveal_strlit("DivineKnockout");
    reveal_strlit("Binaries");
    reveal_strlit("Win64");
    lemma_word_is_a_name("DivineKnockout"@);
    lemma_word_is_a_name("Binaries"@);
    lemma_word_is_a_name("Win64"@);
}

proof fn lemma_word_is_a_name(name: Seq<char>)
    requires
        name.len() > 2,
        forall|i: int| 0 <= i < name.len() ==> '0' <= #[trigger] name[i] && name[i] <= 'z',
    ensures
        is_plain_name(encode_utf8(name)),
{
    assert(vstd::utf8::is_ascii_chars(name));
    vstd::utf8::is_ascii_chars_encode_utf8(name);
    let bytes = encode_utf8(name);
    assert(!bytes.contains(SLASH)) by {
        if bytes.contains(SLASH) {
            let k = choose|k: int| 0 <= k < bytes.len() && bytes[k] == SLASH;
            assert('0' <= name[k]);
            assert(name[k] as u8 == bytes[k]);
        }
    }
}

/// A directory that is written as such: without slashes or `.` at its end.
pub open spec fn is_directory(path: Seq<u8>) -> bool {
    without_end(path) == path
}

proof fn lemma_step_down(directory: Seq<u8>, name: Seq<u8>)
    requires
        is_directory(directory),
        is_plain_name(name),
    ensures
        is_directory(join_of(directory, name)),
{
    crate::paths::lemma_joined_path_is_bare(directory, name);
}

/// The game around an executable: its root is the directory that holds `DivineKnockout`,
/// and its contents lie in the file of packed assets below that.
pub proof fn law_game_around_an_executable(root: Seq<u8>, name: Seq<u8>)
    requires
        is_directory(root),
        is_plain_name(name),
    ensures
        ({
            let game = join_of(root, encode_utf8("DivineKnockout"@));
            let binaries = join_of(game, encode_utf8("Binaries"@));
            let executable = join_of(join_of(binaries, encode_utf8("Win64"@)), name);
            &&& retail_of(executable, false) == Ok::<(Seq<u8>, Seq<u8>), RetailError>(
                (
                    root,
                    join_of(game, encode_utf8("Content/Paks/pakchunk0-WindowsNoEditor.pak"@)),
                ),
            )
            &&& runtime_of(seq![], executable, false) == match crate::paths::parent_of(root) {
                Some(outside) => Ok::<Seq<u8>, RetailError>(
                    join_of(outside, encode_utf8(".project-knockout-dko-runtime"@)),
                ),
                None => Err::<Seq<u8>, RetailError>(RetailError::NoParent),
            }
        }),
{
    lemma_names();
    let game = join_of(root, encode_utf8("DivineKnockout"@));
    let binaries = join_of(game, encode_utf8("Binaries"@));
    let win64 = join_of(binaries, encode_utf8("Win64"@));
    lemma_step_down(root, encode_utf8("DivineKnockout"@));
    lemma_step_down(game, encode_utf8("Binaries"@));
    lemma_step_down(binaries, encode_utf8("Win64"@));
    law_joined_path_comes_apart(root, encode_utf8("DivineKnockout"@));
    law_joined_path_comes_apart(game, encode_utf8("Binaries"@));
    law_joined_path_comes_apart(binaries, encode_utf8("Win64"@));
    law_joined_path_comes_apart(win64, name);
}

/// Another generation of the runtime lies beside it, under its name and the name of the
/// generation.
pub proof fn law_generations_lie_side_by_side(
    directory: Seq<u8>,
    name: Seq<char>,
    generation: Seq<char>,
)
    requires
        is_directory(directory),
        is_plain_name(encode_utf8(name)),
    ensures
        generation_of(join_of(directory, encode_utf8(name)), generation, false) == join_of(
            directory,
            encode_utf8(name + "."@ + generation),
        ),
{
    law_joined_path_comes_apart(directory, encode_utf8(name));
    vstd::utf8::encode_utf8_valid_utf8(name);
    vstd::utf8::encode_utf8_decode_utf8(name);
}

} // verus!
