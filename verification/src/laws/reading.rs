//! What is accepted, refused and looked for: manifests, arguments, reports and tools.
use crate::{game_manifest, launcher_update};
use crate::arguments::{
    total_bytes, validate_player_command_arguments, without_auth_password, ArgumentError,
};
use crate::digest::format_download_size;
use crate::failure::{judge_report, ReportReply};
use crate::game_manifest::{
    client_executable, is_safe_path, GameManifest, ManagedFile, ManifestError,
};
use crate::graphics::{Brush, Canvas};
use crate::launcher_update::{LauncherManifest, ReleaseError};
use crate::laws::command_line::{
    are_allowed, law_limits_of_player_arguments, law_password_is_removed,
};
use crate::laws::downloads::{law_sizes_are_rounded, law_small_sizes};
use crate::laws::manifest::{
    is_right_file, is_the_executable, law_right_launcher_manifests_are_accepted,
    law_right_manifests_are_accepted, stay_apart,
};
use crate::laws::messages::{law_answers_to_reports, law_log_holds_the_message};
use crate::laws::steam::law_game_is_in_the_first_library_that_has_it;
use crate::log::{log_line, starts_ticket};
use crate::paths::join_of;
use crate::process::libraries::{locate_game_library, steam_library_roots};
use crate::process::proton::tool_directories;
use crate::settings::{Build, Setting};
use crate::text::{decimal_text, precedes, texts, views};
use vstd::prelude::*;

verus! {

/// A manifest is accepted when it is for the supported build, every file of it is in
/// order, no two of them are in each other's way, and the executable is among them.
pub proof fn law_validating_a_manifest(
    manifest: &GameManifest,
    build: &Build,
    r: Result<(), ManifestError>,
)
    requires
        call_ensures(game_manifest::validate_manifest, (manifest, build), r),
    ensures
        r is Ok <==> {
            let files = manifest.managed_files@;
            &&& manifest.schema == 2
            &&& manifest.target_build@ == build.value(Setting::TargetBuild)
            &&& manifest.target_exe_sha256@ == build.value(Setting::TargetExeSha256)
            &&& manifest.target_pak_sha256@ == build.value(Setting::TargetPakSha256)
            &&& manifest.version@.len() > 0
            &&& forall|i: int|
                0 <= i < files.len() ==> is_right_file(#[trigger] files[i], build)
            &&& stay_apart(files)
            &&& game_manifest::total_size(files) <= 0xffff_ffff_ffff_ffff
            &&& exists|i: int|
                0 <= i < files.len() && is_the_executable(#[trigger] files[i], build)
        },
        manifest.schema != 2 || manifest.version@.len() == 0 || manifest.managed_files@.len() == 0
            || manifest.target_build@ != build.value(Setting::TargetBuild) ==> r == Err::<
            (),
            ManifestError,
        >(ManifestError::Unsupported),
{
    law_right_manifests_are_accepted(*manifest, build);
}

/// What is wrong with the only file of a manifest is named: its path, or what is said of
/// it, or that it is not the executable.
pub proof fn law_faults_of_a_file(
    manifest: &GameManifest,
    build: &Build,
    r: Result<(), ManifestError>,
)
    requires
        call_ensures(game_manifest::validate_manifest, (manifest, build), r),
        manifest.is_supported(build),
        manifest.managed_files@.len() == 1,
    ensures
        ({
            let file = manifest.managed_files@[0];
            &&& !is_safe_path(file.path@) ==> r == Err::<(), ManifestError>(
                ManifestError::UnsafePath,
            )
            &&& is_safe_path(file.path@) && !is_right_file(file, build) ==> r == Err::<
                (),
                ManifestError,
            >(ManifestError::Metadata)
            &&& is_right_file(file, build) && !is_the_executable(file, build) ==> r == Err::<
                (),
                ManifestError,
            >(ManifestError::NoExecutable)
        }),
{
    let files = manifest.managed_files@;
    let file = files[0];
    let front = files.drop_last();
    assert(front =~= Seq::empty());
    assert(game_manifest::list_fault(front, build) is None);
    assert(game_manifest::total_size(front) == 0);
    crate::laws::text::law_digest_is_64_hexadecimal_digits(file.sha256@);
    assert(files.last() == file);
    assert(game_manifest::total_size(files) == file.size);
    if is_right_file(file, build) {
        assert(!game_manifest::overlaps(files)) by {
            if game_manifest::overlaps(files) {
                let (i, j) = choose|i: int, j: int|
                    0 <= i < files.len() && 0 <= j < files.len() && game_manifest::lies_below(
                        #[trigger] files[i],
                        #[trigger] files[j],
                    );
                assert(files[i] == file && files[j] == file);
                let low = crate::text::lowercase(file.path@);
                assert(low.push('/').len() == low.len() + 1);
            }
        }
        assert forall|i: int| 0 <= i < files.len() implies (#[trigger] files[i]) == file by {}
    }
}

/// A list of launchers is accepted when it is for the supported build and every entry
/// can be used.
pub proof fn law_validating_launchers(
    manifest: &LauncherManifest,
    build: &Build,
    i: int,
    r: Result<(), ReleaseError>,
)
    requires
        call_ensures(launcher_update::validate_manifest, (manifest, build), r),
    ensures
        r is Ok ==> manifest.schema == 1 && manifest.launchers@.len() >= 1,
        manifest.schema != 1 || manifest.target_build@ != build.value(Setting::TargetBuild) ==> r
            == Err::<(), ReleaseError>(ReleaseError::Unsupported),
        manifest.is_supported(build) && manifest.launchers@.len() == 0 ==> r == Err::<
            (),
            ReleaseError,
        >(ReleaseError::NoArtifacts),
        manifest.is_supported(build) && 0 <= i < manifest.launchers@.len() && (
        manifest.launchers@[i].size == 0 || manifest.launchers@[i].sha256@.len() != 64) ==> r
            == Err::<(), ReleaseError>(ReleaseError::Metadata),
{
    law_right_launcher_manifests_are_accepted(*manifest, build);
    if 0 <= i < manifest.launchers@.len() {
        assert(manifest.launchers@[i].is_sound() || !manifest.launchers@[i].is_sound());
    }
}

/// Up to 16 arguments of up to 1024 bytes are taken from the player, none of which
/// decides what the launcher decides.
pub proof fn law_validating_arguments(arguments: &Vec<String>, r: Result<(), ArgumentError>)
    requires
        call_ensures(validate_player_command_arguments, (arguments,), r),
    ensures
        ({
            let all = texts(arguments@);
            let few = all.len() <= 16 && total_bytes(all) <= 1024;
            &&& r is Ok <==> few && are_allowed(all)
            &&& !few ==> r == Err::<(), ArgumentError>(ArgumentError::TooMany)
            &&& few && !are_allowed(all) ==> r == Err::<(), ArgumentError>(
                ArgumentError::NotAllowed,
            )
        }),
{
    law_limits_of_player_arguments(texts(arguments@));
}

/// A password on the command line is dropped, together with its option.
pub proof fn law_dropping_the_password(
    arguments: &Vec<String>,
    others: &Vec<String>,
    name: Seq<char>,
    secret: Seq<char>,
    r: Vec<String>,
    s: Vec<String>,
)
    requires
        call_ensures(without_auth_password, (arguments,), r),
        call_ensures(without_auth_password, (others,), s),
        crate::text::lowercase(name) == "auth_password"@,
        texts(arguments@) == seq![seq!['-'] + name + seq!['='] + secret] + texts(others@),
    ensures
        texts(r@) == texts(s@),
{
    law_password_is_removed(seq!['-'], name, secret, Seq::empty(), texts(others@));
}

/// A report was accepted, or is sent once more without a code that the server does not
/// know, or was refused.
pub proof fn law_judging_a_report(status: u16, code: &Option<String>, r: ReportReply)
    requires
        call_ensures(judge_report, (status, code), r),
    ensures
        r == ReportReply::Accepted <==> 200 <= status <= 299,
        r == ReportReply::Retry <==> status == 400 && *code is Some && code->0@ == "proton"@,
{
    law_answers_to_reports(status, crate::text::maybe_text(*code));
}

/// A line of the log holds the time and the message.
pub proof fn law_logging(timestamp: u64, message: &str, r: String)
    requires
        call_ensures(log_line, (timestamp, message), r),
        !message@.contains('\0'),
        forall|i: int| 0 <= i < message@.len() ==> !starts_ticket((#[trigger] message@.skip(i))),
    ensures
        r@ == "["@ + decimal_text(timestamp as int) + "] "@ + message@ + "\n"@,
{
    law_log_holds_the_message(timestamp, message@);
}

/// Sizes read as bytes, or as tenths of kilobytes or megabytes.
pub proof fn law_writing_sizes(bytes: u64, t: int, r: String)
    requires
        call_ensures(format_download_size, (bytes,), r),
    ensures
        bytes < 1024 ==> r@ == decimal_text(bytes as int) + seq![' ', 'B'],
        1024 <= bytes < 1048576 && -1024 < 2 * (10 * bytes - t * 1024) < 1024 ==> r@
            == decimal_text(t / 10) + seq!['.'] + decimal_text(t % 10) + seq![' ', 'K', 'B'],
        1048576 <= bytes < 0x20_0000_0000_0000 && -1048576 < 2 * (10 * bytes - t * 1048576)
            < 1048576 ==> r@ == decimal_text(t / 10) + seq!['.'] + decimal_text(t % 10) + seq![
            ' ',
            'M',
            'B',
        ],
{
    if bytes < 1024 {
        law_small_sizes(bytes as int);
    } else if bytes < 1048576 {
        if -1024 < 2 * (10 * bytes - t * 1024) < 1024 {
            law_sizes_are_rounded(bytes as int, t);
        }
    } else if bytes < 0x20_0000_0000_0000 {
        if -1048576 < 2 * (10 * bytes - t * 1048576) < 1048576 {
            law_sizes_are_rounded(bytes as int, t);
        }
    }
}

/// Steam's own directory is always the first library; the game is in the first that has
/// it.
pub proof fn law_looking_for_the_game(
    steam_root: &[u8],
    documents: &Vec<Option<String>>,
    libraries: &Vec<Vec<u8>>,
    has_game: &Vec<bool>,
    i: int,
    roots: Vec<Vec<u8>>,
    r: Vec<u8>,
)
    requires
        call_ensures(steam_library_roots, (steam_root, documents), roots),
        call_ensures(locate_game_library, (libraries, has_game), r),
        libraries@.len() == has_game@.len(),
        0 <= i < libraries@.len(),
    ensures
        roots@.len() >= 1 && roots@[0]@ == steam_root@,
        has_game@[i] && (forall|j: int| 0 <= j < i ==> !#[trigger] has_game@[j]) ==> r@
            == libraries@[i]@,
        (forall|j: int| 0 <= j < has_game@.len() ==> !#[trigger] has_game@[j]) ==> r@
            == libraries@[0]@,
{
    law_game_is_in_the_first_library_that_has_it(views(libraries@), has_game@, r@, i);
}

/// Tools are looked for in a place itself, and then in each of its directories, in the
/// order of their names.
pub proof fn law_looking_for_tools(
    root: &[u8],
    children: Vec<Vec<u8>>,
    i: int,
    j: int,
    r: Vec<Vec<u8>>,
)
    requires
        call_ensures(tool_directories, (root, children), r),
    ensures
        r@.len() == children@.len() + 1,
        r@[0]@ == root@,
        exists|names: Seq<Seq<u8>>|
            #![trigger names.to_multiset()]
            {
                &&& names.to_multiset() == views(children@).to_multiset()
                &&& names.len() == children@.len()
                &&& 0 <= i < names.len() ==> r@[i + 1]@ == join_of(root@, names[i])
                &&& 0 <= i < j < names.len() ==> !precedes(names[j], names[i])
            },
{
    let all = views(r@);
    let names = choose|names: Seq<Seq<u8>>|
        {
            &&& #[trigger] crate::text::is_sorted(names)
            &&& names.to_multiset() == views(children@).to_multiset()
            &&& all == seq![root@] + Seq::new(names.len(), |k: int| join_of(root@, names[k]))
        };
    names.to_multiset_ensures();
    views(children@).to_multiset_ensures();
    assert(all.len() == names.len() + 1);
    assert(all[0] == root@);
    if 0 <= i < names.len() {
        assert(all[i + 1] == join_of(root@, names[i]));
    }
    assert(names.to_multiset() == views(children@).to_multiset());
}

/// A new canvas has one color, and drawing changes what the brush covers.
pub proof fn law_drawing(
    width: u32,
    height: u32,
    color: u32,
    canvas: Canvas,
    drawn: &mut Canvas,
    left: u32,
    top: u32,
    wide: u32,
    high: u32,
    paint: u32,
    x: int,
    y: int,
)
    requires
        call_ensures(Canvas::new, (width, height, color), canvas),
        *old(drawn) == canvas,
        call_ensures(
            Canvas::draw,
            (drawn, &Brush::Rectangle { left, top, width: wide, height: high, color: paint }),
            (),
        ),
        0 <= x < width,
        0 <= y < height,
    ensures
        final(drawn).width == width && final(drawn).height == height,
        final(drawn).at(x, y) == (if left <= x < left + wide && top <= y < top + high {
            paint
        } else {
            color
        }),
{
    assert(canvas.has(x, y));
    assert(final(drawn).has(x, y));
}

/// The executable of the game is the file in its place, if there is one such file.
pub proof fn law_finding_the_executable(
    manifest: &GameManifest,
    build: &Build,
    i: int,
    r: Result<&ManagedFile, ManifestError>,
)
    requires
        call_ensures(client_executable, (manifest, build), r),
    ensures
        ({
            let place = "DivineKnockout/Binaries/Win64/"@ + build.value(
                Setting::GameExecutableName,
            );
            let files = manifest.managed_files@;
            &&& r is Ok ==> r->Ok_0.path@ == place && files.contains(*r->Ok_0)
            &&& (forall|k: int| 0 <= k < files.len() ==> (#[trigger] files[k]).path@ != place)
                ==> r == Err::<&ManagedFile, ManifestError>(ManifestError::NoExecutable)
            &&& 0 <= i < files.len() && files[i].path@ == place && (forall|k: int|
                0 <= k < files.len() && k != i ==> (#[trigger] files[k]).path@ != place) ==> r is Ok
                && *r->Ok_0 == files[i]
        }),
{
    let files = manifest.managed_files@;
    let place = "DivineKnockout/Binaries/Win64/"@ + build.value(Setting::GameExecutableName);
    if 0 <= i < files.len() && files[i].path@ == place && (forall|k: int|
        0 <= k < files.len() && k != i ==> (#[trigger] files[k]).path@ != place) {
        assert(game_manifest::is_executable(files[i], build));
        assert(game_manifest::has_executable(files, build));
        assert(!game_manifest::repeats_executable(files, build));
        let k = choose|k: int| 0 <= k < files.len() && files[k] == *r->Ok_0;
        assert(k == i);
    }
}

/// A path below the runtime must be text, and safe.
pub proof fn law_validating_a_path(path: &[u8], r: Result<(), ManifestError>)
    requires
        call_ensures(game_manifest::validate_relative_path, (path,), r),
    ensures
        !vstd::utf8::valid_utf8(path@) ==> r == Err::<(), ManifestError>(
            ManifestError::PathNotUtf8,
        ),
        vstd::utf8::valid_utf8(path@) && is_safe_path(vstd::utf8::decode_utf8(path@)) ==> r is Ok,
        vstd::utf8::valid_utf8(path@) && !is_safe_path(vstd::utf8::decode_utf8(path@)) ==> r
            == Err::<(), ManifestError>(ManifestError::UnsafePath),
{
}

} // verus!
