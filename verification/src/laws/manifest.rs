//! The manifests of the server: which are accepted, and which are not.
use crate::game_manifest::{
    file_fault, is_executable, is_reserved, is_safe_part, is_safe_path, lies_below, list_fault,
    overlaps, same_place, total_size, GameManifest, ManagedFile,
};
use crate::launcher_update::LauncherManifest;
use crate::laws::text::law_digest_is_64_hexadecimal_digits;
use crate::settings::{Build, Setting};
use crate::text::{
    is_control, joined, lemma_pieces_append, lemma_pieces_not_empty, lowercase, pieces, same_folded,
    Letter,
};
use vstd::prelude::*;

verus! {

/// Splitting at the separators of the whole is splitting the two sides of one of them.
pub proof fn lemma_pieces_of_both_sides<T>(a: Seq<T>, b: Seq<T>, separator: T)
    ensures
        pieces(a + seq![separator] + b, separator) == pieces(a, separator) + pieces(b, separator),
    decreases b.len(),
{
    let s = a + seq![separator] + b;
    if b.len() == 0 {
        assert(s.drop_last() =~= a);
        assert(pieces(s, separator) =~= pieces(a, separator) + pieces(b, separator));
    } else {
        let front = b.drop_last();
        assert(s.drop_last() =~= a + seq![separator] + front);
        lemma_pieces_of_both_sides(a, front, separator);
        lemma_pieces_not_empty(front, separator);
        assert(pieces(s, separator) =~= pieces(a, separator) + pieces(b, separator));
    }
}

/// A text that is put together from parts comes apart into them.
pub proof fn lemma_joined_parts<T>(parts: Seq<Seq<T>>, separator: T)
    requires
        parts.len() > 0,
        forall|i: int| 0 <= i < parts.len() ==> !(#[trigger] parts[i]).contains(separator),
    ensures
        pieces(joined(parts, seq![separator]), separator) == parts,
    decreases parts.len(),
{
    let last = parts.last();
    assert(!parts[parts.len() - 1].contains(separator));
    lemma_pieces_append(Seq::<T>::empty(), last, separator);
    assert(Seq::<T>::empty() + last =~= last);
    assert(pieces(last, separator) =~= seq![last]);
    if parts.len() == 1 {
        assert(parts =~= seq![last]);
    } else {
        let front = parts.drop_last();
        assert forall|i: int| 0 <= i < front.len() implies !(#[trigger] front[i]).contains(
            separator,
        ) by {
            assert(!parts[i].contains(separator));
        }
        lemma_joined_parts(front, separator);
        lemma_pieces_of_both_sides(joined(front, seq![separator]), last, separator);
        assert(front + seq![last] =~= parts);
    }
}

/// The names that Windows keeps for devices.
pub open spec fn device_names() -> Seq<Seq<char>> {
    seq![
        "con"@,
        "prn"@,
        "aux"@,
        "nul"@,
        "com1"@,
        "com2"@,
        "com3"@,
        "com4"@,
        "com5"@,
        "com6"@,
        "com7"@,
        "com8"@,
        "com9"@,
        "lpt1"@,
        "lpt2"@,
        "lpt3"@,
        "lpt4"@,
        "lpt5"@,
        "lpt6"@,
        "lpt7"@,
        "lpt8"@,
        "lpt9"@,
    ]
}

proof fn lemma_device_names()
    ensures
        "con"@ == seq!['c', 'o', 'n'],
        "prn"@ == seq!['p', 'r', 'n'],
        "aux"@ == seq!['a', 'u', 'x'],
        "nul"@ == seq!['n', 'u', 'l'],
        "com"@ == seq!['c', 'o', 'm'],
        "lpt"@ == seq!['l', 'p', 't'],
        forall|k: int| 4 <= k < 13 ==> #[trigger] device_names()[k] == seq!['c', 'o', 'm', (45
            + k) as char],
        forall|k: int| 13 <= k < 22 ==> #[trigger] device_names()[k] == seq!['l', 'p', 't', (36
            + k) as char],
{
    reveal_strlit("con");
    reveal_strlit("prn");
    reveal_strlit("aux");
    reveal_strlit("nul");
    reveal_strlit("com");
    reveal_strlit("lpt");
    reveal_strlit("com1");
    reveal_strlit("com2");
    reveal_strlit("com3");
    reveal_strlit("com4");
    reveal_strlit("com5");
    reveal_strlit("com6");
    reveal_strlit("com7");
    reveal_strlit("com8");
    reveal_strlit("com9");
    reveal_strlit("lpt1");
    reveal_strlit("lpt2");
    reveal_strlit("lpt3");
    reveal_strlit("lpt4");
    reveal_strlit("lpt5");
    reveal_strlit("lpt6");
    reveal_strlit("lpt7");
    reveal_strlit("lpt8");
    reveal_strlit("lpt9");
    assert("con"@ =~= seq!['c', 'o', 'n']);
    assert("prn"@ =~= seq!['p', 'r', 'n']);
    assert("aux"@ =~= seq!['a', 'u', 'x']);
    assert("nul"@ =~= seq!['n', 'u', 'l']);
    assert("com"@ =~= seq!['c', 'o', 'm']);
    assert("lpt"@ =~= seq!['l', 'p', 't']);
    assert("com1"@ =~= seq!['c', 'o', 'm', '1']);
    assert("com2"@ =~= seq!['c', 'o', 'm', '2']);
    assert("com3"@ =~= seq!['c', 'o', 'm', '3']);
    assert("com4"@ =~= seq!['c', 'o', 'm', '4']);
    assert("com5"@ =~= seq!['c', 'o', 'm', '5']);
    assert("com6"@ =~= seq!['c', 'o', 'm', '6']);
    assert("com7"@ =~= seq!['c', 'o', 'm', '7']);
    assert("com8"@ =~= seq!['c', 'o', 'm', '8']);
    assert("com9"@ =~= seq!['c', 'o', 'm', '9']);
    assert("lpt1"@ =~= seq!['l', 'p', 't', '1']);
    assert("lpt2"@ =~= seq!['l', 'p', 't', '2']);
    assert("lpt3"@ =~= seq!['l', 'p', 't', '3']);
    assert("lpt4"@ =~= seq!['l', 'p', 't', '4']);
    assert("lpt5"@ =~= seq!['l', 'p', 't', '5']);
    assert("lpt6"@ =~= seq!['l', 'p', 't', '6']);
    assert("lpt7"@ =~= seq!['l', 'p', 't', '7']);
    assert("lpt8"@ =~= seq!['l', 'p', 't', '8']);
    assert("lpt9"@ =~= seq!['l', 'p', 't', '9']);
}

/// The reserved names are these, in any case, and no others.
pub proof fn law_reserved_names(stem: Seq<char>)
    ensures
        is_reserved(stem) <==> device_names().contains(lowercase(stem)),
{
    lemma_device_names();
    let low = lowercase(stem);
    let names = device_names();
    assert(lowercase("con"@) =~= "con"@);
    assert(lowercase("prn"@) =~= "prn"@);
    assert(lowercase("aux"@) =~= "aux"@);
    assert(lowercase("nul"@) =~= "nul"@);
    assert(lowercase("com"@) =~= "com"@);
    assert(lowercase("lpt"@) =~= "lpt"@);
    if is_reserved(stem) {
        if stem.len() == 4 && '1' <= stem[3] && stem[3] <= '9' {
            let n = stem[3] as u32;
            assert(low[3] == stem[3]);
            assert forall|i: int| 0 <= i < 3 implies #[trigger] low[i] == lowercase(
                stem.take(3),
            )[i] by {}
            if same_folded(stem.take(3), "com"@) {
                let k = n - 45;
                assert(low =~= seq!['c', 'o', 'm', (45 + k) as char]);
                assert(names[k] == low);
            } else if same_folded(stem.take(3), "lpt"@) {
                let k = n - 36;
                assert(low =~= seq!['l', 'p', 't', (36 + k) as char]);
                assert(names[k] == low);
            }
        }
        assert(names[0] == "con"@ && names[1] == "prn"@ && names[2] == "aux"@ && names[3]
            == "nul"@);
    }
    if names.contains(low) {
        let k = choose|k: int| 0 <= k < names.len() && names[k] == low;
        if k >= 4 {
            assert(low.len() == 4);
            assert(stem.len() == 4);
            let start = lowercase(stem.take(3));
            assert(start =~= low.take(3));
            if k < 13 {
                assert(low == seq!['c', 'o', 'm', (45 + k) as char]);
                assert(start =~= "com"@);
            } else {
                assert(low == seq!['l', 'p', 't', (36 + k) as char]);
                assert(start =~= "lpt"@);
            }
            assert(low[3] == stem[3].lowered());
            assert('1' <= low[3] && low[3] <= '9');
            assert(stem[3] == low[3]);
        }
    }
}

/// A part of a path that means the same on every system: it holds something, it is not a
/// step in place or up, it does not end in a dot or a blank, none of its characters means
/// something else, and it names no device, with or without an extension.
pub open spec fn is_good_part(part: Seq<char>) -> bool {
    &&& part.len() > 0
    &&& part != "."@
    &&& part != ".."@
    &&& part.last() != '.'
    &&& part.last() != ' '
    &&& forall|i: int|
        0 <= i < part.len() ==> !"\\:%?*\"<>|/"@.contains(#[trigger] part[i]) && part[i] as u32
            >= 32 && !(127 <= part[i] as u32 <= 159)
    &&& !device_names().contains(lowercase(pieces(part, '.')[0]))
}

/// A path of a managed file is accepted exactly when all of its parts are good.
pub proof fn law_safe_paths_are_made_of_good_parts(parts: Seq<Seq<char>>)
    requires
        parts.len() > 0,
        forall|i: int| 0 <= i < parts.len() ==> !(#[trigger] parts[i]).contains('/'),
    ensures
        is_safe_path(joined(parts, seq!['/'])) <==> forall|i: int|
            0 <= i < parts.len() ==> is_good_part(#[trigger] parts[i]),
{
    reveal_strlit("\\:%?*\"<>|/");
    let odd = "\\:%?*\"<>|/"@;
    let set = seq!['\\', ':', '%', '?', '*', '"', '<', '>', '|'];
    let s = joined(parts, seq!['/']);
    lemma_joined_parts(parts, '/');
    assert(pieces(s, '/') == parts);
    assert forall|c: char| #[trigger] odd.contains(c) <==> set.contains(c) || c == '/' by {
        assert(odd.len() == 10);
        assert(forall|k: int| 0 <= k < 9 ==> odd[k] == set[k]);
        assert(odd[9] == '/');
        if odd.contains(c) {
            let k = choose|k: int| 0 <= k < odd.len() && odd[k] == c;
            if k < 9 {
                assert(set[k] == c);
            }
        }
        if set.contains(c) {
            let k = choose|k: int| 0 <= k < set.len() && set[k] == c;
            assert(odd[k] == c);
        }
    }
    lemma_letters_of_joined(parts, '/');
    if is_safe_path(s) {
        assert forall|i: int| 0 <= i < parts.len() implies is_good_part(#[trigger] parts[i]) by {
            let part = parts[i];
            assert(is_safe_part(pieces(s, '/')[i]));
            law_reserved_names(pieces(part, '.')[0]);
            assert forall|k: int| 0 <= k < part.len() implies !odd.contains(#[trigger] part[k])
                && part[k] as u32 >= 32 && !(127 <= part[k] as u32 <= 159) by {
                assert(s.contains(part[k]));
                let m = choose|m: int| 0 <= m < s.len() && s[m] == part[k];
                assert(!set.contains(s[m]));
                assert(!is_control(s[m]));
                assert(!part.contains('/'));
                assert(part.contains(part[k]));
            }
        }
    }
    if forall|i: int| 0 <= i < parts.len() ==> is_good_part(#[trigger] parts[i]) {
        assert forall|i: int| 0 <= i < pieces(s, '/').len() implies is_safe_part(
            #[trigger] pieces(s, '/')[i],
        ) by {
            assert(is_good_part(parts[i]));
            law_reserved_names(pieces(parts[i], '.')[0]);
        }
        assert forall|m: int| 0 <= m < s.len() implies !set.contains(#[trigger] s[m]) && !is_control(
            s[m],
        ) by {
            if s[m] == '/' {
                if set.contains('/') {
                    let k = choose|k: int| 0 <= k < set.len() && set[k] == '/';
                    assert(set[k] != '/');
                }
            } else {
                assert(exists|i: int| 0 <= i < parts.len() && #[trigger] parts[i].contains(s[m]));
                let i = choose|i: int| 0 <= i < parts.len() && #[trigger] parts[i].contains(s[m]);
                let k = choose|k: int| 0 <= k < parts[i].len() && parts[i][k] == s[m];
                assert(is_good_part(parts[i]));
                assert(!odd.contains(parts[i][k]));
            }
        }
        assert(is_good_part(parts[0]));
        assert(s.contains(parts[0][0]));
    }
}

proof fn lemma_letters_of_joined(parts: Seq<Seq<char>>, separator: char)
    ensures
        forall|i: int, k: int|
            0 <= i < parts.len() && 0 <= k < parts[i].len() ==> joined(
                parts,
                seq![separator],
            ).contains(#[trigger] parts[i][k]),
        forall|m: int|
            0 <= m < joined(parts, seq![separator]).len() ==> (#[trigger] joined(
                parts,
                seq![separator],
            )[m]) == separator || exists|i: int|
                0 <= i < parts.len() && #[trigger] parts[i].contains(
                    joined(parts, seq![separator])[m],
                ),
    decreases parts.len(),
{
    if parts.len() > 0 {
        let front = parts.drop_last();
        lemma_letters_of_joined(front, separator);
        let s = joined(parts, seq![separator]);
        let t = joined(front, seq![separator]);
        let last = parts.last();
        let start: int = if parts.len() == 1 {
            0
        } else {
            t.len() as int + 1
        };
        assert forall|i: int, k: int| 0 <= i < parts.len() && 0 <= k < parts[i].len() implies s.contains(
            #[trigger] parts[i][k],
        ) by {
            if i < front.len() {
                assert(front[i][k] == parts[i][k]);
                let m = choose|m: int| 0 <= m < t.len() && t[m] == parts[i][k];
                assert(s[m] == t[m]);
            } else {
                assert(s[start + k] == last[k]);
            }
        }
        assert forall|m: int| 0 <= m < s.len() implies (#[trigger] s[m]) == separator || exists|i: int|
            0 <= i < parts.len() && #[trigger] parts[i].contains(s[m]) by {
            if m >= start {
                assert(last[m - start] == s[m]);
                assert(parts[parts.len() - 1].contains(s[m]));
            } else if parts.len() > 1 && m < t.len() {
                assert(t[m] == s[m]);
                if t[m] != separator {
                    let i = choose|i: int| 0 <= i < front.len() && #[trigger] front[i].contains(t[m]);
                    assert(parts[i].contains(s[m]));
                }
            }
        }
    }
}

/// What a manifest says of one file is in order.
pub open spec fn is_right_file(file: ManagedFile, build: &Build) -> bool {
    &&& is_safe_path(file.path@)
    &&& "DivineKnockout/"@.is_prefix_of(file.path@)
    &&& file.size >= 1
    &&& file.sha256@.len() == 64
    &&& forall|i: int|
        0 <= i < 64 ==> "0123456789abcdefABCDEF"@.contains(#[trigger] file.sha256@[i])
    &&& file.download_path@ == build.value(Setting::GameFilesPrefix) + file.sha256@
}

/// No two files of a list share a place, and none stands where another needs a directory,
/// on a system that disregards case.
pub open spec fn stay_apart(files: Seq<ManagedFile>) -> bool {
    forall|i: int, j: int|
        0 <= i < files.len() && 0 <= j < files.len() && i != j ==> lowercase(
            #[trigger] files[i].path@,
        ) != lowercase(#[trigger] files[j].path@) && !lowercase(files[j].path@).push(
            '/',
        ).is_prefix_of(lowercase(files[i].path@))
}

/// The file is the game's executable.
pub open spec fn is_the_executable(file: ManagedFile, build: &Build) -> bool {
    file.path@ == "DivineKnockout/Binaries/Win64/"@ + build.value(Setting::GameExecutableName)
}

/// A manifest is accepted exactly when it is for the supported build, has a version, and
/// lists files that are all in order, stay apart, hold together a 64 bit number of bytes,
/// and hold the game's executable.
pub proof fn law_right_manifests_are_accepted(manifest: GameManifest, build: &Build)
    ensures
        manifest.fault(build) is None <==> {
            let files = manifest.managed_files@;
            &&& manifest.schema == 2
            &&& manifest.target_build@ == build.value(Setting::TargetBuild)
            &&& manifest.target_exe_sha256@ == build.value(Setting::TargetExeSha256)
            &&& manifest.target_pak_sha256@ == build.value(Setting::TargetPakSha256)
            &&& manifest.version@.len() > 0
            &&& forall|i: int|
                0 <= i < files.len() ==> is_right_file(#[trigger] files[i], build)
            &&& stay_apart(files)
            &&& total_size(files) <= 0xffff_ffff_ffff_ffff
            &&& exists|i: int|
                0 <= i < files.len() && is_the_executable(#[trigger] files[i], build)
        },
{
    let files = manifest.managed_files@;
    lemma_right_lists(files, build);
    if manifest.fault(build) is None {
        assert(stay_apart(files)) by {
            assert forall|i: int, j: int|
                0 <= i < files.len() && 0 <= j < files.len() && i != j implies lowercase(
                #[trigger] files[i].path@,
            ) != lowercase(#[trigger] files[j].path@) && !lowercase(files[j].path@).push(
                '/',
            ).is_prefix_of(lowercase(files[i].path@)) by {
                crate::game_manifest::law_accepted_files_stay_apart(manifest, build, i, j);
            }
        }
        let i = choose|i: int| 0 <= i < files.len() && is_executable(#[trigger] files[i], build);
        assert(is_the_executable(files[i], build));
    }
    if manifest.schema == 2 && manifest.target_build@ == build.value(Setting::TargetBuild)
        && manifest.target_exe_sha256@ == build.value(Setting::TargetExeSha256)
        && manifest.target_pak_sha256@ == build.value(Setting::TargetPakSha256)
        && manifest.version@.len() > 0 && (forall|i: int|
        0 <= i < files.len() ==> is_right_file(#[trigger] files[i], build)) && stay_apart(files)
        && total_size(files) <= 0xffff_ffff_ffff_ffff && (exists|i: int|
        0 <= i < files.len() && is_the_executable(#[trigger] files[i], build)) {
        assert(list_fault(files, build) is None) by {
            assert forall|i: int, j: int|
                0 <= i < j < files.len() implies !same_place(
                #[trigger] files[i],
                #[trigger] files[j],
            ) by {
                assert(lowercase(files[i].path@) != lowercase(files[j].path@));
            }
        }
        assert(!overlaps(files)) by {
            if overlaps(files) {
                let (i, j) = choose|i: int, j: int|
                    0 <= i < files.len() && 0 <= j < files.len() && lies_below(
                        #[trigger] files[i],
                        #[trigger] files[j],
                    );
                if i == j {
                    let low = lowercase(files[i].path@);
                    assert(low.push('/').len() > low.len());
                } else {
                    assert(!lowercase(files[j].path@).push('/').is_prefix_of(
                        lowercase(files[i].path@),
                    ));
                }
            }
        }
        let i = choose|i: int| 0 <= i < files.len() && is_the_executable(#[trigger] files[i], build);
        assert(is_executable(files[i], build));
        crate::game_manifest::law_accepted_list_has_at_most_one_executable(files, build);
    }
}

proof fn lemma_right_lists(files: Seq<ManagedFile>, build: &Build)
    ensures
        list_fault(files, build) is None <==> {
            &&& forall|i: int| 0 <= i < files.len() ==> is_right_file(#[trigger] files[i], build)
            &&& forall|i: int, j: int|
                0 <= i < j < files.len() ==> !same_place(#[trigger] files[i], #[trigger] files[j])
            &&& total_size(files) <= u64::MAX
        },
    decreases files.len(),
{
    if files.len() > 0 {
        let front = files.drop_last();
        let n = files.len() - 1;
        lemma_right_lists(front, build);
        law_digest_is_64_hexadecimal_digits(files[n].sha256@);
        assert(total_size(front) <= total_size(files));
        assert(is_right_file(files[n], build) && !(exists|i: int|
            0 <= i < front.len() && same_place(#[trigger] front[i], files[n])) <==> file_fault(
            front,
            files[n],
            build,
        ) is None);
        if list_fault(files, build) is None {
            assert forall|i: int| 0 <= i < files.len() implies is_right_file(
                #[trigger] files[i],
                build,
            ) by {
                if i < n {
                    assert(is_right_file(front[i], build));
                }
            }
            assert forall|i: int, j: int| 0 <= i < j < files.len() implies !same_place(
                #[trigger] files[i],
                #[trigger] files[j],
            ) by {
                if j < n {
                    assert(!same_place(front[i], front[j]));
                } else {
                    assert(front[i] == files[i]);
                }
            }
        }
        if (forall|i: int| 0 <= i < files.len() ==> is_right_file(#[trigger] files[i], build)) && (
        forall|i: int, j: int|
            0 <= i < j < files.len() ==> !same_place(#[trigger] files[i], #[trigger] files[j]))
            && total_size(files) <= u64::MAX {
            assert forall|i: int| 0 <= i < front.len() implies is_right_file(
                #[trigger] front[i],
                build,
            ) by {
                assert(is_right_file(files[i], build));
            }
            assert forall|i: int, j: int| 0 <= i < j < front.len() implies !same_place(
                #[trigger] front[i],
                #[trigger] front[j],
            ) by {
                assert(!same_place(files[i], files[j]));
            }
            assert(is_right_file(files[n], build));
            assert forall|i: int| 0 <= i < front.len() implies !same_place(
                #[trigger] front[i],
                files[n],
            ) by {
                assert(!same_place(files[i], files[n]));
            }
        }
    }
}

/// The size of a list is the sum of the sizes of its files.
pub proof fn law_sizes_add_up(files: Seq<ManagedFile>, file: ManagedFile)
    ensures
        total_size(files.push(file)) == total_size(files) + file.size,
        total_size(Seq::empty()) == 0,
{
    assert(files.push(file).drop_last() =~= files);
}

/// A manifest is accepted whatever digests its files have: changing the digest of a file,
/// and its download path with it, to that of any 32 bytes, leaves it right.
pub proof fn law_any_digest_will_do(
    file: ManagedFile,
    other: ManagedFile,
    build: &Build,
    bytes: Seq<u8>,
)
    requires
        is_right_file(file, build),
        bytes.len() == 32,
        other.path@ == file.path@,
        other.size == file.size,
        other.sha256@ == crate::digest::hex_of(bytes),
        other.download_path@ == build.value(Setting::GameFilesPrefix) + crate::digest::hex_of(bytes),
    ensures
        is_right_file(other, build),
        file_fault(Seq::empty(), other, build) is None,
{
    crate::laws::text::law_every_digest_is_accepted(bytes);
    law_digest_is_64_hexadecimal_digits(other.sha256@);
}

/// A launcher manifest is accepted exactly when it is for the supported build and lists
/// launchers for the two platforms alone, each of which can be checked.
pub proof fn law_right_launcher_manifests_are_accepted(manifest: LauncherManifest, build: &Build)
    ensures
        manifest.fault(build) is None <==> {
            &&& manifest.schema == 1
            &&& manifest.target_build@ == build.value(Setting::TargetBuild)
            &&& manifest.target_exe_sha256@ == build.value(Setting::TargetExeSha256)
            &&& manifest.target_pak_sha256@ == build.value(Setting::TargetPakSha256)
            &&& manifest.launchers@.len() >= 1
            &&& forall|i: int|
                0 <= i < manifest.launchers@.len() ==> {
                    let launcher = #[trigger] manifest.launchers@[i];
                    &&& launcher.platform@ == "windows-x86_64"@ || launcher.platform@
                        == "linux-x86_64"@
                    &&& launcher.size >= 1
                    &&& launcher.sha256@.len() == 64
                    &&& forall|k: int|
                        0 <= k < 64 ==> "0123456789abcdefABCDEF"@.contains(
                            #[trigger] launcher.sha256@[k],
                        )
                }
        },
{
    assert forall|i: int| 0 <= i < manifest.launchers@.len() implies ((
    #[trigger] manifest.launchers@[i]).is_sound() <==> {
        let launcher = manifest.launchers@[i];
        &&& launcher.platform@ == "windows-x86_64"@ || launcher.platform@ == "linux-x86_64"@
        &&& launcher.size >= 1
        &&& launcher.sha256@.len() == 64
        &&& forall|k: int|
            0 <= k < 64 ==> "0123456789abcdefABCDEF"@.contains(#[trigger] launcher.sha256@[k])
    }) by {
        law_digest_is_64_hexadecimal_digits(manifest.launchers@[i].sha256@);
    }
}

} // verus!
