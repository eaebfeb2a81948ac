//! The settings that a launcher is built with.
use crate::digest::hex_of;
use crate::laws::manifest::{lemma_joined_parts, lemma_pieces_of_both_sides};
use crate::laws::text::{
    all_spaces, law_only_white_space_is_trimmed, law_text_is_split_at_the_first_separator,
};
use crate::settings::{
    configure, configured, entries_of, entry_views, is_version_part, lookup, packed, Build,
    BuildError, Setting,
};
use crate::text::{
    decimal_text, has_control, is_control, is_digest, is_digit, is_space, joined,
    law_decimal_round_trip, lowercase, meets, pieces,
};
use vstd::prelude::*;

verus! {

/// No character of the text is a control code or one of `others`.
pub open spec fn is_clean(s: Seq<char>, others: Seq<char>) -> bool {
    forall|i: int|
        0 <= i < s.len() ==> !is_control(#[trigger] s[i]) && !others.contains(s[i])
}

proof fn lemma_clean(s: Seq<char>, others: Seq<char>)
    ensures
        is_clean(s, others) <==> !has_control(s) && !meets(s, others),
{
    if is_clean(s, others) {
        assert(!has_control(s));
        assert(!meets(s, others));
    }
    if !has_control(s) && !meets(s, others) {
        assert forall|i: int| 0 <= i < s.len() implies !is_control(#[trigger] s[i])
            && !others.contains(s[i]) by {}
    }
}

/// Whatever digest the supported game has, a launcher can be built for it, and it works
/// with the lower case of what was written.
pub proof fn law_any_supported_digest_can_be_set(setting: Setting, bytes: Seq<u8>, value: Seq<char>)
    requires
        setting == Setting::TargetExeSha256 || setting == Setting::TargetPakSha256,
        bytes.len() == 32,
        lowercase(value) == hex_of(bytes),
        is_digest(value),
    ensures
        setting.outcome(value) == Ok::<Seq<char>, BuildError>(hex_of(bytes)),
{
    assert forall|i: int| 0 <= i < value.len() implies !is_control(#[trigger] value[i]) by {
        assert(crate::text::is_hex_digit(value[i]));
    }
    assert(!has_control(value));
}

/// Nothing but a digest can be set as one.
pub proof fn law_only_digests_are_set(setting: Setting, value: Seq<char>)
    requires
        setting == Setting::TargetExeSha256 || setting == Setting::TargetPakSha256,
        !is_digest(value),
    ensures
        setting.outcome(value) == Err::<Seq<char>, BuildError>(BuildError::Invalid { setting }),
{
}

/// Numbers between dots.
pub open spec fn version_text(numbers: Seq<int>) -> Seq<char> {
    joined(Seq::new(numbers.len(), |i: int| decimal_text(numbers[i])), seq!['.'])
}

proof fn lemma_version_text(numbers: Seq<int>)
    requires
        numbers.len() > 0,
        forall|i: int| 0 <= i < numbers.len() ==> 0 <= #[trigger] numbers[i],
    ensures
        pieces(version_text(numbers), '.') == Seq::new(
            numbers.len(),
            |i: int| decimal_text(numbers[i]),
        ),
        version_text(numbers).len() > 0,
        !has_control(version_text(numbers)),
    decreases numbers.len(),
{
    let parts = Seq::new(numbers.len(), |i: int| decimal_text(numbers[i]));
    assert forall|i: int| 0 <= i < parts.len() implies !(#[trigger] parts[i]).contains('.') by {
        law_decimal_round_trip(numbers[i]);
    }
    lemma_joined_parts(parts, '.');
    let s = version_text(numbers);
    law_decimal_round_trip(numbers.last());
    let last = decimal_text(numbers.last());
    if numbers.len() == 1 {
        assert(s =~= last);
        assert forall|i: int| 0 <= i < s.len() implies !is_control(#[trigger] s[i]) by {
            assert(is_digit(last[i]));
        }
    } else {
        let front = numbers.drop_last();
        lemma_version_text(front);
        assert(parts.drop_last() =~= Seq::new(front.len(), |i: int| decimal_text(front[i])));
        assert(s =~= version_text(front) + seq!['.'] + last);
        let n = version_text(front).len() as int;
        assert forall|i: int| 0 <= i < s.len() implies !is_control(#[trigger] s[i]) by {
            if i < n {
                assert(s[i] == version_text(front)[i]);
            } else if i > n {
                assert(s[i] == last[i - n - 1]);
                assert(is_digit(last[i - n - 1]));
            }
        }
    }
}

/// The build of the game is four numbers of 16 bits, and the version of the launcher is
/// three of them.
pub proof fn law_versions_are_numbers(numbers: Seq<int>)
    requires
        numbers.len() > 0,
        forall|i: int| 0 <= i < numbers.len() ==> 0 <= #[trigger] numbers[i],
    ensures
        Setting::TargetBuild.outcome(version_text(numbers)) == (if numbers.len() == 4 && numbers[0]
            < 65536 && numbers[1] < 65536 && numbers[2] < 65536 && numbers[3] < 65536 {
            Ok::<Seq<char>, BuildError>(version_text(numbers))
        } else {
            Err::<Seq<char>, BuildError>(BuildError::Invalid { setting: Setting::TargetBuild })
        }),
        Setting::LauncherVersion.outcome(version_text(numbers)) == (if numbers.len() == 3
            && numbers[0] < 65536 && numbers[1] < 65536 && numbers[2] < 65536 {
            Ok::<Seq<char>, BuildError>(version_text(numbers))
        } else {
            Err::<Seq<char>, BuildError>(BuildError::Invalid { setting: Setting::LauncherVersion })
        }),
{
    lemma_version_text(numbers);
    let parts = pieces(version_text(numbers), '.');
    assert forall|i: int| 0 <= i < numbers.len() implies is_version_part(#[trigger] parts[i])
        == (numbers[i] < 65536) by {
        law_decimal_round_trip(numbers[i]);
    }
    if numbers.len() == 4 {
        assert(is_version_part(parts[0]) == (numbers[0] < 65536));
        assert(is_version_part(parts[1]) == (numbers[1] < 65536));
        assert(is_version_part(parts[2]) == (numbers[2] < 65536));
        assert(is_version_part(parts[3]) == (numbers[3] < 65536));
    } else if numbers.len() == 3 {
        assert(is_version_part(parts[0]) == (numbers[0] < 65536));
        assert(is_version_part(parts[1]) == (numbers[1] < 65536));
        assert(is_version_part(parts[2]) == (numbers[2] < 65536));
    }
}

/// The file properties hold the launcher's version in their upper 48 bits, the first
/// number uppermost.
pub proof fn law_file_properties_hold_the_version(major: int, minor: int, patch: int)
    requires
        0 <= major < 65536,
        0 <= minor < 65536,
        0 <= patch < 65536,
    ensures
        packed(pieces(version_text(seq![major, minor, patch]), '.')) == major * 0x1_0000_0000_0000
            + minor * 0x1_0000_0000 + patch * 0x1_0000,
{
    let numbers = seq![major, minor, patch];
    lemma_version_text(numbers);
    let parts = pieces(version_text(numbers), '.');
    law_decimal_round_trip(major);
    law_decimal_round_trip(minor);
    law_decimal_round_trip(patch);
    assert(parts[0] == decimal_text(major) && parts[1] == decimal_text(minor) && parts[2]
        == decimal_text(patch));
    let two = parts.drop_last();
    let one = two.drop_last();
    assert(one.drop_last() =~= Seq::empty());
    assert(packed(one.drop_last()) == 0);
    assert(packed(one) == major * 65536);
    assert(packed(two) == (major * 65536 + minor) * 65536);
}

/// A directory or a file is named without separators. The game's own directory starts
/// with its name, and its executable ends as executables do.
pub proof fn law_names_are_single(value: Seq<char>)
    requires
        value.len() > 0,
    ensures
        ({
            let name = is_clean(value, seq!['/', '\\', ':']);
            let dots = value == seq!['.'] || value == seq!['.', '.'];
            let game = value.len() >= 14 && value.take(14) == "DivineKnockout"@;
            let program = value.len() >= 4 && value.skip(value.len() - 4) == seq!['.', 'e', 'x', 'e'];
            &&& Setting::RuntimeDirectory.outcome(value) == (if name && !dots {
                Ok::<Seq<char>, BuildError>(value)
            } else {
                Err::<Seq<char>, BuildError>(
                    BuildError::Invalid { setting: Setting::RuntimeDirectory },
                )
            })
            &&& Setting::GameHomedir.outcome(value) == (if name && game {
                Ok::<Seq<char>, BuildError>(value)
            } else {
                Err::<Seq<char>, BuildError>(BuildError::Invalid { setting: Setting::GameHomedir })
            })
            &&& Setting::GameExecutableName.outcome(value) == (if name && program {
                Ok::<Seq<char>, BuildError>(value)
            } else {
                Err::<Seq<char>, BuildError>(
                    BuildError::Invalid { setting: Setting::GameExecutableName },
                )
            })
        }),
{
    reveal_strlit("DivineKnockout");
    reveal_strlit(".exe");
    reveal_strlit(".");
    reveal_strlit("..");
    assert("."@ =~= seq!['.']);
    assert(".."@ =~= seq!['.', '.']);
    assert(".exe"@ =~= seq!['.', 'e', 'x', 'e']);
    lemma_clean(value, seq!['/', '\\', ':']);
    let game = "DivineKnockout"@;
    if value.len() >= 14 {
        assert(value.take(14) =~= value.subrange(0, 14));
    }
    assert(seq!['.'].len() == 1 && seq!['.', '.'].len() == 2);
}

/// A path on the server starts with one slash. Nothing in it can be read in two ways:
/// no query, no fragment, no escapes, no port and no step upwards.
pub proof fn law_paths_on_the_server(setting: Setting, parts: Seq<Seq<char>>)
    requires
        setting == Setting::GameManifestPath || setting == Setting::LauncherManifestPath || setting
            == Setting::LaunchAckPath || setting == Setting::LaunchStatusPath || setting
            == Setting::TransportPath || setting == Setting::GameFilesPrefix || setting
            == Setting::LauncherFilesPrefix || setting == Setting::LaunchPrefix,
        parts.len() > 0,
        forall|i: int| 0 <= i < parts.len() ==> !(#[trigger] parts[i]).contains('/'),
    ensures
        ({
            let value = seq!['/'] + joined(parts, seq!['/']);
            let clean = is_clean(value, seq!['?', '#', '\\', '%', ':']);
            let doubled = parts.len() > 1 && parts[0].len() == 0;
            let steps = exists|i: int|
                0 <= i < parts.len() && (#[trigger] parts[i] == seq!['.'] || parts[i]
                    == seq!['.', '.']);
            let is_prefix = setting == Setting::GameFilesPrefix || setting
                == Setting::LauncherFilesPrefix || setting == Setting::LaunchPrefix;
            &&& setting.outcome(value) == (if !clean || doubled || steps {
                Err::<Seq<char>, BuildError>(BuildError::Invalid { setting })
            } else if is_prefix && parts.last().len() > 0 {
                Err::<Seq<char>, BuildError>(BuildError::OpenPrefix { setting })
            } else {
                Ok::<Seq<char>, BuildError>(value)
            })
            &&& parts[0].len() > 0 && !doubled ==> setting.outcome(joined(parts, seq!['/'])) is Err
        }),
{
    reveal_strlit(".");
    reveal_strlit("..");
    assert("."@ =~= seq!['.']);
    assert(".."@ =~= seq!['.', '.']);
    let rest = joined(parts, seq!['/']);
    let value = seq!['/'] + rest;
    let others = seq!['?', '#', '\\', '%', ':'];
    lemma_clean(value, others);
    lemma_joined_parts(parts, '/');
    let empty = Seq::<char>::empty();
    assert(pieces(empty, '/') =~= seq![empty]);
    lemma_pieces_of_both_sides(empty, rest, '/');
    assert(empty + seq!['/'] + rest =~= value);
    let all = pieces(value, '/');
    assert(all == seq![empty] + parts);
    assert(seq!['/'].is_prefix_of(value)) by {
        assert(value.subrange(0, 1) =~= seq!['/']);
    }
    assert(empty != seq!['.'] && empty != seq!['.', '.']) by {
        assert(empty.len() == 0 && seq!['.'].len() == 1 && seq!['.', '.'].len() == 2);
    }
    let steps = exists|i: int|
        0 <= i < parts.len() && (#[trigger] parts[i] == seq!['.'] || parts[i] == seq!['.', '.']);
    assert(steps <==> !(forall|i: int|
        0 <= i < all.len() ==> #[trigger] all[i] != seq!['.'] && all[i] != seq!['.', '.'])) by {
        if steps {
            let i = choose|i: int|
                0 <= i < parts.len() && (#[trigger] parts[i] == seq!['.'] || parts[i]
                    == seq!['.', '.']);
            assert(all[i + 1] == parts[i]);
        } else {
            assert forall|i: int| 0 <= i < all.len() implies #[trigger] all[i] != seq!['.']
                && all[i] != seq!['.', '.'] by {
                if i > 0 {
                    assert(all[i] == parts[i - 1]);
                }
            }
        }
    }
    lemma_start_of_joined(parts);
    let doubled = parts.len() > 1 && parts[0].len() == 0;
    assert(seq!['/', '/'].is_prefix_of(value) <==> doubled) by {
        if doubled {
            assert(value.subrange(0, 2) =~= seq!['/', '/']);
        }
        if seq!['/', '/'].is_prefix_of(value) {
            assert(value.subrange(0, 2)[1] == '/');
            assert(rest[0] == '/');
        }
    }
    lemma_end_of_joined(parts);
    if parts.last().len() > 0 {
        assert(parts.last().last() != '/') by {
            assert(!parts[parts.len() - 1].contains('/'));
        }
        assert(value.last() == rest.last());
    } else {
        assert(value.last() == '/');
    }
    if parts[0].len() > 0 {
        assert(!parts[0].contains('/'));
        assert(rest[0] != '/');
        assert(!seq!['/'].is_prefix_of(rest)) by {
            if seq!['/'].is_prefix_of(rest) {
                assert(rest.subrange(0, 1)[0] == '/');
            }
        }
    }
}

proof fn lemma_start_of_joined(parts: Seq<Seq<char>>)
    requires
        parts.len() > 0,
    ensures
        joined(parts, seq!['/']).len() >= parts[0].len(),
        joined(parts, seq!['/']).take(parts[0].len() as int) == parts[0],
        parts.len() > 1 ==> joined(parts, seq!['/']).len() > parts[0].len() && joined(
            parts,
            seq!['/'],
        )[parts[0].len() as int] == '/',
        parts[0].len() > 0 ==> joined(parts, seq!['/'])[0] == parts[0][0],
        parts.len() == 1 ==> joined(parts, seq!['/']) == parts[0],
    decreases parts.len(),
{
    if parts.len() > 1 {
        let front = parts.drop_last();
        lemma_start_of_joined(front);
        assert(front[0] == parts[0]);
        let s = joined(parts, seq!['/']);
        assert(s =~= joined(front, seq!['/']) + seq!['/'] + parts.last());
        assert(s.take(parts[0].len() as int) =~= parts[0]) by {
            assert forall|i: int| 0 <= i < parts[0].len() implies s[i] == parts[0][i] by {
                assert(joined(front, seq!['/']).take(parts[0].len() as int)[i] == parts[0][i]);
            }
        }
    } else {
        assert(joined(parts, seq!['/']) =~= parts[0]);
    }
}

proof fn lemma_end_of_joined(parts: Seq<Seq<char>>)
    requires
        parts.len() > 0,
    ensures
        parts.last().len() > 0 ==> joined(parts, seq!['/']).len() > 0 && joined(
            parts,
            seq!['/'],
        ).last() == parts.last().last(),
        parts.last().len() == 0 && parts.len() > 1 ==> joined(parts, seq!['/']).len() > 0
            && joined(parts, seq!['/']).last() == '/',
        parts.last().len() == 0 && parts.len() == 1 ==> joined(parts, seq!['/']).len() == 0,
{
    if parts.len() > 1 {
        assert(joined(parts, seq!['/']) =~= joined(parts.drop_last(), seq!['/']) + seq!['/']
            + parts.last());
    } else {
        assert(joined(parts, seq!['/']) =~= parts[0]);
    }
}

/// Every setting has a variable of its own, and a place of its own in the list.
pub proof fn law_settings_are_told_apart(a: Setting, b: Setting)
    ensures
        a != b ==> a.index() != b.index(),
        0 <= a.index() < 15,
        a != b ==> a.key() != b.key(),
        a.key().len() > 9 && a.key().take(9) == seq!['K', 'N', 'O', 'C', 'K', 'O', 'U', 'T', '_'],
{
    lemma_key(a);
    lemma_key(b);
    if a != b {
        assert(a.key().len() != b.key().len() || a.key()[9] != b.key()[9] || a.key()[14]
            != b.key()[14] || a.key()[16] != b.key()[16] || a.key()[18] != b.key()[18]);
    }
}

proof fn lemma_key(a: Setting)
    ensures
        a.key().len() > 18,
        a.key().take(9) == seq!['K', 'N', 'O', 'C', 'K', 'O', 'U', 'T', '_'],
        ({
            let k = a.key();
            match a {
                Setting::GameManifestPath => k.len() == 27 && k[9] == 'G' && k[14] == 'M',
                Setting::GameFilesPrefix => k.len() == 26 && k[9] == 'G' && k[14] == 'F',
                Setting::GameExecutableName => k.len() == 29 && k[9] == 'G' && k[14] == 'E',
                Setting::LauncherManifestPath => k.len() == 31,
                Setting::LauncherFilesPrefix => k.len() == 30,
                Setting::LaunchPrefix => k.len() == 22 && k[9] == 'L',
                Setting::LaunchAckPath => k.len() == 24 && k[9] == 'L',
                Setting::LaunchStatusPath => k.len() == 27 && k[9] == 'L',
                Setting::TransportPath => k.len() == 23,
                Setting::GameHomedir => k.len() == 21 && k[9] == 'G',
                Setting::RuntimeDirectory => k.len() == 26 && k[9] == 'R',
                Setting::TargetBuild => k.len() == 21 && k[9] == 'T',
                Setting::TargetExeSha256 => k.len() == 26 && k[9] == 'T' && k[16] == 'E',
                Setting::TargetPakSha256 => k.len() == 26 && k[9] == 'T' && k[16] == 'P',
                Setting::LauncherVersion => k.len() == 25,
            }
        }),
{
    reveal_strlit("KNOCKOUT_GAME_MANIFEST_PATH");
    reveal_strlit("KNOCKOUT_GAME_FILES_PREFIX");
    reveal_strlit("KNOCKOUT_GAME_EXECUTABLE_NAME");
    reveal_strlit("KNOCKOUT_LAUNCHER_MANIFEST_PATH");
    reveal_strlit("KNOCKOUT_LAUNCHER_FILES_PREFIX");
    reveal_strlit("KNOCKOUT_LAUNCH_PREFIX");
    reveal_strlit("KNOCKOUT_LAUNCH_ACK_PATH");
    reveal_strlit("KNOCKOUT_LAUNCH_STATUS_PATH");
    reveal_strlit("KNOCKOUT_TRANSPORT_PATH");
    reveal_strlit("KNOCKOUT_GAME_HOMEDIR");
    reveal_strlit("KNOCKOUT_RUNTIME_DIRECTORY");
    reveal_strlit("KNOCKOUT_TARGET_BUILD");
    reveal_strlit("KNOCKOUT_TARGET_EXE_SHA256");
    reveal_strlit("KNOCKOUT_TARGET_PAK_SHA256");
    reveal_strlit("KNOCKOUT_LAUNCHER_VERSION");
    assert(a.key().take(9) =~= seq!['K', 'N', 'O', 'C', 'K', 'O', 'U', 'T', '_']);
}

/// A launcher is configured when every setting is, and then has those values. The
/// environment comes before the local file.
pub proof fn law_configuring(
    environment: &Vec<Option<String>>,
    local: &Vec<(Vec<char>, Vec<char>)>,
    setting: Setting,
    r: Result<Build, BuildError>,
)
    requires
        call_ensures(configure, (environment, local), r),
        environment@.len() == 15,
    ensures
        r is Ok && environment@[setting.index()] is Some ==> setting.outcome(
            environment@[setting.index()]->0@,
        ) == Ok::<Seq<char>, BuildError>(r->Ok_0.value(setting)),
        r is Ok && environment@[setting.index()] is None ==> lookup(
            entry_views(local@),
            setting.key(),
        ) is Some && setting.outcome(lookup(entry_views(local@), setting.key())->0) == Ok::<
            Seq<char>,
            BuildError,
        >(r->Ok_0.value(setting)),
        environment@[setting.index()] is Some && setting.outcome(
            environment@[setting.index()]->0@,
        ) is Err ==> r is Err,
        environment@[setting.index()] is None && lookup(entry_views(local@), setting.key()) is None
            ==> r is Err,
{
    let input = (environment, local);
    if r is Ok {
        let value = r->Ok_0.value(setting);
        assert(configured(input.0@, entry_views(input.1@), setting) == Ok::<Seq<char>, BuildError>(
            value,
        ));
    }
}

/// The environment comes before the local file, whatever the file says.
pub proof fn law_environment_comes_first(
    environment: Seq<Option<String>>,
    local: Seq<(Seq<char>, Seq<char>)>,
    setting: Setting,
)
    requires
        environment.len() == 15,
    ensures
        environment[setting.index()] is Some ==> configured(environment, local, setting)
            == setting.outcome(environment[setting.index()]->0@),
        environment[setting.index()] is None ==> forall|i: int|
            0 <= i < local.len() && (#[trigger] local[i]).0 == setting.key() && (forall|j: int|
                0 <= j < local.len() && (#[trigger] local[j]).0 == setting.key() ==> j == i)
                ==> configured(environment, local, setting) == setting.outcome(local[i].1),
        environment[setting.index()] is None && (forall|j: int|
            0 <= j < local.len() ==> (#[trigger] local[j]).0 != setting.key()) ==> configured(
            environment,
            local,
            setting,
        ) == Err::<Seq<char>, BuildError>(BuildError::Missing { setting }),
{
    lemma_lookup(local, setting.key());
}

proof fn lemma_lookup(entries: Seq<(Seq<char>, Seq<char>)>, key: Seq<char>)
    ensures
        lookup(entries, key) is Some <==> exists|i: int|
            0 <= i < entries.len() && (#[trigger] entries[i]).0 == key,
        lookup(entries, key) is Some ==> exists|i: int|
            0 <= i < entries.len() && (#[trigger] entries[i]).0 == key && lookup(entries, key)
                == Some(entries[i].1),
    decreases entries.len(),
{
    if entries.len() > 0 {
        let front = entries.drop_last();
        lemma_lookup(front, key);
        if entries.last().0 == key {
            assert(entries[entries.len() - 1].0 == key);
        } else if lookup(front, key) is Some {
            let i = choose|i: int|
                0 <= i < front.len() && (#[trigger] front[i]).0 == key && lookup(front, key)
                    == Some(front[i].1);
            assert(entries[i] == front[i]);
        } else {
            assert forall|i: int| 0 <= i < entries.len() implies (#[trigger] entries[i]).0
                != key by {
                if i < front.len() {
                    assert(front[i] == entries[i]);
                }
            }
        }
    }
}

/// One more line of the local file: `KEY=value` sets the key, whatever white space
/// stands around the two; the value may hold further equals signs.
pub proof fn law_local_file_is_read(
    lines: Seq<Seq<char>>,
    spaces: Seq<Seq<char>>,
    key: Seq<char>,
    value: Seq<char>,
)
    requires
        entries_of(lines) is Ok,
        spaces.len() == 4,
        forall|i: int| 0 <= i < spaces.len() ==> all_spaces(#[trigger] spaces[i]),
        key.len() > 0,
        !key.contains('='),
        key[0] != '#',
        !is_space(key[0]) && !is_space(key.last()),
        value.len() > 0,
        !is_space(value[0]) && !is_space(value.last()),
    ensures
        ({
            let line = spaces[0] + key + spaces[1] + seq!['='] + spaces[2] + value + spaces[3];
            let before = entries_of(lines)->Ok_0;
            entries_of(lines.push(line)) == (if exists|i: int|
                0 <= i < before.len() && (#[trigger] before[i]).0 == key {
                Err::<Seq<(Seq<char>, Seq<char>)>, BuildError>(BuildError::DuplicateKey)
            } else {
                Ok::<Seq<(Seq<char>, Seq<char>)>, BuildError>(before.push((key, value)))
            })
        }),
{
    let line = spaces[0] + key + spaces[1] + seq!['='] + spaces[2] + value + spaces[3];
    let before = entries_of(lines)->Ok_0;
    let inner = key + spaces[1] + seq!['='] + spaces[2] + value;
    assert(all_spaces(spaces[0]) && all_spaces(spaces[1]) && all_spaces(spaces[2]) && all_spaces(
        spaces[3],
    ));
    assert(line =~= spaces[0] + inner + spaces[3]);
    assert(inner[0] == key[0] && inner.last() == value.last());
    law_only_white_space_is_trimmed(spaces[0], inner, spaces[3]);
    let left = key + spaces[1];
    let right = spaces[2] + value;
    assert(!left.contains('=')) by {
        assert forall|i: int| 0 <= i < left.len() implies left[i] != '=' by {
            if i < key.len() {
                assert(left[i] == key[i]);
                assert(key.contains(key[i]));
            } else {
                assert(left[i] == spaces[1][i - key.len()]);
                assert(is_space(spaces[1][i - key.len()]));
            }
        }
    }
    assert(inner =~= left + seq!['='] + right);
    law_text_is_split_at_the_first_separator(left, right, '=');
    let none = Seq::<char>::empty();
    law_only_white_space_is_trimmed(none, key, spaces[1]);
    assert(none + key + spaces[1] =~= left);
    law_only_white_space_is_trimmed(spaces[2], value, none);
    assert(spaces[2] + value + none =~= right);
    assert(lines.push(line).drop_last() =~= lines);
    lemma_lookup(before, key);
}

/// Blank lines and remarks set nothing, and any other line without an equals sign is
/// refused.
pub proof fn law_other_lines_of_the_local_file(
    lines: Seq<Seq<char>>,
    before: Seq<char>,
    text: Seq<char>,
    after: Seq<char>,
)
    requires
        entries_of(lines) is Ok,
        all_spaces(before),
        all_spaces(after),
        text.len() > 0 ==> !is_space(text[0]) && !is_space(text.last()),
    ensures
        text.len() == 0 || text[0] == '#' ==> entries_of(lines.push(before + text + after))
            == entries_of(lines),
        text.len() > 0 && text[0] != '#' && !text.contains('=') ==> entries_of(
            lines.push(before + text + after),
        ) == Err::<Seq<(Seq<char>, Seq<char>)>, BuildError>(BuildError::Entry),
{
    law_only_white_space_is_trimmed(before, text, after);
    assert(lines.push(before + text + after).drop_last() =~= lines);
    if !text.contains('=') {
        law_text_is_split_at_the_first_separator(text, Seq::empty(), '=');
    }
}

/// The local file cannot be mended by what comes behind a fault.
pub proof fn law_faults_of_the_local_file_stay(lines: Seq<Seq<char>>, line: Seq<char>)
    requires
        entries_of(lines) is Err,
    ensures
        entries_of(lines.push(line)) == entries_of(lines),
{
    assert(lines.push(line).drop_last() =~= lines);
}

} // verus!
