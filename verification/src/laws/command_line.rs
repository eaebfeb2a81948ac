//! The command line of the game, and the arguments that a player may add to it.
use crate::arguments::{
    announces_password, argument_fault, holds_password, is_allowed, is_blocked, option_name,
    passwordless, total_bytes, undashed, ArgumentError,
};
use crate::process::game::{abslog_argument, fixed_arguments, is_homedir, ProcessInfo};
use crate::settings::{Build, Setting};
use crate::text::{has_control, lowercase, occurs, pieces, trimmed, Letter};
use vstd::prelude::*;

verus! {

/// The whole command line of the game: what the launcher sets, and what the player adds.
pub open spec fn command_line(
    url: Seq<char>,
    homedir: Seq<char>,
    log: Seq<u8>,
    username: Seq<char>,
    extra: Seq<Seq<char>>,
) -> Seq<Seq<char>> {
    fixed_arguments(url, homedir, abslog_argument(log), username) + passwordless(extra)
}

/// What a player adds was accepted.
pub open spec fn are_allowed(extra: Seq<Seq<char>>) -> bool {
    forall|i: int| 0 <= i < extra.len() ==> is_allowed(#[trigger] extra[i])
}

/// The option occurs once, and with this value.
pub open spec fn is_set_once(arguments: Seq<Seq<char>>, option: Seq<char>, value: Seq<char>) -> bool {
    exists|k: int|
        {
            &&& 0 <= k < arguments.len()
            &&& #[trigger] arguments[k] == option + value
            &&& forall|i: int|
                0 <= i < arguments.len() && option.is_prefix_of(#[trigger] arguments[i]) ==> i == k
        }
}

proof fn lemma_allowed_argument_sets_nothing(
    argument: Seq<char>,
    option: Seq<char>,
    blocked: Seq<char>,
)
    requires
        is_allowed(argument),
        blocked.is_prefix_of(lowercase(option)),
        blocked == "-auth_"@ || blocked == "-rallyhereurl"@ || blocked == "-homedir"@ || blocked
            == "-abslog"@ || blocked == "-logcmds"@ || blocked == "-oss"@ || blocked
            == "-hirezenv"@,
    ensures
        !option.is_prefix_of(argument),
{
    if option.is_prefix_of(argument) {
        let name = lowercase(argument);
        assert forall|i: int| 0 <= i < blocked.len() implies blocked[i] == name[i] by {
            assert(lowercase(option)[i] == option[i].lowered());
            assert(option[i] == argument[i]);
            assert(blocked[i] == lowercase(option)[i]);
        }
        assert(blocked =~= name.subrange(0, blocked.len() as int));
        assert(blocked.is_prefix_of(name));
    }
}

proof fn lemma_kept_arguments_were_given(extra: Seq<Seq<char>>, i: int)
    requires
        0 <= i < passwordless(extra).len(),
    ensures
        extra.contains(passwordless(extra)[i]),
{
    crate::arguments::law_no_password_is_left(extra, i);
}

proof fn lemma_set_once(
    fixed: Seq<Seq<char>>,
    extra: Seq<Seq<char>>,
    option: Seq<char>,
    value: Seq<char>,
    blocked: Seq<char>,
    k: int,
)
    requires
        0 <= k < fixed.len(),
        fixed[k] == option + value,
        forall|i: int|
            0 <= i < fixed.len() && i != k ==> !option.is_prefix_of(#[trigger] fixed[i]),
        are_allowed(extra),
        blocked.is_prefix_of(lowercase(option)),
        blocked == "-auth_"@ || blocked == "-rallyhereurl"@ || blocked == "-homedir"@ || blocked
            == "-abslog"@ || blocked == "-logcmds"@ || blocked == "-oss"@ || blocked
            == "-hirezenv"@,
    ensures
        is_set_once(fixed + passwordless(extra), option, value),
{
    let all = fixed + passwordless(extra);
    assert(all[k] == option + value);
    assert forall|i: int| 0 <= i < all.len() && option.is_prefix_of(#[trigger] all[i]) implies i
        == k by {
        if i >= fixed.len() {
            let j = i - fixed.len();
            lemma_kept_arguments_were_given(extra, j);
            let given = passwordless(extra)[j];
            assert(all[i] == given);
            let g = choose|g: int| 0 <= g < extra.len() && extra[g] == given;
            assert(is_allowed(extra[g]));
            lemma_allowed_argument_sets_nothing(given, option, blocked);
        } else {
            assert(all[i] == fixed[i]);
        }
    }
}

proof fn lemma_no_prefix(option: Seq<char>, argument: Seq<char>, i: int)
    requires
        0 <= i < option.len(),
        i < argument.len() ==> argument[i] != option[i],
    ensures
        !option.is_prefix_of(argument),
{
    if option.is_prefix_of(argument) {
        assert(option[i] == argument.subrange(0, option.len() as int)[i]);
    }
}

proof fn lemma_reveal_arguments()
    ensures
        "DivineKnockout"@.len() == 14 && "DivineKnockout"@[0] == 'D',
        "-homedir="@ == seq!['-', 'h', 'o', 'm', 'e', 'd', 'i', 'r', '='],
        "-oss=Anon"@ == seq!['-', 'o', 's', 's', '=', 'A', 'n', 'o', 'n'],
        "-nosteam"@.len() == 8 && "-nosteam"@[1] == 'n',
        "-noeac"@.len() == 6 && "-noeac"@[1] == 'n',
        "-hirezenv=RETAIL"@ == seq![
            '-',
            'h',
            'i',
            'r',
            'e',
            'z',
            'e',
            'n',
            'v',
            '=',
            'R',
            'E',
            'T',
            'A',
            'I',
            'L',
        ],
        "-RHIgnoreSavedLogin"@.len() == 19 && "-RHIgnoreSavedLogin"@[1] == 'R'
            && "-RHIgnoreSavedLogin"@[2] == 'H',
        "-RallyHereURL="@ == seq![
            '-',
            'R',
            'a',
            'l',
            'l',
            'y',
            'H',
            'e',
            'r',
            'e',
            'U',
            'R',
            'L',
            '=',
        ],
        "-nosplash"@.len() == 9 && "-nosplash"@[1] == 'n',
        "-ABSLOG=Z:"@.len() == 10 && "-ABSLOG=Z:"@[0] == '-' && "-ABSLOG=Z:"@[1] == 'A'
            && "-ABSLOG=Z:"@[2] == 'B',
        "-LogCmds=LogBrawler Warning"@.len() == 27 && "-LogCmds=LogBrawler Warning"@[1] == 'L',
        "-fileopenlog"@.len() == 12 && "-fileopenlog"@[1] == 'f',
        "-AUTH_LOGIN="@ == seq!['-', 'A', 'U', 'T', 'H', '_', 'L', 'O', 'G', 'I', 'N', '='],
        "-AUTH_TYPE="@ == seq!['-', 'A', 'U', 'T', 'H', '_', 'T', 'Y', 'P', 'E', '='],
        "-AUTH_TYPE=password"@ == "-AUTH_TYPE="@ + "password"@,
        "-oss="@ == seq!['-', 'o', 's', 's', '='],
        "-hirezenv="@ == seq!['-', 'h', 'i', 'r', 'e', 'z', 'e', 'n', 'v', '='],
        "-oss=Anon"@ == "-oss="@ + "Anon"@,
        "-hirezenv=RETAIL"@ == "-hirezenv="@ + "RETAIL"@,
{
    reveal_strlit("DivineKnockout");
    reveal_strlit("-homedir=");
    reveal_strlit("-oss=Anon");
    reveal_strlit("-nosteam");
    reveal_strlit("-noeac");
    reveal_strlit("-hirezenv=RETAIL");
    reveal_strlit("-RHIgnoreSavedLogin");
    reveal_strlit("-RallyHereURL=");
    reveal_strlit("-nosplash");
    reveal_strlit("-ABSLOG=Z:");
    reveal_strlit("-LogCmds=LogBrawler Warning");
    reveal_strlit("-fileopenlog");
    reveal_strlit("-AUTH_LOGIN=");
    reveal_strlit("-AUTH_TYPE=");
    reveal_strlit("-AUTH_TYPE=password");
    reveal_strlit("password");
    reveal_strlit("-oss=");
    reveal_strlit("-hirezenv=");
    reveal_strlit("Anon");
    reveal_strlit("RETAIL");
    assert("-homedir="@ =~= seq!['-', 'h', 'o', 'm', 'e', 'd', 'i', 'r', '=']);
    assert("-oss=Anon"@ =~= seq!['-', 'o', 's', 's', '=', 'A', 'n', 'o', 'n']);
    assert("-hirezenv=RETAIL"@ =~= seq![
        '-',
        'h',
        'i',
        'r',
        'e',
        'z',
        'e',
        'n',
        'v',
        '=',
        'R',
        'E',
        'T',
        'A',
        'I',
        'L',
    ]);
    assert("-RallyHereURL="@ =~= seq![
        '-',
        'R',
        'a',
        'l',
        'l',
        'y',
        'H',
        'e',
        'r',
        'e',
        'U',
        'R',
        'L',
        '=',
    ]);
    assert("-AUTH_LOGIN="@ =~= seq!['-', 'A', 'U', 'T', 'H', '_', 'L', 'O', 'G', 'I', 'N', '=']);
    assert("-AUTH_TYPE="@ =~= seq!['-', 'A', 'U', 'T', 'H', '_', 'T', 'Y', 'P', 'E', '=']);
    assert("-AUTH_TYPE=password"@ =~= "-AUTH_TYPE="@ + "password"@);
    assert("-oss="@ =~= seq!['-', 'o', 's', 's', '=']);
    assert("-hirezenv="@ =~= seq!['-', 'h', 'i', 'r', 'e', 'z', 'e', 'n', 'v', '=']);
    assert("-oss=Anon"@ =~= "-oss="@ + "Anon"@);
    assert("-hirezenv=RETAIL"@ =~= "-hirezenv="@ + "RETAIL"@);
}

proof fn lemma_long_options(i: int)
    requires
        15 <= i < 19 || i == 3,
    ensures
        forall|url: Seq<char>, homedir: Seq<char>, log: Seq<char>, username: Seq<char>|
            (#[trigger] fixed_arguments(url, homedir, log, username))[i].len() > 3
                && fixed_arguments(url, homedir, log, username)[i][0] == '-' && fixed_arguments(
                url,
                homedir,
                log,
                username,
            )[i][1] == 'i',
{
    reveal_strlit("-ini:Engine:[OnlineSubsystem]:SanitizerPlatformService=Anon");
    reveal_strlit(
        "-ini:RallyHereIntegration:[/Script/RallyHereIntegration.RH_LocalPlayerLoginSubsystem]:bLoginOSSRequireOnlinePlayToLogin=false",
    );
    reveal_strlit(
        "-ini:RallyHereIntegration:[/Script/RallyHereIntegration.RH_LocalPlayerLoginSubsystem]:NicknameOSSName=Anon",
    );
    reveal_strlit(
        "-ini:RallyHereIntegration:[/Script/RallyHereIntegration.RH_LocalPlayerLoginSubsystem]:bNicknameOSSRequireIdentityLogin=true",
    );
    reveal_strlit(
        "-ini:RallyHereIntegration:[/Script/RallyHereIntegration.RH_LocalPlayerLoginSubsystem]:bNicknameOSSRequireOnlinePlayToLogin=false",
    );
}

/// Whoever plays, wherever, and whatever the player adds: the game signs in by password,
/// as that user, at that server, with that home directory, each said exactly once.
pub proof fn law_identity_is_set_once(
    url: Seq<char>,
    homedir: Seq<char>,
    log: Seq<u8>,
    username: Seq<char>,
    extra: Seq<Seq<char>>,
)
    requires
        are_allowed(extra),
    ensures
        is_set_once(
            command_line(url, homedir, log, username, extra),
            "-AUTH_TYPE="@,
            "password"@,
        ),
        is_set_once(command_line(url, homedir, log, username, extra), "-AUTH_LOGIN="@, username),
        is_set_once(command_line(url, homedir, log, username, extra), "-RallyHereURL="@, url),
        is_set_once(command_line(url, homedir, log, username, extra), "-homedir="@, homedir),
        is_set_once(command_line(url, homedir, log, username, extra), "-oss="@, "Anon"@),
        is_set_once(command_line(url, homedir, log, username, extra), "-hirezenv="@, "RETAIL"@),
{
    lemma_reveal_arguments();
    let fixed = fixed_arguments(url, homedir, abslog_argument(log), username);
    assert(fixed.len() == 19);
    lemma_long_options(3);
    lemma_long_options(15);
    lemma_long_options(16);
    lemma_long_options(17);
    lemma_long_options(18);
    let line = abslog_argument(log);
    assert(line.len() >= 10 && line[0] == '-' && line[1] == 'A' && line[2] == 'B');
    reveal_strlit("-auth_");
    reveal_strlit("-rallyhereurl");
    reveal_strlit("-homedir");
    reveal_strlit("-oss");
    reveal_strlit("-hirezenv");
    assert forall|i: int| 0 <= i < 19 && i != 14 implies !"-AUTH_TYPE="@.is_prefix_of(
        #[trigger] fixed[i],
    ) by {
        lemma_no_prefix(
            "-AUTH_TYPE="@,
            fixed[i],
            if i == 0 {
                0
            } else if i == 13 {
                6
            } else if i == 10 {
                2
            } else {
                1
            },
        );
    }
    assert("-auth_"@ =~= lowercase("-AUTH_TYPE="@).subrange(0, 6));
    lemma_set_once(fixed, extra, "-AUTH_TYPE="@, "password"@, "-auth_"@, 14);
    assert forall|i: int| 0 <= i < 19 && i != 13 implies !"-AUTH_LOGIN="@.is_prefix_of(
        #[trigger] fixed[i],
    ) by {
        lemma_no_prefix(
            "-AUTH_LOGIN="@,
            fixed[i],
            if i == 0 {
                0
            } else if i == 14 {
                6
            } else if i == 10 {
                2
            } else {
                1
            },
        );
    }
    assert("-auth_"@ =~= lowercase("-AUTH_LOGIN="@).subrange(0, 6));
    lemma_set_once(fixed, extra, "-AUTH_LOGIN="@, username, "-auth_"@, 13);
    assert forall|i: int| 0 <= i < 19 && i != 8 implies !"-RallyHereURL="@.is_prefix_of(
        #[trigger] fixed[i],
    ) by {
        lemma_no_prefix(
            "-RallyHereURL="@,
            fixed[i],
            if i == 0 {
                0
            } else if i == 7 {
                2
            } else {
                1
            },
        );
    }
    assert("-rallyhereurl"@ =~= lowercase("-RallyHereURL="@).subrange(0, 13));
    lemma_set_once(fixed, extra, "-RallyHereURL="@, url, "-rallyhereurl"@, 8);
    assert forall|i: int| 0 <= i < 19 && i != 1 implies !"-homedir="@.is_prefix_of(
        #[trigger] fixed[i],
    ) by {
        lemma_no_prefix(
            "-homedir="@,
            fixed[i],
            if i == 0 {
                0
            } else if i == 6 {
                2
            } else {
                1
            },
        );
    }
    assert("-homedir"@ =~= lowercase("-homedir="@).subrange(0, 8));
    lemma_set_once(fixed, extra, "-homedir="@, homedir, "-homedir"@, 1);
    assert forall|i: int| 0 <= i < 19 && i != 2 implies !"-oss="@.is_prefix_of(
        #[trigger] fixed[i],
    ) by {
        lemma_no_prefix(
            "-oss="@,
            fixed[i],
            if i == 0 {
                0
            } else {
                1
            },
        );
    }
    assert("-oss"@ =~= lowercase("-oss="@).subrange(0, 4));
    lemma_set_once(fixed, extra, "-oss="@, "Anon"@, "-oss"@, 2);
    assert forall|i: int| 0 <= i < 19 && i != 6 implies !"-hirezenv="@.is_prefix_of(
        #[trigger] fixed[i],
    ) by {
        lemma_no_prefix(
            "-hirezenv="@,
            fixed[i],
            if i == 0 {
                0
            } else if i == 1 {
                2
            } else {
                1
            },
        );
    }
    assert("-hirezenv"@ =~= lowercase("-hirezenv="@).subrange(0, 9));
    lemma_set_once(fixed, extra, "-hirezenv="@, "RETAIL"@, "-hirezenv"@, 6);
}

/// Whatever the launch, the command line starts with the name of the game, holds these
/// options, and ends in what the player added.
pub proof fn law_command_line_holds(
    url: Seq<char>,
    homedir: Seq<char>,
    log: Seq<u8>,
    username: Seq<char>,
    extra: Seq<Seq<char>>,
)
    ensures
        ({
            let all = command_line(url, homedir, log, username, extra);
            &&& all[0] == "DivineKnockout"@
            &&& all.contains("-nosteam"@)
            &&& all.contains("-noeac"@)
            &&& all.contains("-nosplash"@)
            &&& all.contains("-fileopenlog"@)
            &&& all.contains("-RHIgnoreSavedLogin"@)
            &&& all.contains("-LogCmds=LogBrawler Warning"@)
            &&& all.contains("-ini:Engine:[OnlineSubsystem]:SanitizerPlatformService=Anon"@)
            &&& all.contains(
                "-ini:RallyHereIntegration:[/Script/RallyHereIntegration.RH_LocalPlayerLoginSubsystem]:bLoginOSSRequireOnlinePlayToLogin=false"@,
            )
            &&& all.contains(
                "-ini:RallyHereIntegration:[/Script/RallyHereIntegration.RH_LocalPlayerLoginSubsystem]:NicknameOSSName=Anon"@,
            )
            &&& all.contains(
                "-ini:RallyHereIntegration:[/Script/RallyHereIntegration.RH_LocalPlayerLoginSubsystem]:bNicknameOSSRequireIdentityLogin=true"@,
            )
            &&& all.contains(
                "-ini:RallyHereIntegration:[/Script/RallyHereIntegration.RH_LocalPlayerLoginSubsystem]:bNicknameOSSRequireOnlinePlayToLogin=false"@,
            )
            &&& all.len() == 19 + passwordless(extra).len()
            &&& forall|i: int| 0 <= i < passwordless(extra).len() ==> all[19 + i] == #[trigger]
                passwordless(extra)[i]
        }),
{
    let all = command_line(url, homedir, log, username, extra);
    assert(all[4] == "-nosteam"@ && all[5] == "-noeac"@ && all[9] == "-nosplash"@ && all[12]
        == "-fileopenlog"@ && all[7] == "-RHIgnoreSavedLogin"@ && all[11]
        == "-LogCmds=LogBrawler Warning"@);
    assert(all[3] == "-ini:Engine:[OnlineSubsystem]:SanitizerPlatformService=Anon"@);
    assert(all[15]
        == "-ini:RallyHereIntegration:[/Script/RallyHereIntegration.RH_LocalPlayerLoginSubsystem]:bLoginOSSRequireOnlinePlayToLogin=false"@);
    assert(all[16]
        == "-ini:RallyHereIntegration:[/Script/RallyHereIntegration.RH_LocalPlayerLoginSubsystem]:NicknameOSSName=Anon"@);
    assert(all[17]
        == "-ini:RallyHereIntegration:[/Script/RallyHereIntegration.RH_LocalPlayerLoginSubsystem]:bNicknameOSSRequireIdentityLogin=true"@);
    assert(all[18]
        == "-ini:RallyHereIntegration:[/Script/RallyHereIntegration.RH_LocalPlayerLoginSubsystem]:bNicknameOSSRequireOnlinePlayToLogin=false"@);
}

/// An argument is not about a password.
pub open spec fn is_innocent(argument: Seq<char>) -> bool {
    !announces_password(argument) && !holds_password(argument)
}

/// Arguments that are not about passwords are all kept, in their order, also around
/// those that are.
pub proof fn law_other_arguments_are_kept(before: Seq<Seq<char>>, after: Seq<Seq<char>>)
    requires
        forall|i: int| 0 <= i < before.len() ==> is_innocent(#[trigger] before[i]),
    ensures
        passwordless(before + after) == before + passwordless(after),
    decreases before.len(),
{
    if before.len() == 0 {
        assert(before + after =~= after);
        assert(before + passwordless(after) =~= passwordless(after));
    } else {
        let all = before + after;
        let rest = before.skip(1);
        assert(is_innocent(before[0]));
        assert(all[0] == before[0]);
        assert(all.skip(1) =~= rest + after);
        assert forall|i: int| 0 <= i < rest.len() implies is_innocent(#[trigger] rest[i]) by {
            assert(is_innocent(before[i + 1]));
        }
        law_other_arguments_are_kept(rest, after);
        assert(passwordless(all) =~= before + passwordless(after));
    }
}

/// A password goes, however its option is written: with any number of dashes and in any
/// case, with the password behind a sign or a blank, or in the next argument, which
/// stays when it is an option itself.
pub proof fn law_password_is_removed(
    dashes: Seq<char>,
    name: Seq<char>,
    secret: Seq<char>,
    next: Seq<char>,
    rest: Seq<Seq<char>>,
)
    requires
        forall|i: int| 0 <= i < dashes.len() ==> #[trigger] dashes[i] == '-',
        lowercase(name) == "auth_password"@,
    ensures
        passwordless(seq![dashes + name + seq!['='] + secret] + rest) == passwordless(rest),
        passwordless(seq![dashes + name + seq![' '] + secret] + rest) == passwordless(rest),
        !(next.len() > 0 && next[0] == '-') ==> passwordless(seq![dashes + name, next] + rest)
            == passwordless(rest),
        next.len() > 0 && next[0] == '-' ==> passwordless(seq![dashes + name, next] + rest)
            == passwordless(seq![next] + rest),
        passwordless(seq![dashes + name]) == Seq::<Seq<char>>::empty(),
{
    reveal_strlit("auth_password");
    reveal_strlit("auth_password=");
    reveal_strlit("auth_password ");
    assert(lowercase(name).len() == 13);
    assert(name.len() == 13);
    assert(lowercase(name)[0] == 'a');
    assert(name[0].lowered() == 'a');
    assert(name[0] != '-');
    let signed = dashes + name + seq!['='] + secret;
    let spaced = dashes + name + seq![' '] + secret;
    let bare = dashes + name;
    lemma_undashed(dashes, name + seq!['='] + secret);
    lemma_undashed(dashes, name + seq![' '] + secret);
    lemma_undashed(dashes, name);
    assert(signed =~= dashes + (name + seq!['='] + secret));
    assert(spaced =~= dashes + (name + seq![' '] + secret));
    assert(option_name(bare) == "auth_password"@);
    let a = option_name(signed);
    let b = option_name(spaced);
    assert forall|i: int| 0 <= i < 13 implies a[i] == "auth_password"@[i] && b[i]
        == "auth_password"@[i] by {
        assert(lowercase(name)[i] == name[i].lowered());
    }
    assert("auth_password="@ =~= a.subrange(0, 14));
    assert("auth_password "@ =~= b.subrange(0, 14));
    assert(a.len() > 13 && b.len() > 13);
    assert(holds_password(signed) && holds_password(spaced));
    assert(!announces_password(signed) && !announces_password(spaced));
    let one = seq![signed] + rest;
    assert(one[0] == signed && one.skip(1) =~= rest);
    let two = seq![spaced] + rest;
    assert(two[0] == spaced && two.skip(1) =~= rest);
    let pair = seq![bare, next] + rest;
    assert(pair[0] == bare && pair[1] == next);
    assert(pair.skip(2) =~= rest);
    assert(pair.skip(1) =~= seq![next] + rest);
    let alone = seq![bare];
    assert(alone[0] == bare);
    assert(alone.skip(1) =~= Seq::empty());
    assert(passwordless(alone.skip(1)) =~= Seq::empty());
    assert(passwordless(alone) == passwordless(alone.skip(1)));
}

proof fn lemma_undashed(dashes: Seq<char>, name: Seq<char>)
    requires
        forall|i: int| 0 <= i < dashes.len() ==> #[trigger] dashes[i] == '-',
        name.len() > 0,
        name[0] != '-',
    ensures
        undashed(dashes + name) == name,
    decreases dashes.len(),
{
    if dashes.len() == 0 {
        assert(dashes + name =~= name);
    } else {
        assert((dashes + name)[0] == dashes[0]);
        assert((dashes + name).skip(1) =~= dashes.skip(1) + name);
        lemma_undashed(dashes.skip(1), name);
    }
}

/// An option that sets who plays, where, or what runs is refused, in whatever case it is
/// written and whatever follows.
pub proof fn law_decisive_options_are_refused(argument: Seq<char>, rest: Seq<char>)
    requires
        ({
            let name = lowercase(argument);
            ||| name == "-auth_"@ + rest
            ||| name == "-rallyhereurl"@ + rest
            ||| name == "-homedir"@ + rest
            ||| name == "-abslog"@ + rest
            ||| name == "-logcmds"@ + rest
            ||| name == "-oss"@ + rest
            ||| name == "-nosteam"@ + rest
            ||| name == "-noeac"@ + rest
            ||| name == "-hirezenv"@ + rest
            ||| name == "-ini:"@ + rest
            ||| name == "-ini="@ + rest
        }),
    ensures
        is_blocked(argument),
        !is_allowed(argument),
{
    let name = lowercase(argument);
    lemma_starts("-auth_"@, rest, name);
    lemma_starts("-rallyhereurl"@, rest, name);
    lemma_starts("-homedir"@, rest, name);
    lemma_starts("-abslog"@, rest, name);
    lemma_starts("-logcmds"@, rest, name);
    lemma_starts("-oss"@, rest, name);
    lemma_starts("-nosteam"@, rest, name);
    lemma_starts("-noeac"@, rest, name);
    lemma_starts("-hirezenv"@, rest, name);
    lemma_starts("-ini:"@, rest, name);
    lemma_starts("-ini="@, rest, name);
}

proof fn lemma_starts(start: Seq<char>, rest: Seq<char>, whole: Seq<char>)
    ensures
        whole == start + rest ==> start.is_prefix_of(whole),
{
    if whole == start + rest {
        assert(start =~= whole.subrange(0, start.len() as int));
    }
}

/// Any other option of a player is allowed: one that does not even begin with a letter
/// that a refused one begins with, for instance.
pub proof fn law_other_options_are_allowed(letter: char, rest: Seq<char>)
    requires
        !"arhloni"@.contains(letter.lowered()),
        !has_control(seq!['-', letter] + rest),
        vstd::utf8::encode_utf8(seq!['-', letter] + rest).len() <= 256,
    ensures
        is_allowed(seq!['-', letter] + rest),
{
    reveal_strlit("arhloni");
    let argument = seq!['-', letter] + rest;
    let name = lowercase(argument);
    assert(name[1] == letter.lowered());
    let letters = "arhloni"@;
    assert(letters[0] == 'a' && letters[1] == 'r' && letters[2] == 'h' && letters[3] == 'l'
        && letters[4] == 'o' && letters[5] == 'n' && letters[6] == 'i');
    assert(name[1] != 'a' && name[1] != 'r' && name[1] != 'h' && name[1] != 'l' && name[1] != 'o'
        && name[1] != 'n' && name[1] != 'i') by {
        assert(forall|k: int| 0 <= k < 7 ==> letters[k] != letter.lowered());
    }
    reveal_strlit("-auth_");
    reveal_strlit("-rallyhereurl");
    reveal_strlit("-homedir");
    reveal_strlit("-abslog");
    reveal_strlit("-logcmds");
    reveal_strlit("-oss");
    reveal_strlit("-nosteam");
    reveal_strlit("-noeac");
    reveal_strlit("-hirezenv");
    reveal_strlit("-ini:");
    reveal_strlit("-ini=");
    lemma_no_prefix("-auth_"@, name, 1);
    lemma_no_prefix("-rallyhereurl"@, name, 1);
    lemma_no_prefix("-homedir"@, name, 1);
    lemma_no_prefix("-abslog"@, name, 1);
    lemma_no_prefix("-logcmds"@, name, 1);
    lemma_no_prefix("-oss"@, name, 1);
    lemma_no_prefix("-nosteam"@, name, 1);
    lemma_no_prefix("-noeac"@, name, 1);
    lemma_no_prefix("-hirezenv"@, name, 1);
    lemma_no_prefix("-ini:"@, name, 1);
    lemma_no_prefix("-ini="@, name, 1);
}

/// Sixteen arguments of 1024 bytes in all are the most that a player may add, and of
/// those each must be allowed; that is all that is asked.
pub proof fn law_limits_of_player_arguments(arguments: Seq<Seq<char>>)
    ensures
        argument_fault(arguments) is None <==> arguments.len() <= 16 && total_bytes(arguments)
            <= 1024 && are_allowed(arguments),
        arguments.len() >= 17 || total_bytes(arguments) >= 1025 ==> argument_fault(arguments)
            == Some(ArgumentError::TooMany),
        total_bytes(Seq::empty()) == 0,
        forall|more: Seq<char>|
            total_bytes(#[trigger] arguments.push(more)) == total_bytes(arguments)
                + vstd::utf8::encode_utf8(more).len(),
{
    assert forall|more: Seq<char>| total_bytes(#[trigger] arguments.push(more)) == total_bytes(
        arguments,
    ) + vstd::utf8::encode_utf8(more).len() by {
        assert(arguments.push(more).drop_last() =~= arguments);
    }
}

/// An allowed argument is an option of at most 256 bytes without control codes.
pub proof fn law_allowed_argument_is_an_option(argument: Seq<char>)
    requires
        is_allowed(argument),
    ensures
        argument.len() > 0,
        argument[0] == '-',
        vstd::utf8::encode_utf8(argument).len() <= 256,
        forall|i: int| 0 <= i < argument.len() ==> (#[trigger] argument[i]) as u32 >= 32,
{
    assert forall|i: int| 0 <= i < argument.len() implies (#[trigger] argument[i]) as u32 >= 32 by {
        assert(!crate::text::is_control(argument[i]));
    }
}

/// The game is recognized by its main thread and by one of its two names, anywhere in
/// its command line, and is told from other games by its home directory.
pub proof fn law_running_game_is_recognized(
    build: &Build,
    process: ProcessInfo,
    homedir: Seq<char>,
    parts: Seq<Seq<u8>>,
    k: int,
)
    requires
        trimmed(process.comm@) == "GameThread"@,
        occurs(process.cmdline@, vstd::utf8::encode_utf8("DivineKnockout.exe"@)) || occurs(
            process.cmdline@,
            vstd::utf8::encode_utf8(build.value(Setting::GameExecutableName)),
        ),
        parts == pieces(process.cmdline@, 0),
        0 <= k < parts.len(),
        parts[k] == vstd::utf8::encode_utf8("-homedir="@ + homedir),
    ensures
        process.plays(build, homedir),
{
    assert(pieces(process.cmdline@, 0)[k] == vstd::utf8::encode_utf8("-homedir="@ + homedir));
}

/// A process that is not the game, or plays with another home directory, is left alone.
pub proof fn law_other_processes_are_left_alone(
    build: &Build,
    process: ProcessInfo,
    homedir: Seq<char>,
)
    requires
        process.plays(build, homedir),
    ensures
        trimmed(process.comm@) == "GameThread"@,
        occurs(process.cmdline@, vstd::utf8::encode_utf8("DivineKnockout.exe"@)) || occurs(
            process.cmdline@,
            vstd::utf8::encode_utf8(build.value(Setting::GameExecutableName)),
        ),
        pieces(process.cmdline@, 0).contains(vstd::utf8::encode_utf8("-homedir="@ + homedir)),
{
    let parts = pieces(process.cmdline@, 0);
    let argument = vstd::utf8::encode_utf8("-homedir="@ + homedir);
    let i = choose|i: int| 0 <= i < parts.len() && #[trigger] parts[i] == argument;
    assert(parts.contains(argument));
}

/// A home directory is the game's own name, perhaps with something behind it that leads
/// nowhere else.
pub proof fn law_home_directories(rest: Seq<char>)
    ensures
        is_homedir("DivineKnockout"@ + rest) <==> !rest.contains('/') && !rest.contains('\\'),
{
    reveal_strlit("DivineKnockout");
    let s = "DivineKnockout"@ + rest;
    assert("DivineKnockout"@ =~= s.subrange(0, 14));
    assert forall|c: char| c == '/' || c == '\\' implies (s.contains(c) <==> rest.contains(c)) by {
        if s.contains(c) {
            let k = choose|k: int| 0 <= k < s.len() && s[k] == c;
            assert(k >= 14);
            assert(rest[k - 14] == c);
        }
        if rest.contains(c) {
            let k = choose|k: int| 0 <= k < rest.len() && rest[k] == c;
            assert(s[k + 14] == c);
        }
    }
}

} // verus!
