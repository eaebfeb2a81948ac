//! Launch arguments that come with a link.
use crate::text::{
    any_control, begins, byte_length, has_control, letters, lower_all, lowercase, part, spells,
    texts,
};
use vstd::prelude::*;

verus! {

/// The text without the dashes it starts with.
pub open spec fn undashed(s: Seq<char>) -> Seq<char>
    decreases s.len(),
{
    if s.len() > 0 && s[0] == '-' {
        undashed(s.skip(1))
    } else {
        s
    }
}

/// The name of an option, as it is compared.
pub open spec fn option_name(argument: Seq<char>) -> Seq<char> {
    lowercase(undashed(argument))
}

/// The argument announces a password in the next one.
pub open spec fn announces_password(argument: Seq<char>) -> bool {
    option_name(argument) == "auth_password"@
}

/// The argument holds a password itself.
pub open spec fn holds_password(argument: Seq<char>) -> bool {
    ||| "auth_password="@.is_prefix_of(option_name(argument))
    ||| "auth_password "@.is_prefix_of(option_name(argument))
}

/// The arguments without passwords: an announcement goes together with the argument
/// behind it, unless that is an option of its own.
pub open spec fn passwordless(arguments: Seq<Seq<char>>) -> Seq<Seq<char>>
    decreases arguments.len(),
{
    if arguments.len() == 0 {
        arguments
    } else if announces_password(arguments[0]) {
        if arguments.len() > 1 && !(arguments[1].len() > 0 && arguments[1][0] == '-') {
            passwordless(arguments.skip(2))
        } else {
            passwordless(arguments.skip(1))
        }
    } else if holds_password(arguments[0]) {
        passwordless(arguments.skip(1))
    } else {
        seq![arguments[0]] + passwordless(arguments.skip(1))
    }
}

fn name_of_option(argument: &str) -> (r: Vec<char>)
    ensures
        r@ == option_name(argument@),
{
    let all = letters(argument);
    let mut i: usize = 0;
    assert(all@.skip(0) =~= all@);
    while i < all.len() && all[i] == '-'
        invariant
            i <= all@.len(),
            undashed(all@.skip(i as int)) == undashed(all@),
        decreases all@.len() - i,
    {
        assert(all@.skip(i as int).skip(1) =~= all@.skip(i + 1));
        i = i + 1;
    }
    let rest = part(all.as_slice(), i, all.len());
    assert(rest@ =~= all@.skip(i as int));
    lower_all(rest.as_slice())
}

/// The arguments without passwords.
pub fn without_auth_password(arguments: &Vec<String>) -> (r: Vec<String>)
    ensures
        texts(r@) == passwordless(texts(arguments@)),
{
    let ghost all = texts(arguments@);
    let mut r: Vec<String> = Vec::new();
    let mut i: usize = 0;
    assert(all.skip(0) =~= all);
    assert(texts(r@) =~= Seq::empty());
    assert(Seq::<Seq<char>>::empty() + passwordless(all) =~= passwordless(all));
    while i < arguments.len()
        invariant
            i <= arguments@.len(),
            all == texts(arguments@),
            texts(r@) + passwordless(all.skip(i as int)) == passwordless(all),
        decreases arguments@.len() - i,
    {
        let ghost rest = all.skip(i as int);
        let ghost before = texts(r@);
        assert(rest[0] == arguments@[i as int]@);
        assert(rest.skip(1) =~= all.skip(i + 1));
        let name = name_of_option(arguments[i].as_str());
        if spells(name.as_slice(), "auth_password") {
            let mut step: usize = 1;
            if arguments.len() - i > 1 {
                let next = letters(arguments[i + 1].as_str());
                assert(rest[1] == next@);
                if !(next.len() > 0 && next[0] == '-') {
                    assert(rest.skip(2) =~= all.skip(i + 2));
                    step = 2;
                }
            }
            i = i + step;
        } else {
            if !begins(name.as_slice(), letters("auth_password=").as_slice()) && !begins(
                name.as_slice(),
                letters("auth_password ").as_slice(),
            ) {
                r.push(arguments[i].clone());
                assert(texts(r@) =~= before + seq![rest[0]]);
                assert(texts(r@) + passwordless(all.skip(i + 1)) =~= before + (seq![rest[0]]
                    + passwordless(all.skip(i + 1))));
            }
            i = i + 1;
        }
    }
    assert(all.skip(i as int) =~= Seq::empty());
    assert(texts(r@) + Seq::<Seq<char>>::empty() =~= texts(r@));
    r
}

/// No argument that is left holds or announces a password.
pub proof fn law_no_password_is_left(arguments: Seq<Seq<char>>, i: int)
    requires
        0 <= i < passwordless(arguments).len(),
    ensures
        !announces_password(passwordless(arguments)[i]),
        !holds_password(passwordless(arguments)[i]),
        arguments.contains(passwordless(arguments)[i]),
    decreases arguments.len(),
{
    if arguments.len() > 0 {
        if announces_password(arguments[0]) {
            let rest = if arguments.len() > 1 && !(arguments[1].len() > 0 && arguments[1][0]
                == '-') {
                arguments.skip(2)
            } else {
                arguments.skip(1)
            };
            law_no_password_is_left(rest, i);
            let k = choose|k: int| 0 <= k < rest.len() && rest[k] == passwordless(arguments)[i];
            assert(arguments[k + (arguments.len() - rest.len())] == rest[k]);
        } else {
            let rest = arguments.skip(1);
            if holds_password(arguments[0]) {
                law_no_password_is_left(rest, i);
                let k = choose|k: int| 0 <= k < rest.len() && rest[k] == passwordless(arguments)[i];
                assert(arguments[k + 1] == rest[k]);
            } else if i > 0 {
                law_no_password_is_left(rest, i - 1);
                assert(passwordless(arguments)[i] == passwordless(rest)[i - 1]);
                let k = choose|k: int| 0 <= k < rest.len() && rest[k] == passwordless(arguments)[i];
                assert(arguments[k + 1] == rest[k]);
            } else {
                assert(passwordless(arguments)[0] == arguments[0]);
            }
        }
    }
}

/// Why custom arguments are refused.
#[derive(Clone, Copy, Debug, PartialEq, Eq, Structural)]
pub enum ArgumentError {
    TooMany,
    NotAllowed,
}

impl ArgumentError {
    pub open spec fn text(self) -> Seq<char> {
        match self {
            ArgumentError::TooMany => "too many custom launch arguments"@,
            ArgumentError::NotAllowed => "custom launch argument is not allowed"@,
        }
    }

    pub fn message(&self) -> (r: String)
        ensures
            r@ == self.text(),
    {
        match self {
            ArgumentError::TooMany => "too many custom launch arguments".to_owned(),
            ArgumentError::NotAllowed => "custom launch argument is not allowed".to_owned(),
        }
    }
}

/// Options that a link may not set: they decide who plays, where, and what runs.
pub open spec fn is_blocked(argument: Seq<char>) -> bool {
    let name = lowercase(argument);
    ||| "-auth_"@.is_prefix_of(name)
    ||| "-rallyhereurl"@.is_prefix_of(name)
    ||| "-homedir"@.is_prefix_of(name)
    ||| "-abslog"@.is_prefix_of(name)
    ||| "-logcmds"@.is_prefix_of(name)
    ||| "-oss"@.is_prefix_of(name)
    ||| "-nosteam"@.is_prefix_of(name)
    ||| "-noeac"@.is_prefix_of(name)
    ||| "-hirezenv"@.is_prefix_of(name)
    ||| "-ini:"@.is_prefix_of(name)
    ||| "-ini="@.is_prefix_of(name)
}

/// An option that a link may set.
pub open spec fn is_allowed(argument: Seq<char>) -> bool {
    &&& argument.len() > 0
    &&& argument[0] == '-'
    &&& vstd::utf8::encode_utf8(argument).len() <= 256
    &&& !has_control(argument)
    &&& !is_blocked(argument)
}

/// The size of all arguments, in bytes.
pub open spec fn total_bytes(arguments: Seq<Seq<char>>) -> int
    decreases arguments.len(),
{
    if arguments.len() == 0 {
        0
    } else {
        total_bytes(arguments.drop_last()) + vstd::utf8::encode_utf8(arguments.last()).len()
    }
}

pub open spec fn argument_fault(arguments: Seq<Seq<char>>) -> Option<ArgumentError> {
    if arguments.len() > 16 || total_bytes(arguments) > 1024 {
        Some(ArgumentError::TooMany)
    } else if exists|i: int| 0 <= i < arguments.len() && !is_allowed(#[trigger] arguments[i]) {
        Some(ArgumentError::NotAllowed)
    } else {
        None
    }
}

fn blocked(name: &[char]) -> (r: bool)
    ensures
        forall|argument: Seq<char>| #[trigger] lowercase(argument) == name@ ==> r == is_blocked(argument),
{
    begins(name, letters("-auth_").as_slice()) || begins(name, letters("-rallyhereurl").as_slice())
        || begins(name, letters("-homedir").as_slice()) || begins(
        name,
        letters("-abslog").as_slice(),
    ) || begins(name, letters("-logcmds").as_slice()) || begins(name, letters("-oss").as_slice())
        || begins(name, letters("-nosteam").as_slice()) || begins(
        name,
        letters("-noeac").as_slice(),
    ) || begins(name, letters("-hirezenv").as_slice()) || begins(name, letters("-ini:").as_slice())
        || begins(name, letters("-ini=").as_slice())
}

fn allowed(argument: &str) -> (r: bool)
    ensures
        r == is_allowed(argument@),
{
    let all = letters(argument);
    if all.len() == 0 || all[0] != '-' || byte_length(argument) > 256 || any_control(
        all.as_slice(),
    ) {
        return false;
    }
    let name = lower_all(all.as_slice());
    assert(name@ == lowercase(argument@));
    !blocked(name.as_slice())
}

proof fn lemma_total_bytes_grow(arguments: Seq<Seq<char>>, i: int)
    requires
        0 <= i <= arguments.len(),
    ensures
        total_bytes(arguments.take(i)) <= total_bytes(arguments),
    decreases arguments.len(),
{
    if i == arguments.len() {
        assert(arguments.take(i) =~= arguments);
    } else {
        lemma_total_bytes_grow(arguments.drop_last(), i);
        assert(arguments.drop_last().take(i) =~= arguments.take(i));
    }
}

/// Accepts the arguments that a link may set.
pub fn validate_player_command_arguments(arguments: &Vec<String>) -> (r: Result<(), ArgumentError>)
    ensures
        match r {
            Ok(()) => argument_fault(texts(arguments@)) is None,
            Err(error) => argument_fault(texts(arguments@)) == Some(error),
        },
{
    let ghost all = texts(arguments@);
    if arguments.len() > 16 {
        return Err(ArgumentError::TooMany);
    }
    let mut total: usize = 0;
    let mut i: usize = 0;
    assert(all.take(0) =~= Seq::empty());
    while i < arguments.len()
        invariant
            i <= arguments@.len(),
            all == texts(arguments@),
            total == total_bytes(all.take(i as int)),
            total <= 1024,
        decreases arguments@.len() - i,
    {
        assert(all.take(i + 1).drop_last() =~= all.take(i as int));
        let size = byte_length(arguments[i].as_str());
        if size > 1024 - total {
            proof {
                lemma_total_bytes_grow(all, i + 1);
            }
            return Err(ArgumentError::TooMany);
        }
        total = total + size;
        i = i + 1;
    }
    assert(all.take(i as int) =~= all);
    let mut k: usize = 0;
    while k < arguments.len()
        invariant
            k <= arguments@.len() <= 16,
            all == texts(arguments@),
            total_bytes(all) <= 1024,
            forall|j: int| 0 <= j < k ==> is_allowed(#[trigger] all[j]),
        decreases arguments@.len() - k,
    {
        if !allowed(arguments[k].as_str()) {
            assert(!is_allowed(all[k as int]));
            return Err(ArgumentError::NotAllowed);
        }
        assert(is_allowed(all[k as int]));
        k = k + 1;
    }
    Ok(())
}

} // verus!
