//! What the operations of the library do, from what goes in to what comes out.
use crate::digest::hex_of;
use crate::game_manifest::GameManifest;
use crate::install::{installed_runtime_is_current, FoundFile, InstalledRuntime};
use crate::laws::bridge::{law_next_tick_probes_the_sender, law_probe_reveals_the_address};
use crate::laws::command_line::{are_allowed, is_set_once, law_identity_is_set_once};
use crate::laws::runtime::{are_equal, law_recorded_runtime_is_current};
use crate::laws::steam::{
    law_choice_for_the_game_wins, law_chosen_tool_is_read_from_the_file, steam_entries,
};
use crate::laws::text::{law_digest_is_64_hexadecimal_digits, law_every_digest_is_accepted};
use crate::p2p::bridge::{effects, peer_at, Action, Bridge, BridgeError, Effect, Peer};
use crate::p2p::protocol::Address;
use crate::process::game::{abslog_argument, game_arguments};
use crate::process::proton::{
    has_named, is_choice, resolve_proton_in_roots, tool_models, ProtonError, Tool,
};
use crate::process::vdf::{nesting, parsed, rendered, selected_tool, Vdf};
use crate::settings::Build;
use crate::text::{digest_text, same_folded, texts};
use vstd::prelude::*;

verus! {

/// A probe that comes directly from an address makes that address the candidate,
/// whatever the candidate was before, and it is answered there.
pub proof fn law_receiving_a_probe(
    peer: &mut Peer,
    frame: &[u8],
    address: Address,
    now: u64,
    data: Seq<u8>,
    r: Option<Action>,
)
    requires
        call_ensures(Peer::receive, (peer, frame, Some(address), now), r),
        old(peer).delivered(frame@) == Some((1u8, data)),
        data.len() == 16,
    ensures
        final(peer).candidate == Some(address),
        old(peer).cipher.sealed(2, data) is Some ==> r is Some && r->0.effect() == (Effect::Send {
            frame: old(peer).cipher.sealed(2, data)->0,
            to: address,
        }),
{
    law_probe_reveals_the_address(*old(peer), frame@, Some(address), now, *final(peer), data);
}

/// A frame that came by way of the relay, or is no probe, leaves the candidate alone.
pub proof fn law_receiving_anything_else(
    peer: &mut Peer,
    frame: &[u8],
    source: Option<Address>,
    now: u64,
    r: Option<Action>,
)
    requires
        call_ensures(Peer::receive, (peer, frame, source, now), r),
        match old(peer).delivered(frame@) {
            Some((kind, data)) => source is None || kind != 1 || data.len() != 16,
            None => true,
        },
    ensures
        final(peer).candidate == old(peer).candidate,
{
}

/// The bridge probes the address that a peer's last probe came from with its next tick.
pub proof fn law_probing_back(
    bridge: &mut Bridge,
    later: &mut Bridge,
    frame: &[u8],
    address: Address,
    now: u64,
    soon: u64,
    i: int,
    r: Option<Action>,
    actions: Vec<Action>,
)
    requires
        call_ensures(Bridge::network, (bridge, frame, address, now), r),
        call_ensures(Bridge::tick, (later, soon), Ok::<Vec<Action>, BridgeError>(actions)),
        *old(later) == *final(bridge),
        old(bridge).rendezvous != Some(address),
        frame@.len() >= 42,
        peer_at(old(bridge).peers@, frame@.take(16), i),
        old(bridge).peers@[i].delivered(frame@) matches Some((kind, data)) && kind == 1
            && data.len() == 16,
        old(bridge).peers@[i].cipher.sequence < 0xffff_ffff_ffff_fff0,
    ensures
        exists|k: int|
            0 <= k < actions@.len() && (#[trigger] actions@[k]).effect() == (Effect::Send {
                frame: old(later).peers@[i].cipher.sealed(1, final(later).peers@[i].probe@)->0,
                to: address,
            }),
{
    let effect = match r {
        Some(action) => Some(action.effect()),
        None => None,
    };
    law_next_tick_probes_the_sender(
        *old(bridge),
        frame@,
        address,
        now,
        *final(bridge),
        effect,
        i,
        soon,
        *final(later),
    );
    let sent = Effect::Send {
        frame: old(later).peers@[i].cipher.sealed(1, final(later).peers@[i].probe@)->0,
        to: address,
    };
    let all = effects(actions@);
    let k = choose|k: int| 0 <= k < all.len() && #[trigger] all[k] == sent;
    assert(actions@[k].effect() == sent);
}

/// The tool that Steam has for the game is used, whatever it has for everything else;
/// that counts only where it has none for the game. A tool that is not installed is
/// named in the error.
pub proof fn law_resolving_the_tool(
    config_path: &[u8],
    config: &str,
    roots: &Vec<Vec<u8>>,
    tools: &Vec<Tool>,
    name: Seq<char>,
    r: Result<Tool, ProtonError>,
)
    requires
        call_ensures(resolve_proton_in_roots, (config_path, config, roots, tools), r),
        parsed(config@) is Some,
        ({
            ||| selected_tool(config@, "1294660"@) == Some(name)
            ||| selected_tool(config@, "1294660"@) is None && selected_tool(config@, "0"@) == Some(
                name,
            )
        }),
    ensures
        has_named(tool_models(tools@), name) ==> r is Ok && r->Ok_0.name@ == name,
        !has_named(tool_models(tools@), name) ==> (r matches Err(
            ProtonError::NotInstalled { name: missing, .. },
        ) && missing@ == name),
{
    match r {
        Ok(tool) => {
            let i = choose|i: int| #[trigger]
                is_choice(tool_models(tools@), config@, i) && tool.model() == tool_models(tools@)[i];
            law_choice_for_the_game_wins(tool_models(tools@), config@, i);
        },
        _ => {},
    }
}

/// The same from the file: an entry for the game in Steam's settings decides, whatever
/// stands around it.
pub proof fn law_resolving_the_tool_in_a_file(
    config_path: &[u8],
    config: &str,
    roots: &Vec<Vec<u8>>,
    tools: &Vec<Tool>,
    before: Seq<(Seq<char>, Vdf)>,
    earlier: Seq<(Seq<char>, Vdf)>,
    name: Seq<char>,
    later: Seq<(Seq<char>, Vdf)>,
    after: Seq<(Seq<char>, Vdf)>,
    r: Result<Tool, ProtonError>,
)
    requires
        call_ensures(resolve_proton_in_roots, (config_path, config, roots, tools), r),
        name.len() > 0,
        forall|i: int|
            0 <= i < before.len() ==> !same_folded((#[trigger] before[i]).0, "1294660"@),
        forall|i: int| 0 <= i < earlier.len() ==> !same_folded((#[trigger] earlier[i]).0, "name"@),
        ({
            let entries = steam_entries(
                before + seq![
                    (
                        "1294660"@,
                        Vdf::Object(earlier + seq![("name"@, Vdf::Text(name))] + later),
                    ),
                ] + after,
            );
            nesting(entries) <= 32 && config@ == rendered(entries)
        }),
        has_named(tool_models(tools@), name),
    ensures
        r is Ok && r->Ok_0.name@ == name,
{
    law_chosen_tool_is_read_from_the_file(before, "1294660"@, earlier, name, later, after);
    law_resolving_the_tool(config_path, config, roots, tools, name, r);
}

/// The game is told once how the player logs in, in the same words for every player;
/// once who the player is, and once which server to use.
pub proof fn law_arguments_of_the_game(
    url: &str,
    homedir: &str,
    log: &str,
    username: &str,
    extra: &Vec<String>,
    path: Seq<u8>,
    r: Vec<String>,
)
    requires
        call_ensures(game_arguments, (url, homedir, log, username, extra), r),
        log@ == abslog_argument(path),
        are_allowed(texts(extra@)),
    ensures
        is_set_once(texts(r@), "-AUTH_TYPE="@, "password"@),
        is_set_once(texts(r@), "-AUTH_LOGIN="@, username@),
        is_set_once(texts(r@), "-RallyHereURL="@, url@),
        is_set_once(texts(r@), "-homedir="@, homedir@),
{
    law_identity_is_set_once(url@, homedir@, path, username@, texts(extra@));
}

/// The hexadecimal form of any 32 bytes is accepted as a digest, and so is whatever else
/// has 64 hexadecimal digits, and nothing more.
pub proof fn law_accepting_a_digest(s: &[char], bytes: Seq<u8>, r: bool)
    requires
        call_ensures(digest_text, (s,), r),
    ensures
        bytes.len() == 32 && s@ == hex_of(bytes) ==> r,
        r <==> s@.len() == 64 && forall|i: int|
            0 <= i < s@.len() ==> "0123456789abcdefABCDEF"@.contains(#[trigger] s@[i]),
{
    law_digest_is_64_hexadecimal_digits(s@);
    if bytes.len() == 32 {
        law_every_digest_is_accepted(bytes);
    }
}

/// A runtime that was recorded under the manifest that is expected, file by file, and
/// whose files are what it says, is current.
pub proof fn law_recognizing_the_runtime(
    build: &Build,
    installed: &Option<InstalledRuntime>,
    expected: &GameManifest,
    found: &Vec<FoundFile>,
    r: bool,
)
    requires
        call_ensures(installed_runtime_is_current, (build, installed, expected, found), r),
        expected.fault(build) is None,
        *installed is Some,
        installed->0.layout@ == "manifest-runtime-v1"@,
        found@.len() == expected.managed_files@.len(),
        forall|i: int|
            0 <= i < found@.len() ==> {
                let file = #[trigger] found@[i];
                &&& file.is_file
                &&& file.size == expected.managed_files@[i].size
                &&& file.sha256 matches Some(digest) && digest@
                    == expected.managed_files@[i].sha256@
            },
    ensures
        r <==> are_equal(installed->0.manifest, *expected),
        installed->0.manifest == *expected ==> r,
{
    law_recorded_runtime_is_current(build, installed->0, *expected, found@);
}

} // verus!
