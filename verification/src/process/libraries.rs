//! The directories that Steam keeps games in.
use crate::paths::{equal, is_absolute, is_rooted, join_of, join_text, same_path};
use crate::process::vdf::{
    entries_model, lemma_object_model, parse_vdf, parsed, text_in, Vdf, VdfValue,
};
use crate::text::{bytes_of, copied, letters, maybe_text, number_of, parse_number, views};
use vstd::prelude::*;

verus! {

/// The path that an entry of the list of libraries names: newer files hold an object
/// with the path under the library's number, older ones the path itself.
pub open spec fn listed_path(name: Seq<char>, value: Vdf) -> Option<Seq<char>> {
    if number_of(name) is None {
        None
    } else if text_in(value.get("path"@)) is Some {
        text_in(value.get("path"@))
    } else {
        value.text()
    }
}

/// The path is in the list.
pub open spec fn has_path(list: Seq<Seq<u8>>, path: Seq<u8>) -> bool {
    exists|i: int| 0 <= i < list.len() && same_path(#[trigger] list[i], path)
}

/// The libraries, with those of some entries added: absolute paths that are not in
/// the list yet.
pub open spec fn with_entries(libraries: Seq<Seq<u8>>, entries: Seq<(Seq<char>, Vdf)>) -> Seq<
    Seq<u8>,
>
    decreases entries.len(),
{
    if entries.len() == 0 {
        libraries
    } else {
        let before = with_entries(libraries, entries.drop_last());
        match listed_path(entries.last().0, entries.last().1) {
            Some(path) => {
                let bytes = vstd::utf8::encode_utf8(path);
                if is_rooted(bytes) && !has_path(before, bytes) {
                    before.push(bytes)
                } else {
                    before
                }
            },
            None => before,
        }
    }
}

/// The libraries, with those of a list of libraries added.
pub open spec fn with_document(libraries: Seq<Seq<u8>>, document: Option<Seq<char>>) -> Seq<Seq<u8>> {
    match document {
        Some(text) => match parsed(text) {
            Some(value) => match value.get("libraryfolders"@) {
                Some(Vdf::Object(entries)) => with_entries(libraries, entries),
                _ => libraries,
            },
            None => libraries,
        },
        None => libraries,
    }
}

/// The libraries that some lists of libraries add to the Steam directory itself.
pub open spec fn library_roots(steam_root: Seq<u8>, documents: Seq<Option<String>>) -> Seq<Seq<u8>>
    decreases documents.len(),
{
    if documents.len() == 0 {
        seq![steam_root]
    } else {
        with_document(
            library_roots(steam_root, documents.drop_last()),
            maybe_text(documents.last()),
        )
    }
}

pub fn contains_path(list: &Vec<Vec<u8>>, path: &[u8]) -> (r: bool)
    ensures
        r == has_path(views(list@), path@),
{
    let ghost all = views(list@);
    let mut i: usize = 0;
    while i < list.len()
        invariant
            i <= list@.len(),
            all == views(list@),
            forall|j: int| 0 <= j < i ==> !same_path(#[trigger] all[j], path@),
        decreases list@.len() - i,
    {
        if equal(list[i].as_slice(), path) {
            assert(same_path(all[i as int], path@));
            return true;
        }
        assert(!same_path(all[i as int], path@));
        i = i + 1;
    }
    false
}

fn path_of_entry<'a>(name: &str, value: &'a VdfValue) -> (r: Option<&'a str>)
    ensures
        match r {
            Some(path) => listed_path(name@, value.model()) == Some(path@),
            None => listed_path(name@, value.model()) is None,
        },
{
    if parse_number(letters(name).as_slice()).is_none() {
        return None;
    }
    if let Some(inner) = value.get("path") {
        if let Some(path) = inner.text() {
            return Some(path);
        }
    }
    value.text()
}

fn add_entries(libraries: &mut Vec<Vec<u8>>, entries: &Vec<(String, VdfValue)>)
    ensures
        views(final(libraries)@) == with_entries(
            views(old(libraries)@),
            entries_model(entries@),
        ),
{
    let ghost start = views(libraries@);
    let ghost all = entries_model(entries@);
    let mut i: usize = 0;
    assert(all.take(0) =~= Seq::empty());
    while i < entries.len()
        invariant
            i <= entries@.len(),
            all == entries_model(entries@),
            views(libraries@) == with_entries(start, all.take(i as int)),
        decreases entries@.len() - i,
    {
        assert(all.take(i + 1).drop_last() =~= all.take(i as int));
        if let Some(path) = path_of_entry(entries[i].0.as_str(), &entries[i].1) {
            let bytes = bytes_of(path);
            if is_absolute(bytes.as_slice()) && !contains_path(libraries, bytes.as_slice()) {
                let ghost before = views(libraries@);
                let ghost added = bytes@;
                libraries.push(bytes);
                assert(views(libraries@) =~= before.push(added));
            }
        }
        i = i + 1;
    }
    assert(all.take(i as int) =~= all);
}

/// The directories that Steam keeps games in: its own, and those that its lists of
/// libraries name. `documents` are the contents of the lists that could be read.
pub fn steam_library_roots(steam_root: &[u8], documents: &Vec<Option<String>>) -> (r: Vec<Vec<u8>>)
    ensures
        views(r@) == library_roots(steam_root@, documents@),
        r@.len() > 0,
        r@[0]@ == steam_root@,
{
    let mut libraries: Vec<Vec<u8>> = Vec::new();
    let own = copied(steam_root);
    assert(own@ =~= steam_root@);
    libraries.push(own);
    assert(views(libraries@) =~= seq![steam_root@]);
    let mut i: usize = 0;
    assert(documents@.take(0) =~= Seq::empty());
    while i < documents.len()
        invariant
            i <= documents@.len(),
            views(libraries@) == library_roots(steam_root@, documents@.take(i as int)),
        decreases documents@.len() - i,
    {
        assert(documents@.take(i + 1).drop_last() =~= documents@.take(i as int));
        if let Some(text) = &documents[i] {
            if let Some(value) = parse_vdf(text.as_str()) {
                if let Some(VdfValue::Object(entries)) = value.get("libraryfolders") {
                    proof {
                        lemma_object_model(*entries);
                    }
                    add_entries(&mut libraries, entries);
                }
            }
        }
        i = i + 1;
    }
    assert(documents@.take(i as int) =~= documents@);
    proof {
        lemma_steam_is_first(steam_root@, documents@);
        assert(views(libraries@)[0] == libraries@[0]@);
    }
    libraries
}

proof fn lemma_entries_only_add(libraries: Seq<Seq<u8>>, entries: Seq<(Seq<char>, Vdf)>)
    ensures
        libraries.is_prefix_of(with_entries(libraries, entries)),
    decreases entries.len(),
{
    if entries.len() > 0 {
        lemma_entries_only_add(libraries, entries.drop_last());
        let before = with_entries(libraries, entries.drop_last());
        let after = with_entries(libraries, entries);
        assert(before.is_prefix_of(after));
        assert(after.subrange(0, libraries.len() as int) =~= before.subrange(
            0,
            libraries.len() as int,
        ));
    } else {
        assert(libraries.subrange(0, libraries.len() as int) =~= libraries);
    }
}

proof fn lemma_steam_is_first(steam_root: Seq<u8>, documents: Seq<Option<String>>)
    ensures
        library_roots(steam_root, documents).len() > 0,
        library_roots(steam_root, documents)[0] == steam_root,
    decreases documents.len(),
{
    if documents.len() > 0 {
        lemma_steam_is_first(steam_root, documents.drop_last());
        let before = library_roots(steam_root, documents.drop_last());
        if let Some(text) = maybe_text(documents.last()) {
            if let Some(value) = parsed(text) {
                if let Some(Vdf::Object(entries)) = value.get("libraryfolders"@) {
                    lemma_entries_only_add(before, entries);
                    let after = with_entries(before, entries);
                    assert(after.subrange(0, before.len() as int)[0] == before[0]);
                }
            }
        }
    }
}

/// The list names no path twice.
pub open spec fn is_distinct(list: Seq<Seq<u8>>) -> bool {
    forall|i: int, j: int| 0 <= i < j < list.len() ==> !same_path(#[trigger] list[i], #[trigger] list[j])
}

proof fn lemma_entries_stay_distinct(libraries: Seq<Seq<u8>>, entries: Seq<(Seq<char>, Vdf)>)
    requires
        is_distinct(libraries),
    ensures
        is_distinct(with_entries(libraries, entries)),
    decreases entries.len(),
{
    if entries.len() > 0 {
        lemma_entries_stay_distinct(libraries, entries.drop_last());
    }
}

/// No library is listed twice, whatever the lists say.
pub proof fn law_libraries_are_distinct(steam_root: Seq<u8>, documents: Seq<Option<String>>)
    ensures
        is_distinct(library_roots(steam_root, documents)),
    decreases documents.len(),
{
    if documents.len() > 0 {
        law_libraries_are_distinct(steam_root, documents.drop_last());
        let before = library_roots(steam_root, documents.drop_last());
        if let Some(text) = maybe_text(documents.last()) {
            if let Some(value) = parsed(text) {
                if let Some(Vdf::Object(entries)) = value.get("libraryfolders"@) {
                    lemma_entries_stay_distinct(before, entries);
                }
            }
        }
    }
}

/// The game's executable in a library.
pub open spec fn game_in(library: Seq<u8>) -> Seq<u8> {
    join_of(
        library,
        vstd::utf8::encode_utf8(
            "steamapps/common/Divine Knockout/DivineKnockout/Binaries/Win64/DivineKnockout.exe"@,
        ),
    )
}

/// The game's executable in a library.
pub fn game_executable_in_library(library: &[u8]) -> (r: Vec<u8>)
    ensures
        r@ == game_in(library@),
{
    join_text(
        library,
        "steamapps/common/Divine Knockout/DivineKnockout/Binaries/Win64/DivineKnockout.exe",
    )
}

/// Where the game is: `r` is the first library that has it, or the Steam directory.
pub open spec fn is_game_library(libraries: Seq<Seq<u8>>, has_game: Seq<bool>, r: Seq<u8>) -> bool {
    ||| exists|i: int|
        {
            &&& 0 <= i < libraries.len() && i < has_game.len()
            &&& #[trigger] has_game[i]
            &&& r == libraries[i]
            &&& forall|j: int| 0 <= j < i ==> !#[trigger] has_game[j]
        }
    ||| r == libraries[0] && forall|j: int|
        0 <= j < libraries.len() && j < has_game.len() ==> !#[trigger] has_game[j]
}

/// Where the game is; `has_game` says of each library whether the game's executable
/// is there.
pub fn locate_game_library(libraries: &Vec<Vec<u8>>, has_game: &Vec<bool>) -> (r: Vec<u8>)
    requires
        libraries@.len() > 0,
    ensures
        is_game_library(views(libraries@), has_game@, r@),
{
    let mut i: usize = 0;
    while i < libraries.len() && i < has_game.len()
        invariant
            i <= libraries@.len(),
            i <= has_game@.len(),
            forall|j: int| 0 <= j < i ==> !#[trigger] has_game@[j],
        decreases libraries@.len() - i,
    {
        if has_game[i] {
            let r = copied(libraries[i].as_slice());
            assert(r@ =~= views(libraries@)[i as int]);
            return r;
        }
        i = i + 1;
    }
    let r = copied(libraries[0].as_slice());
    assert(r@ =~= views(libraries@)[0]);
    r
}

} // verus!
