//! How paths are put together and taken apart.
use crate::laws::manifest::lemma_pieces_of_both_sides;
use crate::paths::{
    body_start, counted, extension_dot, extension_of, is_plain_name, is_rooted, join_of,
    law_joined_path_comes_apart, lemma_joined_path_is_bare, name_of, nearest_named, parent_of,
    renamed, same_path, starts_here, tail, tail_start, with_extension_of, without_end,
};
use crate::text::pieces;
use vstd::prelude::*;

verus! {

/// A path from the root stands for itself. Another one is put behind a slash, unless
/// there is one already, or nothing to put it behind.
pub proof fn law_paths_are_joined(base: Seq<u8>, more: Seq<u8>)
    ensures
        join_of(base, seq![47u8] + more) == seq![47u8] + more,
        more.len() > 0 && more[0] != 47 && base.len() > 0 && base.last() != 47 ==> join_of(
            base,
            more,
        ) == base + seq![47u8] + more,
        more.len() > 0 && more[0] != 47 && base.len() > 0 && base.last() == 47 ==> join_of(
            base,
            more,
        ) == base + more,
        more.len() > 0 && more[0] != 47 ==> join_of(Seq::empty(), more) == more,
{
    assert((seq![47u8] + more)[0] == 47);
    assert(Seq::<u8>::empty() + more =~= more);
}

proof fn lemma_start_is_kept(p: Seq<u8>, more: Seq<u8>)
    requires
        p.len() > 0,
        more.len() > 0,
        more[0] == 47,
    ensures
        body_start(p + more) == body_start(p),
{
    let whole = p + more;
    assert(whole[0] == p[0]);
    if p.len() > 1 {
        assert(whole[1] == p[1]);
    } else {
        assert(whole[1] == 47);
    }
}

/// Slashes and dots at the end of a path change neither its name nor its directory.
pub proof fn law_end_of_a_path_is_disregarded(p: Seq<u8>)
    requires
        p.len() > 0,
    ensures
        name_of(p + seq![47u8]) == name_of(p),
        parent_of(p + seq![47u8]) == parent_of(p),
        name_of(p + seq![47u8, 46u8]) == name_of(p),
        parent_of(p + seq![47u8, 46u8]) == parent_of(p),
{
    let slashed = p + seq![47u8];
    lemma_start_is_kept(p, seq![47u8]);
    assert(slashed.drop_last() =~= p);
    assert(tail(slashed) =~= Seq::empty());
    assert(without_end(slashed) == without_end(p));
    let dotted = p + seq![47u8, 46u8];
    lemma_start_is_kept(p, seq![47u8, 46u8]);
    assert(dotted.drop_last() =~= slashed);
    assert(dotted.len() > body_start(dotted));
    assert(tail_start(slashed, body_start(dotted)) == slashed.len());
    assert(tail_start(dotted, body_start(dotted)) == slashed.len());
    assert(tail(dotted) =~= seq![46u8]);
    assert(without_end(dotted) == without_end(slashed));
}

/// A step upwards has no name.
pub proof fn law_step_upwards_has_no_name(p: Seq<u8>)
    requires
        p.len() > 0,
        p.last() != 47,
    ensures
        name_of(p + seq![47u8, 46u8, 46u8]) is None,
{
    let whole = p + seq![47u8, 46u8, 46u8];
    lemma_start_is_kept(p, seq![47u8, 46u8, 46u8]);
    let start = body_start(whole);
    let slashed = p + seq![47u8];
    assert(whole.drop_last().drop_last() =~= slashed);
    assert(whole.drop_last() =~= slashed.push(46u8));
    assert(tail_start(slashed, start) == slashed.len());
    assert(tail_start(whole.drop_last(), start) == slashed.len());
    assert(tail_start(whole, start) == slashed.len());
    assert(tail(whole) =~= seq![46u8, 46u8]);
    assert(tail(whole)[1] == 46 && tail(whole).len() == 2);
    assert(tail(whole) != seq![46u8]) by {
        assert(seq![46u8].len() == 1);
    }
    assert(without_end(whole) == whole);
}

proof fn lemma_dot(stem: Seq<u8>, extension: Seq<u8>)
    requires
        stem.len() > 0,
        !extension.contains(46),
    ensures
        extension_dot(stem + seq![46u8] + extension) == Some(stem.len() as int),
    decreases extension.len(),
{
    let name = stem + seq![46u8] + extension;
    if extension.len() > 0 {
        assert(extension.contains(extension.last()));
        assert(name.drop_last() =~= stem + seq![46u8] + extension.drop_last());
        assert forall|i: int| 0 <= i < extension.drop_last().len() implies extension.drop_last()[i]
            != 46 by {
            assert(extension.contains(extension[i]));
        }
        lemma_dot(stem, extension.drop_last());
    }
}

proof fn lemma_no_dot(name: Seq<u8>)
    requires
        forall|i: int| 0 < i < name.len() ==> #[trigger] name[i] != 46,
    ensures
        extension_dot(name) is None,
    decreases name.len(),
{
    if name.len() > 1 {
        assert(name[name.len() - 1] != 46);
        assert forall|i: int| 0 < i < name.drop_last().len() implies #[trigger] name.drop_last()[i]
            != 46 by {
            assert(name[i] != 46);
        }
        lemma_no_dot(name.drop_last());
    }
}

/// The extension of a file stands behind the last dot of its name, and replacing it
/// leaves everything before the dot.
pub proof fn law_extensions(
    directory: Seq<u8>,
    stem: Seq<u8>,
    extension: Seq<u8>,
    other: Seq<u8>,
)
    requires
        without_end(directory) == directory,
        stem.len() > 0,
        !extension.contains(46),
        is_plain_name(stem + seq![46u8] + extension),
    ensures
        extension_of(join_of(directory, stem + seq![46u8] + extension)) == Some(extension),
        with_extension_of(join_of(directory, stem + seq![46u8] + extension), other) == join_of(
            directory,
            stem + seq![46u8] + other,
        ),
{
    let name = stem + seq![46u8] + extension;
    let p = join_of(directory, name);
    law_joined_path_comes_apart(directory, name);
    lemma_joined_path_is_bare(directory, name);
    lemma_dot(stem, extension);
    assert(name.skip(stem.len() as int + 1) =~= extension);
    assert(name[0] != 47) by {
        assert(name.contains(name[0]));
    }
    assert((stem + seq![46u8] + other)[0] == name[0]);
    assert(with_extension_of(p, other) =~= join_of(directory, stem + seq![46u8] + other));
}

/// A name without dots, or with one only at its start, has no extension; setting one
/// adds it.
pub proof fn law_no_extension(directory: Seq<u8>, name: Seq<u8>, other: Seq<u8>)
    requires
        without_end(directory) == directory,
        is_plain_name(name),
        forall|i: int| 0 < i < name.len() ==> #[trigger] name[i] != 46,
    ensures
        extension_of(join_of(directory, name)) is None,
        with_extension_of(join_of(directory, name), other) == join_of(directory, name)
            + seq![46u8] + other,
{
    let p = join_of(directory, name);
    law_joined_path_comes_apart(directory, name);
    lemma_joined_path_is_bare(directory, name);
    lemma_no_dot(name);
    assert(p.take(p.len() as int) =~= p);
}

/// Renaming a file leaves it in its directory.
pub proof fn law_renamed_file_stays_in_its_directory(
    directory: Seq<u8>,
    name: Seq<u8>,
    other: Seq<u8>,
)
    requires
        without_end(directory) == directory,
        is_plain_name(name),
        is_plain_name(other),
    ensures
        renamed(join_of(directory, name), other) == join_of(directory, other),
        name_of(renamed(join_of(directory, name), other)) == Some(other),
        parent_of(renamed(join_of(directory, name), other)) == Some(directory),
{
    law_joined_path_comes_apart(directory, name);
    law_joined_path_comes_apart(directory, other);
}

/// A directory of a name is found at the path itself, or else above it.
pub proof fn law_directories_are_found_upwards(directory: Seq<u8>, name: Seq<u8>, wanted: Seq<u8>)
    requires
        without_end(directory) == directory,
        is_plain_name(name),
    ensures
        name == wanted ==> nearest_named(join_of(directory, name), wanted) == Some(
            join_of(directory, name),
        ),
        name != wanted ==> nearest_named(join_of(directory, name), wanted) == nearest_named(
            directory,
            wanted,
        ),
        nearest_named(Seq::empty(), wanted) is None,
        nearest_named(seq![47u8], wanted) is None,
{
    law_joined_path_comes_apart(directory, name);
    let root = seq![47u8];
    assert(without_end(root) == root);
    let empty = Seq::<u8>::empty();
    assert(without_end(empty) == empty);
}

proof fn lemma_counted_joins(a: Seq<Seq<u8>>, b: Seq<Seq<u8>>)
    ensures
        counted(a + b) == counted(a) + counted(b),
    decreases b.len(),
{
    if b.len() == 0 {
        assert(a + b =~= a);
        assert(counted(a) + counted(b) =~= counted(a));
    } else {
        assert((a + b).drop_last() =~= a + b.drop_last());
        lemma_counted_joins(a, b.drop_last());
        assert(counted(a + b) =~= counted(a) + counted(b));
    }
}

proof fn lemma_counted_of_two(a: Seq<u8>, b: Seq<u8>)
    ensures
        counted(pieces(a + seq![47u8] + b, 47)) == counted(pieces(a, 47)) + counted(pieces(b, 47)),
{
    lemma_pieces_of_both_sides(a, b, 47u8);
    lemma_counted_joins(pieces(a, 47), pieces(b, 47));
}

proof fn lemma_counted_of_plain(name: Seq<u8>)
    requires
        !name.contains(47),
    ensures
        pieces(name, 47) == seq![name],
        counted(pieces(name, 47)) == (if name.len() == 0 || name == seq![46u8] {
            Seq::<Seq<u8>>::empty()
        } else {
            seq![name]
        }),
{
    let empty = Seq::<u8>::empty();
    crate::text::lemma_pieces_append(empty, name, 47u8);
    assert(empty + name =~= name);
    assert(pieces(name, 47) =~= seq![name]);
    assert(seq![name].drop_last() =~= Seq::empty());
    assert(counted(seq![name].drop_last()) =~= Seq::empty());
    if name.len() != 0 && name != seq![46u8] {
        assert(counted(seq![name]) =~= seq![name]);
    }
}

/// Doubled slashes, slashes at the end and dots between slashes do not make another path.
pub proof fn law_same_path_in_other_words(a: Seq<u8>, b: Seq<u8>)
    requires
        a.len() > 0,
    ensures
        same_path(a, a),
        same_path(a + seq![47u8], a),
        same_path(a + seq![47u8, 46u8], a),
        same_path(a + seq![47u8, 47u8] + b, a + seq![47u8] + b),
        same_path(a + seq![47u8, 46u8, 47u8] + b, a + seq![47u8] + b),
{
    let empty = Seq::<u8>::empty();
    let dot = seq![46u8];
    lemma_counted_of_plain(empty);
    lemma_counted_of_plain(dot);
    lemma_counted_of_two(a, empty);
    assert(a + seq![47u8] + empty =~= a + seq![47u8]);
    lemma_counted_of_two(a, dot);
    assert(a + seq![47u8] + dot =~= a + seq![47u8, 46u8]);
    let all = counted(pieces(a, 47));
    assert(all + Seq::<Seq<u8>>::empty() =~= all);
    lemma_counted_of_two(a, b);
    lemma_counted_of_two(a + seq![47u8], b);
    assert(a + seq![47u8] + seq![47u8] + b =~= a + seq![47u8, 47u8] + b);
    lemma_counted_of_two(a + seq![47u8, 46u8], b);
    assert(a + seq![47u8, 46u8] + seq![47u8] + b =~= a + seq![47u8, 46u8, 47u8] + b);
    let rest = seq![
        seq![47u8],
        seq![47u8, 46u8],
        seq![47u8, 47u8] + b,
        seq![47u8] + b,
        seq![47u8, 46u8, 47u8] + b,
    ];
    assert forall|i: int| 0 <= i < 5 implies is_rooted(a + #[trigger] rest[i]) == is_rooted(a)
        && starts_here(a + rest[i]) == starts_here(a) by {
        lemma_start_of_longer(a, rest[i]);
    }
    assert(rest[0] == seq![47u8] && rest[1] == seq![47u8, 46u8] && rest[2] == seq![47u8, 47u8] + b
        && rest[3] == seq![47u8] + b && rest[4] == seq![47u8, 46u8, 47u8] + b);
    assert(a + rest[2] =~= a + seq![47u8, 47u8] + b);
    assert(a + rest[3] =~= a + seq![47u8] + b);
    assert(a + rest[4] =~= a + seq![47u8, 46u8, 47u8] + b);
}

proof fn lemma_start_of_longer(p: Seq<u8>, more: Seq<u8>)
    requires
        p.len() > 0,
        more.len() > 0,
        more[0] == 47,
    ensures
        is_rooted(p + more) == is_rooted(p),
        starts_here(p + more) == starts_here(p),
{
    let whole = p + more;
    assert(whole[0] == p[0]);
    if p.len() > 1 {
        assert(whole[1] == p[1]);
    } else {
        assert(whole[1] == 47);
    }
}

/// Files of different names, or in different directories, are different.
pub proof fn law_different_files_have_different_paths(
    a: Seq<u8>,
    b: Seq<u8>,
    name: Seq<u8>,
    other: Seq<u8>,
)
    requires
        a.len() > 0,
        b.len() > 0,
        is_plain_name(name),
        is_plain_name(other),
    ensures
        same_path(a + seq![47u8] + name, b + seq![47u8] + other) <==> same_path(a, b) && name
            == other,
        !same_path(seq![47u8] + a, b) || b[0] == 47,
{
    lemma_counted_of_plain(name);
    lemma_counted_of_plain(other);
    lemma_counted_of_two(a, name);
    lemma_counted_of_two(b, other);
    lemma_start_of_longer(a, seq![47u8] + name);
    lemma_start_of_longer(b, seq![47u8] + other);
    assert(a + (seq![47u8] + name) =~= a + seq![47u8] + name);
    assert(b + (seq![47u8] + other) =~= b + seq![47u8] + other);
    let left = counted(pieces(a, 47));
    let right = counted(pieces(b, 47));
    if left + seq![name] == right + seq![other] {
        assert((left + seq![name]).drop_last() =~= left);
        assert((right + seq![other]).drop_last() =~= right);
        assert((left + seq![name]).last() == name);
    }
    assert((seq![47u8] + a)[0] == 47);
}

/// A path that starts with a dot is told apart from the same path without it, and so is
/// one that starts at the root.
pub proof fn law_starts_of_paths_count(name: Seq<u8>)
    requires
        is_plain_name(name),
    ensures
        !same_path(seq![46u8, 47u8] + name, name),
        !same_path(seq![47u8] + name, name),
        same_path(seq![46u8, 47u8] + name, seq![46u8, 47u8, 47u8] + name),
{
    assert(name[0] != 47) by {
        assert(name.contains(name[0]));
    }
    let here = seq![46u8, 47u8] + name;
    assert(here[0] == 46 && here[1] == 47);
    assert(!starts_here(name)) by {
        if name.len() > 1 {
            assert(name.contains(name[1]));
        } else {
            assert(name =~= seq![name[0]]);
        }
    }
    let rooted = seq![47u8] + name;
    assert(rooted[0] == 47);
    law_same_path_in_other_words(seq![46u8], name);
    let dot = seq![46u8];
    assert(dot + seq![47u8] + name =~= here);
    assert(dot + seq![47u8, 47u8] + name =~= seq![46u8, 47u8, 47u8] + name);
}

/// What has no name gets a file in it.
pub proof fn law_root_cannot_be_renamed(name: Seq<u8>)
    requires
        is_plain_name(name),
    ensures
        name_of(seq![47u8]) is None,
        parent_of(seq![47u8]) is None,
        renamed(seq![47u8], name) == seq![47u8] + name,
        parent_of(Seq::empty()) is None,
{
    assert(name[0] != 47) by {
        assert(name.contains(name[0]));
    }
    let root = seq![47u8];
    assert(without_end(root) == root);
    let empty = Seq::<u8>::empty();
    assert(without_end(empty) == empty);
}

} // verus!
