//! File system paths as text.
//!
//! A path is the byte string that names it, read the way Unix reads it: components
//! stand between slashes, empty ones and `.` do not count, except for a `.` at the
//! start of a relative path.
use crate::text::{append, copied, part, pieces, same, split, views};
use vstd::prelude::*;

verus! {

pub const SLASH: u8 = 47;

pub const DOT: u8 = 46;

/// A path starts at the root.
pub open spec fn is_rooted(p: Seq<u8>) -> bool {
    p.len() > 0 && p[0] == SLASH
}

/// A relative path starts with a `.` component.
pub open spec fn starts_here(p: Seq<u8>) -> bool {
    p.len() > 0 && p[0] == DOT && (p.len() == 1 || p[1] == SLASH)
}

/// How much of the path the root or the leading `.` takes up.
pub open spec fn body_start(p: Seq<u8>) -> int {
    if is_rooted(p) || starts_here(p) {
        1
    } else {
        0
    }
}

/// Where the text behind the last slash begins, not looking before `from`.
pub open spec fn tail_start(p: Seq<u8>, from: int) -> int
    decreases p.len(),
{
    if p.len() == 0 || p.len() <= from || p.last() == SLASH {
        p.len() as int
    } else {
        tail_start(p.drop_last(), from)
    }
}

/// The text behind the last slash of the path's body.
pub open spec fn tail(p: Seq<u8>) -> Seq<u8> {
    p.subrange(tail_start(p, body_start(p)), p.len() as int)
}

/// The path without the slashes and `.` components at its end.
pub open spec fn without_end(p: Seq<u8>) -> Seq<u8>
    decreases p.len(),
{
    if p.len() > body_start(p) && (tail(p).len() == 0 || tail(p) == seq![DOT]) {
        without_end(p.drop_last())
    } else {
        p
    }
}

/// The last component of a path, unless it is the root, `.` or `..`.
pub open spec fn name_of(p: Seq<u8>) -> Option<Seq<u8>> {
    let t = without_end(p);
    if t.len() > body_start(t) && tail(t) != seq![DOT, DOT] {
        Some(tail(t))
    } else {
        None
    }
}

/// The path without its last component; the root and the empty path have none.
pub open spec fn parent_of(p: Seq<u8>) -> Option<Seq<u8>> {
    let t = without_end(p);
    let start = body_start(t);
    let name = tail_start(t, start);
    if t.len() > start {
        Some(without_end(t.take(if name > start { name - 1 } else { name })))
    } else if starts_here(t) {
        Some(Seq::empty())
    } else {
        None
    }
}

/// `more` as seen from `base`: a rooted path stands for itself.
pub open spec fn join_of(base: Seq<u8>, more: Seq<u8>) -> Seq<u8> {
    if is_rooted(more) {
        more
    } else if base.len() == 0 || base.last() == SLASH {
        base + more
    } else {
        base + seq![SLASH] + more
    }
}

/// The path with its last component, if it has a name, replaced.
pub open spec fn renamed(p: Seq<u8>, name: Seq<u8>) -> Seq<u8> {
    if name_of(p) is Some && parent_of(p) is Some {
        join_of(parent_of(p)->0, name)
    } else {
        join_of(p, name)
    }
}

/// Where the extension of a file name begins, at its dot, if it has one.
pub open spec fn extension_dot(name: Seq<u8>) -> Option<int>
    decreases name.len(),
{
    if name.len() <= 1 {
        None
    } else if name.last() == DOT {
        Some(name.len() - 1)
    } else {
        extension_dot(name.drop_last())
    }
}

/// The extension of the last component.
pub open spec fn extension_of(p: Seq<u8>) -> Option<Seq<u8>> {
    match name_of(p) {
        Some(name) => match extension_dot(name) {
            Some(dot) => Some(name.skip(dot + 1)),
            None => None,
        },
        None => None,
    }
}

/// The path with the extension of its last component replaced, or added.
pub open spec fn with_extension_of(p: Seq<u8>, extension: Seq<u8>) -> Seq<u8> {
    match name_of(p) {
        Some(name) => {
            let t = without_end(p);
            let stem = match extension_dot(name) {
                Some(dot) => dot,
                None => name.len() as int,
            };
            t.take(t.len() - name.len() + stem) + seq![DOT] + extension
        },
        None => p,
    }
}

/// The components of a list that count.
pub open spec fn counted(parts: Seq<Seq<u8>>) -> Seq<Seq<u8>>
    decreases parts.len(),
{
    if parts.len() == 0 {
        Seq::empty()
    } else {
        let before = counted(parts.drop_last());
        if parts.last().len() == 0 || parts.last() == seq![DOT] {
            before
        } else {
            before.push(parts.last())
        }
    }
}

/// Two texts name the same path: they agree on the root, on a leading `.` and on
/// every component that counts.
pub open spec fn same_path(a: Seq<u8>, b: Seq<u8>) -> bool {
    &&& is_rooted(a) == is_rooted(b)
    &&& starts_here(a) == starts_here(b)
    &&& counted(pieces(a, SLASH)) == counted(pieces(b, SLASH))
}

pub fn is_absolute(p: &[u8]) -> (r: bool)
    ensures
        r == is_rooted(p@),
{
    p.len() > 0 && p[0] == SLASH
}

fn begins_here(p: &[u8]) -> (r: bool)
    ensures
        r == starts_here(p@),
{
    p.len() > 0 && p[0] == DOT && (p.len() == 1 || p[1] == SLASH)
}

fn find_body(p: &[u8]) -> (r: usize)
    ensures
        r == body_start(p@),
        r <= p@.len(),
{
    if is_absolute(p) || begins_here(p) {
        1
    } else {
        0
    }
}

fn find_tail(p: &[u8], from: usize) -> (r: usize)
    requires
        from <= p@.len(),
    ensures
        r == tail_start(p@, from as int),
        from <= r <= p@.len(),
{
    let mut i: usize = p.len();
    assert(p@.take(i as int) =~= p@);
    while i > from && p[i - 1] != SLASH
        invariant
            from <= i <= p@.len(),
            tail_start(p@.take(i as int), from as int) == tail_start(p@, from as int),
        decreases i,
    {
        assert(p@.take(i as int).drop_last() =~= p@.take(i - 1));
        i = i - 1;
    }
    i
}

/// How much of a path is left without the slashes and `.` components at its end.
fn find_end(p: &[u8]) -> (r: usize)
    ensures
        r <= p@.len(),
        p@.take(r as int) == without_end(p@),
{
    let mut n: usize = p.len();
    assert(p@.take(n as int) =~= p@);
    loop
        invariant
            n <= p@.len(),
            without_end(p@.take(n as int)) == without_end(p@),
        decreases n,
    {
        let current = vstd::slice::slice_subrange(p, 0, n);
        assert(current@ =~= p@.take(n as int));
        let start = find_body(current);
        let name = find_tail(current, start);
        proof {
            let last = tail(current@);
            if last.len() == 1 {
                assert(last[0] == current@[name as int]);
                assert(last[0] == DOT ==> last =~= seq![DOT]);
            }
        }
        if n > start && (n == name || (n - name == 1 && current[name] == DOT)) {
            assert(current@.drop_last() =~= p@.take(n - 1));
            n = n - 1;
        } else {
            return n;
        }
    }
}

/// The last component of a path, unless it is the root, `.` or `..`.
pub fn file_name(p: &[u8]) -> (r: Option<Vec<u8>>)
    ensures
        match r {
            Some(name) => name_of(p@) == Some(name@),
            None => name_of(p@) is None,
        },
{
    let n = find_end(p);
    let t = vstd::slice::slice_subrange(p, 0, n);
    assert(t@ =~= without_end(p@));
    let start = find_body(t);
    let name = find_tail(t, start);
    proof {
        let last = tail(t@);
        if last.len() == 2 {
            assert(last[0] == t@[name as int] && last[1] == t@[name + 1]);
            assert(last[0] == DOT && last[1] == DOT ==> last =~= seq![DOT, DOT]);
        }
    }
    if n > start && !(n - name == 2 && t[name] == DOT && t[name + 1] == DOT) {
        Some(part(t, name, n))
    } else {
        None
    }
}

/// The path without its last component.
pub fn parent(p: &[u8]) -> (r: Option<Vec<u8>>)
    ensures
        match r {
            Some(directory) => parent_of(p@) == Some(directory@),
            None => parent_of(p@) is None,
        },
{
    let n = find_end(p);
    let t = vstd::slice::slice_subrange(p, 0, n);
    assert(t@ =~= without_end(p@));
    let start = find_body(t);
    let name = find_tail(t, start);
    if n > start {
        let cut: usize = if name > start {
            name - 1
        } else {
            name
        };
        let before = vstd::slice::slice_subrange(t, 0, cut);
        assert(before@ =~= t@.take(cut as int));
        let end = find_end(before);
        let directory = part(before, 0, end);
        assert(directory@ =~= before@.take(end as int));
        Some(directory)
    } else if begins_here(t) {
        let empty: Vec<u8> = Vec::new();
        assert(empty@ =~= Seq::empty());
        Some(empty)
    } else {
        None
    }
}

/// `more` as seen from `base`.
pub fn join(base: &[u8], more: &[u8]) -> (r: Vec<u8>)
    ensures
        r@ == join_of(base@, more@),
{
    if is_absolute(more) {
        let r = copied(more);
        assert(r@ =~= more@);
        return r;
    }
    let mut r = copied(base);
    assert(r@ =~= base@);
    if base.len() > 0 && base[base.len() - 1] != SLASH {
        r.push(SLASH);
        assert(r@ =~= base@ + seq![SLASH]);
    }
    append(&mut r, more);
    r
}

/// `more`, given as text, as seen from `base`.
pub fn join_text(base: &[u8], more: &str) -> (r: Vec<u8>)
    ensures
        r@ == join_of(base@, vstd::utf8::encode_utf8(more@)),
{
    join(base, more.as_bytes())
}

/// The path with its last component replaced.
pub fn with_file_name(p: &[u8], name: &[u8]) -> (r: Vec<u8>)
    ensures
        r@ == renamed(p@, name@),
{
    match (file_name(p), parent(p)) {
        (Some(_), Some(directory)) => join(directory.as_slice(), name),
        _ => join(p, name),
    }
}

fn find_extension(name: &[u8]) -> (r: Option<usize>)
    ensures
        match r {
            Some(dot) => extension_dot(name@) == Some(dot as int) && dot < name@.len(),
            None => extension_dot(name@) is None,
        },
{
    let mut i: usize = name.len();
    assert(name@.take(i as int) =~= name@);
    while i > 1
        invariant
            i <= name@.len(),
            extension_dot(name@.take(i as int)) == extension_dot(name@),
        decreases i,
    {
        assert(name@.take(i as int).drop_last() =~= name@.take(i - 1));
        if name[i - 1] == DOT {
            return Some(i - 1);
        }
        i = i - 1;
    }
    None
}

/// The extension of the last component.
pub fn extension(p: &[u8]) -> (r: Option<Vec<u8>>)
    ensures
        match r {
            Some(extension) => extension_of(p@) == Some(extension@),
            None => extension_of(p@) is None,
        },
{
    match file_name(p) {
        Some(name) => match find_extension(name.as_slice()) {
            Some(dot) => {
                let end: usize = name.len();
                let r = part(name.as_slice(), dot + 1, end);
                assert(r@ =~= name@.skip(dot + 1));
                Some(r)
            },
            None => None,
        },
        None => None,
    }
}

proof fn lemma_tail_start(p: Seq<u8>, from: int)
    requires
        0 <= from <= p.len(),
    ensures
        from <= tail_start(p, from) <= p.len(),
    decreases p.len(),
{
    if p.len() > from && p.last() != SLASH {
        lemma_tail_start(p.drop_last(), from);
    }
}

/// The path with the extension of its last component replaced, or added.
pub fn with_extension(p: &[u8], extension: &[u8]) -> (r: Vec<u8>)
    requires
        extension@.len() > 0,
    ensures
        r@ == with_extension_of(p@, extension@),
{
    match file_name(p) {
        Some(name) => {
            let n = find_end(p);
            proof {
                lemma_tail_start(without_end(p@), body_start(without_end(p@)));
            }
            let stem: usize = match find_extension(name.as_slice()) {
                Some(dot) => dot,
                None => name.len(),
            };
            let cut: usize = n - name.len() + stem;
            let mut r = part(p, 0, cut);
            assert(r@ =~= without_end(p@).take(cut as int));
            r.push(DOT);
            append(&mut r, extension);
            assert(r@ =~= without_end(p@).take(cut as int) + seq![DOT] + extension@);
            r
        },
        None => {
            let r = copied(p);
            assert(r@ =~= p@);
            r
        },
    }
}

fn count_parts(parts: &Vec<Vec<u8>>) -> (r: Vec<Vec<u8>>)
    ensures
        views(r@) == counted(views(parts@)),
{
    let mut r: Vec<Vec<u8>> = Vec::new();
    let ghost all = views(parts@);
    let mut i: usize = 0;
    assert(views(r@) =~= Seq::empty());
    while i < parts.len()
        invariant
            i <= parts@.len(),
            all == views(parts@),
            views(r@) == counted(all.take(i as int)),
        decreases parts@.len() - i,
    {
        assert(all.take(i + 1).drop_last() =~= all.take(i as int));
        let piece = &parts[i];
        let n = piece.len();
        assert(n == 1 ==> (piece@ =~= seq![DOT] <==> piece@[0] == DOT));
        if n > 0 && !(n == 1 && piece[0] == DOT) {
            let ghost before = views(r@);
            let copy = part(piece.as_slice(), 0, n);
            assert(copy@ =~= piece@);
            r.push(copy);
            assert(views(r@) =~= before.push(piece@));
        }
        i = i + 1;
    }
    assert(all.take(i as int) =~= all);
    r
}

/// Whether two lists hold the same byte strings.
pub fn same_lists(a: &Vec<Vec<u8>>, b: &Vec<Vec<u8>>) -> (r: bool)
    ensures
        r == (views(a@) == views(b@)),
{
    if a.len() != b.len() {
        assert(views(a@).len() != views(b@).len());
        return false;
    }
    let mut i: usize = 0;
    while i < a.len()
        invariant
            i <= a@.len(),
            a@.len() == b@.len(),
            forall|j: int| 0 <= j < i ==> #[trigger] a@[j]@ == b@[j]@,
        decreases a@.len() - i,
    {
        if !same(a[i].as_slice(), b[i].as_slice()) {
            assert(views(a@)[i as int] != views(b@)[i as int]);
            return false;
        }
        i = i + 1;
    }
    assert(views(a@) =~= views(b@));
    true
}

/// Whether two texts name the same path.
pub fn equal(a: &[u8], b: &[u8]) -> (r: bool)
    ensures
        r == same_path(a@, b@),
{
    let first = count_parts(&split(a, SLASH));
    let second = count_parts(&split(b, SLASH));
    is_absolute(a) == is_absolute(b) && begins_here(a) == begins_here(b) && same_lists(
        &first,
        &second,
    )
}

proof fn lemma_without_end(p: Seq<u8>)
    ensures
        without_end(p).len() <= p.len(),
        without_end(p).len() > body_start(without_end(p)) ==> tail(without_end(p)).len() > 0,
    decreases p.len(),
{
    if p.len() > body_start(p) && (tail(p).len() == 0 || tail(p) == seq![DOT]) {
        lemma_without_end(p.drop_last());
    }
}

/// The directory that holds a path has a shorter name.
pub proof fn lemma_parent_is_shorter(p: Seq<u8>)
    ensures
        parent_of(p) is Some ==> parent_of(p)->0.len() < p.len(),
{
    let t = without_end(p);
    let start = body_start(t);
    lemma_without_end(p);
    lemma_tail_start(t, start);
    if t.len() > start {
        let name = tail_start(t, start);
        let cut = if name > start {
            name - 1
        } else {
            name
        };
        lemma_without_end(t.take(cut));
    }
}

/// The nearest directory of that name that a path lies in, or the path itself.
pub open spec fn nearest_named(p: Seq<u8>, name: Seq<u8>) -> Option<Seq<u8>>
    decreases p.len(),
    via nearest_named_shrinks
{
    if name_of(p) == Some(name) {
        Some(p)
    } else {
        match parent_of(p) {
            Some(directory) => nearest_named(directory, name),
            None => None,
        }
    }
}

#[via_fn]
proof fn nearest_named_shrinks(p: Seq<u8>, name: Seq<u8>) {
    lemma_parent_is_shorter(p);
}

/// The nearest directory of that name that a path lies in.
pub fn find_named_above(p: &[u8], name: &[u8]) -> (r: Option<Vec<u8>>)
    ensures
        match r {
            Some(directory) => nearest_named(p@, name@) == Some(directory@),
            None => nearest_named(p@, name@) is None,
        },
{
    let mut current = copied(p);
    assert(current@ =~= p@);
    loop
        invariant
            nearest_named(current@, name@) == nearest_named(p@, name@),
        decreases current@.len(),
    {
        if let Some(own) = file_name(current.as_slice()) {
            if same(own.as_slice(), name) {
                return Some(current);
            }
        }
        proof {
            lemma_parent_is_shorter(current@);
        }
        match parent(current.as_slice()) {
            Some(directory) => {
                current = directory;
            },
            None => {
                return None;
            },
        }
    }
}

/// One component that names something.
pub open spec fn is_plain_name(name: Seq<u8>) -> bool {
    name.len() > 0 && !name.contains(SLASH) && name != seq![DOT] && name != seq![DOT, DOT]
}

proof fn lemma_tail_of_name(head: Seq<u8>, name: Seq<u8>, from: int)
    requires
        !name.contains(SLASH),
        0 <= from <= head.len(),
        head.len() == from || head.last() == SLASH,
    ensures
        tail_start(head + name, from) == head.len(),
    decreases name.len(),
{
    if name.len() == 0 {
        assert(head + name =~= head);
    } else {
        let rest = name.drop_last();
        assert(!rest.contains(SLASH)) by {
            if rest.contains(SLASH) {
                let k = choose|k: int| 0 <= k < rest.len() && rest[k] == SLASH;
                assert(name[k] == SLASH);
            }
        }
        assert(name.contains(name.last()));
        assert((head + name).drop_last() =~= head + rest);
        lemma_tail_of_name(head, rest, from);
    }
}

/// What was joined is taken apart again: the name of a file in a directory is its name,
/// and the directory that holds it is that directory, for every directory that is
/// written without slashes or `.` at its end.
pub proof fn law_joined_path_comes_apart(directory: Seq<u8>, name: Seq<u8>)
    requires
        without_end(directory) == directory,
        is_plain_name(name),
    ensures
        name_of(join_of(directory, name)) == Some(name),
        parent_of(join_of(directory, name)) == Some(directory),
{
    let whole = join_of(directory, name);
    assert(name[0] != SLASH) by {
        assert(name.contains(name[0]));
    }
    let head = if directory.len() == 0 || directory.last() == SLASH {
        directory
    } else {
        directory + seq![SLASH]
    };
    assert(whole =~= head + name);
    let start = body_start(whole);
    if directory.len() == 0 {
        assert(whole =~= name);
        assert(start == 0) by {
            if starts_here(name) {
                if name.len() == 1 {
                    assert(name =~= seq![DOT]);
                } else {
                    assert(name.contains(name[1]));
                }
            }
        }
    } else {
        assert(whole[0] == directory[0]);
        if directory.len() > 1 {
            assert(whole[1] == directory[1]);
        } else if directory[0] != SLASH {
            assert(whole[1] == SLASH);
        }
        assert(start == body_start(directory));
        if directory.last() == SLASH {
            lemma_without_end(directory);
            lemma_tail_start(directory, start);
            assert(tail_start(directory, start) == directory.len());
            assert(directory.len() == start);
        }
    }
    lemma_tail_of_name(head, name, start);
    assert(tail(whole) =~= name);
    assert(without_end(whole) == whole);
    let cut = if head.len() > start {
        head.len() - 1
    } else {
        head.len() as int
    };
    assert(whole.take(cut) =~= directory);
}

/// A file in a directory that is written without slashes or `.` at its end is written so
/// itself.
pub proof fn lemma_joined_path_is_bare(directory: Seq<u8>, name: Seq<u8>)
    requires
        without_end(directory) == directory,
        is_plain_name(name),
    ensures
        without_end(join_of(directory, name)) == join_of(directory, name),
{
    law_joined_path_comes_apart(directory, name);
    let whole = join_of(directory, name);
    let head = whole.take(whole.len() - name.len());
    assert(name[0] != SLASH) by {
        assert(name.contains(name[0]));
    }
    assert(whole =~= head + name);
    let start = body_start(whole);
    if directory.len() == 0 {
        assert(whole =~= name);
        assert(start == 0) by {
            if starts_here(name) {
                if name.len() == 1 {
                    assert(name =~= seq![DOT]);
                } else {
                    assert(name.contains(name[1]));
                }
            }
        }
    } else {
        assert(whole[0] == directory[0]);
        if directory.len() > 1 {
            assert(whole[1] == directory[1]);
        } else if directory[0] != SLASH {
            assert(whole[1] == SLASH);
        }
        assert(start == body_start(directory));
    }
    lemma_tail_of_name(head, name, start);
    assert(tail(whole) =~= name);
}

} // verus!
