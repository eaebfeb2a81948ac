//! File system paths the way Windows reads them.
//!
//! A path is the byte string that names it. Components stand between slashes or
//! backslashes; in front of them there may be a prefix, such as a drive or a share on a
//! server. A prefix that starts with `\\?\` is verbatim: behind it only backslashes
//! separate, and `.` is a name like any other.
use crate::paths;
use crate::paths::{DOT, SLASH};
use crate::text::{append, copied, part, same_folded, same_ignoring_case, views};
use vstd::prelude::*;

verus! {

pub const BACKSLASH: u8 = 92;

pub const COLON: u8 = 58;

pub const QUESTION_MARK: u8 = 63;

pub open spec fn is_separator(b: u8) -> bool {
    b == SLASH || b == BACKSLASH
}

/// The byte separates components, behind a verbatim prefix or elsewhere.
pub open spec fn separates(b: u8, verbatim: bool) -> bool {
    b == BACKSLASH || (b == SLASH && !verbatim)
}

/// The next separator from a place on, or the end.
pub open spec fn next_separator(p: Seq<u8>, i: int, verbatim: bool) -> int
    decreases p.len() - i,
{
    if 0 <= i < p.len() && !separates(p[i], verbatim) {
        next_separator(p, i + 1, verbatim)
    } else {
        i
    }
}

/// The end of a server and a share that start at a place; of the server alone when no
/// share follows.
pub open spec fn share_end(p: Seq<u8>, i: int, verbatim: bool) -> int {
    let server = next_separator(p, i, verbatim);
    let share = next_separator(p, server + 1, verbatim);
    if server + 1 < p.len() && share > server + 1 {
        share
    } else {
        server
    }
}

/// A letter and a colon stand at a place.
pub open spec fn has_drive(p: Seq<u8>, i: int) -> bool {
    i + 1 < p.len() && (65 <= p[i] <= 90 || 97 <= p[i] <= 122) && p[i + 1] == COLON
}

/// What a path starts with.
#[derive(Clone, Copy, Debug, PartialEq, Eq, Structural)]
pub enum Prefix {
    Nothing,
    /// `C:`
    Drive,
    /// `\\server\share`
    Share,
    /// `\\.\device`
    Device,
    /// `\\?\name`
    Verbatim,
    /// `\\?\UNC\server\share`
    VerbatimShare,
    /// `\\?\C:`
    VerbatimDrive,
}

impl Prefix {
    pub open spec fn is_verbatim(self) -> bool {
        self == Prefix::Verbatim || self == Prefix::VerbatimShare || self == Prefix::VerbatimDrive
    }
}

/// What a path starts with.
pub open spec fn prefix_of(p: Seq<u8>) -> Prefix {
    if p.len() >= 2 && is_separator(p[0]) && is_separator(p[1]) {
        if p.len() >= 4 && p[0] == BACKSLASH && p[1] == BACKSLASH && p[2] == QUESTION_MARK && p[3]
            == BACKSLASH {
            if p.len() >= 8 && p[4] == 85 && p[5] == 78 && p[6] == 67 && is_separator(p[7]) {
                Prefix::VerbatimShare
            } else if has_drive(p, 4) && (p.len() == 6 || is_separator(p[6])) {
                Prefix::VerbatimDrive
            } else {
                Prefix::Verbatim
            }
        } else if p.len() >= 4 && p[2] == DOT && is_separator(p[3]) {
            Prefix::Device
        } else if next_separator(p, 2, false) > 2 && share_end(p, 2, false) > next_separator(
            p,
            2,
            false,
        ) {
            Prefix::Share
        } else {
            Prefix::Nothing
        }
    } else if has_drive(p, 0) {
        Prefix::Drive
    } else {
        Prefix::Nothing
    }
}

/// How much of a path its prefix takes up.
pub open spec fn prefix_length(p: Seq<u8>) -> int {
    match prefix_of(p) {
        Prefix::Nothing => 0,
        Prefix::Drive => 2,
        Prefix::Share => share_end(p, 2, false),
        Prefix::Device => next_separator(p, 4, false),
        Prefix::Verbatim => next_separator(p, 4, true),
        Prefix::VerbatimShare => share_end(p, 8, true),
        Prefix::VerbatimDrive => 6,
    }
}

/// A separator follows on the prefix.
pub open spec fn is_rooted(p: Seq<u8>) -> bool {
    prefix_length(p) < p.len() && is_separator(p[prefix_length(p)])
}

/// The path starts at a root; every prefix but a drive stands for one.
pub open spec fn has_root(p: Seq<u8>) -> bool {
    is_rooted(p) || (prefix_of(p) != Prefix::Nothing && prefix_of(p) != Prefix::Drive)
}

/// Behind the prefix, a relative path starts with a `.` component.
pub open spec fn starts_here(p: Seq<u8>) -> bool {
    let n = prefix_length(p);
    &&& !has_root(p)
    &&& n < p.len()
    &&& p[n] == DOT
    &&& n + 1 == p.len() || is_separator(p[n + 1])
}

/// How much of the path the prefix, the root and a leading `.` take up.
pub open spec fn body_start(p: Seq<u8>) -> int {
    prefix_length(p) + if is_rooted(p) || starts_here(p) {
        1int
    } else {
        0int
    }
}

/// Where the text behind the last separator begins, not looking before `from`.
pub open spec fn tail_start(p: Seq<u8>, from: int, verbatim: bool) -> int
    decreases p.len(),
{
    if p.len() == 0 || p.len() <= from || separates(p.last(), verbatim) {
        p.len() as int
    } else {
        tail_start(p.drop_last(), from, verbatim)
    }
}

/// The text behind the last separator, not looking before `from`.
pub open spec fn tail(p: Seq<u8>, from: int, verbatim: bool) -> Seq<u8> {
    p.subrange(tail_start(p, from, verbatim), p.len() as int)
}

/// The path without the separators and `.` components at its end, not looking before
/// `from`.
pub open spec fn without_end(p: Seq<u8>, from: int, verbatim: bool) -> Seq<u8>
    decreases p.len(),
{
    if p.len() > from && p.len() > 0 && (tail(p, from, verbatim).len() == 0 || (!verbatim && tail(
        p,
        from,
        verbatim,
    ) == seq![DOT])) {
        without_end(p.drop_last(), from, verbatim)
    } else {
        p
    }
}

/// The last component of a path, unless it is the root, `.` or `..`.
pub open spec fn name_of(p: Seq<u8>) -> Option<Seq<u8>> {
    let start = body_start(p);
    let verbatim = prefix_of(p).is_verbatim();
    let t = without_end(p, start, verbatim);
    let last = tail(t, start, verbatim);
    if t.len() > start && last != seq![DOT, DOT] && last != seq![DOT] {
        Some(last)
    } else {
        None
    }
}

/// The path without its last component; a volume, a root and the empty path have none.
pub open spec fn parent_of(p: Seq<u8>) -> Option<Seq<u8>> {
    let start = body_start(p);
    let verbatim = prefix_of(p).is_verbatim();
    let t = without_end(p, start, verbatim);
    let name = tail_start(t, start, verbatim);
    if t.len() > start {
        Some(
            without_end(
                t.take(
                    if name > start {
                        name - 1
                    } else {
                        name
                    },
                ),
                start,
                verbatim,
            ),
        )
    } else if prefix_of(p) == Prefix::Nothing && starts_here(p) {
        Some(Seq::empty())
    } else {
        None
    }
}

/// The text between separators, one after the other.
pub open spec fn parts_of(p: Seq<u8>, verbatim: bool) -> Seq<Seq<u8>>
    decreases p.len(),
{
    if p.len() == 0 {
        seq![Seq::empty()]
    } else {
        let before = parts_of(p.drop_last(), verbatim);
        if separates(p.last(), verbatim) {
            before.push(Seq::empty())
        } else {
            before.update(before.len() - 1, before.last().push(p.last()))
        }
    }
}

/// The components of a verbatim path that a relative path was added to, one part after
/// the other: empty parts and `.` add nothing, and `..` takes a name away.
pub open spec fn walked(names: Seq<Seq<u8>>, parts: Seq<Seq<u8>>) -> Seq<Seq<u8>>
    decreases parts.len(),
{
    if parts.len() == 0 {
        names
    } else {
        let before = walked(names, parts.drop_last());
        let part = parts.last();
        if part.len() == 0 || part == seq![DOT] {
            before
        } else if part == seq![DOT, DOT] {
            if before.len() > 0 && before.last() != seq![DOT] && before.last() != seq![DOT, DOT] {
                before.drop_last()
            } else {
                before
            }
        } else {
            before.push(part)
        }
    }
}

/// The parts that are not empty.
pub open spec fn filled(parts: Seq<Seq<u8>>) -> Seq<Seq<u8>>
    decreases parts.len(),
{
    if parts.len() == 0 {
        parts
    } else if parts.last().len() == 0 {
        filled(parts.drop_last())
    } else {
        filled(parts.drop_last()).push(parts.last())
    }
}

/// Names behind each other, a backslash in front of each.
pub open spec fn lined_up(names: Seq<Seq<u8>>) -> Seq<u8>
    decreases names.len(),
{
    if names.len() == 0 {
        Seq::empty()
    } else {
        lined_up(names.drop_last()) + seq![BACKSLASH] + names.last()
    }
}

/// `more` as seen from a verbatim path: the result is free of `.` and `..`.
pub open spec fn verbatim_join(base: Seq<u8>, more: Seq<u8>) -> Seq<u8> {
    let own = if is_rooted(more) {
        Seq::empty()
    } else {
        filled(parts_of(base.skip(body_start(base)), true))
    };
    let names = walked(own, parts_of(more, false));
    base.take(prefix_length(base)) + if names.len() > 0 {
        lined_up(names)
    } else if is_rooted(base) || is_rooted(more) {
        seq![BACKSLASH]
    } else {
        Seq::empty()
    }
}

/// `more` as seen from `base`: a path with a prefix stands for itself, and one with a
/// root keeps only the prefix of `base`.
pub open spec fn join_of(base: Seq<u8>, more: Seq<u8>) -> Seq<u8> {
    if prefix_of(more) != Prefix::Nothing {
        more
    } else if prefix_of(base).is_verbatim() && more.len() > 0 {
        verbatim_join(base, more)
    } else if is_rooted(more) {
        base.take(prefix_length(base)) + more
    } else if base.len() == 0 || is_separator(base.last()) || (prefix_of(base) == Prefix::Drive
        && base.len() == 2) {
        base + more
    } else {
        base + seq![BACKSLASH] + more
    }
}

/// The path with its last component, if it has a name, replaced.
pub open spec fn renamed(p: Seq<u8>, name: Seq<u8>) -> Seq<u8> {
    if name_of(p) is Some && parent_of(p) is Some {
        join_of(parent_of(p)->0, name)
    } else {
        join_of(p, name)
    }
}

/// The volume that a path starts with.
pub open spec fn volume_of(p: Seq<u8>) -> Option<Seq<u8>> {
    if prefix_of(p) == Prefix::Nothing {
        None
    } else {
        Some(p.take(prefix_length(p)))
    }
}

/// The last component of a path is this name, up to ASCII case.
pub open spec fn is_named(p: Seq<u8>, name: Seq<char>) -> bool {
    name_of(p) is Some && same_folded(name_of(p)->0, vstd::utf8::encode_utf8(name))
}

fn find_separator(p: &[u8], from: usize, verbatim: bool) -> (r: usize)
    requires
        from <= p@.len(),
    ensures
        r == next_separator(p@, from as int, verbatim),
        from <= r <= p@.len(),
{
    let mut i: usize = from;
    while i < p.len() && !(p[i] == BACKSLASH || (p[i] == SLASH && !verbatim))
        invariant
            from <= i <= p@.len(),
            next_separator(p@, i as int, verbatim) == next_separator(p@, from as int, verbatim),
        decreases p@.len() - i,
    {
        i = i + 1;
    }
    i
}

fn find_share(p: &[u8], from: usize, verbatim: bool) -> (r: usize)
    requires
        from <= p@.len(),
    ensures
        r == share_end(p@, from as int, verbatim),
        from <= r <= p@.len(),
{
    let server = find_separator(p, from, verbatim);
    if server < p.len() && p.len() - server > 1 {
        let share = find_separator(p, server + 1, verbatim);
        if share > server + 1 {
            return share;
        }
    }
    server
}

fn separator(b: u8) -> (r: bool)
    ensures
        r == is_separator(b),
{
    b == SLASH || b == BACKSLASH
}

fn drive_at(p: &[u8], i: usize) -> (r: bool)
    requires
        i <= p@.len(),
    ensures
        r == has_drive(p@, i as int),
{
    p.len() - i >= 2 && ((65 <= p[i] && p[i] <= 90) || (97 <= p[i] && p[i] <= 122)) && p[i + 1]
        == COLON
}

/// What the parts of a path are, and where its body starts.
struct Layout {
    prefix: Prefix,
    length: usize,
    rooted: bool,
    start: usize,
}

impl Layout {
    spec fn describes(self, p: Seq<u8>) -> bool {
        &&& self.prefix == prefix_of(p)
        &&& self.length == prefix_length(p)
        &&& self.rooted == is_rooted(p)
        &&& self.start == body_start(p)
        &&& self.length <= self.start <= p.len()
    }

    fn verbatim(&self) -> (r: bool)
        ensures
            r == self.prefix.is_verbatim(),
    {
        match self.prefix {
            Prefix::Verbatim | Prefix::VerbatimShare | Prefix::VerbatimDrive => true,
            _ => false,
        }
    }
}

fn find_prefix(p: &[u8]) -> (r: (Prefix, usize))
    ensures
        r.0 == prefix_of(p@),
        r.1 == prefix_length(p@),
        r.1 <= p@.len(),
{
    let n = p.len();
    if n >= 2 && separator(p[0]) && separator(p[1]) {
        if n >= 4 && p[0] == BACKSLASH && p[1] == BACKSLASH && p[2] == QUESTION_MARK && p[3]
            == BACKSLASH {
            if n >= 8 && p[4] == 85 && p[5] == 78 && p[6] == 67 && separator(p[7]) {
                (Prefix::VerbatimShare, find_share(p, 8, true))
            } else if drive_at(p, 4) && (n == 6 || separator(p[6])) {
                (Prefix::VerbatimDrive, 6)
            } else {
                (Prefix::Verbatim, find_separator(p, 4, true))
            }
        } else if n >= 4 && p[2] == DOT && separator(p[3]) {
            (Prefix::Device, find_separator(p, 4, false))
        } else {
            let server = find_separator(p, 2, false);
            let share = find_share(p, 2, false);
            if server > 2 && share > server {
                (Prefix::Share, share)
            } else {
                (Prefix::Nothing, 0)
            }
        }
    } else if drive_at(p, 0) {
        (Prefix::Drive, 2)
    } else {
        (Prefix::Nothing, 0)
    }
}

fn find_layout(p: &[u8]) -> (r: Layout)
    ensures
        r.describes(p@),
{
    let (prefix, length) = find_prefix(p);
    let n = p.len();
    let rooted = length < n && separator(p[length]);
    let relative = !rooted && match prefix {
        Prefix::Nothing | Prefix::Drive => true,
        _ => false,
    };
    let here = relative && length < n && p[length] == DOT && (n - length == 1 || separator(
        p[length + 1],
    ));
    let start: usize = if rooted || here {
        length + 1
    } else {
        length
    };
    Layout { prefix, length, rooted, start }
}

fn find_tail(p: &[u8], from: usize, verbatim: bool) -> (r: usize)
    requires
        from <= p@.len(),
    ensures
        r == tail_start(p@, from as int, verbatim),
        from <= r <= p@.len(),
{
    let mut i: usize = p.len();
    assert(p@.take(i as int) =~= p@);
    while i > from && !(p[i - 1] == BACKSLASH || (p[i - 1] == SLASH && !verbatim))
        invariant
            from <= i <= p@.len(),
            tail_start(p@.take(i as int), from as int, verbatim) == tail_start(
                p@,
                from as int,
                verbatim,
            ),
        decreases i,
    {
        assert(p@.take(i as int).drop_last() =~= p@.take(i - 1));
        i = i - 1;
    }
    i
}

/// How much of a path is left without the separators and `.` components at its end.
fn find_end(p: &[u8], from: usize, verbatim: bool) -> (r: usize)
    requires
        from <= p@.len(),
    ensures
        from <= r <= p@.len(),
        p@.take(r as int) == without_end(p@, from as int, verbatim),
{
    let mut n: usize = p.len();
    assert(p@.take(n as int) =~= p@);
    loop
        invariant
            from <= n <= p@.len(),
            without_end(p@.take(n as int), from as int, verbatim) == without_end(
                p@,
                from as int,
                verbatim,
            ),
        decreases n,
    {
        let current = vstd::slice::slice_subrange(p, 0, n);
        assert(current@ =~= p@.take(n as int));
        let name = find_tail(current, from, verbatim);
        proof {
            let last = tail(current@, from as int, verbatim);
            if last.len() == 1 {
                assert(last[0] == current@[name as int]);
                assert(last[0] == DOT ==> last =~= seq![DOT]);
            }
        }
        if n > from && (n == name || (!verbatim && n - name == 1 && current[name] == DOT)) {
            assert(current@.drop_last() =~= p@.take(n - 1));
            n = n - 1;
        } else {
            return n;
        }
    }
}

fn one_dot(part: &[u8]) -> (r: bool)
    ensures
        r == (part@ == seq![DOT]),
{
    let r = part.len() == 1 && part[0] == DOT;
    assert(r ==> part@ =~= seq![DOT]);
    r
}

fn two_dots(part: &[u8]) -> (r: bool)
    ensures
        r == (part@ == seq![DOT, DOT]),
{
    let r = part.len() == 2 && part[0] == DOT && part[1] == DOT;
    assert(r ==> part@ =~= seq![DOT, DOT]);
    r
}

/// The last component of a path, unless it is the root, `.` or `..`.
pub fn file_name(p: &[u8]) -> (r: Option<Vec<u8>>)
    ensures
        match r {
            Some(name) => name_of(p@) == Some(name@),
            None => name_of(p@) is None,
        },
{
    let layout = find_layout(p);
    let verbatim = layout.verbatim();
    let n = find_end(p, layout.start, verbatim);
    let t = vstd::slice::slice_subrange(p, 0, n);
    assert(t@ =~= p@.take(n as int));
    let name = find_tail(t, layout.start, verbatim);
    let last = part(t, name, n);
    assert(last@ =~= tail(t@, layout.start as int, verbatim));
    if n > layout.start && !one_dot(last.as_slice()) && !two_dots(last.as_slice()) {
        Some(last)
    } else {
        None
    }
}

/// The path without its last component.
pub fn parent(p: &[u8]) -> (r: Option<Vec<u8>>)
    ensures
        match r {
            Some(directory) => parent_of(p@) == Some(directory@),
            None => parent_of(p@) is None,
        },
{
    let layout = find_layout(p);
    let verbatim = layout.verbatim();
    let n = find_end(p, layout.start, verbatim);
    let t = vstd::slice::slice_subrange(p, 0, n);
    assert(t@ =~= p@.take(n as int));
    let name = find_tail(t, layout.start, verbatim);
    if n > layout.start {
        let cut: usize = if name > layout.start {
            name - 1
        } else {
            name
        };
        let before = vstd::slice::slice_subrange(t, 0, cut);
        assert(before@ =~= t@.take(cut as int));
        let end = find_end(before, layout.start, verbatim);
        let directory = part(before, 0, end);
        assert(directory@ =~= before@.take(end as int));
        return Some(directory);
    }
    let nothing = match layout.prefix {
        Prefix::Nothing => true,
        _ => false,
    };
    if nothing && !layout.rooted && layout.start > layout.length {
        let empty: Vec<u8> = Vec::new();
        assert(empty@ =~= Seq::empty());
        Some(empty)
    } else {
        None
    }
}

fn divide_parts(p: &[u8], verbatim: bool) -> (r: Vec<Vec<u8>>)
    ensures
        views(r@) == parts_of(p@, verbatim),
{
    let mut r: Vec<Vec<u8>> = Vec::new();
    let mut current: Vec<u8> = Vec::new();
    let mut i: usize = 0;
    assert(views(r@).push(current@) =~= parts_of(p@.take(0), verbatim));
    while i < p.len()
        invariant
            i <= p@.len(),
            views(r@).push(current@) == parts_of(p@.take(i as int), verbatim),
        decreases p@.len() - i,
    {
        assert(p@.take(i + 1).drop_last() =~= p@.take(i as int));
        let ghost before = views(r@);
        let ghost piece = current@;
        let ghost all = parts_of(p@.take(i as int), verbatim);
        if p[i] == BACKSLASH || (p[i] == SLASH && !verbatim) {
            r.push(current);
            current = Vec::new();
            assert(views(r@) =~= before.push(piece));
            assert(current@ =~= Seq::empty());
        } else {
            current.push(p[i]);
            assert(all.update(all.len() - 1, all.last().push(p@[i as int])) =~= before.push(
                current@,
            ));
        }
        i = i + 1;
    }
    assert(p@.take(i as int) =~= p@);
    let ghost before = views(r@);
    let ghost piece = current@;
    r.push(current);
    assert(views(r@) =~= before.push(piece));
    r
}

fn fill(parts: &Vec<Vec<u8>>) -> (r: Vec<Vec<u8>>)
    ensures
        views(r@) == filled(views(parts@)),
{
    let ghost all = views(parts@);
    let mut r: Vec<Vec<u8>> = Vec::new();
    let mut i: usize = 0;
    assert(views(r@) =~= all.take(0));
    while i < parts.len()
        invariant
            i <= parts@.len(),
            all == views(parts@),
            views(r@) == filled(all.take(i as int)),
        decreases parts@.len() - i,
    {
        assert(all.take(i + 1).drop_last() =~= all.take(i as int));
        if parts[i].len() > 0 {
            let ghost before = views(r@);
            let copy = copied(parts[i].as_slice());
            let ghost added = copy@;
            r.push(copy);
            assert(views(r@) =~= before.push(added));
        }
        i = i + 1;
    }
    assert(all.take(i as int) =~= all);
    r
}

fn walk(names: Vec<Vec<u8>>, parts: &Vec<Vec<u8>>) -> (r: Vec<Vec<u8>>)
    ensures
        views(r@) == walked(views(names@), views(parts@)),
{
    let ghost own = views(names@);
    let ghost all = views(parts@);
    let mut r = names;
    let mut i: usize = 0;
    assert(walked(own, all.take(0)) == own);
    while i < parts.len()
        invariant
            i <= parts@.len(),
            all == views(parts@),
            views(r@) == walked(own, all.take(i as int)),
        decreases parts@.len() - i,
    {
        assert(all.take(i + 1).drop_last() =~= all.take(i as int));
        let ghost before = views(r@);
        let piece = parts[i].as_slice();
        assert(piece@ == all[i as int]);
        if piece.len() == 0 || one_dot(piece) {
        } else if two_dots(piece) {
            if r.len() > 0 {
                let last = r[r.len() - 1].as_slice();
                assert(last@ == before.last());
                if !one_dot(last) && !two_dots(last) {
                    r.pop();
                    assert(views(r@) =~= before.drop_last());
                }
            }
        } else {
            let copy = copied(piece);
            let ghost added = copy@;
            r.push(copy);
            assert(views(r@) =~= before.push(added));
        }
        i = i + 1;
    }
    assert(all.take(i as int) =~= all);
    r
}

fn line_up(start: Vec<u8>, names: &Vec<Vec<u8>>) -> (r: Vec<u8>)
    ensures
        r@ == start@ + lined_up(views(names@)),
{
    let ghost first = start@;
    let ghost all = views(names@);
    let mut r = start;
    let mut i: usize = 0;
    assert(r@ =~= first + lined_up(all.take(0)));
    while i < names.len()
        invariant
            i <= names@.len(),
            all == views(names@),
            r@ == first + lined_up(all.take(i as int)),
        decreases names@.len() - i,
    {
        assert(all.take(i + 1).drop_last() =~= all.take(i as int));
        r.push(BACKSLASH);
        append(&mut r, names[i].as_slice());
        assert(r@ =~= first + lined_up(all.take(i + 1)));
        i = i + 1;
    }
    assert(all.take(i as int) =~= all);
    r
}

/// `more` as seen from `base`.
pub fn join(base: &[u8], more: &[u8]) -> (r: Vec<u8>)
    ensures
        r@ == join_of(base@, more@),
{
    let own = find_layout(base);
    let other = find_layout(more);
    match other.prefix {
        Prefix::Nothing => {},
        _ => {
            return copied(more);
        },
    }
    if own.verbatim() && more.len() > 0 {
        let mut names: Vec<Vec<u8>> = Vec::new();
        assert(views(names@) =~= Seq::empty());
        if !other.rooted {
            let body = vstd::slice::slice_subrange(base, own.start, base.len());
            assert(body@ =~= base@.skip(own.start as int));
            names = fill(&divide_parts(body, true));
        }
        let names = walk(names, &divide_parts(more, false));
        let mut start = part(base, 0, own.length);
        assert(start@ =~= base@.take(own.length as int));
        if names.len() > 0 {
            return line_up(start, &names);
        }
        assert(views(names@).len() == 0);
        if own.rooted || other.rooted {
            start.push(BACKSLASH);
            assert(start@ =~= base@.take(own.length as int) + seq![BACKSLASH]);
        } else {
            assert(start@ =~= base@.take(own.length as int) + Seq::<u8>::empty());
        }
        return start;
    }
    if other.rooted {
        let mut r = part(base, 0, own.length);
        assert(r@ =~= base@.take(own.length as int));
        append(&mut r, more);
        return r;
    }
    let bare_drive = match own.prefix {
        Prefix::Drive => base.len() == 2,
        _ => false,
    };
    let mut r = copied(base);
    if base.len() > 0 && !separator(base[base.len() - 1]) && !bare_drive {
        r.push(BACKSLASH);
        assert(r@ =~= base@ + seq![BACKSLASH]);
    }
    append(&mut r, more);
    r
}

/// `more`, given as text, as seen from `base`.
pub fn join_text(base: &[u8], more: &str) -> (r: Vec<u8>)
    ensures
        r@ == join_of(base@, vstd::utf8::encode_utf8(more@)),
{
    join(base, more.as_bytes())
}

/// The path with its last component replaced.
pub fn with_file_name(p: &[u8], name: &[u8]) -> (r: Vec<u8>)
    ensures
        r@ == renamed(p@, name@),
{
    match (file_name(p), parent(p)) {
        (Some(_), Some(directory)) => join(directory.as_slice(), name),
        _ => join(p, name),
    }
}

/// The volume that a path starts with: a drive, a share on a server, a device, or what
/// a verbatim prefix names.
pub fn windows_volume_prefix(p: &[u8]) -> (r: Option<Vec<u8>>)
    ensures
        match r {
            Some(volume) => volume_of(p@) == Some(volume@),
            None => volume_of(p@) is None,
        },
{
    let (prefix, length) = find_prefix(p);
    match prefix {
        Prefix::Nothing => None,
        _ => {
            let volume = part(p, 0, length);
            assert(volume@ =~= p@.take(length as int));
            Some(volume)
        },
    }
}

/// Whether the last component of a path is this name, up to ASCII case.
pub fn named(p: &[u8], name: &str) -> (r: bool)
    ensures
        r == is_named(p@, name@),
{
    match file_name(p) {
        Some(own) => same_ignoring_case(own.as_slice(), name.as_bytes()),
        None => false,
    }
}

/// The last component of a path, on Windows or elsewhere.
pub open spec fn name_on(windows: bool, p: Seq<u8>) -> Option<Seq<u8>> {
    if windows {
        name_of(p)
    } else {
        paths::name_of(p)
    }
}

/// The path without its last component, on Windows or elsewhere.
pub open spec fn parent_on(windows: bool, p: Seq<u8>) -> Option<Seq<u8>> {
    if windows {
        parent_of(p)
    } else {
        paths::parent_of(p)
    }
}

/// `more`, a text, as seen from `base`, on Windows or elsewhere.
pub open spec fn join_on(windows: bool, base: Seq<u8>, more: Seq<char>) -> Seq<u8> {
    if windows {
        join_of(base, vstd::utf8::encode_utf8(more))
    } else {
        paths::join_of(base, vstd::utf8::encode_utf8(more))
    }
}

/// The path with its last component replaced, on Windows or elsewhere.
pub open spec fn renamed_on(windows: bool, p: Seq<u8>, name: Seq<char>) -> Seq<u8> {
    if windows {
        renamed(p, vstd::utf8::encode_utf8(name))
    } else {
        paths::renamed(p, vstd::utf8::encode_utf8(name))
    }
}

pub(crate) fn file_name_on(windows: bool, p: &[u8]) -> (r: Option<Vec<u8>>)
    ensures
        match r {
            Some(name) => name_on(windows, p@) == Some(name@),
            None => name_on(windows, p@) is None,
        },
{
    if windows {
        file_name(p)
    } else {
        paths::file_name(p)
    }
}

pub(crate) fn directory_on(windows: bool, p: &[u8]) -> (r: Option<Vec<u8>>)
    ensures
        match r {
            Some(directory) => parent_on(windows, p@) == Some(directory@),
            None => parent_on(windows, p@) is None,
        },
{
    if windows {
        parent(p)
    } else {
        paths::parent(p)
    }
}

pub(crate) fn join_text_on(windows: bool, base: &[u8], more: &str) -> (r: Vec<u8>)
    ensures
        r@ == join_on(windows, base@, more@),
{
    if windows {
        join_text(base, more)
    } else {
        paths::join_text(base, more)
    }
}

pub(crate) fn rename_on(windows: bool, p: &[u8], name: &str) -> (r: Vec<u8>)
    ensures
        r@ == renamed_on(windows, p@, name@),
{
    if windows {
        with_file_name(p, name.as_bytes())
    } else {
        paths::with_file_name(p, name.as_bytes())
    }
}

/// A volume lies in no directory, and neither does the root of one.
pub proof fn law_volume_has_no_parent(p: Seq<u8>)
    requires
        volume_of(p) is Some,
        p.len() == prefix_length(p) || (is_rooted(p) && p.len() == prefix_length(p) + 1),
    ensures
        parent_of(p) is None,
        name_of(p) is None,
{
}

} // verus!
