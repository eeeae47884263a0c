//! Paths: from the spelling Windows hands in to the one XFS looks up, and
//! from a link's target to the spelling Windows resolves.

use vstd::prelude::*;

use crate::text::{chars_of, push_chars};
use crate::utf16::decode_units;

verus! {

/// A name whose code units encode no string.
#[derive(Debug, Clone, Copy, PartialEq, Eq)]
pub struct InvalidUtf16;

/// A path with every backslash turned into a slash; the empty path names
/// the root.
pub open spec fn unix_spelling(s: Seq<char>) -> Seq<char> {
    if s.len() == 0 {
        seq!['/']
    } else {
        s.map_values(|c: char| if c == '\\' { '/' } else { c })
    }
}

/// The slash-separated path that a sequence of UTF-16 code units names, if
/// the units encode a string.
pub open spec fn path_of(units: Seq<u16>) -> Option<Seq<char>> {
    match crate::utf16::decoded(units) {
        Some(s) => Some(unix_spelling(s)),
        None => None,
    }
}

/// `\foo\bar` (UTF-16) to `/foo/bar`. The empty path becomes `/`.
pub fn winpath_to_unix(name: &[u16]) -> (r: Result<String, InvalidUtf16>)
    ensures
        match path_of(name@) {
            Some(p) => r is Ok && r->Ok_0@ == p,
            None => r is Err,
        },
{
    let s: String = match decode_units(name) {
        Some(s) => s,
        None => {
            return Err(InvalidUtf16);
        },
    };
    let chars: Vec<char> = chars_of(s.as_str());
    let mut out: String = String::new();
    if chars.len() == 0 {
        out.push('/');
        assert(out@ == unix_spelling(s@));
        return Ok(out);
    }
    let mut i: usize = 0;
    while i < chars.len()
        invariant
            chars@ == s@,
            chars@.len() > 0,
            i <= chars@.len(),
            out@ == unix_spelling(s@).take(i as int),
        decreases chars@.len() - i,
    {
        if chars[i] == '\\' {
            out.push('/');
        } else {
            out.push(chars[i]);
        }
        assert(unix_spelling(s@).take(i + 1) == unix_spelling(s@).take(i as int).push(
            unix_spelling(s@)[i as int],
        ));
        i = i + 1;
    }
    assert(unix_spelling(s@).take(s@.len() as int) == unix_spelling(s@));
    Ok(out)
}

/// The pieces of `s` between separators, empty ones kept.
pub open spec fn split(s: Seq<char>, sep: char) -> Seq<Seq<char>>
    decreases s.len(),
{
    if s.len() == 0 {
        seq![Seq::empty()]
    } else {
        let before = split(s.drop_last(), sep);
        if s.last() == sep {
            before.push(Seq::empty())
        } else {
            before.drop_last().push(before.last().push(s.last()))
        }
    }
}

/// What precedes the last slash; nothing where there is no slash.
pub open spec fn parent_of(path: Seq<char>) -> Seq<char>
    decreases path.len(),
{
    if path.len() == 0 {
        Seq::empty()
    } else if path.last() == '/' {
        path.drop_last()
    } else {
        parent_of(path.drop_last())
    }
}

/// One step of a walk: empty pieces and `.` stay, `..` goes up and stays
/// at the root, anything else goes down.
pub open spec fn step(at: Seq<Seq<char>>, piece: Seq<char>) -> Seq<Seq<char>> {
    if piece.len() == 0 || piece == seq!['.'] {
        at
    } else if piece == seq!['.', '.'] {
        if at.len() == 0 {
            at
        } else {
            at.drop_last()
        }
    } else {
        at.push(piece)
    }
}

/// Where a walk from the root over these pieces ends.
pub open spec fn walk(pieces: Seq<Seq<char>>) -> Seq<Seq<char>>
    decreases pieces.len(),
{
    if pieces.len() == 0 {
        Seq::empty()
    } else {
        step(walk(pieces.drop_last()), pieces.last())
    }
}

/// The directory that a link's target is taken from: the root for an
/// absolute target, the link's own directory for a relative one.
pub open spec fn link_base(link: Seq<char>, target: Seq<char>) -> Seq<char> {
    if target.len() > 0 && target[0] == '/' {
        Seq::empty()
    } else {
        parent_of(link)
    }
}

/// The components below the volume root that a link's target names.
pub open spec fn link_components(link: Seq<char>, target: Seq<char>) -> Seq<Seq<char>> {
    walk(split(link_base(link, target), '/') + split(target, '/'))
}

/// Each component with a backslash ahead of it.
pub open spec fn backslashed(parts: Seq<Seq<char>>) -> Seq<char>
    decreases parts.len(),
{
    if parts.len() == 0 {
        Seq::empty()
    } else {
        backslashed(parts.drop_last()).push('\\') + parts.last()
    }
}

/// The Windows spelling of a path below the volume root; the root itself
/// is a single backslash.
pub open spec fn volume_path(parts: Seq<Seq<char>>) -> Seq<char> {
    if parts.len() == 0 {
        seq!['\\']
    } else {
        backslashed(parts)
    }
}

/// The components in `pieces`, as sequences of characters.
pub open spec fn views(pieces: Seq<Vec<char>>) -> Seq<Seq<char>> {
    pieces.map_values(|p: Vec<char>| p@)
}

/// Splits the first `n` characters at the separator.
fn split_chars(s: &Vec<char>, n: usize, sep: char) -> (out: Vec<Vec<char>>)
    requires
        n <= s@.len(),
    ensures
        views(out@) == split(s@.take(n as int), sep),
{
    let mut out: Vec<Vec<char>> = Vec::new();
    let mut cur: Vec<char> = Vec::new();
    let mut i: usize = 0;
    assert(views(out@).push(cur@) == split(s@.take(0), sep));
    while i < n
        invariant
            i <= n <= s@.len(),
            views(out@).push(cur@) == split(s@.take(i as int), sep),
        decreases n - i,
    {
        let ghost before = views(out@).push(cur@);
        assert(s@.take(i + 1).drop_last() == s@.take(i as int));
        assert(before.drop_last() == views(out@));
        if s[i] == sep {
            let ghost pieces = out@;
            out.push(cur);
            assert(views(out@) == views(pieces).push(cur@));
            cur = Vec::new();
        } else {
            cur.push(s[i]);
        }
        i = i + 1;
    }
    let ghost pieces = out@;
    out.push(cur);
    assert(views(out@) == views(pieces).push(cur@));
    out
}

/// The number of characters ahead of the last slash, or zero.
fn parent_len(s: &Vec<char>) -> (n: usize)
    ensures
        n <= s@.len(),
        s@.take(n as int) == parent_of(s@),
{
    let mut n: usize = s.len();
    assert(s@.take(n as int) == s@);
    while n > 0
        invariant
            n <= s@.len(),
            parent_of(s@) == parent_of(s@.take(n as int)),
        decreases n,
    {
        n = n - 1;
        assert(s@.take(n + 1).drop_last() == s@.take(n as int));
        if s[n] == '/' {
            return n;
        }
    }
    n
}

fn is_dot(p: &Vec<char>) -> (r: bool)
    ensures
        r == (p@ =~= seq!['.']),
{
    p.len() == 1 && p[0] == '.'
}

fn is_dot_dot(p: &Vec<char>) -> (r: bool)
    ensures
        r == (p@ =~= seq!['.', '.']),
{
    p.len() == 2 && p[0] == '.' && p[1] == '.'
}

/// Takes the steps for `pieces` from where `at` stands.
fn walk_on(at: &mut Vec<Vec<char>>, pieces: Vec<Vec<char>>, Ghost(done): Ghost<Seq<Seq<char>>>)
    requires
        views(old(at)@) == walk(done),
    ensures
        views(final(at)@) == walk(done + views(pieces@)),
{
    let ghost all = views(pieces@);
    let mut i: usize = 0;
    assert(done + all.take(0) == done);
    while i < pieces.len()
        invariant
            i <= pieces@.len(),
            all == views(pieces@),
            views(at@) == walk(done + all.take(i as int)),
        decreases pieces@.len() - i,
    {
        let ghost before = at@;
        let piece: &Vec<char> = &pieces[i];
        assert((done + all.take(i + 1)).drop_last() == done + all.take(i as int));
        assert((done + all.take(i + 1)).last() == piece@);
        if piece.len() == 0 || is_dot(piece) {
        } else if is_dot_dot(piece) {
            let _ = at.pop();
            proof {
                if before.len() > 0 {
                    assert(views(at@) == views(before).drop_last());
                }
            }
        } else {
            let copy: Vec<char> = piece.clone();
            assert(copy@ == piece@);
            at.push(copy);
            assert(views(at@) == views(before).push(piece@));
        }
        i = i + 1;
    }
    assert(all.take(all.len() as int) == all);
}

/// Rewrites an XFS link target as the absolute Windows path that a
/// symbolic-link reparse buffer carries.
///
/// An absolute target starts at the volume root, a relative one at the
/// directory that holds the link. `..` above the root is dropped, so the
/// result never leaves the volume.
pub fn link_target_to_winpath(link_unix: &str, target: &str) -> (out: String)
    ensures
        out@ == volume_path(link_components(link_unix@, target@)),
{
    let link: Vec<char> = chars_of(link_unix);
    let goal: Vec<char> = chars_of(target);
    let base: usize = if goal.len() > 0 && goal[0] == '/' {
        0
    } else {
        parent_len(&link)
    };
    let from: Vec<Vec<char>> = split_chars(&link, base, '/');
    let to: Vec<Vec<char>> = split_chars(&goal, goal.len(), '/');
    assert(goal@.take(goal@.len() as int) == goal@);
    assert(link@.take(base as int) == link_base(link_unix@, target@));
    let mut parts: Vec<Vec<char>> = Vec::new();
    let ghost first = views(from@);
    assert(views(parts@) == walk(Seq::empty()));
    walk_on(&mut parts, from, Ghost(Seq::empty()));
    assert(Seq::<Seq<char>>::empty() + first == first);
    walk_on(&mut parts, to, Ghost(first));
    let mut out: String = String::new();
    if parts.len() == 0 {
        out.push('\\');
        assert(out@ == seq!['\\']);
        return out;
    }
    let mut i: usize = 0;
    while i < parts.len()
        invariant
            i <= parts@.len(),
            out@ == backslashed(views(parts@).take(i as int)),
        decreases parts@.len() - i,
    {
        out.push('\\');
        push_chars(&mut out, &parts[i]);
        assert(views(parts@).take(i + 1).drop_last() == views(parts@).take(i as int));
        i = i + 1;
    }
    assert(views(parts@).take(parts@.len() as int) == views(parts@));
    out
}

/// Whether a piece names something: not empty, neither `.` nor `..`, and
/// free of slashes.
pub open spec fn is_component(piece: Seq<char>) -> bool {
    &&& piece.len() > 0
    &&& piece != seq!['.']
    &&& piece != seq!['.', '.']
    &&& !piece.contains('/')
}

proof fn split_not_empty(s: Seq<char>, sep: char)
    ensures
        split(s, sep).len() > 0,
    decreases s.len(),
{
    if s.len() > 0 {
        split_not_empty(s.drop_last(), sep);
    }
}

/// Splitting at a separator in the middle splits both sides.
proof fn split_join(a: Seq<char>, b: Seq<char>, sep: char)
    ensures
        split(a.push(sep) + b, sep) == split(a, sep) + split(b, sep),
    decreases b.len(),
{
    let s = a.push(sep) + b;
    if b.len() == 0 {
        assert(s == a.push(sep));
        assert(s.drop_last() == a);
    } else {
        split_join(a, b.drop_last(), sep);
        split_not_empty(b.drop_last(), sep);
        assert(s.drop_last() == a.push(sep) + b.drop_last());
        let tail = split(b.drop_last(), sep);
        assert((split(a, sep) + tail).drop_last() == split(a, sep) + tail.drop_last());
    }
}

/// A character that is not in the string is in none of its pieces, nor is
/// the separator.
proof fn split_pieces(s: Seq<char>, sep: char, c: char)
    requires
        !s.contains(c) || c == sep,
    ensures
        forall|i: int| 0 <= i < split(s, sep).len() ==> !(#[trigger] split(s, sep)[i]).contains(c),
    decreases s.len(),
{
    if s.len() > 0 {
        let pre = s.drop_last();
        if !s.contains(c) {
            assert forall|i: int| 0 <= i < pre.len() implies pre[i] != c by {
                assert(s[i] == pre[i]);
            }
        }
        split_pieces(pre, sep, c);
        split_not_empty(pre, sep);
        let before = split(pre, sep);
        assert(s[s.len() - 1] == s.last());
        assert forall|i: int| 0 <= i < split(s, sep).len() implies !(#[trigger] split(
            s,
            sep,
        )[i]).contains(c) by {
            if i < before.len() - 1 {
                assert(split(s, sep)[i] == before[i]);
            } else if s.last() != sep {
                assert(!before.last().contains(c)) by {
                    assert(before.last() == before[before.len() - 1]);
                }
                assert(split(s, sep)[i] == before.last().push(s.last()));
                if before.last().push(s.last()).contains(c) {
                    let j = choose|j: int|
                        0 <= j < before.last().push(s.last()).len() && before.last().push(
                            s.last(),
                        )[j] == c;
                    if j < before.last().len() {
                        assert(before.last()[j] == c);
                    }
                }
            } else if i == before.len() - 1 {
                assert(split(s, sep)[i] == before[i]);
            } else {
                assert(split(s, sep)[i] == Seq::<char>::empty());
            }
        }
    }
}

/// A string without the separator is its own only piece.
proof fn split_whole(s: Seq<char>, sep: char)
    requires
        !s.contains(sep),
    ensures
        split(s, sep) == seq![s],
    decreases s.len(),
{
    if s.len() > 0 {
        assert forall|i: int| 0 <= i < s.drop_last().len() implies s.drop_last()[i] != sep by {
            assert(s[i] != sep);
        }
        split_whole(s.drop_last(), sep);
        assert(s[s.len() - 1] == s.last());
        assert(s.drop_last().push(s.last()) == s);
        assert(split(s, sep) == seq![s]);
    } else {
        assert(s == Seq::<char>::empty());
    }
}

/// Where a walk goes on depends only on where it stands.
proof fn walk_goes_on(a: Seq<Seq<char>>, b: Seq<Seq<char>>, more: Seq<Seq<char>>)
    requires
        walk(a) == walk(b),
    ensures
        walk(a + more) == walk(b + more),
    decreases more.len(),
{
    if more.len() == 0 {
        assert(a + more == a);
        assert(b + more == b);
    } else {
        walk_goes_on(a, b, more.drop_last());
        assert((a + more).drop_last() == a + more.drop_last());
        assert((b + more).drop_last() == b + more.drop_last());
    }
}

/// A walk over pieces without slashes ends at a list of components, each
/// of them one of the pieces.
proof fn walk_components(pieces: Seq<Seq<char>>)
    requires
        forall|i: int| 0 <= i < pieces.len() ==> !(#[trigger] pieces[i]).contains('/'),
    ensures
        forall|i: int|
            0 <= i < walk(pieces).len() ==> is_component(#[trigger] walk(pieces)[i])
                && pieces.contains(walk(pieces)[i]),
    decreases pieces.len(),
{
    if pieces.len() > 0 {
        let pre = pieces.drop_last();
        assert forall|i: int| 0 <= i < pre.len() implies !(#[trigger] pre[i]).contains('/') by {
            assert(pre[i] == pieces[i]);
        }
        walk_components(pre);
        let (at, last) = (walk(pre), pieces.last());
        assert(pieces[pieces.len() - 1] == last);
        assert forall|i: int| 0 <= i < walk(pieces).len() implies is_component(
            #[trigger] walk(pieces)[i],
        ) && pieces.contains(walk(pieces)[i]) by {
            if i < at.len() {
                assert(walk(pieces)[i] == at[i]);
                let j = choose|j: int| 0 <= j < pre.len() && pre[j] == at[i];
                assert(pieces[j] == at[i]);
            } else {
                assert(walk(pieces)[i] == last);
            }
        }
    }
}

/// A walk over components goes down each of them.
proof fn walk_down(parts: Seq<Seq<char>>)
    requires
        forall|i: int| 0 <= i < parts.len() ==> is_component(#[trigger] parts[i]),
    ensures
        walk(parts) == parts,
    decreases parts.len(),
{
    if parts.len() > 0 {
        assert forall|i: int| 0 <= i < parts.drop_last().len() implies is_component(
            #[trigger] parts.drop_last()[i],
        ) by {
            assert(parts.drop_last()[i] == parts[i]);
        }
        walk_down(parts.drop_last());
        assert(is_component(parts[parts.len() - 1]));
        assert(parts.drop_last().push(parts.last()) == parts);
    }
}

/// A walk over empty pieces stays at the root.
proof fn walk_blank(n: nat)
    ensures
        walk(Seq::new(n, |i: int| Seq::<char>::empty())) == Seq::<Seq<char>>::empty(),
    decreases n,
{
    if n > 0 {
        let m = (n - 1) as nat;
        walk_blank(m);
        assert(Seq::new(n, |i: int| Seq::<char>::empty()).drop_last() == Seq::new(
            m,
            |i: int| Seq::<char>::empty(),
        ));
    }
}

/// The pieces that a link's target is walked over, and what is in them.
proof fn link_pieces(link: Seq<char>, target: Seq<char>, c: char)
    requires
        c == '/' || (!link.contains(c) && !target.contains(c)),
    ensures
        ({
            let pieces = split(link_base(link, target), '/') + split(target, '/');
            forall|i: int| 0 <= i < pieces.len() ==> !(#[trigger] pieces[i]).contains(c)
        }),
{
    let base = link_base(link, target);
    if c != '/' {
        parent_is_prefix(link);
        assert forall|i: int| 0 <= i < base.len() implies base[i] != c by {
            assert(link[i] == base[i]);
        }
    }
    split_pieces(base, '/', c);
    split_pieces(target, '/', c);
}

proof fn parent_is_prefix(path: Seq<char>)
    ensures
        parent_of(path).len() <= path.len(),
        path.take(parent_of(path).len() as int) == parent_of(path),
    decreases path.len(),
{
    if path.len() > 0 && path.last() != '/' {
        parent_is_prefix(path.drop_last());
        let n = parent_of(path).len() as int;
        assert(path.take(n) == path.drop_last().take(n));
    }
}

proof fn parent_of_child(dir: Seq<char>, name: Seq<char>)
    requires
        !name.contains('/'),
    ensures
        parent_of(dir.push('/') + name) == dir,
    decreases name.len(),
{
    let path = dir.push('/') + name;
    if name.len() == 0 {
        assert(path == dir.push('/'));
        assert(path.drop_last() == dir);
    } else {
        assert(name[name.len() - 1] != '/');
        assert forall|i: int| 0 <= i < name.drop_last().len() implies name.drop_last()[i]
            != '/' by {
            assert(name[i] != '/');
        }
        parent_of_child(dir, name.drop_last());
        assert(path.drop_last() == dir.push('/') + name.drop_last());
    }
}

/// A link's target never leads out of the volume: whatever the link and
/// the target say, the path named is a list of components below the root,
/// none of them empty, `.` or `..`, and its spelling starts with a
/// backslash.
pub proof fn link_target_stays_in_volume(link: Seq<char>, target: Seq<char>)
    ensures
        forall|i: int|
            0 <= i < link_components(link, target).len() ==> is_component(
                #[trigger] link_components(link, target)[i],
            ),
        volume_path(link_components(link, target)).len() > 0,
        volume_path(link_components(link, target))[0] == '\\',
{
    link_pieces(link, target, '/');
    walk_components(split(link_base(link, target), '/') + split(target, '/'));
    backslashed_first(link_components(link, target));
}

proof fn backslashed_first(parts: Seq<Seq<char>>)
    ensures
        parts.len() > 0 ==> backslashed(parts).len() > 0 && backslashed(parts)[0] == '\\',
    decreases parts.len(),
{
    if parts.len() > 0 {
        backslashed_first(parts.drop_last());
        if parts.len() == 1 {
            assert(backslashed(parts.drop_last()) == Seq::<char>::empty());
        }
    }
}

/// An absolute target means the same wherever the link stands.
pub proof fn absolute_target_ignores_link(one: Seq<char>, other: Seq<char>, target: Seq<char>)
    requires
        target.len() > 0,
        target[0] == '/',
    ensures
        link_components(one, target) == link_components(other, target),
{
}

/// A relative target means the absolute path made of the link's directory
/// and the target.
pub proof fn relative_target_starts_at_link(
    dir: Seq<char>,
    name: Seq<char>,
    target: Seq<char>,
    other: Seq<char>,
)
    requires
        dir.len() > 0 ==> dir[0] == '/',
        !name.contains('/'),
        target.len() > 0 ==> target[0] != '/',
    ensures
        link_components(dir.push('/') + name, target) == link_components(
            other,
            dir.push('/') + target,
        ),
{
    parent_of_child(dir, name);
    split_join(dir, target, '/');
    let none = Seq::<Seq<char>>::empty();
    let blank = seq![Seq::<char>::empty()];
    assert(blank.drop_last() == none);
    let pieces = split(dir, '/') + split(target, '/');
    walk_goes_on(blank, none, pieces);
    assert(none + pieces == pieces);
}

/// `..` in the volume root stays in the root.
pub proof fn dot_dot_stops_at_root(link: Seq<char>, target: Seq<char>)
    requires
        target.len() > 0,
        target[0] == '/',
    ensures
        link_components(link, seq!['/', '.', '.'] + target) == link_components(link, target),
{
    let up = seq!['.', '.'];
    let rest = target.drop_first();
    let none = Seq::<char>::empty();
    assert(seq!['/', '.', '.'] == none.push('/') + up);
    assert(target == none.push('/') + rest);
    assert(seq!['/', '.', '.'] + target == seq!['/', '.', '.'].push('/') + rest);
    split_join(none, rest, '/');
    split_join(none, up, '/');
    split_join(seq!['/', '.', '.'], rest, '/');
    assert(!up.contains('/'));
    split_whole(up, '/');
    let blank = seq![none];
    let here = blank + blank;
    let back = blank + (blank + seq![up]);
    walk_blank(2);
    assert(here == Seq::new(2, |i: int| Seq::<char>::empty()));
    assert(back.drop_last() == here);
    walk_goes_on(back, here, split(rest, '/'));
    assert(back + split(rest, '/') == blank + (blank + seq![up] + split(rest, '/')));
    assert(here + split(rest, '/') == blank + (blank + split(rest, '/')));
}

/// Splitting the spelling of a path gives its components back.
proof fn split_backslashed(parts: Seq<Seq<char>>)
    requires
        forall|i: int| 0 <= i < parts.len() ==> !(#[trigger] parts[i]).contains('\\'),
    ensures
        split(backslashed(parts), '\\') == seq![Seq::<char>::empty()] + parts,
    decreases parts.len(),
{
    if parts.len() > 0 {
        let pre = parts.drop_last();
        assert forall|i: int| 0 <= i < pre.len() implies !(#[trigger] pre[i]).contains('\\') by {
            assert(pre[i] == parts[i]);
        }
        split_backslashed(pre);
        split_join(backslashed(pre), parts.last(), '\\');
        assert(!parts[parts.len() - 1].contains('\\'));
        split_whole(parts.last(), '\\');
        assert(pre + seq![parts.last()] == parts);
        assert(seq![Seq::<char>::empty()] + pre + seq![parts.last()] == seq![
            Seq::<char>::empty(),
        ] + parts);
    }
}

/// So does splitting the slash-separated spelling.
proof fn split_unix_spelling(parts: Seq<Seq<char>>)
    requires
        forall|i: int|
            0 <= i < parts.len() ==> !(#[trigger] parts[i]).contains('\\') && !parts[i].contains(
                '/',
            ),
        parts.len() > 0,
    ensures
        split(unix_spelling(backslashed(parts)), '/') == seq![Seq::<char>::empty()] + parts,
    decreases parts.len(),
{
    let pre = parts.drop_last();
    let last = parts.last();
    assert(!parts[parts.len() - 1].contains('\\') && !parts[parts.len() - 1].contains('/'));
    split_whole(last, '/');
    let head = backslashed(pre);
    let fold = |c: char| if c == '\\' { '/' } else { c };
    assert(last.map_values(fold) == last) by {
        assert forall|i: int| 0 <= i < last.len() implies last.map_values(fold)[i] == last[i] by {
            assert(last.contains(last[i]));
        }
    }
    assert((head.push('\\') + last).map_values(fold) == head.map_values(fold).push('/') + last) by {
        assert((head.push('\\') + last).map_values(fold) =~= head.map_values(fold).push('/')
            + last.map_values(fold));
    }
    split_join(head.map_values(fold), last, '/');
    if pre.len() == 0 {
        assert(head.map_values(fold) == Seq::<char>::empty());
        assert(parts == seq![last]);
    } else {
        assert forall|i: int| 0 <= i < pre.len() implies !(#[trigger] pre[i]).contains('\\')
            && !pre[i].contains('/') by {
            assert(pre[i] == parts[i]);
        }
        split_unix_spelling(pre);
        backslashed_first(pre);
        assert(seq![Seq::<char>::empty()] + pre + seq![last] == seq![Seq::<char>::empty()]
            + parts);
    }
}

/// Where neither the link nor its target holds a backslash, splitting the
/// resolved path at its backslashes gives exactly the components, so
/// Windows finds no `.` or `..` in it.
pub proof fn resolved_path_splits_into_components(link: Seq<char>, target: Seq<char>)
    requires
        !link.contains('\\'),
        !target.contains('\\'),
    ensures
        ({
            let parts = link_components(link, target);
            let none = Seq::<char>::empty();
            split(volume_path(parts), '\\') == if parts.len() == 0 {
                seq![none, none]
            } else {
                seq![none] + parts
            }
        }),
{
    let parts = link_components(link, target);
    let none = Seq::<char>::empty();
    components_without_backslash(link, target);
    split_backslashed(parts);
    if parts.len() == 0 {
        assert(seq!['\\'] == none.push('\\') + none);
        split_join(none, none, '\\');
        assert(seq![none] + seq![none] == seq![none, none]);
    }
}

proof fn components_without_backslash(link: Seq<char>, target: Seq<char>)
    requires
        !link.contains('\\'),
        !target.contains('\\'),
    ensures
        forall|i: int|
            0 <= i < link_components(link, target).len() ==> !(#[trigger] link_components(
                link,
                target,
            )[i]).contains('\\') && is_component(link_components(link, target)[i]),
{
    let pieces = split(link_base(link, target), '/') + split(target, '/');
    link_pieces(link, target, '/');
    link_pieces(link, target, '\\');
    walk_components(pieces);
    let parts = link_components(link, target);
    assert forall|i: int| 0 <= i < parts.len() implies !(#[trigger] parts[i]).contains('\\')
        && is_component(parts[i]) by {
        let j = choose|j: int| 0 <= j < pieces.len() && pieces[j] == parts[i];
        assert(!pieces[j].contains('\\'));
    }
}

/// Resolving an already resolved path changes nothing, where neither the
/// link nor its target holds a backslash.
pub proof fn resolving_twice_is_resolving_once(
    link: Seq<char>,
    target: Seq<char>,
    other: Seq<char>,
)
    requires
        !link.contains('\\'),
        !target.contains('\\'),
    ensures
        link_components(other, unix_spelling(volume_path(link_components(link, target))))
            == link_components(link, target),
{
    let parts = link_components(link, target);
    let none = Seq::<char>::empty();
    let blank = seq![none];
    components_without_backslash(link, target);
    assert(split(none, '/') == blank);
    if parts.len() == 0 {
        let root = unix_spelling(volume_path(parts));
        assert(root == seq!['/']);
        assert(root == none.push('/') + none);
        split_join(none, none, '/');
        walk_blank(3);
        assert(blank + (blank + blank) == Seq::new(3, |i: int| Seq::<char>::empty()));
    } else {
        split_unix_spelling(parts);
        backslashed_first(parts);
        walk_down(parts);
        walk_blank(2);
        assert(blank + blank == Seq::new(2, |i: int| Seq::<char>::empty()));
        walk_goes_on(blank + blank, Seq::empty(), parts);
        assert(blank + (blank + parts) == blank + blank + parts);
        assert(Seq::<Seq<char>>::empty() + parts == parts);
    }
}

/// A slash-separated path survives being spelled with backslashes in
/// UTF-16 and read back, as long as it holds no backslash of its own.
pub proof fn unix_path_survives_windows_spelling(path: Seq<char>)
    requires
        path.len() > 0,
        !path.contains('\\'),
    ensures
        path_of(
            crate::utf16::utf16(path.map_values(|c: char| if c == '/' { '\\' } else { c })),
        ) == Some(path),
{
    let win = path.map_values(|c: char| if c == '/' { '\\' } else { c });
    crate::utf16::decoded_utf16(win);
    assert forall|i: int| 0 <= i < path.len() implies unix_spelling(win)[i] == path[i] by {
        assert(path.contains(path[i]));
    }
    assert(unix_spelling(win) == path);
}

/// The path that a name stands for has a slash for every backslash and the
/// same character everywhere else; the empty name stands for the root.
pub proof fn path_is_the_name_with_slashes(name: Seq<char>, i: int)
    ensures
        ({
            let units = crate::utf16::utf16(name);
            let path = path_of(units);
            &&& path is Some
            &&& name.len() == 0 ==> path->0 == seq!['/']
            &&& name.len() > 0 ==> path->0.len() == name.len()
            &&& 0 <= i < name.len() && name[i] == '\\' ==> path->0[i] == '/'
            &&& 0 <= i < name.len() && name[i] != '\\' ==> path->0[i] == name[i]
        }),
{
    crate::utf16::decoded_utf16(name);
}

/// A name stands for no path exactly where its units encode no string.
pub proof fn only_ill_formed_names_have_no_path(units: Seq<u16>)
    ensures
        path_of(units) is None <==> forall|name: Seq<char>| #[trigger]
            crate::utf16::utf16(name) != units,
{
}

/// The walk that an absolute target takes.
proof fn absolute_pieces(link: Seq<char>, path: Seq<char>, more: Seq<char>)
    requires
        path.len() > 0 ==> path[0] == '/',
    ensures
        ({
            let blank = seq![Seq::<char>::empty()];
            &&& path.len() > 0 ==> link_components(link, path) == walk(blank + split(path, '/'))
            &&& link_components(link, path.push('/') + more) == walk(
                blank + split(path, '/') + split(more, '/'),
            )
        }),
{
    let blank = seq![Seq::<char>::empty()];
    let longer = path.push('/') + more;
    assert(longer[0] == '/');
    assert(split(Seq::<char>::empty(), '/') == blank);
    split_join(path, more, '/');
    assert(blank + (split(path, '/') + split(more, '/')) == blank + split(path, '/') + split(
        more,
        '/',
    ));
}

/// A piece that a walk goes over without moving can be left out.
proof fn idle_pieces(
    link: Seq<char>,
    path: Seq<char>,
    around: Seq<char>,
    rest: Seq<char>,
)
    requires
        path.len() > 0 ==> path[0] == '/',
        around.len() > 0 ==> around[0] == '/',
        walk(seq![Seq::<char>::empty()] + split(around, '/')) == walk(
            seq![Seq::<char>::empty()] + split(path, '/'),
        ),
    ensures
        link_components(link, around.push('/') + rest) == link_components(
            link,
            path.push('/') + rest,
        ),
{
    let blank = seq![Seq::<char>::empty()];
    absolute_pieces(link, path, rest);
    absolute_pieces(link, around, rest);
    walk_goes_on(blank + split(around, '/'), blank + split(path, '/'), split(rest, '/'));
}

/// A target that is the root names the volume itself.
pub proof fn root_has_no_components(link: Seq<char>)
    ensures
        link_components(link, seq!['/']).len() == 0,
{
    let none = Seq::<char>::empty();
    assert(seq!['/'] == none.push('/') + none);
    split_join(none, none, '/');
    walk_blank(3);
    assert(seq![none] + (seq![none] + seq![none]) == Seq::new(3, |i: int| Seq::<char>::empty()));
}

/// Naming something below a path goes down to it: one component more, at
/// any depth.
pub proof fn a_name_goes_down(link: Seq<char>, path: Seq<char>, name: Seq<char>)
    requires
        path.len() > 0,
        path[0] == '/',
        name.len() > 0,
        name != seq!['.'],
        name != seq!['.', '.'],
        forall|i: int| 0 <= i < name.len() ==> #[trigger] name[i] != '/',
    ensures
        link_components(link, path.push('/') + name) == link_components(link, path).push(name),
{
    let blank = seq![Seq::<char>::empty()];
    absolute_pieces(link, path, name);
    split_whole(name, '/');
    let pieces = blank + split(path, '/') + seq![name];
    assert(pieces.drop_last() == blank + split(path, '/'));
}

/// A slash at the end, or a dot, stays where it is.
pub proof fn a_dot_stays(link: Seq<char>, path: Seq<char>)
    requires
        path.len() > 0,
        path[0] == '/',
    ensures
        link_components(link, path.push('/')) == link_components(link, path),
        link_components(link, path + seq!['/', '.']) == link_components(link, path),
{
    let none = Seq::<char>::empty();
    let blank = seq![none];
    absolute_pieces(link, path, none);
    absolute_pieces(link, path, seq!['.']);
    assert(path.push('/') + none == path.push('/'));
    assert(path.push('/') + seq!['.'] == path + seq!['/', '.']);
    assert(!seq!['.'].contains('/'));
    split_whole(seq!['.'], '/');
    let here = blank + split(path, '/');
    assert((here + blank).drop_last() == here);
    assert((here + seq![seq!['.']]).drop_last() == here);
}

/// Two dots go up by one component at any depth, and stay in the root.
pub proof fn two_dots_go_up(link: Seq<char>, path: Seq<char>)
    requires
        path.len() > 0,
        path[0] == '/',
    ensures
        link_components(link, path).len() > 0 ==> link_components(
            link,
            path + seq!['/', '.', '.'],
        ) == link_components(link, path).drop_last(),
        link_components(link, path).len() == 0 ==> link_components(
            link,
            path + seq!['/', '.', '.'],
        ).len() == 0,
{
    let blank = seq![Seq::<char>::empty()];
    let up = seq!['.', '.'];
    absolute_pieces(link, path, up);
    assert(path.push('/') + up == path + seq!['/', '.', '.']);
    assert(!up.contains('/'));
    split_whole(up, '/');
    let here = blank + split(path, '/');
    assert((here + seq![up]).drop_last() == here);
    assert((here + seq![up]).last() == up);
}

/// Slashes in a row count as one, and a dot between slashes for nothing, at
/// any depth.
pub proof fn doubled_slashes_and_dots_vanish(link: Seq<char>, path: Seq<char>, rest: Seq<char>)
    requires
        path.len() > 0 ==> path[0] == '/',
    ensures
        link_components(link, path + seq!['/', '/'] + rest) == link_components(
            link,
            path + seq!['/'] + rest,
        ),
        link_components(link, path + seq!['/', '.', '/'] + rest) == link_components(
            link,
            path + seq!['/'] + rest,
        ),
{
    let none = Seq::<char>::empty();
    let blank = seq![none];
    let here = blank + split(path, '/');
    let dot = seq!['.'];
    let (slash, dotted) = (path.push('/') + none, path.push('/') + dot);
    split_join(path, none, '/');
    split_join(path, dot, '/');
    assert(split(none, '/') == blank);
    assert(!dot.contains('/'));
    split_whole(dot, '/');
    assert(blank + split(slash, '/') == here + blank);
    assert((here + blank).drop_last() == here);
    assert(blank + split(dotted, '/') == here + seq![dot]);
    assert((here + seq![dot]).drop_last() == here);
    idle_pieces(link, path, slash, rest);
    idle_pieces(link, path, dotted, rest);
    assert(slash.push('/') + rest == path + seq!['/', '/'] + rest);
    assert(dotted.push('/') + rest == path + seq!['/', '.', '/'] + rest);
    assert(path.push('/') + rest == path + seq!['/'] + rest);
}

/// Going down and up again leads nowhere else: `path/name/../rest` names
/// what `path/rest` names, at any depth, from the root on.
pub proof fn two_dots_undo_a_name(
    link: Seq<char>,
    path: Seq<char>,
    name: Seq<char>,
    rest: Seq<char>,
)
    requires
        path.len() > 0 ==> path[0] == '/',
        name.len() > 0,
        name != seq!['.'],
        name != seq!['.', '.'],
        forall|i: int| 0 <= i < name.len() ==> #[trigger] name[i] != '/',
    ensures
        link_components(
            link,
            path + seq!['/'] + name + seq!['/', '.', '.', '/'] + rest,
        ) == link_components(link, path + seq!['/'] + rest),
{
    let blank = seq![Seq::<char>::empty()];
    let up = seq!['.', '.'];
    let down = path.push('/') + name;
    let around = down.push('/') + up;
    let here = blank + split(path, '/');
    split_join(path, name, '/');
    split_join(down, up, '/');
    split_whole(name, '/');
    assert(!up.contains('/'));
    split_whole(up, '/');
    assert(blank + split(down, '/') == here + seq![name]);
    assert((here + seq![name]).drop_last() == here);
    assert(walk(here + seq![name]) == walk(here).push(name));
    assert(blank + split(around, '/') == here + seq![name] + seq![up]);
    assert((here + seq![name] + seq![up]).drop_last() == here + seq![name]);
    assert(walk(here).push(name).drop_last() == walk(here));
    idle_pieces(link, path, around, rest);
    assert(path.push('/') + rest == path + seq!['/'] + rest);
    assert(around.push('/') + rest == path + seq!['/'] + name + seq!['/', '.', '.', '/'] + rest);
}

/// A target `../rest` of a link in `dir/name` means `rest` of a link in
/// `dir`.
pub proof fn two_dots_start_at_the_parent(
    dir: Seq<char>,
    name: Seq<char>,
    link: Seq<char>,
    rest: Seq<char>,
)
    requires
        dir.len() > 0 ==> dir[0] == '/',
        name.len() > 0,
        name != seq!['.'],
        name != seq!['.', '.'],
        forall|i: int| 0 <= i < name.len() ==> #[trigger] name[i] != '/',
        forall|i: int| 0 <= i < link.len() ==> #[trigger] link[i] != '/',
        rest.len() > 0 ==> rest[0] != '/',
    ensures
        link_components(
            dir + seq!['/'] + name + seq!['/'] + link,
            seq!['.', '.', '/'] + rest,
        ) == link_components(dir + seq!['/'] + link, rest),
{
    let below = dir.push('/') + name;
    let target = seq!['.', '.', '/'] + rest;
    relative_target_starts_at_link(below, link, target, link);
    relative_target_starts_at_link(dir, link, rest, link);
    two_dots_undo_a_name(link, dir, name, rest);
    assert(below.push('/') + link == dir + seq!['/'] + name + seq!['/'] + link);
    assert(dir.push('/') + link == dir + seq!['/'] + link);
    assert(below.push('/') + target == dir + seq!['/'] + name + seq!['/', '.', '.', '/'] + rest);
    assert(dir.push('/') + rest == dir + seq!['/'] + rest);
}

/// A relative target is taken from the link's own directory, however that
/// is spelled; a link without one stands in the root.
pub proof fn any_link_has_a_directory(
    dir: Seq<char>,
    name: Seq<char>,
    target: Seq<char>,
    other: Seq<char>,
)
    requires
        forall|i: int| 0 <= i < name.len() ==> #[trigger] name[i] != '/',
        target.len() > 0 ==> target[0] != '/',
    ensures
        link_components(dir + seq!['/'] + name, target) == link_components(
            other,
            seq!['/'] + dir + seq!['/'] + target,
        ),
        link_components(name, target) == link_components(other, seq!['/'] + target),
{
    let none = Seq::<char>::empty();
    let blank = seq![none];
    assert(!name.contains('/'));
    parent_of_child(dir, name);
    assert(dir.push('/') + name == dir + seq!['/'] + name);
    split_join(dir, target, '/');
    split_join(none, dir.push('/') + target, '/');
    let absolute = seq!['/'] + dir + seq!['/'] + target;
    assert(absolute == none.push('/') + (dir.push('/') + target));
    let pieces = split(dir, '/') + split(target, '/');
    walk_blank(2);
    assert(blank + blank == Seq::new(2, |i: int| Seq::<char>::empty()));
    walk_goes_on(blank + blank, Seq::empty(), pieces);
    assert(blank + (blank + pieces) == blank + blank + pieces);
    assert(Seq::<Seq<char>>::empty() + pieces == pieces);

    no_parent(name);
    split_join(none, target, '/');
    assert(seq!['/'] + target == none.push('/') + target);
    walk_blank(1);
    assert(blank == Seq::new(1, |i: int| Seq::<char>::empty()));
    walk_goes_on(blank + blank, blank, split(target, '/'));
    assert(blank + (blank + split(target, '/')) == blank + blank + split(target, '/'));
}

proof fn no_parent(name: Seq<char>)
    requires
        !name.contains('/'),
    ensures
        parent_of(name) == Seq::<char>::empty(),
    decreases name.len(),
{
    if name.len() > 0 {
        assert(name[name.len() - 1] == name.last());
        assert forall|i: int| 0 <= i < name.drop_last().len() implies name.drop_last()[i]
            != '/' by {
            assert(name[i] != '/');
        }
        no_parent(name.drop_last());
    }
}

/// The Windows spelling puts one backslash ahead of each component; the
/// volume itself is a single backslash.
pub proof fn volume_path_grows_by_components(parts: Seq<Seq<char>>, name: Seq<char>)
    ensures
        volume_path(Seq::empty()) == seq!['\\'],
        volume_path(seq![name]) == seq!['\\'] + name,
        parts.len() > 0 ==> volume_path(parts.push(name)) == volume_path(parts) + seq!['\\']
            + name,
{
    assert(seq![name].drop_last() == Seq::<Seq<char>>::empty());
    assert(backslashed(Seq::empty()) == Seq::<char>::empty());
    assert(volume_path(seq![name]) == seq!['\\'] + name);
    assert(parts.push(name).drop_last() == parts);
    if parts.len() > 0 {
        assert(volume_path(parts.push(name)) == volume_path(parts) + seq!['\\'] + name);
    }
}

} // verus!
