//! Directory listings: the image's children and the overlay's, merged and
//! in name order, so that a listing can be taken up again after any name.

use vstd::prelude::*;
use vstd::utf8::{decode_utf8, valid_utf8};

use crate::info::{Inode, populate_file_info, populate_overlay_file_info, FileInfo, Timestamp};
use crate::overlay::{join, Overlay, OverlayEntry, OverlayLookup, Staged};
use crate::text::{names_in_order, string_from_utf8};

verus! {

/// A child as a directory of the image stores it.
#[derive(Debug)]
pub struct DirEntry {
    pub name: Vec<u8>,
    pub ino: u64,
}

/// One entry of a merged listing.
#[derive(Debug)]
pub enum MergedEntry {
    Underlay(String, Inode),
    Overlay(String, OverlayEntry),
}

/// The model of a [`MergedEntry`].
#[verifier::ext_equal]
pub enum Listed {
    Underlay(Seq<char>, Inode),
    Overlay(Seq<char>, Staged),
}

impl View for MergedEntry {
    type V = Listed;

    open spec fn view(&self) -> Listed {
        match *self {
            MergedEntry::Underlay(name, inode) => Listed::Underlay(name@, inode),
            MergedEntry::Overlay(name, entry) => Listed::Overlay(name@, entry@),
        }
    }
}

impl Listed {
    pub open spec fn name(self) -> Seq<char> {
        match self {
            Listed::Underlay(name, _) => name,
            Listed::Overlay(name, _) => name,
        }
    }

    /// Sizes are within bounds.
    pub open spec fn fits(self) -> bool {
        match self {
            Listed::Underlay(_, inode) => inode.fits(),
            Listed::Overlay(_, entry) => entry.fits(),
        }
    }

    /// What is told of the entry.
    pub open spec fn info(self, read_only: bool) -> FileInfo {
        match self {
            Listed::Underlay(_, inode) => crate::info::inode_info(inode, read_only),
            Listed::Overlay(_, entry) => crate::info::staged_info(entry, read_only),
        }
    }
}

impl MergedEntry {
    pub fn name(&self) -> (r: &str)
        ensures
            r@ == self@.name(),
    {
        match self {
            MergedEntry::Underlay(n, _) | MergedEntry::Overlay(n, _) => n.as_str(),
        }
    }
}

/// The entries of a listing.
pub open spec fn entries(list: Seq<MergedEntry>) -> Seq<Listed> {
    list.map_values(|e: MergedEntry| e@)
}

/// The listing is in name order.
pub open spec fn sorted(list: Seq<Listed>) -> bool {
    forall|i: int, j: int|
        0 <= i <= j < list.len() ==> #[trigger] crate::text::name_le(
            list[i].name(),
            list[j].name(),
        )
}

/// Sizes are within bounds throughout.
pub open spec fn all_fit(list: Seq<Listed>) -> bool {
    forall|i: int| 0 <= i < list.len() ==> (#[trigger] list[i]).fits()
}

/// The entries under one name, in order.
pub open spec fn named(list: Seq<Listed>, name: Seq<char>) -> Seq<Listed> {
    list.filter(|e: Listed| e.name() == name)
}

/// The entries whose names come after `name`.
pub open spec fn after(list: Seq<Listed>, name: Seq<char>) -> Seq<Listed> {
    list.filter(|e: Listed| !crate::text::name_le(e.name(), name))
}

/// A child of the image that a listing may show: neither `.` nor `..`, a
/// name that is UTF-8, and no tombstone at its path.
pub open spec fn shows(
    staged: Map<Seq<char>, Staged>,
    dir: Seq<char>,
    entry: DirEntry,
) -> bool {
    let path = crate::overlay::child_path(dir, decode_utf8(entry.name@));
    &&& entry.name@ != seq![46u8]
    &&& entry.name@ != seq![46u8, 46u8]
    &&& valid_utf8(entry.name@)
    &&& !(crate::overlay::found(staged, path) is Deleted)
}

/// The children of the image that a listing may show, with their inode
/// numbers.
pub open spec fn candidates(
    staged: Map<Seq<char>, Staged>,
    dir: Seq<char>,
    children: Seq<DirEntry>,
) -> Seq<(Seq<char>, u64)>
    decreases children.len(),
{
    if children.len() == 0 {
        Seq::empty()
    } else {
        let before = candidates(staged, dir, children.drop_last());
        if shows(staged, dir, children.last()) {
            before.push((decode_utf8(children.last().name@), children.last().ino))
        } else {
            before
        }
    }
}

/// Names and inode numbers as sequences.
pub open spec fn pairs(list: Seq<(String, u64)>) -> Seq<(Seq<char>, u64)> {
    list.map_values(|p: (String, u64)| (p.0@, p.1))
}

fn is_dot_name(name: &Vec<u8>) -> (r: bool)
    ensures
        r == (name@ == seq![46u8] || name@ == seq![46u8, 46u8]),
{
    if name.len() == 1 && name[0] == 46 {
        assert(name@ == seq![46u8]);
        return true;
    }
    if name.len() == 2 && name[0] == 46 && name[1] == 46 {
        assert(name@ == seq![46u8, 46u8]);
        return true;
    }
    false
}

/// Whether a tombstone stands at the path of the child `name`.
fn is_gone(overlay: &Overlay, dir: &str, name: &str) -> (r: bool)
    ensures
        r == (crate::overlay::found(
            overlay@,
            crate::overlay::child_path(dir@, name@),
        ) is Deleted),
{
    let path: String = join(dir, name);
    match overlay.lookup(path.as_str()) {
        OverlayLookup::Deleted => true,
        _ => false,
    }
}

/// Picks the children of the image that a listing of `dir` may show.
pub fn visible_children(overlay: &Overlay, dir: &str, children: Vec<DirEntry>) -> (r: Vec<
    (String, u64),
>)
    ensures
        pairs(r@) == candidates(overlay@, dir@, children@),
{
    let mut r: Vec<(String, u64)> = Vec::new();
    let mut i: usize = 0;
    assert(pairs(r@) == candidates(overlay@, dir@, children@.take(0)));
    while i < children.len()
        invariant
            i <= children@.len(),
            pairs(r@) == candidates(overlay@, dir@, children@.take(i as int)),
        decreases children@.len() - i,
    {
        let child: &DirEntry = &children[i];
        let ghost before = r@;
        assert(children@.take(i + 1).drop_last() == children@.take(i as int));
        if !is_dot_name(&child.name) {
            match string_from_utf8(child.name.clone()) {
                Some(name) => {
                    if !is_gone(overlay, dir, name.as_str()) {
                        r.push((name, child.ino));
                        assert(pairs(r@) == pairs(before).push((name@, child.ino)));
                    }
                },
                None => {},
            }
        }
        i = i + 1;
    }
    assert(children@.take(children@.len() as int) == children@);
    r
}

/// The inodes found in the image under one name, in order.
pub open spec fn in_image(found: Seq<(String, Option<Inode>)>, name: Seq<char>) -> Seq<Listed>
    decreases found.len(),
{
    if found.len() == 0 {
        Seq::empty()
    } else {
        let before = in_image(found.drop_last(), name);
        match found.last().1 {
            Some(inode) => if found.last().0@ == name {
                before.push(Listed::Underlay(name, inode))
            } else {
                before
            },
            None => before,
        }
    }
}

/// What is left of the image under one name: nothing where a tombstone
/// stands at its path.
pub open spec fn left_of_image(
    staged: Map<Seq<char>, Staged>,
    dir: Seq<char>,
    found: Seq<(String, Option<Inode>)>,
    name: Seq<char>,
) -> Seq<Listed> {
    if crate::overlay::found(staged, crate::overlay::child_path(dir, name)) is Deleted {
        Seq::empty()
    } else {
        in_image(found, name)
    }
}

/// What a merged listing holds under one name: the live overlay entry, or
/// else what is left of the image there.
pub open spec fn merged_under(
    staged: Map<Seq<char>, Staged>,
    dir: Seq<char>,
    found: Seq<(String, Option<Inode>)>,
    name: Seq<char>,
) -> Seq<Listed> {
    let over = crate::overlay::children(staged, dir);
    if over.contains_key(name) && !(over[name] is Deleted) {
        seq![Listed::Overlay(name, over[name])]
    } else {
        left_of_image(staged, dir, found, name)
    }
}

/// The merged listing of a directory: in name order, and under every name
/// exactly what is to be shown there.
pub open spec fn is_listing(
    list: Seq<Listed>,
    staged: Map<Seq<char>, Staged>,
    dir: Seq<char>,
    found: Seq<(String, Option<Inode>)>,
) -> bool {
    &&& sorted(list)
    &&& forall|name: Seq<char>| #[trigger]
        named(list, name) == merged_under(staged, dir, found, name)
}

/// The first place in the listing whose name comes after `name`.
pub fn place_after(list: &Vec<MergedEntry>, name: &str) -> (r: usize)
    requires
        sorted(entries(list@)),
    ensures
        r <= list@.len(),
        forall|i: int|
            0 <= i < r ==> crate::text::name_le((#[trigger] entries(list@)[i]).name(), name@),
        forall|i: int|
            r <= i < list@.len() ==> !crate::text::name_le(
                (#[trigger] entries(list@)[i]).name(),
                name@,
            ),
{
    let ghost l = entries(list@);
    let mut low: usize = 0;
    let mut high: usize = list.len();
    while low < high
        invariant
            low <= high <= list@.len(),
            l == entries(list@),
            sorted(l),
            forall|i: int| 0 <= i < low ==> crate::text::name_le((#[trigger] l[i]).name(), name@),
            forall|i: int|
                high <= i < list@.len() ==> !crate::text::name_le(
                    (#[trigger] l[i]).name(),
                    name@,
                ),
        decreases high - low,
    {
        let mid: usize = low + (high - low) / 2;
        assert(l[mid as int].name() == list@[mid as int]@.name());
        if names_in_order(list[mid].name(), name) {
            assert forall|i: int| 0 <= i < mid + 1 implies crate::text::name_le(
                (#[trigger] l[i]).name(),
                name@,
            ) by {
                assert(crate::text::name_le(l[i].name(), l[mid as int].name()));
                crate::text::name_le_is_total_order(l[i].name(), l[mid as int].name(), name@);
            }
            low = mid + 1;
        } else {
            assert forall|i: int| mid <= i < list@.len() implies !crate::text::name_le(
                (#[trigger] l[i]).name(),
                name@,
            ) by {
                assert(crate::text::name_le(l[mid as int].name(), l[i].name()));
                crate::text::name_le_is_total_order(l[mid as int].name(), l[i].name(), name@);
            }
            high = mid;
        }
    }
    low
}

proof fn filter_none(list: Seq<Listed>, keep: spec_fn(Listed) -> bool)
    requires
        forall|i: int| 0 <= i < list.len() ==> !keep(#[trigger] list[i]),
    ensures
        list.filter(keep) == Seq::<Listed>::empty(),
    decreases list.len(),
{
    reveal(Seq::filter);
    if list.len() > 0 {
        assert forall|i: int| 0 <= i < list.drop_last().len() implies !keep(
            #[trigger] list.drop_last()[i],
        ) by {
            assert(list.drop_last()[i] == list[i]);
        }
        filter_none(list.drop_last(), keep);
        assert(!keep(list[list.len() - 1]));
    }
}

proof fn filter_all(list: Seq<Listed>, keep: spec_fn(Listed) -> bool)
    requires
        forall|i: int| 0 <= i < list.len() ==> keep(#[trigger] list[i]),
    ensures
        list.filter(keep) == list,
    decreases list.len(),
{
    reveal(Seq::filter);
    if list.len() > 0 {
        assert forall|i: int| 0 <= i < list.drop_last().len() implies keep(
            #[trigger] list.drop_last()[i],
        ) by {
            assert(list.drop_last()[i] == list[i]);
        }
        filter_all(list.drop_last(), keep);
        assert(keep(list[list.len() - 1]));
        assert(list.drop_last().push(list.last()) == list);
    }
}

/// An entry put behind all names up to its own keeps the order, and stands
/// last under its name.
proof fn insert_keeps_order(list: Seq<Listed>, at: int, e: Listed)
    requires
        sorted(list),
        0 <= at <= list.len(),
        forall|i: int|
            0 <= i < at ==> crate::text::name_le((#[trigger] list[i]).name(), e.name()),
        forall|i: int|
            at <= i < list.len() ==> !crate::text::name_le((#[trigger] list[i]).name(), e.name()),
    ensures
        sorted(list.insert(at, e)),
        forall|name: Seq<char>| #[trigger]
            named(list.insert(at, e), name) == if name == e.name() {
                named(list, name).push(e)
            } else {
                named(list, name)
            },
{
    let new = list.insert(at, e);
    assert forall|i: int, j: int| 0 <= i <= j < new.len() implies #[trigger] crate::text::name_le(
        new[i].name(),
        new[j].name(),
    ) by {
        let a = if i < at {
            i
        } else {
            i - 1
        };
        let b = if j < at {
            j
        } else {
            j - 1
        };
        if i == at && j == at {
            crate::text::name_le_is_total_order(e.name(), e.name(), e.name());
        } else if i == at {
            crate::text::name_le_is_total_order(e.name(), list[b].name(), e.name());
        } else if j == at {
            assert(new[i] == list[a]);
        } else {
            assert(new[i] == list[a] && new[j] == list[b]);
            assert(crate::text::name_le(list[a].name(), list[b].name()));
        }
    }
    let (front, back) = (list.take(at), list.skip(at));
    assert(list == front + back);
    assert(new == front + seq![e] + back);
    assert forall|name: Seq<char>| #[trigger] named(new, name) == if name == e.name() {
        named(list, name).push(e)
    } else {
        named(list, name)
    } by {
        let keep = |x: Listed| x.name() == name;
        Seq::filter_distributes_over_add(front, back, keep);
        Seq::filter_distributes_over_add(front, seq![e], keep);
        Seq::filter_distributes_over_add(front + seq![e], back, keep);
        if name == e.name() {
            assert forall|i: int| 0 <= i < back.len() implies !keep(#[trigger] back[i]) by {
                assert(back[i] == list[at + i]);
                if list[at + i].name() == name {
                    crate::text::name_le_is_total_order(name, name, name);
                }
            }
            filter_none(back, keep);
            filter_all(seq![e], keep);
            assert(named(new, name) == named(list, name).push(e));
        } else {
            filter_none(seq![e], keep);
            assert(named(new, name) == named(list, name));
        }
    }
}

/// Puts an entry in its place in a listing, behind those of its name.
fn insert_sorted(list: &mut Vec<MergedEntry>, e: MergedEntry)
    requires
        sorted(entries(old(list)@)),
        all_fit(entries(old(list)@)),
        e@.fits(),
    ensures
        sorted(entries(final(list)@)),
        all_fit(entries(final(list)@)),
        forall|name: Seq<char>| #[trigger]
            named(entries(final(list)@), name) == if name == e@.name() {
                named(entries(old(list)@), name).push(e@)
            } else {
                named(entries(old(list)@), name)
            },
{
    let at: usize = place_after(list, e.name());
    let ghost before = entries(list@);
    let ghost entry = e@;
    proof {
        insert_keeps_order(before, at as int, entry);
    }
    list.insert(at, e);
    assert(entries(list@) == before.insert(at as int, entry));
    assert forall|i: int| 0 <= i < entries(list@).len() implies (#[trigger] entries(
        list@,
    )[i]).fits() by {
        let k = if i < at {
            i
        } else {
            i - 1
        };
        if i != at {
            assert(entries(list@)[i] == before[k]);
        }
    }
}

/// Whether the list holds a live entry under `name`.
fn holds_live(over: &Vec<(String, OverlayEntry)>, name: &String) -> (r: bool)
    requires
        crate::overlay::distinct(over@),
    ensures
        r == (crate::overlay::as_map(over@).contains_key(name@) && !(crate::overlay::as_map(
            over@,
        )[name@] is Deleted)),
{
    proof {
        crate::overlay::as_map_entries(over@);
    }
    let mut i: usize = 0;
    while i < over.len()
        invariant
            i <= over@.len(),
            crate::overlay::distinct(over@),
            forall|j: int| 0 <= j < i ==> (#[trigger] over@[j]).0@ != name@,
        decreases over@.len() - i,
    {
        if over[i].0 == *name {
            proof {
                crate::overlay::as_map_entries(over@);
            }
            return !over[i].1.is_deleted();
        }
        i = i + 1;
    }
    false
}

/// Merges the children found in the image with what is staged below `dir`.
/// A live overlay entry stands in for what the image has under its name, a
/// tombstone hides it, and an inode that could not be read is left out.
pub fn merge_listing(overlay: &Overlay, dir: &str, found: Vec<(String, Option<Inode>)>) -> (r: Vec<
    MergedEntry,
>)
    requires
        forall|i: int|
            0 <= i < found@.len() ==> ((#[trigger] found@[i]).1 matches Some(inode)
                ==> inode.fits()),
    ensures
        is_listing(entries(r@), overlay@, dir@, found@),
        all_fit(entries(r@)),
{
    let over: Vec<(String, OverlayEntry)> = overlay.iter_dir(dir);
    let ghost live = crate::overlay::children(overlay@, dir@);
    let mut r: Vec<MergedEntry> = Vec::new();
    let mut i: usize = 0;
    assert forall|name: Seq<char>| #[trigger] named(entries(r@), name) == Seq::<
        Listed,
    >::empty() by {
        filter_none(entries(r@), |x: Listed| x.name() == name);
    }
    while i < found.len()
        invariant
            crate::overlay::distinct(over@),
            crate::overlay::all_fit(over@),
            crate::overlay::as_map(over@) == live,
            i <= found@.len(),
            forall|j: int|
                0 <= j < found@.len() ==> ((#[trigger] found@[j]).1 matches Some(inode)
                    ==> inode.fits()),
            sorted(entries(r@)),
            all_fit(entries(r@)),
            forall|name: Seq<char>| #[trigger]
                named(entries(r@), name) == if live.contains_key(name) && !(live[name] is Deleted) {
                    Seq::<Listed>::empty()
                } else {
                    left_of_image(overlay@, dir@, found@.take(i as int), name)
                },
        decreases found@.len() - i,
    {
        assert(found@.take(i + 1).drop_last() == found@.take(i as int));
        assert(found@.take(i + 1).last() == found@[i as int]);
        if let Some(inode) = found[i].1 {
            if !holds_live(&over, &found[i].0) && !is_gone(overlay, dir, found[i].0.as_str()) {
                insert_sorted(&mut r, MergedEntry::Underlay(found[i].0.clone(), inode));
            }
        }
        i = i + 1;
    }
    assert(found@.take(found@.len() as int) == found@);
    let mut k: usize = 0;
    proof {
        crate::overlay::as_map_entries(over@);
    }
    while k < over.len()
        invariant
            crate::overlay::distinct(over@),
            crate::overlay::all_fit(over@),
            crate::overlay::as_map(over@) == live,
            forall|j: int|
                0 <= j < over@.len() ==> live.contains_key((#[trigger] over@[j]).0@)
                    && live[over@[j].0@] == over@[j].1@,
            k <= over@.len(),
            sorted(entries(r@)),
            all_fit(entries(r@)),
            forall|name: Seq<char>| #[trigger]
                named(entries(r@), name) == if live.contains_key(name) && !(live[name] is Deleted) {
                    if exists|j: int| 0 <= j < k && (#[trigger] over@[j]).0@ == name {
                        seq![Listed::Overlay(name, live[name])]
                    } else {
                        Seq::empty()
                    }
                } else {
                    left_of_image(overlay@, dir@, found@, name)
                },
        decreases over@.len() - k,
    {
        let ghost before = entries(r@);
        let ghost here = over@[k as int];
        if !over[k].1.is_deleted() {
            assert(forall|j: int| 0 <= j < k ==> (#[trigger] over@[j]).0@ != here.0@);
            let e: MergedEntry = MergedEntry::Overlay(over[k].0.clone(), over[k].1.clone());
            let ghost shown = e@;
            insert_sorted(&mut r, e);
            assert(Seq::<Listed>::empty().push(shown) == seq![Listed::Overlay(
                here.0@,
                live[here.0@],
            )]);
        }
        assert forall|name: Seq<char>| #[trigger] named(entries(r@), name) == if live.contains_key(
            name,
        ) && !(live[name] is Deleted) {
            if exists|j: int| 0 <= j < k + 1 && (#[trigger] over@[j]).0@ == name {
                seq![Listed::Overlay(name, live[name])]
            } else {
                Seq::empty()
            }
        } else {
            left_of_image(overlay@, dir@, found@, name)
        } by {
            let _ = named(before, name);
            if name == here.0@ {
                assert(over@[k as int].0@ == name);
            } else if exists|j: int| 0 <= j < k + 1 && (#[trigger] over@[j]).0@ == name {
                let j = choose|j: int| 0 <= j < k + 1 && (#[trigger] over@[j]).0@ == name;
                assert(0 <= j < k && over@[j].0@ == name);
            }
        }
        k = k + 1;
    }
    assert forall|name: Seq<char>| #[trigger] named(entries(r@), name) == merged_under(
        overlay@,
        dir@,
        found@,
        name,
    ) by {
        if live.contains_key(name) {
            crate::overlay::as_map_entries(over@);
            assert(exists|j: int| 0 <= j < over@.len() && (#[trigger] over@[j]).0@ == name);
        }
    }
    r
}

/// One row of a directory listing.
#[derive(Debug)]
pub struct DirRow {
    pub name: String,
    pub info: FileInfo,
}

/// Names and what is told of them.
pub open spec fn rows(list: Seq<DirRow>) -> Seq<(Seq<char>, FileInfo)> {
    list.map_values(|r: DirRow| (r.name@, r.info))
}

/// The rows for the entries of a listing.
pub open spec fn rows_of(list: Seq<Listed>, read_only: bool) -> Seq<(Seq<char>, FileInfo)> {
    list.map_values(|e: Listed| (e.name(), e.info(read_only)))
}

/// The part of a listing that comes after a marker; all of it where there
/// is none.
pub open spec fn resumed(list: Seq<Listed>, marker: Option<Seq<char>>) -> Seq<Listed> {
    match marker {
        Some(name) => after(list, name),
        None => list,
    }
}

/// In a listing in name order, what comes after a name is what stands
/// behind the last place with a name up to it.
proof fn after_is_tail(list: Seq<Listed>, at: int, name: Seq<char>)
    requires
        0 <= at <= list.len(),
        forall|i: int| 0 <= i < at ==> crate::text::name_le((#[trigger] list[i]).name(), name),
        forall|i: int|
            at <= i < list.len() ==> !crate::text::name_le((#[trigger] list[i]).name(), name),
    ensures
        after(list, name) == list.skip(at),
{
    let keep = |e: Listed| !crate::text::name_le(e.name(), name);
    let (front, back) = (list.take(at), list.skip(at));
    assert(list == front + back);
    Seq::filter_distributes_over_add(front, back, keep);
    assert forall|i: int| 0 <= i < front.len() implies !keep(#[trigger] front[i]) by {
        assert(front[i] == list[i]);
    }
    assert forall|i: int| 0 <= i < back.len() implies keep(#[trigger] back[i]) by {
        assert(back[i] == list[at + i]);
    }
    filter_none(front, keep);
    filter_all(back, keep);
    assert(Seq::<Listed>::empty() + back == back);
}

/// The rows of a listing after a marker.
pub fn rows_after(list: &Vec<MergedEntry>, marker: Option<&str>, read_only: bool) -> (r: Vec<
    DirRow,
>)
    requires
        sorted(entries(list@)),
        all_fit(entries(list@)),
    ensures
        rows(r@) == rows_of(
            resumed(
                entries(list@),
                match marker {
                    Some(m) => Some(m@),
                    None => None,
                },
            ),
            read_only,
        ),
{
    let start: usize = match marker {
        Some(name) => place_after(list, name),
        None => 0,
    };
    let ghost l = entries(list@);
    let ghost rest = match marker {
        Some(m) => resumed(l, Some(m@)),
        None => resumed(l, None),
    };
    proof {
        match marker {
            Some(m) => {
                after_is_tail(l, start as int, m@);
            },
            None => {
                assert(l.skip(0) == l);
            },
        }
    }
    let mut r: Vec<DirRow> = Vec::new();
    let mut i: usize = start;
    while i < list.len()
        invariant
            start <= i <= list@.len(),
            l == entries(list@),
            rest == l.skip(start as int),
            all_fit(l),
            rows(r@) == rows_of(rest.take(i - start), read_only),
        decreases list@.len() - i,
    {
        let ghost before = r@;
        let zero: Timestamp = Timestamp { sec: 0, nsec: 0 };
        let mut info: FileInfo = FileInfo {
            file_attributes: 0,
            reparse_tag: 0,
            file_size: 0,
            allocation_size: 0,
            creation_time: zero,
            last_access_time: zero,
            last_write_time: zero,
            change_time: zero,
            index_number: 0,
            hard_links: 0,
            ea_size: 0,
        };
        assert(l[i as int] == list@[i as int]@);
        assert(l[i as int].fits());
        match &list[i] {
            MergedEntry::Underlay(_, inode) => populate_file_info(inode, &mut info, read_only),
            MergedEntry::Overlay(_, entry) => populate_overlay_file_info(
                entry,
                &mut info,
                read_only,
            ),
        }
        let name: String = list[i].name().to_owned();
        r.push(DirRow { name, info });
        assert(rows(r@) == rows(before).push((name@, info)));
        assert(rest.take(i + 1 - start) == rest.take(i - start).push(l[i as int]));
        assert(rows_of(rest.take(i + 1 - start), read_only) == rows_of(
            rest.take(i - start),
            read_only,
        ).push((l[i as int].name(), l[i as int].info(read_only))));
        i = i + 1;
    }
    assert(rest.take(rest.len() as int) == rest);
    r
}

/// Under a name there is an entry exactly where the listing holds one.
proof fn named_holds(list: Seq<Listed>, at: int)
    requires
        0 <= at < list.len(),
    ensures
        named(list, list[at].name()).len() > 0,
{
    broadcast use vstd::seq_lib::group_filter_ensures;

    let name = list[at].name();
    let keep = |e: Listed| e.name() == name;
    assert(keep(list[at]));
    assert(list.filter(keep).contains(list[at]));
}

/// What is listed under a name stands in the listing.
proof fn named_is_listed(list: Seq<Listed>, name: Seq<char>)
    requires
        named(list, name).len() > 0,
    ensures
        exists|i: int| 0 <= i < list.len() && (#[trigger] list[i]).name() == name,
{
    if forall|i: int| 0 <= i < list.len() ==> (#[trigger] list[i]).name() != name {
        filter_none(list, |e: Listed| e.name() == name);
    }
}

/// The last entry of a listing stands last under its name.
proof fn named_last(list: Seq<Listed>, name: Seq<char>)
    requires
        list.len() > 0,
    ensures
        named(list, name) == if list.last().name() == name {
            named(list.drop_last(), name).push(list.last())
        } else {
            named(list.drop_last(), name)
        },
{
    reveal(Seq::filter);
}

/// A listing is determined by what is to be shown under each name: there is
/// only one in name order.
pub proof fn listing_is_unique(a: Seq<Listed>, b: Seq<Listed>)
    requires
        sorted(a),
        sorted(b),
        forall|name: Seq<char>| #[trigger] named(a, name) == named(b, name),
    ensures
        a == b,
    decreases a.len(),
{
    if a.len() == 0 {
        if b.len() > 0 {
            named_holds(b, 0);
            filter_none(a, |e: Listed| e.name() == b[0].name());
            assert(named(a, b[0].name()) == named(b, b[0].name()));
        }
    } else {
        let (x, y) = (a.last(), b.last());
        named_holds(a, a.len() - 1);
        assert(named(a, x.name()) == named(b, x.name()));
        named_is_listed(b, x.name());
        let i = choose|i: int| 0 <= i < b.len() && (#[trigger] b[i]).name() == x.name();
        named_holds(b, b.len() - 1);
        assert(named(a, y.name()) == named(b, y.name()));
        named_is_listed(a, y.name());
        let j = choose|j: int| 0 <= j < a.len() && (#[trigger] a[j]).name() == y.name();
        assert(crate::text::name_le(b[i].name(), b[b.len() - 1].name()));
        assert(crate::text::name_le(a[j].name(), a[a.len() - 1].name()));
        crate::text::name_le_is_total_order(x.name(), y.name(), x.name());
        assert(x.name() == y.name());
        named_last(a, x.name());
        named_last(b, x.name());
        assert(named(a, x.name()).last() == x);
        assert(named(b, x.name()).last() == y);
        let (p, q) = (a.drop_last(), b.drop_last());
        assert forall|name: Seq<char>| #[trigger] named(p, name) == named(q, name) by {
            named_last(a, name);
            named_last(b, name);
            assert(named(a, name) == named(b, name));
            if name == x.name() {
                assert(named(p, name) == named(a, name).drop_last());
                assert(named(q, name) == named(b, name).drop_last());
            }
        }
        assert forall|i: int, j: int| 0 <= i <= j < p.len() implies #[trigger] crate::text::name_le(
            p[i].name(),
            p[j].name(),
        ) by {
            assert(crate::text::name_le(a[i].name(), a[j].name()));
        }
        assert forall|i: int, j: int| 0 <= i <= j < q.len() implies #[trigger] crate::text::name_le(
            q[i].name(),
            q[j].name(),
        ) by {
            assert(crate::text::name_le(b[i].name(), b[j].name()));
        }
        listing_is_unique(p, q);
        assert(a == p.push(x));
        assert(b == q.push(y));
    }
}

/// Building a listing again over the same overlay and the same children
/// gives the same listing.
pub proof fn listing_is_determined(
    a: Seq<Listed>,
    b: Seq<Listed>,
    staged: Map<Seq<char>, Staged>,
    dir: Seq<char>,
    found: Seq<(String, Option<Inode>)>,
)
    requires
        is_listing(a, staged, dir, found),
        is_listing(b, staged, dir, found),
    ensures
        a == b,
{
    assert forall|name: Seq<char>| #[trigger] named(a, name) == named(b, name) by {
        assert(named(b, name) == merged_under(staged, dir, found, name));
    }
    listing_is_unique(a, b);
}

/// No deleted name is listed, whatever was found in the image.
pub proof fn listing_shows_no_tombstone(
    list: Seq<Listed>,
    staged: Map<Seq<char>, Staged>,
    dir: Seq<char>,
    found: Seq<(String, Option<Inode>)>,
    at: int,
)
    requires
        is_listing(list, staged, dir, found),
        0 <= at < list.len(),
    ensures
        !(crate::overlay::found(staged, crate::overlay::child_path(dir, list[at].name())) is Deleted),
{
    let name = list[at].name();
    named_holds(list, at);
    assert(named(list, name) == merged_under(staged, dir, found, name));
}

/// Every child that is picked is one of the directory's, and visible.
pub proof fn candidates_are_visible(
    staged: Map<Seq<char>, Staged>,
    dir: Seq<char>,
    children: Seq<DirEntry>,
    at: int,
)
    requires
        0 <= at < candidates(staged, dir, children).len(),
    ensures
        ({
            let (name, ino) = candidates(staged, dir, children)[at];
            &&& exists|i: int|
                0 <= i < children.len() && shows(staged, dir, #[trigger] children[i])
                    && decode_utf8(children[i].name@) == name && children[i].ino == ino
            &&& !(crate::overlay::found(staged, crate::overlay::child_path(dir, name)) is Deleted)
        }),
    decreases children.len(),
{
    let pre = children.drop_last();
    if at < candidates(staged, dir, pre).len() {
        candidates_are_visible(staged, dir, pre, at);
        let (name, ino) = candidates(staged, dir, pre)[at];
        let i = choose|i: int|
            0 <= i < pre.len() && shows(staged, dir, #[trigger] pre[i]) && decode_utf8(
                pre[i].name@,
            ) == name && pre[i].ino == ino;
        assert(children[i] == pre[i]);
    } else {
        assert(shows(staged, dir, children[children.len() - 1]));
    }
}

/// What is staged live below a directory is listed exactly once, in place
/// of anything the image has under that name.
pub proof fn staged_entry_is_listed_once(
    list: Seq<Listed>,
    staged: Map<Seq<char>, Staged>,
    dir: Seq<char>,
    found: Seq<(String, Option<Inode>)>,
    name: Seq<char>,
)
    requires
        is_listing(list, staged, dir, found),
        crate::overlay::is_leaf(name),
        crate::overlay::found(staged, crate::overlay::child_path(dir, name)) is Hit,
    ensures
        named(list, name) == seq![
            Listed::Overlay(name, staged[crate::overlay::child_path(dir, name)]),
        ],
{
    assert(named(list, name) == merged_under(staged, dir, found, name));
}

/// Under a name that was found once there is at most one inode.
proof fn in_image_once(found: Seq<(String, Option<Inode>)>, name: Seq<char>)
    requires
        forall|i: int, j: int|
            0 <= i < j < found.len() ==> (#[trigger] found[i]).0@ != (#[trigger] found[j]).0@,
    ensures
        in_image(found, name).len() <= 1,
        (forall|i: int| 0 <= i < found.len() ==> (#[trigger] found[i]).0@ != name) ==> in_image(
            found,
            name,
        ).len() == 0,
    decreases found.len(),
{
    if found.len() > 0 {
        let pre = found.drop_last();
        assert forall|i: int, j: int| 0 <= i < j < pre.len() implies (#[trigger] pre[i]).0@ != (
        #[trigger] pre[j]).0@ by {
            assert(pre[i] == found[i] && pre[j] == found[j]);
        }
        in_image_once(pre, name);
        assert(found[found.len() - 1] == found.last());
        if found.last().0@ == name {
            assert forall|i: int| 0 <= i < pre.len() implies (#[trigger] pre[i]).0@ != name by {
                assert(pre[i] == found[i]);
                assert(found[i].0@ != found[found.len() - 1].0@);
            }
        }
        if forall|i: int| 0 <= i < found.len() ==> (#[trigger] found[i]).0@ != name {
            assert forall|i: int| 0 <= i < pre.len() implies (#[trigger] pre[i]).0@ != name by {
                assert(pre[i] == found[i]);
            }
        }
    }
}

/// No name stands in the listing twice.
pub open spec fn names_differ(list: Seq<Listed>) -> bool {
    forall|i: int, j: int|
        0 <= i < j < list.len() ==> (#[trigger] list[i]).name() != (#[trigger] list[j]).name()
}

/// A listing holds every name once where the image's directory does.
pub proof fn listing_holds_names_once(
    list: Seq<Listed>,
    staged: Map<Seq<char>, Staged>,
    dir: Seq<char>,
    found: Seq<(String, Option<Inode>)>,
)
    requires
        is_listing(list, staged, dir, found),
        forall|i: int, j: int|
            0 <= i < j < found.len() ==> (#[trigger] found[i]).0@ != (#[trigger] found[j]).0@,
    ensures
        names_differ(list),
{
    assert forall|i: int, j: int| 0 <= i < j < list.len() implies (#[trigger] list[i]).name() != (
    #[trigger] list[j]).name() by {
        let name = list[i].name();
        if list[j].name() == name {
            let keep = |e: Listed| e.name() == name;
            let (front, back) = (list.take(j), list.skip(j));
            assert(list == front + back);
            Seq::filter_distributes_over_add(front, back, keep);
            assert(front[i] == list[i] && back[0] == list[j]);
            named_holds(front, i);
            named_holds(back, 0);
            assert(named(list, name).len() >= 2);
            assert(named(list, name) == merged_under(staged, dir, found, name));
            in_image_once(found, name);
        }
    }
}

/// Resuming after a name starts at the first entry that comes after it,
/// whether or not the name is itself in the listing.
pub proof fn resuming_starts_behind_marker(list: Seq<Listed>, name: Seq<char>)
    requires
        sorted(list),
    ensures
        ({
            let at = list.len() - after(list, name).len();
            &&& 0 <= at <= list.len()
            &&& resumed(list, Some(name)) == list.skip(at)
            &&& forall|i: int|
                0 <= i < at ==> crate::text::name_le((#[trigger] list[i]).name(), name)
            &&& forall|i: int|
                at <= i < list.len() ==> !crate::text::name_le((#[trigger] list[i]).name(), name)
        }),
{
    let at = first_after(list, name);
    after_is_tail(list, at, name);
}

/// Finds the first entry of a listing that comes after a name.
proof fn first_after(list: Seq<Listed>, name: Seq<char>) -> (at: int)
    requires
        sorted(list),
    ensures
        0 <= at <= list.len(),
        forall|i: int| 0 <= i < at ==> crate::text::name_le((#[trigger] list[i]).name(), name),
        forall|i: int|
            at <= i < list.len() ==> !crate::text::name_le((#[trigger] list[i]).name(), name),
    decreases list.len(),
{
    if list.len() == 0 {
        0
    } else if crate::text::name_le(list.last().name(), name) {
        assert forall|i: int| 0 <= i < list.len() implies crate::text::name_le(
            (#[trigger] list[i]).name(),
            name,
        ) by {
            assert(crate::text::name_le(list[i].name(), list[list.len() - 1].name()));
            crate::text::name_le_is_total_order(list[i].name(), list.last().name(), name);
        }
        list.len() as int
    } else {
        let pre = list.drop_last();
        assert forall|i: int, j: int| 0 <= i <= j < pre.len() implies #[trigger] crate::text::name_le(
            pre[i].name(),
            pre[j].name(),
        ) by {
            assert(crate::text::name_le(list[i].name(), list[j].name()));
        }
        let at = first_after(pre, name);
        assert forall|i: int| 0 <= i < at implies crate::text::name_le(
            (#[trigger] list[i]).name(),
            name,
        ) by {
            assert(pre[i] == list[i]);
        }
        assert forall|i: int| at <= i < list.len() implies !crate::text::name_le(
            (#[trigger] list[i]).name(),
            name,
        ) by {
            if i < pre.len() {
                assert(pre[i] == list[i]);
            }
        }
        at
    }
}

/// The marker that a host hands back for an entry: its name in UTF-16, read
/// the way a marker is read.
pub open spec fn marker_of(e: Listed) -> Option<Seq<char>> {
    Some(crate::utf16::lossy_text(crate::utf16::utf16(e.name())))
}

/// Taking a listing up again after the name of one of its entries goes on
/// with the next one, where no name is listed twice.
pub proof fn listing_resumes_after_marker(list: Seq<Listed>, at: int)
    requires
        sorted(list),
        names_differ(list),
        0 <= at < list.len(),
    ensures
        resumed(list, marker_of(list[at])) == list.skip(at + 1),
{
    let name = list[at].name();
    crate::utf16::lossy_text_of_utf16(name);
    assert forall|i: int| 0 <= i < at + 1 implies crate::text::name_le(
        (#[trigger] list[i]).name(),
        name,
    ) by {
        assert(crate::text::name_le(list[i].name(), list[at].name()));
    }
    assert forall|i: int| at + 1 <= i < list.len() implies !crate::text::name_le(
        (#[trigger] list[i]).name(),
        name,
    ) by {
        assert(crate::text::name_le(list[at].name(), list[i].name()));
        crate::text::name_le_is_total_order(name, list[i].name(), name);
    }
    after_is_tail(list, at + 1, name);
}

/// What a host gets when it drains a listing from a marker on, one buffer
/// after the other. A buffer takes up to so many of the entries that it can
/// hold at all; the next call starts after the last one that it took.
pub open spec fn drained(
    list: Seq<Listed>,
    holds: spec_fn(Listed) -> bool,
    marker: Option<Seq<char>>,
    rooms: Seq<nat>,
) -> Seq<Listed>
    decreases rooms.len(),
{
    let rest = resumed(list, marker).filter(holds);
    if rooms.len() == 0 || rooms[0] == 0 || rest.len() == 0 {
        Seq::empty()
    } else {
        let part = if rooms[0] <= rest.len() {
            rest.take(rooms[0] as int)
        } else {
            rest
        };
        part + drained(list, holds, marker_of(part.last()), rooms.drop_first())
    }
}

/// The room of all buffers together.
pub open spec fn total(rooms: Seq<nat>) -> nat
    decreases rooms.len(),
{
    if rooms.len() == 0 {
        0
    } else {
        rooms[0] + total(rooms.drop_first())
    }
}

/// Two filters in either order keep the same entries.
proof fn filters_commute(
    list: Seq<Listed>,
    one: spec_fn(Listed) -> bool,
    other: spec_fn(Listed) -> bool,
)
    ensures
        list.filter(one).filter(other) == list.filter(other).filter(one),
    decreases list.len(),
{
    reveal(Seq::filter);
    if list.len() > 0 {
        let (pre, last) = (list.drop_last(), list.last());
        filters_commute(pre, one, other);
        let (p, q) = (pre.filter(one), pre.filter(other));
        assert(p.push(last).drop_last() == p);
        assert(q.push(last).drop_last() == q);
    }
}

/// What is kept of a listing in name order is in name order, and holds no
/// name twice where the listing does not.
proof fn kept_in_order(list: Seq<Listed>, holds: spec_fn(Listed) -> bool)
    requires
        sorted(list),
        names_differ(list),
    ensures
        sorted(list.filter(holds)),
        names_differ(list.filter(holds)),
        forall|i: int|
            0 <= i < list.filter(holds).len() ==> list.contains(#[trigger] list.filter(holds)[i]),
    decreases list.len(),
{
    reveal(Seq::filter);
    if list.len() > 0 {
        let (pre, last) = (list.drop_last(), list.last());
        assert forall|i: int, j: int| 0 <= i <= j < pre.len() implies #[trigger] crate::text::name_le(
            pre[i].name(),
            pre[j].name(),
        ) by {
            assert(crate::text::name_le(list[i].name(), list[j].name()));
        }
        assert forall|i: int, j: int| 0 <= i < j < pre.len() implies (#[trigger] pre[i]).name() != (
        #[trigger] pre[j]).name() by {
            assert(pre[i] == list[i] && pre[j] == list[j]);
        }
        kept_in_order(pre, holds);
        let (kept, new) = (pre.filter(holds), list.filter(holds));
        assert(list[list.len() - 1] == last);
        assert forall|i: int| 0 <= i < kept.len() implies list.contains(#[trigger] kept[i])
            && crate::text::name_le(kept[i].name(), last.name()) && kept[i].name()
            != last.name() by {
            let k = choose|k: int| 0 <= k < pre.len() && pre[k] == kept[i];
            assert(list[k] == kept[i]);
            assert(crate::text::name_le(list[k].name(), list[list.len() - 1].name()));
        }
        assert forall|i: int, j: int| 0 <= i <= j < new.len() implies #[trigger] crate::text::name_le(
            new[i].name(),
            new[j].name(),
        ) by {
            if j < kept.len() {
                assert(new[i] == kept[i] && new[j] == kept[j]);
                assert(crate::text::name_le(kept[i].name(), kept[j].name()));
            } else if i < kept.len() {
                assert(new[i] == kept[i]);
            } else {
                crate::text::name_le_is_total_order(last.name(), last.name(), last.name());
            }
        }
        assert forall|i: int, j: int| 0 <= i < j < new.len() implies (#[trigger] new[i]).name() != (
        #[trigger] new[j]).name() by {
            assert(new[i] == kept[i]);
            if j < kept.len() {
                assert(new[j] == kept[j]);
            }
        }
        assert forall|i: int| 0 <= i < new.len() implies list.contains(#[trigger] new[i]) by {
            if i < kept.len() {
                assert(new[i] == kept[i]);
            }
        }
    }
}

/// Draining on from the entry `at` of what the buffers can hold gives the
/// entries from there on, as many as there is room for.
proof fn drains_on(
    list: Seq<Listed>,
    holds: spec_fn(Listed) -> bool,
    marker: Option<Seq<char>>,
    rooms: Seq<nat>,
    at: int,
)
    requires
        sorted(list),
        names_differ(list),
        0 <= at <= list.filter(holds).len(),
        resumed(list, marker).filter(holds) == list.filter(holds).skip(at),
        forall|i: int| 0 <= i < rooms.len() ==> #[trigger] rooms[i] > 0,
    ensures
        drained(list, holds, marker, rooms) == if at + total(rooms) <= list.filter(holds).len() {
            list.filter(holds).subrange(at, at + total(rooms))
        } else {
            list.filter(holds).skip(at)
        },
    decreases rooms.len(),
{
    let kept = list.filter(holds);
    let rest = kept.skip(at);
    if rooms.len() > 0 && rest.len() > 0 {
        assert(rooms[0] > 0);
        let n: int = if rooms[0] <= rest.len() {
            rooms[0] as int
        } else {
            rest.len() as int
        };
        let part = rest.take(n);
        if rooms[0] > rest.len() {
            assert(part == rest);
        }
        kept_in_order(list, holds);
        assert(part.last() == kept[at + n - 1]);
        listing_resumes_after_marker(kept, at + n - 1);
        crate::utf16::lossy_text_of_utf16(part.last().name());
        filters_commute(
            list,
            holds,
            |e: Listed| !crate::text::name_le(e.name(), part.last().name()),
        );
        let more = rooms.drop_first();
        assert forall|i: int| 0 <= i < more.len() implies #[trigger] more[i] > 0 by {
            assert(more[i] == rooms[i + 1]);
        }
        drains_on(list, holds, marker_of(part.last()), more, at + n);
        assert(rooms[0] + total(more) == total(rooms));
        let tail = drained(list, holds, marker_of(part.last()), more);
        if at + total(rooms) <= kept.len() {
            assert(part + tail == kept.subrange(at, at + total(rooms)));
        } else if at + n + total(more) <= kept.len() {
            assert(n < rooms[0]);
            assert(at + n == kept.len());
            assert(part + tail == kept.skip(at));
        } else {
            assert(part + tail == kept.skip(at));
        }
    } else if rooms.len() == 0 {
        assert(kept.subrange(at, at) == Seq::<Listed>::empty());
    } else {
        assert(rooms[0] + total(rooms.drop_first()) == total(rooms));
    }
}

/// A directory that is drained over several calls gives every entry that a
/// buffer can hold, in name order and once each: the buffers together hold
/// the listing, as far as there is room in them. Every buffer has room for
/// an entry, the first call has no marker, each later one the last name
/// before it, and no name is listed twice.
pub proof fn drained_buffers_hold_the_listing(
    list: Seq<Listed>,
    holds: spec_fn(Listed) -> bool,
    rooms: Seq<nat>,
)
    requires
        sorted(list),
        names_differ(list),
        forall|i: int| 0 <= i < rooms.len() ==> #[trigger] rooms[i] > 0,
    ensures
        total(rooms) >= list.filter(holds).len() ==> drained(list, holds, None, rooms)
            == list.filter(holds),
        total(rooms) <= list.filter(holds).len() ==> drained(list, holds, None, rooms)
            == list.filter(holds).take(total(rooms) as int),
        sorted(list.filter(holds)),
        names_differ(list.filter(holds)),
        forall|e: Listed| #[trigger]
            list.filter(holds).contains(e) <==> list.contains(e) && holds(e),
{
    broadcast use vstd::seq_lib::group_filter_ensures;

    let kept = list.filter(holds);
    assert(kept.skip(0) == kept);
    drains_on(list, holds, None, rooms, 0);
    kept_in_order(list, holds);
    if total(rooms) <= kept.len() {
        assert(kept.subrange(0, total(rooms) as int) == kept.take(total(rooms) as int));
        if total(rooms) == kept.len() {
            assert(kept.take(kept.len() as int) == kept);
        }
    }
    assert forall|e: Listed| #[trigger] kept.contains(e) <==> list.contains(e) && holds(e) by {
        if kept.contains(e) {
            let i = choose|i: int| 0 <= i < kept.len() && kept[i] == e;
            assert(holds(kept[i]));
            assert(list.contains(kept[i]));
        }
        if list.contains(e) && holds(e) {
            let i = choose|i: int| 0 <= i < list.len() && list[i] == e;
            assert(kept.contains(list[i]));
        }
    }
}

/// Children are picked one by one and keep their order: those of two runs
/// of children are those of the first, then those of the second.
pub proof fn children_are_picked_in_order(
    staged: Map<Seq<char>, Staged>,
    dir: Seq<char>,
    a: Seq<DirEntry>,
    b: Seq<DirEntry>,
)
    ensures
        candidates(staged, dir, a + b) == candidates(staged, dir, a) + candidates(staged, dir, b),
        candidates(staged, dir, Seq::empty()).len() == 0,
    decreases b.len(),
{
    if b.len() == 0 {
        assert(a + b == a);
    } else {
        children_are_picked_in_order(staged, dir, a, b.drop_last());
        assert((a + b).drop_last() == a + b.drop_last());
        assert(candidates(staged, dir, a + b) == candidates(staged, dir, a) + candidates(
            staged,
            dir,
            b,
        ));
    }
}

/// A child is picked, with its name and its inode number, unless its name
/// is `.` or `..`, is not UTF-8, or a tombstone stands at its path.
pub proof fn child_is_picked_unless_hidden(
    staged: Map<Seq<char>, Staged>,
    dir: Seq<char>,
    child: DirEntry,
    path: Seq<char>,
)
    requires
        dir == seq!['/'] ==> path == seq!['/'] + decode_utf8(child.name@),
        dir != seq!['/'] ==> path == dir + seq!['/'] + decode_utf8(child.name@),
    ensures
        ({
            let hidden = {
                ||| child.name@ == seq![46u8]
                ||| child.name@ == seq![46u8, 46u8]
                ||| !valid_utf8(child.name@)
                ||| staged.contains_key(path) && staged[path] == Staged::Deleted
            };
            let picked = candidates(staged, dir, seq![child]);
            &&& hidden ==> picked.len() == 0
            &&& !hidden ==> picked.len() == 1 && picked[0] == (
                decode_utf8(child.name@),
                child.ino,
            )
        }),
{
    assert(dir.push('/') + decode_utf8(child.name@) == dir + seq!['/'] + decode_utf8(child.name@));
    assert(seq![child].drop_last() == Seq::<DirEntry>::empty());
    assert(candidates(staged, dir, Seq::empty()) == Seq::<(Seq<char>, u64)>::empty());
}

/// Wherever it stands among the children of the image, a child whose name
/// is neither `.` nor `..`, is UTF-8 and has no tombstone at its path is
/// among those that are read, with its inode number.
pub proof fn every_visible_child_is_picked(
    staged: Map<Seq<char>, Staged>,
    dir: Seq<char>,
    children: Seq<DirEntry>,
    at: int,
    path: Seq<char>,
)
    requires
        0 <= at < children.len(),
        dir == seq!['/'] ==> path == seq!['/'] + decode_utf8(children[at].name@),
        dir != seq!['/'] ==> path == dir + seq!['/'] + decode_utf8(children[at].name@),
        children[at].name@ != seq![46u8],
        children[at].name@ != seq![46u8, 46u8],
        valid_utf8(children[at].name@),
        !(staged.contains_key(path) && staged[path] == Staged::Deleted),
    ensures
        exists|k: int|
            0 <= k < candidates(staged, dir, children).len() && #[trigger] candidates(
                staged,
                dir,
                children,
            )[k] == (decode_utf8(children[at].name@), children[at].ino),
{
    let child = children[at];
    let (front, back) = (children.take(at), children.skip(at + 1));
    child_is_picked_unless_hidden(staged, dir, child, path);
    assert(children == front + seq![child] + back);
    children_are_picked_in_order(staged, dir, front + seq![child], back);
    children_are_picked_in_order(staged, dir, front, seq![child]);
    let k = candidates(staged, dir, front).len() as int;
    assert(candidates(staged, dir, children)[k] == (decode_utf8(child.name@), child.ino));
}

/// What is picked is a child of the image, under its own name and number,
/// and none of the hidden ones.
pub proof fn only_visible_children_are_picked(
    staged: Map<Seq<char>, Staged>,
    dir: Seq<char>,
    children: Seq<DirEntry>,
    k: int,
    path: Seq<char>,
)
    requires
        0 <= k < candidates(staged, dir, children).len(),
        dir == seq!['/'] ==> path == seq!['/'] + candidates(staged, dir, children)[k].0,
        dir != seq!['/'] ==> path == dir + seq!['/'] + candidates(staged, dir, children)[k].0,
    ensures
        exists|i: int|
            0 <= i < children.len() && decode_utf8((#[trigger] children[i]).name@) == candidates(
                staged,
                dir,
                children,
            )[k].0 && children[i].ino == candidates(staged, dir, children)[k].1
                && children[i].name@ != seq![46u8] && children[i].name@ != seq![46u8, 46u8]
                && valid_utf8(children[i].name@),
        !(staged.contains_key(path) && staged[path] == Staged::Deleted),
{
    candidates_are_visible(staged, dir, children, k);
    let (name, ino) = candidates(staged, dir, children)[k];
    let i = choose|i: int|
        0 <= i < children.len() && shows(staged, dir, #[trigger] children[i]) && decode_utf8(
            children[i].name@,
        ) == name && children[i].ino == ino;
    assert(dir.push('/') + name == dir + seq!['/'] + name);
    assert(decode_utf8(children[i].name@) == name);
}

/// What the image holds under a name, by place.
proof fn in_image_grows(found: Seq<(String, Option<Inode>)>, at: int)
    requires
        0 <= at < found.len(),
        found[at].1 is Some,
    ensures
        in_image(found, found[at].0@).contains(Listed::Underlay(found[at].0@, found[at].1->0)),
    decreases found.len(),
{
    let name = found[at].0@;
    let e = Listed::Underlay(name, found[at].1->0);
    if at == found.len() - 1 {
        let all = in_image(found, name);
        assert(all[all.len() - 1] == e);
    } else {
        let pre = found.drop_last();
        in_image_grows(pre, at);
        let k = choose|k: int| 0 <= k < in_image(pre, name).len() && in_image(pre, name)[k] == e;
        assert(in_image(found, name)[k] == e);
    }
}

proof fn in_image_is_found(found: Seq<(String, Option<Inode>)>, name: Seq<char>, k: int)
    requires
        0 <= k < in_image(found, name).len(),
    ensures
        in_image(found, name)[k] is Underlay,
        in_image(found, name)[k]->Underlay_0 == name,
        exists|i: int|
            0 <= i < found.len() && (#[trigger] found[i]).0@ == name && found[i].1 == Some(
                in_image(found, name)[k]->Underlay_1,
            ),
    decreases found.len(),
{
    let pre = found.drop_last();
    if k < in_image(pre, name).len() {
        in_image_is_found(pre, name, k);
        let inode = in_image(pre, name)[k]->Underlay_1;
        let i = choose|i: int|
            0 <= i < pre.len() && (#[trigger] pre[i]).0@ == name && pre[i].1 == Some(inode);
        assert(found[i].0@ == name);
    } else {
        assert(found[found.len() - 1].0@ == name);
    }
}

/// An entry stands in a listing exactly where it stands under its name.
proof fn listed_iff_named(list: Seq<Listed>, e: Listed)
    ensures
        list.contains(e) <==> named(list, e.name()).contains(e),
    decreases list.len(),
{
    let name = e.name();
    let here = named(list, name);
    if list.len() == 0 {
        filter_none(list, |x: Listed| x.name() == name);
    } else {
        let pre = list.drop_last();
        let before = named(pre, name);
        listed_iff_named(pre, e);
        named_last(list, name);
        if list.last() == e {
            assert(list[list.len() - 1] == e);
            assert(here[here.len() - 1] == e);
        } else if list.contains(e) {
            let k = choose|k: int| 0 <= k < list.len() && list[k] == e;
            assert(pre[k] == e);
            let j = choose|j: int| 0 <= j < before.len() && before[j] == e;
            assert(here[j] == e);
        } else if here.contains(e) {
            let j = choose|j: int| 0 <= j < here.len() && here[j] == e;
            assert(before[j] == e);
            let k = choose|k: int| 0 <= k < pre.len() && pre[k] == e;
            assert(list[k] == e);
        }
    }
}

/// A child of the image whose inode was read stands in the listing, where
/// nothing is staged at its path.
pub proof fn listing_holds_every_child_of_the_image(
    list: Seq<Listed>,
    staged: Map<Seq<char>, Staged>,
    dir: Seq<char>,
    found: Seq<(String, Option<Inode>)>,
    at: int,
    path: Seq<char>,
)
    requires
        is_listing(list, staged, dir, found),
        0 <= at < found.len(),
        found[at].1 is Some,
        dir == seq!['/'] ==> path == seq!['/'] + found[at].0@,
        dir != seq!['/'] ==> path == dir + seq!['/'] + found[at].0@,
        !staged.contains_key(path),
    ensures
        exists|k: int|
            0 <= k < list.len() && #[trigger] list[k] == Listed::Underlay(
                found[at].0@,
                found[at].1->0,
            ),
{
    let name = found[at].0@;
    let e = Listed::Underlay(name, found[at].1->0);
    assert(dir.push('/') + name == dir + seq!['/'] + name);
    in_image_grows(found, at);
    assert(named(list, name) == merged_under(staged, dir, found, name));
    listed_iff_named(list, e);
}

/// From the children of the image to the listing: a child that is not
/// hidden, whose inode is read and at whose path nothing is staged, is
/// listed with that inode, whatever else the directory holds.
pub proof fn visible_child_is_listed(
    list: Seq<Listed>,
    staged: Map<Seq<char>, Staged>,
    dir: Seq<char>,
    children: Seq<DirEntry>,
    found: Seq<(String, Option<Inode>)>,
    at: int,
    path: Seq<char>,
)
    requires
        is_listing(list, staged, dir, found),
        found.len() == candidates(staged, dir, children).len(),
        forall|k: int|
            0 <= k < found.len() ==> (#[trigger] found[k]).0@ == candidates(
                staged,
                dir,
                children,
            )[k].0,
        forall|k: int|
            0 <= k < found.len() ==> ((#[trigger] found[k]).1 matches Some(inode) ==> inode.ino
                == candidates(staged, dir, children)[k].1),
        0 <= at < children.len(),
        forall|k: int|
            0 <= k < found.len() && (#[trigger] found[k]).0@ == decode_utf8(children[at].name@)
                ==> found[k].1 is Some,
        dir == seq!['/'] ==> path == seq!['/'] + decode_utf8(children[at].name@),
        dir != seq!['/'] ==> path == dir + seq!['/'] + decode_utf8(children[at].name@),
        children[at].name@ != seq![46u8],
        children[at].name@ != seq![46u8, 46u8],
        valid_utf8(children[at].name@),
        !staged.contains_key(path),
    ensures
        exists|j: int|
            0 <= j < list.len() && (#[trigger] list[j]) is Underlay && list[j]->Underlay_0
                == decode_utf8(children[at].name@) && list[j]->Underlay_1.ino == children[at].ino,
{
    every_visible_child_is_picked(staged, dir, children, at, path);
    let picked = candidates(staged, dir, children);
    let pair = (decode_utf8(children[at].name@), children[at].ino);
    let k = choose|k: int| 0 <= k < picked.len() && #[trigger] picked[k] == pair;
    assert(found[k].0@ == pair.0);
    listing_holds_every_child_of_the_image(list, staged, dir, found, k, path);
    let j = choose|j: int|
        0 <= j < list.len() && #[trigger] list[j] == Listed::Underlay(found[k].0@, found[k].1->0);
    assert(list[j] is Underlay);
}

/// A file or directory that is staged directly below the directory stands
/// in the listing, whatever the image has.
pub proof fn listing_holds_every_staged_child(
    list: Seq<Listed>,
    staged: Map<Seq<char>, Staged>,
    dir: Seq<char>,
    found: Seq<(String, Option<Inode>)>,
    name: Seq<char>,
    path: Seq<char>,
)
    requires
        is_listing(list, staged, dir, found),
        name.len() > 0,
        forall|i: int| 0 <= i < name.len() ==> #[trigger] name[i] != '/',
        dir == seq!['/'] ==> path == seq!['/'] + name,
        dir != seq!['/'] ==> path == dir + seq!['/'] + name,
        staged.contains_key(path),
        staged[path] != Staged::Deleted,
    ensures
        exists|k: int|
            0 <= k < list.len() && #[trigger] list[k] == Listed::Overlay(name, staged[path]),
{
    let e = Listed::Overlay(name, staged[path]);
    assert(dir.push('/') + name == dir + seq!['/'] + name);
    assert(!name.contains('/'));
    staged_entry_is_listed_once(list, staged, dir, found, name);
    assert(seq![e][0] == e);
    listed_iff_named(list, e);
}

/// Nothing else is listed: an entry of the listing is either staged live,
/// directly below the directory, or was found in the image, with no
/// tombstone at its path and nothing live staged over it.
pub proof fn listing_holds_nothing_else(
    list: Seq<Listed>,
    staged: Map<Seq<char>, Staged>,
    dir: Seq<char>,
    found: Seq<(String, Option<Inode>)>,
    at: int,
    path: Seq<char>,
)
    requires
        is_listing(list, staged, dir, found),
        0 <= at < list.len(),
        dir == seq!['/'] ==> path == seq!['/'] + list[at].name(),
        dir != seq!['/'] ==> path == dir + seq!['/'] + list[at].name(),
    ensures
        ({
            let name = list[at].name();
            let leaf = name.len() > 0 && forall|i: int|
                0 <= i < name.len() ==> #[trigger] name[i] != '/';
            &&& list[at] is Overlay ==> leaf && staged.contains_key(path) && staged[path]
                != Staged::Deleted && list[at]->Overlay_1 == staged[path]
            &&& list[at] is Underlay ==> exists|i: int|
                0 <= i < found.len() && (#[trigger] found[i]).0@ == name && found[i].1 == Some(
                    list[at]->Underlay_1,
                )
            &&& list[at] is Underlay ==> !(staged.contains_key(path) && staged[path]
                == Staged::Deleted)
            &&& list[at] is Underlay && leaf ==> !staged.contains_key(path)
        }),
{
    let e = list[at];
    let name = e.name();
    assert(dir.push('/') + name == dir + seq!['/'] + name);
    assert(list.contains(e));
    listed_iff_named(list, e);
    let here = named(list, name);
    assert(here == merged_under(staged, dir, found, name));
    let k = choose|k: int| 0 <= k < here.len() && here[k] == e;
    let over = crate::overlay::children(staged, dir);
    if over.contains_key(name) && !(over[name] is Deleted) {
        assert(!name.contains('/'));
    } else {
        in_image_is_found(found, name, k);
        if name.len() > 0 && forall|i: int| 0 <= i < name.len() ==> #[trigger] name[i] != '/' {
            assert(!name.contains('/'));
        }
    }
}

/// Under a name that the image repeats, a listing repeats it as often, in
/// the same order, where nothing is staged at its path: reading one more
/// inode under the name adds one more entry behind the others.
pub proof fn listing_repeats_what_the_image_repeats(
    list: Seq<Listed>,
    longer: Seq<Listed>,
    staged: Map<Seq<char>, Staged>,
    dir: Seq<char>,
    found: Seq<(String, Option<Inode>)>,
    next: (String, Option<Inode>),
    name: Seq<char>,
    path: Seq<char>,
)
    requires
        is_listing(list, staged, dir, found),
        is_listing(longer, staged, dir, found.push(next)),
        dir == seq!['/'] ==> path == seq!['/'] + name,
        dir != seq!['/'] ==> path == dir + seq!['/'] + name,
        !staged.contains_key(path),
    ensures
        next.0@ == name && next.1 is Some ==> named(longer, name) == named(list, name).push(
            Listed::Underlay(name, next.1->0),
        ),
        next.0@ != name || next.1 is None ==> named(longer, name) == named(list, name),
{
    assert(dir.push('/') + name == dir + seq!['/'] + name);
    assert(named(list, name) == merged_under(staged, dir, found, name));
    assert(named(longer, name) == merged_under(staged, dir, found.push(next), name));
    assert(found.push(next).drop_last() == found);
}

/// The entries under a name are all those of the list with that name, in
/// their order.
pub proof fn named_takes_entries_of_that_name(list: Seq<Listed>, e: Listed, name: Seq<char>)
    ensures
        named(Seq::empty(), name).len() == 0,
        e.name() == name ==> named(list.push(e), name) == named(list, name).push(e),
        e.name() != name ==> named(list.push(e), name) == named(list, name),
{
    named_last(list.push(e), name);
    assert(list.push(e).drop_last() == list);
    filter_none(Seq::empty(), |x: Listed| x.name() == name);
}

/// A listing is in the order of the names: no entry comes ahead of one
/// whose name is smaller at the first byte where the two differ, or is the
/// front of its own.
pub proof fn listing_is_in_name_order(
    list: Seq<Listed>,
    staged: Map<Seq<char>, Staged>,
    dir: Seq<char>,
    found: Seq<(String, Option<Inode>)>,
    i: int,
    j: int,
)
    requires
        is_listing(list, staged, dir, found),
        0 <= i <= j < list.len(),
    ensures
        ({
            let x = vstd::utf8::encode_utf8(list[i].name());
            let y = vstd::utf8::encode_utf8(list[j].name());
            ||| x.len() <= y.len() && y.take(x.len() as int) == x
            ||| exists|k: int|
                0 <= k < x.len() && k < y.len() && x.take(k) == y.take(k) && #[trigger] x[k] < y[k]
        }),
{
    assert(crate::text::name_le(list[i].name(), list[j].name()));
    crate::text::names_are_ordered_by_first_difference(list[i].name(), list[j].name());
}

/// Each entry of a listing gives one row: its name, and what is told of
/// the inode or of the staged entry behind it. Without a marker the whole
/// listing is given.
pub proof fn rows_tell_of_the_entries(list: Seq<Listed>, read_only: bool, i: int)
    requires
        0 <= i < list.len(),
    ensures
        ({
            let row = rows_of(list, read_only)[i];
            &&& rows_of(list, read_only).len() == list.len()
            &&& list[i] is Underlay ==> row == (
                list[i]->Underlay_0,
                crate::info::inode_info(list[i]->Underlay_1, read_only),
            )
            &&& list[i] is Overlay ==> row == (
                list[i]->Overlay_0,
                crate::info::staged_info(list[i]->Overlay_1, read_only),
            )
            &&& list[i] is Underlay ==> list[i].name() == list[i]->Underlay_0
            &&& list[i] is Overlay ==> list[i].name() == list[i]->Overlay_0
            &&& list[i] is Underlay ==> list[i].fits() == list[i]->Underlay_1.fits()
            &&& list[i] is Overlay ==> list[i].fits() == list[i]->Overlay_1.fits()
            &&& resumed(list, None) == list
        }),
{
}

/// The models of rows, picked children and entries hold what these hold,
/// one for one.
pub proof fn models_hold_what_is_modelled(
    table: Seq<DirRow>,
    picked: Seq<(String, u64)>,
    merged: Seq<MergedEntry>,
    i: int,
)
    ensures
        rows(table).len() == table.len(),
        0 <= i < table.len() ==> rows(table)[i] == (table[i].name@, table[i].info),
        pairs(picked).len() == picked.len(),
        0 <= i < picked.len() ==> pairs(picked)[i] == (picked[i].0@, picked[i].1),
        entries(merged).len() == merged.len(),
        0 <= i < merged.len() ==> match merged[i] {
            MergedEntry::Underlay(name, inode) => entries(merged)[i] == Listed::Underlay(
                name@,
                inode,
            ),
            MergedEntry::Overlay(name, entry) => entries(merged)[i] == Listed::Overlay(
                name@,
                entry@,
            ),
        },
        all_fit(entries(merged)) && 0 <= i < merged.len() ==> entries(merged)[i].fits(),
{
}

} // verus!
