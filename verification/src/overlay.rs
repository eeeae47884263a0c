//! The read-write overlay: what was written, created or deleted since the
//! volume was mounted, by path. The image below it never changes.

use vstd::prelude::*;

use crate::text::chars_of;

verus! {

/// What is staged at a path.
#[derive(Debug)]
pub enum OverlayEntry {
    /// A file made since the mount.
    Created { content: Vec<u8>, mode: u16, mtime: u64 },
    /// A file of the image, with new content.
    Modified { content: Vec<u8>, mode: u16, mtime: u64 },
    /// A directory made since the mount.
    CreatedDir { mode: u16, mtime: u64 },
    /// A tombstone: the path is gone, whatever the image holds.
    Deleted,
}

/// The model of an [`OverlayEntry`].
#[verifier::ext_equal]
pub enum Staged {
    Created { content: Seq<u8>, mode: u16, mtime: u64 },
    Modified { content: Seq<u8>, mode: u16, mtime: u64 },
    CreatedDir { mode: u16, mtime: u64 },
    Deleted,
}

impl View for OverlayEntry {
    type V = Staged;

    open spec fn view(&self) -> Staged {
        match *self {
            OverlayEntry::Created { content, mode, mtime } => Staged::Created {
                content: content@,
                mode,
                mtime,
            },
            OverlayEntry::Modified { content, mode, mtime } => Staged::Modified {
                content: content@,
                mode,
                mtime,
            },
            OverlayEntry::CreatedDir { mode, mtime } => Staged::CreatedDir { mode, mtime },
            OverlayEntry::Deleted => Staged::Deleted,
        }
    }
}

impl Staged {
    /// The content of a staged file.
    pub open spec fn file(self) -> Option<Seq<u8>> {
        match self {
            Staged::Created { content, .. } | Staged::Modified { content, .. } => Some(content),
            _ => None,
        }
    }

    /// When the entry was staged, in seconds since 1970; zero for a
    /// tombstone.
    pub open spec fn stamp(self) -> u64 {
        match self {
            Staged::Created { mtime, .. } => mtime,
            Staged::Modified { mtime, .. } => mtime,
            Staged::CreatedDir { mtime, .. } => mtime,
            Staged::Deleted => 0,
        }
    }

    /// A staged file is no larger than memory can hold.
    pub open spec fn fits(self) -> bool {
        match self.file() {
            Some(content) => content.len() <= isize::MAX,
            None => true,
        }
    }
}

impl Clone for OverlayEntry {
    fn clone(&self) -> (r: Self)
        ensures
            r@ == self@,
    {
        match self {
            OverlayEntry::Created { content, mode, mtime } => {
                let content: Vec<u8> = content.clone();
                OverlayEntry::Created { content, mode: *mode, mtime: *mtime }
            },
            OverlayEntry::Modified { content, mode, mtime } => {
                let content: Vec<u8> = content.clone();
                OverlayEntry::Modified { content, mode: *mode, mtime: *mtime }
            },
            OverlayEntry::CreatedDir { mode, mtime } => OverlayEntry::CreatedDir {
                mode: *mode,
                mtime: *mtime,
            },
            OverlayEntry::Deleted => OverlayEntry::Deleted,
        }
    }
}

impl OverlayEntry {
    /// Whether this is a staged directory.
    pub fn is_dir(&self) -> (r: bool)
        ensures
            r == (self@ is CreatedDir),
    {
        matches!(self, OverlayEntry::CreatedDir { .. })
    }

    /// Whether this is a tombstone.
    pub fn is_deleted(&self) -> (r: bool)
        ensures
            r == (self@ is Deleted),
    {
        matches!(self, OverlayEntry::Deleted)
    }

    /// The content of a staged file.
    pub fn content(&self) -> (r: Option<&Vec<u8>>)
        ensures
            match self@.file() {
                Some(content) => r is Some && r->0@ == content,
                None => r is None,
            },
    {
        match self {
            OverlayEntry::Created { content, .. } | OverlayEntry::Modified { content, .. } => Some(
                content,
            ),
            _ => None,
        }
    }

    /// When the entry was staged, in seconds since 1970; zero for a
    /// tombstone.
    pub fn mtime(&self) -> (r: u64)
        ensures
            r == self@.stamp(),
    {
        match self {
            OverlayEntry::Created { mtime, .. } => *mtime,
            OverlayEntry::Modified { mtime, .. } => *mtime,
            OverlayEntry::CreatedDir { mtime, .. } => *mtime,
            OverlayEntry::Deleted => 0,
        }
    }
}

/// What the overlay says of a path.
#[derive(Debug)]
pub enum OverlayLookup {
    /// A live entry.
    Hit(OverlayEntry),
    /// A tombstone.
    Deleted,
    /// Nothing: the image decides.
    Miss,
}

/// The model of an [`OverlayLookup`].
#[verifier::ext_equal]
pub enum Found {
    Hit(Staged),
    Deleted,
    Miss,
}

impl View for OverlayLookup {
    type V = Found;

    open spec fn view(&self) -> Found {
        match *self {
            OverlayLookup::Hit(entry) => Found::Hit(entry@),
            OverlayLookup::Deleted => Found::Deleted,
            OverlayLookup::Miss => Found::Miss,
        }
    }
}

/// What staged entries say of a path: a stored tombstone is told apart from
/// a live entry.
pub open spec fn found(staged: Map<Seq<char>, Staged>, path: Seq<char>) -> Found {
    if !staged.contains_key(path) {
        Found::Miss
    } else if staged[path] is Deleted {
        Found::Deleted
    } else {
        Found::Hit(staged[path])
    }
}

/// A list of named entries as a map.
pub open spec fn as_map(list: Seq<(String, OverlayEntry)>) -> Map<Seq<char>, Staged>
    decreases list.len(),
{
    if list.len() == 0 {
        Map::empty()
    } else {
        as_map(list.drop_last()).insert(list.last().0@, list.last().1@)
    }
}

/// No name occurs twice in the list.
pub open spec fn distinct(list: Seq<(String, OverlayEntry)>) -> bool {
    forall|i: int, j: int| 0 <= i < j < list.len() ==> (#[trigger] list[i]).0@ != (#[trigger] list[j]).0@
}

/// Every file in the list fits in memory.
pub open spec fn all_fit(list: Seq<(String, OverlayEntry)>) -> bool {
    forall|i: int| 0 <= i < list.len() ==> (#[trigger] list[i]).1@.fits()
}

/// The map of a list without repetitions holds each of its entries, and
/// nothing else.
pub proof fn as_map_entries(list: Seq<(String, OverlayEntry)>)
    requires
        distinct(list),
    ensures
        forall|i: int|
            0 <= i < list.len() ==> as_map(list).contains_key((#[trigger] list[i]).0@)
                && as_map(list)[list[i].0@] == list[i].1@,
        forall|name: Seq<char>| #[trigger]
            as_map(list).contains_key(name) ==> exists|i: int|
                0 <= i < list.len() && (#[trigger] list[i]).0@ == name,
    decreases list.len(),
{
    if list.len() > 0 {
        let pre = list.drop_last();
        assert(distinct(pre)) by {
            assert forall|i: int, j: int| 0 <= i < j < pre.len() implies (#[trigger] pre[i]).0@ != (
            #[trigger] pre[j]).0@ by {
                assert(pre[i] == list[i] && pre[j] == list[j]);
            }
        }
        as_map_entries(pre);
        assert forall|i: int| 0 <= i < list.len() implies as_map(list).contains_key(
            (#[trigger] list[i]).0@,
        ) && as_map(list)[list[i].0@] == list[i].1@ by {
            if i < pre.len() {
                assert(pre[i] == list[i]);
                assert(list[i].0@ != list[list.len() - 1].0@);
            }
        }
        assert forall|name: Seq<char>| #[trigger] as_map(list).contains_key(name) implies exists|
            i: int,
        | 0 <= i < list.len() && (#[trigger] list[i]).0@ == name by {
            if as_map(pre).contains_key(name) {
                let i = choose|i: int| 0 <= i < pre.len() && (#[trigger] pre[i]).0@ == name;
                assert(list[i].0@ == name);
            } else {
                assert(list[list.len() - 1].0@ == name);
            }
        }
    }
}

/// Replacing the entry under a name in the list replaces it in the map.
proof fn as_map_update(list: Seq<(String, OverlayEntry)>, at: int, entry: (String, OverlayEntry))
    requires
        distinct(list),
        0 <= at < list.len(),
        entry.0@ == list[at].0@,
    ensures
        distinct(list.update(at, entry)),
        as_map(list.update(at, entry)) == as_map(list).insert(entry.0@, entry.1@),
{
    let new = list.update(at, entry);
    assert(distinct(new)) by {
        assert forall|i: int, j: int| 0 <= i < j < new.len() implies (#[trigger] new[i]).0@ != (
        #[trigger] new[j]).0@ by {
            assert(new[i].0@ == list[i].0@ && new[j].0@ == list[j].0@);
        }
    }
    as_map_entries(list);
    as_map_entries(new);
    let (a, b) = (as_map(new), as_map(list).insert(entry.0@, entry.1@));
    assert forall|name: Seq<char>| a.contains_key(name) <==> b.contains_key(name) by {
        if a.contains_key(name) {
            let i = choose|i: int| 0 <= i < new.len() && (#[trigger] new[i]).0@ == name;
            assert(list[i].0@ == name);
        }
        if as_map(list).contains_key(name) {
            let i = choose|i: int| 0 <= i < list.len() && (#[trigger] list[i]).0@ == name;
            assert(new[i].0@ == name);
        }
        assert(new[at].0@ == entry.0@);
    }
    assert forall|name: Seq<char>| #[trigger] a.contains_key(name) implies a[name] == b[name] by {
        let i = choose|i: int| 0 <= i < new.len() && (#[trigger] new[i]).0@ == name;
        assert(new[i].0@ == list[i].0@);
        if i != at {
            assert(list[at].0@ != list[i].0@);
        }
    }
    assert(a == b);
}

/// The child of a directory by its name.
pub open spec fn child_path(dir: Seq<char>, name: Seq<char>) -> Seq<char> {
    if dir == seq!['/'] {
        seq!['/'] + name
    } else {
        dir.push('/') + name
    }
}

/// Whether this can be the name of a directory's child.
pub open spec fn is_leaf(name: Seq<char>) -> bool {
    name.len() > 0 && !name.contains('/')
}

/// The entries staged directly below a directory, by name.
pub open spec fn children(staged: Map<Seq<char>, Staged>, dir: Seq<char>) -> Map<
    Seq<char>,
    Staged,
> {
    Map::new(
        |name: Seq<char>| is_leaf(name) && staged.contains_key(child_path(dir, name)),
        |name: Seq<char>| staged[child_path(dir, name)],
    )
}

/// Different children of a directory have different paths.
pub proof fn child_path_injective(dir: Seq<char>, a: Seq<char>, b: Seq<char>)
    requires
        child_path(dir, a) == child_path(dir, b),
    ensures
        a == b,
{
    let n = child_path(dir, a).len() - a.len();
    assert(child_path(dir, a).skip(n) == a);
    assert(child_path(dir, b).skip(n) == b);
}

/// The path of the child `name` of `dir`.
pub fn join(dir: &str, name: &str) -> (r: String)
    ensures
        r@ == child_path(dir@, name@),
{
    let d: Vec<char> = chars_of(dir);
    let mut r: String = String::new();
    if !(d.len() == 1 && d[0] == '/') {
        r.append(dir);
        assert(dir@ != seq!['/']);
    } else {
        assert(dir@ == seq!['/']);
    }
    r.push('/');
    r.append(name);
    r
}

/// The name under which `path` stands directly below `dir`, if it does.
fn leaf_of(dir: &str, path: &str) -> (r: Option<String>)
    ensures
        match r {
            Some(name) => is_leaf(name@) && child_path(dir@, name@) == path@,
            None => forall|name: Seq<char>| is_leaf(name) ==> child_path(dir@, name) != path@,
        },
{
    let prefix_text: String = join(dir, "");
    assert(""@ == Seq::<char>::empty()) by {
        reveal_strlit("");
    }
    let prefix: Vec<char> = chars_of(prefix_text.as_str());
    let p: Vec<char> = chars_of(path);
    assert forall|name: Seq<char>| #[trigger] child_path(dir@, name) == prefix@ + name by {
        assert(child_path(dir@, name) =~= prefix@ + name);
    }
    if p.len() <= prefix.len() {
        return None;
    }
    let mut i: usize = 0;
    while i < prefix.len()
        invariant
            i <= prefix@.len() < p@.len(),
            p@ == path@,
            forall|name: Seq<char>| #[trigger] child_path(dir@, name) == prefix@ + name,
            p@.take(i as int) == prefix@.take(i as int),
        decreases prefix@.len() - i,
    {
        if p[i] != prefix[i] {
            assert forall|name: Seq<char>| is_leaf(name) implies child_path(dir@, name)
                != path@ by {
                assert((prefix@ + name)[i as int] == prefix@[i as int]);
            }
            return None;
        }
        assert(p@.take(i + 1) == p@.take(i as int).push(p@[i as int]));
        assert(prefix@.take(i + 1) == prefix@.take(i as int).push(prefix@[i as int]));
        i = i + 1;
    }
    assert(prefix@.take(prefix@.len() as int) == prefix@);
    let ghost rest = p@.skip(prefix@.len() as int);
    assert(p@ == prefix@ + rest);
    let mut name: String = String::new();
    while i < p.len()
        invariant
            prefix@.len() <= i <= p@.len(),
            prefix@.len() < p@.len(),
            p@ == path@,
            p@ == prefix@ + rest,
            forall|name: Seq<char>| #[trigger] child_path(dir@, name) == prefix@ + name,
            name@ == rest.take(i - prefix@.len()),
            !name@.contains('/'),
        decreases p@.len() - i,
    {
        if p[i] == '/' {
            assert forall|n: Seq<char>| is_leaf(n) implies child_path(dir@, n) != path@ by {
                if prefix@ + n == path@ {
                    assert((prefix@ + n)[i as int] == n[i - prefix@.len()]);
                    assert(n.contains('/'));
                }
            }
            return None;
        }
        let ghost before = name@;
        name.push(p[i]);
        assert(rest.take(i + 1 - prefix@.len()) == before.push(p@[i as int]));
        assert(!name@.contains('/')) by {
            assert forall|j: int| 0 <= j < name@.len() implies name@[j] != '/' by {
                if j < before.len() {
                    assert(before.contains(before[j]));
                }
            }
        }
        i = i + 1;
    }
    assert(rest.take(rest.len() as int) == rest);
    Some(name)
}

/// The overlay of a mount: entries by path, each path once.
#[derive(Debug)]
pub struct Overlay {
    entries: Vec<(String, OverlayEntry)>,
}

impl View for Overlay {
    type V = Map<Seq<char>, Staged>;

    closed spec fn view(&self) -> Map<Seq<char>, Staged> {
        as_map(self.entries@)
    }
}

/// What a write of whole content leaves at a path: a file made since the
/// mount stays one, anything else is a modified file.
pub open spec fn rewritten(
    staged: Map<Seq<char>, Staged>,
    path: Seq<char>,
    content: Seq<u8>,
    mode: u16,
    mtime: u64,
) -> Staged {
    if staged.contains_key(path) && staged[path] is Created {
        Staged::Created { content, mode, mtime }
    } else {
        Staged::Modified { content, mode, mtime }
    }
}

impl Overlay {
    #[verifier::type_invariant]
    spec fn inv(self) -> bool {
        distinct(self.entries@) && all_fit(self.entries@)
    }

    /// An overlay with nothing staged.
    pub fn new() -> (r: Self)
        ensures
            r@ == Map::<Seq<char>, Staged>::empty(),
    {
        Overlay { entries: Vec::new() }
    }

    /// Where `path` stands among the entries.
    fn position(&self, path: &str) -> (r: Option<usize>)
        ensures
            match r {
                Some(i) => i < self.entries@.len() && self.entries@[i as int].0@ == path@,
                None => forall|i: int|
                    0 <= i < self.entries@.len() ==> (#[trigger] self.entries@[i]).0@ != path@,
            },
    {
        let wanted: String = path.to_owned();
        let mut i: usize = 0;
        while i < self.entries.len()
            invariant
                wanted@ == path@,
                i <= self.entries@.len(),
                forall|j: int| 0 <= j < i ==> (#[trigger] self.entries@[j]).0@ != path@,
            decreases self.entries@.len() - i,
        {
            if self.entries[i].0 == wanted {
                return Some(i);
            }
            i = i + 1;
        }
        None
    }

    /// What the overlay says of `path`.
    pub fn lookup(&self, path: &str) -> (r: OverlayLookup)
        ensures
            r@ == found(self@, path@),
            r matches OverlayLookup::Hit(entry) ==> entry@.fits(),
    {
        proof {
            use_type_invariant(self);
            as_map_entries(self.entries@);
        }
        match self.position(path) {
            Some(i) => {
                let entry: OverlayEntry = self.entries[i].1.clone();
                assert(self.entries@[i as int].1@.fits());
                if entry.is_deleted() {
                    OverlayLookup::Deleted
                } else {
                    OverlayLookup::Hit(entry)
                }
            },
            None => OverlayLookup::Miss,
        }
    }

    /// Puts `entry` at `path`, in place of what was there.
    fn stage(&mut self, path: &str, entry: OverlayEntry)
        requires
            entry@.fits(),
        ensures
            final(self)@ == old(self)@.insert(path@, entry@),
    {
        proof {
            use_type_invariant(&*self);
            as_map_entries(self.entries@);
        }
        let at: Option<usize> = self.position(path);
        let mut entries: Vec<(String, OverlayEntry)> = Vec::new();
        std::mem::swap(&mut entries, &mut self.entries);
        let ghost before = entries@;
        let slot: (String, OverlayEntry) = (path.to_owned(), entry);
        match at {
            Some(i) => {
                proof {
                    as_map_update(before, i as int, slot);
                }
                entries[i] = slot;
            },
            None => {
                entries.push(slot);
                assert(entries@.drop_last() == before);
            },
        }
        self.entries = entries;
    }

    /// Stages whole new content for a file.
    pub fn write_file(&mut self, path: &str, content: Vec<u8>, mode: u16, now: u64)
        requires
            content@.len() <= isize::MAX,
        ensures
            final(self)@ == old(self)@.insert(
                path@,
                rewritten(old(self)@, path@, content@, mode, now),
            ),
    {
        let created: bool = match self.lookup(path) {
            OverlayLookup::Hit(OverlayEntry::Created { .. }) => true,
            _ => false,
        };
        if created {
            self.stage(path, OverlayEntry::Created { content, mode, mtime: now });
        } else {
            self.stage(path, OverlayEntry::Modified { content, mode, mtime: now });
        }
    }

    /// Stages a new file.
    pub fn create_file(&mut self, path: &str, content: Vec<u8>, mode: u16, now: u64)
        requires
            content@.len() <= isize::MAX,
        ensures
            final(self)@ == old(self)@.insert(
                path@,
                Staged::Created { content: content@, mode, mtime: now },
            ),
    {
        self.stage(path, OverlayEntry::Created { content, mode, mtime: now });
    }

    /// Stages a new directory.
    pub fn create_dir(&mut self, path: &str, mode: u16, now: u64)
        ensures
            final(self)@ == old(self)@.insert(path@, Staged::CreatedDir { mode, mtime: now }),
    {
        self.stage(path, OverlayEntry::CreatedDir { mode, mtime: now });
    }

    /// Leaves a tombstone at `path`.
    pub fn delete(&mut self, path: &str)
        ensures
            final(self)@ == old(self)@.insert(path@, Staged::Deleted),
    {
        self.stage(path, OverlayEntry::Deleted);
    }

    /// Drops everything that was staged.
    pub fn clear(&mut self)
        ensures
            final(self)@ == Map::<Seq<char>, Staged>::empty(),
    {
        self.entries = Vec::new();
    }

    /// Everything that is staged, tombstones too, each path once.
    pub fn snapshot(&self) -> (r: Vec<(String, OverlayEntry)>)
        ensures
            distinct(r@),
            as_map(r@) == self@,
    {
        proof {
            use_type_invariant(self);
        }
        let mut r: Vec<(String, OverlayEntry)> = Vec::new();
        let mut i: usize = 0;
        while i < self.entries.len()
            invariant
                distinct(self.entries@),
                i <= self.entries@.len(),
                r@.len() == i,
                forall|j: int|
                    0 <= j < i ==> (#[trigger] r@[j]).0@ == self.entries@[j].0@ && r@[j].1@
                        == self.entries@[j].1@,
                as_map(r@) == as_map(self.entries@.take(i as int)),
            decreases self.entries@.len() - i,
        {
            let ghost before = r@;
            r.push((self.entries[i].0.clone(), self.entries[i].1.clone()));
            assert(r@.drop_last() == before);
            assert(self.entries@.take(i + 1).drop_last() == self.entries@.take(i as int));
            i = i + 1;
        }
        assert(self.entries@.take(self.entries@.len() as int) == self.entries@);
        assert forall|i: int, j: int| 0 <= i < j < r@.len() implies (#[trigger] r@[i]).0@ != (
        #[trigger] r@[j]).0@ by {
            assert(self.entries@[i].0@ != self.entries@[j].0@);
        }
        r
    }

    /// The entries staged directly below `dir`, tombstones too, each name
    /// once.
    pub fn iter_dir(&self, dir: &str) -> (r: Vec<(String, OverlayEntry)>)
        ensures
            distinct(r@),
            all_fit(r@),
            as_map(r@) == children(self@, dir@),
    {
        proof {
            use_type_invariant(self);
            as_map_entries(self.entries@);
        }
        let mut r: Vec<(String, OverlayEntry)> = Vec::new();
        let mut i: usize = 0;
        assert(children(as_map(self.entries@.take(0)), dir@) =~= Map::empty());
        while i < self.entries.len()
            invariant
                distinct(self.entries@),
                all_fit(self.entries@),
                i <= self.entries@.len(),
                distinct(r@),
                all_fit(r@),
                as_map(r@) == children(as_map(self.entries@.take(i as int)), dir@),
            decreases self.entries@.len() - i,
        {
            let ghost done = self.entries@.take(i as int);
            let ghost next = self.entries@.take(i + 1);
            let ghost entry = self.entries@[i as int];
            assert(next.drop_last() == done);
            proof {
                assert(distinct(done)) by {
                    assert forall|a: int, b: int| 0 <= a < b < done.len() implies (
                    #[trigger] done[a]).0@ != (#[trigger] done[b]).0@ by {
                        assert(self.entries@[a].0@ != self.entries@[b].0@);
                    }
                }
                as_map_entries(done);
                as_map_entries(r@);
            }
            match leaf_of(dir, self.entries[i].0.as_str()) {
                Some(name) => {
                    let ghost before = r@;
                    let ghost leaf = name@;
                    assert(!as_map(done).contains_key(entry.0@)) by {
                        if as_map(done).contains_key(entry.0@) {
                            let j = choose|j: int|
                                0 <= j < done.len() && (#[trigger] done[j]).0@ == entry.0@;
                            assert(self.entries@[j].0@ != self.entries@[i as int].0@);
                        }
                    }
                    r.push((name, self.entries[i].1.clone()));
                    assert(r@.drop_last() == before);
                    assert(distinct(r@)) by {
                        assert forall|a: int, b: int| 0 <= a < b < r@.len() implies (
                        #[trigger] r@[a]).0@ != (#[trigger] r@[b]).0@ by {
                            if b == before.len() {
                                assert(before[a].0@ == r@[a].0@);
                                assert(as_map(before).contains_key(before[a].0@));
                            } else {
                                assert(before[a].0@ != before[b].0@);
                            }
                        }
                    }
                    assert forall|n: Seq<char>| #![auto] is_leaf(n) && n != leaf implies child_path(
                        dir@,
                        n,
                    ) != entry.0@ by {
                        if child_path(dir@, n) == entry.0@ {
                            child_path_injective(dir@, n, leaf);
                        }
                    }
                    assert(as_map(r@) =~= children(as_map(next), dir@));
                },
                None => {
                    assert(children(as_map(next), dir@) =~= children(as_map(done), dir@));
                },
            }
            i = i + 1;
        }
        assert(self.entries@.take(self.entries@.len() as int) == self.entries@);
        r
    }
}

/// The path of a child is the directory's path, a slash and the name; the
/// root's own slash serves for its children.
pub proof fn child_path_is_directory_slash_name(dir: Seq<char>, name: Seq<char>)
    ensures
        dir == seq!['/'] ==> child_path(dir, name) == seq!['/'] + name,
        dir != seq!['/'] ==> child_path(dir, name) == dir + seq!['/'] + name,
{
    assert(dir.push('/') + name == dir + seq!['/'] + name);
}

/// The children of a directory are the entries whose paths are one name
/// longer than the directory's, tombstones among them.
pub proof fn children_are_one_name_below(
    staged: Map<Seq<char>, Staged>,
    dir: Seq<char>,
    name: Seq<char>,
    path: Seq<char>,
)
    requires
        dir == seq!['/'] ==> path == seq!['/'] + name,
        dir != seq!['/'] ==> path == dir + seq!['/'] + name,
    ensures
        children(staged, dir).contains_key(name) <==> {
            &&& name.len() > 0
            &&& forall|i: int| 0 <= i < name.len() ==> #[trigger] name[i] != '/'
            &&& staged.contains_key(path)
        },
        children(staged, dir).contains_key(name) ==> children(staged, dir)[name] == staged[path],
{
    assert(dir.push('/') + name == dir + seq!['/'] + name);
    if forall|i: int| 0 <= i < name.len() ==> #[trigger] name[i] != '/' {
        assert(!name.contains('/'));
    }
    if children(staged, dir).contains_key(name) {
        assert forall|i: int| 0 <= i < name.len() implies #[trigger] name[i] != '/' by {
            assert(name.contains(name[i]));
        }
    }
}

/// In a list of entries without repetitions no two places have one name,
/// and all its files fit in memory where each does.
pub proof fn distinct_names_differ(list: Seq<(String, OverlayEntry)>, i: int, j: int)
    ensures
        distinct(list) && 0 <= i < j < list.len() ==> list[i].0@ != list[j].0@,
        all_fit(list) && 0 <= i < list.len() ==> list[i].1@.fits(),
        as_map(Seq::empty()).dom().len() == 0,
{
}

/// A lookup's model is the lookup.
pub proof fn lookup_view_is_the_lookup(entry: OverlayEntry)
    ensures
        OverlayLookup::Hit(entry)@ == Found::Hit(entry@),
        OverlayLookup::Deleted@ == Found::Deleted,
        OverlayLookup::Miss@ == Found::Miss,
{
}

} // verus!
