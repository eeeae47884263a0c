//! A mounted volume: the read-only image seen through the overlay.
//!
//! Reads consult the overlay first and fall through to the image; writes
//! always land in the overlay. What the image holds at a path is handed in
//! as an [`UnderlayNode`]; [`Mount::needs_underlay`] says when it counts.

use std::path::PathBuf;

use vstd::prelude::*;

use crate::device::{slice_of, OpenError, Partition, PartitionDevice};
use crate::info::Inode;
use crate::overlay::{Found, Overlay, OverlayEntry, OverlayLookup, Staged};
use crate::status::FsError;

verus! {

/// A path of the host, `std::path::PathBuf`, carried through as it is.
#[verifier::external_type_specification]
#[verifier::external_body]
pub struct ExPathBuf(PathBuf);

/// What becomes of the overlay when the volume is dismounted.
#[derive(Debug)]
pub enum DismountPolicy {
    /// The overlay is dropped: what was written vanishes.
    Discard,
    /// The overlay is written to a sidecar file.
    Sidecar(PathBuf),
}

impl Default for DismountPolicy {
    fn default() -> (r: Self)
        ensures
            r is Discard,
    {
        DismountPolicy::Discard
    }
}

/// Whether a mount takes writes.
#[derive(Debug, Clone, Copy, PartialEq, Eq, Structural)]
pub enum WriteMode {
    /// Writes are staged in the overlay.
    Writable,
    /// Every change is refused.
    ReadOnly,
}

impl Default for WriteMode {
    fn default() -> (r: Self)
        ensures
            r is Writable,
    {
        WriteMode::Writable
    }
}

/// What the image holds at a path.
#[derive(Debug)]
pub enum UnderlayNode {
    /// The lookup failed.
    Missing(FsError),
    /// The lookup found this inode. The content counts for regular files
    /// only.
    Node { inode: Inode, content: Result<Vec<u8>, FsError> },
}

/// The model of an [`UnderlayNode`].
pub enum Below {
    Missing(FsError),
    Node { inode: Inode, content: Result<Seq<u8>, FsError> },
}

impl View for UnderlayNode {
    type V = Below;

    open spec fn view(&self) -> Below {
        match *self {
            UnderlayNode::Missing(e) => Below::Missing(e),
            UnderlayNode::Node { inode, content } => Below::Node {
                inode,
                content: match content {
                    Ok(bytes) => Ok(bytes@),
                    Err(e) => Err(e),
                },
            },
        }
    }
}

impl Below {
    /// The content is no larger than memory can hold.
    pub open spec fn fits(self) -> bool {
        match self {
            Below::Node { content: Ok(bytes), .. } => bytes.len() <= isize::MAX,
            _ => true,
        }
    }
}

/// What stands at a path of the merged volume.
#[derive(Debug)]
pub enum Resolved {
    /// A regular file.
    File { content: Vec<u8>, mode: u16 },
    /// A directory made since the mount.
    StagedDir { mode: u16 },
    /// Deleted since the mount.
    Tombstone,
    /// A directory of the image.
    ImageDir { mode: u16 },
    /// Neither file nor directory.
    Special,
    /// A file of the image that cannot be read.
    Unreadable(FsError),
    /// Nothing.
    Missing(FsError),
}

/// The model of a [`Resolved`].
#[verifier::ext_equal]
pub enum Merged {
    File { content: Seq<u8>, mode: u16 },
    StagedDir { mode: u16 },
    Tombstone,
    ImageDir { mode: u16 },
    Special,
    Unreadable(FsError),
    Missing(FsError),
}

impl View for Resolved {
    type V = Merged;

    open spec fn view(&self) -> Merged {
        match *self {
            Resolved::File { content, mode } => Merged::File { content: content@, mode },
            Resolved::StagedDir { mode } => Merged::StagedDir { mode },
            Resolved::Tombstone => Merged::Tombstone,
            Resolved::ImageDir { mode } => Merged::ImageDir { mode },
            Resolved::Special => Merged::Special,
            Resolved::Unreadable(e) => Merged::Unreadable(e),
            Resolved::Missing(e) => Merged::Missing(e),
        }
    }
}

/// What the image alone has at a path.
pub open spec fn image_has(below: Below) -> Merged {
    match below {
        Below::Missing(e) => Merged::Missing(e),
        Below::Node { inode, content } => if inode.regular() {
            match content {
                Ok(bytes) => Merged::File { content: bytes, mode: inode.mode },
                Err(e) => Merged::Unreadable(e),
            }
        } else if inode.dir() {
            Merged::ImageDir { mode: inode.mode }
        } else {
            Merged::Special
        },
    }
}

/// What the merged volume has at a path: what is staged there, or else what
/// the image has.
pub open spec fn merged(
    staged: Map<Seq<char>, Staged>,
    path: Seq<char>,
    below: Below,
) -> Merged {
    match crate::overlay::found(staged, path) {
        Found::Hit(Staged::Created { content, mode, .. }) => Merged::File { content, mode },
        Found::Hit(Staged::Modified { content, mode, .. }) => Merged::File { content, mode },
        Found::Hit(Staged::CreatedDir { mode, .. }) => Merged::StagedDir { mode },
        Found::Hit(Staged::Deleted) | Found::Deleted => Merged::Tombstone,
        Found::Miss => image_has(below),
    }
}

/// Whether a text result is the one expected.
pub open spec fn says<T>(r: Result<T, &'static str>, text: Seq<char>) -> bool {
    r is Err && r->Err_0@ == text
}

/// `content` with `data` put over it at `offset`; a gap is filled with
/// zeros.
pub open spec fn patched(content: Seq<u8>, offset: int, data: Seq<u8>) -> Seq<u8> {
    let end = offset + data.len();
    Seq::new(
        if end > content.len() {
            end as nat
        } else {
            content.len()
        },
        |i: int|
            if offset <= i < end {
                data[i - offset]
            } else if i < content.len() {
                content[i]
            } else {
                0
            },
    )
}

/// `content` cut or extended with zeros to `size`.
pub open spec fn resized(content: Seq<u8>, size: nat) -> Seq<u8> {
    Seq::new(
        size,
        |i: int|
            if i < content.len() {
                content[i]
            } else {
                0
            },
    )
}

/// What is staged once new content has been written to a file.
pub open spec fn with_file(
    staged: Map<Seq<char>, Staged>,
    path: Seq<char>,
    content: Seq<u8>,
    mode: u16,
    now: u64,
) -> Map<Seq<char>, Staged> {
    staged.insert(path, crate::overlay::rewritten(staged, path, content, mode, now))
}

/// What reading a path whole gives, or the refusal in words.
pub open spec fn path_read(
    staged: Map<Seq<char>, Staged>,
    path: Seq<char>,
    below: Below,
) -> Result<Seq<u8>, Seq<char>> {
    match merged(staged, path, below) {
        Merged::File { content, .. } => Ok(content),
        Merged::StagedDir { .. } | Merged::ImageDir { .. } | Merged::Special => Err(
            "not a regular file"@,
        ),
        Merged::Tombstone | Merged::Missing(_) => Err("not found"@),
        Merged::Unreadable(_) => Err("underlay read error"@),
    }
}

/// What is staged after a write to a path, or the refusal in words.
pub open spec fn path_written(
    staged: Map<Seq<char>, Staged>,
    path: Seq<char>,
    below: Below,
    offset: u64,
    data: Seq<u8>,
    now: u64,
) -> Result<Map<Seq<char>, Staged>, Seq<char>> {
    match merged(staged, path, below) {
        Merged::File { content, mode } => if offset + data.len() <= u64::MAX {
            Ok(with_file(staged, path, patched(content, offset as int, data), mode, now))
        } else {
            Err("offset+len overflow"@)
        },
        Merged::StagedDir { .. } => Err("write on directory"@),
        Merged::Tombstone => Err("write on tombstoned path"@),
        Merged::ImageDir { .. } | Merged::Special => Err("write on non-regular underlay entry"@),
        Merged::Missing(_) => Err("write on missing path"@),
        Merged::Unreadable(_) => Err("underlay read error"@),
    }
}

/// What is staged after a path's size was set, or the refusal in words.
pub open spec fn path_resized(
    staged: Map<Seq<char>, Staged>,
    path: Seq<char>,
    below: Below,
    size: u64,
    now: u64,
) -> Result<Map<Seq<char>, Staged>, Seq<char>> {
    match merged(staged, path, below) {
        Merged::File { content, mode } => Ok(
            with_file(staged, path, resized(content, size as nat), mode, now),
        ),
        Merged::StagedDir { .. } => Err("set_size on directory"@),
        Merged::Tombstone => Err("set_size on tombstoned path"@),
        Merged::ImageDir { .. } | Merged::Special => Err("set_size on non-regular underlay entry"@),
        Merged::Missing(_) => Err("set_size on missing path"@),
        Merged::Unreadable(_) => Err("underlay read error"@),
    }
}

/// The slice that a volume is opened on: all of the device for no partition
/// or partition 0, else that partition of the table.
pub open spec fn volume_slice(
    partition: Option<usize>,
    parts: Seq<Partition>,
    size: u64,
) -> Result<(nat, nat), OpenError> {
    match partition {
        None | Some(0) => Ok((0, size as nat)),
        Some(n) => crate::device::partition_slice(parts, n, size),
    }
}

/// Puts `data` over `content` at `offset`, extending it as needed.
pub(crate) fn patch(content: &mut Vec<u8>, offset: usize, data: &[u8])
    requires
        offset + data@.len() <= isize::MAX,
    ensures
        final(content)@ == patched(old(content)@, offset as int, data@),
{
    let end: usize = offset + data.len();
    if end > content.len() {
        content.resize(end, 0);
    }
    let ghost base = content@;
    let mut i: usize = 0;
    while i < data.len()
        invariant
            i <= data@.len(),
            offset + data@.len() <= base.len(),
            base.len() <= usize::MAX,
            content@.len() == base.len(),
            forall|j: int|
                0 <= j < base.len() ==> #[trigger] content@[j] == if offset <= j < offset + i {
                    data@[j - offset]
                } else {
                    base[j]
                },
        decreases data@.len() - i,
    {
        content[offset + i] = data[i];
        i = i + 1;
    }
    assert(content@ == patched(old(content)@, offset as int, data@));
}

/// Why a rename was refused.
#[derive(Debug, Clone, Copy, PartialEq, Eq, Structural)]
pub enum RenameError {
    SourceNotFound,
    SourceUnreadable,
    SourceNotFileOrDirectory,
    DestinationExists,
}

impl RenameError {
    /// The refusal in words.
    pub open spec fn text(self) -> Seq<char> {
        match self {
            RenameError::SourceNotFound => "rename: source not found"@,
            RenameError::SourceUnreadable => "underlay read error"@,
            RenameError::SourceNotFileOrDirectory => "rename: source is not a file or directory"@,
            RenameError::DestinationExists => "rename: destination exists"@,
        }
    }

    /// The refusal in words.
    pub fn message(self) -> (s: &'static str)
        ensures
            s@ == self.text(),
    {
        match self {
            RenameError::SourceNotFound => "rename: source not found",
            RenameError::SourceUnreadable => "underlay read error",
            RenameError::SourceNotFileOrDirectory => "rename: source is not a file or directory",
            RenameError::DestinationExists => "rename: destination exists",
        }
    }
}

/// What is staged at the destination of a rename, or why the source cannot
/// be moved. A directory moves as an empty one.
pub open spec fn moved(source: Merged, now: u64) -> Result<Staged, RenameError> {
    match source {
        Merged::File { content, mode } => Ok(Staged::Created { content, mode, mtime: now }),
        Merged::StagedDir { mode } => Ok(Staged::CreatedDir { mode, mtime: now }),
        Merged::ImageDir { mode } => Ok(Staged::CreatedDir { mode, mtime: now }),
        Merged::Tombstone => Err(RenameError::SourceNotFound),
        Merged::Missing(_) => Err(RenameError::SourceNotFound),
        Merged::Unreadable(_) => Err(RenameError::SourceUnreadable),
        Merged::Special => Err(RenameError::SourceNotFileOrDirectory),
    }
}

/// Whether a name is taken. A tombstone leaves it free, whatever the image
/// has.
pub open spec fn taken(
    staged: Map<Seq<char>, Staged>,
    path: Seq<char>,
    in_image: bool,
) -> bool {
    match crate::overlay::found(staged, path) {
        Found::Hit(_) => true,
        Found::Deleted => false,
        Found::Miss => in_image,
    }
}

/// What is staged after a rename, or why it is refused. Moving a path onto
/// itself changes nothing; otherwise the source is staged at the
/// destination and leaves a tombstone.
pub open spec fn renamed(
    staged: Map<Seq<char>, Staged>,
    from: Seq<char>,
    to: Seq<char>,
    replace: bool,
    source: Below,
    to_in_image: bool,
    now: u64,
) -> Result<Map<Seq<char>, Staged>, RenameError> {
    if from == to {
        Ok(staged)
    } else {
        match moved(merged(staged, from, source), now) {
            Err(e) => Err(e),
            Ok(entry) => if taken(staged, to, to_in_image) && !replace {
                Err(RenameError::DestinationExists)
            } else {
                Ok(staged.insert(to, entry).insert(from, Staged::Deleted))
            },
        }
    }
}

/// The overlay on its way to a sidecar file.
#[derive(Debug)]
pub struct Sidecar<'a> {
    pub path: &'a PathBuf,
    /// Everything staged, each path once.
    pub snapshot: Vec<(String, OverlayEntry)>,
}

/// Takes the snapshot of `overlay` that goes to the sidecar file at `path`.
pub fn write_sidecar<'a>(overlay: &Overlay, path: &'a PathBuf) -> (r: Sidecar<'a>)
    ensures
        r.path == path,
        crate::overlay::distinct(r.snapshot@),
        crate::overlay::as_map(r.snapshot@) == overlay@,
{
    Sidecar { path, snapshot: overlay.snapshot() }
}

/// A mounted volume, but for the image itself.
#[derive(Debug)]
pub struct Mount {
    /// Where the image is.
    pub image: PathBuf,
    pub overlay: Overlay,
    pub dismount_policy: DismountPolicy,
    pub write_mode: WriteMode,
}

impl Mount {
    /// A mount that nothing has been done to.
    pub open spec fn fresh(self, image: PathBuf) -> bool {
        &&& self.image == image
        &&& self.overlay@ == Map::<Seq<char>, Staged>::empty()
        &&& self.dismount_policy is Discard
        &&& self.write_mode is Writable
    }

    /// Everything but the overlay stays.
    pub open spec fn same_settings(self, other: Mount) -> bool {
        &&& self.image == other.image
        &&& self.dismount_policy == other.dismount_policy
        &&& self.write_mode == other.write_mode
    }

    /// Whether the partition table is needed to open this partition.
    pub fn needs_partition_table(partition: Option<usize>) -> (r: bool)
        ensures
            r == (partition matches Some(n) && n != 0),
    {
        match partition {
            None | Some(0) => false,
            Some(_) => true,
        }
    }

    /// Opens the volume in an image of `size` bytes: the whole image where
    /// no partition or partition 0 is asked for, else that partition of the
    /// table. Gives the slice to read through.
    pub fn open(
        image: PathBuf,
        partition: Option<usize>,
        size: u64,
        parts: &Vec<Partition>,
    ) -> (r: Result<(Mount, PartitionDevice), OpenError>)
        ensures
            match partition {
                None | Some(0) => r is Ok && r->Ok_0.0.fresh(image) && r->Ok_0.1.first() == 0
                    && r->Ok_0.1.size() == size,
                Some(n) => match crate::device::partition_slice(parts@, n, size) {
                    Ok((base, len)) => r is Ok && r->Ok_0.0.fresh(image) && r->Ok_0.1.first()
                        == base && r->Ok_0.1.size() == len,
                    Err(e) => r is Err && r->Err_0 == e,
                },
            },
            match volume_slice(partition, parts@, size) {
                Ok((base, len)) => r is Ok && r->Ok_0.1.first() == base && r->Ok_0.1.size() == len,
                Err(e) => r is Err && r->Err_0 == e,
            },
    {
        match partition {
            None | Some(0) => Ok(Mount::open_direct(image, size)),
            Some(n) => Mount::open_partition(image, n, size, parts),
        }
    }

    /// Opens the image as a single volume.
    pub fn open_direct(image: PathBuf, size: u64) -> (r: (Mount, PartitionDevice))
        ensures
            r.0.fresh(image),
            r.1.first() == 0,
            r.1.size() == size,
    {
        (Mount::over(image), PartitionDevice::new(0, size))
    }

    /// Opens the `n`th partition (from 1) of the image as a volume.
    pub fn open_partition(image: PathBuf, n: usize, size: u64, parts: &Vec<Partition>) -> (r: Result<
        (Mount, PartitionDevice),
        OpenError,
    >)
        ensures
            match crate::device::partition_slice(parts@, n, size) {
                Ok((base, len)) => r is Ok && r->Ok_0.0.fresh(image) && r->Ok_0.1.first() == base
                    && r->Ok_0.1.size() == len,
                Err(e) => r is Err && r->Err_0 == e,
            },
    {
        match slice_of(parts, n, size) {
            Ok(slice) => Ok((Mount::over(image), slice)),
            Err(e) => Err(e),
        }
    }

    fn over(image: PathBuf) -> (r: Mount)
        ensures
            r.fresh(image),
    {
        Mount {
            image,
            overlay: Overlay::new(),
            dismount_policy: DismountPolicy::default(),
            write_mode: WriteMode::default(),
        }
    }

    /// Sets what becomes of the overlay on dismount.
    pub fn with_dismount_policy(self, policy: DismountPolicy) -> (r: Mount)
        ensures
            r.dismount_policy == policy,
            r.image == self.image,
            r.overlay == self.overlay,
            r.write_mode == self.write_mode,
    {
        let mut mount: Mount = self;
        mount.dismount_policy = policy;
        mount
    }

    /// Sets whether the mount takes writes.
    pub fn with_write_mode(self, mode: WriteMode) -> (r: Mount)
        ensures
            r.write_mode == mode,
            r.image == self.image,
            r.overlay == self.overlay,
            r.dismount_policy == self.dismount_policy,
    {
        let mut mount: Mount = self;
        mount.write_mode = mode;
        mount
    }

    /// Whether what the image has at `path` counts: nothing is staged
    /// there.
    pub fn needs_underlay(&self, path: &str) -> (r: bool)
        ensures
            r == !self.overlay@.contains_key(path@),
    {
        match self.overlay.lookup(path) {
            OverlayLookup::Miss => true,
            _ => false,
        }
    }

    /// What stands at a path of the merged volume.
    pub fn resolve(&self, path: &str, node: UnderlayNode) -> (r: Resolved)
        requires
            node@.fits(),
        ensures
            r@ == merged(self.overlay@, path@, node@),
            r@ matches Merged::File { content, .. } ==> content.len() <= isize::MAX,
    {
        match self.overlay.lookup(path) {
            OverlayLookup::Hit(entry) => match entry {
                OverlayEntry::Created { content, mode, .. } => Resolved::File { content, mode },
                OverlayEntry::Modified { content, mode, .. } => Resolved::File { content, mode },
                OverlayEntry::CreatedDir { mode, .. } => Resolved::StagedDir { mode },
                OverlayEntry::Deleted => Resolved::Tombstone,
            },
            OverlayLookup::Deleted => Resolved::Tombstone,
            OverlayLookup::Miss => match node {
                UnderlayNode::Missing(e) => Resolved::Missing(e),
                UnderlayNode::Node { inode, content } => {
                    if inode.is_regular_file() {
                        match content {
                            Ok(content) => Resolved::File { content, mode: inode.mode },
                            Err(e) => Resolved::Unreadable(e),
                        }
                    } else if inode.is_dir() {
                        Resolved::ImageDir { mode: inode.mode }
                    } else {
                        Resolved::Special
                    }
                },
            },
        }
    }

    /// Reads a file of the merged volume whole.
    pub fn read_path(&self, unix_path: &str, node: UnderlayNode) -> (r: Result<
        Vec<u8>,
        &'static str,
    >)
        requires
            node@.fits(),
        ensures
            match merged(self.overlay@, unix_path@, node@) {
                Merged::File { content, .. } => r is Ok && r->Ok_0@ == content,
                Merged::StagedDir { .. } | Merged::ImageDir { .. } | Merged::Special => says(
                    r,
                    "not a regular file"@,
                ),
                Merged::Tombstone | Merged::Missing(_) => says(r, "not found"@),
                Merged::Unreadable(_) => says(r, "underlay read error"@),
            },
            match path_read(self.overlay@, unix_path@, node@) {
                Ok(content) => r is Ok && r->Ok_0@ == content,
                Err(words) => says(r, words),
            },
    {
        match self.resolve(unix_path, node) {
            Resolved::File { content, .. } => Ok(content),
            Resolved::StagedDir { .. } | Resolved::ImageDir { .. } | Resolved::Special => Err(
                "not a regular file",
            ),
            Resolved::Tombstone | Resolved::Missing(_) => Err("not found"),
            Resolved::Unreadable(_) => Err("underlay read error"),
        }
    }

    /// Stages a write at `offset` of a file. Bytes between the end of the
    /// file and `offset` become zeros.
    pub fn write_path(
        &mut self,
        unix_path: &str,
        offset: u64,
        buf: &[u8],
        node: UnderlayNode,
        now: u64,
    ) -> (r: Result<(), &'static str>)
        requires
            node@.fits(),
            merged(old(self).overlay@, unix_path@, node@) is File && offset + buf@.len()
                <= u64::MAX ==> offset + buf@.len() <= isize::MAX,
        ensures
            final(self).same_settings(*old(self)),
            match merged(old(self).overlay@, unix_path@, node@) {
                Merged::File { content, mode } => if offset + buf@.len() <= u64::MAX {
                    r is Ok && final(self).overlay@ == with_file(
                        old(self).overlay@,
                        unix_path@,
                        patched(content, offset as int, buf@),
                        mode,
                        now,
                    )
                } else {
                    says(r, "offset+len overflow"@)
                },
                Merged::StagedDir { .. } => says(r, "write on directory"@),
                Merged::Tombstone => says(r, "write on tombstoned path"@),
                Merged::ImageDir { .. } | Merged::Special => says(
                    r,
                    "write on non-regular underlay entry"@,
                ),
                Merged::Missing(_) => says(r, "write on missing path"@),
                Merged::Unreadable(_) => says(r, "underlay read error"@),
            },
            r is Err ==> final(self).overlay@ == old(self).overlay@,
            match path_written(old(self).overlay@, unix_path@, node@, offset, buf@, now) {
                Ok(staged) => r is Ok && final(self).overlay@ == staged,
                Err(words) => says(r, words),
            },
    {
        let (content, mode): (Vec<u8>, u16) = match self.resolve(unix_path, node) {
            Resolved::File { content, mode } => (content, mode),
            Resolved::StagedDir { .. } => {
                return Err("write on directory");
            },
            Resolved::Tombstone => {
                return Err("write on tombstoned path");
            },
            Resolved::ImageDir { .. } | Resolved::Special => {
                return Err("write on non-regular underlay entry");
            },
            Resolved::Missing(_) => {
                return Err("write on missing path");
            },
            Resolved::Unreadable(_) => {
                return Err("underlay read error");
            },
        };
        if offset.checked_add(buf.len() as u64).is_none() {
            return Err("offset+len overflow");
        }
        let mut content: Vec<u8> = content;
        patch(&mut content, offset as usize, buf);
        self.overlay.write_file(unix_path, content, mode, now);
        Ok(())
    }

    /// Stages a file cut or extended with zeros to `new_size`.
    pub fn set_size_path(
        &mut self,
        unix_path: &str,
        new_size: u64,
        node: UnderlayNode,
        now: u64,
    ) -> (r: Result<(), &'static str>)
        requires
            node@.fits(),
            merged(old(self).overlay@, unix_path@, node@) is File ==> new_size <= isize::MAX,
        ensures
            final(self).same_settings(*old(self)),
            match merged(old(self).overlay@, unix_path@, node@) {
                Merged::File { content, mode } => r is Ok && final(self).overlay@ == with_file(
                    old(self).overlay@,
                    unix_path@,
                    resized(content, new_size as nat),
                    mode,
                    now,
                ),
                Merged::StagedDir { .. } => says(r, "set_size on directory"@),
                Merged::Tombstone => says(r, "set_size on tombstoned path"@),
                Merged::ImageDir { .. } | Merged::Special => says(
                    r,
                    "set_size on non-regular underlay entry"@,
                ),
                Merged::Missing(_) => says(r, "set_size on missing path"@),
                Merged::Unreadable(_) => says(r, "underlay read error"@),
            },
            r is Err ==> final(self).overlay@ == old(self).overlay@,
            match path_resized(old(self).overlay@, unix_path@, node@, new_size, now) {
                Ok(staged) => r is Ok && final(self).overlay@ == staged,
                Err(words) => says(r, words),
            },
    {
        let (content, mode): (Vec<u8>, u16) = match self.resolve(unix_path, node) {
            Resolved::File { content, mode } => (content, mode),
            Resolved::StagedDir { .. } => {
                return Err("set_size on directory");
            },
            Resolved::Tombstone => {
                return Err("set_size on tombstoned path");
            },
            Resolved::ImageDir { .. } | Resolved::Special => {
                return Err("set_size on non-regular underlay entry");
            },
            Resolved::Missing(_) => {
                return Err("set_size on missing path");
            },
            Resolved::Unreadable(_) => {
                return Err("underlay read error");
            },
        };
        let ghost before = content@;
        let mut content: Vec<u8> = content;
        content.resize(new_size as usize, 0);
        assert(content@ == resized(before, new_size as nat));
        self.overlay.write_file(unix_path, content, mode, now);
        Ok(())
    }

    /// Whether `path` is taken, given whether the image has it.
    pub fn is_taken(&self, path: &str, in_image: bool) -> (r: bool)
        ensures
            r == taken(self.overlay@, path@, in_image),
    {
        match self.overlay.lookup(path) {
            OverlayLookup::Hit(_) => true,
            OverlayLookup::Deleted => false,
            OverlayLookup::Miss => in_image,
        }
    }

    /// Renames `from` to `to` in the overlay.
    pub fn rename_entry(
        &mut self,
        from: &str,
        to: &str,
        replace_if_exists: bool,
        source: UnderlayNode,
        to_in_image: bool,
        now: u64,
    ) -> (r: Result<(), RenameError>)
        requires
            source@.fits(),
        ensures
            final(self).same_settings(*old(self)),
            match renamed(
                old(self).overlay@,
                from@,
                to@,
                replace_if_exists,
                source@,
                to_in_image,
                now,
            ) {
                Ok(staged) => r is Ok && final(self).overlay@ == staged,
                Err(e) => r == Err::<(), RenameError>(e) && final(self).overlay@
                    == old(self).overlay@,
            },
    {
        if from.to_owned() == to.to_owned() {
            return Ok(());
        }
        let moving: OverlayEntry = match self.resolve(from, source) {
            Resolved::File { content, mode } => OverlayEntry::Created { content, mode, mtime: now },
            Resolved::StagedDir { mode } | Resolved::ImageDir { mode } => {
                OverlayEntry::CreatedDir { mode, mtime: now }
            },
            Resolved::Tombstone | Resolved::Missing(_) => {
                return Err(RenameError::SourceNotFound);
            },
            Resolved::Unreadable(_) => {
                return Err(RenameError::SourceUnreadable);
            },
            Resolved::Special => {
                return Err(RenameError::SourceNotFileOrDirectory);
            },
        };
        if self.is_taken(to, to_in_image) && !replace_if_exists {
            return Err(RenameError::DestinationExists);
        }
        match moving {
            OverlayEntry::Created { content, mode, .. } => {
                self.overlay.create_file(to, content, mode, now);
            },
            OverlayEntry::CreatedDir { mode, .. } => {
                self.overlay.create_dir(to, mode, now);
            },
            _ => {},
        }
        self.overlay.delete(from);
        Ok(())
    }

    /// Renames `from` to `to`, staged entirely in the overlay: a source
    /// that only the image has is staged at the destination, and the old
    /// path gets a tombstone. A directory renames as an empty one.
    pub fn rename_path(
        &mut self,
        from: &str,
        to: &str,
        replace_if_exists: bool,
        source: UnderlayNode,
        to_in_image: bool,
        now: u64,
    ) -> (r: Result<(), &'static str>)
        requires
            source@.fits(),
        ensures
            final(self).same_settings(*old(self)),
            match renamed(
                old(self).overlay@,
                from@,
                to@,
                replace_if_exists,
                source@,
                to_in_image,
                now,
            ) {
                Ok(staged) => r is Ok && final(self).overlay@ == staged,
                Err(e) => says(r, e.text()) && final(self).overlay@ == old(self).overlay@,
            },
    {
        match self.rename_entry(from, to, replace_if_exists, source, to_in_image, now) {
            Ok(()) => Ok(()),
            Err(e) => Err(e.message()),
        }
    }

    /// Applies the dismount policy. `Sidecar` gives the snapshot that goes
    /// to the sidecar file; `Discard` does nothing, as the overlay goes
    /// with the mount.
    pub fn apply_dismount_policy(&self) -> (r: Option<Sidecar<'_>>)
        ensures
            match self.dismount_policy {
                DismountPolicy::Discard => r is None,
                DismountPolicy::Sidecar(path) => r is Some && *r->0.path == path
                    && crate::overlay::distinct(r->0.snapshot@) && crate::overlay::as_map(
                    r->0.snapshot@,
                ) == self.overlay@,
            },
    {
        match &self.dismount_policy {
            DismountPolicy::Discard => None,
            DismountPolicy::Sidecar(path) => Some(write_sidecar(&self.overlay, path)),
        }
    }
}

} // verus!
