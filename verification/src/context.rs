//! The requests of a file system host, answered over a mounted volume.
//!
//! What only the image can tell is handed in with each request: the inode
//! at a path, a file's bytes, a directory's children, a link's target.

use vstd::prelude::*;

use crate::device::Superblock;
use crate::info::{
    allocation_size, attribute_bits, file_attributes, populate_file_info,
    populate_overlay_file_info, FileInfo, FileSecurity, Inode, FILE_ATTRIBUTE_DIRECTORY,
};
use crate::listing::{
    merge_listing, rows_after, visible_children, DirEntry, DirRow, Listed, MergedEntry,
};
use crate::mount::{patch, Below, Merged, Mount, RenameError, Resolved, UnderlayNode, WriteMode};
use crate::overlay::{Found, OverlayLookup, Staged};
use crate::path::winpath_to_unix;
use crate::reparse::{copy_to_front, fill_link_reparse_buffer, LinkAnswer};
use crate::status::{err_to_status, FsError, Status};
use crate::utf16::decode_units_lossy;

verus! {

/// The mode of a directory made through the volume.
pub const NEW_DIRECTORY_MODE: u16 = 0o040755;

/// The mode of a file made through the volume.
pub const NEW_FILE_MODE: u16 = 0o100644;

/// The most free space that is reported.
pub const MAX_FREE_BYTES: u64 = 0x4000_0000;

/// An open file or directory.
#[derive(Debug)]
pub struct XfsFileContext {
    pub unix_path: String,
    /// The inode in the image; none for what only the overlay has.
    pub inode: Option<Inode>,
    pub is_dir: bool,
    /// Set while the handle is marked for deletion; the tombstone is left
    /// by [`XfsContext::cleanup`].
    pub pending_delete: bool,
    /// The listing of a directory on a read-only mount, once it is built.
    pub dir_listing: Option<Vec<MergedEntry>>,
}

impl XfsFileContext {
    /// Sizes are within bounds, and a kept listing is in name order.
    pub open spec fn wf(self) -> bool {
        &&& self.inode matches Some(inode) ==> inode.fits()
        &&& self.dir_listing matches Some(list) ==> {
            &&& crate::listing::sorted(crate::listing::entries(list@))
            &&& crate::listing::all_fit(crate::listing::entries(list@))
        }
    }

    /// A handle that nothing has been done with.
    pub open spec fn fresh(self, path: Seq<char>, inode: Option<Inode>, is_dir: bool) -> bool {
        &&& self.unix_path@ == path
        &&& self.inode == inode
        &&& self.is_dir == is_dir
        &&& !self.pending_delete
        &&& self.dir_listing is None
    }

    fn new(unix_path: String, inode: Option<Inode>, is_dir: bool) -> (r: Self)
        requires
            inode matches Some(i) ==> i.fits(),
        ensures
            r.fresh(unix_path@, inode, is_dir),
            r.wf(),
    {
        XfsFileContext { unix_path, inode, is_dir, pending_delete: false, dir_listing: None }
    }
}

/// The volume as the host sees it.
#[derive(Debug)]
pub struct XfsContext {
    pub mount: Mount,
    pub label: String,
    pub total_size: u64,
}

/// What the host is told of the volume.
#[derive(Debug)]
pub struct VolumeInfo {
    pub total_size: u64,
    pub free_size: u64,
    pub label: String,
}

/// How a read goes on.
#[derive(Debug, Clone, Copy, PartialEq, Eq, Structural)]
pub enum ReadStep {
    /// The buffer holds this many bytes of the file.
    Done(u32),
    /// The first `take` bytes of the buffer are to be read from the inode
    /// in the image.
    FromImage { ino: u64, take: usize },
}

/// The content and mode that a write to a path starts from, or the status
/// for a path that cannot be written.
pub open spec fn whole_file(at: Merged) -> Result<(Seq<u8>, u16), Status> {
    match at {
        Merged::File { content, mode } => Ok((content, mode)),
        Merged::StagedDir { .. } | Merged::ImageDir { .. } | Merged::Special => Err(
            Status::InvalidDeviceRequest,
        ),
        Merged::Tombstone => Err(Status::ObjectNameNotFound),
        Merged::Missing(e) => Err(crate::status::status_of(e)),
        Merged::Unreadable(e) => Err(crate::status::status_of(e)),
    }
}

/// The answer to a query by name: what a resolver said of a link in the
/// path, or else the attributes of what stands there.
pub open spec fn security_answer(
    staged: Map<Seq<char>, Staged>,
    read_only: bool,
    resolved: Option<FileSecurity>,
    name: Seq<u16>,
    image: Result<Inode, FsError>,
) -> Result<FileSecurity, Status> {
    match (resolved, crate::path::path_of(name)) {
        (Some(security), _) => Ok(security),
        (None, None) => Err(Status::ObjectNameNotFound),
        (None, Some(path)) => match crate::overlay::found(staged, path) {
            Found::Deleted => Err(Status::ObjectNameNotFound),
            Found::Hit(entry) => Ok(
                FileSecurity {
                    reparse: false,
                    sz_security_descriptor: 0,
                    attributes: crate::info::attributes(read_only, entry is CreatedDir, false),
                },
            ),
            Found::Miss => match image {
                Ok(inode) => Ok(
                    FileSecurity {
                        reparse: false,
                        sz_security_descriptor: 0,
                        attributes: crate::info::attributes(read_only, inode.dir(), inode.link()),
                    },
                ),
                Err(e) => Err(crate::status::status_of(e)),
            },
        },
    }
}

/// The answer to an open: what is told of the file, whether it is a
/// directory, and its inode where the image has it.
pub open spec fn open_answer(
    staged: Map<Seq<char>, Staged>,
    read_only: bool,
    name: Seq<u16>,
    image: Result<Inode, FsError>,
) -> Result<(Seq<char>, Option<Inode>, bool, FileInfo), Status> {
    match crate::path::path_of(name) {
        None => Err(Status::ObjectNameNotFound),
        Some(path) => match crate::overlay::found(staged, path) {
            Found::Deleted => Err(Status::ObjectNameNotFound),
            Found::Hit(entry) => Ok(
                (
                    path,
                    None,
                    entry is CreatedDir,
                    crate::info::staged_info(entry, read_only),
                ),
            ),
            Found::Miss => match image {
                Ok(inode) => Ok(
                    (
                        path,
                        Some(inode),
                        inode.dir(),
                        crate::info::inode_info(inode, read_only),
                    ),
                ),
                Err(e) => Err(crate::status::status_of(e)),
            },
        },
    }
}

/// What is told of an open file: the overlay's word first, then the inode
/// that the handle was opened with.
pub open spec fn info_answer(
    staged: Map<Seq<char>, Staged>,
    read_only: bool,
    path: Seq<char>,
    inode: Option<Inode>,
) -> Result<FileInfo, Status> {
    match (crate::overlay::found(staged, path), inode) {
        (Found::Hit(entry), _) => Ok(crate::info::staged_info(entry, read_only)),
        (Found::Miss, Some(inode)) => Ok(crate::info::inode_info(inode, read_only)),
        _ => Err(Status::ObjectNameNotFound),
    }
}

/// The answer to a read: bytes of a staged file, or how many to take from
/// which inode.
pub open spec fn read_answer(
    staged: Map<Seq<char>, Staged>,
    path: Seq<char>,
    is_dir: bool,
    inode: Option<Inode>,
    offset: u64,
    room: nat,
) -> Result<Served, Status> {
    if is_dir {
        Err(Status::InvalidDeviceRequest)
    } else {
        match (crate::overlay::found(staged, path), inode) {
            (Found::Hit(entry), _) => match entry.file() {
                Some(content) => if offset >= content.len() {
                    Err(Status::EndOfFile)
                } else if room <= content.len() - offset {
                    Ok(Served::Bytes(content.subrange(offset as int, offset + room)))
                } else {
                    Ok(Served::Bytes(content.skip(offset as int)))
                },
                None => Err(Status::InvalidDeviceRequest),
            },
            (Found::Miss, Some(inode)) => if offset >= inode.size {
                Err(Status::EndOfFile)
            } else if room <= inode.size - offset {
                Ok(Served::Image(inode.ino, room))
            } else {
                Ok(Served::Image(inode.ino, (inode.size - offset) as nat))
            },
            _ => Err(Status::ObjectNameNotFound),
        }
    }
}

/// What a read is served from.
pub enum Served {
    /// These bytes.
    Bytes(Seq<u8>),
    /// So many bytes of this inode.
    Image(u64, nat),
}

/// The name that a listing is taken up again after.
pub open spec fn marker_name(marker: Option<&[u16]>) -> Option<Seq<char>> {
    match marker {
        Some(units) => Some(crate::utf16::lossy_text(units@)),
        None => None,
    }
}

/// The answer to a create: the path and what is staged there.
pub open spec fn create_answer(
    staged: Map<Seq<char>, Staged>,
    read_only: bool,
    name: Seq<u16>,
    attributes: u32,
    in_image: bool,
    now: u64,
) -> Result<(Seq<char>, Staged), Status> {
    if read_only {
        Err(Status::MediaWriteProtected)
    } else {
        match crate::path::path_of(name) {
            None => Err(Status::ObjectNameNotFound),
            Some(path) => if crate::mount::taken(staged, path, in_image) {
                Err(Status::ObjectNameCollision)
            } else if attributes & FILE_ATTRIBUTE_DIRECTORY != 0 {
                Ok((path, Staged::CreatedDir { mode: NEW_DIRECTORY_MODE, mtime: now }))
            } else {
                Ok(
                    (
                        path,
                        Staged::Created { content: Seq::empty(), mode: NEW_FILE_MODE, mtime: now },
                    ),
                )
            },
        }
    }
}

/// What a write leaves: the number of bytes it took, and the file's new
/// content and mode where there is one.
pub struct Wrote {
    pub count: nat,
    pub file: Option<(Seq<u8>, u16)>,
}

/// The answer to a write. A write to the end of the file starts there; a
/// constrained one neither starts nor runs past it.
pub open spec fn write_answer(
    staged: Map<Seq<char>, Staged>,
    read_only: bool,
    path: Seq<char>,
    is_dir: bool,
    below: Below,
    data: Seq<u8>,
    offset: u64,
    to_eof: bool,
    constrained: bool,
) -> Result<Wrote, Status> {
    if read_only {
        Err(Status::MediaWriteProtected)
    } else if is_dir {
        Err(Status::InvalidDeviceRequest)
    } else {
        match whole_file(crate::mount::merged(staged, path, below)) {
            Err(status) => Err(status),
            Ok((content, mode)) => {
                let at = if to_eof {
                    content.len() as int
                } else {
                    offset as int
                };
                if at + data.len() > u64::MAX {
                    Err(Status::InvalidDeviceRequest)
                } else if !constrained {
                    let new = crate::mount::patched(content, at, data);
                    Ok(Wrote { count: data.len(), file: Some((new, mode)) })
                } else if at >= content.len() {
                    Ok(Wrote { count: 0, file: None })
                } else {
                    let take = if data.len() <= content.len() - at {
                        data.len() as int
                    } else {
                        content.len() - at
                    };
                    let new = crate::mount::patched(content, at, data.take(take));
                    Ok(Wrote { count: take as nat, file: Some((new, mode)) })
                }
            },
        }
    }
}

/// The answer to a change of size: the file's new content and mode.
pub open spec fn resize_answer(
    staged: Map<Seq<char>, Staged>,
    read_only: bool,
    path: Seq<char>,
    is_dir: bool,
    below: Below,
    size: u64,
) -> Result<(Seq<u8>, u16), Status> {
    if read_only {
        Err(Status::MediaWriteProtected)
    } else if is_dir {
        Err(Status::InvalidDeviceRequest)
    } else {
        match whole_file(crate::mount::merged(staged, path, below)) {
            Err(status) => Err(status),
            Ok((content, mode)) => Ok((crate::mount::resized(content, size as nat), mode)),
        }
    }
}

/// The answer to an overwrite: the refusals of one.
pub open spec fn overwrite_answer(read_only: bool, is_dir: bool) -> Result<(), Status> {
    if read_only {
        Err(Status::MediaWriteProtected)
    } else if is_dir {
        Err(Status::InvalidDeviceRequest)
    } else {
        Ok(())
    }
}

/// The status for a refused rename.
pub open spec fn rename_status(e: RenameError) -> Status {
    match e {
        RenameError::DestinationExists => Status::ObjectNameCollision,
        RenameError::SourceNotFound => Status::ObjectNameNotFound,
        _ => Status::InvalidDeviceRequest,
    }
}

/// The answer to a rename: what is staged after it.
pub open spec fn rename_answer(
    staged: Map<Seq<char>, Staged>,
    read_only: bool,
    name: Seq<u16>,
    new_name: Seq<u16>,
    replace: bool,
    source: Below,
    to_in_image: bool,
    now: u64,
) -> Result<Map<Seq<char>, Staged>, Status> {
    if read_only {
        Err(Status::MediaWriteProtected)
    } else {
        match (crate::path::path_of(name), crate::path::path_of(new_name)) {
            (Some(from), Some(to)) => match crate::mount::renamed(
                staged,
                from,
                to,
                replace,
                source,
                to_in_image,
                now,
            ) {
                Ok(after) => Ok(after),
                Err(e) => Err(rename_status(e)),
            },
            _ => Err(Status::ObjectNameNotFound),
        }
    }
}

/// How a read lands in a caller's buffer: staged bytes at its front, and
/// nothing changed where the image is to be read or the read is refused.
pub open spec fn read_lands(
    answer: Result<Served, Status>,
    before: Seq<u8>,
    r: Result<ReadStep, Status>,
    after: Seq<u8>,
) -> bool {
    match answer {
        Ok(Served::Bytes(bytes)) => {
            &&& r == Ok::<ReadStep, Status>(ReadStep::Done(bytes.len() as u32))
            &&& after == bytes + before.skip(bytes.len() as int)
        },
        Ok(Served::Image(ino, take)) => {
            &&& r == Ok::<ReadStep, Status>(ReadStep::FromImage { ino, take: take as usize })
            &&& after == before
        },
        Err(status) => r == Err::<ReadStep, Status>(status) && after == before,
    }
}

/// The path to look up in the image for a name.
pub open spec fn image_lookup(staged: Map<Seq<char>, Staged>, name: Seq<u16>) -> Option<Seq<char>> {
    match crate::path::path_of(name) {
        Some(path) => if staged.contains_key(path) {
            None
        } else {
            Some(path)
        },
        None => None,
    }
}

/// Whether a listing has to be built, given whether the handle keeps one.
pub open spec fn listing_due(read_only: bool, is_dir: bool, kept: bool) -> Result<bool, Status> {
    if !is_dir {
        Err(Status::NotADirectory)
    } else {
        Ok(!(read_only && kept))
    }
}

/// How much can still be written to a volume, as far as is reported.
pub open spec fn free_space(read_only: bool, total: u64) -> u64 {
    if read_only {
        0
    } else if total <= MAX_FREE_BYTES {
        total
    } else {
        MAX_FREE_BYTES
    }
}

/// The label that a volume is shown with.
pub open spec fn shown_label(label: Seq<char>) -> Seq<char> {
    if label.len() == 0 {
        "xfs"@
    } else {
        label
    }
}

/// The answer to a mark for deletion, and whether the handle is marked
/// after it.
pub open spec fn mark_answer(read_only: bool, marked: bool, asked: bool) -> (
    Result<(), Status>,
    bool,
) {
    if read_only {
        (Err(Status::MediaWriteProtected), marked)
    } else {
        (Ok(()), asked)
    }
}

/// What is staged once a handle has been cleaned up.
pub open spec fn cleaned_up(
    staged: Map<Seq<char>, Staged>,
    read_only: bool,
    path: Seq<char>,
    marked: bool,
) -> Map<Seq<char>, Staged> {
    if !read_only && marked {
        staged.insert(path, Staged::Deleted)
    } else {
        staged
    }
}

/// The answer to new attributes or times, which are ignored: what is known
/// of the file, if anything.
pub open spec fn basic_answer(
    staged: Map<Seq<char>, Staged>,
    read_only: bool,
    path: Seq<char>,
    inode: Option<Inode>,
) -> Result<Option<FileInfo>, Status> {
    match (crate::overlay::found(staged, path), inode) {
        (Found::Deleted, _) => Err(Status::ObjectNameNotFound),
        (Found::Hit(entry), _) => Ok(Some(crate::info::staged_info(entry, read_only))),
        (Found::Miss, Some(inode)) => Ok(Some(crate::info::inode_info(inode, read_only))),
        (Found::Miss, None) => Ok(None),
    }
}

/// The sector size for a block size.
pub open spec fn sector_for(blocksize: u32) -> int {
    if blocksize <= 4096 {
        blocksize as int
    } else {
        4096
    }
}

impl XfsContext {
    /// Whether the mount is read-only.
    pub open spec fn read_only(self) -> bool {
        self.mount.write_mode is ReadOnly
    }

    /// Everything but what is staged stays.
    pub open spec fn same_volume(self, other: XfsContext) -> bool {
        &&& self.mount.same_settings(other.mount)
        &&& self.label == other.label
        &&& self.total_size == other.total_size
    }

    /// The volume of a mount with this superblock.
    pub fn new(mount: Mount, sb: &Superblock) -> (r: XfsContext)
        requires
            sb.dblocks * sb.blocksize <= u64::MAX,
        ensures
            r.mount == mount,
            r.label@ == sb.fname@,
            r.total_size == sb.dblocks * sb.blocksize,
    {
        let total_size: u64 = sb.dblocks * (sb.blocksize as u64);
        XfsContext { mount, label: sb.fname.clone(), total_size }
    }

    /// Whether the mount is read-only.
    pub fn is_read_only(&self) -> (r: bool)
        ensures
            r == self.read_only(),
    {
        match self.mount.write_mode {
            WriteMode::ReadOnly => true,
            WriteMode::Writable => false,
        }
    }

    /// Refuses a change to a read-only volume.
    pub fn ensure_writable(&self) -> (r: Result<(), Status>)
        ensures
            r == if self.read_only() {
                Err::<(), Status>(Status::MediaWriteProtected)
            } else {
                Ok(())
            },
    {
        if self.is_read_only() {
            Err(Status::MediaWriteProtected)
        } else {
            Ok(())
        }
    }

    /// The path to look up in the image for a request by name, where the
    /// name is valid and nothing is staged there.
    pub fn image_path(&self, name: &[u16]) -> (r: Option<String>)
        ensures
            match crate::path::path_of(name@) {
                Some(path) => if self.mount.overlay@.contains_key(path) {
                    r is None
                } else {
                    r is Some && r->0@ == path
                },
                None => r is None,
            },
            match image_lookup(self.mount.overlay@, name@) {
                Some(path) => r is Some && r->0@ == path,
                None => r is None,
            },
    {
        match winpath_to_unix(name) {
            Ok(path) => {
                if self.mount.needs_underlay(path.as_str()) {
                    Some(path)
                } else {
                    None
                }
            },
            Err(_) => None,
        }
    }

    /// The whole content and mode of the file at a path.
    pub fn read_full(&self, unix_path: &str, node: UnderlayNode) -> (r: Result<
        (Vec<u8>, u16),
        Status,
    >)
        requires
            node@.fits(),
        ensures
            match whole_file(crate::mount::merged(self.mount.overlay@, unix_path@, node@)) {
                Ok((content, mode)) => r is Ok && r->Ok_0.0@ == content && r->Ok_0.1 == mode
                    && content.len() <= isize::MAX,
                Err(status) => r == Err::<(Vec<u8>, u16), Status>(status),
            },
    {
        match self.mount.resolve(unix_path, node) {
            Resolved::File { content, mode } => Ok((content, mode)),
            Resolved::StagedDir { .. } | Resolved::ImageDir { .. } | Resolved::Special => Err(
                Status::InvalidDeviceRequest,
            ),
            Resolved::Tombstone => Err(Status::ObjectNameNotFound),
            Resolved::Missing(e) => Err(err_to_status(e)),
            Resolved::Unreadable(e) => Err(err_to_status(e)),
        }
    }

    /// Answers a query by name. `resolved` is what the host's resolver says
    /// of links in the path: it goes first, so that a link leads to its
    /// target. `image` is the lookup of the path in the image.
    pub fn get_security_by_name(
        &self,
        file_name: &[u16],
        resolved: Option<FileSecurity>,
        image: Result<Inode, FsError>,
    ) -> (r: Result<FileSecurity, Status>)
        ensures
            r == security_answer(
                self.mount.overlay@,
                self.read_only(),
                resolved,
                file_name@,
                image,
            ),
    {
        if let Some(security) = resolved {
            return Ok(security);
        }
        let unix_path: String = match winpath_to_unix(file_name) {
            Ok(path) => path,
            Err(_) => {
                return Err(Status::ObjectNameNotFound);
            },
        };
        let read_only: bool = self.is_read_only();
        let attributes: u32 = match self.mount.overlay.lookup(unix_path.as_str()) {
            OverlayLookup::Deleted => {
                return Err(Status::ObjectNameNotFound);
            },
            OverlayLookup::Hit(entry) => attribute_bits(read_only, entry.is_dir(), false),
            OverlayLookup::Miss => match image {
                Ok(inode) => file_attributes(&inode, read_only),
                Err(e) => {
                    return Err(err_to_status(e));
                },
            },
        };
        Ok(FileSecurity { reparse: false, sz_security_descriptor: 0, attributes })
    }

    /// Opens a file or directory by name.
    pub fn open(&self, file_name: &[u16], image: Result<Inode, FsError>, file_info: &mut FileInfo) -> (r:
        Result<XfsFileContext, Status>)
        requires
            image matches Ok(inode) ==> inode.fits(),
        ensures
            match open_answer(self.mount.overlay@, self.read_only(), file_name@, image) {
                Ok((path, inode, is_dir, info)) => {
                    &&& r is Ok
                    &&& r->Ok_0.fresh(path, inode, is_dir)
                    &&& r->Ok_0.wf()
                    &&& *final(file_info) == info
                },
                Err(status) => r is Err && r->Err_0 == status && *final(file_info) == *old(
                    file_info,
                ),
            },
    {
        let unix_path: String = match winpath_to_unix(file_name) {
            Ok(path) => path,
            Err(_) => {
                return Err(Status::ObjectNameNotFound);
            },
        };
        let read_only: bool = self.is_read_only();
        match self.mount.overlay.lookup(unix_path.as_str()) {
            OverlayLookup::Deleted => Err(Status::ObjectNameNotFound),
            OverlayLookup::Hit(entry) => {
                populate_overlay_file_info(&entry, file_info, read_only);
                Ok(XfsFileContext::new(unix_path, None, entry.is_dir()))
            },
            OverlayLookup::Miss => match image {
                Ok(inode) => {
                    populate_file_info(&inode, file_info, read_only);
                    Ok(XfsFileContext::new(unix_path, Some(inode), inode.is_dir()))
                },
                Err(e) => Err(err_to_status(e)),
            },
        }
    }

    /// Tells what is known of an open file. A write since the open shows.
    pub fn get_file_info(&self, context: &XfsFileContext, file_info: &mut FileInfo) -> (r: Result<
        (),
        Status,
    >)
        requires
            context.wf(),
        ensures
            match info_answer(
                self.mount.overlay@,
                self.read_only(),
                context.unix_path@,
                context.inode,
            ) {
                Ok(info) => r is Ok && *final(file_info) == info,
                Err(status) => r == Err::<(), Status>(status) && *final(file_info) == *old(
                    file_info,
                ),
            },
    {
        let read_only: bool = self.is_read_only();
        match self.mount.overlay.lookup(context.unix_path.as_str()) {
            OverlayLookup::Hit(entry) => {
                populate_overlay_file_info(&entry, file_info, read_only);
                Ok(())
            },
            OverlayLookup::Deleted => Err(Status::ObjectNameNotFound),
            OverlayLookup::Miss => match context.inode {
                Some(inode) => {
                    populate_file_info(&inode, file_info, read_only);
                    Ok(())
                },
                None => Err(Status::ObjectNameNotFound),
            },
        }
    }

    /// Reads at `offset` of an open file, or says what is to be read from
    /// the image.
    pub fn read(&self, context: &XfsFileContext, buffer: &mut [u8], offset: u64) -> (r: Result<
        ReadStep,
        Status,
    >)
        ensures
            match read_answer(
                self.mount.overlay@,
                context.unix_path@,
                context.is_dir,
                context.inode,
                offset,
                old(buffer)@.len(),
            ) {
                Ok(Served::Bytes(bytes)) => {
                    &&& r is Ok
                    &&& r->Ok_0 == ReadStep::Done(bytes.len() as u32)
                    &&& final(buffer)@ == bytes + old(buffer)@.skip(bytes.len() as int)
                },
                Ok(Served::Image(ino, take)) => {
                    &&& r is Ok
                    &&& r->Ok_0 == ReadStep::FromImage { ino, take: take as usize }
                    &&& take <= old(buffer)@.len()
                    &&& final(buffer)@ == old(buffer)@
                },
                Err(status) => r == Err::<ReadStep, Status>(status) && final(buffer)@ == old(
                    buffer,
                )@,
            },
            read_lands(
                read_answer(
                    self.mount.overlay@,
                    context.unix_path@,
                    context.is_dir,
                    context.inode,
                    offset,
                    old(buffer)@.len(),
                ),
                old(buffer)@,
                r,
                final(buffer)@,
            ),
    {
        if context.is_dir {
            return Err(Status::InvalidDeviceRequest);
        }
        match self.mount.overlay.lookup(context.unix_path.as_str()) {
            OverlayLookup::Hit(entry) => {
                let content: &Vec<u8> = match entry.content() {
                    Some(content) => content,
                    None => {
                        return Err(Status::InvalidDeviceRequest);
                    },
                };
                let size: u64 = content.len() as u64;
                if offset >= size {
                    return Err(Status::EndOfFile);
                }
                let start: usize = offset as usize;
                let remaining: usize = content.len() - start;
                let take: usize = if buffer.len() <= remaining {
                    buffer.len()
                } else {
                    remaining
                };
                let ghost room = buffer@.len();
                let bytes: &[u8] = vstd::slice::slice_subrange(content.as_slice(), start, start + take);
                proof {
                    if room > remaining {
                        assert(content@.subrange(start as int, start + take) == content@.skip(
                            start as int,
                        ));
                    }
                }
                copy_to_front(buffer, bytes);
                Ok(ReadStep::Done(take as u32))
            },
            OverlayLookup::Deleted => Err(Status::ObjectNameNotFound),
            OverlayLookup::Miss => {
                let inode: Inode = match context.inode {
                    Some(inode) => inode,
                    None => {
                        return Err(Status::ObjectNameNotFound);
                    },
                };
                if offset >= inode.size {
                    return Err(Status::EndOfFile);
                }
                let remaining: u64 = inode.size - offset;
                let take: usize = if buffer.len() as u64 <= remaining {
                    buffer.len()
                } else {
                    remaining as usize
                };
                Ok(ReadStep::FromImage { ino: inode.ino, take })
            },
        }
    }

    /// Whether a listing of this handle has to be built: always on a
    /// writable mount, where changes show while a listing is drained; once
    /// on a read-only one.
    pub fn needs_listing(&self, context: &XfsFileContext) -> (r: Result<bool, Status>)
        ensures
            r == if !context.is_dir {
                Err::<bool, Status>(Status::NotADirectory)
            } else {
                Ok(!(self.read_only() && context.dir_listing is Some))
            },
            r == listing_due(self.read_only(), context.is_dir, context.dir_listing is Some),
    {
        if !context.is_dir {
            return Err(Status::NotADirectory);
        }
        Ok(!(self.is_read_only() && context.dir_listing.is_some()))
    }

    /// Picks the children of the image that a listing may show; their
    /// inodes are to be read next. `children` is none where the image has
    /// no directory here or it cannot be read.
    pub fn children_to_read(&self, context: &XfsFileContext, children: Option<Vec<DirEntry>>) -> (r:
        Vec<(String, u64)>)
        ensures
            crate::listing::pairs(r@) == match children {
                Some(children) => crate::listing::candidates(
                    self.mount.overlay@,
                    context.unix_path@,
                    children@,
                ),
                None => Seq::empty(),
            },
    {
        match children {
            Some(children) => visible_children(
                &self.mount.overlay,
                context.unix_path.as_str(),
                children,
            ),
            None => {
                let none: Vec<(String, u64)> = Vec::new();
                assert(crate::listing::pairs(none@) == Seq::<(Seq<char>, u64)>::empty());
                none
            },
        }
    }

    /// Merges the children found in the image with what is staged, in name
    /// order.
    pub fn build_merged_listing(
        &self,
        context: &XfsFileContext,
        found: Vec<(String, Option<Inode>)>,
    ) -> (r: Vec<MergedEntry>)
        requires
            forall|i: int|
                0 <= i < found@.len() ==> ((#[trigger] found@[i]).1 matches Some(inode)
                    ==> inode.fits()),
        ensures
            crate::listing::is_listing(
                crate::listing::entries(r@),
                self.mount.overlay@,
                context.unix_path@,
                found@,
            ),
            crate::listing::all_fit(crate::listing::entries(r@)),
    {
        merge_listing(&self.mount.overlay, context.unix_path.as_str(), found)
    }

    /// Lists a directory from the entry after the marker on. On a read-only
    /// mount the listing of the handle is built once and kept.
    pub fn read_directory(
        &self,
        context: &mut XfsFileContext,
        found: Vec<(String, Option<Inode>)>,
        marker: Option<&[u16]>,
    ) -> (r: Result<Vec<DirRow>, Status>)
        requires
            old(context).wf(),
            forall|i: int|
                0 <= i < found@.len() ==> ((#[trigger] found@[i]).1 matches Some(inode)
                    ==> inode.fits()),
        ensures
            final(context).wf(),
            final(context).unix_path == old(context).unix_path,
            final(context).inode == old(context).inode,
            final(context).is_dir == old(context).is_dir,
            final(context).pending_delete == old(context).pending_delete,
            if !old(context).is_dir {
                r is Err && r->Err_0 == Status::NotADirectory && final(context).dir_listing == old(
                    context,
                ).dir_listing
            } else {
                r is Ok && exists|list: Seq<Listed>|
                    {
                        &&& if self.read_only() && old(context).dir_listing is Some {
                            list == crate::listing::entries(old(context).dir_listing->0@)
                        } else {
                            crate::listing::is_listing(
                                list,
                                self.mount.overlay@,
                                old(context).unix_path@,
                                found@,
                            )
                        }
                        &&& #[trigger] crate::listing::rows_of(
                            crate::listing::resumed(list, marker_name(marker)),
                            self.read_only(),
                        ) == crate::listing::rows(r->Ok_0@)
                        &&& if self.read_only() {
                            final(context).dir_listing is Some && crate::listing::entries(
                                final(context).dir_listing->0@,
                            ) == list
                        } else {
                            final(context).dir_listing == old(context).dir_listing
                        }
                    }
            },
    {
        if !context.is_dir {
            return Err(Status::NotADirectory);
        }
        let read_only: bool = self.is_read_only();
        let text: Option<String> = match marker {
            Some(m) => Some(decode_units_lossy(m)),
            None => None,
        };
        let from: Option<&str> = match &text {
            Some(s) => Some(s.as_str()),
            None => None,
        };
        if read_only {
            if let Some(list) = &context.dir_listing {
                let rows: Vec<DirRow> = rows_after(list, from, read_only);
                return Ok(rows);
            }
        }
        let fresh: Vec<MergedEntry> = self.build_merged_listing(context, found);
        let rows: Vec<DirRow> = rows_after(&fresh, from, read_only);
        if read_only {
            context.dir_listing = Some(fresh);
        }
        Ok(rows)
    }

    /// Tells of the volume: its size, its label, and how much can still be
    /// written. The overlay has no bound of its own, so a writable volume
    /// reports its size, at most 1 GiB.
    pub fn get_volume_info(&self) -> (r: VolumeInfo)
        ensures
            r.total_size == self.total_size,
            r.free_size == if self.read_only() {
                0
            } else if self.total_size <= MAX_FREE_BYTES {
                self.total_size
            } else {
                MAX_FREE_BYTES
            },
            r.label@ == if self.label@.len() == 0 {
                "xfs"@
            } else {
                self.label@
            },
            r.free_size == free_space(self.read_only(), self.total_size),
            r.label@ == shown_label(self.label@),
    {
        let free_size: u64 = if self.is_read_only() {
            0
        } else if self.total_size <= MAX_FREE_BYTES {
            self.total_size
        } else {
            MAX_FREE_BYTES
        };
        let label: String = if crate::text::chars_of(self.label.as_str()).len() == 0 {
            "xfs".to_owned()
        } else {
            self.label.clone()
        };
        VolumeInfo { total_size: self.total_size, free_size, label }
    }

    /// Gives the reparse buffer of the link with this name.
    pub fn get_reparse_point_by_name(&self, file_name: &[u16], link: LinkAnswer, buffer: &mut [u8]) -> (r:
        Result<u64, Status>)
        ensures
            match crate::path::path_of(file_name@) {
                Some(path) => crate::reparse::filled(
                    crate::reparse::link_reply(path, link),
                    old(buffer)@,
                    r,
                    final(buffer)@,
                ),
                None => r == Err::<u64, Status>(Status::ObjectNameNotFound) && final(buffer)@ == old(
                    buffer,
                )@,
            },
    {
        match winpath_to_unix(file_name) {
            Ok(path) => fill_link_reparse_buffer(path.as_str(), link, buffer),
            Err(_) => Err(Status::ObjectNameNotFound),
        }
    }

    /// Gives the reparse buffer of an open link.
    pub fn get_reparse_point(&self, context: &XfsFileContext, link: LinkAnswer, buffer: &mut [u8]) -> (r:
        Result<u64, Status>)
        ensures
            crate::reparse::filled(
                crate::reparse::link_reply(context.unix_path@, link),
                old(buffer)@,
                r,
                final(buffer)@,
            ),
    {
        fill_link_reparse_buffer(context.unix_path.as_str(), link, buffer)
    }

    /// Refuses to make a link: the overlay has no place for one.
    pub fn set_reparse_point(&self, context: &XfsFileContext) -> (r: Result<(), Status>)
        ensures
            r == Err::<(), Status>(Status::InvalidDeviceRequest),
    {
        Err(Status::InvalidDeviceRequest)
    }

    /// Accepts and ignores a security descriptor.
    pub fn set_security(&self, context: &XfsFileContext) -> (r: Result<(), Status>)
        ensures
            r == Ok::<(), Status>(()),
    {
        Ok(())
    }

    /// Makes a file or directory. `in_image` is whether the image has the
    /// name.
    pub fn create(
        &mut self,
        file_name: &[u16],
        file_attributes: u32,
        in_image: bool,
        file_info: &mut FileInfo,
        now: u64,
    ) -> (r: Result<XfsFileContext, Status>)
        ensures
            final(self).same_volume(*old(self)),
            match create_answer(
                old(self).mount.overlay@,
                old(self).read_only(),
                file_name@,
                file_attributes,
                in_image,
                now,
            ) {
                Ok((path, entry)) => {
                    &&& r is Ok
                    &&& r->Ok_0.fresh(path, None, entry is CreatedDir)
                    &&& r->Ok_0.wf()
                    &&& final(self).mount.overlay@ == old(self).mount.overlay@.insert(path, entry)
                    &&& *final(file_info) == crate::info::staged_info(entry, false)
                },
                Err(status) => {
                    &&& r is Err
                    &&& r->Err_0 == status
                    &&& final(self).mount.overlay@ == old(self).mount.overlay@
                    &&& *final(file_info) == *old(file_info)
                },
            },
    {
        if self.is_read_only() {
            return Err(Status::MediaWriteProtected);
        }
        let unix_path: String = match winpath_to_unix(file_name) {
            Ok(path) => path,
            Err(_) => {
                return Err(Status::ObjectNameNotFound);
            },
        };
        if self.mount.is_taken(unix_path.as_str(), in_image) {
            return Err(Status::ObjectNameCollision);
        }
        let is_dir: bool = file_attributes & FILE_ATTRIBUTE_DIRECTORY != 0;
        if is_dir {
            self.mount.overlay.create_dir(unix_path.as_str(), NEW_DIRECTORY_MODE, now);
        } else {
            let empty: Vec<u8> = Vec::new();
            self.mount.overlay.create_file(unix_path.as_str(), empty, NEW_FILE_MODE, now);
        }
        match self.mount.overlay.lookup(unix_path.as_str()) {
            OverlayLookup::Hit(entry) => {
                populate_overlay_file_info(&entry, file_info, false);
                Ok(XfsFileContext::new(unix_path, None, is_dir))
            },
            _ => Err(Status::InvalidDeviceRequest),
        }
    }

    /// Stages whole content at a path and tells of it.
    fn stage_file(
        &mut self,
        unix_path: &str,
        content: Vec<u8>,
        mode: u16,
        file_info: &mut FileInfo,
        now: u64,
    )
        requires
            content@.len() <= isize::MAX,
        ensures
            final(self).same_volume(*old(self)),
            final(self).mount.overlay@ == crate::mount::with_file(
                old(self).mount.overlay@,
                unix_path@,
                content@,
                mode,
                now,
            ),
            *final(file_info) == crate::info::staged_info(
                crate::overlay::rewritten(
                    old(self).mount.overlay@,
                    unix_path@,
                    content@,
                    mode,
                    now,
                ),
                old(self).read_only(),
            ),
    {
        self.mount.overlay.write_file(unix_path, content, mode, now);
        if let OverlayLookup::Hit(entry) = self.mount.overlay.lookup(unix_path) {
            populate_overlay_file_info(&entry, file_info, self.is_read_only());
        }
    }

    /// Writes to an open file. The image's bytes are read, changed and
    /// staged whole.
    pub fn write(
        &mut self,
        context: &XfsFileContext,
        buffer: &[u8],
        offset: u64,
        write_to_eof: bool,
        constrained_io: bool,
        node: UnderlayNode,
        file_info: &mut FileInfo,
        now: u64,
    ) -> (r: Result<u32, Status>)
        requires
            node@.fits(),
            write_answer(
                old(self).mount.overlay@,
                old(self).read_only(),
                context.unix_path@,
                context.is_dir,
                node@,
                buffer@,
                offset,
                write_to_eof,
                constrained_io,
            ) matches Ok(Wrote { file: Some((content, _)), .. }) ==> content.len() <= isize::MAX,
        ensures
            final(self).same_volume(*old(self)),
            match write_answer(
                old(self).mount.overlay@,
                old(self).read_only(),
                context.unix_path@,
                context.is_dir,
                node@,
                buffer@,
                offset,
                write_to_eof,
                constrained_io,
            ) {
                Ok(Wrote { count, file: Some((content, mode)) }) => {
                    &&& r == Ok::<u32, Status>(count as u32)
                    &&& final(self).mount.overlay@ == crate::mount::with_file(
                        old(self).mount.overlay@,
                        context.unix_path@,
                        content,
                        mode,
                        now,
                    )
                    &&& *final(file_info) == crate::info::staged_info(
                        crate::overlay::rewritten(
                            old(self).mount.overlay@,
                            context.unix_path@,
                            content,
                            mode,
                            now,
                        ),
                        false,
                    )
                },
                Ok(Wrote { file: None, .. }) => {
                    let size = whole_file(
                        crate::mount::merged(
                            old(self).mount.overlay@,
                            context.unix_path@,
                            node@,
                        ),
                    )->Ok_0.0.len();
                    &&& r == Ok::<u32, Status>(0)
                    &&& final(self).mount.overlay@ == old(self).mount.overlay@
                    &&& *final(file_info) == (FileInfo {
                        file_size: size as u64,
                        allocation_size: crate::info::allocated(size as int) as u64,
                        ..*old(file_info)
                    })
                },
                Err(status) => {
                    &&& r == Err::<u32, Status>(status)
                    &&& final(self).mount.overlay@ == old(self).mount.overlay@
                    &&& *final(file_info) == *old(file_info)
                },
            },
    {
        if self.is_read_only() {
            return Err(Status::MediaWriteProtected);
        }
        if context.is_dir {
            return Err(Status::InvalidDeviceRequest);
        }
        let path: &str = context.unix_path.as_str();
        let (content, mode): (Vec<u8>, u16) = match self.read_full(path, node) {
            Ok(whole) => whole,
            Err(status) => {
                return Err(status);
            },
        };
        let mut content: Vec<u8> = content;
        let size: usize = content.len();
        let start: u64 = if write_to_eof {
            size as u64
        } else {
            offset
        };
        if start.checked_add(buffer.len() as u64).is_none() {
            return Err(Status::InvalidDeviceRequest);
        }
        if constrained_io {
            if start >= size as u64 {
                file_info.file_size = size as u64;
                file_info.allocation_size = allocation_size(size as u64);
                return Ok(0);
            }
            let room: usize = size - start as usize;
            let take: usize = if buffer.len() <= room {
                buffer.len()
            } else {
                room
            };
            let data: &[u8] = vstd::slice::slice_subrange(buffer, 0, take);
            assert(data@ == buffer@.take(take as int));
            patch(&mut content, start as usize, data);
            self.stage_file(path, content, mode, file_info, now);
            return Ok(take as u32);
        }
        patch(&mut content, start as usize, buffer);
        self.stage_file(path, content, mode, file_info, now);
        Ok(buffer.len() as u32)
    }

    /// Cuts an open file, or extends it with zeros.
    pub fn set_file_size(
        &mut self,
        context: &XfsFileContext,
        new_size: u64,
        node: UnderlayNode,
        file_info: &mut FileInfo,
        now: u64,
    ) -> (r: Result<(), Status>)
        requires
            node@.fits(),
            resize_answer(
                old(self).mount.overlay@,
                old(self).read_only(),
                context.unix_path@,
                context.is_dir,
                node@,
                new_size,
            ) is Ok ==> new_size <= isize::MAX,
        ensures
            final(self).same_volume(*old(self)),
            match resize_answer(
                old(self).mount.overlay@,
                old(self).read_only(),
                context.unix_path@,
                context.is_dir,
                node@,
                new_size,
            ) {
                Ok((content, mode)) => {
                    &&& r is Ok
                    &&& final(self).mount.overlay@ == crate::mount::with_file(
                        old(self).mount.overlay@,
                        context.unix_path@,
                        content,
                        mode,
                        now,
                    )
                    &&& *final(file_info) == crate::info::staged_info(
                        crate::overlay::rewritten(
                            old(self).mount.overlay@,
                            context.unix_path@,
                            content,
                            mode,
                            now,
                        ),
                        false,
                    )
                },
                Err(status) => {
                    &&& r == Err::<(), Status>(status)
                    &&& final(self).mount.overlay@ == old(self).mount.overlay@
                    &&& *final(file_info) == *old(file_info)
                },
            },
    {
        if self.is_read_only() {
            return Err(Status::MediaWriteProtected);
        }
        if context.is_dir {
            return Err(Status::InvalidDeviceRequest);
        }
        let path: &str = context.unix_path.as_str();
        let (content, mode): (Vec<u8>, u16) = match self.read_full(path, node) {
            Ok(whole) => whole,
            Err(status) => {
                return Err(status);
            },
        };
        let ghost before = content@;
        let mut content: Vec<u8> = content;
        content.resize(new_size as usize, 0);
        assert(content@ == crate::mount::resized(before, new_size as nat));
        self.stage_file(path, content, mode, file_info, now);
        Ok(())
    }

    /// Empties an open file, whatever it held.
    pub fn overwrite(&mut self, context: &XfsFileContext, file_info: &mut FileInfo, now: u64) -> (r:
        Result<(), Status>)
        ensures
            final(self).same_volume(*old(self)),
            r == overwrite_answer(old(self).read_only(), context.is_dir),
            match r {
                Ok(()) => {
                    let empty = Seq::<u8>::empty();
                    &&& final(self).mount.overlay@ == crate::mount::with_file(
                        old(self).mount.overlay@,
                        context.unix_path@,
                        empty,
                        NEW_FILE_MODE,
                        now,
                    )
                    &&& *final(file_info) == crate::info::staged_info(
                        crate::overlay::rewritten(
                            old(self).mount.overlay@,
                            context.unix_path@,
                            empty,
                            NEW_FILE_MODE,
                            now,
                        ),
                        false,
                    )
                },
                Err(_) => {
                    &&& final(self).mount.overlay@ == old(self).mount.overlay@
                    &&& *final(file_info) == *old(file_info)
                },
            },
    {
        if self.is_read_only() {
            return Err(Status::MediaWriteProtected);
        }
        if context.is_dir {
            return Err(Status::InvalidDeviceRequest);
        }
        let empty: Vec<u8> = Vec::new();
        assert(empty@ == Seq::<u8>::empty());
        self.stage_file(context.unix_path.as_str(), empty, NEW_FILE_MODE, file_info, now);
        Ok(())
    }

    /// Renames a file or directory. `source` is what the image has under
    /// the old name, `to_in_image` whether it has the new one.
    pub fn rename(
        &mut self,
        file_name: &[u16],
        new_file_name: &[u16],
        replace_if_exists: bool,
        source: UnderlayNode,
        to_in_image: bool,
        now: u64,
    ) -> (r: Result<(), Status>)
        requires
            source@.fits(),
        ensures
            final(self).same_volume(*old(self)),
            match rename_answer(
                old(self).mount.overlay@,
                old(self).read_only(),
                file_name@,
                new_file_name@,
                replace_if_exists,
                source@,
                to_in_image,
                now,
            ) {
                Ok(staged) => r is Ok && final(self).mount.overlay@ == staged,
                Err(status) => {
                    &&& r == Err::<(), Status>(status)
                    &&& final(self).mount.overlay@ == old(self).mount.overlay@
                },
            },
    {
        if self.is_read_only() {
            return Err(Status::MediaWriteProtected);
        }
        let from: String = match winpath_to_unix(file_name) {
            Ok(path) => path,
            Err(_) => {
                return Err(Status::ObjectNameNotFound);
            },
        };
        let to: String = match winpath_to_unix(new_file_name) {
            Ok(path) => path,
            Err(_) => {
                return Err(Status::ObjectNameNotFound);
            },
        };
        match self.mount.rename_entry(
            from.as_str(),
            to.as_str(),
            replace_if_exists,
            source,
            to_in_image,
            now,
        ) {
            Ok(()) => Ok(()),
            Err(RenameError::DestinationExists) => Err(Status::ObjectNameCollision),
            Err(RenameError::SourceNotFound) => Err(Status::ObjectNameNotFound),
            Err(_) => Err(Status::InvalidDeviceRequest),
        }
    }

    /// Marks an open handle for deletion, or takes the mark back.
    pub fn set_delete(&self, context: &mut XfsFileContext, delete_file: bool) -> (r: Result<
        (),
        Status,
    >)
        ensures
            if self.read_only() {
                r == Err::<(), Status>(Status::MediaWriteProtected) && *final(context) == *old(
                    context,
                )
            } else {
                r == Ok::<(), Status>(()) && *final(context) == (XfsFileContext {
                    pending_delete: delete_file,
                    ..*old(context)
                })
            },
            (r, final(context).pending_delete) == mark_answer(
                self.read_only(),
                old(context).pending_delete,
                delete_file,
            ),
    {
        if self.is_read_only() {
            return Err(Status::MediaWriteProtected);
        }
        context.pending_delete = delete_file;
        Ok(())
    }

    /// Leaves a tombstone for a handle that is marked for deletion.
    pub fn cleanup(&mut self, context: &XfsFileContext)
        ensures
            final(self).same_volume(*old(self)),
            final(self).mount.overlay@ == if !old(self).read_only() && context.pending_delete {
                old(self).mount.overlay@.insert(context.unix_path@, Staged::Deleted)
            } else {
                old(self).mount.overlay@
            },
            final(self).mount.overlay@ == cleaned_up(
                old(self).mount.overlay@,
                old(self).read_only(),
                context.unix_path@,
                context.pending_delete,
            ),
    {
        if !self.is_read_only() && context.pending_delete {
            self.mount.overlay.delete(context.unix_path.as_str());
        }
    }

    /// Accepts a flush: the overlay is in memory.
    pub fn flush(&self) -> (r: Result<(), Status>)
        ensures
            r == Ok::<(), Status>(()),
    {
        Ok(())
    }

    /// Accepts and ignores new attributes and times, and tells what is
    /// known of the file.
    pub fn set_basic_info(&self, context: &XfsFileContext, file_info: &mut FileInfo) -> (r: Result<
        (),
        Status,
    >)
        requires
            context.wf(),
        ensures
            match (
                crate::overlay::found(self.mount.overlay@, context.unix_path@),
                context.inode,
            ) {
                (Found::Deleted, _) => r == Err::<(), Status>(Status::ObjectNameNotFound)
                    && *final(file_info) == *old(file_info),
                (Found::Miss, None) => r is Ok && *final(file_info) == *old(file_info),
                _ => r is Ok && Ok::<FileInfo, Status>(*final(file_info)) == info_answer(
                    self.mount.overlay@,
                    self.read_only(),
                    context.unix_path@,
                    context.inode,
                ),
            },
            match basic_answer(
                self.mount.overlay@,
                self.read_only(),
                context.unix_path@,
                context.inode,
            ) {
                Ok(Some(info)) => r is Ok && *final(file_info) == info,
                Ok(None) => r is Ok && *final(file_info) == *old(file_info),
                Err(status) => r == Err::<(), Status>(status) && *final(file_info) == *old(
                    file_info,
                ),
            },
    {
        let read_only: bool = self.is_read_only();
        match self.mount.overlay.lookup(context.unix_path.as_str()) {
            OverlayLookup::Hit(entry) => {
                populate_overlay_file_info(&entry, file_info, read_only);
            },
            OverlayLookup::Miss => {
                if let Some(inode) = context.inode {
                    populate_file_info(&inode, file_info, read_only);
                }
            },
            OverlayLookup::Deleted => {
                return Err(Status::ObjectNameNotFound);
            },
        }
        Ok(())
    }
}

/// The sector size that a volume with this block size is mounted with: the
/// block size, at most 4 KiB.
pub fn sector_size(blocksize: u32) -> (r: u16)
    ensures
        r == if blocksize <= 4096 {
            blocksize as int
        } else {
            4096
        },
        r == sector_for(blocksize),
{
    if blocksize <= 4096 {
        blocksize as u16
    } else {
        4096
    }
}

/// How a mount is announced.
pub fn banner(mode: WriteMode) -> (s: &'static str)
    ensures
        s@ == match mode {
            WriteMode::ReadOnly => "RO"@,
            WriteMode::Writable => "RW (overlay)"@,
        },
{
    match mode {
        WriteMode::ReadOnly => "RO",
        WriteMode::Writable => "RW (overlay)",
    }
}

} // verus!
