//! What Windows is told of a file: attributes, sizes, times.

use vstd::prelude::*;

use crate::overlay::{OverlayEntry, Staged};
use crate::reparse::IO_REPARSE_TAG_SYMLINK;

verus! {

pub const FILE_ATTRIBUTE_READONLY: u32 = 0x1;

pub const FILE_ATTRIBUTE_DIRECTORY: u32 = 0x10;

pub const FILE_ATTRIBUTE_NORMAL: u32 = 0x80;

pub const FILE_ATTRIBUTE_REPARSE_POINT: u32 = 0x400;

/// A time: seconds since 1970, before it if negative, and nanoseconds.
#[derive(Debug, Clone, Copy, PartialEq, Eq, Structural)]
pub struct Timestamp {
    pub sec: i64,
    pub nsec: u32,
}

/// What the driver reads of an XFS inode.
#[derive(Debug, Clone, Copy, PartialEq, Eq, Structural)]
pub struct Inode {
    pub ino: u64,
    /// The kind of file in the upper four bits, permissions below.
    pub mode: u16,
    pub size: u64,
    pub mtime: Timestamp,
}

/// The largest file size that can be rounded up to whole blocks.
pub const MAX_FILE_SIZE: u64 = 0xFFFF_FFFF_FFFF_F000;

impl Inode {
    /// Whether the mode says this is a directory.
    pub open spec fn dir(self) -> bool {
        self.mode / 0x1000 == 4
    }

    /// Whether the mode says this is a regular file.
    pub open spec fn regular(self) -> bool {
        self.mode / 0x1000 == 8
    }

    /// Whether the mode says this is a symbolic link.
    pub open spec fn link(self) -> bool {
        self.mode / 0x1000 == 10
    }

    /// The size can be rounded up to whole blocks.
    pub open spec fn fits(self) -> bool {
        self.size <= MAX_FILE_SIZE
    }

    pub fn is_dir(&self) -> (r: bool)
        ensures
            r == self.dir(),
    {
        self.mode / 0x1000 == 4
    }

    pub fn is_regular_file(&self) -> (r: bool)
        ensures
            r == self.regular(),
    {
        self.mode / 0x1000 == 8
    }

    pub fn is_symlink(&self) -> (r: bool)
        ensures
            r == self.link(),
    {
        self.mode / 0x1000 == 10
    }
}

/// What a caller learns of a file.
#[derive(Debug, Clone, Copy, PartialEq, Eq, Structural)]
pub struct FileInfo {
    pub file_attributes: u32,
    pub reparse_tag: u32,
    pub file_size: u64,
    pub allocation_size: u64,
    pub creation_time: Timestamp,
    pub last_access_time: Timestamp,
    pub last_write_time: Timestamp,
    pub change_time: Timestamp,
    pub index_number: u64,
    pub hard_links: u32,
    pub ea_size: u32,
}

/// What a caller learns of a name before opening it.
#[derive(Debug, Clone, Copy, PartialEq, Eq, Structural)]
pub struct FileSecurity {
    pub reparse: bool,
    pub sz_security_descriptor: u64,
    pub attributes: u32,
}

/// The attribute bits: read-only volumes say so on every file; `NORMAL` is
/// for what is neither read-only nor a directory; links are reparse
/// points.
pub open spec fn attributes(read_only: bool, dir: bool, link: bool) -> u32 {
    (if read_only {
        FILE_ATTRIBUTE_READONLY
    } else if dir {
        0
    } else {
        FILE_ATTRIBUTE_NORMAL
    }) | (if dir {
        FILE_ATTRIBUTE_DIRECTORY
    } else {
        0
    }) | (if link {
        FILE_ATTRIBUTE_REPARSE_POINT
    } else {
        0
    })
}

/// A size rounded up to whole 4 KiB blocks.
pub open spec fn allocated(size: int) -> int {
    (size + 4095) / 4096 * 4096
}

/// What is told of an inode.
pub open spec fn inode_info(inode: Inode, read_only: bool) -> FileInfo {
    FileInfo {
        file_attributes: attributes(read_only, inode.dir(), inode.link()),
        reparse_tag: if inode.link() {
            IO_REPARSE_TAG_SYMLINK
        } else {
            0
        },
        file_size: inode.size,
        allocation_size: allocated(inode.size as int) as u64,
        creation_time: inode.mtime,
        last_access_time: inode.mtime,
        last_write_time: inode.mtime,
        change_time: inode.mtime,
        index_number: inode.ino,
        hard_links: 0,
        ea_size: 0,
    }
}

/// The time an overlay entry was staged; a stamp past the largest signed
/// value counts as that value.
pub open spec fn staged_time(entry: Staged) -> Timestamp {
    Timestamp {
        sec: if entry.stamp() <= i64::MAX {
            entry.stamp() as i64
        } else {
            i64::MAX
        },
        nsec: 0,
    }
}

/// The size of a staged entry; only files have one.
pub open spec fn staged_size(entry: Staged) -> nat {
    match entry.file() {
        Some(content) => content.len(),
        None => 0,
    }
}

/// What is told of an overlay entry.
pub open spec fn staged_info(entry: Staged, read_only: bool) -> FileInfo {
    FileInfo {
        file_attributes: attributes(read_only, entry is CreatedDir, false),
        reparse_tag: 0,
        file_size: staged_size(entry) as u64,
        allocation_size: allocated(staged_size(entry) as int) as u64,
        creation_time: staged_time(entry),
        last_access_time: staged_time(entry),
        last_write_time: staged_time(entry),
        change_time: staged_time(entry),
        index_number: 0,
        hard_links: 0,
        ea_size: 0,
    }
}

/// The attribute bits for what is known of a file.
pub fn attribute_bits(read_only: bool, dir: bool, link: bool) -> (a: u32)
    ensures
        a == attributes(read_only, dir, link),
{
    let base: u32 = if read_only {
        FILE_ATTRIBUTE_READONLY
    } else if dir {
        0
    } else {
        FILE_ATTRIBUTE_NORMAL
    };
    let kind: u32 = if dir {
        FILE_ATTRIBUTE_DIRECTORY
    } else {
        0
    };
    let point: u32 = if link {
        FILE_ATTRIBUTE_REPARSE_POINT
    } else {
        0
    };
    base | kind | point
}

/// The attribute bits of an inode.
pub fn file_attributes(inode: &Inode, read_only: bool) -> (a: u32)
    ensures
        a == attributes(read_only, inode.dir(), inode.link()),
{
    attribute_bits(read_only, inode.is_dir(), inode.is_symlink())
}

/// A size rounded up to whole 4 KiB blocks.
pub fn allocation_size(size: u64) -> (r: u64)
    requires
        size <= MAX_FILE_SIZE,
    ensures
        r == allocated(size as int),
{
    (size + 4095) / 4096 * 4096
}

/// Fills in what is told of an inode.
pub fn populate_file_info(inode: &Inode, info: &mut FileInfo, read_only: bool)
    requires
        inode.fits(),
    ensures
        *final(info) == inode_info(*inode, read_only),
{
    info.file_attributes = file_attributes(inode, read_only);
    info.reparse_tag = if inode.is_symlink() {
        IO_REPARSE_TAG_SYMLINK
    } else {
        0
    };
    info.file_size = inode.size;
    info.allocation_size = allocation_size(inode.size);
    info.creation_time = inode.mtime;
    info.last_access_time = inode.mtime;
    info.last_write_time = inode.mtime;
    info.change_time = inode.mtime;
    info.index_number = inode.ino;
    info.hard_links = 0;
    info.ea_size = 0;
}

/// Fills in what is told of an overlay entry.
pub fn populate_overlay_file_info(entry: &OverlayEntry, info: &mut FileInfo, read_only: bool)
    requires
        entry@.fits(),
    ensures
        *final(info) == staged_info(entry@, read_only),
{
    info.file_attributes = attribute_bits(read_only, entry.is_dir(), false);
    info.reparse_tag = 0;
    info.file_size = match entry.content() {
        Some(content) => content.len() as u64,
        None => 0,
    };
    info.allocation_size = allocation_size(info.file_size);
    let stamp: u64 = entry.mtime();
    let sec: i64 = if stamp <= i64::MAX as u64 {
        stamp as i64
    } else {
        i64::MAX
    };
    let time: Timestamp = Timestamp { sec, nsec: 0 };
    info.creation_time = time;
    info.last_access_time = time;
    info.last_write_time = time;
    info.change_time = time;
    info.index_number = 0;
    info.hard_links = 0;
    info.ea_size = 0;
}

/// The bits say what they are meant to: each flag stands exactly for its
/// fact, and `NORMAL` never beside `READONLY` or `DIRECTORY`.
pub proof fn attribute_bits_tell_the_facts(read_only: bool, dir: bool, link: bool)
    ensures
        (attributes(read_only, dir, link) & FILE_ATTRIBUTE_READONLY != 0) == read_only,
        (attributes(read_only, dir, link) & FILE_ATTRIBUTE_DIRECTORY != 0) == dir,
        (attributes(read_only, dir, link) & FILE_ATTRIBUTE_REPARSE_POINT != 0) == link,
        (attributes(read_only, dir, link) & FILE_ATTRIBUTE_NORMAL != 0) == (!read_only && !dir),
{
    let base: u32 = if read_only {
        0x1
    } else if dir {
        0
    } else {
        0x80
    };
    let kind: u32 = if dir {
        0x10
    } else {
        0
    };
    let point: u32 = if link {
        0x400
    } else {
        0
    };
    let a = base | kind | point;
    assert((a & 0x1 != 0) == (base == 1) && (a & 0x10 != 0) == (kind == 0x10) && (a & 0x400 != 0)
        == (point == 0x400) && (a & 0x80 != 0) == (base == 0x80)) by (bit_vector)
        requires
            a == base | kind | point,
            base == 0 || base == 1 || base == 0x80,
            kind == 0 || kind == 0x10,
            point == 0 || point == 0x400,
    ;
}

/// The size reported as allocated is the least multiple of 4 KiB that
/// holds the file.
pub proof fn allocation_is_least_whole_blocks(size: nat)
    ensures
        allocated(size as int) % 4096 == 0,
        size <= allocated(size as int) < size + 4096,
{
}

/// The upper four bits of the mode tell the kind: 4 is a directory, 8 a
/// regular file and 10 a symbolic link.
pub proof fn mode_tells_the_kind(inode: Inode)
    ensures
        inode.dir() <==> inode.mode & 0xF000 == 0x4000,
        inode.regular() <==> inode.mode & 0xF000 == 0x8000,
        inode.link() <==> inode.mode & 0xF000 == 0xA000,
        inode.fits() <==> inode.size + 4095 < 0x1_0000_0000_0000_0000,
{
    let mode = inode.mode;
    assert((mode / 0x1000 == 4 <==> mode & 0xF000 == 0x4000) && (mode / 0x1000 == 8 <==> mode
        & 0xF000 == 0x8000) && (mode / 0x1000 == 10 <==> mode & 0xF000 == 0xA000)) by (bit_vector);
}

/// The attribute word is the sum of the bits that apply, with nothing
/// besides: 1 on a read-only volume, 0x80 on a writable one for all but
/// directories, 0x10 for directories, 0x400 for links.
pub proof fn attribute_word_adds_up(read_only: bool, dir: bool, link: bool)
    ensures
        ({
            let word = attributes(read_only, dir, link);
            let other = attributes(read_only, dir, !link);
            &&& attributes(true, false, false) == 0x1
            &&& attributes(false, false, false) == 0x80
            &&& attributes(true, true, false) == 0x11
            &&& attributes(false, true, false) == 0x10
            &&& link ==> word == other + 0x400
            &&& !link ==> other == word + 0x400
        }),
{
    assert(0x1u32 | 0u32 | 0u32 == 0x1u32 && 0x80u32 | 0u32 | 0u32 == 0x80u32 && 0x1u32 | 0x10u32
        | 0u32 == 0x11u32 && 0u32 | 0x10u32 | 0u32 == 0x10u32) by (bit_vector);
    assert(0x1u32 | 0u32 | 0x400u32 == 0x401u32 && 0x80u32 | 0u32 | 0x400u32 == 0x480u32 && 0x1u32
        | 0x10u32 | 0x400u32 == 0x411u32 && 0u32 | 0x10u32 | 0x400u32 == 0x410u32) by (bit_vector);
}

/// What is told of a file of the image is its inode's: size, number, and
/// the time of its last change for all four times; only a link carries a
/// reparse tag.
pub proof fn image_file_is_told_by_its_inode(inode: Inode, read_only: bool)
    requires
        inode.size + 4095 < 0x1_0000_0000_0000_0000,
    ensures
        ({
            let info = inode_info(inode, read_only);
            &&& info.file_size == inode.size
            &&& info.allocation_size % 4096 == 0
            &&& inode.size <= info.allocation_size < inode.size + 4096
            &&& info.index_number == inode.ino
            &&& info.creation_time == inode.mtime
            &&& info.last_access_time == inode.mtime
            &&& info.last_write_time == inode.mtime
            &&& info.change_time == inode.mtime
            &&& inode.mode / 0x1000 == 10 ==> info.reparse_tag == 0xA000_000C
            &&& inode.mode / 0x1000 != 10 ==> info.reparse_tag == 0
            &&& info.file_attributes == attributes(
                read_only,
                inode.mode / 0x1000 == 4,
                inode.mode / 0x1000 == 10,
            )
            &&& info.hard_links == 0
            &&& info.ea_size == 0
        }),
{
}

/// What is told of a staged file or directory is its own: the length of
/// the content, none for a directory, and the time of staging for all four
/// times, as far as a signed number of seconds goes.
pub proof fn staged_file_is_told_by_its_entry(
    content: Seq<u8>,
    mode: u16,
    mtime: u64,
    read_only: bool,
)
    requires
        content.len() <= isize::MAX,
    ensures
        ({
            let created = staged_info(Staged::Created { content, mode, mtime }, read_only);
            let modified = staged_info(Staged::Modified { content, mode, mtime }, read_only);
            let dir = staged_info(Staged::CreatedDir { mode, mtime }, read_only);
            &&& modified == created
            &&& created.file_size == content.len()
            &&& created.allocation_size % 4096 == 0
            &&& content.len() <= created.allocation_size < content.len() + 4096
            &&& created.file_attributes == attributes(read_only, false, false)
            &&& dir.file_size == 0
            &&& dir.allocation_size == 0
            &&& dir.file_attributes == attributes(read_only, true, false)
            &&& dir == (FileInfo {
                file_size: dir.file_size,
                allocation_size: dir.allocation_size,
                file_attributes: dir.file_attributes,
                ..created
            })
            &&& created.reparse_tag == 0
            &&& created.index_number == 0
            &&& created.hard_links == 0
            &&& created.ea_size == 0
            &&& created.creation_time.nsec == 0
            &&& mtime <= 0x7FFF_FFFF_FFFF_FFFF ==> created.creation_time.sec == mtime
            &&& mtime > 0x7FFF_FFFF_FFFF_FFFF ==> created.creation_time.sec
                == 0x7FFF_FFFF_FFFF_FFFF
            &&& created.last_access_time == created.creation_time
            &&& created.last_write_time == created.creation_time
            &&& created.change_time == created.creation_time
        }),
{
}

/// A tombstone tells of nothing, and a staged entry fits exactly where the
/// content of its file does.
pub proof fn staged_entry_facts(content: Seq<u8>, mode: u16, mtime: u64)
    ensures
        (Staged::Created { content, mode, mtime }).file() == Some(content),
        (Staged::Modified { content, mode, mtime }).file() == Some(content),
        (Staged::CreatedDir { mode, mtime }).file() is None,
        Staged::Deleted.file() is None,
        (Staged::Created { content, mode, mtime }).stamp() == mtime,
        (Staged::Modified { content, mode, mtime }).stamp() == mtime,
        (Staged::CreatedDir { mode, mtime }).stamp() == mtime,
        Staged::Deleted.stamp() == 0,
        (Staged::Created { content, mode, mtime }).fits() <==> content.len() <= isize::MAX,
        (Staged::Modified { content, mode, mtime }).fits() <==> content.len() <= isize::MAX,
        (Staged::CreatedDir { mode, mtime }).fits(),
        Staged::Deleted.fits(),
{
}

} // verus!
