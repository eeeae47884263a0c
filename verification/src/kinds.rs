//! What each request is answered, told by the kind of what stands at the
//! path: a staged file, a staged directory, a tombstone, or what the image
//! has where nothing is staged.

use vstd::prelude::*;

use crate::context::{
    basic_answer, cleaned_up, create_answer, free_space, image_lookup, info_answer, listing_due,
    mark_answer, marker_name, open_answer, overwrite_answer, read_answer, read_lands,
    rename_answer, resize_answer, sector_for, security_answer, shown_label, whole_file,
    write_answer, ReadStep, Served, Wrote, XfsContext, XfsFileContext,
};
use crate::device::{partition_slice, read_place, OpenError, Partition};
use crate::info::{FileInfo, FileSecurity, Inode};
use crate::mount::{
    image_has, merged, path_read, path_resized, path_written, renamed, says, taken, volume_slice,
    with_file, Below, DismountPolicy, Merged, Mount, RenameError, Resolved, UnderlayNode,
    WriteMode,
};
use crate::overlay::{found, rewritten, OverlayEntry, Staged};
use crate::status::{status_of, FsError, Status};

verus! {

/// A lookup tells a path without entry, a tombstone and a live entry
/// apart.
pub proof fn lookup_tells_entries_apart(staged: Map<Seq<char>, Staged>, path: Seq<char>)
    ensures
        found(staged, path) is Miss <==> !staged.contains_key(path),
        found(staged, path) is Deleted <==> staged.contains_key(path) && staged[path]
            == Staged::Deleted,
        found(staged, path) is Hit <==> staged.contains_key(path) && staged[path]
            != Staged::Deleted,
        found(staged, path) is Hit ==> found(staged, path)->Hit_0 == staged[path],
{
}

/// What the merged volume has at a path is the staged file or directory,
/// or nothing where a tombstone stands; only where there is no entry it is
/// what the image has, by the kind in the upper four bits of the mode.
pub proof fn volume_shows_what_is_staged_or_in_the_image(
    staged: Map<Seq<char>, Staged>,
    path: Seq<char>,
    content: Seq<u8>,
    mode: u16,
    mtime: u64,
    inode: Inode,
    bytes: Result<Seq<u8>, FsError>,
    e: FsError,
    below: Below,
)
    ensures
        staged.contains_key(path) && staged[path] == (Staged::Created { content, mode, mtime })
            ==> merged(staged, path, below) == (Merged::File { content, mode }),
        staged.contains_key(path) && staged[path] == (Staged::Modified { content, mode, mtime })
            ==> merged(staged, path, below) == (Merged::File { content, mode }),
        staged.contains_key(path) && staged[path] == (Staged::CreatedDir { mode, mtime })
            ==> merged(staged, path, below) == (Merged::StagedDir { mode }),
        staged.contains_key(path) && staged[path] == Staged::Deleted ==> merged(
            staged,
            path,
            below,
        ) == Merged::Tombstone,
        !staged.contains_key(path) ==> {
            &&& merged(staged, path, Below::Missing(e)) == Merged::Missing(e)
            &&& inode.mode / 0x1000 == 8 ==> merged(
                staged,
                path,
                Below::Node { inode, content: Ok(content) },
            ) == (Merged::File { content, mode: inode.mode })
            &&& inode.mode / 0x1000 == 8 ==> merged(
                staged,
                path,
                Below::Node { inode, content: Err(e) },
            ) == Merged::Unreadable(e)
            &&& inode.mode / 0x1000 == 4 ==> merged(
                staged,
                path,
                Below::Node { inode, content: bytes },
            ) == (Merged::ImageDir { mode: inode.mode })
            &&& inode.mode / 0x1000 != 8 && inode.mode / 0x1000 != 4 ==> merged(
                staged,
                path,
                Below::Node { inode, content: bytes },
            ) == Merged::Special
        },
        merged(Map::empty(), path, below) == image_has(below),
{
}

/// Writing new content to a path changes that path alone. A file made since
/// the mount stays one, any other becomes a changed file; content, mode and
/// time are those of the write.
pub proof fn staging_changes_one_path(
    staged: Map<Seq<char>, Staged>,
    path: Seq<char>,
    content: Seq<u8>,
    mode: u16,
    now: u64,
    other: Seq<char>,
)
    ensures
        ({
            let after = with_file(staged, path, content, mode, now);
            &&& after.contains_key(path)
            &&& after[path] == rewritten(staged, path, content, mode, now)
            &&& staged.contains_key(path) && staged[path] is Created ==> after[path] == (
            Staged::Created { content, mode, mtime: now })
            &&& !(staged.contains_key(path) && staged[path] is Created) ==> after[path] == (
            Staged::Modified { content, mode, mtime: now })
            &&& other != path ==> after.contains_key(other) == staged.contains_key(other)
            &&& other != path && staged.contains_key(other) ==> after[other] == staged[other]
        }),
{
}

/// An accepted write that is not constrained puts the data where it is to
/// go and nothing else: the file is as long as the longer of its old
/// content and the end of the data, holds the data from the start of the
/// write on, its old bytes at every other old place, and zeros in a gap.
/// Its mode stays, and the whole of the data counts as written.
pub proof fn write_keeps_everything_around_the_data(
    staged: Map<Seq<char>, Staged>,
    path: Seq<char>,
    below: Below,
    content: Seq<u8>,
    mode: u16,
    mtime: u64,
    inode: Inode,
    data: Seq<u8>,
    offset: u64,
    to_eof: bool,
    now: u64,
    i: int,
)
    requires
        ({
            ||| staged.contains_key(path) && staged[path] == (Staged::Created {
                content,
                mode,
                mtime,
            })
            ||| staged.contains_key(path) && staged[path] == (Staged::Modified {
                content,
                mode,
                mtime,
            })
            ||| !staged.contains_key(path) && inode.mode / 0x1000 == 8 && inode.mode == mode
                && below == (Below::Node { inode, content: Ok(content) })
        }),
        to_eof ==> content.len() + data.len() <= u64::MAX,
        !to_eof ==> offset + data.len() <= u64::MAX,
    ensures
        ({
            let wrote = write_answer(
                staged,
                false,
                path,
                false,
                below,
                data,
                offset,
                to_eof,
                false,
            );
            let start = if to_eof {
                content.len() as int
            } else {
                offset as int
            };
            let end = start + data.len();
            let new = (wrote->Ok_0.file->0).0;
            let after = with_file(staged, path, new, mode, now);
            &&& wrote is Ok
            &&& wrote->Ok_0.count == data.len()
            &&& wrote->Ok_0.file is Some
            &&& (wrote->Ok_0.file->0).1 == mode
            &&& end <= content.len() ==> new.len() == content.len()
            &&& end > content.len() ==> new.len() == end
            &&& start <= i < end ==> new[i] == data[i - start]
            &&& 0 <= i < content.len() && !(start <= i < end) ==> new[i] == content[i]
            &&& content.len() <= i < start ==> new[i] == 0
            &&& after.contains_key(path)
            &&& after[path] == (Staged::Created { content: new, mode, mtime: now }) || after[path]
                == (Staged::Modified { content: new, mode, mtime: now })
        }),
{
}

/// A constrained write never changes the length of a file: of the data, the
/// part that lies within the file is written and counted, every other byte
/// of the file stays, and a write that starts at the end or behind it
/// leaves everything as it is.
pub proof fn constrained_write_changes_bytes_in_place(
    staged: Map<Seq<char>, Staged>,
    path: Seq<char>,
    below: Below,
    content: Seq<u8>,
    mode: u16,
    mtime: u64,
    inode: Inode,
    data: Seq<u8>,
    offset: u64,
    to_eof: bool,
    i: int,
)
    requires
        ({
            ||| staged.contains_key(path) && staged[path] == (Staged::Created {
                content,
                mode,
                mtime,
            })
            ||| staged.contains_key(path) && staged[path] == (Staged::Modified {
                content,
                mode,
                mtime,
            })
            ||| !staged.contains_key(path) && inode.mode / 0x1000 == 8 && inode.mode == mode
                && below == (Below::Node { inode, content: Ok(content) })
        }),
        to_eof ==> content.len() + data.len() <= u64::MAX,
        !to_eof ==> offset + data.len() <= u64::MAX,
    ensures
        ({
            let wrote = write_answer(
                staged,
                false,
                path,
                false,
                below,
                data,
                offset,
                to_eof,
                true,
            );
            let new = (wrote->Ok_0.file->0).0;
            &&& wrote is Ok
            &&& to_eof || offset >= content.len() ==> wrote->Ok_0.count == 0
                && wrote->Ok_0.file is None
            &&& !to_eof && offset < content.len() ==> {
                &&& wrote->Ok_0.file is Some
                &&& (wrote->Ok_0.file->0).1 == mode
                &&& new.len() == content.len()
                &&& offset + data.len() <= content.len() ==> wrote->Ok_0.count == data.len()
                &&& offset + data.len() > content.len() ==> wrote->Ok_0.count == content.len()
                    - offset
                &&& 0 <= i < content.len() && offset <= i < offset + data.len() ==> new[i]
                    == data[i - offset]
                &&& 0 <= i < content.len() && !(offset <= i < offset + data.len()) ==> new[i]
                    == content[i]
            }
        }),
{
}

/// A change of size keeps what is in front of the new end and fills up with
/// zeros; the mode stays.
pub proof fn resize_keeps_bytes_and_fills_with_zeros(
    staged: Map<Seq<char>, Staged>,
    path: Seq<char>,
    below: Below,
    content: Seq<u8>,
    mode: u16,
    mtime: u64,
    inode: Inode,
    size: u64,
    i: int,
)
    requires
        ({
            ||| staged.contains_key(path) && staged[path] == (Staged::Created {
                content,
                mode,
                mtime,
            })
            ||| staged.contains_key(path) && staged[path] == (Staged::Modified {
                content,
                mode,
                mtime,
            })
            ||| !staged.contains_key(path) && inode.mode / 0x1000 == 8 && inode.mode == mode
                && below == (Below::Node { inode, content: Ok(content) })
        }),
    ensures
        ({
            let answer = resize_answer(staged, false, path, false, below, size);
            let new = (answer->Ok_0).0;
            &&& answer is Ok
            &&& (answer->Ok_0).1 == mode
            &&& new.len() == size
            &&& 0 <= i < size && i < content.len() ==> new[i] == content[i]
            &&& content.len() <= i < size ==> new[i] == 0
        }),
{
}

/// A write whose end no offset can name is refused, and so is every change
/// of a file on a read-only volume or through the handle of a directory.
pub proof fn writes_are_refused_by_volume_handle_and_range(
    staged: Map<Seq<char>, Staged>,
    path: Seq<char>,
    below: Below,
    content: Seq<u8>,
    mode: u16,
    mtime: u64,
    inode: Inode,
    data: Seq<u8>,
    offset: u64,
    size: u64,
    is_dir: bool,
    to_eof: bool,
    constrained: bool,
)
    ensures
        write_answer(staged, true, path, is_dir, below, data, offset, to_eof, constrained) == Err::<
            Wrote,
            Status,
        >(Status::MediaWriteProtected),
        resize_answer(staged, true, path, is_dir, below, size) == Err::<(Seq<u8>, u16), Status>(
            Status::MediaWriteProtected,
        ),
        write_answer(staged, false, path, true, below, data, offset, to_eof, constrained) == Err::<
            Wrote,
            Status,
        >(Status::InvalidDeviceRequest),
        resize_answer(staged, false, path, true, below, size) == Err::<(Seq<u8>, u16), Status>(
            Status::InvalidDeviceRequest,
        ),
        offset + data.len() > u64::MAX && ({
            ||| staged.contains_key(path) && staged[path] == (Staged::Created {
                content,
                mode,
                mtime,
            })
            ||| staged.contains_key(path) && staged[path] == (Staged::Modified {
                content,
                mode,
                mtime,
            })
            ||| !staged.contains_key(path) && inode.mode / 0x1000 == 8 && below == (Below::Node {
                inode,
                content: Ok(content),
            })
        }) ==> write_answer(staged, false, path, false, below, data, offset, false, constrained)
            == Err::<Wrote, Status>(Status::InvalidDeviceRequest),
        content.len() + data.len() > u64::MAX && ({
            ||| staged.contains_key(path) && staged[path] == (Staged::Created {
                content,
                mode,
                mtime,
            })
            ||| staged.contains_key(path) && staged[path] == (Staged::Modified {
                content,
                mode,
                mtime,
            })
            ||| !staged.contains_key(path) && inode.mode / 0x1000 == 8 && below == (Below::Node {
                inode,
                content: Ok(content),
            })
        }) ==> write_answer(staged, false, path, false, below, data, offset, true, constrained)
            == Err::<Wrote, Status>(Status::InvalidDeviceRequest),
        overwrite_answer(true, is_dir) == Err::<(), Status>(Status::MediaWriteProtected),
        overwrite_answer(false, true) == Err::<(), Status>(Status::InvalidDeviceRequest),
        overwrite_answer(false, false) == Ok::<(), Status>(()),
{
}

/// Where no readable regular file stands, a write or a change of size is
/// refused, and the status says why: a directory or a special file is no
/// target, a tombstone is a name not found, and a failure of the image is
/// passed on.
pub proof fn only_readable_files_can_be_changed(
    staged: Map<Seq<char>, Staged>,
    path: Seq<char>,
    below: Below,
    mode: u16,
    mtime: u64,
    inode: Inode,
    bytes: Result<Seq<u8>, FsError>,
    e: FsError,
    status: Status,
    data: Seq<u8>,
    offset: u64,
    size: u64,
    to_eof: bool,
    constrained: bool,
)
    requires
        ({
            ||| status == Status::InvalidDeviceRequest && staged.contains_key(path) && staged[path]
                == (Staged::CreatedDir { mode, mtime })
            ||| status == Status::ObjectNameNotFound && staged.contains_key(path) && staged[path]
                == Staged::Deleted
            ||| status == Status::InvalidDeviceRequest && !staged.contains_key(path) && inode.mode
                / 0x1000 != 8 && below == (Below::Node { inode, content: bytes })
            ||| status == status_of(e) && !staged.contains_key(path) && inode.mode / 0x1000 == 8
                && below == (Below::Node { inode, content: Err(e) })
            ||| status == status_of(e) && !staged.contains_key(path) && below == Below::Missing(e)
        }),
    ensures
        write_answer(staged, false, path, false, below, data, offset, to_eof, constrained) == Err::<
            Wrote,
            Status,
        >(status),
        resize_answer(staged, false, path, false, below, size) == Err::<(Seq<u8>, u16), Status>(
            status,
        ),
        whole_file(merged(staged, path, below)) == Err::<(Seq<u8>, u16), Status>(status),
{
}

/// Taking a file whole gives its content and mode.
pub proof fn whole_file_is_content_and_mode(
    staged: Map<Seq<char>, Staged>,
    path: Seq<char>,
    below: Below,
    content: Seq<u8>,
    mode: u16,
    mtime: u64,
    inode: Inode,
)
    requires
        ({
            ||| staged.contains_key(path) && staged[path] == (Staged::Created {
                content,
                mode,
                mtime,
            })
            ||| staged.contains_key(path) && staged[path] == (Staged::Modified {
                content,
                mode,
                mtime,
            })
            ||| !staged.contains_key(path) && inode.mode / 0x1000 == 8 && inode.mode == mode
                && below == (Below::Node { inode, content: Ok(content) })
        }),
    ensures
        whole_file(merged(staged, path, below)) == Ok::<(Seq<u8>, u16), Status>((content, mode)),
{
}

/// A failure of the reader is a name not found, unless it is a failure of
/// the device or the format.
pub proof fn reader_failures_have_two_statuses(e: FsError)
    ensures
        e == FsError::NotFound || e == FsError::NotADirectory || e == FsError::NotAFile
            ==> status_of(e) == Status::ObjectNameNotFound,
        e == FsError::Other ==> status_of(e) == Status::InvalidDeviceRequest,
{
}

/// A name is taken by any live entry, and by the image where nothing is
/// staged; a tombstone leaves it free.
pub proof fn name_is_taken_by_entry_or_image(
    staged: Map<Seq<char>, Staged>,
    path: Seq<char>,
    in_image: bool,
)
    ensures
        staged.contains_key(path) && staged[path] == Staged::Deleted ==> !taken(
            staged,
            path,
            in_image,
        ),
        staged.contains_key(path) && staged[path] != Staged::Deleted ==> taken(
            staged,
            path,
            in_image,
        ),
        !staged.contains_key(path) ==> taken(staged, path, in_image) == in_image,
{
}

/// A regular file renames, whatever it holds, if the destination is another
/// path that is free or may be replaced. It stands at the destination as a
/// new file with the same content and mode, its old path is a tombstone,
/// and every other path is as before.
pub proof fn any_file_renames(
    staged: Map<Seq<char>, Staged>,
    from: Seq<char>,
    to: Seq<char>,
    replace: bool,
    source: Below,
    to_in_image: bool,
    now: u64,
    content: Seq<u8>,
    mode: u16,
    mtime: u64,
    inode: Inode,
    other: Seq<char>,
)
    requires
        from != to,
        ({
            ||| staged.contains_key(from) && staged[from] == (Staged::Created {
                content,
                mode,
                mtime,
            })
            ||| staged.contains_key(from) && staged[from] == (Staged::Modified {
                content,
                mode,
                mtime,
            })
            ||| !staged.contains_key(from) && inode.mode / 0x1000 == 8 && inode.mode == mode
                && source == (Below::Node { inode, content: Ok(content) })
        }),
        ({
            ||| replace
            ||| staged.contains_key(to) && staged[to] == Staged::Deleted
            ||| !staged.contains_key(to) && !to_in_image
        }),
    ensures
        ({
            let answer = renamed(staged, from, to, replace, source, to_in_image, now);
            let after = answer->Ok_0;
            &&& answer is Ok
            &&& after.contains_key(to)
            &&& after[to] == (Staged::Created { content, mode, mtime: now })
            &&& after.contains_key(from)
            &&& after[from] == Staged::Deleted
            &&& other != from && other != to ==> after.contains_key(other) == staged.contains_key(
                other,
            )
            &&& other != from && other != to && staged.contains_key(other) ==> after[other]
                == staged[other]
        }),
{
}

/// A directory renames in the same way, be it staged or in the image, and
/// stands at the destination as a new, empty one with the same mode.
pub proof fn any_directory_renames(
    staged: Map<Seq<char>, Staged>,
    from: Seq<char>,
    to: Seq<char>,
    replace: bool,
    source: Below,
    to_in_image: bool,
    now: u64,
    mode: u16,
    mtime: u64,
    inode: Inode,
    bytes: Result<Seq<u8>, FsError>,
    other: Seq<char>,
)
    requires
        from != to,
        ({
            ||| staged.contains_key(from) && staged[from] == (Staged::CreatedDir { mode, mtime })
            ||| !staged.contains_key(from) && inode.mode / 0x1000 == 4 && inode.mode == mode
                && source == (Below::Node { inode, content: bytes })
        }),
        ({
            ||| replace
            ||| staged.contains_key(to) && staged[to] == Staged::Deleted
            ||| !staged.contains_key(to) && !to_in_image
        }),
    ensures
        ({
            let answer = renamed(staged, from, to, replace, source, to_in_image, now);
            let after = answer->Ok_0;
            &&& answer is Ok
            &&& after.contains_key(to)
            &&& after[to] == (Staged::CreatedDir { mode, mtime: now })
            &&& after.contains_key(from)
            &&& after[from] == Staged::Deleted
            &&& other != from && other != to ==> after.contains_key(other) == staged.contains_key(
                other,
            )
            &&& other != from && other != to && staged.contains_key(other) ==> after[other]
                == staged[other]
        }),
{
}

/// A path renames onto itself, and nothing changes.
pub proof fn rename_onto_itself_changes_nothing(
    staged: Map<Seq<char>, Staged>,
    path: Seq<char>,
    replace: bool,
    source: Below,
    to_in_image: bool,
    now: u64,
)
    ensures
        renamed(staged, path, path, replace, source, to_in_image, now) == Ok::<
            Map<Seq<char>, Staged>,
            RenameError,
        >(staged),
{
}

/// What cannot be moved is refused by what it is: a tombstone or nothing at
/// all is not found, a file of the image that cannot be read is
/// unreadable, and anything else is neither file nor directory. The
/// destination plays no part in that.
pub proof fn rename_refuses_other_sources(
    staged: Map<Seq<char>, Staged>,
    from: Seq<char>,
    to: Seq<char>,
    replace: bool,
    source: Below,
    to_in_image: bool,
    now: u64,
    inode: Inode,
    bytes: Result<Seq<u8>, FsError>,
    e: FsError,
    refusal: RenameError,
)
    requires
        from != to,
        ({
            ||| refusal == RenameError::SourceNotFound && staged.contains_key(from) && staged[from]
                == Staged::Deleted
            ||| refusal == RenameError::SourceNotFound && !staged.contains_key(from) && source
                == Below::Missing(e)
            ||| refusal == RenameError::SourceUnreadable && !staged.contains_key(from)
                && inode.mode / 0x1000 == 8 && source == (Below::Node { inode, content: Err(e) })
            ||| refusal == RenameError::SourceNotFileOrDirectory && !staged.contains_key(from)
                && inode.mode / 0x1000 != 8 && inode.mode / 0x1000 != 4 && source == (Below::Node {
                inode,
                content: bytes,
            })
        }),
    ensures
        renamed(staged, from, to, replace, source, to_in_image, now) == Err::<
            Map<Seq<char>, Staged>,
            RenameError,
        >(refusal),
{
}

/// A file or directory does not rename onto a path that is taken, unless
/// that may be replaced.
pub proof fn rename_spares_what_is_there(
    staged: Map<Seq<char>, Staged>,
    from: Seq<char>,
    to: Seq<char>,
    source: Below,
    to_in_image: bool,
    now: u64,
    inode: Inode,
    content: Seq<u8>,
    bytes: Result<Seq<u8>, FsError>,
)
    requires
        from != to,
        ({
            ||| staged.contains_key(from) && staged[from] != Staged::Deleted
            ||| !staged.contains_key(from) && inode.mode / 0x1000 == 8 && source == (Below::Node {
                inode,
                content: Ok(content),
            })
            ||| !staged.contains_key(from) && inode.mode / 0x1000 == 4 && source == (Below::Node {
                inode,
                content: bytes,
            })
        }),
        ({
            ||| staged.contains_key(to) && staged[to] != Staged::Deleted
            ||| !staged.contains_key(to) && to_in_image
        }),
    ensures
        renamed(staged, from, to, false, source, to_in_image, now) == Err::<
            Map<Seq<char>, Staged>,
            RenameError,
        >(RenameError::DestinationExists),
{
}

/// A request to rename is refused on a read-only volume and for a name that
/// is no path. Otherwise it does what renaming the two paths does, with a
/// collision for a destination that exists, a name not found for a source
/// that does not, and an invalid request for any other refusal.
pub proof fn rename_request_renames_the_paths(
    staged: Map<Seq<char>, Staged>,
    read_only: bool,
    name: Seq<u16>,
    new_name: Seq<u16>,
    replace: bool,
    source: Below,
    to_in_image: bool,
    now: u64,
    from: Seq<char>,
    to: Seq<char>,
    after: Map<Seq<char>, Staged>,
)
    ensures
        ({
            let answer = rename_answer(
                staged,
                read_only,
                name,
                new_name,
                replace,
                source,
                to_in_image,
                now,
            );
            let paths = renamed(staged, from, to, replace, source, to_in_image, now);
            let (old_path, new_path) = (
                crate::path::path_of(name),
                crate::path::path_of(new_name),
            );
            &&& read_only ==> answer == Err::<Map<Seq<char>, Staged>, Status>(
                Status::MediaWriteProtected,
            )
            &&& !read_only && (old_path is None || new_path is None) ==> answer == Err::<
                Map<Seq<char>, Staged>,
                Status,
            >(Status::ObjectNameNotFound)
            &&& !read_only && old_path == Some(from) && new_path == Some(to) ==> {
                &&& paths == Ok::<Map<Seq<char>, Staged>, RenameError>(after) ==> answer == Ok::<
                    Map<Seq<char>, Staged>,
                    Status,
                >(after)
                &&& paths == Err::<Map<Seq<char>, Staged>, RenameError>(
                    RenameError::DestinationExists,
                ) ==> answer == Err::<Map<Seq<char>, Staged>, Status>(Status::ObjectNameCollision)
                &&& paths == Err::<Map<Seq<char>, Staged>, RenameError>(
                    RenameError::SourceNotFound,
                ) ==> answer == Err::<Map<Seq<char>, Staged>, Status>(Status::ObjectNameNotFound)
                &&& paths == Err::<Map<Seq<char>, Staged>, RenameError>(
                    RenameError::SourceUnreadable,
                ) ==> answer == Err::<Map<Seq<char>, Staged>, Status>(Status::InvalidDeviceRequest)
                &&& paths == Err::<Map<Seq<char>, Staged>, RenameError>(
                    RenameError::SourceNotFileOrDirectory,
                ) ==> answer == Err::<Map<Seq<char>, Staged>, Status>(Status::InvalidDeviceRequest)
            }
        }),
{
}

/// A read of a file that only the image has ends at the end of the file
/// and nowhere else: below its size it takes as many bytes as there is room
/// for, or all that are left, of the inode of the handle.
pub proof fn image_read_takes_all_there_is_room_for(
    staged: Map<Seq<char>, Staged>,
    path: Seq<char>,
    inode: Inode,
    offset: u64,
    room: nat,
)
    requires
        !staged.contains_key(path),
    ensures
        ({
            let answer = read_answer(staged, path, false, Some(inode), offset, room);
            &&& answer == Err::<Served, Status>(Status::EndOfFile) <==> offset >= inode.size
            &&& answer is Ok <==> offset < inode.size
            &&& offset < inode.size && offset + room <= inode.size ==> answer == Ok::<
                Served,
                Status,
            >(Served::Image(inode.ino, room))
            &&& offset < inode.size && offset + room > inode.size ==> answer == Ok::<
                Served,
                Status,
            >(Served::Image(inode.ino, (inode.size - offset) as nat))
        }),
{
}

/// A read of a staged file gives its bytes from the offset on, as many as
/// there is room for or all that are left, and ends at the end of the file
/// and nowhere else, whatever the image has.
pub proof fn staged_read_gives_all_there_is_room_for(
    staged: Map<Seq<char>, Staged>,
    path: Seq<char>,
    content: Seq<u8>,
    mode: u16,
    mtime: u64,
    inode: Option<Inode>,
    offset: u64,
    room: nat,
    i: int,
)
    requires
        staged.contains_key(path),
        staged[path] == (Staged::Created { content, mode, mtime }) || staged[path] == (
        Staged::Modified { content, mode, mtime }),
    ensures
        ({
            let answer = read_answer(staged, path, false, inode, offset, room);
            let bytes = answer->Ok_0->Bytes_0;
            &&& answer == Err::<Served, Status>(Status::EndOfFile) <==> offset >= content.len()
            &&& offset < content.len() ==> {
                &&& answer is Ok
                &&& answer->Ok_0 is Bytes
                &&& offset + room <= content.len() ==> bytes.len() == room
                &&& offset + room > content.len() ==> bytes.len() == content.len() - offset
                &&& 0 <= i < bytes.len() ==> bytes[i] == content[offset + i]
            }
        }),
{
}

/// A read in two parts gives what one read gives.
pub proof fn reads_join(
    staged: Map<Seq<char>, Staged>,
    path: Seq<char>,
    content: Seq<u8>,
    mode: u16,
    mtime: u64,
    inode: Option<Inode>,
    offset: u64,
    first: nat,
    second: nat,
)
    requires
        staged.contains_key(path),
        staged[path] == (Staged::Created { content, mode, mtime }) || staged[path] == (
        Staged::Modified { content, mode, mtime }),
        offset + first < content.len() <= u64::MAX,
    ensures
        ({
            let next = (offset + first) as u64;
            let a = read_answer(staged, path, false, inode, offset, first);
            let b = read_answer(staged, path, false, inode, next, second);
            let both = read_answer(staged, path, false, inode, offset, first + second);
            &&& a is Ok && a->Ok_0 is Bytes
            &&& b is Ok && b->Ok_0 is Bytes
            &&& both is Ok && both->Ok_0 is Bytes
            &&& both->Ok_0->Bytes_0 == a->Ok_0->Bytes_0 + b->Ok_0->Bytes_0
        }),
{
}

/// A directory is never read as a file, and what is gone, or is in neither
/// place, is not found.
pub proof fn only_files_are_read(
    staged: Map<Seq<char>, Staged>,
    path: Seq<char>,
    mode: u16,
    mtime: u64,
    inode: Option<Inode>,
    offset: u64,
    room: nat,
)
    ensures
        read_answer(staged, path, true, inode, offset, room) == Err::<Served, Status>(
            Status::InvalidDeviceRequest,
        ),
        staged.contains_key(path) && staged[path] == (Staged::CreatedDir { mode, mtime })
            ==> read_answer(staged, path, false, inode, offset, room) == Err::<Served, Status>(
            Status::InvalidDeviceRequest,
        ),
        staged.contains_key(path) && staged[path] == Staged::Deleted ==> read_answer(
            staged,
            path,
            false,
            inode,
            offset,
            room,
        ) == Err::<Served, Status>(Status::ObjectNameNotFound),
        !staged.contains_key(path) ==> read_answer(staged, path, false, None, offset, room)
            == Err::<Served, Status>(Status::ObjectNameNotFound),
{
}

/// A query by name is answered by a resolver's word where there is one.
/// Otherwise it gives the attributes of the live entry at the path, or of
/// the inode in the image where nothing is staged, and is refused where
/// neither is there.
pub proof fn query_tells_attributes_of_what_stands(
    staged: Map<Seq<char>, Staged>,
    read_only: bool,
    security: FileSecurity,
    name: Seq<u16>,
    path: Seq<char>,
    image: Result<Inode, FsError>,
    inode: Inode,
    e: FsError,
)
    requires
        crate::path::path_of(name) == Some(path),
    ensures
        ({
            let answer = security_answer(staged, read_only, None, name, image);
            &&& security_answer(staged, read_only, Some(security), name, image) == Ok::<
                FileSecurity,
                Status,
            >(security)
            &&& answer is Ok <==> {
                ||| staged.contains_key(path) && staged[path] != Staged::Deleted
                ||| !staged.contains_key(path) && image is Ok
            }
            &&& answer is Ok ==> !answer->Ok_0.reparse && answer->Ok_0.sz_security_descriptor == 0
            &&& staged.contains_key(path) && staged[path] == Staged::Deleted ==> answer == Err::<
                FileSecurity,
                Status,
            >(Status::ObjectNameNotFound)
            &&& staged.contains_key(path) && staged[path] is CreatedDir
                ==> answer->Ok_0.attributes == crate::info::attributes(read_only, true, false)
            &&& staged.contains_key(path) && (staged[path] is Created || staged[path] is Modified)
                ==> answer->Ok_0.attributes == crate::info::attributes(read_only, false, false)
            &&& !staged.contains_key(path) && image == Ok::<Inode, FsError>(inode)
                ==> answer->Ok_0.attributes == crate::info::attributes(
                read_only,
                inode.mode / 0x1000 == 4,
                inode.mode / 0x1000 == 10,
            )
            &&& !staged.contains_key(path) && image == Err::<Inode, FsError>(e) ==> answer == Err::<
                FileSecurity,
                Status,
            >(status_of(e))
        }),
{
}

/// An open finds the live entry at the path, or the inode in the image
/// where nothing is staged, and is refused where neither is there. It tells
/// of what it found, and only a file of the image has an inode.
pub proof fn open_finds_what_stands(
    staged: Map<Seq<char>, Staged>,
    read_only: bool,
    name: Seq<u16>,
    path: Seq<char>,
    image: Result<Inode, FsError>,
    inode: Inode,
    e: FsError,
)
    requires
        crate::path::path_of(name) == Some(path),
    ensures
        ({
            let answer = open_answer(staged, read_only, name, image);
            let opened = answer->Ok_0;
            &&& answer is Ok <==> {
                ||| staged.contains_key(path) && staged[path] != Staged::Deleted
                ||| !staged.contains_key(path) && image is Ok
            }
            &&& answer is Ok ==> opened.0 == path
            &&& staged.contains_key(path) && staged[path] == Staged::Deleted ==> answer == Err::<
                (Seq<char>, Option<Inode>, bool, FileInfo),
                Status,
            >(Status::ObjectNameNotFound)
            &&& staged.contains_key(path) && staged[path] != Staged::Deleted ==> {
                &&& opened.1 is None
                &&& opened.2 == (staged[path] is CreatedDir)
                &&& opened.3 == crate::info::staged_info(staged[path], read_only)
            }
            &&& !staged.contains_key(path) && image == Ok::<Inode, FsError>(inode) ==> {
                &&& opened.1 == Some(inode)
                &&& opened.2 == (inode.mode / 0x1000 == 4)
                &&& opened.3 == crate::info::inode_info(inode, read_only)
            }
            &&& !staged.contains_key(path) && image == Err::<Inode, FsError>(e) ==> answer == Err::<
                (Seq<char>, Option<Inode>, bool, FileInfo),
                Status,
            >(status_of(e))
        }),
{
}

/// An open handle is told of the live entry at its path, and of its inode
/// where nothing is staged; a tombstone, or neither of the two, is a name
/// not found.
pub proof fn handle_is_told_of_what_stands(
    staged: Map<Seq<char>, Staged>,
    read_only: bool,
    path: Seq<char>,
    inode: Option<Inode>,
)
    ensures
        ({
            let answer = info_answer(staged, read_only, path, inode);
            &&& staged.contains_key(path) && staged[path] != Staged::Deleted ==> answer == Ok::<
                FileInfo,
                Status,
            >(crate::info::staged_info(staged[path], read_only))
            &&& !staged.contains_key(path) && inode is Some ==> answer == Ok::<FileInfo, Status>(
                crate::info::inode_info(inode->0, read_only),
            )
            &&& staged.contains_key(path) && staged[path] == Staged::Deleted ==> answer == Err::<
                FileInfo,
                Status,
            >(Status::ObjectNameNotFound)
            &&& !staged.contains_key(path) && inode is None ==> answer == Err::<FileInfo, Status>(
                Status::ObjectNameNotFound,
            )
        }),
{
}

/// A name that is no path can be neither queried, opened nor created.
pub proof fn ill_formed_names_are_not_found(
    staged: Map<Seq<char>, Staged>,
    read_only: bool,
    name: Seq<u16>,
    image: Result<Inode, FsError>,
    attributes: u32,
    in_image: bool,
    now: u64,
)
    requires
        crate::path::path_of(name) is None,
    ensures
        security_answer(staged, read_only, None, name, image) == Err::<FileSecurity, Status>(
            Status::ObjectNameNotFound,
        ),
        open_answer(staged, read_only, name, image) == Err::<
            (Seq<char>, Option<Inode>, bool, FileInfo),
            Status,
        >(Status::ObjectNameNotFound),
        create_answer(staged, false, name, attributes, in_image, now) == Err::<
            (Seq<char>, Staged),
            Status,
        >(Status::ObjectNameNotFound),
{
}

/// A name that is free can be created on a writable volume: as an empty
/// directory where the directory attribute is set, else as an empty file,
/// stamped with the time of the request. A live entry takes a name, and so
/// does the image where nothing is staged; a tombstone leaves it free.
pub proof fn free_name_is_created_empty(
    staged: Map<Seq<char>, Staged>,
    name: Seq<u16>,
    path: Seq<char>,
    attributes: u32,
    in_image: bool,
    now: u64,
)
    requires
        crate::path::path_of(name) == Some(path),
    ensures
        ({
            let answer = create_answer(staged, false, name, attributes, in_image, now);
            let free = {
                ||| staged.contains_key(path) && staged[path] == Staged::Deleted
                ||| !staged.contains_key(path) && !in_image
            };
            &&& create_answer(staged, true, name, attributes, in_image, now) == Err::<
                (Seq<char>, Staged),
                Status,
            >(Status::MediaWriteProtected)
            &&& !free ==> answer == Err::<(Seq<char>, Staged), Status>(Status::ObjectNameCollision)
            &&& free ==> answer is Ok && (answer->Ok_0).0 == path
            &&& free && attributes & 0x10 != 0 ==> (answer->Ok_0).1 == (Staged::CreatedDir {
                mode: 0x41ED,
                mtime: now,
            })
            &&& free && attributes & 0x10 == 0 ==> {
                let entry = (answer->Ok_0).1;
                &&& entry is Created
                &&& entry->Created_content.len() == 0
                &&& entry->Created_mode == 0x81A4
                &&& entry->Created_mtime == now
            }
        }),
{
}

/// The view of a staged entry is the entry.
pub proof fn staged_view_is_the_entry(content: Vec<u8>, mode: u16, mtime: u64)
    ensures
        (OverlayEntry::Created { content, mode, mtime })@ == (Staged::Created {
            content: content@,
            mode,
            mtime,
        }),
        (OverlayEntry::Modified { content, mode, mtime })@ == (Staged::Modified {
            content: content@,
            mode,
            mtime,
        }),
        (OverlayEntry::CreatedDir { mode, mtime })@ == (Staged::CreatedDir { mode, mtime }),
        OverlayEntry::Deleted@ == Staged::Deleted,
{
}

/// The model of what the image holds is what it holds.
pub proof fn underlay_view_is_the_node(inode: Inode, bytes: Vec<u8>, e: FsError)
    ensures
        UnderlayNode::Missing(e)@ == Below::Missing(e),
        (UnderlayNode::Node { inode, content: Ok(bytes) })@ == (Below::Node {
            inode,
            content: Ok(bytes@),
        }),
        (UnderlayNode::Node { inode, content: Err(e) })@ == (Below::Node {
            inode,
            content: Err(e),
        }),
        (Below::Node { inode, content: Ok(bytes@) }).fits() <==> bytes@.len() <= isize::MAX,
        (Below::Node { inode, content: Err(e) }).fits(),
        Below::Missing(e).fits(),
{
}

/// The model of what stands at a path is what stands there.
pub proof fn resolved_view_is_what_stands(content: Vec<u8>, mode: u16, e: FsError)
    ensures
        (Resolved::File { content, mode })@ == (Merged::File { content: content@, mode }),
        (Resolved::StagedDir { mode })@ == (Merged::StagedDir { mode }),
        Resolved::Tombstone@ == Merged::Tombstone,
        (Resolved::ImageDir { mode })@ == (Merged::ImageDir { mode }),
        Resolved::Special@ == Merged::Special,
        Resolved::Unreadable(e)@ == Merged::Unreadable(e),
        Resolved::Missing(e)@ == Merged::Missing(e),
{
}

/// A fresh mount is writable, has nothing staged and keeps nothing; a
/// request that keeps the settings keeps all of the mount but what is
/// staged, and one that keeps the volume keeps its label and size besides.
pub proof fn mounts_start_writable_and_empty(
    mount: Mount,
    other: Mount,
    image: std::path::PathBuf,
    volume: XfsContext,
    before: XfsContext,
)
    ensures
        mount.fresh(image) ==> {
            &&& mount.image == image
            &&& mount.overlay@.dom().len() == 0
            &&& forall|path: Seq<char>| !#[trigger] mount.overlay@.contains_key(path)
            &&& mount.dismount_policy == DismountPolicy::Discard
            &&& mount.write_mode == WriteMode::Writable
        },
        mount.same_settings(other) ==> mount.image == other.image && mount.dismount_policy
            == other.dismount_policy && mount.write_mode == other.write_mode,
        volume.same_volume(before) ==> {
            &&& volume.mount.image == before.mount.image
            &&& volume.mount.dismount_policy == before.mount.dismount_policy
            &&& volume.mount.write_mode == before.mount.write_mode
            &&& volume.label == before.label
            &&& volume.total_size == before.total_size
        },
        volume.read_only() <==> volume.mount.write_mode == WriteMode::ReadOnly,
{
}

/// A fresh handle is for its path, inode and kind, is not marked for
/// deletion and has no listing. A handle is in order while its inode's size
/// can be rounded up to whole blocks and its listing, where it has one, is
/// in name order.
pub proof fn handles_start_unmarked(
    handle: XfsFileContext,
    path: Seq<char>,
    inode: Option<Inode>,
    is_dir: bool,
)
    ensures
        handle.fresh(path, inode, is_dir) ==> {
            &&& handle.unix_path@ == path
            &&& handle.inode == inode
            &&& handle.is_dir == is_dir
            &&& handle.pending_delete == false
            &&& handle.dir_listing is None
        },
        handle.dir_listing is None ==> (handle.wf() <==> (handle.inode is Some
            ==> handle.inode->0.size <= 0xFFFF_FFFF_FFFF_F000)),
        handle.wf() && handle.dir_listing is Some ==> crate::listing::sorted(
            crate::listing::entries(handle.dir_listing->0@),
        ),
{
}

/// A marker is read as the name that its units stand for, as far as they
/// are well-formed.
pub proof fn marker_is_read_as_a_name(units: &[u16], name: Seq<char>)
    ensures
        marker_name(None) is None,
        marker_name(Some(units)) == Some(crate::utf16::lossy_text(units@)),
        units@ == crate::utf16::utf16(name) ==> marker_name(Some(units)) == Some(name),
{
    crate::utf16::lossy_text_of_utf16(name);
}

/// A refused rename says why, and a refusal in words is an error with those
/// words.
pub proof fn refusals_say_why(r: Result<(), &'static str>, words: Seq<char>)
    ensures
        RenameError::SourceNotFound.text() == "rename: source not found"@,
        RenameError::SourceUnreadable.text() == "underlay read error"@,
        RenameError::SourceNotFileOrDirectory.text()
            == "rename: source is not a file or directory"@,
        RenameError::DestinationExists.text() == "rename: destination exists"@,
        says(r, words) <==> r is Err && r->Err_0@ == words,
{
}

/// By path, a file is read whole as it stands. A write puts the data where
/// it is to go and keeps the rest, with zeros in a gap; a new size keeps
/// the front and fills up with zeros. Both keep the mode and touch no other
/// path. A write whose end no offset can name is refused.
pub proof fn paths_of_files_are_read_written_and_resized(
    staged: Map<Seq<char>, Staged>,
    path: Seq<char>,
    below: Below,
    content: Seq<u8>,
    mode: u16,
    mtime: u64,
    inode: Inode,
    data: Seq<u8>,
    offset: u64,
    size: u64,
    now: u64,
    other: Seq<char>,
    i: int,
)
    requires
        ({
            ||| staged.contains_key(path) && staged[path] == (Staged::Created {
                content,
                mode,
                mtime,
            })
            ||| staged.contains_key(path) && staged[path] == (Staged::Modified {
                content,
                mode,
                mtime,
            })
            ||| !staged.contains_key(path) && inode.mode / 0x1000 == 8 && inode.mode == mode
                && below == (Below::Node { inode, content: Ok(content) })
        }),
    ensures
        path_read(staged, path, below) == Ok::<Seq<u8>, Seq<char>>(content),
        ({
            let end = offset + data.len();
            let wrote = path_written(staged, path, below, offset, data, now);
            let after = wrote->Ok_0;
            let new = after[path].file()->0;
            &&& end > u64::MAX ==> wrote == Err::<Map<Seq<char>, Staged>, Seq<char>>(
                "offset+len overflow"@,
            )
            &&& end <= u64::MAX ==> {
                &&& wrote is Ok
                &&& after.contains_key(path)
                &&& after[path] == (Staged::Created { content: new, mode, mtime: now })
                    || after[path] == (Staged::Modified { content: new, mode, mtime: now })
                &&& end <= content.len() ==> new.len() == content.len()
                &&& end > content.len() ==> new.len() == end
                &&& offset <= i < end ==> new[i] == data[i - offset]
                &&& 0 <= i < content.len() && !(offset <= i < end) ==> new[i] == content[i]
                &&& content.len() <= i < offset ==> new[i] == 0
                &&& other != path ==> after.contains_key(other) == staged.contains_key(other)
                &&& other != path && staged.contains_key(other) ==> after[other] == staged[other]
            }
        }),
        ({
            let resized = path_resized(staged, path, below, size, now);
            let after = resized->Ok_0;
            let new = after[path].file()->0;
            &&& resized is Ok
            &&& after.contains_key(path)
            &&& after[path] == (Staged::Created { content: new, mode, mtime: now }) || after[path]
                == (Staged::Modified { content: new, mode, mtime: now })
            &&& new.len() == size
            &&& 0 <= i < size && i < content.len() ==> new[i] == content[i]
            &&& content.len() <= i < size ==> new[i] == 0
            &&& other != path ==> after.contains_key(other) == staged.contains_key(other)
            &&& other != path && staged.contains_key(other) ==> after[other] == staged[other]
        }),
{
}

/// By path, what is no file that can be read is refused in words of its
/// own: a staged directory, a tombstone, a path that is missing, what is
/// no regular file in the image, and a file there that cannot be read.
pub proof fn other_paths_are_refused_in_words(
    staged: Map<Seq<char>, Staged>,
    path: Seq<char>,
    mode: u16,
    mtime: u64,
    inode: Inode,
    bytes: Result<Seq<u8>, FsError>,
    e: FsError,
    below: Below,
    data: Seq<u8>,
    offset: u64,
    size: u64,
    now: u64,
)
    ensures
        ({
            let read = path_read(staged, path, below);
            let wrote = path_written(staged, path, below, offset, data, now);
            let resized = path_resized(staged, path, below, size, now);
            &&& staged.contains_key(path) && staged[path] == (Staged::CreatedDir { mode, mtime })
                ==> {
                &&& read == Err::<Seq<u8>, Seq<char>>("not a regular file"@)
                &&& wrote == Err::<Map<Seq<char>, Staged>, Seq<char>>("write on directory"@)
                &&& resized == Err::<Map<Seq<char>, Staged>, Seq<char>>("set_size on directory"@)
            }
            &&& staged.contains_key(path) && staged[path] == Staged::Deleted ==> {
                &&& read == Err::<Seq<u8>, Seq<char>>("not found"@)
                &&& wrote == Err::<Map<Seq<char>, Staged>, Seq<char>>("write on tombstoned path"@)
                &&& resized == Err::<Map<Seq<char>, Staged>, Seq<char>>(
                    "set_size on tombstoned path"@,
                )
            }
            &&& !staged.contains_key(path) && below == Below::Missing(e) ==> {
                &&& read == Err::<Seq<u8>, Seq<char>>("not found"@)
                &&& wrote == Err::<Map<Seq<char>, Staged>, Seq<char>>("write on missing path"@)
                &&& resized == Err::<Map<Seq<char>, Staged>, Seq<char>>("set_size on missing path"@)
            }
            &&& !staged.contains_key(path) && inode.mode / 0x1000 != 8 && below == (Below::Node {
                inode,
                content: bytes,
            }) ==> {
                &&& read == Err::<Seq<u8>, Seq<char>>("not a regular file"@)
                &&& wrote == Err::<Map<Seq<char>, Staged>, Seq<char>>(
                    "write on non-regular underlay entry"@,
                )
                &&& resized == Err::<Map<Seq<char>, Staged>, Seq<char>>(
                    "set_size on non-regular underlay entry"@,
                )
            }
            &&& !staged.contains_key(path) && inode.mode / 0x1000 == 8 && below == (Below::Node {
                inode,
                content: Err(e),
            }) ==> {
                &&& read == Err::<Seq<u8>, Seq<char>>("underlay read error"@)
                &&& wrote == Err::<Map<Seq<char>, Staged>, Seq<char>>("underlay read error"@)
                &&& resized == Err::<Map<Seq<char>, Staged>, Seq<char>>("underlay read error"@)
            }
        }),
{
}

/// A volume is opened on the whole device, unless a partition other than
/// the zeroth is asked for.
pub proof fn volume_is_the_device_or_a_partition(parts: Seq<Partition>, n: usize, size: u64)
    ensures
        volume_slice(None, parts, size) == Ok::<(nat, nat), OpenError>((0, size as nat)),
        volume_slice(Some(0), parts, size) == volume_slice(None, parts, size),
        n != 0 ==> volume_slice(Some(n), parts, size) == partition_slice(parts, n, size),
{
}

/// A read that lies within a slice goes to the same distance from the
/// slice's start on the device, and stays within it; any other is refused
/// with the number of bytes there are.
pub proof fn slice_reads_stay_in_place(first: nat, size: nat, offset: u64, want: usize)
    requires
        size <= u64::MAX,
    ensures
        ({
            let place = read_place(first, size, offset, want);
            &&& place is Ok <==> offset + want <= size
            &&& place is Ok ==> place->Ok_0 - first == offset && place->Ok_0 + want <= first + size
            &&& offset + want > u64::MAX || (offset >= size && want > 0) ==> place->Err_0 == 0
            &&& place is Err && offset + want <= u64::MAX && offset < size ==> offset
                + place->Err_0 == size
        }),
{
}

/// A read puts the bytes that it gives at the front of the buffer and says
/// how many they are; nothing else of the buffer changes.
pub proof fn read_lands_at_the_front(
    bytes: Seq<u8>,
    ino: u64,
    take: nat,
    status: Status,
    before: Seq<u8>,
    r: Result<ReadStep, Status>,
    after: Seq<u8>,
    i: int,
)
    requires
        bytes.len() <= before.len(),
        bytes.len() <= u32::MAX,
        take <= usize::MAX,
    ensures
        read_lands(Ok(Served::Bytes(bytes)), before, r, after) ==> {
            &&& r is Ok && r->Ok_0 is Done && r->Ok_0->Done_0 == bytes.len()
            &&& after.len() == before.len()
            &&& 0 <= i < bytes.len() ==> after[i] == bytes[i]
            &&& bytes.len() <= i < before.len() ==> after[i] == before[i]
        },
        read_lands(Ok(Served::Image(ino, take)), before, r, after) ==> {
            &&& r is Ok && r->Ok_0 is FromImage
            &&& r->Ok_0->FromImage_ino == ino
            &&& r->Ok_0->FromImage_take == take
            &&& after == before
        },
        read_lands(Err(status), before, r, after) ==> r == Err::<ReadStep, Status>(status) && after
            == before,
{
}

/// The image is asked exactly for a valid name at whose path nothing is
/// staged.
pub proof fn image_is_asked_where_nothing_is_staged(
    staged: Map<Seq<char>, Staged>,
    name: Seq<u16>,
    path: Seq<char>,
)
    ensures
        image_lookup(staged, name) == Some(path) <==> crate::path::path_of(name) == Some(path)
            && !staged.contains_key(path),
        image_lookup(staged, name) is None <==> {
            ||| crate::path::path_of(name) is None
            ||| staged.contains_key(crate::path::path_of(name)->0)
        },
{
}

/// Only a directory is listed. A listing is built anew each time, but for
/// one that a read-only volume has kept.
pub proof fn listing_is_kept_on_read_only_volumes(read_only: bool, kept: bool)
    ensures
        listing_due(read_only, false, kept) == Err::<bool, Status>(Status::NotADirectory),
        listing_due(false, true, kept) == Ok::<bool, Status>(true),
        listing_due(true, true, false) == Ok::<bool, Status>(true),
        listing_due(true, true, true) == Ok::<bool, Status>(false),
{
}

/// A read-only volume has no space left, a writable one as much as its
/// size, up to 1 GiB; one without a label is shown as `xfs`.
pub proof fn volume_facts_are_reported(total: u64, label: Seq<char>)
    ensures
        free_space(true, total) == 0,
        free_space(false, total) <= total,
        free_space(false, total) <= 1073741824,
        free_space(false, total) == total || free_space(false, total) == 1073741824,
        label.len() > 0 ==> shown_label(label) == label,
        label.len() == 0 ==> shown_label(label) == "xfs"@,
{
}

/// On a writable volume a handle is marked for deletion as was last asked,
/// and cleaning up a marked one leaves a tombstone at its path and every
/// other path as it was. Nothing happens for a handle that is not marked,
/// or on a read-only volume, where the mark is refused.
pub proof fn marked_handles_leave_a_tombstone(
    staged: Map<Seq<char>, Staged>,
    path: Seq<char>,
    marked: bool,
    asked: bool,
    other: Seq<char>,
)
    ensures
        mark_answer(true, marked, asked) == (
            Err::<(), Status>(Status::MediaWriteProtected),
            marked,
        ),
        mark_answer(false, marked, asked) == (Ok::<(), Status>(()), asked),
        cleaned_up(staged, true, path, marked) == staged,
        cleaned_up(staged, false, path, false) == staged,
        ({
            let after = cleaned_up(staged, false, path, true);
            &&& after.contains_key(path)
            &&& after[path] == Staged::Deleted
            &&& other != path ==> after.contains_key(other) == staged.contains_key(other)
            &&& other != path && staged.contains_key(other) ==> after[other] == staged[other]
        }),
{
}

/// New attributes and times are accepted without effect, except for a path
/// that is gone. What is told is the live entry, or the handle's inode
/// where nothing is staged.
pub proof fn new_attributes_are_accepted_unless_gone(
    staged: Map<Seq<char>, Staged>,
    read_only: bool,
    path: Seq<char>,
    inode: Option<Inode>,
)
    ensures
        ({
            let answer = basic_answer(staged, read_only, path, inode);
            &&& answer is Err <==> staged.contains_key(path) && staged[path] == Staged::Deleted
            &&& answer is Err ==> answer->Err_0 == Status::ObjectNameNotFound
            &&& staged.contains_key(path) && staged[path] != Staged::Deleted ==> answer->Ok_0
                == Some(crate::info::staged_info(staged[path], read_only))
            &&& !staged.contains_key(path) && inode is Some ==> answer->Ok_0 == Some(
                crate::info::inode_info(inode->0, read_only),
            )
            &&& !staged.contains_key(path) && inode is None ==> answer->Ok_0 is None
        }),
{
}

/// A volume is mounted with sectors as large as its blocks, up to 4 KiB.
pub proof fn sectors_are_blocks_up_to_a_bound(blocksize: u32)
    ensures
        sector_for(blocksize) <= blocksize,
        sector_for(blocksize) <= 4096,
        sector_for(blocksize) == blocksize || sector_for(blocksize) == 4096,
{
}

} // verus!
