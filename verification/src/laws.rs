//! What holds of a mounted volume from one request to the next.

use vstd::prelude::*;

use crate::context::{
    create_answer, info_answer, open_answer, overwrite_answer, read_answer, rename_answer,
    resize_answer, security_answer, whole_file, write_answer, Served, Wrote,
};
use crate::info::{FileSecurity, Inode};
use crate::listing::{is_listing, named, Listed};
use crate::mount::{
    image_has, merged, moved, patched, renamed, resized, taken, with_file, Below, Merged,
};
use crate::overlay::Staged;
use crate::status::{FsError, Status};

verus! {

/// Where something is staged, the image has no say: the path is the same
/// whatever lies below.
pub proof fn overlay_hides_image(
    staged: Map<Seq<char>, Staged>,
    path: Seq<char>,
    one: Below,
    other: Below,
)
    requires
        staged.contains_key(path),
    ensures
        merged(staged, path, one) == merged(staged, path, other),
{
}

/// A volume on which nothing is staged, or whose overlay was cleared, shows
/// the image as it is.
pub proof fn empty_overlay_shows_image(path: Seq<char>, below: Below)
    ensures
        merged(Map::empty(), path, below) == image_has(below),
{
}

/// A tombstone hides what the image has: the path is gone, cannot be
/// opened or written, and its name is free.
pub proof fn tombstone_hides_image(
    staged: Map<Seq<char>, Staged>,
    name: Seq<u16>,
    below: Below,
    image: Result<Inode, FsError>,
    in_image: bool,
    read_only: bool,
)
    requires
        crate::path::path_of(name) is Some,
    ensures
        ({
            let path = crate::path::path_of(name)->0;
            let after = staged.insert(path, Staged::Deleted);
            &&& merged(after, path, below) == Merged::Tombstone
            &&& whole_file(merged(after, path, below)) == Err::<(Seq<u8>, u16), Status>(
                Status::ObjectNameNotFound,
            )
            &&& open_answer(after, read_only, name, image) is Err
            &&& open_answer(after, read_only, name, image)->Err_0 == Status::ObjectNameNotFound
            &&& !taken(after, path, in_image)
        }),
{
}

/// What `patched` makes of a file: the data where it was put, the old bytes
/// around it, zeros in a gap, and no more.
pub proof fn patch_keeps_the_rest(content: Seq<u8>, offset: nat, data: Seq<u8>)
    ensures
        ({
            let new = patched(content, offset as int, data);
            let end = offset + data.len();
            &&& new.len() == if end > content.len() {
                end
            } else {
                content.len()
            }
            &&& new.subrange(offset as int, end as int) == data
            &&& forall|i: int|
                0 <= i < content.len() && !(offset <= i < end) ==> #[trigger] new[i] == content[i]
            &&& forall|i: int| content.len() <= i < offset ==> #[trigger] new[i] == 0
        }),
{
    let new = patched(content, offset as int, data);
    assert(new.subrange(offset as int, (offset + data.len()) as int) == data);
}

/// Content staged for a path is what the path holds from then on, whatever
/// the image has there; every other path is as before.
pub proof fn staged_content_reads_back(
    staged: Map<Seq<char>, Staged>,
    path: Seq<char>,
    content: Seq<u8>,
    mode: u16,
    now: u64,
    below: Below,
    other: Seq<char>,
)
    ensures
        merged(with_file(staged, path, content, mode, now), path, below) == (Merged::File {
            content,
            mode,
        }),
        other != path ==> merged(with_file(staged, path, content, mode, now), other, below)
            == merged(staged, other, below),
{
}

/// A read of what was just written gives back what was written.
pub proof fn read_gives_back_write(
    staged: Map<Seq<char>, Staged>,
    path: Seq<char>,
    below: Below,
    data: Seq<u8>,
    offset: u64,
    now: u64,
    inode: Option<Inode>,
)
    requires
        data.len() > 0,
        write_answer(staged, false, path, false, below, data, offset, false, false) is Ok,
    ensures
        ({
            let wrote = write_answer(
                staged,
                false,
                path,
                false,
                below,
                data,
                offset,
                false,
                false,
            )->Ok_0;
            &&& wrote.count == data.len()
            &&& wrote.file is Some
            &&& read_answer(
                with_file(staged, path, (wrote.file->0).0, (wrote.file->0).1, now),
                path,
                false,
                inode,
                offset,
                data.len(),
            ) == Ok::<Served, Status>(Served::Bytes(data))
        }),
{
    let content = whole_file(merged(staged, path, below))->Ok_0.0;
    patch_keeps_the_rest(content, offset as nat, data);
    let new = patched(content, offset as int, data);
    assert(new.subrange(offset as int, offset + data.len()) == data);
}

/// A write to the end of a file appends.
pub proof fn write_to_eof_appends(
    staged: Map<Seq<char>, Staged>,
    path: Seq<char>,
    below: Below,
    data: Seq<u8>,
    offset: u64,
)
    requires
        write_answer(staged, false, path, false, below, data, offset, true, false) is Ok,
    ensures
        ({
            let old_content = whole_file(merged(staged, path, below))->Ok_0.0;
            let wrote = write_answer(
                staged,
                false,
                path,
                false,
                below,
                data,
                offset,
                true,
                false,
            )->Ok_0;
            wrote.count == data.len() && wrote.file is Some && (wrote.file->0).0 == old_content + data
        }),
{
    let content = whole_file(merged(staged, path, below))->Ok_0.0;
    assert(patched(content, content.len() as int, data) == content + data);
}

/// A constrained write never changes the size of a file, and takes no more
/// bytes than there are.
pub proof fn constrained_write_keeps_size(
    staged: Map<Seq<char>, Staged>,
    path: Seq<char>,
    below: Below,
    data: Seq<u8>,
    offset: u64,
    to_eof: bool,
)
    requires
        write_answer(staged, false, path, false, below, data, offset, to_eof, true) is Ok,
    ensures
        ({
            let old_content = whole_file(merged(staged, path, below))->Ok_0.0;
            let wrote = write_answer(
                staged,
                false,
                path,
                false,
                below,
                data,
                offset,
                to_eof,
                true,
            )->Ok_0;
            &&& wrote.count <= data.len()
            &&& wrote.file is None ==> wrote.count == 0
            &&& wrote.file matches Some((content, _)) ==> content.len() == old_content.len()
        }),
{
}

/// Two writes end to end are one write of both.
pub proof fn consecutive_writes_join(content: Seq<u8>, offset: nat, first: Seq<u8>, second: Seq<u8>)
    ensures
        patched(
            patched(content, offset as int, first),
            (offset + first.len()) as int,
            second,
        ) == patched(content, offset as int, first + second),
{
    let one = patched(content, offset as int, first);
    let two = patched(one, (offset + first.len()) as int, second);
    let whole = patched(content, offset as int, first + second);
    assert(two.len() == whole.len());
    assert forall|i: int| 0 <= i < two.len() implies two[i] == whole[i] by {
        if offset <= i < offset + first.len() {
            assert((first + second)[i - offset] == first[i - offset]);
        } else if offset + first.len() <= i < offset + first.len() + second.len() {
            assert((first + second)[i - offset] == second[i - offset - first.len()]);
        }
    }
    assert(two == whole);
}

/// Of two writes to the same place, the later one stands.
pub proof fn later_write_stands(content: Seq<u8>, offset: nat, first: Seq<u8>, second: Seq<u8>)
    requires
        first.len() == second.len(),
    ensures
        patched(patched(content, offset as int, first), offset as int, second) == patched(
            content,
            offset as int,
            second,
        ),
{
    assert(patched(patched(content, offset as int, first), offset as int, second) =~= patched(
        content,
        offset as int,
        second,
    ));
}

/// A new size keeps the bytes that both sizes have, and extending a file
/// and cutting it back restores it.
pub proof fn resize_keeps_the_front(content: Seq<u8>, size: nat)
    ensures
        resized(content, size).len() == size,
        size <= content.len() ==> resized(content, size) == content.take(size as int),
        size >= content.len() ==> resized(content, size).take(content.len() as int) == content,
        size >= content.len() ==> resized(resized(content, size), content.len()) == content,
        forall|i: int| content.len() <= i < size ==> #[trigger] resized(content, size)[i] == 0,
{
    if size <= content.len() {
        assert(resized(content, size) == content.take(size as int));
    } else {
        assert(resized(content, size).take(content.len() as int) == content);
        assert(resized(resized(content, size), content.len()) == content);
    }
}

/// What a path holds after it was moved to: the same file, or an empty
/// directory of the same mode.
pub open spec fn moved_to(source: Merged) -> Merged {
    match source {
        Merged::ImageDir { mode } => Merged::StagedDir { mode },
        _ => source,
    }
}

/// A rename moves what stood at the source to the destination, content and
/// mode; the source is gone, whatever the image has there, and no other
/// path changes.
pub proof fn rename_moves(
    staged: Map<Seq<char>, Staged>,
    from: Seq<char>,
    to: Seq<char>,
    replace: bool,
    source: Below,
    to_in_image: bool,
    now: u64,
    below: Below,
    other: Seq<char>,
)
    requires
        from != to,
        renamed(staged, from, to, replace, source, to_in_image, now) is Ok,
    ensures
        ({
            let after = renamed(staged, from, to, replace, source, to_in_image, now)->Ok_0;
            let what = merged(staged, from, source);
            &&& what is File || what is StagedDir || what is ImageDir
            &&& merged(after, to, below) == moved_to(what)
            &&& merged(after, from, below) == Merged::Tombstone
            &&& other != from && other != to ==> merged(after, other, below) == merged(
                staged,
                other,
                below,
            )
        }),
{
}

/// A rename to a taken name is refused unless it may replace it; otherwise
/// a file or directory can always be renamed.
pub proof fn rename_succeeds_iff(
    staged: Map<Seq<char>, Staged>,
    from: Seq<char>,
    to: Seq<char>,
    replace: bool,
    source: Below,
    to_in_image: bool,
    now: u64,
)
    ensures
        renamed(staged, from, to, replace, source, to_in_image, now) is Ok <==> from == to || (
        moved(merged(staged, from, source), now) is Ok && (replace || !taken(
            staged,
            to,
            to_in_image,
        ))),
{
}

/// Renaming a path and renaming it back puts the content and mode back,
/// without leave to replace: the tombstone keeps the old name free.
pub proof fn rename_back_restores(
    staged: Map<Seq<char>, Staged>,
    from: Seq<char>,
    to: Seq<char>,
    replace: bool,
    source: Below,
    to_in_image: bool,
    now: u64,
    again: Below,
    from_in_image: bool,
    later: u64,
    below: Below,
)
    requires
        from != to,
        renamed(staged, from, to, replace, source, to_in_image, now) is Ok,
    ensures
        ({
            let after = renamed(staged, from, to, replace, source, to_in_image, now)->Ok_0;
            let back = renamed(after, to, from, false, again, from_in_image, later);
            &&& back is Ok
            &&& merged(back->Ok_0, from, below) == moved_to(merged(staged, from, source))
            &&& merged(back->Ok_0, to, below) == Merged::Tombstone
        }),
{
}

/// A read-only mount refuses every change with the same status.
pub proof fn read_only_mount_refuses_changes(
    staged: Map<Seq<char>, Staged>,
    name: Seq<u16>,
    new_name: Seq<u16>,
    path: Seq<char>,
    is_dir: bool,
    below: Below,
    data: Seq<u8>,
    number: u64,
    flag: bool,
    other_flag: bool,
    attributes: u32,
    now: u64,
)
    ensures
        create_answer(staged, true, name, attributes, flag, now) is Err,
        create_answer(staged, true, name, attributes, flag, now)->Err_0
            == Status::MediaWriteProtected,
        write_answer(staged, true, path, is_dir, below, data, number, flag, other_flag) == Err::<
            Wrote,
            Status,
        >(Status::MediaWriteProtected),
        resize_answer(staged, true, path, is_dir, below, number) is Err,
        resize_answer(staged, true, path, is_dir, below, number)->Err_0
            == Status::MediaWriteProtected,
        overwrite_answer(true, is_dir) == Err::<(), Status>(Status::MediaWriteProtected),
        rename_answer(staged, true, name, new_name, flag, below, other_flag, now) is Err,
        rename_answer(staged, true, name, new_name, flag, below, other_flag, now)->Err_0
            == Status::MediaWriteProtected,
{
}

/// A name that was just created opens as what was created, holds no bytes,
/// and cannot be created again.
pub proof fn created_name_opens(
    staged: Map<Seq<char>, Staged>,
    name: Seq<u16>,
    attributes: u32,
    in_image: bool,
    now: u64,
    image: Result<Inode, FsError>,
    below: Below,
    later: u64,
)
    requires
        create_answer(staged, false, name, attributes, in_image, now) is Ok,
    ensures
        ({
            let (path, entry) = create_answer(
                staged,
                false,
                name,
                attributes,
                in_image,
                now,
            )->Ok_0;
            let after = staged.insert(path, entry);
            let info = crate::info::staged_info(entry, false);
            &&& open_answer(after, false, name, image) == Ok::<_, Status>(
                (path, None::<Inode>, entry is CreatedDir, info),
            )
            &&& info.file_size == 0
            &&& merged(after, path, below) == if entry is CreatedDir {
                Merged::StagedDir { mode: crate::context::NEW_DIRECTORY_MODE }
            } else {
                Merged::File {
                    content: Seq::empty(),
                    mode: crate::context::NEW_FILE_MODE,
                }
            }
            &&& create_answer(after, false, name, attributes, in_image, later) is Err
            &&& create_answer(after, false, name, attributes, in_image, later)->Err_0
                == Status::ObjectNameCollision
        }),
{
}

/// A name that was deleted can be created anew, even where the image still
/// has it.
pub proof fn deleted_name_can_be_created(
    staged: Map<Seq<char>, Staged>,
    name: Seq<u16>,
    attributes: u32,
    in_image: bool,
    now: u64,
)
    requires
        crate::path::path_of(name) is Some,
    ensures
        create_answer(
            staged.insert(crate::path::path_of(name)->0, Staged::Deleted),
            false,
            name,
            attributes,
            in_image,
            now,
        ) is Ok,
{
}

/// Content staged for a path shows at once in what is told of it, whatever
/// inode the handle was opened with.
pub proof fn staged_content_shows_in_info(
    staged: Map<Seq<char>, Staged>,
    read_only: bool,
    path: Seq<char>,
    content: Seq<u8>,
    mode: u16,
    now: u64,
    inode: Option<Inode>,
)
    requires
        content.len() <= isize::MAX,
    ensures
        ({
            let info = info_answer(
                with_file(staged, path, content, mode, now),
                read_only,
                path,
                inode,
            );
            &&& info is Ok
            &&& info->Ok_0.file_size == content.len()
            &&& info->Ok_0.allocation_size == crate::info::allocated(content.len() as int)
        }),
{
}

/// A name can be queried exactly where it can be opened, with the same
/// attributes and the same refusals, as long as no link in it is resolved.
pub proof fn query_agrees_with_open(
    staged: Map<Seq<char>, Staged>,
    read_only: bool,
    name: Seq<u16>,
    image: Result<Inode, FsError>,
)
    ensures
        match open_answer(staged, read_only, name, image) {
            Ok((_, _, _, info)) => security_answer(staged, read_only, None, name, image) == Ok::<
                FileSecurity,
                Status,
            >(
                FileSecurity {
                    reparse: false,
                    sz_security_descriptor: 0,
                    attributes: info.file_attributes,
                },
            ),
            Err(status) => security_answer(staged, read_only, None, name, image) == Err::<
                FileSecurity,
                Status,
            >(status),
        },
{
}

/// What is told of an open file is what its open told, as long as nothing
/// is staged for it in between.
pub proof fn info_agrees_with_open(
    staged: Map<Seq<char>, Staged>,
    read_only: bool,
    name: Seq<u16>,
    image: Result<Inode, FsError>,
)
    requires
        open_answer(staged, read_only, name, image) is Ok,
    ensures
        ({
            let (path, inode, is_dir, info) = open_answer(
                staged,
                read_only,
                name,
                image,
            )->Ok_0;
            &&& info_answer(staged, read_only, path, inode) == Ok::<_, Status>(info)
            &&& is_dir == (info.file_attributes & crate::info::FILE_ATTRIBUTE_DIRECTORY != 0)
        }),
{
    let (path, inode, is_dir, info) = open_answer(staged, read_only, name, image)->Ok_0;
    match inode {
        Some(i) => {
            crate::info::attribute_bits_tell_the_facts(read_only, i.dir(), i.link());
        },
        None => {
            crate::info::attribute_bits_tell_the_facts(read_only, is_dir, false);
        },
    }
}

/// A listing tells of a staged entry what a query of its path tells.
pub proof fn listing_agrees_with_info(
    list: Seq<Listed>,
    staged: Map<Seq<char>, Staged>,
    dir: Seq<char>,
    found: Seq<(String, Option<Inode>)>,
    name: Seq<char>,
    read_only: bool,
    inode: Option<Inode>,
)
    requires
        is_listing(list, staged, dir, found),
        crate::overlay::is_leaf(name),
        crate::overlay::found(staged, crate::overlay::child_path(dir, name)) is Hit,
    ensures
        named(list, name).len() == 1,
        info_answer(staged, read_only, crate::overlay::child_path(dir, name), inode) == Ok::<
            _,
            Status,
        >(named(list, name)[0].info(read_only)),
{
    crate::listing::staged_entry_is_listed_once(list, staged, dir, found, name);
}

} // verus!
