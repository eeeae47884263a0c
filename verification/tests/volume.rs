//! The host's requests, one by one.

use std::path::PathBuf;

use xfs_win_driver::context::{
    banner, sector_size, ReadStep, XfsContext, XfsFileContext, NEW_DIRECTORY_MODE, NEW_FILE_MODE,
};
use xfs_win_driver::device::Superblock;
use xfs_win_driver::info::{
    allocation_size, attribute_bits, file_attributes, populate_file_info,
    populate_overlay_file_info, FileInfo, FileSecurity, Inode, Timestamp,
};
use xfs_win_driver::listing::{
    merge_listing, place_after, rows_after, visible_children, DirEntry, MergedEntry,
};
use xfs_win_driver::mount::{Mount, UnderlayNode, WriteMode};
use xfs_win_driver::overlay::{Overlay, OverlayEntry, OverlayLookup};
use xfs_win_driver::reparse::{LinkAnswer, IO_REPARSE_TAG_SYMLINK};
use xfs_win_driver::status::{FsError, Status};

const T: Timestamp = Timestamp { sec: 100, nsec: 7 };

fn inode(mode: u16, size: u64) -> Inode {
    Inode {
        ino: 42,
        mode,
        size,
        mtime: T,
    }
}

fn blank() -> FileInfo {
    let zero = Timestamp { sec: 0, nsec: 0 };
    FileInfo {
        file_attributes: 0,
        reparse_tag: 0,
        file_size: 0,
        allocation_size: 0,
        creation_time: zero,
        last_access_time: zero,
        last_write_time: zero,
        change_time: zero,
        index_number: 0,
        hard_links: 9,
        ea_size: 9,
    }
}

fn volume(mode: WriteMode) -> XfsContext {
    let (mount, _) = Mount::open_direct(PathBuf::from("disk.img"), 1 << 20);
    let sb = Superblock {
        blocksize: 4096,
        dblocks: 1000,
        inodesize: 512,
        dirblklog: 0,
        fname: "label".to_string(),
    };
    XfsContext::new(mount.with_write_mode(mode), &sb)
}

fn w(s: &str) -> Vec<u16> {
    s.encode_utf16().collect()
}

fn file(content: &[u8]) -> UnderlayNode {
    UnderlayNode::Node {
        inode: inode(0o100640, content.len() as u64),
        content: Ok(content.to_vec()),
    }
}

fn missing() -> UnderlayNode {
    UnderlayNode::Missing(FsError::NotFound)
}

fn open_file(ctx: &XfsContext, name: &str, size: u64) -> XfsFileContext {
    ctx.open(&w(name), Ok(inode(0o100640, size)), &mut blank())
        .unwrap()
}

fn content(ctx: &XfsContext, path: &str) -> Vec<u8> {
    match ctx.mount.overlay.lookup(path) {
        OverlayLookup::Hit(e) => e.content().unwrap().clone(),
        _ => panic!("nothing staged at {path}"),
    }
}

#[test]
fn attributes_say_what_a_file_is() {
    assert_eq!(file_attributes(&inode(0o100644, 0), false), 0x80);
    assert_eq!(file_attributes(&inode(0o100644, 0), true), 0x1);
    assert_eq!(file_attributes(&inode(0o040755, 0), false), 0x10);
    assert_eq!(file_attributes(&inode(0o040755, 0), true), 0x11);
    assert_eq!(file_attributes(&inode(0o120777, 0), false), 0x480);
    assert_eq!(file_attributes(&inode(0o120777, 0), true), 0x401);
    assert_eq!(attribute_bits(false, true, false), 0x10);
}

#[test]
fn sizes_round_up_to_whole_blocks() {
    assert_eq!(allocation_size(0), 0);
    assert_eq!(allocation_size(1), 4096);
    assert_eq!(allocation_size(4096), 4096);
    assert_eq!(allocation_size(4097), 8192);
}

#[test]
fn an_inode_is_told_in_full() {
    let mut info = blank();
    populate_file_info(&inode(0o120777, 10), &mut info, false);
    let want = FileInfo {
        file_attributes: 0x480,
        reparse_tag: IO_REPARSE_TAG_SYMLINK,
        file_size: 10,
        allocation_size: 4096,
        creation_time: T,
        last_access_time: T,
        last_write_time: T,
        change_time: T,
        index_number: 42,
        hard_links: 0,
        ea_size: 0,
    };
    assert_eq!(info, want);
    populate_file_info(&inode(0o100644, 0), &mut info, true);
    assert_eq!((info.reparse_tag, info.file_attributes), (0, 1));
}

#[test]
fn an_overlay_entry_is_told_in_full() {
    let mut info = blank();
    let entry = OverlayEntry::Created {
        content: vec![0; 5000],
        mode: 0o100644,
        mtime: 77,
    };
    populate_overlay_file_info(&entry, &mut info, false);
    assert_eq!(info.file_size, 5000);
    assert_eq!(info.allocation_size, 8192);
    assert_eq!(info.last_write_time, Timestamp { sec: 77, nsec: 0 });
    assert_eq!((info.index_number, info.reparse_tag), (0, 0));
    assert_eq!((info.hard_links, info.ea_size), (0, 0));
    let late = OverlayEntry::CreatedDir {
        mode: 1,
        mtime: u64::MAX,
    };
    populate_overlay_file_info(&late, &mut info, true);
    assert_eq!(info.change_time.sec, i64::MAX, "never before 1970");
    assert_eq!((info.file_size, info.file_attributes), (0, 0x11));
}

#[test]
fn a_new_volume_takes_its_label_and_size_from_the_superblock() {
    let ctx = volume(WriteMode::Writable);
    assert_eq!(ctx.total_size, 4_096_000);
    let info = ctx.get_volume_info();
    assert_eq!((info.total_size, info.free_size), (4_096_000, 4_096_000));
    assert_eq!(info.label, "label");
    let mut ctx = volume(WriteMode::ReadOnly);
    assert_eq!(ctx.get_volume_info().free_size, 0);
    ctx.label = String::new();
    assert_eq!(ctx.get_volume_info().label, "xfs");
    let mut ctx = volume(WriteMode::Writable);
    ctx.total_size = 1 << 40;
    assert_eq!(ctx.get_volume_info().free_size, 1 << 30);
}

#[test]
fn a_resolved_link_answers_first() {
    let ctx = volume(WriteMode::Writable);
    let told = FileSecurity {
        reparse: true,
        sz_security_descriptor: 3,
        attributes: 5,
    };
    let r = ctx.get_security_by_name(&w("\\a"), Some(told), Err(FsError::Other));
    assert_eq!(r, Ok(told));
}

#[test]
fn a_name_is_answered_from_the_overlay_then_the_image() {
    let mut ctx = volume(WriteMode::Writable);
    let ask = |ctx: &XfsContext, name: &[u16], image| {
        ctx.get_security_by_name(name, None, image)
            .map(|s| (s.reparse, s.sz_security_descriptor, s.attributes))
    };
    assert_eq!(
        ask(&ctx, &w("\\a"), Ok(inode(0o040755, 0))),
        Ok((false, 0, 0x10))
    );
    assert_eq!(
        ask(&ctx, &w("\\a"), Err(FsError::NotADirectory)),
        Err(Status::ObjectNameNotFound)
    );
    assert_eq!(
        ask(&ctx, &w("\\a"), Err(FsError::Other)),
        Err(Status::InvalidDeviceRequest)
    );
    assert_eq!(
        ask(&ctx, &[0xD800], Ok(inode(0o040755, 0))),
        Err(Status::ObjectNameNotFound)
    );
    ctx.mount.overlay.create_file("/a", vec![], 1, 1);
    assert_eq!(
        ask(&ctx, &w("\\a"), Ok(inode(0o040755, 0))),
        Ok((false, 0, 0x80))
    );
    ctx.mount.overlay.delete("/a");
    assert_eq!(
        ask(&ctx, &w("\\a"), Ok(inode(0o040755, 0))),
        Err(Status::ObjectNameNotFound)
    );
}

#[test]
fn the_image_is_asked_only_where_nothing_is_staged() {
    let mut ctx = volume(WriteMode::Writable);
    assert_eq!(ctx.image_path(&w("\\a\\b")), Some("/a/b".to_string()));
    assert_eq!(ctx.image_path(&[0xDC00]), None);
    ctx.mount.overlay.delete("/a/b");
    assert_eq!(ctx.image_path(&w("\\a\\b")), None);
}

#[test]
fn an_open_remembers_where_it_came_from() {
    let mut ctx = volume(WriteMode::Writable);
    let mut info = blank();
    let h = ctx.open(&w("\\d"), Ok(inode(0o040755, 6)), &mut info).unwrap();
    assert_eq!(h.unix_path, "/d");
    assert!(h.is_dir && h.inode == Some(inode(0o040755, 6)) && !h.pending_delete);
    assert_eq!(info.index_number, 42);

    ctx.mount.overlay.create_file("/f", b"abc".to_vec(), 1, 8);
    let h = ctx.open(&w("\\f"), Err(FsError::NotFound), &mut info).unwrap();
    assert!(!h.is_dir && h.inode.is_none() && h.dir_listing.is_none());
    assert_eq!((info.file_size, info.index_number), (3, 0));

    let before = info;
    ctx.mount.overlay.delete("/f");
    for (name, image, want) in [
        (w("\\f"), Ok(inode(0o100644, 1)), Status::ObjectNameNotFound),
        (w("\\g"), Err(FsError::NotFound), Status::ObjectNameNotFound),
        (w("\\g"), Err(FsError::Other), Status::InvalidDeviceRequest),
        (vec![0xD800], Ok(inode(0o100644, 1)), Status::ObjectNameNotFound),
    ] {
        assert_eq!(ctx.open(&name, image, &mut info).unwrap_err(), want);
        assert_eq!(info, before);
    }
}

#[test]
fn a_write_since_the_open_shows_in_the_info() {
    let mut ctx = volume(WriteMode::Writable);
    let h = open_file(&ctx, "\\f", 3);
    let mut info = blank();
    ctx.get_file_info(&h, &mut info).unwrap();
    assert_eq!((info.file_size, info.index_number), (3, 42));
    ctx.write(&h, b"12345", 0, false, false, file(b"abc"), &mut info, 9)
        .unwrap();
    let mut again = blank();
    ctx.get_file_info(&h, &mut again).unwrap();
    assert_eq!(again.file_size, 5);
    assert_eq!(again, info);
    ctx.mount.overlay.delete("/f");
    assert_eq!(
        ctx.get_file_info(&h, &mut again),
        Err(Status::ObjectNameNotFound)
    );
}

#[test]
fn a_vanished_overlay_file_is_not_found() {
    let mut ctx = volume(WriteMode::Writable);
    let h = ctx
        .create(&w("\\n"), 0, false, &mut blank(), 1)
        .unwrap();
    ctx.mount.overlay.clear();
    assert_eq!(
        ctx.get_file_info(&h, &mut blank()),
        Err(Status::ObjectNameNotFound)
    );
    let mut buf = [0; 4];
    assert_eq!(ctx.read(&h, &mut buf, 0), Err(Status::ObjectNameNotFound));
    let mut info = blank();
    assert_eq!(ctx.set_basic_info(&h, &mut info), Ok(()));
    assert_eq!(info, blank());
}

#[test]
fn a_read_is_served_from_the_overlay() {
    let mut ctx = volume(WriteMode::Writable);
    let h = open_file(&ctx, "\\f", 100);
    ctx.mount.overlay.write_file("/f", b"abcdef".to_vec(), 1, 1);
    let mut buf = [b'-'; 4];
    assert_eq!(ctx.read(&h, &mut buf, 1), Ok(ReadStep::Done(4)));
    assert_eq!(&buf, b"bcde");
    assert_eq!(ctx.read(&h, &mut buf, 4), Ok(ReadStep::Done(2)));
    assert_eq!(&buf, b"efde");
    assert_eq!(ctx.read(&h, &mut buf, 6), Err(Status::EndOfFile));
    ctx.mount.overlay.create_dir("/f", 1, 1);
    assert_eq!(ctx.read(&h, &mut buf, 0), Err(Status::InvalidDeviceRequest));
    ctx.mount.overlay.delete("/f");
    assert_eq!(ctx.read(&h, &mut buf, 0), Err(Status::ObjectNameNotFound));
}

#[test]
fn a_read_falls_through_to_the_image() {
    let ctx = volume(WriteMode::Writable);
    let h = open_file(&ctx, "\\f", 100);
    let mut buf = [0; 64];
    let step = |ino, take| Ok(ReadStep::FromImage { ino, take });
    assert_eq!(ctx.read(&h, &mut buf, 0), step(42, 64));
    assert_eq!(ctx.read(&h, &mut buf, 90), step(42, 10));
    assert_eq!(ctx.read(&h, &mut buf, 100), Err(Status::EndOfFile));
    let d = ctx.open(&w("\\d"), Ok(inode(0o040755, 6)), &mut blank()).unwrap();
    assert_eq!(ctx.read(&d, &mut buf, 0), Err(Status::InvalidDeviceRequest));
}

#[test]
fn a_read_gives_back_what_was_written() {
    let mut ctx = volume(WriteMode::Writable);
    let h = open_file(&ctx, "\\f", 3);
    let mut info = blank();
    let n = ctx
        .write(&h, b"data", 10, false, false, file(b"abc"), &mut info, 1)
        .unwrap();
    assert_eq!(n, 4);
    let mut buf = [0; 4];
    assert_eq!(ctx.read(&h, &mut buf, 10), Ok(ReadStep::Done(4)));
    assert_eq!(&buf, b"data");
    assert_eq!(content(&ctx, "/f"), b"abc\0\0\0\0\0\0\0data");
    assert_eq!((info.file_size, info.allocation_size), (14, 4096));
}

#[test]
fn a_write_to_the_end_appends() {
    let mut ctx = volume(WriteMode::Writable);
    let h = open_file(&ctx, "\\f", 3);
    ctx.write(&h, b"de", 0, true, false, file(b"abc"), &mut blank(), 1)
        .unwrap();
    assert_eq!(content(&ctx, "/f"), b"abcde");
}

#[test]
fn a_constrained_write_stays_inside_the_file() {
    let mut ctx = volume(WriteMode::Writable);
    let h = open_file(&ctx, "\\f", 3);
    let mut info = blank();
    assert_eq!(
        ctx.write(&h, b"XYZ", 1, false, true, file(b"abc"), &mut info, 1),
        Ok(2)
    );
    assert_eq!(content(&ctx, "/f"), b"aXY");
    assert_eq!(
        ctx.write(&h, b"Q", 0, false, true, missing(), &mut info, 1),
        Ok(1)
    );
    assert_eq!(content(&ctx, "/f"), b"QXY");

    let mut info = blank();
    assert_eq!(
        ctx.write(&h, b"Q", 3, false, true, missing(), &mut info, 1),
        Ok(0)
    );
    assert_eq!(
        info,
        FileInfo {
            file_size: 3,
            allocation_size: 4096,
            ..blank()
        },
        "only the sizes are told"
    );
    assert_eq!(content(&ctx, "/f"), b"QXY");
}

#[test]
fn a_write_is_refused_with_its_reason() {
    let mut ctx = volume(WriteMode::Writable);
    let d = ctx.open(&w("\\d"), Ok(inode(0o040755, 6)), &mut blank()).unwrap();
    let h = open_file(&ctx, "\\f", 3);
    let mut info = blank();
    assert_eq!(
        ctx.write(&d, b"1", 0, false, false, missing(), &mut info, 1),
        Err(Status::InvalidDeviceRequest)
    );
    let link = UnderlayNode::Node {
        inode: inode(0o120777, 0),
        content: Ok(vec![]),
    };
    let broken = UnderlayNode::Node {
        inode: inode(0o100644, 0),
        content: Err(FsError::NotAFile),
    };
    for (node, want) in [
        (missing(), Status::ObjectNameNotFound),
        (UnderlayNode::Missing(FsError::Other), Status::InvalidDeviceRequest),
        (link, Status::InvalidDeviceRequest),
        (broken, Status::ObjectNameNotFound),
    ] {
        assert_eq!(
            ctx.write(&h, b"1", 0, false, false, node, &mut info, 1),
            Err(want)
        );
    }
    assert_eq!(
        ctx.write(&h, b"1", u64::MAX, false, false, file(b"abc"), &mut info, 1),
        Err(Status::InvalidDeviceRequest)
    );
    ctx.mount.overlay.delete("/f");
    assert_eq!(
        ctx.write(&h, b"1", 0, false, false, file(b"abc"), &mut info, 1),
        Err(Status::ObjectNameNotFound)
    );
    ctx.mount.overlay.create_dir("/f", 1, 1);
    assert_eq!(
        ctx.write(&h, b"1", 0, false, false, file(b"abc"), &mut info, 1),
        Err(Status::InvalidDeviceRequest)
    );
    assert_eq!(info, blank());
}

#[test]
fn the_whole_file_is_read_through_the_overlay() {
    let mut ctx = volume(WriteMode::Writable);
    assert_eq!(
        ctx.read_full("/f", file(b"abc")),
        Ok((b"abc".to_vec(), 0o100640))
    );
    ctx.mount.overlay.create_file("/f", b"x".to_vec(), 7, 1);
    assert_eq!(ctx.read_full("/f", file(b"abc")), Ok((b"x".to_vec(), 7)));
}

#[test]
fn a_file_size_is_set() {
    let mut ctx = volume(WriteMode::Writable);
    let h = open_file(&ctx, "\\f", 3);
    let mut info = blank();
    ctx.set_file_size(&h, 5, file(b"abc"), &mut info, 1).unwrap();
    assert_eq!(content(&ctx, "/f"), b"abc\0\0");
    assert_eq!(info.file_size, 5);
    ctx.set_file_size(&h, 1, missing(), &mut info, 1).unwrap();
    assert_eq!(content(&ctx, "/f"), b"a");
    let d = ctx.open(&w("\\d"), Ok(inode(0o040755, 6)), &mut blank()).unwrap();
    assert_eq!(
        ctx.set_file_size(&d, 1, missing(), &mut info, 1),
        Err(Status::InvalidDeviceRequest)
    );
    ctx.mount.overlay.delete("/f");
    assert_eq!(
        ctx.set_file_size(&h, 1, missing(), &mut info, 1),
        Err(Status::ObjectNameNotFound)
    );
}

#[test]
fn an_overwrite_empties_the_file() {
    let mut ctx = volume(WriteMode::Writable);
    let h = open_file(&ctx, "\\f", 3);
    let mut info = blank();
    ctx.overwrite(&h, &mut info, 6).unwrap();
    assert_eq!(content(&ctx, "/f"), b"");
    assert_eq!(info.file_size, 0);
    match ctx.mount.overlay.lookup("/f") {
        OverlayLookup::Hit(OverlayEntry::Modified { mode, mtime, .. }) => {
            assert_eq!((mode, mtime), (0o100644, 6))
        }
        _ => panic!("a modified file"),
    }
    let d = ctx.open(&w("\\d"), Ok(inode(0o040755, 6)), &mut blank()).unwrap();
    assert_eq!(
        ctx.overwrite(&d, &mut info, 1),
        Err(Status::InvalidDeviceRequest)
    );
}

#[test]
fn a_created_name_opens_and_collides() {
    let mut ctx = volume(WriteMode::Writable);
    let mut info = blank();
    let h = ctx.create(&w("\\n"), 0x80, false, &mut info, 5).unwrap();
    assert!(!h.is_dir && h.inode.is_none() && h.unix_path == "/n");
    assert_eq!((info.file_size, info.file_attributes), (0, 0x80));
    assert!(ctx.open(&w("\\n"), Err(FsError::NotFound), &mut info).is_ok());
    assert_eq!(
        ctx.create(&w("\\n"), 0, false, &mut info, 5).unwrap_err(),
        Status::ObjectNameCollision
    );
    assert_eq!(
        ctx.create(&w("\\image"), 0, true, &mut info, 5).unwrap_err(),
        Status::ObjectNameCollision
    );
    assert_eq!(
        ctx.create(&[0xD800], 0, false, &mut info, 5).unwrap_err(),
        Status::ObjectNameNotFound
    );
    let d = ctx.create(&w("\\dir"), 0x30, false, &mut info, 5).unwrap();
    assert!(d.is_dir);
    assert_eq!(info.file_attributes, 0x10);
    assert_eq!((NEW_DIRECTORY_MODE, NEW_FILE_MODE), (0o040755, 0o100644));
    ctx.mount.overlay.delete("/image");
    assert!(
        ctx.create(&w("\\image"), 0, true, &mut info, 5).is_ok(),
        "a deleted name is free"
    );
}

#[test]
fn a_rename_is_answered_with_a_status() {
    let mut ctx = volume(WriteMode::Writable);
    let (a, b) = (w("\\a"), w("\\b"));
    assert_eq!(ctx.rename(&a, &b, false, file(b"1"), false, 1), Ok(()));
    assert_eq!(content(&ctx, "/b"), b"1");
    assert_eq!(
        ctx.rename(&a, &b, true, file(b"1"), false, 1),
        Err(Status::ObjectNameNotFound)
    );
    assert_eq!(
        ctx.rename(&w("\\c"), &b, false, file(b"1"), false, 1),
        Err(Status::ObjectNameCollision)
    );
    let link = UnderlayNode::Node {
        inode: inode(0o120777, 0),
        content: Ok(vec![]),
    };
    assert_eq!(
        ctx.rename(&w("\\c"), &b, true, link, false, 1),
        Err(Status::InvalidDeviceRequest)
    );
    assert_eq!(
        ctx.rename(&[0xD800], &b, true, missing(), false, 1),
        Err(Status::ObjectNameNotFound)
    );
    assert_eq!(
        ctx.rename(&a, &[0xD800], true, missing(), false, 1),
        Err(Status::ObjectNameNotFound)
    );
}

#[test]
fn a_marked_handle_leaves_a_tombstone() {
    let mut ctx = volume(WriteMode::Writable);
    let mut h = open_file(&ctx, "\\f", 3);
    ctx.cleanup(&h);
    assert!(ctx.mount.needs_underlay("/f"), "it was not marked");
    ctx.set_delete(&mut h, true).unwrap();
    assert!(h.pending_delete);
    ctx.set_delete(&mut h, false).unwrap();
    ctx.cleanup(&h);
    assert!(ctx.mount.needs_underlay("/f"), "the mark was taken back");
    ctx.set_delete(&mut h, true).unwrap();
    ctx.cleanup(&h);
    assert!(matches!(
        ctx.mount.overlay.lookup("/f"),
        OverlayLookup::Deleted
    ));
    assert_eq!(
        ctx.open(&w("\\f"), Ok(inode(0o100640, 3)), &mut blank())
            .unwrap_err(),
        Status::ObjectNameNotFound
    );
}

#[test]
fn a_read_only_mount_refuses_every_change() {
    let mut ctx = volume(WriteMode::ReadOnly);
    let mut h = open_file(&ctx, "\\f", 3);
    let mut info = blank();
    let no = Status::MediaWriteProtected;
    assert_eq!(ctx.ensure_writable(), Err(no));
    assert_eq!(ctx.create(&w("\\n"), 0, false, &mut info, 1).unwrap_err(), no);
    assert_eq!(
        ctx.write(&h, b"1", 0, false, false, file(b"abc"), &mut info, 1),
        Err(no)
    );
    assert_eq!(ctx.set_file_size(&h, 1, file(b"abc"), &mut info, 1), Err(no));
    assert_eq!(ctx.overwrite(&h, &mut info, 1), Err(no));
    assert_eq!(
        ctx.rename(&w("\\f"), &w("\\g"), true, file(b"abc"), false, 1),
        Err(no)
    );
    assert_eq!(ctx.set_delete(&mut h, true), Err(no));
    h.pending_delete = true;
    ctx.cleanup(&h);
    assert_eq!(ctx.mount.overlay.snapshot().len(), 0);
    assert_eq!(info, blank());
    assert_eq!(volume(WriteMode::Writable).ensure_writable(), Ok(()));
}

#[test]
fn what_is_accepted_and_ignored() {
    let mut ctx = volume(WriteMode::Writable);
    let h = open_file(&ctx, "\\f", 3);
    assert_eq!(ctx.set_security(&h), Ok(()));
    assert_eq!(ctx.flush(), Ok(()));
    assert_eq!(ctx.set_reparse_point(&h), Err(Status::InvalidDeviceRequest));
    let mut info = blank();
    assert_eq!(ctx.set_basic_info(&h, &mut info), Ok(()));
    assert_eq!(info.file_size, 3);
    ctx.mount.overlay.write_file("/f", b"12345".to_vec(), 1, 1);
    assert_eq!(ctx.set_basic_info(&h, &mut info), Ok(()));
    assert_eq!(info.file_size, 5);
    ctx.mount.overlay.delete("/f");
    assert_eq!(
        ctx.set_basic_info(&h, &mut info),
        Err(Status::ObjectNameNotFound)
    );
}

#[test]
fn links_are_answered_by_name_and_by_handle() {
    let ctx = volume(WriteMode::Writable);
    let h = open_file(&ctx, "\\dir\\l", 3);
    let target = || LinkAnswer::Target(b"t".to_vec());
    let (mut a, mut b) = (vec![0; 64], vec![0; 64]);
    let n = ctx.get_reparse_point(&h, target(), &mut a).unwrap();
    let m = ctx
        .get_reparse_point_by_name(&w("\\dir\\l"), target(), &mut b)
        .unwrap();
    assert_eq!((n, &a), (m, &b));
    assert_eq!(n, 20 + 4 * 6);
    assert_eq!(
        ctx.get_reparse_point_by_name(&[0xD800], target(), &mut b),
        Err(Status::ObjectNameNotFound)
    );
}

fn entry(name: &[u8], ino: u64) -> DirEntry {
    DirEntry {
        name: name.to_vec(),
        ino,
    }
}

#[test]
fn children_without_a_place_in_a_listing_are_passed_over() {
    let mut o = Overlay::new();
    o.delete("/d/gone");
    o.create_file("/d/new", vec![], 1, 1);
    let children = vec![
        entry(b".", 1),
        entry(b"..", 2),
        entry(b"b", 3),
        entry(&[0xFF], 4),
        entry(b"gone", 5),
        entry(b"new", 6),
        entry(b"...", 7),
    ];
    let got = visible_children(&o, "/d", children);
    assert_eq!(
        got,
        vec![
            ("b".to_string(), 3),
            ("new".to_string(), 6),
            ("...".to_string(), 7)
        ]
    );
}

fn names(list: &[MergedEntry]) -> Vec<String> {
    list.iter().map(|e| e.name().to_string()).collect()
}

#[test]
fn a_merged_listing_is_in_name_order() {
    let mut o = Overlay::new();
    o.create_file("/m", vec![], 1, 1);
    o.create_dir("/Z", 1, 1);
    o.delete("/b");
    o.write_file("/c", b"12".to_vec(), 1, 1);
    o.create_file("/sub/x", vec![], 1, 1);
    let found = vec![
        ("z".to_string(), Some(inode(0o100644, 1))),
        ("c".to_string(), Some(inode(0o100644, 2))),
        ("broken".to_string(), None),
        ("a".to_string(), Some(inode(0o100644, 3))),
    ];
    let list = merge_listing(&o, "/", found);
    assert_eq!(names(&list), ["Z", "a", "c", "m", "z"]);
    assert!(matches!(&list[2], MergedEntry::Overlay(_, OverlayEntry::Modified { .. })));
    assert_eq!(place_after(&list, "a"), 2);
    assert_eq!(place_after(&list, ""), 0);
    assert_eq!(place_after(&list, "zz"), 5);
}

#[test]
fn a_tombstone_hides_what_was_found_in_the_image() {
    let mut o = Overlay::new();
    o.delete("/a");
    let found = vec![
        ("a".to_string(), Some(inode(0o100644, 1))),
        ("b".to_string(), Some(inode(0o100644, 2))),
    ];
    assert_eq!(names(&merge_listing(&o, "/", found)), ["b"]);
}

#[test]
fn names_that_occur_twice_keep_their_order() {
    let found = vec![
        ("a".to_string(), Some(inode(0o100644, 1))),
        ("b".to_string(), Some(inode(0o100644, 2))),
        ("a".to_string(), Some(inode(0o100644, 3))),
    ];
    let list = merge_listing(&Overlay::new(), "/", found);
    let sizes: Vec<u64> = list
        .iter()
        .map(|e| match e {
            MergedEntry::Underlay(_, i) => i.size,
            MergedEntry::Overlay(..) => panic!("nothing is staged"),
        })
        .collect();
    assert_eq!(sizes, [1, 3, 2]);
}

#[test]
fn a_listing_goes_on_after_any_of_its_names() {
    let mut o = Overlay::new();
    for n in ["c", "a", "e", "b", "d"] {
        o.create_file(&format!("/{n}"), n.as_bytes().to_vec(), 1, 1);
    }
    let list = merge_listing(&o, "/", vec![]);
    let from = |marker: Option<&str>| {
        rows_after(&list, marker, false)
            .into_iter()
            .map(|r| r.name)
            .collect::<Vec<_>>()
    };
    let all = from(None);
    assert_eq!(all, ["a", "b", "c", "d", "e"]);
    for (i, name) in all.iter().enumerate() {
        assert_eq!(from(Some(name)), all[i + 1..]);
    }
    assert_eq!(from(Some("bb")), ["c", "d", "e"], "an absent marker");
    let rows = rows_after(&list, Some("d"), true);
    assert_eq!(rows[0].info.file_size, 1);
    assert_eq!(rows[0].info.file_attributes, 1);
}

#[test]
fn a_drained_directory_gives_every_name_once() {
    let ctx = volume(WriteMode::Writable);
    let mut d = ctx
        .open(&w("\\"), Ok(inode(0o040755, 6)), &mut blank())
        .unwrap();
    let all: Vec<String> = (0..50).map(|i| format!("n{:02}", i * 37 % 50)).collect();
    let found = || {
        all.iter()
            .map(|n| (n.clone(), Some(inode(0o100644, 1))))
            .collect::<Vec<_>>()
    };
    let mut got: Vec<String> = Vec::new();
    for room in [1, 7, 3, 20, 2, 100] {
        let marker = got.last().map(|n| w(n));
        let rows = ctx
            .read_directory(&mut d, found(), marker.as_deref())
            .unwrap();
        got.extend(rows.into_iter().take(room).map(|r| r.name));
    }
    let want: Vec<String> = (0..50).map(|i| format!("n{i:02}")).collect();
    assert_eq!(got, want);
    let marker = got.last().map(|n| w(n));
    let rest = ctx.read_directory(&mut d, found(), marker.as_deref());
    assert!(rest.unwrap().is_empty());
}

#[test]
fn a_writable_listing_follows_changes_while_it_is_drained() {
    let mut ctx = volume(WriteMode::Writable);
    let mut d = ctx.open(&w("\\"), Ok(inode(0o040755, 6)), &mut blank()).unwrap();
    let found = || vec![("m".to_string(), Some(inode(0o100644, 3)))];
    assert_eq!(ctx.needs_listing(&d), Ok(true));
    let rows = ctx.read_directory(&mut d, found(), None).unwrap();
    assert_eq!(rows.len(), 1);
    assert_eq!((rows[0].info.file_size, rows[0].info.index_number), (3, 42));
    ctx.mount.overlay.create_file("/z", vec![], 1, 1);
    assert_eq!(ctx.needs_listing(&d), Ok(true));
    let rows = ctx.read_directory(&mut d, found(), Some(&w("m"))).unwrap();
    assert_eq!(rows[0].name, "z");
    assert!(d.dir_listing.is_none());
}

#[test]
fn a_read_only_listing_is_built_once() {
    let ctx = volume(WriteMode::ReadOnly);
    let mut d = ctx.open(&w("\\"), Ok(inode(0o040755, 6)), &mut blank()).unwrap();
    let found = vec![
        ("b".to_string(), Some(inode(0o100644, 3))),
        ("a".to_string(), Some(inode(0o100644, 3))),
    ];
    assert_eq!(ctx.needs_listing(&d), Ok(true));
    assert_eq!(ctx.read_directory(&mut d, found, None).unwrap().len(), 2);
    assert_eq!(ctx.needs_listing(&d), Ok(false));
    let rows = ctx.read_directory(&mut d, vec![], Some(&w("a"))).unwrap();
    assert_eq!(rows.len(), 1);
    assert_eq!(rows[0].name, "b");
    let rows = ctx
        .read_directory(&mut d, vec![], Some(&[0x61, 0xD800]))
        .unwrap();
    assert_eq!(rows[0].name, "b", "an ill-formed marker stands by its replacement");
}

#[test]
fn only_directories_are_listed() {
    let ctx = volume(WriteMode::Writable);
    let mut h = open_file(&ctx, "\\f", 3);
    assert_eq!(ctx.needs_listing(&h), Err(Status::NotADirectory));
    assert_eq!(
        ctx.read_directory(&mut h, vec![], None).unwrap_err(),
        Status::NotADirectory
    );
    assert!(ctx.children_to_read(&h, None).is_empty());
}

#[test]
fn a_mount_is_announced() {
    assert_eq!(sector_size(512), 512);
    assert_eq!(sector_size(4096), 4096);
    assert_eq!(sector_size(65536), 4096);
    assert_eq!(banner(WriteMode::ReadOnly), "RO");
    assert_eq!(banner(WriteMode::Writable), "RW (overlay)");
}

#[test]
fn a_query_an_open_and_a_listing_agree() {
    let mut ctx = volume(WriteMode::Writable);
    ctx.mount.overlay.create_file("/d/f", b"abc".to_vec(), 1, 8);
    let mut d = ctx
        .open(&w("\\d"), Ok(inode(0o040755, 6)), &mut blank())
        .unwrap();
    let mut opened = blank();
    let h = ctx
        .open(&w("\\d\\f"), Err(FsError::NotFound), &mut opened)
        .unwrap();
    let mut told = blank();
    ctx.get_file_info(&h, &mut told).unwrap();
    assert_eq!(told, opened);
    let asked = ctx
        .get_security_by_name(&w("\\d\\f"), None, Err(FsError::NotFound))
        .unwrap();
    assert_eq!(asked.attributes, opened.file_attributes);
    let shadowed = vec![("f".to_string(), Some(inode(0o100644, 99)))];
    let rows = ctx.read_directory(&mut d, shadowed, None).unwrap();
    assert_eq!(rows.len(), 1);
    assert_eq!(rows[0].info, told);
}
