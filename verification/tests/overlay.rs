//! The overlay, and a mount's paths over it.

use std::path::PathBuf;

use xfs_win_driver::info::{Inode, Timestamp};
use xfs_win_driver::mount::{write_sidecar, DismountPolicy, Mount, RenameError, UnderlayNode};
use xfs_win_driver::overlay::{join, Overlay, OverlayEntry, OverlayLookup};
use xfs_win_driver::status::FsError;

fn mount() -> Mount {
    Mount::open_direct(PathBuf::from("disk.img"), 1 << 20).0
}

fn missing() -> UnderlayNode {
    UnderlayNode::Missing(FsError::NotFound)
}

fn node(mode: u16, content: Result<Vec<u8>, FsError>) -> UnderlayNode {
    let size = content.as_ref().map_or(0, |c| c.len() as u64);
    UnderlayNode::Node {
        inode: Inode {
            ino: 5,
            mode,
            size,
            mtime: Timestamp { sec: 9, nsec: 1 },
        },
        content,
    }
}

fn file(content: &[u8]) -> UnderlayNode {
    node(0o100640, Ok(content.to_vec()))
}

fn dir() -> UnderlayNode {
    node(0o040750, Ok(Vec::new()))
}

fn link() -> UnderlayNode {
    node(0o120777, Ok(Vec::new()))
}

fn unreadable() -> UnderlayNode {
    node(0o100640, Err(FsError::Other))
}

fn staged(overlay: &Overlay, path: &str) -> (char, Vec<u8>, u16, u64) {
    match overlay.lookup(path) {
        OverlayLookup::Hit(OverlayEntry::Created {
            content,
            mode,
            mtime,
        }) => ('c', content, mode, mtime),
        OverlayLookup::Hit(OverlayEntry::Modified {
            content,
            mode,
            mtime,
        }) => ('m', content, mode, mtime),
        OverlayLookup::Hit(OverlayEntry::CreatedDir { mode, mtime }) => ('d', vec![], mode, mtime),
        OverlayLookup::Hit(OverlayEntry::Deleted) => panic!("a tombstone is no hit"),
        OverlayLookup::Deleted => ('x', vec![], 0, 0),
        OverlayLookup::Miss => ('-', vec![], 0, 0),
    }
}

#[test]
fn a_lookup_tells_entries_tombstones_and_nothing_apart() {
    let mut o = Overlay::new();
    assert_eq!(staged(&o, "/a").0, '-');
    o.create_file("/a", b"1".to_vec(), 0o100644, 3);
    assert_eq!(staged(&o, "/a"), ('c', b"1".to_vec(), 0o100644, 3));
    o.create_dir("/d", 0o040755, 4);
    assert_eq!(staged(&o, "/d"), ('d', vec![], 0o040755, 4));
    o.delete("/a");
    assert_eq!(staged(&o, "/a").0, 'x');
    o.delete("/never-seen");
    assert_eq!(staged(&o, "/never-seen").0, 'x');
    assert_eq!(staged(&o, "/d").0, 'd');
    o.clear();
    assert_eq!(staged(&o, "/a").0, '-');
    assert_eq!(staged(&o, "/d").0, '-');
}

#[test]
fn a_created_file_stays_created_when_written() {
    let mut o = Overlay::new();
    o.create_file("/a", b"1".to_vec(), 0o100644, 3);
    o.write_file("/a", b"22".to_vec(), 0o100600, 5);
    assert_eq!(staged(&o, "/a"), ('c', b"22".to_vec(), 0o100600, 5));
    o.write_file("/b", b"3".to_vec(), 0o100644, 6);
    assert_eq!(staged(&o, "/b"), ('m', b"3".to_vec(), 0o100644, 6));
    o.write_file("/b", b"4".to_vec(), 0o100644, 7);
    assert_eq!(staged(&o, "/b"), ('m', b"4".to_vec(), 0o100644, 7));
    o.delete("/a");
    o.write_file("/a", b"5".to_vec(), 0o100644, 8);
    assert_eq!(staged(&o, "/a").0, 'm');
}

#[test]
fn entries_tell_what_they_are() {
    let f = OverlayEntry::Modified {
        content: b"xyz".to_vec(),
        mode: 1,
        mtime: 2,
    };
    assert!(!f.is_dir() && !f.is_deleted());
    assert_eq!(f.content().unwrap(), b"xyz");
    assert_eq!(f.mtime(), 2);
    assert_eq!(f.clone().content().unwrap(), b"xyz");
    let d = OverlayEntry::CreatedDir { mode: 1, mtime: 3 };
    assert!(d.is_dir() && d.content().is_none() && d.mtime() == 3);
    let x = OverlayEntry::Deleted;
    assert!(x.is_deleted() && x.content().is_none() && x.mtime() == 0);
}

#[test]
fn a_directory_shows_its_own_children_only() {
    let mut o = Overlay::new();
    o.create_dir("/d", 0o040755, 1);
    o.create_file("/d/a", vec![], 0o100644, 1);
    o.create_file("/d/sub/b", vec![], 0o100644, 1);
    o.create_file("/da", vec![], 0o100644, 1);
    o.delete("/d/gone");
    let names = |dir: &str| {
        let mut v: Vec<String> = o.iter_dir(dir).into_iter().map(|(n, _)| n).collect();
        v.sort();
        v
    };
    assert_eq!(names("/d"), ["a", "gone"]);
    assert_eq!(names("/"), ["d", "da"]);
    assert_eq!(names("/d/sub"), ["b"]);
    assert!(names("/nowhere").is_empty());
    assert_eq!(join("/", "a"), "/a");
    assert_eq!(join("/d", "a"), "/d/a");
}

#[test]
fn a_snapshot_holds_every_path_once() {
    let mut o = Overlay::new();
    o.create_file("/a", b"1".to_vec(), 1, 1);
    o.create_file("/a", b"2".to_vec(), 1, 1);
    o.delete("/b");
    let snap = o.snapshot();
    assert_eq!(snap.len(), 2);
    let path = PathBuf::from("out.json");
    let job = write_sidecar(&o, &path);
    assert_eq!(*job.path, path);
    assert_eq!(job.snapshot.len(), 2);
}

#[test]
fn the_dismount_policy_decides_about_the_overlay() {
    let mut m = mount();
    m.overlay.create_file("/a", b"1".to_vec(), 1, 1);
    assert!(m.apply_dismount_policy().is_none());
    assert_eq!(
        staged(&m.overlay, "/a"),
        ('c', b"1".to_vec(), 1, 1),
        "a discarded overlay goes with the mount, not before"
    );
    assert_eq!(m.overlay.snapshot().len(), 1);
    m.overlay.clear();
    assert!(m.needs_underlay("/a"));

    let mut m = mount().with_dismount_policy(DismountPolicy::Sidecar(PathBuf::from("s.json")));
    m.overlay.create_file("/a", b"1".to_vec(), 1, 1);
    let job = m.apply_dismount_policy().expect("a sidecar");
    assert_eq!(*job.path, PathBuf::from("s.json"));
    assert_eq!(job.snapshot[0].0, "/a");
    assert!(!m.needs_underlay("/a"));
}

#[test]
fn each_kind_of_node_reads_as_it_should() {
    let mut m = mount();
    assert_eq!(m.read_path("/a", file(b"abc")).unwrap(), b"abc");
    assert_eq!(m.read_path("/a", dir()), Err("not a regular file"));
    assert_eq!(m.read_path("/a", link()), Err("not a regular file"));
    assert_eq!(m.read_path("/a", missing()), Err("not found"));
    assert_eq!(m.read_path("/a", unreadable()), Err("underlay read error"));
    m.overlay.create_dir("/d", 0o040755, 1);
    assert_eq!(m.read_path("/d", file(b"abc")), Err("not a regular file"));
    m.overlay.delete("/a");
    assert_eq!(m.read_path("/a", file(b"abc")), Err("not found"));
}

#[test]
fn a_write_changes_its_bytes_and_no_others() {
    let mut m = mount();
    m.write_path("/a", 2, b"XY", file(b"abcdef"), 11).unwrap();
    assert_eq!(m.read_path("/a", missing()).unwrap(), b"abXYef");
    assert_eq!(
        staged(&m.overlay, "/a"),
        ('m', b"abXYef".to_vec(), 0o100640, 11)
    );
    assert!(m.needs_underlay("/b"));
}

#[test]
fn a_write_past_the_end_fills_with_zeros() {
    let mut m = mount();
    m.write_path("/a", 5, b"Z", file(b"abc"), 1).unwrap();
    assert_eq!(m.read_path("/a", missing()).unwrap(), b"abc\0\0Z");
    m.write_path("/a", 8, b"", missing(), 1).unwrap();
    assert_eq!(m.read_path("/a", missing()).unwrap(), b"abc\0\0Z\0\0");
}

#[test]
fn consecutive_writes_join_and_later_ones_stand() {
    let mut m = mount();
    m.write_path("/a", 1, b"12", file(b"......"), 1).unwrap();
    m.write_path("/a", 3, b"34", missing(), 1).unwrap();
    assert_eq!(m.read_path("/a", missing()).unwrap(), b".1234.");
    m.write_path("/a", 1, b"ab", missing(), 1).unwrap();
    assert_eq!(m.read_path("/a", missing()).unwrap(), b".ab34.");
}

#[test]
fn a_refused_write_says_why_and_changes_nothing() {
    let mut m = mount();
    m.overlay.create_dir("/d", 0o040755, 1);
    m.overlay.delete("/x");
    let before = m.overlay.snapshot().len();
    assert_eq!(m.write_path("/d", 0, b"1", file(b""), 1), Err("write on directory"));
    assert_eq!(
        m.write_path("/x", 0, b"1", file(b""), 1),
        Err("write on tombstoned path")
    );
    assert_eq!(
        m.write_path("/a", 0, b"1", dir(), 1),
        Err("write on non-regular underlay entry")
    );
    assert_eq!(
        m.write_path("/a", 0, b"1", link(), 1),
        Err("write on non-regular underlay entry")
    );
    assert_eq!(
        m.write_path("/a", 0, b"1", missing(), 1),
        Err("write on missing path")
    );
    assert_eq!(
        m.write_path("/a", 0, b"1", unreadable(), 1),
        Err("underlay read error")
    );
    assert_eq!(
        m.write_path("/a", u64::MAX, b"1", file(b""), 1),
        Err("offset+len overflow")
    );
    assert_eq!(m.overlay.snapshot().len(), before);
}

#[test]
fn a_file_is_cut_and_extended() {
    let mut m = mount();
    m.set_size_path("/a", 2, file(b"abc"), 1).unwrap();
    assert_eq!(m.read_path("/a", missing()).unwrap(), b"ab");
    m.set_size_path("/a", 4, missing(), 1).unwrap();
    assert_eq!(m.read_path("/a", missing()).unwrap(), b"ab\0\0");
    m.set_size_path("/a", 2, missing(), 1).unwrap();
    assert_eq!(m.read_path("/a", missing()).unwrap(), b"ab");
    m.overlay.create_dir("/d", 1, 1);
    m.overlay.delete("/x");
    assert_eq!(m.set_size_path("/d", 0, missing(), 1), Err("set_size on directory"));
    assert_eq!(
        m.set_size_path("/x", 0, file(b"1"), 1),
        Err("set_size on tombstoned path")
    );
    assert_eq!(
        m.set_size_path("/b", 0, dir(), 1),
        Err("set_size on non-regular underlay entry")
    );
    assert_eq!(m.set_size_path("/b", 0, missing(), 1), Err("set_size on missing path"));
    assert_eq!(m.set_size_path("/b", 0, unreadable(), 1), Err("underlay read error"));
}

#[test]
fn a_rename_moves_content_and_mode() {
    let mut m = mount();
    m.rename_path("/a", "/b", false, file(b"abc"), false, 4).unwrap();
    assert_eq!(staged(&m.overlay, "/b"), ('c', b"abc".to_vec(), 0o100640, 4));
    assert_eq!(staged(&m.overlay, "/a").0, 'x');
    assert_eq!(m.read_path("/a", file(b"abc")), Err("not found"));
}

#[test]
fn a_rename_back_restores_the_file() {
    let mut m = mount();
    m.rename_path("/a", "/b", false, file(b"abc"), false, 4).unwrap();
    m.rename_path("/b", "/a", false, missing(), true, 5).unwrap();
    assert_eq!(staged(&m.overlay, "/a"), ('c', b"abc".to_vec(), 0o100640, 5));
    assert_eq!(staged(&m.overlay, "/b").0, 'x');
}

#[test]
fn a_directory_renames_as_an_empty_one() {
    let mut m = mount();
    m.rename_path("/d", "/e", false, dir(), false, 4).unwrap();
    assert_eq!(staged(&m.overlay, "/e"), ('d', vec![], 0o040750, 4));
    m.rename_path("/e", "/f", false, missing(), false, 5).unwrap();
    assert_eq!(staged(&m.overlay, "/f"), ('d', vec![], 0o040750, 5));
    assert!(m.needs_underlay("/d/child"), "children stay where they were");
}

#[test]
fn a_rename_onto_itself_changes_nothing() {
    let mut m = mount();
    m.rename_path("/a", "/a", false, missing(), true, 4).unwrap();
    assert_eq!(m.overlay.snapshot().len(), 0);
}

#[test]
fn a_rename_respects_the_destination() {
    let mut m = mount();
    m.overlay.create_file("/taken", b"t".to_vec(), 1, 1);
    assert_eq!(
        m.rename_path("/a", "/taken", false, file(b"1"), false, 1),
        Err("rename: destination exists")
    );
    assert_eq!(
        m.rename_path("/a", "/image", false, file(b"1"), true, 1),
        Err("rename: destination exists")
    );
    assert_eq!(staged(&m.overlay, "/a").0, '-');
    m.overlay.delete("/image");
    m.rename_path("/a", "/image", false, file(b"1"), true, 2).unwrap();
    m.rename_path("/c", "/taken", true, file(b"2"), false, 2).unwrap();
    assert_eq!(staged(&m.overlay, "/taken").1, b"2");
}

#[test]
fn a_rename_needs_a_source() {
    let mut m = mount();
    let mut rename = |node| m.rename_path("/a", "/b", true, node, false, 1);
    assert_eq!(rename(missing()), Err("rename: source not found"));
    assert_eq!(
        rename(link()),
        Err("rename: source is not a file or directory")
    );
    assert_eq!(rename(unreadable()), Err("underlay read error"));
    m.overlay.delete("/a");
    assert_eq!(
        m.rename_entry("/a", "/b", true, file(b"1"), false, 1),
        Err(RenameError::SourceNotFound)
    );
}
