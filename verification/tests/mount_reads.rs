//! What the driver reads out of an XFS filesystem, end to end: a volume
//! formatted in memory, read through the slice that `Mount::open` gives,
//! and seen through the overlay.

use std::collections::HashMap;
use std::path::PathBuf;
use std::sync::{Arc, Mutex};

use fs_core::{BlockDevice, BlockRead};
use fs_xfs::mkfs;
use fs_xfs::Filesystem;

use xfs_win_driver::context::XfsContext;
use xfs_win_driver::device::{metadata_cache, PartitionDevice, Superblock, CACHE_BLOCKS};
use xfs_win_driver::info::{Inode, Timestamp};
use xfs_win_driver::listing::{DirEntry, MergedEntry};
use xfs_win_driver::mount::{Mount, UnderlayNode};
use xfs_win_driver::reparse::{fill_link_reparse_buffer, LinkAnswer, IO_REPARSE_TAG_SYMLINK};
use xfs_win_driver::status::{FsError, Status};

const BLOCK: u64 = 4096;

/// A disk in memory that holds only what was written.
struct Disk {
    blocks: Mutex<HashMap<u64, Vec<u8>>>,
    size: u64,
}

impl BlockRead for Disk {
    fn read_at(&self, offset: u64, buf: &mut [u8]) -> fs_core::Result<()> {
        if offset + buf.len() as u64 > self.size {
            return Err(fs_core::Error::ShortRead {
                offset,
                want: buf.len(),
                got: 0,
            });
        }
        let blocks = self.blocks.lock().unwrap();
        let mut done = 0;
        while done < buf.len() {
            let at = offset + done as u64;
            let start = (at % BLOCK) as usize;
            let n = (BLOCK as usize - start).min(buf.len() - done);
            let part = &mut buf[done..done + n];
            match blocks.get(&(at / BLOCK)) {
                Some(block) => part.copy_from_slice(&block[start..start + n]),
                None => part.fill(0),
            }
            done += n;
        }
        Ok(())
    }

    fn size_bytes(&self) -> u64 {
        self.size
    }
}

impl BlockDevice for Disk {
    fn write_at(&self, offset: u64, buf: &[u8]) -> fs_core::Result<()> {
        let mut blocks = self.blocks.lock().unwrap();
        let mut done = 0;
        while done < buf.len() {
            let at = offset + done as u64;
            let start = (at % BLOCK) as usize;
            let n = (BLOCK as usize - start).min(buf.len() - done);
            let part = &buf[done..done + n];
            if part.iter().any(|b| *b != 0) || blocks.contains_key(&(at / BLOCK)) {
                let block = blocks
                    .entry(at / BLOCK)
                    .or_insert_with(|| vec![0; BLOCK as usize]);
                block[start..start + n].copy_from_slice(part);
            }
            done += n;
        }
        Ok(())
    }

    fn is_writable(&self) -> bool {
        true
    }
}

/// The slice of a disk that a mount reads through.
struct Slice {
    disk: Arc<Disk>,
    slice: PartitionDevice,
}

impl BlockRead for Slice {
    fn read_at(&self, offset: u64, buf: &mut [u8]) -> fs_core::Result<()> {
        match self.slice.read_at(offset, buf.len()) {
            Ok(at) => self.disk.read_at(at, buf),
            Err(e) => Err(fs_core::Error::ShortRead {
                offset: e.offset,
                want: e.want,
                got: e.got,
            }),
        }
    }

    fn size_bytes(&self) -> u64 {
        self.slice.size_bytes()
    }
}

fn pattern() -> Vec<u8> {
    (0..3 * 1024 * 1024 / 8u64)
        .flat_map(|i| i.to_le_bytes())
        .collect()
}

/// The checksum of XFS metadata: CRC-32C with the stored one taken as zero.
fn stamp(block: &mut [u8], at: usize) {
    block[at..at + 4].fill(0);
    let mut crc = !0u32;
    for byte in block.iter() {
        crc ^= u32::from(*byte);
        for _ in 0..8 {
            crc = (crc >> 1) ^ (0x82F6_3B78 & (0u32.wrapping_sub(crc & 1)));
        }
    }
    block[at..at + 4].copy_from_slice(&(!crc).to_le_bytes());
}

fn put<const N: usize>(block: &mut [u8], at: usize, bytes: [u8; N]) {
    block[at..at + N].copy_from_slice(&bytes);
}

/// Makes volumes, and reaches for what the file system's own writer cannot
/// make: links, and files in many pieces.
struct Maker {
    disk: Arc<Disk>,
    fs: Filesystem,
    log: (u64, Vec<u8>),
}

impl Maker {
    /// An empty volume with directory blocks of 16 KiB.
    fn new() -> Maker {
        let disk = Arc::new(Disk {
            blocks: Mutex::new(HashMap::new()),
            size: 512 * 1024 * 1024,
        });
        let opts = mkfs::Options {
            label: Some("fixture".to_string()),
            ..mkfs::Options::default()
        };
        let mut sb = mkfs::format(disk.as_ref(), &opts).expect("format");
        sb.dirblklog = 2;
        let mut sector = vec![0u8; 512];
        disk.read_at(0, &mut sector).unwrap();
        fs_xfs::super_write::apply(&mut sector, &sb).expect("set the directory block size");
        disk.write_at(0, &sector).unwrap();
        let at = sb.fsblock_offset(sb.logstart);
        let mut log = vec![0u8; sb.logblocks as usize * sb.blocksize as usize];
        disk.read_at(at, &mut log).unwrap();
        let fs = Filesystem::mount_rw(disk.clone()).expect("mount for writing");
        Maker {
            disk,
            fs,
            log: (at, log),
        }
    }

    fn root(&self) -> u64 {
        self.fs.superblock().rootino
    }

    fn file(&self, parent: u64, name: &str, data: &[u8]) -> u64 {
        let (ino, _) = self
            .fs
            .create_file(parent, name.as_bytes(), 0o644)
            .expect("create a file");
        if !data.is_empty() {
            self.fs.write_into_empty_file(ino, data).expect("fill it");
        }
        ino
    }

    fn dir(&self, parent: u64, name: &str) -> u64 {
        self.fs
            .create_directory(parent, name.as_bytes(), 0o755)
            .expect("create a directory")
            .0
    }

    /// Writes everything out, and puts the log back as it was: nothing is
    /// left to replay.
    fn settle(&self) {
        self.fs.sync().expect("sync");
        self.disk.write_at(self.log.0, &self.log.1).unwrap();
    }

    fn patch_inode(&self, ino: u64, change: impl FnOnce(&mut [u8])) {
        let at = self.fs.inode_offset(ino).unwrap();
        let mut raw = vec![0u8; usize::from(self.fs.superblock().inodesize)];
        self.disk.read_at(at, &mut raw).unwrap();
        change(&mut raw);
        stamp(&mut raw, 100);
        self.disk.write_at(at, &raw).unwrap();
    }

    /// Turns an empty file into a symbolic link with its target inline.
    fn make_link(&self, ino: u64, target: &[u8]) {
        self.patch_inode(ino, |raw| {
            put(raw, 2, 0o120777u16.to_be_bytes());
            raw[5] = 1;
            put(raw, 56, (target.len() as u64).to_be_bytes());
            raw[176..176 + target.len()].copy_from_slice(target);
        });
    }

    /// One block of an extent tree.
    fn tree_block(&self, ino: u64, fsblock: u64, level: u16, keys: &[u64], body: &[u8], n: u16) {
        let sb = self.fs.superblock();
        let mut block = vec![0u8; sb.blocksize as usize];
        put(&mut block, 0, 0x424d_4133u32.to_be_bytes());
        put(&mut block, 4, level.to_be_bytes());
        put(&mut block, 6, n.to_be_bytes());
        put(&mut block, 8, u64::MAX.to_be_bytes());
        put(&mut block, 16, u64::MAX.to_be_bytes());
        put(&mut block, 24, (sb.fsblock_offset(fsblock) / 512).to_be_bytes());
        put(&mut block, 40, sb.meta_uuid);
        put(&mut block, 56, ino.to_be_bytes());
        for (i, key) in keys.iter().enumerate() {
            put(&mut block, 72 + 8 * i, key.to_be_bytes());
        }
        let room = (block.len() - 72) / 16;
        let at = if level == 0 { 72 } else { 72 + 8 * room };
        block[at..at + body.len()].copy_from_slice(body);
        stamp(&mut block, 64);
        self.disk
            .write_at(sb.fsblock_offset(fsblock), &block)
            .unwrap();
    }

    /// The blocks of a file, one by one.
    fn blocks_of(&self, ino: u64) -> Vec<u64> {
        let (inode, raw) = self.fs.read_inode_raw(ino).unwrap();
        self.fs
            .data_extents(&inode, &raw)
            .unwrap()
            .iter()
            .flat_map(|e| (0..e.blockcount).map(|i| e.startblock + i))
            .collect()
    }

    /// Gives an inode these extents, `(offset, block, count)`, and this
    /// size, through an extent tree of two levels below its root. The
    /// tree's own blocks are taken from `spare`.
    fn map_extents(
        &self,
        ino: u64,
        extents: &[(u64, u64, u64)],
        size: u64,
        per_leaf: usize,
        spare: &[u64],
    ) {
        let mut spare = spare.iter().copied();
        let records: Vec<(u64, [u8; 16])> = extents
            .iter()
            .map(|&(startoff, startblock, blockcount)| {
                let e = fs_xfs::extent::Extent {
                    startoff,
                    startblock,
                    blockcount,
                    unwritten: false,
                };
                (startoff, e.to_bytes().unwrap())
            })
            .collect();
        let leaves: Vec<(u64, u64)> = records
            .chunks(per_leaf)
            .map(|chunk| {
                let at = spare.next().unwrap();
                let body: Vec<u8> = chunk.iter().flat_map(|(_, r)| *r).collect();
                self.tree_block(ino, at, 0, &[], &body, chunk.len() as u16);
                (chunk[0].0, at)
            })
            .collect();
        let nodes: Vec<(u64, u64)> = leaves
            .chunks(20)
            .map(|chunk| {
                let at = spare.next().unwrap();
                let keys: Vec<u64> = chunk.iter().map(|(k, _)| *k).collect();
                let body: Vec<u8> = chunk.iter().flat_map(|(_, p)| p.to_be_bytes()).collect();
                self.tree_block(ino, at, 1, &keys, &body, chunk.len() as u16);
                (chunk[0].0, at)
            })
            .collect();
        let wide = self.fs.superblock().features_incompat & fs_xfs::superblock::incompat::NREXT64;
        self.patch_inode(ino, |raw| {
            raw[5] = 3;
            put(raw, 56, size.to_be_bytes());
            if wide != 0 {
                put(raw, 24, (extents.len() as u64).to_be_bytes());
            } else {
                put(raw, 76, (extents.len() as u32).to_be_bytes());
            }
            // The root ends where an attribute fork starts, if there is one.
            let end = match raw[82] {
                0 => raw.len(),
                forkoff => 176 + 8 * usize::from(forkoff),
            };
            let fork = &mut raw[176..end];
            let room = (fork.len() - 4) / 16;
            put(fork, 0, 2u16.to_be_bytes());
            put(fork, 2, (nodes.len() as u16).to_be_bytes());
            for (i, (key, at)) in nodes.iter().enumerate() {
                put(fork, 4 + 8 * i, key.to_be_bytes());
                put(fork, 4 + 8 * room + 8 * i, at.to_be_bytes());
            }
        });
    }

    /// Writes one data block of a directory, all names for the same inode.
    fn dir_data_block(&self, dir: u64, fsblock: u64, names: &[String], ino: u64) {
        let sb = self.fs.superblock();
        let mut block = vec![0u8; sb.dirblocksize() as usize];
        put(&mut block, 0, 0x5844_4433u32.to_be_bytes());
        put(&mut block, 8, (sb.fsblock_offset(fsblock) / 512).to_be_bytes());
        put(&mut block, 24, sb.meta_uuid);
        put(&mut block, 40, dir.to_be_bytes());
        let mut at = 64;
        for name in names {
            let len = fs_xfs::dir_block::entry_size(name.len());
            put(&mut block, at, ino.to_be_bytes());
            block[at + 8] = name.len() as u8;
            block[at + 9..at + 9 + name.len()].copy_from_slice(name.as_bytes());
            block[at + 9 + name.len()] = 1;
            put(&mut block, at + len - 2, (at as u16).to_be_bytes());
            at += len;
        }
        let free = block.len() - at;
        put(&mut block, 48, (at as u16).to_be_bytes());
        put(&mut block, 50, (free as u16).to_be_bytes());
        put(&mut block, at, 0xFFFFu16.to_be_bytes());
        put(&mut block, at + 2, (free as u16).to_be_bytes());
        let end = block.len();
        put(&mut block, end - 2, (at as u16).to_be_bytes());
        stamp(&mut block, 4);
        self.disk
            .write_at(sb.fsblock_offset(fsblock), &block)
            .unwrap();
    }
}

/// A volume with known files on it.
fn fixture() -> Arc<Disk> {
    let m = Maker::new();
    let root = m.root();
    m.file(root, "small.txt", b"hello xfs");
    m.file(root, "empty.txt", b"");
    m.file(root, "na\u{ef}ve-caf\u{e9}.txt", b"unicode name");
    m.file(root, "pattern.bin", &pattern());
    let d = m.dir(root, "dir");
    let nested = m.dir(d, "nested");
    let deep = m.dir(nested, "deep");
    m.file(deep, "leaf.txt", b"level three");
    let many = m.dir(root, "manyentries");
    for i in 1..=200 {
        m.file(many, &format!("entry-{i}.txt"), b"");
    }
    let link = m.file(root, "link-to-small", b"");
    let dangling = m.file(root, "dangling-link", b"");
    m.settle();
    m.make_link(link, b"/small.txt");
    m.make_link(dangling, b"/nowhere-at-all");
    m.disk
}

/// A mounted volume with the image below it.
struct Volume {
    fs: Filesystem,
    mount: Mount,
}

fn fs_error(e: &fs_xfs::Error) -> FsError {
    match e {
        fs_xfs::Error::NotFound => FsError::NotFound,
        fs_xfs::Error::NotADirectory => FsError::NotADirectory,
        fs_xfs::Error::NotAFile => FsError::NotAFile,
        _ => FsError::Other,
    }
}

fn inode_of(i: &fs_xfs::inode::Inode) -> Inode {
    Inode {
        ino: i.ino,
        mode: i.mode,
        size: i.size,
        mtime: Timestamp {
            sec: i.mtime.sec,
            nsec: i.mtime.nsec,
        },
    }
}

impl Volume {
    fn open(disk: &Arc<Disk>) -> Volume {
        let (mount, slice) = Mount::open(
            PathBuf::from("fixture.img"),
            None,
            disk.size_bytes(),
            &Vec::new(),
        )
        .expect("Mount::open on an XFS image");
        let device = Slice {
            disk: disk.clone(),
            slice,
        };
        let fs = Filesystem::mount(Arc::new(device)).expect("mount through the slice");
        assert!(!fs.was_replayed(), "the image is read as it lies on the disk");
        Volume { fs, mount }
    }

    fn node(&self, path: &str) -> UnderlayNode {
        match self.fs.lookup_path(path) {
            Ok(found) => {
                let inode = inode_of(&found);
                let content = if inode.is_regular_file() {
                    self.fs.read_path(path).map_err(|e| fs_error(&e))
                } else {
                    Ok(Vec::new())
                };
                UnderlayNode::Node { inode, content }
            }
            Err(e) => UnderlayNode::Missing(fs_error(&e)),
        }
    }

    fn read_path(&self, path: &str) -> Result<Vec<u8>, &'static str> {
        self.mount.read_path(path, self.node(path))
    }
}

#[test]
fn mount_open_reads_a_real_filesystem() {
    let v = Volume::open(&fixture());

    let sb = v.fs.superblock();
    assert!(
        sb.blocksize.is_power_of_two(),
        "block size must be a power of two"
    );
    assert!(sb.dblocks > 0, "a formatted filesystem has data blocks");
    assert!(
        sb.agcount > 0,
        "a formatted filesystem has allocation groups"
    );
    assert!(sb.rootino > 0, "there is a root inode");

    let root = v.fs.root().expect("open the root");
    assert!(root.is_dir(), "the root is a directory");
    assert!(
        inode_of(root.inode()).is_dir(),
        "and the driver sees it as one"
    );
    let entries = root.entries().expect("list the root");
    assert!(
        entries.iter().any(|e| e.name != b"." && e.name != b".."),
        "the fixture's root should not be empty"
    );
}

#[test]
fn read_path_returns_the_exact_bytes() {
    let v = Volume::open(&fixture());

    assert_eq!(
        v.read_path("/small.txt").expect("read small.txt"),
        b"hello xfs",
        "the file's bytes are not what the fixture wrote"
    );
    assert_eq!(
        v.read_path("/empty.txt").expect("read empty.txt"),
        Vec::<u8>::new(),
        "an empty file reads as no bytes, not as an error"
    );
    assert_eq!(
        v.read_path("/dir/nested/deep/leaf.txt")
            .expect("read a nested file"),
        b"level three",
        "path walking past one level is wrong"
    );
    assert_eq!(
        v.read_path("/na\u{ef}ve-caf\u{e9}.txt")
            .expect("read a non-ASCII name"),
        b"unicode name"
    );
}

#[test]
fn a_large_file_reads_back_at_the_right_offsets() {
    let v = Volume::open(&fixture());

    let all = v.read_path("/pattern.bin").expect("read pattern.bin");
    assert_eq!(
        all.len(),
        3 * 1024 * 1024,
        "the whole file should come back"
    );
    let groups = all.chunks_exact(8);
    assert!(
        groups.remainder().is_empty(),
        "the file should be a whole number of groups"
    );
    for (index, chunk) in groups.enumerate() {
        let value = u64::from_le_bytes(chunk.try_into().unwrap());
        assert_eq!(
            value,
            index as u64,
            "byte offset {} holds {} instead of {}",
            index * 8,
            value,
            index
        );
    }
}

#[test]
fn a_large_directory_lists_every_entry() {
    let v = Volume::open(&fixture());
    let ctx = XfsContext::new(v.mount, &superblock_of(&v.fs));
    let mut info = no_info();
    let name: Vec<u16> = "\\manyentries".encode_utf16().collect();
    let path = ctx.image_path(&name).expect("only the image has it");
    let inode = v.fs.lookup_path(&path).expect("open the large directory");
    let mut handle = ctx
        .open(&name, Ok(inode_of(&inode)), &mut info)
        .expect("open it");
    let children: Vec<DirEntry> = v
        .fs
        .list_path(&path)
        .expect("list it")
        .into_iter()
        .map(|e| DirEntry {
            name: e.name.clone(),
            ino: e.ino,
        })
        .collect();
    let found = ctx
        .children_to_read(&handle, Some(children))
        .into_iter()
        .map(|(n, ino)| (n, v.fs.read_inode(ino).ok().map(|i| inode_of(&i))))
        .collect();
    let names: Vec<String> = ctx
        .read_directory(&mut handle, found, None)
        .expect("rows")
        .into_iter()
        .map(|row| row.name)
        .collect();

    assert_eq!(names.len(), 200, "every entry should be listed");
    for i in 1..=200 {
        let want = format!("entry-{i}.txt");
        assert!(names.contains(&want), "{want} is missing from the listing");
    }
}

#[test]
fn a_btree_format_directory_lists_every_entry() {
    let m = Maker::new();
    let pool = m.file(m.root(), "pool.bin", &vec![1u8; 300 * 4096]);
    let target = m.file(m.root(), "target.txt", b"");
    let dir = m.dir(m.root(), "bmbtdir");
    m.settle();
    // A directory block is four blocks; one of its own for every group of
    // names, with a hole behind it.
    let blocks = m.blocks_of(pool);
    let mut extents = Vec::new();
    for b in 1..=60usize {
        let names: Vec<String> = (1..=120).map(|j| format!("f-{b}-{j}")).collect();
        let at = blocks[4 * (b - 1)];
        m.dir_data_block(dir, at, &names, target);
        extents.push((8 * (b as u64 - 1), at, 4));
    }
    m.map_extents(dir, &extents, 60 * 8 * 4096, 10, &blocks[240..]);
    let v = Volume::open(&m.disk);

    let inode = v.fs.lookup_path("/bmbtdir").expect("find the directory");
    assert!(
        matches!(inode.format, fs_xfs::inode::Format::Btree),
        "/bmbtdir is in {:?} format, so the fixture no longer produces more extents \
         than fit inline and this test would prove nothing about bmbt::walk",
        inode.format
    );

    let opened = v
        .fs
        .open("/bmbtdir")
        .expect("open the btree-format directory");
    let children: Vec<DirEntry> = opened
        .entries()
        .expect("list it -- this walk reads a real two-level bmap tree")
        .into_iter()
        .map(|e| DirEntry {
            name: e.name.clone(),
            ino: e.ino,
        })
        .collect();
    let mut want: Vec<String> = (1..=60)
        .flat_map(|b| (1..=120).map(move |j| format!("f-{b}-{j}")))
        .collect();
    want.sort();

    let ctx = XfsContext::new(v.mount, &superblock_of(&v.fs));
    let name: Vec<u16> = "\\bmbtdir".encode_utf16().collect();
    let mut handle = ctx
        .open(&name, Ok(inode_of(&inode)), &mut no_info())
        .unwrap();
    let found = ctx
        .children_to_read(&handle, Some(children))
        .into_iter()
        .map(|(n, ino)| (n, v.fs.read_inode(ino).ok().map(|i| inode_of(&i))))
        .collect();
    let got: Vec<String> = ctx
        .read_directory(&mut handle, found, None)
        .unwrap()
        .into_iter()
        .map(|row| row.name)
        .collect();
    assert_eq!(got, want, "the listing should be exactly what was written");
}

#[test]
fn a_deeply_fragmented_file_reads_back_extent_by_extent() {
    const EXTENTS: usize = 6000;
    // Written blocks sit at every other position, so the file is twice as
    // long as it has extents.
    const BLOCKS: usize = EXTENTS * 2;

    let m = Maker::new();
    let mut data = vec![0u8; (EXTENTS + 64) * 4096];
    for (i, block) in data.chunks_mut(4096).enumerate() {
        block[..8].copy_from_slice(&(i as u64).to_le_bytes());
        block[4095] = 0xEE;
    }
    let pool = m.file(m.root(), "pool.bin", &data);
    let deep = m.file(m.root(), "deepfile.bin", b"");
    m.settle();
    let blocks = m.blocks_of(pool);
    let extents: Vec<(u64, u64, u64)> = (0..EXTENTS)
        .map(|i| (2 * i as u64, blocks[i], 1))
        .collect();
    let size = BLOCKS as u64 * 4096;
    m.map_extents(deep, &extents, size, 200, &blocks[EXTENTS..]);
    let v = Volume::open(&m.disk);

    let inode = v
        .fs
        .lookup_path("/deepfile.bin")
        .expect("find the fragmented file");
    assert!(
        matches!(inode.format, fs_xfs::inode::Format::Btree) && inode.nextents > 1000,
        "/deepfile.bin has {} extents in {:?} format: the fixture is no longer \
         fragmenting it, so this test would read an inline extent array and \
         prove nothing about tree depth",
        inode.nextents,
        inode.format
    );

    let all = v.read_path("/deepfile.bin").expect("read the whole file");
    assert_eq!(all.len(), BLOCKS * 4096, "every block should come back");

    let blocks = all.chunks_exact(4096);
    assert!(
        blocks.remainder().is_empty(),
        "the file should be a whole number of blocks"
    );
    for (index, block) in blocks.enumerate() {
        if index % 2 == 1 {
            assert!(
                block.iter().all(|&b| b == 0),
                "block {index} is a hole and should read back as zeros"
            );
            continue;
        }
        let mut key = [0u8; 8];
        key.copy_from_slice(&block[..8]);
        let stamp = u64::from_le_bytes(key);
        assert_eq!(
            stamp,
            (index / 2) as u64,
            "block {index} carries extent {stamp} -- the descent reached the wrong \
             extent, or a whole subtree was skipped"
        );
    }
}

/// What the image says of the link at a path.
fn link_at(fs: &Filesystem, path: &str) -> LinkAnswer {
    match fs.open(path) {
        Err(e) => LinkAnswer::OpenFailed(fs_error(&e)),
        Ok(file) if !file.is_symlink() => LinkAnswer::NotALink,
        Ok(file) => match file.link_target() {
            Ok(target) => LinkAnswer::Target(target),
            Err(e) => LinkAnswer::TargetFailed(fs_error(&e)),
        },
    }
}

#[test]
fn symlinks_report_their_target_without_resolving_it() {
    let v = Volume::open(&fixture());

    let link = v.fs.open("/link-to-small").expect("open the symlink");
    assert!(link.is_symlink(), "it should be a symlink");
    assert!(inode_of(link.inode()).is_symlink());
    assert_eq!(link.link_target().expect("read target"), b"/small.txt");

    let dangling = v
        .fs
        .open("/dangling-link")
        .expect("open the dangling symlink");
    assert!(dangling.is_symlink());
    assert_eq!(
        dangling
            .link_target()
            .expect("a dangling target still reads"),
        b"/nowhere-at-all",
        "a target that resolves to nothing is still a target"
    );

    let spelled = |path: &str| {
        let mut buffer = vec![0u8; 1024];
        let n = fill_link_reparse_buffer(path, link_at(&v.fs, path), &mut buffer)? as usize;
        assert_eq!(buffer[..4], IO_REPARSE_TAG_SYMLINK.to_le_bytes());
        let len = u16::from_le_bytes([buffer[10], buffer[11]]) as usize;
        assert_eq!(n, 20 + 2 * len);
        let units: Vec<u16> = buffer[20..20 + len]
            .chunks(2)
            .map(|c| u16::from_le_bytes([c[0], c[1]]))
            .collect();
        Ok(String::from_utf16(&units).unwrap())
    };
    assert_eq!(spelled("/link-to-small"), Ok("\\small.txt".to_string()));
    assert_eq!(
        spelled("/dangling-link"),
        Ok("\\nowhere-at-all".to_string()),
        "a target that resolves to nothing is still a target"
    );
    assert_eq!(spelled("/small.txt"), Err(Status::NotAReparsePoint));
    assert_eq!(spelled("/no-such-link"), Err(Status::ObjectNameNotFound));
    assert_eq!(v.read_path("/link-to-small"), Err("not a regular file"));
}

#[test]
fn missing_paths_are_refused() {
    let v = Volume::open(&fixture());

    for missing in [
        "/definitely-not-here",
        "/dir/not-here-either",
        "/small.txt/treated-as-a-directory",
    ] {
        assert!(
            v.read_path(missing).is_err(),
            "{missing} does not exist and must not read as empty"
        );
        assert_eq!(v.read_path(missing), Err("not found"));
    }
}

#[test]
fn a_directory_is_not_readable_as_a_file() {
    let v = Volume::open(&fixture());
    assert!(
        v.read_path("/dir").is_err(),
        "a directory must not read as file content"
    );
    assert_eq!(v.read_path("/dir"), Err("not a regular file"));
}

#[test]
fn a_partition_index_on_an_unpartitioned_image_is_refused() {
    let disk = fixture();
    assert!(
        Mount::open(
            PathBuf::from("fixture.img"),
            Some(1),
            disk.size_bytes(),
            &Vec::new()
        )
        .is_err(),
        "there is no partition 1 on a bare filesystem image"
    );
}

#[test]
fn volume_totals_match_the_superblock() {
    let v = Volume::open(&fixture());
    let sb = v.fs.superblock();

    let total = sb.dblocks * u64::from(sb.blocksize);
    let free = sb.fdblocks * u64::from(sb.blocksize);

    assert!(total > 0, "a formatted filesystem has a size");
    assert!(free <= total, "free space cannot exceed the total");
    assert!(
        total >= 16 * 1024 * 1024,
        "mkfs.xfs will not make one smaller than about 16 MiB, so this is suspect"
    );

    let ctx = XfsContext::new(v.mount, &superblock_of(&v.fs));
    let info = ctx.get_volume_info();
    assert_eq!(info.total_size, total);
    assert_eq!(info.free_size, total.min(1 << 30));
    assert_eq!(info.label, "fixture");
}

#[test]
fn the_cache_is_sized_by_the_superblock() {
    let disk = fixture();
    let mut head = vec![0u8; xfs_win_driver::device::SUPERBLOCK_BYTES];
    disk.read_at(0, &mut head).unwrap();
    let v = Volume::open(&disk);
    let sb = v.fs.superblock();
    let plan = metadata_cache(&head, "fixture.img").expect("a superblock");
    assert_eq!(plan.record_bytes, u64::from(sb.inodesize));
    assert_eq!(plan.directory_bytes, u64::from(sb.dirblocksize()));
    assert_eq!(plan.blocks, CACHE_BLOCKS);
    assert_eq!(plan.record_bytes, 512);
    assert_eq!(plan.directory_bytes, 16384);

    head[0] ^= 0xff;
    let e = metadata_cache(&head, "fixture.img").unwrap_err();
    let why = fs_xfs::Superblock::parse(&head).unwrap_err();
    assert_eq!(e, format!("parsing superblock of fixture.img: {why}"));
}

#[test]
fn a_renamed_image_file_moves_and_stays_moved() {
    let mut v = Volume::open(&fixture());
    let node = v.node("/small.txt");
    let to_taken = v.fs.lookup_path("/moved.txt").is_ok();
    v.mount
        .rename_path("/small.txt", "/moved.txt", false, node, to_taken, 7)
        .expect("rename");
    assert_eq!(v.read_path("/moved.txt").unwrap(), b"hello xfs");
    assert_eq!(v.read_path("/small.txt"), Err("not found"));
    assert!(!v.mount.needs_underlay("/small.txt"));
}

#[test]
fn a_written_image_file_keeps_its_other_bytes() {
    let mut v = Volume::open(&fixture());
    let node = v.node("/small.txt");
    v.mount
        .write_path("/small.txt", 6, b"XFS!", node, 7)
        .expect("write");
    assert_eq!(v.read_path("/small.txt").unwrap(), b"hello XFS!");
    assert!(v.mount.apply_dismount_policy().is_none());
    assert_eq!(
        v.read_path("/small.txt").unwrap(),
        b"hello XFS!",
        "a discarded overlay goes with the mount"
    );
    v.mount.overlay.clear();
    assert_eq!(
        v.read_path("/small.txt").unwrap(),
        b"hello xfs",
        "an empty overlay leaves the image as it was"
    );
}

#[test]
fn the_merged_root_shows_image_and_overlay() {
    let mut v = Volume::open(&fixture());
    v.mount.overlay.create_file("/aaa", b"new".to_vec(), 0o100644, 1);
    v.mount.overlay.delete("/empty.txt");
    let node = v.node("/small.txt");
    v.mount.write_path("/small.txt", 0, b"J", node, 2).unwrap();
    let ctx = XfsContext::new(v.mount, &superblock_of(&v.fs));
    let mut info = no_info();
    let root = v.fs.lookup_path("/").unwrap();
    let handle = ctx
        .open(&[u16::from(b'\\')], Ok(inode_of(&root)), &mut info)
        .unwrap();
    let children = v
        .fs
        .list_path("/")
        .unwrap()
        .into_iter()
        .map(|e| DirEntry {
            name: e.name.clone(),
            ino: e.ino,
        })
        .collect();
    let found = ctx
        .children_to_read(&handle, Some(children))
        .into_iter()
        .map(|(n, ino)| (n, v.fs.read_inode(ino).ok().map(|i| inode_of(&i))))
        .collect();
    let list = ctx.build_merged_listing(&handle, found);
    let names: Vec<&str> = list.iter().map(|e| e.name()).collect();
    assert_eq!(
        names,
        vec![
            "aaa",
            "dangling-link",
            "dir",
            "link-to-small",
            "manyentries",
            "na\u{ef}ve-caf\u{e9}.txt",
            "pattern.bin",
            "small.txt"
        ]
    );
    assert!(matches!(list[0], MergedEntry::Overlay(..)));
    assert!(matches!(list[1], MergedEntry::Underlay(..)));
    assert!(matches!(list[7], MergedEntry::Overlay(..)));
}

fn superblock_of(fs: &Filesystem) -> Superblock {
    let sb = fs.superblock();
    Superblock {
        blocksize: sb.blocksize,
        dblocks: sb.dblocks,
        inodesize: sb.inodesize,
        dirblklog: sb.dirblklog,
        fname: sb.fname.clone(),
    }
}

fn no_info() -> xfs_win_driver::info::FileInfo {
    let zero = Timestamp { sec: 0, nsec: 0 };
    xfs_win_driver::info::FileInfo {
        file_attributes: 0,
        reparse_tag: 0,
        file_size: 0,
        allocation_size: 0,
        creation_time: zero,
        last_access_time: zero,
        last_write_time: zero,
        change_time: zero,
        index_number: 0,
        hard_links: 0,
        ea_size: 0,
    }
}
