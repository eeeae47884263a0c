//! Where the volume lies on the device: the slice a mount reads through,
//! the partition it is taken from, and the cache in front of it.

use vstd::prelude::*;

use crate::text::push_decimal;

verus! {

/// Blocks held by each layer of the metadata cache.
pub const CACHE_BLOCKS: usize = 4096;

/// Bytes read from the start of the volume to find its superblock.
pub const SUPERBLOCK_BYTES: usize = 4096;

/// The environment variable that takes the cache out of the path.
pub const NO_CACHE_ENV: &'static str = "XFS_NO_CACHE";

/// A slice of a device: `len` bytes from `base`.
#[derive(Debug, Clone, Copy, PartialEq, Eq, Structural)]
pub struct PartitionDevice {
    base: u64,
    len: u64,
}

/// A read that does not lie within its device.
#[derive(Debug, Clone, Copy, PartialEq, Eq, Structural)]
pub struct ShortRead {
    pub offset: u64,
    pub want: usize,
    /// The bytes there are from `offset` on.
    pub got: usize,
}

/// Where on the device a read of `want` bytes at `offset` goes, in a slice
/// of `size` bytes from `first`, or how many bytes there are for it.
pub open spec fn read_place(first: nat, size: nat, offset: u64, want: usize) -> Result<nat, nat> {
    if offset + want <= size {
        Ok((first + offset) as nat)
    } else if offset + want > u64::MAX || offset >= size {
        Err(0)
    } else {
        Err((size - offset) as nat)
    }
}

impl PartitionDevice {
    /// Where the slice starts on the device.
    pub closed spec fn first(self) -> nat {
        self.base as nat
    }

    /// How many bytes it holds.
    pub closed spec fn size(self) -> nat {
        self.len as nat
    }

    #[verifier::type_invariant]
    spec fn inv(self) -> bool {
        self.base + self.len <= u64::MAX
    }

    /// The slice of `len` bytes from `base`.
    pub fn new(base: u64, len: u64) -> (r: PartitionDevice)
        requires
            base + len <= u64::MAX,
        ensures
            r.first() == base,
            r.size() == len,
    {
        PartitionDevice { base, len }
    }

    /// Where on the device a read of `want` bytes at `offset` of the slice
    /// goes, or how far short the slice falls of it.
    pub fn read_at(&self, offset: u64, want: usize) -> (r: Result<u64, ShortRead>)
        ensures
            if offset + want <= self.size() {
                r == Ok::<u64, ShortRead>((self.first() + offset) as u64) && self.first() + offset
                    + want <= self.first() + self.size() <= u64::MAX
            } else {
                r == Err::<u64, ShortRead>(
                    ShortRead {
                        offset,
                        want,
                        got: if offset + want > u64::MAX || offset >= self.size() {
                            0
                        } else {
                            (self.size() - offset) as usize
                        },
                    },
                )
            },
            match read_place(self.first(), self.size(), offset, want) {
                Ok(at) => r is Ok && r->Ok_0 == at,
                Err(got) => r is Err && r->Err_0.offset == offset && r->Err_0.want == want
                    && r->Err_0.got == got as usize,
            },
    {
        proof {
            use_type_invariant(self);
        }
        let end: u64 = match offset.checked_add(want as u64) {
            Some(end) => end,
            None => {
                return Err(ShortRead { offset, want, got: 0 });
            },
        };
        if end > self.len {
            let got: usize = if offset >= self.len {
                0
            } else {
                (self.len - offset) as usize
            };
            return Err(ShortRead { offset, want, got });
        }
        Ok(self.base + offset)
    }

    /// How many bytes the slice holds.
    pub fn size_bytes(&self) -> (r: u64)
        ensures
            r == self.size(),
    {
        self.len
    }
}

/// One entry of a partition table.
#[derive(Debug)]
pub struct Partition {
    pub start_lba: u64,
    pub num_sectors: u64,
    /// What the table says the partition is, in words.
    pub kind: String,
}

/// Why no partition could be opened.
#[derive(Debug, Clone, Copy, PartialEq, Eq, Structural)]
pub enum OpenError {
    NoPartitions,
    OutOfRange { n: usize, count: usize },
    GeometryOverflow,
    PastEnd { n: usize, end: u64, size: u64 },
}

/// The slice that the `n`th partition (from 1) of a device of `size` bytes
/// takes up, or why there is none. Sectors have 512 bytes.
pub open spec fn partition_slice(parts: Seq<Partition>, n: usize, size: u64) -> Result<
    (nat, nat),
    OpenError,
> {
    let p = parts[n - 1];
    let (base, len) = (p.start_lba as nat * 512, p.num_sectors as nat * 512);
    if parts.len() == 0 {
        Err(OpenError::NoPartitions)
    } else if n == 0 || n > parts.len() {
        Err(OpenError::OutOfRange { n, count: parts.len() as usize })
    } else if base + len > u64::MAX {
        Err(OpenError::GeometryOverflow)
    } else if base + len > size {
        Err(OpenError::PastEnd { n, end: (base + len) as u64, size })
    } else {
        Ok((base, len))
    }
}

/// Finds the slice of the `n`th partition (from 1).
pub fn slice_of(parts: &Vec<Partition>, n: usize, size: u64) -> (r: Result<
    PartitionDevice,
    OpenError,
>)
    ensures
        match partition_slice(parts@, n, size) {
            Ok((base, len)) => r is Ok && r->Ok_0.first() == base && r->Ok_0.size() == len,
            Err(e) => r == Err::<PartitionDevice, OpenError>(e),
        },
{
    if parts.len() == 0 {
        return Err(OpenError::NoPartitions);
    }
    if n == 0 || n > parts.len() {
        return Err(OpenError::OutOfRange { n, count: parts.len() });
    }
    let p: &Partition = &parts[n - 1];
    if p.start_lba > u64::MAX / 512 || p.num_sectors > u64::MAX / 512 {
        return Err(OpenError::GeometryOverflow);
    }
    let base: u64 = p.start_lba * 512;
    let len: u64 = p.num_sectors * 512;
    match base.checked_add(len) {
        Some(end) => {
            if end > size {
                Err(OpenError::PastEnd { n, end, size })
            } else {
                Ok(PartitionDevice::new(base, len))
            }
        },
        None => Err(OpenError::GeometryOverflow),
    }
}

impl OpenError {
    /// The message for a failed open of `image`.
    pub open spec fn text(self, image: Seq<char>) -> Seq<char> {
        match self {
            OpenError::NoPartitions => "no partitions found in "@ + image,
            OpenError::OutOfRange { n, count } => "--part "@ + crate::text::decimal(n as nat)
                + " out of range (1..="@ + crate::text::decimal(count as nat) + ")"@,
            OpenError::GeometryOverflow => "partition geometry overflows u64"@,
            OpenError::PastEnd { n, end, size } => "partition "@ + crate::text::decimal(n as nat)
                + " extends past device end: "@ + crate::text::decimal(end as nat) + " > "@
                + crate::text::decimal(size as nat) + " bytes"@,
        }
    }

    /// The message for a failed open of `image`.
    pub fn message(&self, image: &str) -> (s: String)
        ensures
            s@ == self.text(image@),
    {
        let mut s: String = String::new();
        match *self {
            OpenError::NoPartitions => {
                s.append("no partitions found in ");
                s.append(image);
            },
            OpenError::OutOfRange { n, count } => {
                s.append("--part ");
                push_decimal(&mut s, n as u64);
                s.append(" out of range (1..=");
                push_decimal(&mut s, count as u64);
                s.append(")");
            },
            OpenError::GeometryOverflow => {
                s.append("partition geometry overflows u64");
            },
            OpenError::PastEnd { n, end, size } => {
                s.append("partition ");
                push_decimal(&mut s, n as u64);
                s.append(" extends past device end: ");
                push_decimal(&mut s, end);
                s.append(" > ");
                push_decimal(&mut s, size);
                s.append(" bytes");
            },
        }
        assert(s@ == self.text(image@));
        s
    }
}

/// One line of the hint: the partition's number, its extent and its kind.
pub open spec fn hint_line(n: nat, p: Partition) -> Seq<char> {
    "  "@ + crate::text::decimal(n) + ": "@ + crate::text::decimal(p.num_sectors as nat)
        + " sectors @ LBA "@ + crate::text::decimal(p.start_lba as nat) + " ("@ + p.kind@ + ")\n"@
}

/// The lines of the hint, one for each partition.
pub open spec fn hint_lines(parts: Seq<Partition>) -> Seq<char>
    decreases parts.len(),
{
    if parts.len() == 0 {
        Seq::empty()
    } else {
        hint_lines(parts.drop_last()) + hint_line(parts.len(), parts.last())
    }
}

/// The hint for a device that turns out to be partitioned; nothing where
/// the listing failed or is empty.
pub open spec fn hint(listing: Option<Seq<Partition>>) -> Seq<char> {
    match listing {
        Some(parts) => if parts.len() == 0 {
            Seq::empty()
        } else {
            "\nhint: this looks like a partitioned device. Try --part N:\n"@ + hint_lines(parts)
        },
        None => Seq::empty(),
    }
}

/// The hint that a volume may lie in a partition.
pub fn partition_hint(listing: Option<&Vec<Partition>>) -> (s: String)
    ensures
        s@ == hint(
            match listing {
                Some(parts) => Some(parts@),
                None => None,
            },
        ),
{
    let mut s: String = String::new();
    let parts: &Vec<Partition> = match listing {
        Some(parts) => parts,
        None => {
            return s;
        },
    };
    if parts.len() == 0 {
        return s;
    }
    s.append("\nhint: this looks like a partitioned device. Try --part N:\n");
    let ghost head = s@;
    let mut i: usize = 0;
    assert(head + hint_lines(parts@.take(0)) == head);
    while i < parts.len()
        invariant
            i <= parts@.len(),
            s@ == head + hint_lines(parts@.take(i as int)),
        decreases parts@.len() - i,
    {
        let p: &Partition = &parts[i];
        s.append("  ");
        push_decimal(&mut s, i as u64 + 1);
        s.append(": ");
        push_decimal(&mut s, p.num_sectors);
        s.append(" sectors @ LBA ");
        push_decimal(&mut s, p.start_lba);
        s.append(" (");
        s.append(p.kind.as_str());
        s.append(")\n");
        assert(parts@.take(i + 1).drop_last() == parts@.take(i as int));
        assert(s@ == head + hint_lines(parts@.take(i as int)) + hint_line((i + 1) as nat, *p));
        assert(s@ == head + hint_lines(parts@.take(i + 1)));
        i = i + 1;
    }
    assert(parts@.take(parts@.len() as int) == parts@);
    s
}

/// The message for an image that holds no volume the reader can mount: the
/// reader's error, and the hint that the volume may lie in a partition.
pub fn open_failure(image: &str, error: &str, listing: Option<&Vec<Partition>>) -> (s: String)
    ensures
        s@ == "open XFS at "@ + image@ + ": "@ + error@ + hint(
            match listing {
                Some(parts) => Some(parts@),
                None => None,
            },
        ),
{
    let mut s: String = String::new();
    s.append("open XFS at ");
    s.append(image);
    s.append(": ");
    s.append(error);
    s.append(partition_hint(listing).as_str());
    s
}

/// The message for the `n`th partition (from 1) of an image that holds no
/// volume the reader can mount.
pub fn partition_open_failure(image: &str, n: usize, kind: &str, error: &str) -> (s: String)
    ensures
        s@ == "open XFS at "@ + image@ + " partition "@ + crate::text::decimal(n as nat) + " ("@
            + kind@ + "): "@ + error@,
{
    let mut s: String = String::new();
    s.append("open XFS at ");
    s.append(image);
    s.append(" partition ");
    push_decimal(&mut s, n as u64);
    s.append(" (");
    s.append(kind);
    s.append("): ");
    s.append(error);
    s
}

/// What the driver reads of a superblock.
#[derive(Debug)]
pub struct Superblock {
    pub blocksize: u32,
    pub dblocks: u64,
    pub inodesize: u16,
    pub dirblklog: u8,
    pub fname: String,
}

/// The model of a [`Superblock`].
pub struct Geometry {
    pub blocksize: u32,
    pub dblocks: u64,
    pub inodesize: u16,
    pub dirblklog: u8,
    pub fname: Seq<char>,
}

impl View for Superblock {
    type V = Geometry;

    open spec fn view(&self) -> Geometry {
        Geometry {
            blocksize: self.blocksize,
            dblocks: self.dblocks,
            inodesize: self.inodesize,
            dirblklog: self.dirblklog,
            fname: self.fname@,
        }
    }
}

/// What `fs_xfs::Superblock::parse` makes of the first bytes of a volume:
/// the fields the driver reads, or the error in words.
pub uninterp spec fn superblock_of(head: Seq<u8>) -> Result<Geometry, Seq<char>>;

/// The bounds within which a superblock is accepted.
pub open spec fn sane(sb: Geometry) -> bool {
    &&& 512 <= sb.blocksize <= 65536
    &&& 256 <= sb.inodesize <= 2048
    &&& sb.inodesize <= sb.blocksize
    &&& sb.dirblklog <= 7
    &&& sb.blocksize * vstd::arithmetic::power2::pow2(sb.dirblklog as nat) <= 65536
}

/// Calls `fs_xfs::Superblock::parse`, which decodes and validates a
/// superblock. A block is between 512 bytes and 64 KiB, an inode between
/// 256 bytes and 2 KiB and no larger than a block, and a directory block at
/// most 64 KiB. The error comes as its text.
#[verifier::external_body]
fn parse_superblock(head: &[u8]) -> (r: Result<Superblock, String>)
    ensures
        match r {
            Ok(sb) => superblock_of(head@) == Ok::<Geometry, Seq<char>>(sb@) && sane(sb@),
            Err(e) => superblock_of(head@) == Err::<Geometry, Seq<char>>(e@),
        },
{
    match fs_xfs::Superblock::parse(head) {
        Ok(sb) => Ok(
            Superblock {
                blocksize: sb.blocksize,
                dblocks: sb.dblocks,
                inodesize: sb.inodesize,
                dirblklog: sb.dirblklog,
                fname: sb.fname,
            },
        ),
        Err(e) => Err(e.to_string()),
    }
}

/// The two layers of the metadata cache: one that holds whole inode
/// records, and in front of it one that holds whole directory blocks.
#[derive(Debug, Clone, Copy, PartialEq, Eq, Structural)]
pub struct CachePlan {
    pub record_bytes: u64,
    pub directory_bytes: u64,
    pub blocks: usize,
}

/// The bytes of a directory block.
pub open spec fn dirblocksize(sb: Geometry) -> int {
    sb.blocksize * vstd::arithmetic::power2::pow2(sb.dirblklog as nat)
}

/// The cache layers for a volume: metadata arrives in whole inode records
/// and in whole directory blocks, and a layer matches reads of exactly one
/// of its blocks, so each size has its own.
pub open spec fn cache_plan(sb: Geometry) -> CachePlan {
    CachePlan {
        record_bytes: sb.inodesize as u64,
        directory_bytes: dirblocksize(sb) as u64,
        blocks: CACHE_BLOCKS,
    }
}

/// The bytes of a directory block of a volume with this superblock.
fn directory_block_bytes(sb: &Superblock) -> (r: u64)
    requires
        sane(sb@),
    ensures
        r == dirblocksize(sb@),
{
    let mut r: u64 = sb.blocksize as u64;
    let mut i: u8 = 0;
    proof {
        vstd::arithmetic::power2::lemma2_to64();
    }
    while i < sb.dirblklog
        invariant
            i <= sb.dirblklog <= 7,
            sb.blocksize <= 65536,
            r == sb.blocksize * vstd::arithmetic::power2::pow2(i as nat),
            r <= 65536 * 256,
        decreases sb.dirblklog - i,
    {
        proof {
            let (b, n) = (sb.blocksize as int, i as nat);
            vstd::arithmetic::power2::lemma2_to64();
            vstd::arithmetic::power2::lemma_pow2_unfold(n + 1);
            assert(b * (2 * vstd::arithmetic::power2::pow2(n)) == 2 * (b
                * vstd::arithmetic::power2::pow2(n))) by (nonlinear_arith);
            assert(n + 1 <= 7);
            assert(vstd::arithmetic::power2::pow2(n + 1) <= 128);
            assert(b * vstd::arithmetic::power2::pow2(n + 1) <= 65536 * 256) by (nonlinear_arith)
                requires
                    0 <= b <= 65536,
                    vstd::arithmetic::power2::pow2(n + 1) <= 128,
            ;
        }
        r = r * 2;
        i = i + 1;
    }
    r
}

/// The cache layers for a volume whose superblock has been read.
pub fn cache_layers(sb: &Superblock) -> (r: CachePlan)
    requires
        sane(sb@),
    ensures
        r == cache_plan(sb@),
{
    CachePlan {
        record_bytes: sb.inodesize as u64,
        directory_bytes: directory_block_bytes(sb),
        blocks: CACHE_BLOCKS,
    }
}

/// Sizes the metadata cache for the volume in `image` from its first bytes,
/// or says why they hold no superblock.
pub fn metadata_cache(head: &[u8], image: &str) -> (r: Result<CachePlan, String>)
    ensures
        match superblock_of(head@) {
            Ok(sb) => r == Ok::<CachePlan, String>(cache_plan(sb)) && sane(sb),
            Err(e) => r is Err && r->Err_0@ == "parsing superblock of "@ + image@ + ": "@ + e,
        },
{
    match parse_superblock(head) {
        Ok(sb) => Ok(cache_layers(&sb)),
        Err(e) => {
            let mut s: String = String::new();
            s.append("parsing superblock of ");
            s.append(image);
            s.append(": ");
            s.append(e.as_str());
            Err(s)
        },
    }
}

/// What stands in front of the volume's slice.
#[derive(Debug, Clone, Copy, PartialEq, Eq, Structural)]
pub enum Backend {
    Cached,
    Uncached,
}

/// What the environment holds under [`NO_CACHE_ENV`].
#[derive(Debug, Clone, Copy)]
pub enum CacheSetting<'a> {
    /// The variable is not set.
    Unset,
    /// It is set to this text.
    Text(&'a str),
    /// It is set to a value that is not Unicode.
    NotUnicode,
}

/// The backend that a value of [`NO_CACHE_ENV`] asks for: any value takes
/// the cache out, except the empty one and `0`.
pub open spec fn backend_for(setting: CacheSetting<'_>) -> Backend {
    match setting {
        CacheSetting::Unset => Backend::Cached,
        CacheSetting::Text(v) => if v@.len() == 0 || v@ == seq!['0'] {
            Backend::Cached
        } else {
            Backend::Uncached
        },
        CacheSetting::NotUnicode => Backend::Uncached,
    }
}

/// Decides, by the value of [`NO_CACHE_ENV`], whether the volume is read
/// through the metadata cache.
pub fn mount_backend(setting: CacheSetting<'_>) -> (r: Backend)
    ensures
        r == backend_for(setting),
{
    match setting {
        CacheSetting::Unset => Backend::Cached,
        CacheSetting::Text(v) => {
            let chars: Vec<char> = crate::text::chars_of(v);
            if chars.len() == 0 {
                Backend::Cached
            } else if chars.len() == 1 && chars[0] == '0' {
                assert(v@ == seq!['0']);
                Backend::Cached
            } else {
                assert(v@ != seq!['0']);
                Backend::Uncached
            }
        },
        CacheSetting::NotUnicode => Backend::Uncached,
    }
}

/// A partition that is opened lies within its device, exactly where the
/// table says.
pub proof fn partition_lies_within_device(parts: Seq<Partition>, n: usize, size: u64)
    requires
        partition_slice(parts, n, size) is Ok,
    ensures
        ({
            let (base, len) = partition_slice(parts, n, size)->Ok_0;
            &&& base + len <= size
            &&& base == parts[n - 1].start_lba * 512
            &&& len == parts[n - 1].num_sectors * 512
        }),
{
}

/// The cache layers never claim a block larger than 64 KiB or an empty one,
/// and a directory block is never smaller than an inode record.
pub proof fn cache_layers_are_sane(sb: Geometry)
    requires
        sane(sb),
    ensures
        256 <= cache_plan(sb).record_bytes <= 2048,
        512 <= cache_plan(sb).directory_bytes <= 65536,
        cache_plan(sb).record_bytes <= cache_plan(sb).directory_bytes,
{
    let p = vstd::arithmetic::power2::pow2(sb.dirblklog as nat);
    vstd::arithmetic::power2::lemma_pow2_pos(sb.dirblklog as nat);
    assert(sb.blocksize <= sb.blocksize * p) by (nonlinear_arith)
        requires
            p >= 1,
            sb.blocksize >= 0,
    ;
}

/// The layers never hold the same read twice: where an inode is smaller
/// than a block, a directory block is never the size of an inode record.
pub proof fn cache_layers_do_not_overlap(sb: Geometry)
    requires
        sane(sb),
        sb.inodesize < sb.blocksize,
    ensures
        cache_plan(sb).record_bytes < cache_plan(sb).directory_bytes,
{
    let p = vstd::arithmetic::power2::pow2(sb.dirblklog as nat);
    vstd::arithmetic::power2::lemma_pow2_pos(sb.dirblklog as nat);
    assert(sb.blocksize <= sb.blocksize * p) by (nonlinear_arith)
        requires
            p >= 1,
            sb.blocksize >= 0,
    ;
}

/// A partition opens exactly where the table has it and the device holds it
/// whole, in sectors of 512 bytes; each refusal has its own cause.
pub proof fn partition_opens_where_the_device_holds_it(
    parts: Seq<Partition>,
    n: usize,
    size: u64,
)
    ensures
        ({
            let slice = partition_slice(parts, n, size);
            let listed = 1 <= n <= parts.len();
            let first = parts[n - 1].start_lba;
            let count = parts[n - 1].num_sectors;
            let end = 512 * (first + count);
            &&& slice is Ok <==> listed && end <= size
            &&& listed && end <= size ==> (slice->Ok_0).0 == 512 * first && (slice->Ok_0).1 == 512
                * count
            &&& parts.len() == 0 ==> slice->Err_0 == OpenError::NoPartitions
            &&& parts.len() > 0 && !listed ==> slice->Err_0 == (OpenError::OutOfRange {
                n,
                count: parts.len() as usize,
            })
            &&& listed && end >= 0x1_0000_0000_0000_0000 ==> slice->Err_0
                == OpenError::GeometryOverflow
            &&& listed && size < end < 0x1_0000_0000_0000_0000 ==> slice->Err_0 == (
            OpenError::PastEnd { n, end: end as u64, size })
        }),
{
}

/// The message for a failed open names the image, or the numbers that do
/// not fit.
pub proof fn open_message_names_the_cause(image: Seq<char>, n: usize, count: usize, end: u64, size: u64)
    ensures
        OpenError::NoPartitions.text(image) == "no partitions found in "@ + image,
        OpenError::GeometryOverflow.text(image) == "partition geometry overflows u64"@,
        (OpenError::OutOfRange { n, count }).text(image) == "--part "@ + crate::text::decimal(
            n as nat,
        ) + " out of range (1..="@ + crate::text::decimal(count as nat) + ")"@,
        (OpenError::PastEnd { n, end, size }).text(image) == "partition "@ + crate::text::decimal(
            n as nat,
        ) + " extends past device end: "@ + crate::text::decimal(end as nat) + " > "@
            + crate::text::decimal(size as nat) + " bytes"@,
{
}

/// The hint has a line for every partition, numbered from 1 in the order of
/// the table, under a heading; there is none where there is no partition.
pub proof fn hint_numbers_every_partition(parts: Seq<Partition>, p: Partition)
    ensures
        ({
            let n = parts.len() + 1;
            let line = "  "@ + crate::text::decimal(n as nat) + ": "@ + crate::text::decimal(
                p.num_sectors as nat,
            ) + " sectors @ LBA "@ + crate::text::decimal(p.start_lba as nat) + " ("@ + p.kind@
                + ")\n"@;
            let heading = "\nhint: this looks like a partitioned device. Try --part N:\n"@;
            &&& hint(None).len() == 0
            &&& hint(Some(Seq::empty())).len() == 0
            &&& parts.len() == 0 ==> hint(Some(parts.push(p))) == heading + line
            &&& parts.len() > 0 ==> hint(Some(parts.push(p))) == hint(Some(parts)) + line
        }),
{
    assert(parts.push(p).drop_last() == parts);
    let heading = "\nhint: this looks like a partitioned device. Try --part N:\n"@;
    let line = hint_line((parts.len() + 1) as nat, p);
    if parts.len() == 0 {
        assert(hint_lines(parts) + line == line);
    } else {
        assert(heading + (hint_lines(parts) + line) == heading + hint_lines(parts) + line);
    }
}

/// One layer of the cache holds inode records, the other directory blocks:
/// a directory block is a block of the volume, doubled once for each unit
/// of its logarithm. Either layer holds 4096 blocks.
pub proof fn directory_blocks_double(sb: Geometry, larger: Geometry)
    requires
        sane(sb),
        sane(larger),
        larger.blocksize == sb.blocksize,
        larger.dirblklog == sb.dirblklog + 1,
    ensures
        cache_plan(sb).record_bytes == sb.inodesize,
        cache_plan(sb).blocks == 4096,
        cache_plan(larger).directory_bytes == 2 * cache_plan(sb).directory_bytes,
        sb.dirblklog == 0 ==> cache_plan(sb).directory_bytes == sb.blocksize,
{
    let n = sb.dirblklog as nat;
    let b = sb.blocksize as int;
    vstd::arithmetic::power2::lemma2_to64();
    vstd::arithmetic::power2::lemma_pow2_unfold(n + 1);
    assert(b * (2 * vstd::arithmetic::power2::pow2(n)) == 2 * (b
        * vstd::arithmetic::power2::pow2(n))) by (nonlinear_arith);
    assert(b * 1 == b);
    if n == 0 {
        assert(vstd::arithmetic::power2::pow2(n) == 1);
        assert(dirblocksize(sb) == b * 1);
    }
}

/// The cache is in use unless the variable is set to something other than
/// the empty text or a single zero.
pub proof fn any_other_setting_takes_the_cache_out(v: &str)
    ensures
        backend_for(CacheSetting::Unset) == Backend::Cached,
        backend_for(CacheSetting::NotUnicode) == Backend::Uncached,
        backend_for(CacheSetting::Text(v)) == Backend::Cached <==> v@.len() == 0 || (v@.len() == 1
            && v@[0] == '0'),
{
    if v@.len() == 1 && v@[0] == '0' {
        assert(v@ == seq!['0']);
    }
}

} // verus!
