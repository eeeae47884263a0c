//! Symbolic links as Windows reparse points.

use vstd::prelude::*;
use vstd::utf8::{decode_utf8, valid_utf8};

use crate::path::link_target_to_winpath;
use crate::status::{err_to_status, FsError, Status};
use crate::text::string_from_utf8;
use crate::utf16::{encode_le, push_le16, push_le32};

verus! {

/// The tag of a symbolic-link reparse point.
pub const IO_REPARSE_TAG_SYMLINK: u32 = 0xA000_000C;

/// The target is relative to the directory that holds the link; a resolver
/// keeps walking such a target inside the volume.
pub const SYMLINK_FLAG_RELATIVE: u32 = 1;

/// Bytes of a symbolic-link reparse buffer ahead of the names: tag, data
/// length, reserved, two offset and length pairs, and flags.
pub const REPARSE_SYMLINK_HEADER_BYTES: usize = 20;

/// The part of the header that the data length counts.
pub const REPARSE_SYMLINK_FIELD_BYTES: usize = REPARSE_SYMLINK_HEADER_BYTES - 8;

/// The largest reparse buffer there may be.
pub const MAXIMUM_REPARSE_DATA_BUFFER_BYTES: usize = 16 * 1024;

/// The reparse buffer for a target whose UTF-16LE bytes are `name`: the
/// header, then the name twice, as the substitute name and as the print
/// name. The data length stops at the largest 16-bit value; the name's own
/// length keeps its low 16 bits.
pub open spec fn reparse_buffer(name: Seq<u8>) -> Seq<u8> {
    let fields = 12 + 2 * name.len();
    let data_length = if fields <= 0xFFFF { fields as u16 } else { 0xFFFFu16 };
    let name_length = (name.len() % 0x10000) as u16;
    crate::utf16::le32(IO_REPARSE_TAG_SYMLINK) + crate::utf16::le16(data_length)
        + crate::utf16::le16(0) + crate::utf16::le16(0) + crate::utf16::le16(name_length)
        + crate::utf16::le16(name_length) + crate::utf16::le16(name_length) + crate::utf16::le32(
        SYMLINK_FLAG_RELATIVE,
    ) + name + name
}

/// Serialises a symbolic-link reparse buffer for a Windows path.
pub fn symlink_reparse_buffer(win_target: &str) -> (buf: Vec<u8>)
    ensures
        buf@ == reparse_buffer(crate::utf16::utf16_le(win_target@)),
{
    let name: Vec<u8> = encode_le(win_target);
    let name_bytes: u16 = (name.len() % 0x10000) as u16;
    let data_bytes: u16 = if name.len() <= (0xFFFF - REPARSE_SYMLINK_FIELD_BYTES) / 2 {
        (REPARSE_SYMLINK_FIELD_BYTES + 2 * name.len()) as u16
    } else {
        u16::MAX
    };
    let mut buf: Vec<u8> = Vec::new();
    push_le32(&mut buf, IO_REPARSE_TAG_SYMLINK);
    push_le16(&mut buf, data_bytes);
    push_le16(&mut buf, 0);
    push_le16(&mut buf, 0);
    push_le16(&mut buf, name_bytes);
    push_le16(&mut buf, name_bytes);
    push_le16(&mut buf, name_bytes);
    push_le32(&mut buf, SYMLINK_FLAG_RELATIVE);
    buf.extend_from_slice(name.as_slice());
    buf.extend_from_slice(name.as_slice());
    assert(buf@ == reparse_buffer(name@));
    buf
}

/// What the XFS reader says of the link at a path.
#[derive(Debug)]
pub enum LinkAnswer {
    /// The path could not be opened.
    OpenFailed(FsError),
    /// There is something else at the path.
    NotALink,
    /// The link's target could not be read.
    TargetFailed(FsError),
    /// The target, as stored.
    Target(Vec<u8>),
}

/// The reparse buffer for the link at `path`, or why there is none.
pub open spec fn link_reply(path: Seq<char>, link: LinkAnswer) -> Result<Seq<u8>, Status> {
    match link {
        LinkAnswer::OpenFailed(e) => Err(crate::status::status_of(e)),
        LinkAnswer::NotALink => Err(Status::NotAReparsePoint),
        LinkAnswer::TargetFailed(e) => Err(crate::status::status_of(e)),
        LinkAnswer::Target(bytes) => {
            let data = reparse_buffer(
                crate::utf16::utf16_le(
                    crate::path::volume_path(
                        crate::path::link_components(path, decode_utf8(bytes@)),
                    ),
                ),
            );
            if !valid_utf8(bytes@) || data.len() > MAXIMUM_REPARSE_DATA_BUFFER_BYTES {
                Err(Status::ReparsePointNotResolved)
            } else {
                Ok(data)
            }
        },
    }
}

/// A reply as it lands in a caller's buffer: copied to the front where it
/// fits, refused where it does not.
pub open spec fn filled(
    reply: Result<Seq<u8>, Status>,
    before: Seq<u8>,
    r: Result<u64, Status>,
    after: Seq<u8>,
) -> bool {
    match reply {
        Ok(data) => if data.len() <= before.len() {
            &&& r == Ok::<u64, Status>(data.len() as u64)
            &&& after == data + before.skip(data.len() as int)
        } else {
            r == Err::<u64, Status>(Status::BufferTooSmall) && after == before
        },
        Err(status) => r == Err::<u64, Status>(status) && after == before,
    }
}

/// Copies `data` over the front of the buffer.
pub(crate) fn copy_to_front(buffer: &mut [u8], data: &[u8])
    requires
        data@.len() <= old(buffer)@.len(),
    ensures
        final(buffer)@ == data@ + old(buffer)@.skip(data@.len() as int),
{
    let mut i: usize = 0;
    while i < data.len()
        invariant
            i <= data@.len() <= buffer@.len(),
            buffer@.len() == old(buffer)@.len(),
            buffer@ == data@.take(i as int) + old(buffer)@.skip(i as int),
        decreases data@.len() - i,
    {
        buffer[i] = data[i];
        assert(buffer@ == data@.take(i + 1) + old(buffer)@.skip(i + 1));
        i = i + 1;
    }
    assert(data@.take(data@.len() as int) == data@);
}

/// Builds the reparse buffer for the link at `unix_path` and copies it into
/// the caller's buffer, returning the number of bytes written.
///
/// A target that is not valid UTF-8 has no spelling on this volume, and one
/// that needs more than the largest reparse buffer cannot be a reparse
/// point: both are unresolved.
pub fn fill_link_reparse_buffer(unix_path: &str, link: LinkAnswer, buffer: &mut [u8]) -> (r: Result<
    u64,
    Status,
>)
    ensures
        filled(link_reply(unix_path@, link), old(buffer)@, r, final(buffer)@),
{
    let target: Vec<u8> = match link {
        LinkAnswer::OpenFailed(e) => {
            return Err(err_to_status(e));
        },
        LinkAnswer::NotALink => {
            return Err(Status::NotAReparsePoint);
        },
        LinkAnswer::TargetFailed(e) => {
            return Err(err_to_status(e));
        },
        LinkAnswer::Target(bytes) => bytes,
    };
    let text: String = match string_from_utf8(target) {
        Some(text) => text,
        None => {
            return Err(Status::ReparsePointNotResolved);
        },
    };
    let path: String = link_target_to_winpath(unix_path, text.as_str());
    let data: Vec<u8> = symlink_reparse_buffer(path.as_str());
    if data.len() > MAXIMUM_REPARSE_DATA_BUFFER_BYTES {
        return Err(Status::ReparsePointNotResolved);
    }
    if buffer.len() < data.len() {
        return Err(Status::BufferTooSmall);
    }
    copy_to_front(buffer, data.as_slice());
    Ok(data.len() as u64)
}

/// The 16-bit value that stands little-endian at `i`.
pub open spec fn u16_at(b: Seq<u8>, i: int) -> int {
    b[i] + 256 * b[i + 1]
}

/// What a reader finds in a reparse buffer for `name` by its offsets and
/// lengths.
pub open spec fn reads_back(b: Seq<u8>, name: Seq<u8>) -> bool {
    &&& b.len() == 20 + 2 * name.len()
    &&& u16_at(b, 0) == 0x000C
    &&& u16_at(b, 2) == 0xA000
    &&& u16_at(b, 4) == b.len() - 8
    &&& b.subrange(20 + u16_at(b, 8), 20 + u16_at(b, 8) + u16_at(b, 10)) == name
    &&& b.subrange(20 + u16_at(b, 12), 20 + u16_at(b, 12) + u16_at(b, 14)) == name
}

/// Where the lengths fit their fields, both names are found where the
/// header says they are, and the data length counts everything behind the
/// first eight bytes.
pub proof fn reparse_buffer_reads_back(name: Seq<u8>)
    requires
        12 + 2 * name.len() <= 0xFFFF,
    ensures
        reads_back(reparse_buffer(name), name),
{
    let b = reparse_buffer(name);
    let n = name.len() as int;
    assert(u16_at(b, 8) == 0);
    assert(u16_at(b, 10) == n);
    assert(u16_at(b, 12) == n);
    assert(u16_at(b, 14) == n);
    assert(b.subrange(20, 20 + n) == name);
    assert(b.subrange(20 + n, 20 + 2 * n) == name);
}

/// Every buffer handed out reads back as the link's Windows path.
pub proof fn link_reply_reads_back(path: Seq<char>, link: LinkAnswer)
    requires
        link_reply(path, link) is Ok,
    ensures
        link is Target,
        ({
            let target = decode_utf8(link->Target_0@);
            let win = crate::path::volume_path(crate::path::link_components(path, target));
            reads_back(link_reply(path, link)->Ok_0, crate::utf16::utf16_le(win))
        }),
{
    let target = decode_utf8(link->Target_0@);
    let win = crate::path::volume_path(crate::path::link_components(path, target));
    reparse_buffer_reads_back(crate::utf16::utf16_le(win));
}

/// Two paths have the same buffer only if they are the same path.
pub proof fn reparse_buffer_tells_path(a: Seq<char>, b: Seq<char>)
    requires
        reparse_buffer(crate::utf16::utf16_le(a)) == reparse_buffer(crate::utf16::utf16_le(b)),
    ensures
        a == b,
{
    let (x, y) = (crate::utf16::utf16_le(a), crate::utf16::utf16_le(b));
    assert(reparse_buffer(x).len() == 20 + 2 * x.len());
    assert(reparse_buffer(y).len() == 20 + 2 * y.len());
    let n = x.len() as int;
    assert(reparse_buffer(x).subrange(20, 20 + n) == x);
    assert(reparse_buffer(y).subrange(20, 20 + n) == y);
    crate::utf16::utf16_le_injective(a, b);
}

/// What stands in a reparse buffer, byte by byte: the tag of a symbolic
/// link, the length of what follows the first eight bytes or the largest
/// 16-bit value, the two names' places and lengths in their low 16 bits,
/// the flag of a relative link, and the name twice.
pub proof fn reparse_buffer_layout(name: Seq<u8>)
    ensures
        ({
            let b = reparse_buffer(name);
            let n = name.len() as int;
            &&& b.len() == 20 + 2 * n
            &&& b[0] + 256 * b[1] + 65536 * b[2] + 16777216 * b[3] == 0xA000_000C
            &&& 12 + 2 * n <= 0xFFFF ==> b[4] + 256 * b[5] == 12 + 2 * n
            &&& 12 + 2 * n > 0xFFFF ==> b[4] + 256 * b[5] == 0xFFFF
            &&& b[6] == 0 && b[7] == 0
            &&& b[8] == 0 && b[9] == 0
            &&& b[10] + 256 * b[11] == n % 0x10000
            &&& b[12] + 256 * b[13] == n % 0x10000
            &&& b[14] + 256 * b[15] == n % 0x10000
            &&& b[16] == 1 && b[17] == 0 && b[18] == 0 && b[19] == 0
            &&& b.subrange(20, 20 + n) == name
            &&& b.subrange(20 + n, 20 + 2 * n) == name
        }),
{
    let b = reparse_buffer(name);
    let n = name.len() as int;
    assert(b.subrange(20, 20 + n) == name);
    assert(b.subrange(20 + n, 20 + 2 * n) == name);
}

/// A link is answered by the buffer for its target's Windows path, unless
/// the target is not UTF-8 or the buffer would be larger than 16 KiB;
/// whatever is not a link, or cannot be read, is refused.
pub proof fn link_is_answered_unless_too_long(path: Seq<char>, target: Vec<u8>, e: FsError)
    ensures
        ({
            let win = crate::utf16::utf16_le(
                crate::path::volume_path(
                    crate::path::link_components(path, decode_utf8(target@)),
                ),
            );
            let reply = link_reply(path, LinkAnswer::Target(target));
            let answered = valid_utf8(target@) && 20 + 2 * win.len() <= 16384;
            &&& answered ==> reply is Ok && reply->Ok_0 == reparse_buffer(win)
            &&& !answered ==> reply is Err && reply->Err_0 == Status::ReparsePointNotResolved
            &&& link_reply(path, LinkAnswer::NotALink) is Err
            &&& link_reply(path, LinkAnswer::NotALink)->Err_0 == Status::NotAReparsePoint
            &&& link_reply(path, LinkAnswer::OpenFailed(e)) is Err
            &&& link_reply(path, LinkAnswer::OpenFailed(e))->Err_0 == crate::status::status_of(e)
            &&& link_reply(path, LinkAnswer::TargetFailed(e)) is Err
            &&& link_reply(path, LinkAnswer::TargetFailed(e))->Err_0 == crate::status::status_of(e)
        }),
{
}

/// A reply lands whole at the front of a buffer that can hold it, with
/// nothing changed behind it, and its length is returned. A buffer that is
/// too small, or a refusal, leaves the buffer as it was.
pub proof fn reply_lands_whole_or_not_at_all(
    reply: Result<Seq<u8>, Status>,
    before: Seq<u8>,
    r: Result<u64, Status>,
    after: Seq<u8>,
    i: int,
)
    requires
        filled(reply, before, r, after),
        before.len() <= u64::MAX,
    ensures
        after.len() == before.len(),
        r is Ok <==> reply is Ok && reply->Ok_0.len() <= before.len(),
        r is Ok ==> r->Ok_0 == reply->Ok_0.len(),
        r is Ok && 0 <= i < reply->Ok_0.len() ==> after[i] == reply->Ok_0[i],
        r is Ok && reply->Ok_0.len() <= i < before.len() ==> after[i] == before[i],
        r is Err ==> after == before,
        reply is Ok && reply->Ok_0.len() > before.len() ==> r->Err_0 == Status::BufferTooSmall,
        reply is Err ==> r->Err_0 == reply->Err_0,
{
}

} // verus!
