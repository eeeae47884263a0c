//! Names and paths: what Windows hands in, what a link's target means, and
//! how it is spelled in a reparse buffer.

use xfs_win_driver::path::{link_target_to_winpath, winpath_to_unix, InvalidUtf16};
use xfs_win_driver::reparse::{
    fill_link_reparse_buffer, symlink_reparse_buffer, LinkAnswer,
    MAXIMUM_REPARSE_DATA_BUFFER_BYTES,
};
use xfs_win_driver::status::{err_to_status, FsError, Status};
use xfs_win_driver::text::{names_in_order, push_decimal};
use xfs_win_driver::utf16::{decode_units, decode_units_lossy, encode_le};

fn units(s: &str) -> Vec<u16> {
    s.encode_utf16().collect()
}

#[test]
fn backslashes_become_slashes() {
    assert_eq!(winpath_to_unix(&units("\\foo\\bar")).unwrap(), "/foo/bar");
    assert_eq!(winpath_to_unix(&units("\\")).unwrap(), "/");
    assert_eq!(
        winpath_to_unix(&units("\\caf\u{e9}\\\u{1f980}")).unwrap(),
        "/caf\u{e9}/\u{1f980}"
    );
}

#[test]
fn the_empty_path_is_the_root() {
    assert_eq!(winpath_to_unix(&[]).unwrap(), "/");
}

#[test]
fn ill_formed_units_name_no_path() {
    assert_eq!(winpath_to_unix(&[0xD800]), Err(InvalidUtf16));
    assert_eq!(winpath_to_unix(&[0x5C, 0xDC00, 0x61]), Err(InvalidUtf16));
    assert!(decode_units(&[0xD83E, 0xDD80]).is_some());
    assert!(decode_units(&[0xDD80, 0xD83E]).is_none());
}

#[test]
fn a_lossy_name_keeps_what_is_well_formed() {
    assert_eq!(decode_units_lossy(&units("plain \u{1f980}")), "plain \u{1f980}");
    assert_eq!(decode_units_lossy(&[0x61, 0xD800, 0x62]), "a\u{fffd}b");
}

#[test]
fn a_path_survives_the_windows_spelling() {
    for path in ["/", "/a", "/dir/nested/deep/leaf.txt", "/na\u{ef}ve-caf\u{e9}.txt"] {
        let win = path.replace('/', "\\");
        assert_eq!(winpath_to_unix(&units(&win)).unwrap(), path);
    }
}

#[test]
fn strings_encode_as_utf16_little_endian() {
    assert_eq!(encode_le("a"), vec![0x61, 0]);
    assert_eq!(encode_le("\u{e9}"), vec![0xE9, 0]);
    assert_eq!(encode_le("\u{1f980}"), vec![0x3E, 0xD8, 0x80, 0xDD]);
    for s in ["", "plain", "\u{ffff}\u{10000}", "a\u{10ffff}b"] {
        let want: Vec<u8> = s.encode_utf16().flat_map(|u| u.to_le_bytes()).collect();
        assert_eq!(encode_le(s), want);
    }
}

#[test]
fn a_relative_target_starts_at_the_links_directory() {
    assert_eq!(link_target_to_winpath("/a/b/link", "c"), "\\a\\b\\c");
    assert_eq!(link_target_to_winpath("/a/b/link", "../c"), "\\a\\c");
    assert_eq!(link_target_to_winpath("/link", "x/y"), "\\x\\y");
    assert_eq!(link_target_to_winpath("link", "x"), "\\x");
}

#[test]
fn an_absolute_target_ignores_the_links_directory() {
    assert_eq!(link_target_to_winpath("/a/b/link", "/small.txt"), "\\small.txt");
    assert_eq!(link_target_to_winpath("/other", "/small.txt"), "\\small.txt");
}

#[test]
fn dots_and_empty_pieces_vanish() {
    assert_eq!(link_target_to_winpath("/a//./link", "./b//c/."), "\\a\\b\\c");
    assert_eq!(link_target_to_winpath("/a/link", "..."), "\\a\\...");
}

#[test]
fn a_target_never_leaves_the_volume() {
    assert_eq!(link_target_to_winpath("/a/link", "../../../etc"), "\\etc");
    assert_eq!(link_target_to_winpath("/a/link", "/../../x"), "\\x");
    assert_eq!(
        link_target_to_winpath("/a/link", "/../x"),
        link_target_to_winpath("/a/link", "/x")
    );
}

#[test]
fn a_target_that_is_the_root_still_has_a_name() {
    assert_eq!(link_target_to_winpath("/a/link", ".."), "\\");
    assert_eq!(link_target_to_winpath("/link", "/"), "\\");
    assert_eq!(link_target_to_winpath("", ""), "\\");
}

#[test]
fn resolving_twice_is_resolving_once() {
    let once = link_target_to_winpath("/a/b/link", "../c/./d");
    let again = winpath_to_unix(&units(&once)).unwrap();
    assert_eq!(link_target_to_winpath("/elsewhere", &again), once);
}

#[test]
fn a_reparse_buffer_has_every_field_in_place() {
    let name = [b'\\', 0, b'a', 0];
    let mut want = vec![0x0C, 0, 0, 0xA0];
    want.extend_from_slice(&[20, 0, 0, 0]);
    want.extend_from_slice(&[0, 0, 4, 0, 4, 0, 4, 0]);
    want.extend_from_slice(&[1, 0, 0, 0]);
    want.extend_from_slice(&name);
    want.extend_from_slice(&name);
    assert_eq!(symlink_reparse_buffer("\\a"), want);
}

#[test]
fn a_long_target_stops_at_the_field_widths() {
    let long = "x".repeat(40_000);
    let buf = symlink_reparse_buffer(&long);
    assert_eq!(buf.len(), 20 + 4 * 40_000);
    assert_eq!(buf[4..6], [0xFF, 0xFF]);
    let low = (80_000u32 % 65_536) as u16;
    assert_eq!(buf[10..12], low.to_le_bytes());
}

#[test]
fn a_link_fills_the_front_of_the_buffer() {
    let mut buffer = vec![0xEE; 64];
    let n = fill_link_reparse_buffer(
        "/dir/link",
        LinkAnswer::Target(b"t".to_vec()),
        &mut buffer,
    )
    .unwrap();
    let want = symlink_reparse_buffer("\\dir\\t");
    assert_eq!(n as usize, want.len());
    assert_eq!(buffer[..want.len()], want[..]);
    assert!(buffer[want.len()..].iter().all(|b| *b == 0xEE));
}

#[test]
fn what_is_no_link_is_refused() {
    let fill = |answer, size: usize| {
        let mut buffer = vec![7u8; size];
        let r = fill_link_reparse_buffer("/p", answer, &mut buffer);
        assert!(buffer.iter().all(|b| *b == 7), "a refusal leaves the buffer");
        r
    };
    assert_eq!(
        fill(LinkAnswer::OpenFailed(FsError::NotFound), 64),
        Err(Status::ObjectNameNotFound)
    );
    assert_eq!(
        fill(LinkAnswer::OpenFailed(FsError::Other), 64),
        Err(Status::InvalidDeviceRequest)
    );
    assert_eq!(fill(LinkAnswer::NotALink, 64), Err(Status::NotAReparsePoint));
    assert_eq!(
        fill(LinkAnswer::TargetFailed(FsError::Other), 64),
        Err(Status::InvalidDeviceRequest)
    );
    assert_eq!(
        fill(LinkAnswer::Target(vec![0xFF, 0xFE]), 64),
        Err(Status::ReparsePointNotResolved)
    );
    assert_eq!(
        fill(LinkAnswer::Target(vec![b'x'; 5000]), 64),
        Err(Status::ReparsePointNotResolved)
    );
    assert_eq!(
        fill(LinkAnswer::Target(b"x".to_vec()), 27),
        Err(Status::BufferTooSmall)
    );
}

#[test]
fn the_largest_link_that_fits_is_accepted() {
    // 20 bytes of header and twice a name of 4091 units.
    let mut buffer = vec![0; MAXIMUM_REPARSE_DATA_BUFFER_BYTES];
    let target = vec![b'x'; 4090];
    assert_eq!(
        fill_link_reparse_buffer("/l", LinkAnswer::Target(target), &mut buffer),
        Ok(16_384)
    );
    let target = vec![b'x'; 4091];
    assert_eq!(
        fill_link_reparse_buffer("/l", LinkAnswer::Target(target), &mut buffer),
        Err(Status::ReparsePointNotResolved)
    );
}

#[test]
fn lookup_failures_are_names_not_found() {
    assert_eq!(err_to_status(FsError::NotFound), Status::ObjectNameNotFound);
    assert_eq!(err_to_status(FsError::NotADirectory), Status::ObjectNameNotFound);
    assert_eq!(err_to_status(FsError::NotAFile), Status::ObjectNameNotFound);
    assert_eq!(err_to_status(FsError::Other), Status::InvalidDeviceRequest);
}

#[test]
fn names_are_ordered_by_their_bytes() {
    let names = ["", "A", "B", "a", "a.txt", "ab", "\u{e9}", "\u{ffff}", "\u{10000}"];
    for (i, a) in names.iter().enumerate() {
        for (j, b) in names.iter().enumerate() {
            assert_eq!(names_in_order(a, b), i <= j, "{a} and {b}");
            assert_eq!(names_in_order(a, b), a <= b);
        }
    }
}

#[test]
fn numbers_are_rendered_in_decimal() {
    for n in [0, 9, 10, 4096, 1_000_000, u64::MAX] {
        let mut s = String::from("n=");
        push_decimal(&mut s, n);
        assert_eq!(s, format!("n={n}"));
    }
}

#[test]
fn different_targets_have_different_buffers() {
    let all: Vec<Vec<u8>> = ["\\", "\\a", "\\b", "\\a\\b", "\\\u{1f980}"]
        .iter()
        .map(|p| symlink_reparse_buffer(p))
        .collect();
    for (i, a) in all.iter().enumerate() {
        for (j, b) in all.iter().enumerate() {
            assert_eq!(a == b, i == j);
        }
    }
}
