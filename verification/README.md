# xfs_win_driver

A driver that mounts XFS volumes on Windows and takes writes without ever
touching the image: every change lands in an in-memory overlay, and reads see
the overlay first and the image below it.

The library under `src/` holds the rules, proved with Verus:

- `mount`, `overlay`: what a path resolves to, and what reading, writing,
  resizing, renaming and dismounting do to the overlay.
- `context`: the requests of a file system host and the status each is
  answered with.
- `listing`: merged directory listings in name order, and how one is taken up
  again after a marker.
- `info`: attributes, sizes and times.
- `path`, `reparse`, `utf16`, `text`: names and link targets in both spellings,
  and the reparse buffer of a symbolic link.
- `device`: the slice of a device that a partition takes up, and the metadata
  cache in front of it.
- `laws`: what holds from one request to the next.

The library does no I/O. What only the image can tell (an inode, a file's
bytes, a directory's children, a link's target) is handed in as plain values.
`app/` does the reading: it opens images, puts the cache in front of them,
writes the overlay to a sidecar file, and serves a volume through WinFsp on
Windows.

Two features of the program are off unless asked for: `mount`, which serves a
volume through WinFsp, and `overlay-sidecar`, which writes the overlay to a
sidecar file. A build without them says so when asked.
