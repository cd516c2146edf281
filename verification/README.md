# v6kernel

A verified model of the file-system core of a UNIX V6++ style teaching
kernel, written in Verus. Every function in `src/` carries a contract that
Verus proves.

- `src/dev/buffer.rs` — block numbers, buffer headers and buffer handles.
- `src/fs/inode.rs` — in-memory inodes: the block map (`bmap`), reads and
  writes of positions, truncation, locking, device open/close requests, the
  on-disk inode record.
- `src/fs/file_system.rs` — mount table and super blocks: the free-block
  and free-inode caches (`alloc_block`, `free`, `i_alloc`, `i_free`), the
  write-back of modified super blocks, loading the root super block.
- `src/fs/open_file_manager.rs` — the inode table (`i_get`, `i_put`,
  write-back) and the open-file table.
- `src/fs/file_manager.rs` — directory entries, directory search, path walk
  steps.
- `src/user.rs` — credentials and the user structure.
- `src/loader.rs` — PE headers and the section loading plan.
- `src/laws.rs` — properties across operations (cache stack discipline,
  what an inode allocation hands out, lock/unlock, get/put, truncation, the
  path walk following the path's components).

Kernel objects are owned by their tables and named by index. Disk reads,
device drivers, sleeping and waking are performed by the caller: the
library's step functions say what to do and take the outcome back.
`app/` holds that glue, the `bitflags` flag types, and the raw memory and
hardware access. On-disk structures are little-endian, as on the x86
machine the kernel runs on.
