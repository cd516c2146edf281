//! In-memory inodes: flags and mode bits, the map from file blocks to disk
//! blocks, reading and writing positions, truncation, device open/close
//! requests, and the on-disk inode record.
use vstd::prelude::*;
use crate::bytes::{le_u16, le_u32, read_u16_le, read_u32_le};
use crate::dev::buffer::{Buf, DevId, LogicalBlock, PhysicalBlock, BLOCK_SIZE};
use crate::fs::file_system::{
    alloc_outcome, flag_set, free_outcome, i_free_ok, lemma_free_keeps_i_free_ok, FileSystem,
    FsView, INODE_NUMBER_PER_SECTOR, INODE_ZONE_START_SECTOR, S_RONLY,
};

verus! {

/// `core::fmt::Error`, the error type of the read and write calls; carried
/// only, never inspected.
#[verifier::external_type_specification]
#[verifier::external_body]
pub struct ExFmtError(core::fmt::Error);

// ----- inode flags -----
/// The inode is locked.
pub const ILOCK: u32 = 0x1;
/// The inode was modified; the disk inode must be updated.
pub const IUPD: u32 = 0x2;
/// The inode was accessed; its access time must be updated.
pub const IACC: u32 = 0x4;
/// A file system is mounted on the inode.
pub const IMOUNT: u32 = 0x8;
/// Someone waits for the inode to be unlocked.
pub const IWANT: u32 = 0x10;
/// The inode holds the text segment of a process image.
pub const ITEXT: u32 = 0x20;

// ----- mode bits -----
/// The inode is in use.
pub const IALLOC: u32 = 0x8000;
/// File type mask.
pub const IFMT: u32 = 0x6000;
/// File type: directory.
pub const IFDIR: u32 = 0x4000;
/// File type: character device.
pub const IFCHR: u32 = 0x2000;
/// File type: block device (all type bits clear: regular file).
pub const IFBLK: u32 = 0x6000;
/// Large or huge file: the address table holds index blocks.
pub const ILARG: u32 = 0x1000;
pub const ISUID: u32 = 0x800;
pub const ISGID: u32 = 0x400;
pub const ISVTX: u32 = 0x200;
pub const IREAD: u32 = 0x100;
pub const IWRITE: u32 = 0x80;
pub const IEXEC: u32 = 0x40;
pub const IRWXU: u32 = 0x1C0;
pub const IRWXG: u32 = 0x38;
pub const IRWXO: u32 = 0x7;
/// Every bit that names a mode flag; complementing a mode keeps only these.
pub const MODE_ALL: u32 = 0xFFFF;

pub const I_ADDR_SIZE: usize = 10;
/// Block numbers in one index block.
pub const ADDRESS_PER_INDEX_BLOCK: usize = 128;
/// Blocks reachable from the direct entries.
pub const SMALL_FILE_BLOCK: usize = 6;
/// Blocks reachable through the single-indirect entries as well.
pub const LARGE_FILE_BLOCK: usize = 262;
/// Blocks reachable through the double-indirect entries as well.
pub const HUGE_FILE_BLOCK: usize = 33030;
/// Bytes a pipe buffers.
pub const PIPSIZ: usize = 3072;
/// Bytes of one on-disk inode record.
pub const DISK_INODE_SIZE: usize = 64;

/// An in-memory inode.
#[derive(Debug, Clone, Copy)]
pub struct Inode {
    pub i_flag: u32,
    pub i_mode: u32,
    /// References held on the inode.
    pub i_count: i32,
    /// Directory entries that name the file.
    pub i_nlink: i32,
    /// Device of the disk inode.
    pub i_dev: DevId,
    /// Number of the disk inode.
    pub i_number: i32,
    pub i_uid: i16,
    pub i_gid: i16,
    /// File size in bytes.
    pub i_size: u32,
    /// Block address table.
    pub i_addr: [PhysicalBlock; 10],
    /// Logical block read last (for read-ahead).
    pub i_lastr: i32,
}

#[derive(Debug, Clone, Copy, PartialEq, Eq, Structural)]
pub enum BmapError {
    FileTooLarge,
    AllocFailed,
}

pub struct BmapResult {
    pub phyblk: PhysicalBlock,
    /// The block to read ahead, if any.
    pub rablock: Option<PhysicalBlock>,
}

#[derive(Debug, Clone, Copy, PartialEq, Eq, Structural)]
pub enum OpenError {
    NoSuchDevice,
}

/// Where the address table leads for a file block.
#[derive(Debug, Clone, Copy, PartialEq, Eq, Structural)]
pub enum IndexKind {
    /// Blocks 0-5: the entry `slot` holds the block.
    Direct { slot: usize },
    /// Blocks 6-261: entry 6 or 7 holds an index block; `inner` is the
    /// position in it.
    Indirect { i_addr_slot: usize, inner: usize },
    /// Blocks 262-33029: entry 8 or 9 holds a double index block; `mid`
    /// picks the index block in it, `inner` the position there.
    DoubleIndirect { i_addr_slot: usize, mid: usize, inner: usize },
}

/// The file block that an index position stands for.
pub open spec fn lbn_of(k: IndexKind) -> int {
    match k {
        IndexKind::Direct { slot } => slot as int,
        IndexKind::Indirect { i_addr_slot, inner } => 6 + (i_addr_slot - 6) * 128 + inner,
        IndexKind::DoubleIndirect { i_addr_slot, mid, inner } =>
            262 + (i_addr_slot - 8) * 16384 + mid * 128 + inner,
    }
}

/// The index position of file block `lbn`.
pub open spec fn index_kind(lbn: int) -> IndexKind {
    if lbn < 6 {
        IndexKind::Direct { slot: lbn as usize }
    } else if lbn < 262 {
        IndexKind::Indirect { i_addr_slot: ((lbn - 6) / 128 + 6) as usize, inner: ((lbn - 6) % 128) as usize }
    } else {
        IndexKind::DoubleIndirect {
            i_addr_slot: ((lbn - 262) / 16384 + 8) as usize,
            mid: (((lbn - 262) / 128) % 128) as usize,
            inner: ((lbn - 262) % 128) as usize,
        }
    }
}

/// A well-formed index position: the entries and positions it names exist.
pub open spec fn index_kind_valid(k: IndexKind) -> bool {
    match k {
        IndexKind::Direct { slot } => slot < 6,
        IndexKind::Indirect { i_addr_slot, inner } => 6 <= i_addr_slot <= 7 && inner < 128,
        IndexKind::DoubleIndirect { i_addr_slot, mid, inner } =>
            8 <= i_addr_slot <= 9 && mid < 128 && inner < 128,
    }
}

impl IndexKind {
    /// The index position of file block `lbn`; blocks past the last one an
    /// address table reaches are refused.
    pub fn from_lbn(lbn: usize) -> (r: Result<IndexKind, BmapError>)
        ensures
            lbn >= HUGE_FILE_BLOCK ==> r == Err::<IndexKind, BmapError>(BmapError::FileTooLarge),
            lbn < HUGE_FILE_BLOCK ==> r == Ok::<IndexKind, BmapError>(index_kind(lbn as int)),
    {
        let n = ADDRESS_PER_INDEX_BLOCK;
        let small = SMALL_FILE_BLOCK;
        let large = LARGE_FILE_BLOCK;
        let huge = HUGE_FILE_BLOCK;
        if lbn >= huge {
            return Err(BmapError::FileTooLarge);
        }
        if lbn < small {
            Ok(IndexKind::Direct { slot: lbn })
        } else if lbn < large {
            Ok(IndexKind::Indirect { i_addr_slot: (lbn - small) / n + 6, inner: (lbn - small) % n })
        } else {
            Ok(IndexKind::DoubleIndirect {
                i_addr_slot: (lbn - large) / (n * n) + 8,
                mid: ((lbn - large) / n) % n,
                inner: (lbn - large) % n,
            })
        }
    }
}

/// Every file block an address table reaches has exactly one index
/// position: the position found for a block is well formed and stands for
/// that block, and distinct blocks get distinct positions.
pub proof fn lemma_index_kind_roundtrip(lbn: int)
    requires
        0 <= lbn < HUGE_FILE_BLOCK,
    ensures
        index_kind_valid(index_kind(lbn)),
        lbn_of(index_kind(lbn)) == lbn,
{
    if lbn < 6 {
    } else if lbn < 262 {
        let d = lbn - 6;
        assert(d == (d / 128) * 128 + d % 128) by (nonlinear_arith);
        assert(0 <= d / 128 <= 1) by (nonlinear_arith) requires 0 <= d < 256;
    } else {
        let d = lbn - 262;
        assert(d == (d / 16384) * 16384 + ((d / 128) % 128) * 128 + d % 128) by (nonlinear_arith)
            requires 0 <= d;
        assert(0 <= d / 16384 <= 1) by (nonlinear_arith) requires 0 <= d < 32768;
    }
}

/// The position names the block it stands for: positions are unique.
pub proof fn lemma_index_kind_inverse(k: IndexKind)
    requires
        index_kind_valid(k),
    ensures
        0 <= lbn_of(k) < HUGE_FILE_BLOCK,
        index_kind(lbn_of(k)) == k,
{
    match k {
        IndexKind::Direct { slot } => {},
        IndexKind::Indirect { i_addr_slot, inner } => {
            let d = (i_addr_slot - 6) * 128 + inner;
            assert(d / 128 == i_addr_slot - 6 && d % 128 == inner) by (nonlinear_arith)
                requires d == (i_addr_slot - 6) * 128 + inner, 0 <= inner < 128, 0 <= i_addr_slot - 6 <= 1;
        },
        IndexKind::DoubleIndirect { i_addr_slot, mid, inner } => {
            let d = (i_addr_slot - 8) * 16384 + mid * 128 + inner;
            assert(d / 16384 == i_addr_slot - 8 && (d / 128) % 128 == mid && d % 128 == inner)
                by (nonlinear_arith)
                requires
                    d == (i_addr_slot - 8) * 16384 + mid * 128 + inner,
                    0 <= inner < 128,
                    0 <= mid < 128,
                    0 <= i_addr_slot - 8 <= 1;
        },
    }
}

/// Every failure to get a block from the file system is reported as a
/// failed allocation.
pub fn map_fs_alloc_error<T>(err: T) -> (r: BmapError)
    ensures
        r == BmapError::AllocFailed,
{
    BmapError::AllocFailed
}

// ----- specification of the inode operations -----

pub open spec fn file_type(mode: u32) -> u32 {
    mode & IFMT
}

/// What `bmap` hands back for file block `lbn`.
pub open spec fn bmap_result(ino: Inode, lbn: u32) -> Result<BmapResult, BmapError> {
    if lbn >= HUGE_FILE_BLOCK {
        Err(BmapError::FileTooLarge)
    } else if lbn < 6 {
        let p = ino.i_addr[lbn as int];
        if p.0 != 0 {
            Ok(BmapResult {
                phyblk: p,
                rablock: if lbn <= 4 && ino.i_addr[lbn + 1].0 != 0 {
                    Some(ino.i_addr[lbn + 1])
                } else {
                    None
                },
            })
        } else {
            Err(BmapError::AllocFailed)
        }
    } else {
        Err(BmapError::AllocFailed)
    }
}

/// `bmap` of `lbn` asks the file system for a block.
pub open spec fn bmap_allocates(ino: Inode, lbn: u32) -> bool {
    lbn < 6 && ino.i_addr[lbn as int].0 == 0
}

/// Where a read of `m_count` bytes at `m_offset` inside a regular file
/// stops: at the end of the read or the end of the file.
pub open spec fn read_end(ino: Inode, m_count: usize, m_offset: usize) -> int {
    if m_offset + m_count < ino.i_size {
        m_offset + m_count
    } else {
        ino.i_size as int
    }
}

/// Reading `m_count` bytes at `m_offset` returns: nothing to read; a
/// character device (its driver reads); a regular file read at or past
/// its end, or inside it through direct blocks that are all allocated; a
/// block device whose block numbers fit an `i32`. The last block read is
/// remembered, so the one remembered before must leave room for the
/// read-ahead test. Other reads fail to map a block, or overflow.
pub open spec fn read_i_returns(ino: Inode, m_count: usize, m_offset: usize) -> bool {
    ||| m_count == 0
    ||| file_type(ino.i_mode) == IFCHR
    ||| file_type(ino.i_mode) != IFBLK && (m_offset as u32) >= ino.i_size
    ||| file_type(ino.i_mode) != IFBLK && m_offset < ino.i_size
        && read_end(ino, m_count, m_offset) <= SMALL_FILE_BLOCK * BLOCK_SIZE
        && ino.i_lastr < i32::MAX
        && forall|b: int| m_offset / 512 <= b <= (read_end(ino, m_count, m_offset) - 1) / 512
            ==> #[trigger] ino.i_addr[b].0 != 0
    ||| file_type(ino.i_mode) == IFBLK && m_offset + m_count <= usize::MAX
        && (m_offset + m_count - 1) / 512 < i32::MAX
        && ino.i_lastr < i32::MAX
}

/// The last block a read remembers: the block holding the last byte read,
/// or the one remembered before when no block is read.
pub open spec fn read_lastr(ino: Inode, m_count: usize, m_offset: usize) -> i32 {
    if m_count == 0 || file_type(ino.i_mode) == IFCHR {
        ino.i_lastr
    } else if file_type(ino.i_mode) == IFBLK {
        ((m_offset + m_count - 1) / 512) as i32
    } else if (m_offset as u32) >= ino.i_size {
        ino.i_lastr
    } else {
        ((read_end(ino, m_count, m_offset) - 1) / 512) as i32
    }
}

/// Writing `m_count` bytes at `m_offset` maps every block it touches: in a
/// regular file they are all direct blocks that are already allocated; on
/// a block device the end position fits in a `usize`.
pub open spec fn write_i_maps(ino: Inode, m_count: usize, m_offset: usize) -> bool {
    m_count == 0
        || file_type(ino.i_mode) == IFCHR
        || (file_type(ino.i_mode) == IFBLK && m_offset + m_count <= usize::MAX)
        || (file_type(ino.i_mode) != IFBLK
            && m_offset + m_count <= SMALL_FILE_BLOCK * BLOCK_SIZE
            && forall|b: int| m_offset / 512 <= b <= (m_offset + m_count - 1) / 512
                ==> #[trigger] ino.i_addr[b].0 != 0)
}

/// The file system after each nonzero entry `k-1`, ..., `0` of `addrs` is
/// freed on `dev`, in that order.
pub open spec fn free_blocks(fs: FsView, dev: DevId, addrs: Seq<PhysicalBlock>, k: int) -> FsView
    decreases k,
{
    if k <= 0 {
        fs
    } else {
        let fs1 = if addrs[k - 1].0 != 0 {
            free_outcome(fs, dev, addrs[k - 1].0 as i32).0
        } else {
            fs
        };
        free_blocks(fs1, dev, addrs, k - 1)
    }
}

/// Freeing blocks keeps the free-inode cache of every device usable by
/// `i_free`.
pub proof fn lemma_free_blocks_keeps_i_free_ok(fs: FsView, d2: DevId, addrs: Seq<PhysicalBlock>, k: int, dev: DevId)
    requires
        i_free_ok(fs, dev),
    ensures
        i_free_ok(free_blocks(fs, d2, addrs, k), dev),
    decreases k,
{
    if k > 0 {
        let fs1 = if addrs[k - 1].0 != 0 {
            free_outcome(fs, d2, addrs[k - 1].0 as i32).0
        } else {
            fs
        };
        if addrs[k - 1].0 != 0 {
            lemma_free_keeps_i_free_ok(fs, d2, addrs[k - 1].0 as i32, dev);
        }
        lemma_free_blocks_keeps_i_free_ok(fs1, d2, addrs, k - 1, dev);
    }
}

/// Whether unlocking flags `f` has sleepers to wake.
pub open spec fn wakes(f: u32) -> bool {
    flag_set(f & !ILOCK, IWANT)
}

/// Flags `f` unlocked, with the waiting mark cleared when it was set.
pub open spec fn unlocked(f: u32) -> u32 {
    if wakes(f) {
        (f & !ILOCK) & !IWANT
    } else {
        f & !ILOCK
    }
}

/// A truncation leaves special files (character and block devices, and
/// directories, whose type bits overlap them) alone.
pub open spec fn trunc_skips(mode: u32) -> bool {
    mode & (IFCHR | IFBLK) != 0
}

/// Mode bits a truncation clears: the large-file bit and all permissions.
pub open spec fn trunc_mode(mode: u32) -> u32 {
    mode & (MODE_ALL & !(ILARG | IRWXU | IRWXG | IRWXO))
}

/// The device request behind opening or closing a device file.
#[derive(Debug, Clone, Copy, PartialEq, Eq, Structural)]
pub enum DeviceKind {
    Char,
    Block,
}

/// A call the caller makes into a device driver.
#[derive(Debug, Clone, Copy, PartialEq, Eq, Structural)]
pub struct DeviceCall {
    pub kind: DeviceKind,
    pub dev: i16,
    pub mode: i32,
}

/// What the device layer answered to an open request.
#[derive(Debug, Clone, Copy, PartialEq, Eq, Structural)]
pub enum DeviceReply {
    /// No driver for the device.
    Missing,
    /// The driver refused the open.
    Refused,
    /// The driver opened the device.
    Opened,
}

pub open spec fn device_call(ino: Inode, mode: u32) -> Option<DeviceCall> {
    let dev = ino.i_addr[0].0 as i16;
    if file_type(ino.i_mode) == IFCHR {
        Some(DeviceCall { kind: DeviceKind::Char, dev: dev, mode: mode as i32 })
    } else if file_type(ino.i_mode) == IFBLK {
        Some(DeviceCall { kind: DeviceKind::Block, dev: dev, mode: mode as i32 })
    } else {
        None
    }
}

/// The on-disk inode record.
#[derive(Debug, Clone, Copy)]
pub struct DiskInode {
    pub d_mode: u32,
    pub d_nlink: i32,
    pub d_uid: i16,
    pub d_gid: i16,
    pub d_size: u32,
    pub d_addr: [PhysicalBlock; 10],
    pub d_atime: i32,
    pub d_mtime: i32,
}

/// `d` is the record stored in the 64 bytes at `off` (little-endian fields
/// in declaration order).
pub open spec fn decodes(d: DiskInode, s: Seq<u8>, off: int) -> bool {
    &&& d.d_mode == le_u32(s, off) as u32
    &&& d.d_nlink == le_u32(s, off + 4) as i32
    &&& d.d_uid == le_u16(s, off + 8) as i16
    &&& d.d_gid == le_u16(s, off + 10) as i16
    &&& d.d_size == le_u32(s, off + 12) as u32
    &&& forall|k: int| 0 <= k < 10 ==> #[trigger] d.d_addr[k].0 == le_u32(s, off + 16 + 4 * k) as u32
    &&& d.d_atime == le_u32(s, off + 56) as i32
    &&& d.d_mtime == le_u32(s, off + 60) as i32
}

impl DiskInode {
    /// Decodes the record stored at `off`.
    pub fn from_bytes(s: &[u8], off: usize) -> (d: DiskInode)
        requires
            off + DISK_INODE_SIZE <= s@.len(),
        ensures
            decodes(d, s@, off as int),
    {
        let n = s.len();
        let mut addr = [PhysicalBlock(0); 10];
        let mut k: usize = 0;
        while k < 10
            invariant
                k <= 10,
                n == s@.len(),
                off + DISK_INODE_SIZE <= s@.len(),
                forall|j: int| 0 <= j < k ==> #[trigger] addr[j].0 == le_u32(s@, off + 16 + 4 * j) as u32,
            decreases 10 - k,
        {
            addr[k] = PhysicalBlock(read_u32_le(s, off + 16 + 4 * k));
            k = k + 1;
        }
        DiskInode {
            d_mode: read_u32_le(s, off),
            d_nlink: read_u32_le(s, off + 4) as i32,
            d_uid: read_u16_le(s, off + 8) as i16,
            d_gid: read_u16_le(s, off + 10) as i16,
            d_size: read_u32_le(s, off + 12),
            d_addr: addr,
            d_atime: read_u32_le(s, off + 56) as i32,
            d_mtime: read_u32_le(s, off + 60) as i32,
        }
    }
}

/// The disk write that `i_update` plans for an inode at `time`.
pub open spec fn planned_write(ino: Inode, time: i32) -> InodeWrite {
    InodeWrite {
        sector: (INODE_ZONE_START_SECTOR + (ino.i_number as usize) / INODE_NUMBER_PER_SECTOR) as usize,
        offset: (((ino.i_number as usize) % INODE_NUMBER_PER_SECTOR) * DISK_INODE_SIZE) as usize,
        d_inode: DiskInode {
            d_mode: ino.i_mode,
            d_nlink: ino.i_nlink,
            d_uid: ino.i_uid,
            d_gid: ino.i_gid,
            d_size: ino.i_size,
            d_addr: ino.i_addr,
            d_atime: if flag_set(ino.i_flag, IACC) { time } else { 0 },
            d_mtime: if flag_set(ino.i_flag, IUPD) { time } else { 0 },
        },
    }
}

/// The file system after `i_update` and the write it plans: nothing for an
/// inode neither accessed nor modified, nothing on a read-only file system.
pub open spec fn i_update_outcome(ino: Inode, fs: FsView, time: i32) -> (FsView, Option<InodeWrite>) {
    if ino.i_flag & (IUPD | IACC) == 0 {
        (fs, None)
    } else {
        let fs1 = fs.after_lookup(ino.i_dev);
        match fs.lookup(ino.i_dev) {
            Some(i) => if flag_set(fs1.sb(i).flag, S_RONLY) {
                (fs1, None)
            } else {
                (fs1, Some(planned_write(ino, time)))
            },
            None => (fs1, Some(planned_write(ino, time))),
        }
    }
}

/// An unused inode: no flags, mode, references, links, device, number,
/// owner, size or blocks.
pub open spec fn unused_inode(r: Inode) -> bool {
    &&& r.i_flag == 0 && r.i_mode == 0 && r.i_count == 0 && r.i_nlink == 0
    &&& r.i_dev == DevId(-1i16) && r.i_number == -1 && r.i_uid == -1 && r.i_gid == -1
    &&& r.i_size == 0 && r.i_lastr == -1
    &&& forall|k: int| 0 <= k < 10 ==> #[trigger] r.i_addr[k] == PhysicalBlock(0)
}

/// `new` is `old` with mode, links, owner, size and block addresses loaded
/// from the disk record stored at `off` in `s`.
pub open spec fn loaded_from(old: Inode, new: Inode, s: Seq<u8>, off: int) -> bool {
    &&& new.i_mode == le_u32(s, off) as u32
    &&& new.i_nlink == le_u32(s, off + 4) as i32
    &&& new.i_uid == le_u16(s, off + 8) as i16
    &&& new.i_gid == le_u16(s, off + 10) as i16
    &&& new.i_size == le_u32(s, off + 12) as u32
    &&& forall|k: int| 0 <= k < 10 ==> #[trigger] new.i_addr[k].0 == le_u32(s, off + 16 + 4 * k) as u32
    &&& new.i_flag == old.i_flag
    &&& new.i_count == old.i_count
    &&& new.i_dev == old.i_dev
    &&& new.i_number == old.i_number
    &&& new.i_lastr == old.i_lastr
}

/// Offset of the record of disk inode `ino` in its sector.
pub open spec fn record_offset(ino: int) -> int {
    (ino % 8) * 64
}

/// The size a write of `m_count` bytes at `m_offset` leaves: a regular
/// file grows to the end of the write.
pub open spec fn written_size(ino: Inode, m_count: usize, m_offset: usize) -> u32 {
    if m_count == 0 || file_type(ino.i_mode) == IFCHR || file_type(ino.i_mode) == IFBLK {
        ino.i_size
    } else if ino.i_size < m_offset + m_count {
        (m_offset + m_count) as u32
    } else {
        ino.i_size
    }
}

/// An address table with no blocks.
pub open spec fn no_blocks() -> [PhysicalBlock; 10] {
    vstd::array::spec_array_fill_for_copy_type::<PhysicalBlock, 10>(PhysicalBlock(0))
}

/// The inode truncated: no blocks, no size, modified, no large-file or
/// permission bits, one link.
pub open spec fn trunc_inode(o: Inode) -> Inode {
    Inode {
        i_addr: no_blocks(),
        i_size: 0,
        i_flag: o.i_flag | IUPD,
        i_mode: trunc_mode(o.i_mode),
        i_nlink: 1,
        ..o
    }
}

/// The inode as `clean` leaves it: no mode, links, owner, size or blocks;
/// flags, references, device and number kept.
pub open spec fn clean_inode(o: Inode) -> Inode {
    Inode {
        i_mode: 0,
        i_nlink: 0,
        i_uid: -1i16,
        i_gid: -1i16,
        i_size: 0,
        i_lastr: -1i32,
        i_addr: no_blocks(),
        ..o
    }
}

impl Inode {
    /// An unused inode: no flags, no mode, no references, no device.
    fn new_const() -> (r: Inode)
        ensures
            unused_inode(r),
    {
        Inode {
            i_flag: 0,
            i_mode: 0,
            i_count: 0,
            i_nlink: 0,
            i_dev: DevId(-1),
            i_number: -1,
            i_uid: -1,
            i_gid: -1,
            i_size: 0,
            i_addr: [PhysicalBlock(0); 10],
            i_lastr: -1,
        }
    }

    /// A fresh unused inode for the inode table.
    pub fn new() -> (r: Inode)
        ensures
            unused_inode(r),
    {
        Self::new_const()
    }

    /// Reads `m_count` bytes at `m_offset`: marks the inode accessed and
    /// walks the blocks the read covers, block by block, up to the end of
    /// the read or of a regular file, remembering the last block read. A
    /// character device is read by its driver. Only reads that return are
    /// accepted (see `read_i_returns`).
    pub fn read_i(&mut self, fs: &mut FileSystem, m_count: usize, m_offset: usize) -> (r: Result<(), core::fmt::Error>)
        requires
            read_i_returns(*old(self), m_count, m_offset),
        ensures
            r is Ok,
            final(fs)@ == old(fs)@,
            m_count == 0 ==> *final(self) == *old(self),
            m_count != 0 ==> *final(self) == (Inode {
                i_flag: old(self).i_flag | IACC,
                i_lastr: read_lastr(*old(self), m_count, m_offset),
                ..*old(self)
            }),
    {
        if m_count == 0 {
            return Ok(());
        }
        self.i_flag = self.i_flag | IACC;
        if self.i_mode & IFMT == IFCHR {
            let _dev = self.i_addr[0].0 as i16;
            // The character device driver reads here.
            return Ok(());
        }
        let is_blk = self.i_mode & IFMT == IFBLK;
        let ghost start = *self;
        let ghost off0 = m_offset as int;
        let ghost count0 = m_count;
        let ghost end = m_offset + m_count;
        let ghost touched = is_blk || m_offset < start.i_size;
        let ghost e = if is_blk { end } else if touched { read_end(start, m_count, m_offset) } else { off0 };
        let mut left = m_count;
        let mut pos = m_offset;
        while left != 0
            invariant
                pos + left == end,
                end == off0 + count0,
                count0 == m_count,
                off0 == m_offset,
                m_count != 0,
                off0 <= pos <= e,
                e <= end,
                is_blk ==> end <= usize::MAX,
                e <= usize::MAX,
                fs@ == old(fs)@,
                is_blk == (file_type(start.i_mode) == IFBLK),
                file_type(start.i_mode) != IFCHR,
                start.i_flag == old(self).i_flag | IACC,
                start == (Inode { i_flag: start.i_flag, ..*old(self) }),
                touched == (is_blk || off0 < start.i_size),
                !touched ==> (pos as u32) >= start.i_size && pos == off0
                    && read_lastr(*old(self), count0, off0 as usize) == start.i_lastr,
                !is_blk && touched ==> e == read_end(start, count0, off0 as usize)
                    && e <= 3072 && off0 < start.i_size
                    && read_lastr(*old(self), count0, off0 as usize) == ((e - 1) / 512) as i32
                    && forall|b: int| off0 / 512 <= b <= (e - 1) / 512 ==> #[trigger] start.i_addr[b].0 != 0,
                is_blk ==> e == end && (end - 1) / 512 < i32::MAX
                    && read_lastr(*old(self), count0, off0 as usize) == ((end - 1) / 512) as i32,
                pos == off0 ==> start.i_lastr < i32::MAX || !touched,
                *self == (Inode {
                    i_lastr: if pos == off0 { start.i_lastr } else { ((pos - 1) / 512) as i32 },
                    ..start
                }),
            decreases left,
        {
            let lbn = pos / BLOCK_SIZE;
            let offset = pos % BLOCK_SIZE;
            let mut nbytes = if BLOCK_SIZE - offset < left { BLOCK_SIZE - offset } else { left };
            if !is_blk {
                let remain = self.i_size.saturating_sub(pos as u32);
                if remain == 0 {
                    assert(touched ==> pos == e && pos > off0);
                    return Ok(());
                }
                assert(touched);
                assert(pos < e);
                nbytes = if nbytes < remain as usize { nbytes } else { remain as usize };
                assert(off0 / 512 <= lbn <= (e - 1) / 512) by (nonlinear_arith)
                    requires off0 <= pos <= e - 1, lbn == pos / 512;
                assert(lbn < 6) by (nonlinear_arith) requires lbn <= (e - 1) / 512, e <= 3072;
                let bmap_result = self.bmap(fs, LogicalBlock(lbn as u32)).unwrap();
                if bmap_result.phyblk.0 == 0 {
                    return Ok(());
                }
                let _rablock = match bmap_result.rablock {
                    Some(b) => b,
                    None => PhysicalBlock(0),
                };
                let _target = (self.i_dev, bmap_result.phyblk);
            } else {
                assert(lbn <= (end - 1) / 512) by (nonlinear_arith)
                    requires pos <= end - 1, lbn == pos / 512;
                let _dev = DevId(self.i_addr[0].0 as i16);
                let _bn = PhysicalBlock(lbn as u32);
                let _ra = PhysicalBlock(lbn as u32 + 1);
            }
            assert(lbn < i32::MAX);
            if self.i_lastr + 1 == lbn as i32 {
                // The block is read together with the next one.
            } else {
                // The block is read alone.
            }
            self.i_lastr = lbn as i32;
            // The bytes are copied out here, and the transfer moves on.
            assert(((pos + nbytes) - 1) / 512 == lbn) by (nonlinear_arith)
                requires
                    lbn == pos / 512,
                    offset == pos % 512,
                    1 <= nbytes <= 512 - offset;
            pos = pos + nbytes;
            left = left - nbytes;
        }
        Ok(())
    }

    /// Maps file block `lbn` to its disk block, with the block to read
    /// ahead. Direct blocks are mapped; an unallocated direct block asks the
    /// file system for one (which fails); blocks behind index blocks are not
    /// mapped yet.
    pub fn bmap(&mut self, fs: &mut FileSystem, lbn: LogicalBlock) -> (r: Result<BmapResult, BmapError>)
        ensures
            *final(self) == *old(self),
            r == bmap_result(*old(self), lbn.0),
            final(fs)@ == if bmap_allocates(*old(self), lbn.0) {
                alloc_outcome(old(fs)@, old(self).i_dev).0
            } else {
                old(fs)@
            },
    {
        let lbn = lbn.0 as usize;
        let kind = match IndexKind::from_lbn(lbn) {
            Ok(k) => k,
            Err(e) => return Err(e),
        };
        match kind {
            IndexKind::Direct { slot } => {
                let phy = match self.get_or_alloc_direct(fs, slot) {
                    Ok(p) => p,
                    Err(e) => return Err(e),
                };
                let rablock = if slot <= 4 {
                    let next = self.i_addr[slot + 1].0;
                    if next != 0 {
                        Some(PhysicalBlock(next))
                    } else {
                        None
                    }
                } else {
                    None
                };
                Ok(BmapResult { phyblk: phy, rablock })
            },
            IndexKind::Indirect { i_addr_slot: _, inner: _ } => {
                // Reading the index block needs the buffer manager.
                Err(BmapError::AllocFailed)
            },
            IndexKind::DoubleIndirect { i_addr_slot: _, mid: _, inner: _ } => {
                // Reading the index blocks needs the buffer manager.
                Err(BmapError::AllocFailed)
            },
        }
    }

    /// The disk block in direct entry `slot`, allocating one when the
    /// entry is empty.
    fn get_or_alloc_direct(&mut self, fs: &mut FileSystem, slot: usize) -> (r: Result<PhysicalBlock, BmapError>)
        requires
            slot < 6,
        ensures
            *final(self) == *old(self),
            old(self).i_addr[slot as int].0 != 0 ==> r == Ok::<PhysicalBlock, BmapError>(old(self).i_addr[slot as int])
                && final(fs)@ == old(fs)@,
            old(self).i_addr[slot as int].0 == 0 ==> r == Err::<PhysicalBlock, BmapError>(BmapError::AllocFailed)
                && final(fs)@ == alloc_outcome(old(fs)@, old(self).i_dev).0,
    {
        let phy = self.i_addr[slot];
        if phy.0 != 0 {
            return Ok(PhysicalBlock(phy.0));
        }
        let blkno = match Self::alloc_block_from_fs(fs, self.i_dev) {
            Ok(b) => b,
            Err(e) => return Err(e),
        };
        self.i_addr[slot] = blkno;
        self.i_flag = self.i_flag | IUPD;
        Ok(blkno)
    }

    /// Writes `m_count` bytes at `m_offset`: marks the inode accessed and
    /// modified, maps every block the write touches, and grows a regular
    /// file to the end of the write. The copy into the blocks is not wired
    /// up; only writes whose blocks all map are accepted (see
    /// `write_i_maps`).
    pub fn write_i(&mut self, fs: &mut FileSystem, m_count: usize, m_offset: usize) -> (r: Result<(), core::fmt::Error>)
        requires
            write_i_maps(*old(self), m_count, m_offset),
        ensures
            r is Ok,
            final(fs)@ == old(fs)@,
            *final(self) == (Inode {
                i_flag: old(self).i_flag | (IACC | IUPD),
                i_size: written_size(*old(self), m_count, m_offset),
                ..*old(self)
            }),
    {
        self.i_flag = self.i_flag | (IACC | IUPD);
        if self.i_mode & IFMT == IFCHR {
            let _dev = self.i_addr[0].0 as i16;
            // The character device driver writes here.
            return Ok(());
        }
        if m_count == 0 {
            return Ok(());
        }
        let is_blk = self.i_mode & IFMT == IFBLK;
        let ghost start = *self;
        let ghost f0 = old(self).i_flag;
        let ghost off0 = m_offset;
        let ghost end = m_offset + m_count;
        let mut m_count = m_count;
        let mut m_offset = m_offset;
        while m_count != 0
            invariant
                m_offset + m_count == end,
                off0 <= m_offset <= end,
                end <= usize::MAX,
                off0 < end,
                fs@ == old(fs)@,
                is_blk == (file_type(start.i_mode) == IFBLK),
                file_type(start.i_mode) != IFCHR,
                !is_blk ==> end <= 3072,
                !is_blk ==> forall|b: int| off0 / 512 <= b <= (end - 1) / 512 ==> #[trigger] start.i_addr[b].0 != 0,
                start.i_flag == old(self).i_flag | (IACC | IUPD),
                f0 == old(self).i_flag,
                *self == (Inode {
                    i_size: if is_blk || m_offset == off0 {
                        start.i_size
                    } else if start.i_size < m_offset {
                        m_offset as u32
                    } else {
                        start.i_size
                    },
                    ..start
                }),
            decreases m_count,
        {
            let lbn = m_offset / BLOCK_SIZE;
            let offset = m_offset % BLOCK_SIZE;
            let nbytes = if BLOCK_SIZE - offset < m_count { BLOCK_SIZE - offset } else { m_count };
            if !is_blk {
                assert(off0 / 512 <= lbn <= (end - 1) / 512) by (nonlinear_arith)
                    requires off0 <= m_offset <= end - 1, lbn == m_offset / 512;
                assert(lbn < 6) by (nonlinear_arith) requires lbn <= (end - 1) / 512, end <= 3072;
                let result = self.bmap(fs, LogicalBlock(lbn as u32)).unwrap();
                if result.phyblk.0 == 0 {
                    return Ok(());
                }
                let _target = (self.i_dev, result.phyblk);
            } else {
                let _target = (DevId(self.i_addr[0].0 as i16), PhysicalBlock(lbn as u32));
            }
            // The bytes are copied into the block here.
            m_offset = m_offset + nbytes;
            m_count = m_count - nbytes;
            if !is_blk && self.i_size < m_offset as u32 {
                self.i_size = m_offset as u32;
            }
            let f = self.i_flag;
            self.i_flag = self.i_flag | IUPD;
            assert(f | IUPD == f) by (bit_vector)
                requires f == f0 | (4u32 | 2u32);
        }
        Ok(())
    }

    /// Frees every block of the file and empties it: sizes, addresses and
    /// permission bits are cleared, the link count becomes one. Device files
    /// and directories are left alone. Blocks are freed from the last
    /// address entry to the first.
    pub fn i_trunc(&mut self, fs: &mut FileSystem)
        ensures
            trunc_skips(old(self).i_mode) ==> *final(self) == *old(self) && final(fs)@ == old(fs)@,
            !trunc_skips(old(self).i_mode) ==> *final(self) == trunc_inode(*old(self))
                && final(fs)@ == free_blocks(old(fs)@, old(self).i_dev, old(self).i_addr@, 10),
    {
        if self.i_mode & (IFCHR | IFBLK) != 0 {
            return;
        }
        let mut i: usize = 10;
        while i > 0
            invariant
                i <= 10,
                self.i_dev == old(self).i_dev,
                forall|k: int| 0 <= k < i ==> #[trigger] self.i_addr[k] == old(self).i_addr[k],
                forall|k: int| i <= k < 10 ==> #[trigger] self.i_addr[k] == PhysicalBlock(0),
                free_blocks(fs@, old(self).i_dev, old(self).i_addr@, i as int)
                    == free_blocks(old(fs)@, old(self).i_dev, old(self).i_addr@, 10),
                *self == (Inode { i_addr: self.i_addr, ..*old(self) }),
            decreases i,
        {
            i = i - 1;
            let blk = self.i_addr[i];
            if blk.0 == 0 {
                continue;
            }
            if i >= 6 {
                // The blocks listed in the index block(s) are freed here.
            }
            let _ = fs.free(self.i_dev, blk.0 as i32);
            self.i_addr[i] = PhysicalBlock(0);
        }
        self.i_size = 0;
        self.i_flag = self.i_flag | IUPD;
        self.i_mode = self.i_mode & (MODE_ALL & !(ILARG | IRWXU | IRWXG | IRWXO));
        self.i_nlink = 1;
        assert(self.i_addr =~= no_blocks());
    }

    /// Clears the lock; when someone waits for the inode, clears the
    /// waiting mark too and answers `true`: the caller wakes the sleepers
    /// on this inode.
    fn unlock_and_wake(&mut self) -> (wake: bool)
        ensures
            wake == wakes(old(self).i_flag),
            *final(self) == (Inode { i_flag: unlocked(old(self).i_flag), ..*old(self) }),
    {
        self.i_flag = self.i_flag & !ILOCK;
        if self.i_flag & IWANT == IWANT {
            self.i_flag = self.i_flag & !IWANT;
            return true;
        }
        false
    }

    /// One step of taking the lock. A free lock is set, answering `true`.
    /// A held one is marked as waited for and `false` answers: the caller
    /// sleeps on the inode (at `priority`) and tries again once woken.
    fn lock_with_priority(&mut self, priority: i32) -> (locked: bool)
        ensures
            locked == !flag_set(old(self).i_flag, ILOCK),
            locked ==> *final(self) == (Inode { i_flag: old(self).i_flag | ILOCK, ..*old(self) }),
            !locked ==> *final(self) == (Inode { i_flag: old(self).i_flag | IWANT, ..*old(self) }),
    {
        if self.i_flag & ILOCK == ILOCK {
            self.i_flag = self.i_flag | IWANT;
            return false;
        }
        self.i_flag = self.i_flag | ILOCK;
        true
    }

    /// Unlocks the inode; `true` asks the caller to wake its sleepers.
    pub fn nf_rele(&mut self) -> (wake: bool)
        ensures
            wake == wakes(old(self).i_flag),
            *final(self) == (Inode { i_flag: unlocked(old(self).i_flag), ..*old(self) }),
    {
        self.unlock_and_wake()
    }

    /// One step of locking the inode (see `lock_with_priority`): `true`
    /// once it is locked, `false` when the caller must sleep and retry.
    pub fn nf_lock(&mut self) -> (locked: bool)
        ensures
            locked == !flag_set(old(self).i_flag, ILOCK),
            locked ==> *final(self) == (Inode { i_flag: old(self).i_flag | ILOCK, ..*old(self) }),
            !locked ==> *final(self) == (Inode { i_flag: old(self).i_flag | IWANT, ..*old(self) }),
    {
        self.lock_with_priority(0)
    }

    /// Unlocks the inode; `true` asks the caller to wake its sleepers.
    pub fn prele(&mut self) -> (wake: bool)
        ensures
            wake == wakes(old(self).i_flag),
            *final(self) == (Inode { i_flag: unlocked(old(self).i_flag), ..*old(self) }),
    {
        self.unlock_and_wake()
    }

    /// One step of locking the inode (see `lock_with_priority`): `true`
    /// once it is locked, `false` when the caller must sleep and retry.
    pub fn plock(&mut self) -> (locked: bool)
        ensures
            locked == !flag_set(old(self).i_flag, ILOCK),
            locked ==> *final(self) == (Inode { i_flag: old(self).i_flag | ILOCK, ..*old(self) }),
            !locked ==> *final(self) == (Inode { i_flag: old(self).i_flag | IWANT, ..*old(self) }),
    {
        self.lock_with_priority(0)
    }

    /// Forgets the file: no mode, links, owner, size or blocks.
    pub fn clean(&mut self)
        ensures
            *final(self) == clean_inode(*old(self)),
    {
        self.i_mode = 0;
        self.i_nlink = 0;
        self.i_uid = -1;
        self.i_gid = -1;
        self.i_size = 0;
        self.i_lastr = -1;
        self.i_addr = [PhysicalBlock(0); 10];
        assert(self.i_addr =~= no_blocks());
    }

    /// Loads mode, links, owner, size and addresses of disk inode `inumber`
    /// from `buf`, the sector that holds it.
    pub fn i_copy(&mut self, buf: &Buf, inumber: usize)
        requires
            buf.b_addr@.len() == BLOCK_SIZE,
        ensures
            loaded_from(*old(self), *final(self), buf.b_addr@, record_offset(inumber as int)),
    {
        let offset = (inumber % INODE_NUMBER_PER_SECTOR) * DISK_INODE_SIZE;
        let d = DiskInode::from_bytes(buf.as_slice(), offset);
        self.i_mode = d.d_mode;
        self.i_nlink = d.d_nlink;
        self.i_uid = d.d_uid;
        self.i_gid = d.d_gid;
        self.i_size = d.d_size;
        self.i_addr = d.d_addr;
    }

    /// The device call behind opening this inode with `mode`: a character
    /// or block device file names its device in address entry 0.
    pub fn open_request(&self, mode: u32) -> (r: Option<DeviceCall>)
        ensures
            r == device_call(*self, mode),
    {
        let dev = self.i_addr[0].0 as i16;
        let t = self.i_mode & IFMT;
        if t == IFCHR {
            Some(DeviceCall { kind: DeviceKind::Char, dev, mode: mode as i32 })
        } else if t == IFBLK {
            Some(DeviceCall { kind: DeviceKind::Block, dev, mode: mode as i32 })
        } else {
            None
        }
    }

    /// Opens the inode with `mode`; `reply` is what the device layer
    /// answered to `open_request(mode)`. A device that is missing or refuses
    /// fails the open; other files always open.
    pub fn open_i(&self, mode: u32, reply: DeviceReply) -> (r: Result<(), OpenError>)
        ensures
            r == match device_call(*self, mode) {
                None => Ok(()),
                Some(_) => if reply == DeviceReply::Opened {
                    Ok::<(), OpenError>(())
                } else {
                    Err(OpenError::NoSuchDevice)
                },
            },
    {
        match self.open_request(mode) {
            None => Ok(()),
            Some(_) => match reply {
                DeviceReply::Opened => Ok(()),
                _ => Err(OpenError::NoSuchDevice),
            },
        }
    }

    /// The device close that closing the inode with `mode` calls for: only
    /// the last reference to a device file closes the device.
    pub fn close_i(&self, mode: u32) -> (r: Option<DeviceCall>)
        ensures
            r == if self.i_count > 1 { None } else { device_call(*self, mode) },
    {
        if self.i_count > 1 {
            return None;
        }
        self.open_request(mode)
    }

    /// Plans the disk update of an accessed or modified inode at `time`;
    /// nothing is written to a read-only file system. The lookup of the file
    /// system may reset its damaged cache counts.
    pub fn i_update(&self, fs: &mut FileSystem, time: i32) -> (r: Option<InodeWrite>)
        ensures
            final(fs)@ == i_update_outcome(*self, old(fs)@, time).0,
            r == i_update_outcome(*self, old(fs)@, time).1,
    {
        if self.i_flag & (IUPD | IACC) == 0 {
            return None;
        }
        proof { crate::fs::file_system::lemma_first_from(old(fs)@.mounts, self.i_dev, 0); }
        match fs.get_fs(self.i_dev) {
            Ok(i) => {
                assert(old(fs)@.lookup(self.i_dev) == Some(i as int));
                if fs.sb_at(i).is_readonly() {
                    return None;
                }
            },
            Err(_) => {},
        }
        let sector = INODE_ZONE_START_SECTOR + (self.i_number as usize) / INODE_NUMBER_PER_SECTOR;
        let d_inode = DiskInode {
            d_mode: self.i_mode,
            d_nlink: self.i_nlink,
            d_uid: self.i_uid,
            d_gid: self.i_gid,
            d_size: self.i_size,
            d_addr: self.i_addr,
            d_atime: if self.i_flag & IACC == IACC { time } else { 0 },
            d_mtime: if self.i_flag & IUPD == IUPD { time } else { 0 },
        };
        let offset = ((self.i_number as usize) % INODE_NUMBER_PER_SECTOR) * DISK_INODE_SIZE;
        Some(InodeWrite { sector, offset, d_inode })
    }

    /// A new disk block on `dev` from the file system.
    fn alloc_block_from_fs(fs: &mut FileSystem, dev: DevId) -> (r: Result<PhysicalBlock, BmapError>)
        ensures
            final(fs)@ == alloc_outcome(old(fs)@, dev).0,
            r == Err::<PhysicalBlock, BmapError>(BmapError::AllocFailed),
    {
        match fs.alloc_block(dev) {
            Ok(buf) => Ok(buf.b_blkno),
            Err(e) => Err(map_fs_alloc_error(e)),
        }
    }
}

/// Where a disk inode goes and what is written there.
#[derive(Debug, Clone, Copy)]
pub struct InodeWrite {
    /// Sector holding the disk inode.
    pub sector: usize,
    /// Byte offset of the record in the sector.
    pub offset: usize,
    pub d_inode: DiskInode,
}

} // verus!
