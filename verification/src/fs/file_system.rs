//! Mounted file systems: super blocks with their caches of free blocks and
//! free inode numbers.
use vstd::prelude::*;
use crate::bytes::{le_u32, read_u32_le};
use crate::dev::buffer::{DevId, ROOTDEV};
use crate::fs::inode::{clean_inode, Inode};
use crate::fs::open_file_manager::{lemma_update_table_keeps_lock, update_table, InodeTable, UpdateAction};

verus! {

/// The free-block cache is being refilled.
pub const S_FLOCK: u32 = 0x1;
/// The free-inode cache is being refilled.
pub const S_ILOCK: u32 = 0x2;
/// The super block was modified and must be written back.
pub const S_FMOD: u32 = 0x4;
/// The file system is mounted read-only.
pub const S_RONLY: u32 = 0x8;

/// Entries in each of the super block's two caches.
pub const NICFREE: usize = 100;
/// Mount slots.
pub const NMOUNT: usize = 5;

pub const SUPER_BLOCK_SECTOR_NUMBER: usize = 512;
pub const ROOTINO: i32 = 1;
pub const INODE_NUMBER_PER_SECTOR: usize = 8;
pub const INODE_ZONE_START_SECTOR: usize = 514;
pub const INODE_ZONE_SIZE: usize = 510;
pub const DATA_ZONE_START_SECTOR: usize = 1024;
pub const DATA_ZONE_SIZE: usize = 0x7400;
pub const DATA_ZONE_END_SECTOR: usize = 0x7800;
/// Bytes of the on-disk super block (two sectors).
pub const SUPER_BLOCK_BYTES: usize = 1024;

#[derive(Debug, Clone, Copy, PartialEq, Eq, Structural)]
pub enum FileSystemError {
    NoSuchFileSystem,
    LoadSuperBlockFailed,
    NoSpace,
    BadBlock,
    BufferUnavailable,
    InodeUnavailable,
}

/// The in-memory super block of a mounted file system.
#[derive(Clone, Copy)]
pub struct SuperBlock {
    pub s_isize: i32,
    pub s_fsize: i32,
    /// Entries in use in `s_free`; the top of the free-block stack.
    pub s_nfree: i32,
    pub s_free: [i32; 100],
    /// Entries in use in `s_inode`; the top of the free-inode stack.
    pub s_ninode: i32,
    pub s_inode: [i32; 100],
    pub s_flag: u32,
    pub s_time: i32,
}

/// The super block as the C++ side and the disk lay it out: one `i32`
/// per field, flags as separate words.
#[derive(Clone, Copy)]
pub struct CppSuperBlock {
    pub s_isize: i32,
    pub s_fsize: i32,
    pub s_nfree: i32,
    pub s_free: [i32; 100],
    pub s_ninode: i32,
    pub s_inode: [i32; 100],
    pub s_flock: i32,
    pub s_ilock: i32,
    pub s_fmod: i32,
    pub s_ronly: i32,
    pub s_time: i32,
}

/// A mount slot as the C++ side lays it out; the super block it points
/// to is held here.
pub struct CppMount {
    pub m_dev: i16,
    pub m_spb: Option<CppSuperBlock>,
    /// The mounted-on inode, by its index in the inode table.
    pub m_inodep: Option<usize>,
}

/// A super block as a mathematical value.
#[verifier::ext_equal]
pub struct SbView {
    pub isize: i32,
    pub fsize: i32,
    pub nfree: i32,
    pub free: Seq<i32>,
    pub ninode: i32,
    pub inode: Seq<i32>,
    pub flag: u32,
    pub time: i32,
}

impl View for SuperBlock {
    type V = SbView;

    open spec fn view(&self) -> SbView {
        SbView {
            isize: self.s_isize,
            fsize: self.s_fsize,
            nfree: self.s_nfree,
            free: self.s_free@,
            ninode: self.s_ninode,
            inode: self.s_inode@,
            flag: self.s_flag,
            time: self.s_time,
        }
    }
}

/// A mount slot. `m_inode` names the mounted-on inode by its index in the
/// inode table.
#[derive(Clone, Copy)]
pub struct Mount {
    pub m_dev: DevId,
    pub m_spb: Option<SuperBlock>,
    pub m_inode: Option<usize>,
}

#[verifier::ext_equal]
pub struct MountView {
    pub dev: DevId,
    pub spb: Option<SbView>,
    pub inode: Option<usize>,
}

impl View for Mount {
    type V = MountView;

    open spec fn view(&self) -> MountView {
        MountView {
            dev: self.m_dev,
            spb: match self.m_spb {
                Some(sb) => Some(sb@),
                None => None,
            },
            inode: self.m_inode,
        }
    }
}

/// The mount table.
pub struct FileSystem {
    pub m_mount: [Mount; 5],
    /// A write-back is in progress.
    pub updlock: bool,
}

#[verifier::ext_equal]
pub struct FsView {
    pub mounts: Seq<MountView>,
    pub updlock: bool,
}

impl View for FileSystem {
    type V = FsView;

    open spec fn view(&self) -> FsView {
        FsView { mounts: self.m_mount@.map_values(|m: Mount| m@), updlock: self.updlock }
    }
}

// ----- specification of the super-block operations -----

pub open spec fn flag_set(flag: u32, f: u32) -> bool {
    flag & f == f
}

/// A mount slot serves device `dev`.
pub open spec fn serves(m: MountView, dev: DevId) -> bool {
    m.dev == dev && m.spb is Some
}

/// The first slot at or after `i` that serves `dev`.
pub open spec fn first_from(ms: Seq<MountView>, dev: DevId, i: int) -> Option<int>
    decreases ms.len() - i,
{
    if i < 0 || i >= ms.len() {
        None
    } else if serves(ms[i], dev) {
        Some(i)
    } else {
        first_from(ms, dev, i + 1)
    }
}

/// What the first match is: a serving slot with no serving slot before it.
pub proof fn lemma_first_from(ms: Seq<MountView>, dev: DevId, i: int)
    requires
        0 <= i,
    ensures
        match first_from(ms, dev, i) {
            Some(k) => i <= k < ms.len() && serves(ms[k], dev)
                && forall|j: int| i <= j < k ==> !#[trigger] serves(ms[j], dev),
            None => forall|j: int| i <= j < ms.len() ==> !#[trigger] serves(ms[j], dev),
        },
    decreases ms.len() - i,
{
    if i < ms.len() && !serves(ms[i], dev) {
        lemma_first_from(ms, dev, i + 1);
    }
}

/// Replacing a present super block does not change which slot serves a
/// device.
pub proof fn lemma_with_sb_lookup(fs: FsView, j: int, sb: SbView, dev: DevId)
    requires
        0 <= j < fs.mounts.len(),
        fs.mounts[j].spb is Some,
    ensures
        fs.with_sb(j, sb).lookup(dev) == fs.lookup(dev),
{
    let ms = fs.mounts;
    let ms2 = fs.with_sb(j, sb).mounts;
    assert forall|i: int| 0 <= i < ms.len() implies #[trigger] serves(ms2[i], dev) == serves(ms[i], dev) by {}
    lemma_first_from_same(ms, ms2, dev, 0);
}

proof fn lemma_first_from_same(ms: Seq<MountView>, ms2: Seq<MountView>, dev: DevId, i: int)
    requires
        0 <= i,
        ms.len() == ms2.len(),
        forall|k: int| 0 <= k < ms.len() ==> #[trigger] serves(ms2[k], dev) == serves(ms[k], dev),
    ensures
        first_from(ms2, dev, i) == first_from(ms, dev, i),
    decreases ms.len() - i,
{
    if i < ms.len() {
        lemma_first_from_same(ms, ms2, dev, i + 1);
    }
}

proof fn lemma_flag_keeps_ilock(f: u32)
    ensures
        flag_set(f | S_FMOD, S_ILOCK) == flag_set(f, S_ILOCK),
        flag_set((f | S_FLOCK) & !S_FLOCK, S_ILOCK) == flag_set(f, S_ILOCK),
{
    assert((f | 4u32) & 2u32 == 2u32 <==> f & 2u32 == 2u32) by (bit_vector);
    assert(((f | 1u32) & !1u32) & 2u32 == 2u32 <==> f & 2u32 == 2u32) by (bit_vector);
}

/// Freeing a block keeps the free-inode cache of every device usable by
/// `i_free`.
pub proof fn lemma_free_keeps_i_free_ok(fs: FsView, d2: DevId, b: i32, dev: DevId)
    requires
        i_free_ok(fs, dev),
    ensures
        i_free_ok(free_outcome(fs, d2, b).0, dev),
{
    lemma_first_from(fs.mounts, d2, 0);
    lemma_first_from(fs.mounts, dev, 0);
    match fs.lookup(d2) {
        None => {},
        Some(j) => {
            let sb = normalized(fs.sb(j));
            let sb2 = free_sb(sb, b);
            lemma_with_sb_lookup(fs, j, sb2, dev);
            let sb1 = SbView { flag: sb.flag | S_FMOD, ..sb };
            lemma_flag_keeps_ilock(sb.flag);
            let sb2a = if sb1.nfree <= 0 { SbView { nfree: 1, free: sb1.free.update(0, 0), ..sb1 } } else { sb1 };
            lemma_flag_keeps_ilock(sb2a.flag);
            let sb3 = if sb2a.nfree >= 100 {
                SbView { nfree: 0, flag: (sb2a.flag | S_FLOCK) & !S_FLOCK, ..sb2a }
            } else {
                sb2a
            };
            lemma_flag_keeps_ilock(sb3.flag);
        },
    }
}

/// Both caches of a super block have their fixed size.
pub open spec fn sized(sb: SbView) -> bool {
    sb.free.len() == 100 && sb.inode.len() == 100
}

/// The shape of every mount table: five slots, caches of fixed size.
pub open spec fn fs_sized(fs: FsView) -> bool {
    &&& fs.mounts.len() == 5
    &&& forall|i: int| 0 <= i < 5 ==> ((#[trigger] fs.mounts[i]).spb matches Some(sb) ==> sized(sb))
}

impl FsView {
    /// The slot that serves `dev`: the first one.
    pub open spec fn lookup(self, dev: DevId) -> Option<int> {
        first_from(self.mounts, dev, 0)
    }

    pub open spec fn sb(self, i: int) -> SbView {
        self.mounts[i].spb.unwrap()
    }

    /// The same table with the super block of slot `i` replaced.
    pub open spec fn with_sb(self, i: int, sb: SbView) -> FsView {
        FsView {
            mounts: self.mounts.update(i, MountView { spb: Some(sb), ..self.mounts[i] }),
            ..self
        }
    }

    /// What a lookup of `dev` leaves behind: the found super block with
    /// out-of-range cache counts reset.
    pub open spec fn after_lookup(self, dev: DevId) -> FsView {
        match self.lookup(dev) {
            None => self,
            Some(i) => self.with_sb(i, normalized(self.sb(i))),
        }
    }
}

/// Cache counts beyond the cache size mark a damaged super block; both
/// caches are then taken as empty.
pub open spec fn normalized(sb: SbView) -> SbView {
    if sb.nfree > 100 || sb.ninode > 100 {
        SbView { nfree: 0, ninode: 0, ..sb }
    } else {
        sb
    }
}

/// Table and error after a block allocation on `dev`. No path hands out a
/// block yet: the cache entry is taken, and the buffer for it is not
/// available.
pub open spec fn alloc_outcome(fs: FsView, dev: DevId) -> (FsView, FileSystemError) {
    match fs.lookup(dev) {
        None => (fs, FileSystemError::NoSuchFileSystem),
        Some(i) => {
            let sb = normalized(fs.sb(i));
            if sb.nfree <= 0 {
                (fs.with_sb(i, sb), FileSystemError::NoSpace)
            } else {
                let n = sb.nfree - 1;
                let blkno = sb.free[n];
                if blkno == 0 {
                    (fs.with_sb(i, SbView { nfree: 0, ..sb }), FileSystemError::NoSpace)
                } else {
                    let flag = if n <= 0 {
                        ((sb.flag | S_FLOCK) & !S_FLOCK) | S_FMOD
                    } else {
                        sb.flag | S_FMOD
                    };
                    (fs.with_sb(i, SbView { nfree: n as i32, flag: flag, ..sb }),
                        FileSystemError::BufferUnavailable)
                }
            }
        }
    }
}

/// The super block after `blkno` is pushed onto its free-block cache. A full
/// cache is emptied first (its contents would go to the freed block).
pub open spec fn free_sb(sb: SbView, blkno: i32) -> SbView {
    let sb1 = SbView { flag: sb.flag | S_FMOD, ..sb };
    let sb2 = if sb1.nfree <= 0 { SbView { nfree: 1, free: sb1.free.update(0, 0), ..sb1 } } else { sb1 };
    let sb3 = if sb2.nfree >= 100 {
        SbView { nfree: 0, flag: (sb2.flag | S_FLOCK) & !S_FLOCK, ..sb2 }
    } else {
        sb2
    };
    SbView {
        free: sb3.free.update(sb3.nfree as int, blkno),
        nfree: (sb3.nfree + 1) as i32,
        flag: sb3.flag | S_FMOD,
        ..sb3
    }
}

/// Table and result after block `blkno` of `dev` is freed.
pub open spec fn free_outcome(fs: FsView, dev: DevId, blkno: i32) -> (FsView, Result<(), FileSystemError>) {
    match fs.lookup(dev) {
        None => (fs, Err(FileSystemError::NoSuchFileSystem)),
        Some(i) => (fs.with_sb(i, free_sb(normalized(fs.sb(i)), blkno)), Ok(())),
    }
}

/// The super block after inode number `number` is offered to its
/// free-inode cache; a locked or full cache keeps it unchanged.
pub open spec fn i_free_sb(sb: SbView, number: i32) -> SbView {
    if flag_set(sb.flag, S_ILOCK) || sb.ninode >= 100 {
        sb
    } else {
        SbView {
            inode: sb.inode.update(sb.ninode as int, number),
            ninode: (sb.ninode + 1) as i32,
            flag: sb.flag | S_FMOD,
            ..sb
        }
    }
}

pub open spec fn i_free_outcome(fs: FsView, dev: DevId, number: i32) -> (FsView, Result<(), FileSystemError>) {
    match fs.lookup(dev) {
        None => (fs, Err(FileSystemError::NoSuchFileSystem)),
        Some(i) => (fs.with_sb(i, i_free_sb(normalized(fs.sb(i)), number)), Ok(())),
    }
}

/// `i_free` on `dev` does not index its cache with a negative count.
pub open spec fn i_free_ok(fs: FsView, dev: DevId) -> bool {
    match fs.lookup(dev) {
        None => true,
        Some(i) => {
            let sb = normalized(fs.sb(i));
            flag_set(sb.flag, S_ILOCK) || sb.ninode >= 0
        },
    }
}

/// Table and result after the next candidate inode number is taken from the
/// free-inode cache of `dev`.
pub open spec fn i_alloc_outcome(fs: FsView, dev: DevId) -> (FsView, Result<i32, FileSystemError>) {
    match fs.lookup(dev) {
        None => (fs, Err(FileSystemError::NoSuchFileSystem)),
        Some(i) => {
            let sb = normalized(fs.sb(i));
            if sb.ninode <= 0 {
                (fs.with_sb(i, SbView { flag: (sb.flag | S_ILOCK) & !S_ILOCK, ..sb }),
                    Err(FileSystemError::NoSpace))
            } else {
                let n = sb.ninode - 1;
                (fs.with_sb(i, SbView { ninode: n as i32, ..sb }), Ok(sb.inode[n]))
            }
        }
    }
}

/// Whether `update` writes a super block back: modified, not in the middle
/// of a cache refill, and writable.
pub open spec fn should_sync(sb: SbView) -> bool {
    flag_set(sb.flag, S_FMOD) && !flag_set(sb.flag, S_ILOCK) && !flag_set(sb.flag, S_FLOCK) && !flag_set(sb.flag, S_RONLY)
}

pub open spec fn synced_mount(m: MountView) -> MountView {
    match m.spb {
        Some(sb) => if should_sync(sb) {
            MountView { spb: Some(SbView { flag: sb.flag & !S_FMOD, time: 0, ..sb }), ..m }
        } else {
            m
        },
        None => m,
    }
}

/// The table after a free inode was claimed on `dev`: the super block is
/// marked modified.
pub open spec fn claim_outcome(fs: FsView, dev: DevId) -> FsView {
    match fs.lookup(dev) {
        None => fs,
        Some(i) => {
            let sb = normalized(fs.sb(i));
            fs.with_sb(i, SbView { flag: sb.flag | S_FMOD, ..sb })
        },
    }
}

/// Slot `m` is mounted on an inode with the device and number of `ino`.
pub open spec fn mounted_on(m: MountView, table: Seq<Inode>, ino: Inode) -> bool {
    match m.inode {
        Some(j) => j < table.len() && table[j as int].i_dev == ino.i_dev && table[j as int].i_number == ino.i_number,
        None => false,
    }
}

/// The first slot at or after `i` mounted on `ino`.
pub open spec fn first_mounted_on(ms: Seq<MountView>, table: Seq<Inode>, ino: Inode, i: int) -> Option<int>
    decreases ms.len() - i,
{
    if i < 0 || i >= ms.len() {
        None
    } else if mounted_on(ms[i], table, ino) {
        Some(i)
    } else {
        first_mounted_on(ms, table, ino, i + 1)
    }
}

/// The in-memory super block built from the on-disk one: of the lock and
/// mode words only "modified" survives.
pub open spec fn from_cpp_view(spb: CppSuperBlock, time: i32) -> SbView {
    SbView {
        isize: spb.s_isize,
        fsize: spb.s_fsize,
        nfree: spb.s_nfree,
        free: spb.s_free@,
        ninode: spb.s_ninode,
        inode: spb.s_inode@,
        flag: if spb.s_fmod != 0 { S_FMOD } else { 0 },
        time: time,
    }
}

/// Word `k` of an on-disk super block image.
pub open spec fn word(bytes: Seq<u8>, k: int) -> i32 {
    le_u32(bytes, 4 * k) as i32
}

fn read_word(bytes: &[u8], k: usize) -> (r: i32)
    requires
        4 * k + 4 <= bytes@.len(),
    ensures
        r == word(bytes@, k as int),
{
    let n = bytes.len();
    read_u32_le(bytes, 4 * k) as i32
}

fn read_words(bytes: &[u8], first: usize) -> (r: [i32; 100])
    requires
        4 * (first + 100) <= bytes@.len(),
    ensures
        forall|j: int| 0 <= j < 100 ==> #[trigger] r[j] == word(bytes@, first + j),
{
    let n = bytes.len();
    let mut r = [0i32; 100];
    let mut j: usize = 0;
    while j < 100
        invariant
            j <= 100,
            n == bytes@.len(),
            4 * (first + 100) <= bytes@.len(),
            forall|k: int| 0 <= k < j ==> #[trigger] r[k] == word(bytes@, first + k),
        decreases 100 - j,
    {
        r[j] = read_word(bytes, first + j);
        j = j + 1;
    }
    r
}

/// The in-memory super block for the on-disk image `bytes` read at `time`.
pub open spec fn image_sb(bytes: Seq<u8>, time: i32) -> SbView {
    SbView {
        isize: word(bytes, 0),
        fsize: word(bytes, 1),
        nfree: word(bytes, 2),
        free: Seq::new(100, |j: int| word(bytes, 3 + j)),
        ninode: word(bytes, 103),
        inode: Seq::new(100, |j: int| word(bytes, 104 + j)),
        flag: if word(bytes, 206) != 0 { S_FMOD } else { 0 },
        time: time,
    }
}

/// `c` holds the counts and caches of the on-disk image `bytes`.
pub open spec fn cpp_holds_image(c: CppSuperBlock, bytes: Seq<u8>) -> bool {
    &&& c.s_isize == word(bytes, 0)
    &&& c.s_fsize == word(bytes, 1)
    &&& c.s_nfree == word(bytes, 2)
    &&& c.s_free@ == Seq::new(100, |j: int| word(bytes, 3 + j))
    &&& c.s_ninode == word(bytes, 103)
    &&& c.s_inode@ == Seq::new(100, |j: int| word(bytes, 104 + j))
    &&& c.s_fmod == word(bytes, 206)
}

impl CppSuperBlock {
    /// Decodes the two-sector on-disk super block (little-endian words).
    pub fn from_bytes(bytes: &[u8]) -> (r: CppSuperBlock)
        requires
            bytes@.len() >= SUPER_BLOCK_BYTES,
        ensures
            r.s_isize == word(bytes@, 0),
            r.s_fsize == word(bytes@, 1),
            r.s_nfree == word(bytes@, 2),
            forall|j: int| 0 <= j < 100 ==> #[trigger] r.s_free[j] == word(bytes@, 3 + j),
            r.s_ninode == word(bytes@, 103),
            forall|j: int| 0 <= j < 100 ==> #[trigger] r.s_inode[j] == word(bytes@, 104 + j),
            r.s_flock == word(bytes@, 204),
            r.s_ilock == word(bytes@, 205),
            r.s_fmod == word(bytes@, 206),
            r.s_ronly == word(bytes@, 207),
            r.s_time == word(bytes@, 208),
    {
        CppSuperBlock {
            s_isize: read_word(bytes, 0),
            s_fsize: read_word(bytes, 1),
            s_nfree: read_word(bytes, 2),
            s_free: read_words(bytes, 3),
            s_ninode: read_word(bytes, 103),
            s_inode: read_words(bytes, 104),
            s_flock: read_word(bytes, 204),
            s_ilock: read_word(bytes, 205),
            s_fmod: read_word(bytes, 206),
            s_ronly: read_word(bytes, 207),
            s_time: read_word(bytes, 208),
        }
    }
}

impl SuperBlock {
    /// An empty super block: all counts zero, no flags.
    pub fn new() -> (r: SuperBlock)
        ensures
            r@.isize == 0 && r@.fsize == 0 && r@.nfree == 0 && r@.ninode == 0,
            r@.free == Seq::new(100, |i: int| 0i32),
            r@.inode == Seq::new(100, |i: int| 0i32),
            r@.flag == 0,
            r@.time == 0,
    {
        let r = SuperBlock {
            s_isize: 0,
            s_fsize: 0,
            s_nfree: 0,
            s_free: [0i32; 100],
            s_ninode: 0,
            s_inode: [0i32; 100],
            s_flag: 0,
            s_time: 0,
        };
        assert(r.s_free@ =~= Seq::new(100, |i: int| 0i32));
        assert(r.s_inode@ =~= Seq::new(100, |i: int| 0i32));
        r
    }

    pub fn is_readonly(&self) -> (r: bool)
        ensures
            r == flag_set(self.s_flag, S_RONLY),
    {
        self.s_flag & S_RONLY == S_RONLY
    }

    pub fn is_modified(&self) -> (r: bool)
        ensures
            r == flag_set(self.s_flag, S_FMOD),
    {
        self.s_flag & S_FMOD == S_FMOD
    }

    pub fn is_flock(&self) -> (r: bool)
        ensures
            r == flag_set(self.s_flag, S_FLOCK),
    {
        self.s_flag & S_FLOCK == S_FLOCK
    }

    pub fn is_ilock(&self) -> (r: bool)
        ensures
            r == flag_set(self.s_flag, S_ILOCK),
    {
        self.s_flag & S_ILOCK == S_ILOCK
    }

    /// The in-memory super block for one read from disk at `time`; the lock
    /// and read-only words are dropped, "modified" is kept.
    pub fn from_cpp(spb: &CppSuperBlock, time: i32) -> (r: SuperBlock)
        ensures
            r@ == from_cpp_view(*spb, time),
    {
        let a = spb.s_flock != 0;
        let b = spb.s_ilock != 0;
        let c = spb.s_fmod != 0;
        let d = spb.s_ronly != 0;
        let mut flag: u32 = 0;
        if a {
            flag = flag | S_FLOCK;
        }
        let f1 = flag;
        if b {
            flag = flag | S_ILOCK;
        }
        let f2 = flag;
        if c {
            flag = flag | S_FMOD;
        }
        let f3 = flag;
        if d {
            flag = flag | S_RONLY;
        }
        let f4 = flag;
        flag = flag & !(S_FLOCK | S_ILOCK | S_RONLY);
        assert(flag == if c { 4u32 } else { 0u32 }) by (bit_vector)
            requires
                f1 == (if a { 0u32 | 1u32 } else { 0u32 }),
                f2 == (if b { f1 | 2u32 } else { f1 }),
                f3 == (if c { f2 | 4u32 } else { f2 }),
                f4 == (if d { f3 | 8u32 } else { f3 }),
                flag == f4 & !(1u32 | 2u32 | 8u32);
        SuperBlock {
            s_isize: spb.s_isize,
            s_fsize: spb.s_fsize,
            s_nfree: spb.s_nfree,
            s_free: spb.s_free,
            s_ninode: spb.s_ninode,
            s_inode: spb.s_inode,
            s_flag: flag,
            s_time: time,
        }
    }
}

impl Mount {
    /// An empty slot: no device, no super block, no mounted-on inode.
    pub fn new() -> (r: Mount)
        ensures
            r.m_dev == DevId(-1i16),
            r.m_spb is None,
            r.m_inode is None,
    {
        Mount { m_dev: DevId(-1), m_spb: None, m_inode: None }
    }

    pub fn is_valid(&self) -> (r: bool)
        ensures
            r == (self.m_spb is Some && self.m_dev.0 >= 0),
    {
        self.m_spb.is_some() && self.m_dev.0 >= 0
    }
}

impl FileSystem {
    /// The mount slots of the view are the views of the slots of
    /// `m_mount`.
    pub proof fn lemma_mounts_view(&self)
        ensures
            self@.mounts.len() == 5,
            forall|i: int| 0 <= i < 5 ==> #[trigger] self@.mounts[i] == self.m_mount[i]@,
    {
        assert forall|i: int| 0 <= i < 5 implies #[trigger] self@.mounts[i] == self.m_mount[i]@ by {
            self.lemma_view(i);
        }
        self.lemma_view(0);
    }

    /// Every mount table has the fixed shape.
    pub proof fn lemma_sized(&self)
        ensures
            fs_sized(self@),
    {
        assert forall|i: int| 0 <= i < 5 implies ((#[trigger] self@.mounts[i]).spb matches Some(sb) ==> sized(sb)) by {
            self.lemma_view(i);
        }
    }

    proof fn lemma_view(&self, i: int)
        requires
            0 <= i < 5,
        ensures
            self@.mounts.len() == 5,
            self@.mounts[i] == self.m_mount[i]@,
            self@.updlock == self.updlock,
    {
    }

    /// An empty mount table.
    pub fn new() -> (r: FileSystem)
        ensures
            r@.mounts.len() == 5,
            forall|i: int| 0 <= i < 5 ==> #[trigger] r@.mounts[i] == (MountView { dev: DevId(-1i16), spb: None, inode: None }),
            !r@.updlock,
    {
        let m = Mount::new();
        FileSystem { m_mount: [m; 5], updlock: false }
    }

    /// The super block of slot `i`.
    pub(crate) fn sb_at(&self, i: usize) -> (sb: SuperBlock)
        requires
            i < 5,
            self@.mounts[i as int].spb is Some,
        ensures
            sb@ == self@.sb(i as int),
    {
        proof { self.lemma_view(i as int); }
        let m = self.m_mount[i];
        match m.m_spb {
            Some(sb) => sb,
            None => {
                proof { assert(false); }
                SuperBlock::new()
            },
        }
    }

    /// Replaces the super block of slot `i`.
    fn put_sb(&mut self, i: usize, sb: SuperBlock)
        requires
            i < 5,
        ensures
            final(self)@ == old(self)@.with_sb(i as int, sb@),
    {
        proof { old(self).lemma_view(i as int); }
        let m = self.m_mount[i];
        self.m_mount[i] = Mount { m_dev: m.m_dev, m_spb: Some(sb), m_inode: m.m_inode };
        proof {
            assert(self@.mounts =~= old(self)@.with_sb(i as int, sb@).mounts);
        }
    }

    /// Finds the mount slot of device `dev`: the first slot with that device
    /// and a super block. Cache counts beyond the cache size are reset to
    /// zero in the super block found.
    pub fn get_fs(&mut self, dev: DevId) -> (r: Result<usize, FileSystemError>)
        ensures
            final(self)@ == old(self)@.after_lookup(dev),
            r == match old(self)@.lookup(dev) {
                Some(i) => Ok(i as usize),
                None => Err(FileSystemError::NoSuchFileSystem),
            },
            r matches Ok(i) ==> i < 5 && final(self)@.mounts[i as int].spb is Some
                && final(self)@.sb(i as int) == normalized(old(self)@.sb(i as int))
                && old(self)@.mounts[i as int].spb is Some,
            final(self)@.mounts.len() == old(self)@.mounts.len(),
            old(self)@.mounts.len() == 5,
    {
        proof { lemma_first_from(old(self)@.mounts, dev, 0); old(self).lemma_view(0); }
        let mut i: usize = 0;
        while i < NMOUNT
            invariant
                i <= 5,
                *self == *old(self),
                first_from(self@.mounts, dev, 0) == first_from(self@.mounts, dev, i as int),
            decreases 5 - i,
        {
            proof { self.lemma_view(i as int); }
            let m = self.m_mount[i];
            if m.m_dev == dev && m.m_spb.is_some() {
                let mut sb = self.sb_at(i);
                if sb.s_nfree > 100 || sb.s_ninode > 100 {
                    sb.s_nfree = 0;
                    sb.s_ninode = 0;
                }
                assert(sb@ == normalized(old(self)@.sb(i as int)));
                self.put_sb(i, sb);
                return Ok(i);
            }
            i = i + 1;
        }
        proof { self.lemma_view(0); }
        Err(FileSystemError::NoSuchFileSystem)
    }

    /// Whether `blkno` is outside the device's data area. Every block is
    /// accepted.
    pub fn bad_block(&self, spb: &SuperBlock, dev: DevId, blkno: i32) -> (r: bool)
        ensures
            !r,
    {
        false
    }

    /// Takes a block from the free-block cache of `dev`. The block taken is
    /// not handed out: the buffer to clear it into cannot be had, so every
    /// call fails, with the error and the change of the super block that
    /// `alloc_outcome` states.
    pub fn alloc_block(&mut self, dev: DevId) -> (r: Result<crate::dev::buffer::Buf, FileSystemError>)
        ensures
            final(self)@ == alloc_outcome(old(self)@, dev).0,
            r == Err::<crate::dev::buffer::Buf, FileSystemError>(alloc_outcome(old(self)@, dev).1),
    {
        proof { lemma_first_from(old(self)@.mounts, dev, 0); }
        let i = match self.get_fs(dev) {
            Ok(i) => i,
            Err(e) => return Err(e),
        };
        assert(old(self)@.lookup(dev) == Some(i as int));
        let mut sb = self.sb_at(i);
        if sb.is_flock() {
            // A refill is in progress; a sleeping wait would go here.
        }
        if sb.s_nfree <= 0 {
            return Err(FileSystemError::NoSpace);
        }
        sb.s_nfree = sb.s_nfree - 1;
        let blkno = sb.s_free[sb.s_nfree as usize];
        if blkno == 0 {
            sb.s_nfree = 0;
            self.put_sb(i, sb);
            return Err(FileSystemError::NoSpace);
        }
        if self.bad_block(&sb, dev, blkno) {
            self.put_sb(i, sb);
            return Err(FileSystemError::BadBlock);
        }
        if sb.s_nfree <= 0 {
            sb.s_flag = sb.s_flag | S_FLOCK;
            // The next group of free block numbers is read from block
            // `blkno` here.
            sb.s_flag = sb.s_flag & !S_FLOCK;
        }
        sb.s_flag = sb.s_flag | S_FMOD;
        self.put_sb(i, sb);
        assert(self@ =~= alloc_outcome(old(self)@, dev).0);
        Err(FileSystemError::BufferUnavailable)
    }

    /// Pushes block `blkno` onto the free-block cache of `dev`.
    pub fn free(&mut self, dev: DevId, blkno: i32) -> (r: Result<(), FileSystemError>)
        ensures
            final(self)@ == free_outcome(old(self)@, dev, blkno).0,
            r == free_outcome(old(self)@, dev, blkno).1,
    {
        proof { lemma_first_from(old(self)@.mounts, dev, 0); }
        let i = match self.get_fs(dev) {
            Ok(i) => i,
            Err(e) => return Err(e),
        };
        assert(old(self)@.lookup(dev) == Some(i as int));
        let mut sb = self.sb_at(i);
        sb.s_flag = sb.s_flag | S_FMOD;
        if sb.is_flock() {
            // A refill is in progress; a sleeping wait would go here.
        }
        if self.bad_block(&sb, dev, blkno) {
            self.put_sb(i, sb);
            return Err(FileSystemError::BadBlock);
        }
        if sb.s_nfree <= 0 {
            sb.s_nfree = 1;
            sb.s_free[0] = 0;
        }
        if sb.s_nfree >= 100 {
            sb.s_flag = sb.s_flag | S_FLOCK;
            // The full cache is written into block `blkno` here.
            sb.s_nfree = 0;
            sb.s_flag = sb.s_flag & !S_FLOCK;
        }
        let idx = sb.s_nfree as usize;
        sb.s_free[idx] = blkno;
        sb.s_nfree = sb.s_nfree + 1;
        sb.s_flag = sb.s_flag | S_FMOD;
        assert(sb@ =~= free_sb(normalized(old(self)@.sb(i as int)), blkno));
        self.put_sb(i, sb);
        assert(self@ =~= free_outcome(old(self)@, dev, blkno).0);
        Ok(())
    }

    /// Offers inode number `number` to the free-inode cache of `dev`; a
    /// locked or full cache keeps it unchanged.
    pub fn i_free(&mut self, dev: DevId, number: i32) -> (r: Result<(), FileSystemError>)
        requires
            i_free_ok(old(self)@, dev),
        ensures
            final(self)@ == i_free_outcome(old(self)@, dev, number).0,
            r == i_free_outcome(old(self)@, dev, number).1,
    {
        proof { lemma_first_from(old(self)@.mounts, dev, 0); }
        let i = match self.get_fs(dev) {
            Ok(i) => i,
            Err(e) => return Err(e),
        };
        assert(old(self)@.lookup(dev) == Some(i as int));
        let mut sb = self.sb_at(i);
        if sb.is_ilock() || sb.s_ninode >= 100 {
            return Ok(());
        }
        let idx = sb.s_ninode as usize;
        sb.s_inode[idx] = number;
        sb.s_ninode = sb.s_ninode + 1;
        sb.s_flag = sb.s_flag | S_FMOD;
        assert(sb@ =~= i_free_sb(normalized(old(self)@.sb(i as int)), number));
        self.put_sb(i, sb);
        assert(self@ =~= i_free_outcome(old(self)@, dev, number).0);
        Ok(())
    }

    /// Installs the super block read from disk at `time` as the root file
    /// system in slot 0.
    fn install_loaded_super_block(&mut self, loaded: &CppSuperBlock, time: i32)
        ensures
            final(self)@ == (FsView {
                mounts: old(self)@.mounts.update(0, MountView {
                    dev: DevId(ROOTDEV),
                    spb: Some(from_cpp_view(*loaded, time)),
                    inode: None,
                }),
                ..old(self)@
            }),
    {
        proof { old(self).lemma_view(0); }
        let sb = SuperBlock::from_cpp(loaded, time);
        self.m_mount[0] = Mount { m_dev: DevId(ROOTDEV), m_spb: Some(sb), m_inode: None };
        proof {
            assert(self@.mounts =~= old(self)@.mounts.update(0, MountView {
                dev: DevId(ROOTDEV),
                spb: Some(from_cpp_view(*loaded, time)),
                inode: None,
            }));
        }
    }

    /// Mounts the root file system from `image`, the two super-block sectors
    /// read from the root disk at `time`; `None` when they could not be
    /// read.
    pub fn load_super_block(&mut self, image: Option<&[u8]>, time: i32) -> (r: Result<(), FileSystemError>)
        requires
            image matches Some(b) ==> b@.len() >= SUPER_BLOCK_BYTES,
        ensures
            image is None ==> r == Err::<(), FileSystemError>(FileSystemError::LoadSuperBlockFailed)
                && final(self)@ == old(self)@,
            image matches Some(b) ==> r is Ok && final(self)@ == (FsView {
                mounts: old(self)@.mounts.update(0, MountView {
                    dev: DevId(ROOTDEV),
                    spb: Some(image_sb(b@, time)),
                    inode: None,
                }),
                ..old(self)@
            }),
    {
        match image {
            None => Err(FileSystemError::LoadSuperBlockFailed),
            Some(b) => {
                let loaded = CppSuperBlock::from_bytes(b);
                assert(from_cpp_view(loaded, time) =~= image_sb(b@, time));
                self.install_loaded_super_block(&loaded, time);
                Ok(())
            },
        }
    }

    /// Mounts the root file system for the C++ side from `image` (see
    /// `load_super_block`), read at `time`: its copy of the super block has
    /// the lock and read-only words cleared and the time set, and `mount`
    /// names the root device and that copy. `false`, with nothing changed,
    /// when the image could not be read.
    pub fn load_cpp_super_block(&mut self, mount: &mut CppMount, image: Option<&[u8]>, time: i32) -> (r: bool)
        requires
            image matches Some(b) ==> b@.len() >= SUPER_BLOCK_BYTES,
        ensures
            r == image is Some,
            !r ==> final(self)@ == old(self)@ && *final(mount) == *old(mount),
            image matches Some(b) ==> ({
                let c = final(mount).m_spb.unwrap();
                &&& final(mount).m_dev == ROOTDEV
                &&& final(mount).m_inodep == old(mount).m_inodep
                &&& final(mount).m_spb is Some
                &&& cpp_holds_image(c, b@)
                &&& c.s_flock == 0 && c.s_ilock == 0 && c.s_ronly == 0 && c.s_time == time
                &&& final(self)@ == (FsView {
                    mounts: old(self)@.mounts.update(0, MountView {
                        dev: DevId(ROOTDEV),
                        spb: Some(image_sb(b@, time)),
                        inode: None,
                    }),
                    ..old(self)@
                })
            }),
    {
        let b = match image {
            None => return false,
            Some(b) => b,
        };
        let mut loaded = CppSuperBlock::from_bytes(b);
        loaded.s_flock = 0;
        loaded.s_ilock = 0;
        loaded.s_ronly = 0;
        loaded.s_time = time;
        assert(from_cpp_view(loaded, time) =~= image_sb(b@, time));
        self.install_loaded_super_block(&loaded, time);
        mount.m_spb = Some(loaded);
        mount.m_dev = ROOTDEV;
        assert(loaded.s_free@ =~= Seq::new(100, |j: int| word(b@, 3 + j)));
        assert(loaded.s_inode@ =~= Seq::new(100, |j: int| word(b@, 104 + j)));
        true
    }

    /// The first slot whose mounted-on inode (an index into `table`) has
    /// the device and number of `inode`.
    pub fn get_mount(&self, inode: &Inode, table: &InodeTable) -> (r: Option<usize>)
        ensures
            r == match first_mounted_on(self@.mounts, table.m_inode@, *inode, 0) {
                Some(i) => Some(i as usize),
                None => None::<usize>,
            },
    {
        proof { self.lemma_view(0); }
        let mut i: usize = 0;
        while i < NMOUNT
            invariant
                i <= 5,
                self@.mounts.len() == 5,
                first_mounted_on(self@.mounts, table.m_inode@, *inode, 0)
                    == first_mounted_on(self@.mounts, table.m_inode@, *inode, i as int),
            decreases 5 - i,
        {
            proof { self.lemma_view(i as int); }
            let m = self.m_mount[i];
            match m.m_inode {
                Some(j) => {
                    if j < 100 {
                        let mi = table.m_inode[j];
                        if mi.i_dev == inode.i_dev && mi.i_number == inode.i_number {
                            return Some(i);
                        }
                    }
                },
                None => {},
            }
            i = i + 1;
        }
        None
    }

    /// Writes back what changed: each modified, unlocked, writable super
    /// block is marked clean with time 0, then every unlocked, referenced
    /// inode of `table` has its disk update planned at `time`. A write-back
    /// already in progress makes this do nothing.
    pub fn update(&mut self, table: &mut InodeTable, time: i32) -> (r: Vec<UpdateAction>)
        ensures
            old(self)@.updlock ==> final(self)@ == old(self)@ && final(table).m_inode@ == old(table).m_inode@ && r@.len() == 0,
            !old(self)@.updlock ==> ({
                let synced = FsView { mounts: old(self)@.mounts.map_values(|m: MountView| synced_mount(m)), updlock: true };
                let (s, f, acts) = update_table(old(table).m_inode@, synced, time, 100);
                &&& final(table).m_inode@ == s
                &&& final(self)@ == (FsView { updlock: false, ..f })
                &&& r@.len() == acts.len()
                &&& forall|j: int| 0 <= j < acts.len() ==> (#[trigger] r@[j]).wake == acts[j].0
                    && r@[j].write == acts[j].1 && r@[j].slot == acts[j].2
            }),
    {
        if self.updlock {
            return Vec::new();
        }
        self.updlock = true;
        let mut i: usize = 0;
        while i < NMOUNT
            invariant
                i <= 5,
                self.updlock,
                self.m_mount@.len() == 5,
                forall|k: int| 0 <= k < i ==> #[trigger] self.m_mount[k]@ == synced_mount(old(self).m_mount[k]@),
                forall|k: int| i <= k < 5 ==> #[trigger] self.m_mount[k] == old(self).m_mount[k],
            decreases 5 - i,
        {
            let m = self.m_mount[i];
            match m.m_spb {
                None => {},
                Some(sb) => {
                    let sync = sb.is_modified() && !sb.is_ilock() && !sb.is_flock() && !sb.is_readonly();
                    if sync {
                        let mut sb2 = sb;
                        sb2.s_flag = sb2.s_flag & !S_FMOD;
                        sb2.s_time = 0;
                        self.m_mount[i] = Mount { m_dev: m.m_dev, m_spb: Some(sb2), m_inode: m.m_inode };
                        assert(self.m_mount[i as int]@ =~= synced_mount(old(self).m_mount[i as int]@));
                    }
                },
            }
            i = i + 1;
        }
        proof {
            assert(self@ =~= FsView { mounts: old(self)@.mounts.map_values(|m: MountView| synced_mount(m)), updlock: true });
        }
        let r = table.update_inode_table(self, time);
        self.updlock = false;
        proof {
            let synced = FsView { mounts: old(self)@.mounts.map_values(|m: MountView| synced_mount(m)), updlock: true };
            lemma_update_table_keeps_lock(old(table).m_inode@, synced, time, 100);
        }
        r
    }

    /// Settles a candidate from `i_alloc`: an inode with no mode is free and
    /// is claimed (cleaned, and the super block of `dev` marked modified),
    /// answering `true`; otherwise nothing changes and the caller puts the
    /// inode back and asks `i_alloc` for the next candidate.
    pub fn i_alloc_claim(&mut self, dev: DevId, inode: &mut Inode) -> (r: bool)
        ensures
            r == (old(inode).i_mode == 0),
            r ==> *final(inode) == clean_inode(*old(inode)) && final(self)@ == claim_outcome(old(self)@, dev),
            !r ==> *final(inode) == *old(inode) && final(self)@ == old(self)@,
    {
        if inode.i_mode != 0 {
            return false;
        }
        inode.clean();
        proof { lemma_first_from(old(self)@.mounts, dev, 0); }
        match self.get_fs(dev) {
            Ok(i) => {
                assert(old(self)@.lookup(dev) == Some(i as int));
                let mut sb = self.sb_at(i);
                sb.s_flag = sb.s_flag | S_FMOD;
                self.put_sb(i, sb);
                assert(self@ =~= claim_outcome(old(self)@, dev));
            },
            Err(_) => {},
        }
        true
    }

    /// Takes the next candidate inode number from the free-inode cache of
    /// `dev`. The caller fetches that inode and hands it to `i_alloc_claim`,
    /// repeating until a free one is claimed or this fails.
    pub fn i_alloc(&mut self, dev: DevId) -> (r: Result<i32, FileSystemError>)
        ensures
            final(self)@ == i_alloc_outcome(old(self)@, dev).0,
            r == i_alloc_outcome(old(self)@, dev).1,
    {
        proof { lemma_first_from(old(self)@.mounts, dev, 0); }
        let i = match self.get_fs(dev) {
            Ok(i) => i,
            Err(e) => return Err(e),
        };
        assert(old(self)@.lookup(dev) == Some(i as int));
        let mut sb = self.sb_at(i);
        if sb.s_ninode <= 0 {
            sb.s_flag = sb.s_flag | S_ILOCK;
            // The disk inode area is scanned for free inodes here.
            sb.s_flag = sb.s_flag & !S_ILOCK;
            self.put_sb(i, sb);
            assert(self@ =~= i_alloc_outcome(old(self)@, dev).0);
            return Err(FileSystemError::NoSpace);
        }
        sb.s_ninode = sb.s_ninode - 1;
        let ino = sb.s_inode[sb.s_ninode as usize];
        self.put_sb(i, sb);
        assert(self@ =~= i_alloc_outcome(old(self)@, dev).0);
        Ok(ino)
    }
}

} // verus!
