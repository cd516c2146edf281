//! The in-memory inode table and the open-file table.
use vstd::prelude::*;
use crate::constants::PosixError;
use crate::dev::buffer::{Buffer, DevId};
use crate::fs::file_system::{
    claim_outcome, flag_set, i_free_ok, i_free_outcome, FileSystem, FsView, INODE_NUMBER_PER_SECTOR,
    INODE_ZONE_START_SECTOR,
};
use crate::fs::file::{first_free_fd, lemma_first_free_fd, File, OpenFiles, FPIPE};
use crate::fs::inode::{
    clean_inode, free_blocks, i_update_outcome, lemma_free_blocks_keeps_i_free_ok, loaded_from, record_offset,
    trunc_inode, trunc_skips, unlocked, unused_inode, wakes, DiskInode, Inode, InodeWrite, DISK_INODE_SIZE, ILOCK,
    IMOUNT, IREAD, IWANT, IWRITE, MODE_ALL,
};

verus! {

/// Slots in the inode table.
pub const NINODE: usize = 100;

/// The in-memory inodes. Other objects name an inode by its index here.
pub struct InodeTable {
    pub m_inode: [Inode; 100],
}

/// Slot `k` holds disk inode `ino` of `dev` and is referenced.
pub open spec fn holds(i: Inode, dev: DevId, ino: i32) -> bool {
    i.i_dev == dev && i.i_number == ino && i.i_count > 0
}

/// The first slot at or after `k` that holds disk inode `ino` of `dev`.
pub open spec fn first_holding(s: Seq<Inode>, dev: DevId, ino: i32, k: int) -> Option<int>
    decreases s.len() - k,
{
    if k < 0 || k >= s.len() {
        None
    } else if holds(s[k], dev, ino) {
        Some(k)
    } else {
        first_holding(s, dev, ino, k + 1)
    }
}

/// The first unreferenced slot at or after `k`.
pub open spec fn first_unused(s: Seq<Inode>, k: int) -> Option<int>
    decreases s.len() - k,
{
    if k < 0 || k >= s.len() {
        None
    } else if s[k].i_count == 0 {
        Some(k)
    } else {
        first_unused(s, k + 1)
    }
}

pub proof fn lemma_first_holding(s: Seq<Inode>, dev: DevId, ino: i32, k: int)
    requires
        0 <= k,
    ensures
        match first_holding(s, dev, ino, k) {
            Some(j) => k <= j < s.len() && holds(s[j], dev, ino)
                && forall|m: int| k <= m < j ==> !#[trigger] holds(s[m], dev, ino),
            None => forall|m: int| k <= m < s.len() ==> !#[trigger] holds(s[m], dev, ino),
        },
    decreases s.len() - k,
{
    if k < s.len() && !holds(s[k], dev, ino) {
        lemma_first_holding(s, dev, ino, k + 1);
    }
}

pub proof fn lemma_first_unused(s: Seq<Inode>, k: int)
    requires
        0 <= k,
    ensures
        match first_unused(s, k) {
            Some(j) => k <= j < s.len() && s[j].i_count == 0
                && forall|m: int| k <= m < j ==> #[trigger] s[m].i_count != 0,
            None => forall|m: int| k <= m < s.len() ==> #[trigger] s[m].i_count != 0,
        },
    decreases s.len() - k,
{
    if k < s.len() && s[k].i_count != 0 {
        lemma_first_unused(s, k + 1);
    }
}

/// The slot taken for disk inode `ino` of `dev`: locked, one reference,
/// no block read yet.
pub open spec fn claimed(i: Inode, dev: DevId, ino: i32) -> Inode {
    Inode { i_dev: dev, i_number: ino, i_flag: ILOCK, i_count: 1, i_lastr: -1i32, ..i }
}

/// The sector that holds disk inode `ino`.
pub open spec fn inode_sector(ino: i32) -> u32 {
    (INODE_ZONE_START_SECTOR + (ino as u32) / (INODE_NUMBER_PER_SECTOR as u32)) as u32
}

/// One step of getting an inode.
#[derive(Debug, Clone, Copy, PartialEq, Eq, Structural)]
pub enum IGet {
    /// The inode in this slot is now locked and referenced once more.
    Ready(usize),
    /// The inode in this slot is locked by someone else; it is marked as
    /// waited for. The caller sleeps on it and asks again.
    Busy(usize),
    /// The inode is not in memory; `slot` was taken for it. The caller reads
    /// `sector` and completes the load with `load_inode`.
    Load { slot: usize, sector: u32 },
}

/// What `i_get` hands over once its steps are done: disk inode `ino` of
/// `dev`, locked and referenced.
pub open spec fn handed_over(i: Inode, dev: DevId, ino: i32) -> bool {
    i.i_dev == dev && i.i_number == ino && flag_set(i.i_flag, ILOCK) && i.i_count >= 1
}

proof fn lemma_handed_over(o: Inode, dev: DevId, ino: i32)
    ensures
        handed_over(claimed(o, dev, ino), dev, ino),
        holds(o, dev, ino) && o.i_count < i32::MAX ==> handed_over(
            Inode { i_count: (o.i_count + 1) as i32, i_flag: o.i_flag | ILOCK, ..o }, dev, ino),
{
    let f = o.i_flag;
    assert((f | ILOCK) & ILOCK == ILOCK) by (bit_vector);
    assert(ILOCK & ILOCK == ILOCK) by (bit_vector);
}

/// Getting disk inode `ino` of `dev` does not reach a mounted-on inode (not
/// handled yet) or overflow a reference count.
pub open spec fn i_get_ok(s: Seq<Inode>, dev: DevId, ino: i32) -> bool {
    match first_holding(s, dev, ino, 0) {
        Some(k) => !flag_set(s[k].i_flag, ILOCK) ==> !flag_set(s[k].i_flag, IMOUNT) && s[k].i_count < i32::MAX,
        None => true,
    }
}

/// What putting back the inode of slot `k` leaves and hands back.
pub struct PutResult {
    /// The caller wakes the sleepers on the inode.
    pub wake: bool,
    /// The disk inode write to perform.
    pub write: Option<InodeWrite>,
}

/// The inode released by its last reference, before it is written back:
/// locked, and for a file with no links, truncated with no mode.
pub open spec fn released(o: Inode) -> Inode {
    let o1 = Inode { i_count: 0, i_flag: o.i_flag | ILOCK, ..o };
    if o.i_nlink <= 0 {
        let t = if trunc_skips(o1.i_mode) { o1 } else { trunc_inode(o1) };
        Inode { i_mode: 0, ..t }
    } else {
        o1
    }
}

/// The file system after the last reference to `o` is dropped and its
/// blocks and disk inode are given back (before the write-back).
pub open spec fn released_fs(o: Inode, fs: FsView) -> FsView {
    if o.i_nlink <= 0 {
        let fs_t = if trunc_skips(o.i_mode) {
            fs
        } else {
            free_blocks(fs, o.i_dev, o.i_addr@, 10)
        };
        i_free_outcome(fs_t, o.i_dev, o.i_number).0
    } else {
        fs
    }
}

/// One step of the periodic write-back of the inode table: an unlocked,
/// referenced inode is locked, its disk update planned, and unlocked.
pub struct UpdateAction {
    pub slot: usize,
    pub wake: bool,
    pub write: Option<InodeWrite>,
}

/// Whether the write-back visits inode `i`.
pub open spec fn update_visits(i: Inode) -> bool {
    !flag_set(i.i_flag, ILOCK) && i.i_count != 0
}

/// The inodes, file system and actions after the write-back has visited
/// slots `0..k`.
pub open spec fn update_table(s: Seq<Inode>, fs: FsView, time: i32, k: int) -> (Seq<Inode>, FsView, Seq<(bool, Option<InodeWrite>, int)>)
    decreases k,
{
    if k <= 0 {
        (s, fs, Seq::empty())
    } else {
        let (s1, fs1, acts) = update_table(s, fs, time, k - 1);
        let i = s1[k - 1];
        if !update_visits(i) {
            (s1, fs1, acts)
        } else {
            let locked = Inode { i_flag: i.i_flag | ILOCK, ..i };
            let (fs2, w) = i_update_outcome(locked, fs1, time);
            (s1.update(k - 1, Inode { i_flag: unlocked(locked.i_flag), ..locked }), fs2,
                acts.push((wakes(locked.i_flag), w, k - 1)))
        }
    }
}

/// The write-back does not touch the write-back lock of the table.
pub proof fn lemma_update_table_keeps_lock(s: Seq<Inode>, fs: FsView, time: i32, k: int)
    ensures
        update_table(s, fs, time, k).1.updlock == fs.updlock,
    decreases k,
{
    if k > 0 {
        lemma_update_table_keeps_lock(s, fs, time, k - 1);
    }
}

impl InodeTable {
    /// A table of unused inodes.
    pub fn new() -> (r: InodeTable)
        ensures
            forall|k: int| 0 <= k < 100 ==> unused_inode(#[trigger] r.m_inode[k]),
    {
        let i = Inode::new();
        InodeTable { m_inode: [i; 100] }
    }

    /// Byte offset of disk inode `ino` in its sector.
    fn ino_blkoff(ino: i32) -> (r: usize)
        ensures
            r == record_offset((ino as usize) as int),
    {
        ((ino as usize) % INODE_NUMBER_PER_SECTOR) * DISK_INODE_SIZE
    }

    /// Loads mode, links, owner, size and addresses of disk inode `ino`
    /// from `buf`, the sector that holds it.
    fn icopy(inode: &mut Inode, buf: Buffer, ino: i32)
        requires
            0 <= buf.buf().b_wcount <= buf.buf().b_addr@.len(),
            record_offset((ino as usize) as int) + DISK_INODE_SIZE <= buf.buf().b_wcount,
        ensures
            loaded_from(*old(inode), *final(inode), buf.buf().b_addr@, record_offset((ino as usize) as int)),
    {
        let off = Self::ino_blkoff(ino);
        let data = buf.as_bytes();
        let d = DiskInode::from_bytes(data, off);
        inode.i_mode = d.d_mode;
        inode.i_nlink = d.d_nlink;
        inode.i_uid = d.d_uid;
        inode.i_gid = d.d_gid;
        inode.i_size = d.d_size;
        inode.i_addr = d.d_addr;
    }

    /// The slot holding disk inode `ino` of `dev`, if it is in memory and
    /// referenced: the first such slot.
    pub fn get(&self, dev: DevId, ino: i32) -> (r: Option<usize>)
        ensures
            r == match first_holding(self.m_inode@, dev, ino, 0) {
                Some(k) => Some(k as usize),
                None => None::<usize>,
            },
    {
        proof { lemma_first_holding(self.m_inode@, dev, ino, 0); }
        let mut k: usize = 0;
        while k < NINODE
            invariant
                k <= 100,
                first_holding(self.m_inode@, dev, ino, 0) == first_holding(self.m_inode@, dev, ino, k as int),
            decreases 100 - k,
        {
            let i = self.m_inode[k];
            if i.i_dev != dev || i.i_number != ino || i.i_count <= 0 {
                k = k + 1;
                continue;
            }
            return Some(k);
        }
        None
    }

    /// Takes the first unreferenced slot for disk inode `ino` of `dev`:
    /// locked, one reference.
    pub fn alloc_free(&mut self, dev: DevId, ino: i32) -> (r: Option<usize>)
        ensures
            r == match first_unused(old(self).m_inode@, 0) {
                Some(k) => Some(k as usize),
                None => None::<usize>,
            },
            match first_unused(old(self).m_inode@, 0) {
                Some(k) => final(self).m_inode@ == old(self).m_inode@.update(k, claimed(old(self).m_inode[k], dev, ino)),
                None => final(self).m_inode@ == old(self).m_inode@,
            },
    {
        proof { lemma_first_unused(old(self).m_inode@, 0); }
        let mut k: usize = 0;
        while k < NINODE
            invariant
                k <= 100,
                *self == *old(self),
                first_unused(self.m_inode@, 0) == first_unused(self.m_inode@, k as int),
            decreases 100 - k,
        {
            let mut i = self.m_inode[k];
            if i.i_count != 0 {
                k = k + 1;
                continue;
            }
            i.i_dev = dev;
            i.i_number = ino;
            i.i_flag = ILOCK;
            i.i_count = 1;
            i.i_lastr = -1;
            self.m_inode[k] = i;
            return Some(k);
        }
        None
    }

    /// One step of getting disk inode `ino` of `dev` locked and referenced
    /// (see `IGet`). No free slot: `ENFILE`.
    pub fn i_get(&mut self, dev: DevId, ino: i32) -> (r: Result<IGet, PosixError>)
        requires
            i_get_ok(old(self).m_inode@, dev, ino),
        ensures
            match first_holding(old(self).m_inode@, dev, ino, 0) {
                Some(k) => {
                    let o = old(self).m_inode[k];
                    if flag_set(o.i_flag, ILOCK) {
                        r == Ok::<IGet, PosixError>(IGet::Busy(k as usize))
                            && final(self).m_inode@ == old(self).m_inode@.update(k, Inode { i_flag: o.i_flag | IWANT, ..o })
                    } else {
                        r == Ok::<IGet, PosixError>(IGet::Ready(k as usize))
                            && final(self).m_inode@ == old(self).m_inode@.update(k,
                                Inode { i_count: (o.i_count + 1) as i32, i_flag: o.i_flag | ILOCK, ..o })
                    }
                },
                None => match first_unused(old(self).m_inode@, 0) {
                    None => r == Err::<IGet, PosixError>(PosixError::ENFILE) && final(self).m_inode@ == old(self).m_inode@,
                    Some(k) => r == Ok::<IGet, PosixError>(IGet::Load { slot: k as usize, sector: inode_sector(ino) })
                        && final(self).m_inode@ == old(self).m_inode@.update(k, claimed(old(self).m_inode[k], dev, ino)),
                },
            },
            r matches Ok(IGet::Ready(k)) ==> k < 100 && handed_over(final(self).m_inode[k as int], dev, ino),
            r matches Ok(IGet::Load { slot, sector }) ==> slot < 100
                && handed_over(final(self).m_inode[slot as int], dev, ino),
    {
        proof { lemma_first_holding(old(self).m_inode@, dev, ino, 0); }
        match self.get(dev, ino) {
            None => {
                let slot = match self.alloc_free(dev, ino) {
                    Some(k) => k,
                    None => return Err(PosixError::ENFILE),
                };
                proof {
                    lemma_first_unused(old(self).m_inode@, 0);
                    lemma_handed_over(old(self).m_inode[slot as int], dev, ino);
                }
                let sector = INODE_ZONE_START_SECTOR as u32 + ino as u32 / INODE_NUMBER_PER_SECTOR as u32;
                Ok(IGet::Load { slot, sector })
            },
            Some(k) => {
                let mut i = self.m_inode[k];
                if i.i_flag & ILOCK == ILOCK {
                    i.i_flag = i.i_flag | IWANT;
                    self.m_inode[k] = i;
                    return Ok(IGet::Busy(k));
                }
                if i.i_flag & IMOUNT == IMOUNT {
                    // Crossing into a mounted file system is not handled.
                    proof { assert(false); }
                }
                i.i_count = i.i_count + 1;
                i.i_flag = i.i_flag | ILOCK;
                self.m_inode[k] = i;
                proof { lemma_handed_over(old(self).m_inode[k as int], dev, ino); }
                Ok(IGet::Ready(k))
            },
        }
    }

    /// Settles a candidate of an inode allocation held in slot `k` (see
    /// `FileSystem::i_alloc_claim`): a free inode is cleaned in place and the
    /// super block of `dev` marked modified, answering `true`; otherwise
    /// nothing changes.
    pub fn claim_free(&mut self, fs: &mut FileSystem, dev: DevId, k: usize) -> (r: bool)
        requires
            k < 100,
        ensures
            r == (old(self).m_inode[k as int].i_mode == 0),
            r ==> final(self).m_inode@ == old(self).m_inode@.update(k as int, clean_inode(old(self).m_inode[k as int]))
                && final(fs)@ == claim_outcome(old(fs)@, dev),
            !r ==> final(self).m_inode@ == old(self).m_inode@ && final(fs)@ == old(fs)@,
    {
        let mut i = self.m_inode[k];
        let r = fs.i_alloc_claim(dev, &mut i);
        if r {
            self.m_inode[k] = i;
        }
        r
    }

    /// Completes a `Load` step of `i_get`: fills slot `slot` from `buf`, the
    /// sector that holds disk inode `ino`.
    pub fn load_inode(&mut self, slot: usize, buf: Buffer, ino: i32)
        requires
            slot < 100,
            0 <= buf.buf().b_wcount <= buf.buf().b_addr@.len(),
            record_offset((ino as usize) as int) + DISK_INODE_SIZE <= buf.buf().b_wcount,
        ensures
            final(self).m_inode@ == old(self).m_inode@.update(slot as int, final(self).m_inode[slot as int]),
            loaded_from(old(self).m_inode[slot as int], final(self).m_inode[slot as int], buf.buf().b_addr@,
                record_offset((ino as usize) as int)),
    {
        let mut i = self.m_inode[slot];
        Self::icopy(&mut i, buf, ino);
        self.m_inode[slot] = i;
    }

    /// Drops a reference to the inode of slot `k`. The last reference
    /// unlocks it for good: a file with no links left is truncated, loses
    /// its mode and its disk inode is freed; the disk inode update is
    /// planned; the slot forgets its number. Other references just unlock it.
    pub fn i_put(&mut self, fs: &mut FileSystem, k: usize, time: i32) -> (r: PutResult)
        requires
            k < 100,
            old(self).m_inode[k as int].i_count > i32::MIN,
            old(self).m_inode[k as int].i_count - 1 == 0 && old(self).m_inode[k as int].i_nlink <= 0
                ==> i_free_ok(old(fs)@, old(self).m_inode[k as int].i_dev),
        ensures
            ({
                let o = old(self).m_inode[k as int];
                if o.i_count - 1 != 0 {
                    &&& final(self).m_inode@ == old(self).m_inode@.update(k as int,
                            Inode { i_count: (o.i_count - 1) as i32, i_flag: unlocked(o.i_flag), ..o })
                    &&& final(fs)@ == old(fs)@
                    &&& r.wake == wakes(o.i_flag)
                    &&& r.write is None
                } else {
                    let rel = released(o);
                    let (fs3, w) = i_update_outcome(rel, released_fs(o, old(fs)@), time);
                    &&& final(self).m_inode@ == old(self).m_inode@.update(k as int,
                            Inode { i_flag: 0, i_number: -1i32, ..rel })
                    &&& final(fs)@ == fs3
                    &&& r.wake == wakes(rel.i_flag)
                    &&& r.write == w
                }
            }),
    {
        let mut inode = self.m_inode[k];
        let ghost o = inode;
        inode.i_count = inode.i_count - 1;
        if inode.i_count != 0 {
            let wake = inode.prele();
            self.m_inode[k] = inode;
            return PutResult { wake, write: None };
        }
        inode.i_flag = inode.i_flag | ILOCK;
        if inode.i_nlink <= 0 {
            proof {
                lemma_free_blocks_keeps_i_free_ok(fs@, inode.i_dev, inode.i_addr@, 10, inode.i_dev);
            }
            inode.i_trunc(fs);
            inode.i_mode = 0;
            let _ = fs.i_free(inode.i_dev, inode.i_number);
        }
        assert(inode == released(o));
        let write = inode.i_update(fs, time);
        let wake = inode.prele();
        inode.i_flag = 0;
        inode.i_number = -1;
        self.m_inode[k] = inode;
        PutResult { wake, write }
    }

    /// Plans the write-back of every unlocked, referenced inode at `time`,
    /// in slot order.
    pub fn update_inode_table(&mut self, fs: &mut FileSystem, time: i32) -> (r: Vec<UpdateAction>)
        ensures
            ({
                let (s, f, acts) = update_table(old(self).m_inode@, old(fs)@, time, 100);
                &&& final(self).m_inode@ == s
                &&& final(fs)@ == f
                &&& r@.len() == acts.len()
                &&& forall|j: int| 0 <= j < acts.len() ==> (#[trigger] r@[j]).wake == acts[j].0
                    && r@[j].write == acts[j].1 && r@[j].slot == acts[j].2
            }),
    {
        let mut r: Vec<UpdateAction> = Vec::new();
        let mut k: usize = 0;
        while k < NINODE
            invariant
                k <= 100,
                ({
                    let (s, f, acts) = update_table(old(self).m_inode@, old(fs)@, time, k as int);
                    &&& self.m_inode@ == s
                    &&& fs@ == f
                    &&& r@.len() == acts.len()
                    &&& forall|j: int| 0 <= j < acts.len() ==> (#[trigger] r@[j]).wake == acts[j].0
                        && r@[j].write == acts[j].1 && r@[j].slot == acts[j].2
                }),
                forall|j: int| k <= j < 100 ==> #[trigger] self.m_inode@[j] == old(self).m_inode@[j],
            decreases 100 - k,
        {
            let mut inode = self.m_inode[k];
            if inode.i_flag & ILOCK == ILOCK || inode.i_count == 0 {
                k = k + 1;
                continue;
            }
            inode.i_flag = inode.i_flag | ILOCK;
            let write = inode.i_update(fs, time);
            let wake = inode.prele();
            self.m_inode[k] = inode;
            r.push(UpdateAction { slot: k, wake, write });
            k = k + 1;
        }
        r
    }
}

/// Entries in the open-file table.
pub const NFILE: usize = 100;

/// The system open-file table. Files are named by their index here.
pub struct OpenFileTable {
    pub m_file: [File; 100],
}

/// The first unused entry at or after `k`.
pub open spec fn first_unused_file(s: Seq<File>, k: int) -> Option<int>
    decreases s.len() - k,
{
    if k < 0 || k >= s.len() {
        None
    } else if s[k].f_count == 0 {
        Some(k)
    } else {
        first_unused_file(s, k + 1)
    }
}

pub proof fn lemma_first_unused_file(s: Seq<File>, k: int)
    requires
        0 <= k,
    ensures
        match first_unused_file(s, k) {
            Some(j) => k <= j < s.len() && s[j].f_count == 0,
            None => forall|m: int| k <= m < s.len() ==> #[trigger] s[m].f_count != 0,
        },
    decreases s.len() - k,
{
    if k < s.len() && s[k].f_count != 0 {
        lemma_first_unused_file(s, k + 1);
    }
}

/// A freshly allocated open file: one reference, no flags, no inode, at
/// position zero.
pub open spec fn fresh_file(f: File) -> File {
    File { f_count: 1, f_offset: 0, f_flag: 0, f_inode: None, ..f }
}

/// What closing an open file asks of the caller.
pub struct CloseResult {
    /// A pipe was closed: wake the readers and writers of this inode.
    pub pipe_inode: Option<usize>,
    /// The last reference went away: release the file's inode.
    pub release: bool,
}

/// Closing entry `k` does not take the inode of a pipe that has none, and
/// does not overflow its count.
pub open spec fn close_ok(files: Seq<File>, k: int) -> bool {
    &&& files[k].f_count > i32::MIN
    &&& flag_set(files[k].f_flag, FPIPE) ==> (files[k].f_inode matches Some(i) && i < NINODE)
}

impl OpenFileTable {
    /// A table of unused entries.
    pub fn new() -> (r: OpenFileTable)
        ensures
            forall|k: int| 0 <= k < 100 ==> (#[trigger] r.m_file[k]).f_count == 0 && r.m_file[k].f_flag == 0
                && r.m_file[k].f_inode is None && r.m_file[k].f_offset == 0,
    {
        let f = File::new();
        OpenFileTable { m_file: [f; 100] }
    }

    /// The first unused entry.
    fn find_free(&self) -> (r: Option<usize>)
        ensures
            r matches Some(k) ==> k < 100,
            r == match first_unused_file(self.m_file@, 0) {
                Some(k) => Some(k as usize),
                None => None::<usize>,
            },
    {
        proof { lemma_first_unused_file(self.m_file@, 0); }
        let mut k: usize = 0;
        while k < NFILE
            invariant
                k <= 100,
                first_unused_file(self.m_file@, 0) == first_unused_file(self.m_file@, k as int),
            decreases 100 - k,
        {
            if self.m_file[k].f_count != 0 {
                k = k + 1;
                continue;
            }
            return Some(k);
        }
        None
    }

    /// Allocates an open file for the process whose descriptor table is
    /// `open_files`: takes its lowest free descriptor (`EMFILE` when there is
    /// none) and the first unused entry here (`ENFILE` when there is none),
    /// resets the entry, and records it in the descriptor. Answers the
    /// descriptor and the entry.
    pub fn f_alloc(&mut self, open_files: &mut OpenFiles) -> (r: Result<(usize, usize), PosixError>)
        ensures
            match first_free_fd(old(open_files).ofile@, 0) {
                None => r == Err::<(usize, usize), PosixError>(PosixError::EMFILE)
                    && final(self).m_file@ == old(self).m_file@
                    && final(open_files).ofile@ == old(open_files).ofile@,
                Some(fd) => match first_unused_file(old(self).m_file@, 0) {
                    None => r == Err::<(usize, usize), PosixError>(PosixError::ENFILE)
                        && final(self).m_file@ == old(self).m_file@
                        && final(open_files).ofile@ == old(open_files).ofile@,
                    Some(k) => r == Ok::<(usize, usize), PosixError>((fd as usize, k as usize))
                        && final(self).m_file@ == old(self).m_file@.update(k, fresh_file(old(self).m_file[k]))
                        && final(open_files).ofile@ == old(open_files).ofile@.update(fd, Some(k as usize)),
                },
            },
    {
        proof { lemma_first_free_fd(old(open_files).ofile@, 0); }
        let fd = match open_files.alloc_free_slot() {
            Ok(d) => d,
            Err(e) => return Err(e),
        };
        proof { lemma_first_unused_file(old(self).m_file@, 0); }
        let k = match self.find_free() {
            Some(k) => k,
            None => return Err(PosixError::ENFILE),
        };
        let mut f = self.m_file[k];
        f.f_count = 1;
        f.f_offset = 0;
        f.f_flag = 0;
        f.f_inode = None;
        self.m_file[k] = f;
        open_files.set_f(fd, k);
        Ok((fd, k))
    }

    /// Closes a pipe: its inode loses read and write permission. Answers
    /// the inode whose readers and writers are to be woken.
    fn close_pipe(&mut self, file: &File, table: &mut InodeTable) -> (r: usize)
        requires
            file.f_inode matches Some(i) && i < NINODE,
        ensures
            file.f_inode == Some(r),
            final(self).m_file@ == old(self).m_file@,
            final(table).m_inode@ == old(table).m_inode@.update(r as int, Inode {
                i_mode: old(table).m_inode[r as int].i_mode & (MODE_ALL & !(IREAD | IWRITE)),
                ..old(table).m_inode[r as int]
            }),
    {
        let i = match file.f_inode {
            Some(i) => i,
            None => {
                proof { assert(false); }
                0
            },
        };
        let mut inode = table.m_inode[i];
        inode.i_mode = inode.i_mode & (MODE_ALL & !(IREAD | IWRITE));
        table.m_inode[i] = inode;
        i
    }

    /// Drops a reference to open file `k`. A pipe is shut for reading and
    /// writing; the last reference asks the caller to release the file.
    pub fn close_f(&mut self, k: usize, table: &mut InodeTable) -> (r: CloseResult)
        requires
            k < 100,
            close_ok(old(self).m_file@, k as int),
        ensures
            ({
                let f = old(self).m_file[k as int];
                &&& final(self).m_file@ == old(self).m_file@.update(k as int, File { f_count: (f.f_count - 1) as i32, ..f })
                &&& r.release == (f.f_count <= 1)
                &&& if flag_set(f.f_flag, FPIPE) {
                    let i = f.f_inode.unwrap();
                    &&& r.pipe_inode == Some(i)
                    &&& final(table).m_inode@ == old(table).m_inode@.update(i as int, Inode {
                        i_mode: old(table).m_inode[i as int].i_mode & (MODE_ALL & !(IREAD | IWRITE)),
                        ..old(table).m_inode[i as int]
                    })
                } else {
                    &&& r.pipe_inode is None
                    &&& final(table).m_inode@ == old(table).m_inode@
                }
            }),
    {
        let mut f = self.m_file[k];
        let mut pipe_inode = None;
        if f.f_flag & FPIPE == FPIPE {
            let i = self.close_pipe(&f, table);
            pipe_inode = Some(i);
        } else {
            assert(old(table).m_inode@ == table.m_inode@);
        }
        let release = f.f_count <= 1;
        f.f_count = f.f_count - 1;
        self.m_file[k] = f;
        CloseResult { pipe_inode, release }
    }
}

} // verus!
