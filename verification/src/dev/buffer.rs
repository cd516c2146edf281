//! Disk block buffers and the block-number types of the device layer.
use vstd::prelude::*;
use crate::bytes::{le_u32, read_u32_le};

verus! {

/// A device number: major number in the high byte, minor in the low byte.
#[derive(Debug, Clone, Copy, PartialEq, Eq, Structural)]
pub struct DevId(pub i16);

/// A block number inside a file.
#[derive(Debug, Clone, Copy, PartialEq, Eq, Structural)]
pub struct LogicalBlock(pub u32);

/// A block number on a device; block 0 stands for "no block".
#[derive(Debug, Clone, Copy, PartialEq, Eq, Structural)]
pub struct PhysicalBlock(pub u32);

/// Device number of the root disk.
pub const ROOTDEV: i16 = 0;

/// Write operation.
pub const B_WRITE: u32 = 0x1;
/// Read operation.
pub const B_READ: u32 = 0x2;
/// I/O finished.
pub const B_DONE: u32 = 0x4;
/// I/O ended with an error.
pub const B_ERROR: u32 = 0x8;
/// The buffer is in use.
pub const B_BUSY: u32 = 0x10;
/// Someone waits for the buffer; wake them when it stops being busy.
pub const B_WANTED: u32 = 0x20;
/// Asynchronous I/O: nobody waits for it to end.
pub const B_ASYNC: u32 = 0x40;
/// Delayed write.
pub const B_DELWRI: u32 = 0x80;

/// Bytes in a disk block.
pub const BLOCK_SIZE: usize = 512;

impl PhysicalBlock {
    /// A block number, or `None` for block 0, which names no block.
    pub fn new(blkid: u32) -> (r: Option<PhysicalBlock>)
        ensures
            blkid != 0 ==> r == Some(PhysicalBlock(blkid)),
            blkid == 0 ==> r is None,
    {
        if blkid != 0 {
            Some(PhysicalBlock(blkid))
        } else {
            None
        }
    }
}

/// The header of one cache buffer. Links to neighbouring buffers are
/// indices into the buffer pool; the managed bytes are held in `b_addr`.
#[derive(Debug)]
pub struct Buf {
    pub b_flags: u32,
    pub padding: i32,
    pub b_forw: Option<usize>,
    pub b_back: Option<usize>,
    pub av_forw: Option<usize>,
    pub av_back: Option<usize>,
    /// High byte major number, low byte minor number.
    pub b_dev: i16,
    /// Bytes to transfer.
    pub b_wcount: i32,
    /// The bytes the buffer manages.
    pub b_addr: Vec<u8>,
    /// Block number on the device.
    pub b_blkno: PhysicalBlock,
    /// I/O error information.
    pub b_error: i32,
    /// Bytes left untransferred after an error.
    pub b_resid: i32,
}

/// Entry `i` of a block read as a table of 128 little-endian `i32`s.
pub open spec fn table_entry(bytes: Seq<u8>, i: int) -> i32 {
    le_u32(bytes, 4 * i) as i32
}

/// The four little-endian bytes of `v` read back give `v`.
proof fn lemma_le_bytes(v: i32, x: u32, b0: u8, b1: u8, b2: u8, b3: u8)
    requires
        x == v as u32,
        b0 == x % 256,
        b1 == (x / 256) % 256,
        b2 == (x / 65536) % 256,
        b3 == x / 16777216,
    ensures
        (b0 + 256 * b1 + 65536 * b2 + 16777216 * b3) as i32 == v,
{
    assert(b0 + 256 * b1 + 65536 * b2 + 16777216 * b3 == x) by (nonlinear_arith)
        requires
            b0 == x % 256,
            b1 == (x / 256) % 256,
            b2 == (x / 65536) % 256,
            b3 == x / 16777216,
            0 <= x < 0x1_0000_0000;
    assert((v as u32) as i32 == v) by (bit_vector);
}

impl Buf {
    pub open spec fn has_flag(&self, f: u32) -> bool {
        self.b_flags & f == f
    }

    /// An empty buffer header: no flags, no links, no device, no bytes.
    pub fn new() -> (r: Buf)
        ensures
            r.b_flags == 0,
            r.padding == 0,
            r.b_forw is None,
            r.b_back is None,
            r.av_forw is None,
            r.av_back is None,
            r.b_dev == -1,
            r.b_wcount == 0,
            r.b_addr@ == Seq::<u8>::empty(),
            r.b_blkno == PhysicalBlock(0),
            r.b_error == 0,
            r.b_resid == 0,
    {
        Buf {
            b_flags: 0,
            padding: 0,
            b_forw: None,
            b_back: None,
            av_forw: None,
            av_back: None,
            b_dev: -1,
            b_wcount: 0,
            b_addr: Vec::new(),
            b_blkno: PhysicalBlock(0),
            b_error: 0,
            b_resid: 0,
        }
    }

    /// The block read as 128 little-endian `i32` block numbers (an index block).
    pub fn read_table(&self) -> (t: [i32; 128])
        requires
            self.b_addr@.len() >= BLOCK_SIZE,
        ensures
            forall|i: int| 0 <= i < 128 ==> #[trigger] t[i] == table_entry(self.b_addr@, i),
    {
        let mut t = [0i32; 128];
        let mut i: usize = 0;
        while i < 128
            invariant
                i <= 128,
                self.b_addr@.len() >= BLOCK_SIZE,
                forall|k: int| 0 <= k < i ==> #[trigger] t[k] == table_entry(self.b_addr@, k),
            decreases 128 - i,
        {
            let v = read_u32_le(self.b_addr.as_slice(), 4 * i);
            t[i] = v as i32;
            i = i + 1;
        }
        t
    }

    /// Stores `table` into the block as 128 little-endian `i32`s (an index
    /// block); the bytes past the block stay as they were.
    pub fn write_table(&mut self, table: &[i32; 128])
        requires
            old(self).b_addr@.len() >= BLOCK_SIZE,
        ensures
            final(self).b_addr@.len() == old(self).b_addr@.len(),
            forall|i: int| 0 <= i < 128 ==> #[trigger] table_entry(final(self).b_addr@, i) == table[i],
            final(self).b_addr@.subrange(BLOCK_SIZE as int, old(self).b_addr@.len() as int)
                == old(self).b_addr@.subrange(BLOCK_SIZE as int, old(self).b_addr@.len() as int),
            *final(self) == (Buf { b_addr: final(self).b_addr, ..*old(self) }),
    {
        let mut i: usize = 0;
        while i < 128
            invariant
                i <= 128,
                self.b_addr@.len() == old(self).b_addr@.len(),
                old(self).b_addr@.len() >= BLOCK_SIZE,
                forall|k: int| 0 <= k < i ==> #[trigger] table_entry(self.b_addr@, k) == table[k],
                forall|j: int| 4 * i <= j < self.b_addr@.len() ==> #[trigger] self.b_addr@[j] == old(self).b_addr@[j],
                *self == (Buf { b_addr: self.b_addr, ..*old(self) }),
            decreases 128 - i,
        {
            let v = table[i];
            let x = v as u32;
            let b0 = (x % 256) as u8;
            let b1 = ((x / 256) % 256) as u8;
            let b2 = ((x / 65536) % 256) as u8;
            let b3 = (x / 16777216) as u8;
            proof { lemma_le_bytes(v, x, b0, b1, b2, b3); }
            let ghost before = self.b_addr@;
            self.b_addr.set(4 * i, b0);
            self.b_addr.set(4 * i + 1, b1);
            self.b_addr.set(4 * i + 2, b2);
            self.b_addr.set(4 * i + 3, b3);
            assert forall|k: int| 0 <= k < i + 1 implies #[trigger] table_entry(self.b_addr@, k) == table[k] by {
                if k < i {
                    assert(table_entry(before, k) == table[k]);
                }
            }
            i = i + 1;
        }
        assert(self.b_addr@.subrange(BLOCK_SIZE as int, old(self).b_addr@.len() as int)
            =~= old(self).b_addr@.subrange(BLOCK_SIZE as int, old(self).b_addr@.len() as int));
    }

    /// The block's bytes.
    pub fn as_slice(&self) -> (s: &[u8])
        requires
            self.b_addr@.len() == BLOCK_SIZE,
        ensures
            s@ == self.b_addr@,
    {
        self.b_addr.as_slice()
    }

    /// The block's bytes, for writing.
    pub fn as_slice_mut(&mut self) -> (s: &mut [u8])
        requires
            old(self).b_addr@.len() == BLOCK_SIZE,
        ensures
            s@ == old(self).b_addr@,
            final(self).b_addr@ == final(s)@,
            final(self).b_flags == old(self).b_flags,
            final(self).b_blkno == old(self).b_blkno,
            final(self).b_dev == old(self).b_dev,
            final(self).b_wcount == old(self).b_wcount,
            final(self).b_error == old(self).b_error,
            final(self).b_resid == old(self).b_resid,
            final(self).b_forw == old(self).b_forw,
            final(self).b_back == old(self).b_back,
            final(self).av_forw == old(self).av_forw,
            final(self).av_back == old(self).av_back,
            final(self).padding == old(self).padding,
    {
        self.b_addr.as_mut_slice()
    }

    pub fn is_busy(&self) -> (r: bool)
        ensures
            r == self.has_flag(B_BUSY),
    {
        self.b_flags & B_BUSY == B_BUSY
    }

    pub fn is_done(&self) -> (r: bool)
        ensures
            r == self.has_flag(B_DONE),
    {
        self.b_flags & B_DONE == B_DONE
    }

    pub fn has_error(&self) -> (r: bool)
        ensures
            r == self.has_flag(B_ERROR),
    {
        self.b_flags & B_ERROR == B_ERROR
    }

    pub fn is_async(&self) -> (r: bool)
        ensures
            r == self.has_flag(B_ASYNC),
    {
        self.b_flags & B_ASYNC == B_ASYNC
    }

    pub fn is_delwri(&self) -> (r: bool)
        ensures
            r == self.has_flag(B_DELWRI),
    {
        self.b_flags & B_DELWRI == B_DELWRI
    }

    /// Linked into a device's buffer list in both directions.
    pub fn is_on_device_list(&self) -> (r: bool)
        ensures
            r == (self.b_forw is Some && self.b_back is Some),
    {
        self.b_forw.is_some() && self.b_back.is_some()
    }

    /// Linked into the free list.
    pub fn is_on_free_list(&self) -> (r: bool)
        ensures
            r == self.av_back is Some,
    {
        self.av_back.is_some()
    }
}

/// A buffer handed out by the buffer manager; holding it keeps the buffer
/// busy, and handing it back releases it.
pub struct Buffer {
    bp: Buf,
}

impl Buffer {
    pub closed spec fn buf(&self) -> Buf {
        self.bp
    }

    pub fn new(bp: Buf) -> (r: Buffer)
        ensures
            r.buf() == bp,
    {
        Buffer { bp }
    }

    /// The first `b_wcount` bytes of the buffer.
    pub fn as_bytes(&self) -> (s: &[u8])
        requires
            0 <= self.buf().b_wcount <= self.buf().b_addr@.len(),
        ensures
            s@ == self.buf().b_addr@.subrange(0, self.buf().b_wcount as int),
    {
        let n = self.bp.b_wcount as usize;
        vstd::slice::slice_subrange(self.bp.b_addr.as_slice(), 0, n)
    }

    pub fn phyblk(&self) -> (r: PhysicalBlock)
        ensures
            r == self.buf().b_blkno,
    {
        self.bp.b_blkno
    }

    /// Gives up the handle without releasing the buffer.
    pub fn into_raw(self) -> (r: Buf)
        ensures
            r == self.buf(),
    {
        self.bp
    }
}

} // verus!
