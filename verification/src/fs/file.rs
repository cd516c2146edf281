//! Open files and the I/O parameters of a transfer.
use vstd::prelude::*;
use crate::constants::PosixError;

verus! {

/// Open for reading.
pub const FREAD: u32 = 0x1;
/// Open for writing.
pub const FWRITE: u32 = 0x2;
/// The file is a pipe.
pub const FPIPE: u32 = 0x4;

/// An entry of the system open-file table. `f_inode` names the inode by
/// its index in the inode table.
#[derive(Debug, Clone, Copy)]
pub struct File {
    pub f_flag: u32,
    /// References from file descriptors.
    pub f_count: i32,
    pub f_inode: Option<usize>,
    /// Read/write position.
    pub f_offset: u64,
}

impl File {
    /// An unused open-file entry.
    pub fn new() -> (r: File)
        ensures
            r.f_flag == 0 && r.f_count == 0 && r.f_inode is None && r.f_offset == 0,
    {
        File { f_flag: 0, f_count: 0, f_inode: None, f_offset: 0 }
    }
}

/// Descriptors a process may hold.
pub const NOFILE: usize = 15;

/// A process's descriptor table: descriptor `fd` names an entry of the
/// open-file table by its index, or nothing.
#[derive(Clone, Copy)]
pub struct OpenFiles {
    pub ofile: [Option<usize>; 15],
}

/// The first unused descriptor at or after `k`.
pub open spec fn first_free_fd(s: Seq<Option<usize>>, k: int) -> Option<int>
    decreases s.len() - k,
{
    if k < 0 || k >= s.len() {
        None
    } else if s[k] is None {
        Some(k)
    } else {
        first_free_fd(s, k + 1)
    }
}

pub proof fn lemma_first_free_fd(s: Seq<Option<usize>>, k: int)
    requires
        0 <= k,
    ensures
        match first_free_fd(s, k) {
            Some(j) => k <= j < s.len() && s[j] is None,
            None => forall|m: int| k <= m < s.len() ==> #[trigger] s[m] is Some,
        },
    decreases s.len() - k,
{
    if k < s.len() && s[k] is Some {
        lemma_first_free_fd(s, k + 1);
    }
}

impl OpenFiles {
    /// A table with no descriptors in use.
    pub fn new() -> (r: OpenFiles)
        ensures
            forall|i: int| 0 <= i < 15 ==> #[trigger] r.ofile[i] is None,
    {
        OpenFiles { ofile: [None; 15] }
    }

    /// The lowest unused descriptor; a full table is `EMFILE`.
    pub fn alloc_free_slot(&self) -> (r: Result<usize, PosixError>)
        ensures
            r == match first_free_fd(self.ofile@, 0) {
                Some(k) => Ok::<usize, PosixError>(k as usize),
                None => Err(PosixError::EMFILE),
            },
            r matches Ok(k) ==> k < NOFILE,
    {
        proof { lemma_first_free_fd(self.ofile@, 0); }
        let mut i: usize = 0;
        while i < NOFILE
            invariant
                i <= 15,
                first_free_fd(self.ofile@, 0) == first_free_fd(self.ofile@, i as int),
            decreases 15 - i,
        {
            if self.ofile[i].is_none() {
                return Ok(i);
            }
            i = i + 1;
        }
        Err(PosixError::EMFILE)
    }

    /// Makes descriptor `fd` name open-file entry `file`.
    pub fn set_f(&mut self, fd: usize, file: usize)
        requires
            fd < NOFILE,
        ensures
            final(self).ofile@ == old(self).ofile@.update(fd as int, Some(file)),
    {
        self.ofile[fd] = Some(file);
    }
}

/// The user-side parameters of a transfer.
#[derive(Debug, Clone, Copy)]
pub struct IOParameter {
    /// Address of the user buffer.
    pub m_base: usize,
    /// Position in the file.
    pub m_offset: usize,
    /// Bytes left to transfer.
    pub m_count: usize,
}

impl IOParameter {
    pub fn new() -> (r: IOParameter)
        ensures
            r.m_base == 0 && r.m_offset == 0 && r.m_count == 0,
    {
        IOParameter { m_base: 0, m_offset: 0, m_count: 0 }
    }
}

} // verus!
