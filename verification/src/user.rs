//! The per-process user structure: credentials, error number, working
//! directory and transfer parameters.
use vstd::prelude::*;
use crate::constants::PosixError;
use crate::fs::file::{IOParameter, OpenFiles};
use crate::fs::file_manager::DirectoryEntry;

verus! {

/// A saved stack or frame pointer.
#[derive(Clone, Copy)]
pub struct Pointer(pub usize);

/// A shared text segment.
pub struct Text;

/// A terminal.
pub struct Terminal;

/// Scheduling state of a process.
#[derive(Clone, Copy)]
pub enum ProcessState {
    SNULL,
    SSLEEP,
    SWAIT,
    SRUN,
    SIDL,
    SZOMB,
    SSTOP,
}

/// A process-table entry. Text segment and terminal are named by their
/// index in their tables.
#[derive(Clone, Copy)]
pub struct Process {
    pub uid: u16,
    pub pid: u32,
    pub ppid: u32,
    pub addr: usize,
    pub size: u32,
    pub textp: Option<usize>,
    pub stat: ProcessState,
    pub flag: u32,
    pub pri: u32,
    pub cpu: u32,
    pub nice: u32,
    pub time: u32,
    pub wchan: usize,
    pub sig: u32,
    pub tty: Option<usize>,
    pub sigmap: usize,
}

/// The memory map of a process; its words are opaque here.
#[derive(Clone, Copy)]
pub struct MemoryDescriptor {
    data: [usize; 6],
}

impl MemoryDescriptor {
    pub closed spec fn words(&self) -> Seq<usize> {
        self.data@
    }

    pub fn new() -> (r: MemoryDescriptor)
        ensures
            r.words() == Seq::new(6, |i: int| 0usize),
    {
        let r = MemoryDescriptor { data: [0usize; 6] };
        assert(r.data@ =~= Seq::new(6, |i: int| 0usize));
        r
    }
}

/// The user structure of the running process. The process-table entry is
/// held here; the working directory and its parent are indices into the
/// inode table.
#[derive(Clone, Copy)]
pub struct Userspace {
    pub proc: Process,
    pub mem: MemoryDescriptor,
    /// Inode of the working directory.
    pub cwd: Option<usize>,
    /// Inode of the working directory's parent.
    pub cwd_parent: Option<usize>,
    /// Directory entry of the working directory.
    pub dentry: DirectoryEntry,
    /// Last component of the working directory's path.
    pub cwd_name: [u8; 28],
    /// Full path of the working directory.
    pub cwd_full: [u8; 128],
    /// Error number for the current system call.
    pub error: Option<PosixError>,
    pub uid: u16,
    pub gid: u16,
    pub euid: u16,
    pub egid: u16,
    /// The process's descriptor table.
    pub open_files: OpenFiles,
    /// Address of the path name argument in user space.
    pub dirp: usize,
    pub ioparam: IOParameter,
}

/// The user id word `getuid` answers: real id in the high half, the low
/// byte of the effective id below.
pub open spec fn uid_word(uid: u16, euid: u16) -> u32 {
    ((uid as u32) << 16u32) | ((euid as u32) & 0xffu32)
}

impl Userspace {
    /// The user structure a process starts with: root credentials, working
    /// directory "/", no error.
    pub fn init(proc: Process) -> (r: Userspace)
        ensures
            r.proc == proc,
            r.uid == 0 && r.gid == 0 && r.euid == 0 && r.egid == 0,
            r.error is None,
            r.cwd is None && r.cwd_parent is None,
            r.cwd_full[0] == 47u8,
            forall|i: int| 1 <= i < 128 ==> #[trigger] r.cwd_full[i] == 0u8,
            forall|i: int| 0 <= i < 28 ==> #[trigger] r.cwd_name[i] == 0u8,
            r.dentry.m_ino == 0,
            forall|i: int| 0 <= i < 28 ==> #[trigger] r.dentry.m_name[i] == 0u8,
            r.ioparam.m_base == 0 && r.ioparam.m_offset == 0 && r.ioparam.m_count == 0,
            r.mem.words() == Seq::new(6, |i: int| 0usize),
            forall|i: int| 0 <= i < 15 ==> #[trigger] r.open_files.ofile[i] is None,
            r.dirp == 0,
    {
        let mut full = [0u8; 128];
        full[0] = 47u8;
        Userspace {
            proc,
            mem: MemoryDescriptor::new(),
            cwd: None,
            cwd_parent: None,
            dentry: DirectoryEntry::new(),
            cwd_name: [0u8; 28],
            cwd_full: full,
            error: None,
            uid: 0,
            gid: 0,
            euid: 0,
            egid: 0,
            open_files: OpenFiles::new(),
            dirp: 0,
            ioparam: IOParameter::new(),
        }
    }

    pub fn set_error(&mut self, errno: PosixError)
        ensures
            *final(self) == (Userspace { error: Some(errno), ..*old(self) }),
    {
        self.error = Some(errno);
    }

    pub fn clear_error(&mut self)
        ensures
            *final(self) == (Userspace { error: None, ..*old(self) }),
    {
        self.error = None;
    }

    pub fn io_param_mut(&mut self) -> (r: &mut IOParameter)
        ensures
            *r == old(self).ioparam,
            *final(self) == (Userspace { ioparam: *final(r), ..*old(self) }),
    {
        &mut self.ioparam
    }

    /// Whether the real user is the superuser; otherwise the error is set to
    /// `EPERM`.
    pub fn is_root(&mut self) -> (r: bool)
        ensures
            r == (old(self).uid == 0),
            r ==> *final(self) == *old(self),
            !r ==> *final(self) == (Userspace { error: Some(PosixError::EPERM), ..*old(self) }),
    {
        if self.uid == 0 {
            return true;
        }
        self.error = Some(PosixError::EPERM);
        false
    }

    /// Sets real and effective user id (and the process's) to `uid` when it
    /// is the effective id or the caller is the superuser; otherwise the
    /// error is `EPERM`.
    pub fn setuid(&mut self, uid: u16, suid: u16)
        ensures
            old(self).euid == uid || old(self).uid == 0 ==> *final(self) == (Userspace {
                uid: uid,
                euid: uid,
                proc: Process { uid: uid, ..old(self).proc },
                ..*old(self)
            }),
            !(old(self).euid == uid || old(self).uid == 0) ==> *final(self) == (Userspace {
                error: Some(PosixError::EPERM),
                ..*old(self)
            }),
    {
        if self.euid == uid || self.is_root() {
            self.uid = uid;
            self.euid = uid;
            self.proc.uid = uid;
        } else {
            self.error = Some(PosixError::EPERM);
        }
    }

    pub fn getuid(&self) -> (r: u32)
        ensures
            r == uid_word(self.uid, self.euid),
    {
        ((self.uid as u32) << 16u32) | ((self.euid as u32) & 0xffu32)
    }

    /// Sets real and effective group id to `gid` when it is the effective
    /// group or the caller is the superuser; otherwise the error is `EPERM`.
    pub fn setgid(&mut self, gid: u16, sgid: u16)
        ensures
            old(self).egid == gid || old(self).uid == 0 ==> *final(self) == (Userspace {
                gid: gid,
                egid: gid,
                ..*old(self)
            }),
            !(old(self).egid == gid || old(self).uid == 0) ==> *final(self) == (Userspace {
                error: Some(PosixError::EPERM),
                ..*old(self)
            }),
    {
        if self.egid == gid || self.is_root() {
            self.gid = gid;
            self.egid = gid;
        } else {
            self.error = Some(PosixError::EPERM);
        }
    }

    pub fn getgid(&self) -> (r: u32)
        ensures
            r == uid_word(self.gid, self.egid),
    {
        ((self.gid as u32) << 16u32) | ((self.egid as u32) & 0xffu32)
    }

    /// The full path of the working directory.
    pub fn getpwd(&self) -> (r: [u8; 128])
        ensures
            r == self.cwd_full,
    {
        self.cwd_full
    }
}

} // verus!
