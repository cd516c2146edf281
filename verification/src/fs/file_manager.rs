//! Directory entries and the search of a directory for a name.
use vstd::prelude::*;
use crate::bytes::{bytes_eq, le_u32, read_u32_le};
use crate::constants::PosixError;
use crate::fs::file::IOParameter;
use crate::fs::inode::{Inode, IFDIR, IFMT, IUPD};
use crate::fs::open_file_manager::InodeTable;
use crate::user::Userspace;

verus! {

/// Bytes of a name in a directory entry.
pub const DIRSIZ: usize = 28;
/// Bytes of a directory entry on disk.
pub const DENTRY_SIZE: usize = 32;

/// What a path lookup is for.
#[derive(Debug, Clone, Copy, PartialEq, Eq, Structural)]
pub enum DirSearchMode {
    Open,
    Create,
    Delete,
}

/// A directory entry: inode number (0 for a free entry) and a name padded
/// with zero bytes.
#[derive(Clone, Copy, Debug)]
pub struct DirectoryEntry {
    pub m_ino: i32,
    pub m_name: [u8; 28],
}

/// The first zero byte of `s` at or after `k`.
pub open spec fn first_nul(s: Seq<u8>, k: int) -> Option<int>
    decreases s.len() - k,
{
    if k < 0 || k >= s.len() {
        None
    } else if s[k] == 0 {
        Some(k)
    } else {
        first_nul(s, k + 1)
    }
}

/// The name held in `s`: the bytes before the first zero byte.
pub open spec fn name_of(s: Seq<u8>) -> Seq<u8> {
    s.take(first_nul(s, 0).unwrap())
}

pub proof fn lemma_first_nul(s: Seq<u8>, k: int)
    requires
        0 <= k,
    ensures
        match first_nul(s, k) {
            Some(j) => k <= j < s.len() && s[j] == 0 && forall|m: int| k <= m < j ==> #[trigger] s[m] != 0,
            None => forall|m: int| k <= m < s.len() ==> #[trigger] s[m] != 0,
        },
    decreases s.len() - k,
{
    if k < s.len() && s[k] != 0 {
        lemma_first_nul(s, k + 1);
    }
}

impl DirectoryEntry {
    /// A free entry with an empty name.
    pub fn new() -> (r: DirectoryEntry)
        ensures
            r.m_ino == 0,
            forall|i: int| 0 <= i < 28 ==> #[trigger] r.m_name[i] == 0u8,
    {
        DirectoryEntry { m_ino: 0, m_name: [0u8; 28] }
    }

    /// The entry's name: the bytes before the first zero byte. A name
    /// without one is not a valid entry.
    pub fn name(&self) -> (r: &[u8])
        requires
            first_nul(self.m_name@, 0) is Some,
        ensures
            r@ == name_of(self.m_name@),
    {
        proof { lemma_first_nul(self.m_name@, 0); }
        let mut end: usize = 0;
        while end < DIRSIZ
            invariant
                end <= 28,
                first_nul(self.m_name@, 0) == first_nul(self.m_name@, end as int),
            ensures
                end <= 28,
                first_nul(self.m_name@, 0) == first_nul(self.m_name@, end as int),
                end < 28 ==> self.m_name@[end as int] == 0,
            decreases 28 - end,
        {
            if self.m_name[end] == 0 {
                break;
            }
            end = end + 1;
        }
        proof { lemma_first_nul(self.m_name@, end as int); }
        assert(first_nul(self.m_name@, end as int) == Some(end as int));
        let s = self.m_name.as_slice();
        assert(s@ == self.m_name@);
        let r = vstd::slice::slice_subrange(s, 0, end);
        assert(r@ =~= name_of(self.m_name@));
        r
    }
}

// ----- searching a directory -----

/// Inode number of entry `j` of the directory bytes `dir`.
pub open spec fn ent_ino(dir: Seq<u8>, j: int) -> i32 {
    le_u32(dir, 32 * j) as i32
}

/// Name bytes of entry `j`.
pub open spec fn ent_name(dir: Seq<u8>, j: int) -> Seq<u8> {
    dir.subrange(32 * j + 4, 32 * j + 32)
}

/// Entry `j` is in use and named `name`.
pub open spec fn ent_matches(dir: Seq<u8>, j: int, name: Seq<u8>) -> bool {
    ent_ino(dir, j) != 0 && name_of(ent_name(dir, j)) == name
}

/// Every entry the scan of `j..n` reads names itself properly: an entry in
/// use that the scan compares has a zero byte in its name.
pub open spec fn scan_ok(dir: Seq<u8>, n: int, name: Seq<u8>, j: int) -> bool
    decreases n - j,
{
    if j < 0 || j >= n {
        true
    } else if ent_ino(dir, j) != 0 {
        first_nul(ent_name(dir, j), 0) is Some && (name_of(ent_name(dir, j)) == name || scan_ok(dir, n, name, j + 1))
    } else {
        scan_ok(dir, n, name, j + 1)
    }
}

/// The first entry in `j..n` in use and named `name`.
pub open spec fn scan_match(dir: Seq<u8>, n: int, name: Seq<u8>, j: int) -> Option<int>
    decreases n - j,
{
    if j < 0 || j >= n {
        None
    } else if ent_matches(dir, j, name) {
        Some(j)
    } else {
        scan_match(dir, n, name, j + 1)
    }
}

/// The first free entry in `j..stop`.
pub open spec fn scan_free(dir: Seq<u8>, stop: int, j: int) -> Option<int>
    decreases stop - j,
{
    if j < 0 || j >= stop {
        None
    } else if ent_ino(dir, j) == 0 {
        Some(j)
    } else {
        scan_free(dir, stop, j + 1)
    }
}

/// What the search of a directory asks of the caller.
#[derive(Debug, Clone, Copy, PartialEq, Eq, Structural)]
pub enum SearchAction {
    /// The name is not there: the new entry goes at `offset`, the directory
    /// becomes the parent of what is created, and when `extends` the
    /// directory grows (it is marked modified).
    Create { offset: usize, extends: bool },
    /// The entry found may be removed.
    Remove,
    /// Get inode `ino` of the directory's device: the entry found.
    Open { ino: i32 },
}

/// The outcome of a directory search, with the entry found and the
/// transfer position and count left behind in the user structure.
pub struct SearchReply {
    pub result: Result<SearchAction, PosixError>,
    pub dentry: Option<DirectoryEntry>,
    pub m_offset: usize,
    pub m_count: usize,
}

/// The entries a directory of `i_size` bytes holds.
pub open spec fn dir_entries(i_size: u32) -> int {
    i_size as int / 32
}

/// Whether the search consults the write permission: to create a missing
/// name or to remove a found one.
pub open spec fn search_checks_access(dir: Seq<u8>, i_size: u32, name: Seq<u8>, create: bool, remove: bool) -> bool {
    match scan_match(dir, dir_entries(i_size), name, 0) {
        None => create,
        Some(_) => remove,
    }
}

/// Entry `j` of `dir` decoded.
pub open spec fn decodes_entry(e: DirectoryEntry, dir: Seq<u8>, j: int) -> bool {
    e.m_ino == ent_ino(dir, j) && e.m_name@ == ent_name(dir, j)
}

fn entry_at(dir: &[u8], j: usize) -> (e: DirectoryEntry)
    requires
        32 * j + 32 <= dir@.len(),
    ensures
        decodes_entry(e, dir@, j as int),
{
    let n = dir.len();
    let off = 32 * j;
    let ino = read_u32_le(dir, off) as i32;
    let mut name = [0u8; 28];
    let mut k: usize = 0;
    while k < DIRSIZ
        invariant
            k <= 28,
            n == dir@.len(),
            off == 32 * j,
            off + 32 <= dir@.len(),
            forall|m: int| 0 <= m < k ==> #[trigger] name@[m] == dir@[off + 4 + m],
        decreases 28 - k,
    {
        name[k] = dir[off + 4 + k];
        k = k + 1;
    }
    assert(name@ =~= ent_name(dir@, j as int));
    DirectoryEntry { m_ino: ino, m_name: name }
}

/// Searches the entries of a directory of `i_size` bytes, whose bytes are
/// `dir`, for `name`. `create`: a missing name is to be created; `remove`:
/// a found one is to be removed. `may_write` is the directory's write
/// permission; it is consulted only where `search_checks_access` holds.
///
/// Not found: `ENOENT` unless creating; creating without write permission
/// is `EACCES`; otherwise the new entry goes into the first free entry,
/// or at the end. Found: removing needs write permission; otherwise the
/// entry's inode is to be opened. The transfer position is left at the entry
/// found (or the create position), the count at the entries not scanned.
pub fn search(dir: &[u8], i_size: u32, name: &[u8], create: bool, remove: bool, may_write: bool) -> (r: SearchReply)
    requires
        32 * dir_entries(i_size) <= dir@.len(),
        scan_ok(dir@, dir_entries(i_size), name@, 0),
    ensures
        ({
            let n = dir_entries(i_size);
            match scan_match(dir@, n, name@, 0) {
                Some(m) => {
                    &&& r.m_count == n - m
                    &&& r.m_offset == 32 * m
                    &&& r.dentry matches Some(e) && decodes_entry(e, dir@, m)
                    &&& r.result == if remove {
                        if may_write { Ok::<SearchAction, PosixError>(SearchAction::Remove) } else { Err(PosixError::EACCES) }
                    } else {
                        Ok(SearchAction::Open { ino: ent_ino(dir@, m) })
                    }
                },
                None => {
                    let free = scan_free(dir@, n, 0);
                    &&& r.m_count == 0
                    &&& r.dentry is None
                    &&& if !create {
                        r.result == Err::<SearchAction, PosixError>(PosixError::ENOENT) && r.m_offset == 32 * n
                    } else if !may_write {
                        r.result == Err::<SearchAction, PosixError>(PosixError::EACCES) && r.m_offset == 32 * n
                    } else {
                        let off = match free { Some(f) => 32 * f, None => 32 * n };
                        r.result == Ok::<SearchAction, PosixError>(SearchAction::Create { offset: off as usize, extends: free is None })
                            && r.m_offset == off
                    }
                },
            }
        }),
{
    let ghost n = dir_entries(i_size);
    let len = dir.len();
    let total = (i_size as usize) / DENTRY_SIZE;
    let mut count = total;
    let mut offset: usize = 0;
    let mut free_offset: Option<usize> = None;
    let mut found: Option<DirectoryEntry> = None;
    while count != 0
        invariant_except_break
            found is None,
        invariant
            len == dir@.len(),
            total == n,
            32 * n <= dir@.len(),
            count <= total,
            offset == 32 * (total - count),
            scan_match(dir@, n, name@, 0) == scan_match(dir@, n, name@, (total - count) as int),
            scan_ok(dir@, n, name@, (total - count) as int),
            scan_free(dir@, (total - count) as int, 0) == match free_offset {
                Some(f) => Some(f as int / 32),
                None => None::<int>,
            },
            free_offset matches Some(f) ==> f % 32 == 0,
            forall|j: int| 0 <= j < total - count ==> !#[trigger] ent_matches(dir@, j, name@),
        ensures
            offset == 32 * (total - count),
            count <= total,
            match found {
                Some(e) => count > 0 && scan_match(dir@, n, name@, 0) == Some((total - count) as int)
                    && decodes_entry(e, dir@, (total - count) as int),
                None => count == 0 && scan_match(dir@, n, name@, 0) is None,
            },
            scan_free(dir@, (total - count) as int, 0) == match free_offset {
                Some(f) => Some(f as int / 32),
                None => None::<int>,
            },
        decreases count,
    {
        let j = total - count;
        let e = entry_at(dir, j);
        assert(e.m_name@ == ent_name(dir@, j as int));
        proof { lemma_scan_free_step(dir@, j as int); }
        if e.m_ino == 0 {
            if free_offset.is_none() {
                free_offset = Some(offset);
            }
        }
        if e.m_ino != 0 {
            if bytes_eq(e.name(), name) {
                found = Some(e);
                break;
            }
        }
        offset = offset + DENTRY_SIZE;
        count = count - 1;
    }
    let mut result;
    match found {
        None => {
            if !create {
                result = Err(PosixError::ENOENT);
            } else if !may_write {
                result = Err(PosixError::EACCES);
            } else {
                let extends = free_offset.is_none();
                let at = match free_offset {
                    Some(f) => f,
                    None => offset,
                };
                offset = at;
                result = Ok(SearchAction::Create { offset: at, extends });
            }
        },
        Some(e) => {
            if remove {
                if !may_write {
                    result = Err(PosixError::EACCES);
                } else {
                    result = Ok(SearchAction::Remove);
                }
            } else {
                result = Ok(SearchAction::Open { ino: e.m_ino });
            }
        },
    }
    SearchReply { result, dentry: found, m_offset: offset, m_count: count }
}

// ----- walking a path -----

/// The name cache of the path walk: at most `DIRSIZ - 1` bytes of the
/// current component, zero padded.
pub open spec fn padded(name: Seq<u8>) -> Seq<u8> {
    name + Seq::new((28 - name.len()) as nat, |i: int| 0u8)
}

/// The first `/` at or after `k`, or the end of the path.
pub open spec fn comp_end(path: Seq<u8>, k: int) -> int
    decreases path.len() - k,
{
    if k < 0 || k >= path.len() {
        path.len() as int
    } else if path[k] == 47 {
        k
    } else {
        comp_end(path, k + 1)
    }
}

/// The first byte at or after `k` that is not `/`, or the end.
pub open spec fn skip_slashes(path: Seq<u8>, k: int) -> int
    decreases path.len() - k,
{
    if k < 0 || k >= path.len() {
        path.len() as int
    } else if path[k] != 47 {
        k
    } else {
        skip_slashes(path, k + 1)
    }
}

pub proof fn lemma_comp_end(path: Seq<u8>, k: int)
    requires
        0 <= k <= path.len(),
    ensures
        k <= comp_end(path, k) <= path.len(),
        forall|m: int| k <= m < comp_end(path, k) ==> #[trigger] path[m] != 47,
    decreases path.len() - k,
{
    if k < path.len() && path[k] != 47 {
        lemma_comp_end(path, k + 1);
    }
}

pub proof fn lemma_skip_slashes(path: Seq<u8>, k: int)
    requires
        0 <= k <= path.len(),
    ensures
        k <= skip_slashes(path, k) <= path.len(),
        skip_slashes(path, k) < path.len() ==> path[skip_slashes(path, k)] != 47,
        k < path.len() && path[k] == 47 ==> skip_slashes(path, k) > k,
        forall|m: int| k <= m < skip_slashes(path, k) ==> #[trigger] path[m] == 47,
    decreases path.len() - k,
{
    if k < path.len() && path[k] == 47 {
        lemma_skip_slashes(path, k + 1);
    }
}

/// The components of `path` from `pos` on, in order: the runs of bytes
/// between slashes.
pub open spec fn components(path: Seq<u8>, pos: int) -> Seq<Seq<u8>>
    decreases path.len() - pos,
{
    if pos < 0 || pos >= path.len() {
        Seq::empty()
    } else {
        let end = comp_end(path, pos);
        let next = skip_slashes(path, end);
        proof {
            lemma_comp_end(path, pos);
            lemma_skip_slashes(path, end);
            if path[pos] == 47 {
                assert(end == pos);
            } else {
                lemma_comp_end(path, pos + 1);
            }
        }
        seq![path.subrange(pos, end)] + components(path, next)
    }
}

fn skip_slashes_from(path: &[u8], k: usize) -> (r: usize)
    requires
        k <= path@.len(),
    ensures
        r == skip_slashes(path@, k as int),
{
    proof { lemma_skip_slashes(path@, k as int); }
    let mut i = k;
    while i < path.len()
        invariant
            k <= i <= path@.len(),
            skip_slashes(path@, k as int) == skip_slashes(path@, i as int),
        decreases path@.len() - i,
    {
        if path[i] != 47 {
            return i;
        }
        i = i + 1;
    }
    i
}

/// The path walk's next move.
#[derive(Debug, Clone, Copy)]
pub enum FindStep {
    /// The path is used up, or an error is pending: the current inode is
    /// the answer.
    Done,
    /// The current inode is not a directory: `ENOTDIR`.
    NotDir,
    /// The current directory may not be searched: `EACCES`.
    NoAccess,
    /// Search the current directory for the component in `name` (its first
    /// `len` bytes, zero padded) and go on from `next` with the inode found.
    /// `create` and `remove` are the search's modes: set only for the last
    /// component.
    Search { name: [u8; 28], len: usize, next: usize, create: bool, remove: bool },
}

/// The component starting at `pos` fits a directory entry name.
pub open spec fn component_fits(path: Seq<u8>, pos: int) -> bool {
    comp_end(path, pos) - pos < DIRSIZ
}

/// The lookup of a path name. The root directory is named by its index in
/// the inode table.
pub struct FileManager {
    pub root_inode: usize,
}

impl FileManager {
    /// Leaves the outcome of a search of directory `dir` (slot `dir` of
    /// `table`) for the component `name` where the rest of the kernel finds
    /// it: in the user structure (see `recorded`), and a directory that grows
    /// is marked modified.
    pub fn record_search(user: &mut Userspace, table: &mut InodeTable, dir: usize, name: [u8; 28], reply: &SearchReply)
        requires
            dir < 100,
        ensures
            *final(user) == recorded(*old(user), dir, name, *reply),
            grows(*reply) ==> final(table).m_inode@ == old(table).m_inode@.update(dir as int,
                Inode { i_flag: old(table).m_inode[dir as int].i_flag | IUPD, ..old(table).m_inode[dir as int] }),
            !grows(*reply) ==> final(table).m_inode@ == old(table).m_inode@,
    {
        user.cwd_name = name;
        match reply.dentry {
            Some(e) => {
                user.dentry = e;
            },
            None => {},
        }
        user.ioparam.m_offset = reply.m_offset;
        user.ioparam.m_count = reply.m_count;
        match reply.result {
            Ok(SearchAction::Create { extends, .. }) => {
                user.cwd_parent = Some(dir);
                if extends {
                    let mut i = table.m_inode[dir];
                    i.i_flag = i.i_flag | IUPD;
                    table.m_inode[dir] = i;
                }
            },
            _ => {},
        }
    }

    pub fn new(root_inode: usize) -> (r: FileManager)
        ensures
            r.root_inode == root_inode,
    {
        FileManager { root_inode }
    }

    /// Where the walk of `path` starts: the root directory for an absolute
    /// path, else the working directory `cwd`; and the position after the
    /// leading slashes.
    pub fn find_start(&self, path: &[u8], cwd: usize) -> (r: (usize, usize))
        ensures
            r.0 == if path@.len() > 0 && path@[0] == 47 { self.root_inode } else { cwd },
            r.1 == skip_slashes(path@, 0),
    {
        let start = if path.len() > 0 && path[0] == 47 { self.root_inode } else { cwd };
        (start, skip_slashes_from(path, 0))
    }

    /// One move of the walk of `path` at `pos` for `mode`, standing on an
    /// inode of mode `dir_mode`. `error_pending`: the user structure holds an
    /// error; `may_search`: the current directory may be searched (consulted
    /// only once the walk stands on a directory with path left). A component
    /// too long for a directory entry is not accepted.
    pub fn find_step(path: &[u8], pos: usize, mode: DirSearchMode, dir_mode: u32, may_search: bool, error_pending: bool) -> (r: FindStep)
        requires
            pos <= path@.len(),
            !error_pending && pos < path@.len() && dir_mode & IFMT == IFDIR && may_search
                ==> component_fits(path@, pos as int),
        ensures
            error_pending || pos == path@.len() ==> r == FindStep::Done,
            !error_pending && pos < path@.len() ==> {
                if dir_mode & IFMT != IFDIR {
                    r == FindStep::NotDir
                } else if !may_search {
                    r == FindStep::NoAccess
                } else {
                    let end = comp_end(path@, pos as int);
                    let next = skip_slashes(path@, end);
                    r matches FindStep::Search { name, len, next: nx, create, remove }
                        && len == end - pos
                        && name@ == padded(path@.subrange(pos as int, end))
                        && name@ == padded(components(path@, pos as int)[0])
                        && nx == next
                        && components(path@, nx as int) == components(path@, pos as int).drop_first()
                        && create == (mode == DirSearchMode::Create && next == path@.len())
                        && remove == (mode == DirSearchMode::Delete && next == path@.len())
                }
            },
    {
        if error_pending || pos == path.len() {
            return FindStep::Done;
        }
        if dir_mode & IFMT != IFDIR {
            return FindStep::NotDir;
        }
        if !may_search {
            return FindStep::NoAccess;
        }
        proof { lemma_comp_end(path@, pos as int); }
        let mut end = pos;
        while end < path.len()
            invariant
                pos <= end <= path@.len(),
                comp_end(path@, pos as int) == comp_end(path@, end as int),
            ensures
                pos <= end <= path@.len(),
                comp_end(path@, pos as int) == comp_end(path@, end as int),
                end < path@.len() ==> path@[end as int] == 47,
            decreases path@.len() - end,
        {
            if path[end] == 47 {
                break;
            }
            end = end + 1;
        }
        let len = end - pos;
        let plen = path.len();
        let mut name = [0u8; 28];
        let mut k: usize = 0;
        while k < len
            invariant
                k <= len,
                len < 28,
                pos + len <= path@.len(),
                plen == path@.len(),
                forall|m: int| 0 <= m < k ==> #[trigger] name@[m] == path@[pos + m],
                forall|m: int| len <= m < 28 ==> #[trigger] name@[m] == 0u8,
            decreases len - k,
        {
            name[k] = path[pos + k];
            k = k + 1;
        }
        assert(name@ =~= padded(path@.subrange(pos as int, end as int)));
        let next = skip_slashes_from(path, end);
        proof {
            let c = components(path@, pos as int);
            assert(c == seq![path@.subrange(pos as int, end as int)] + components(path@, next as int));
            assert(c.drop_first() =~= components(path@, next as int));
        }
        let last = next == path.len();
        FindStep::Search {
            name,
            len,
            next,
            create: mode == DirSearchMode::Create && last,
            remove: mode == DirSearchMode::Delete && last,
        }
    }
}

/// The user structure after a search of directory `dir` for the component
/// `name`: the component, the entry found and the transfer position and
/// count are recorded, and a name to be created gets `dir` as its parent.
pub open spec fn recorded(u: Userspace, dir: usize, name: [u8; 28], reply: SearchReply) -> Userspace {
    Userspace {
        cwd_name: name,
        dentry: match reply.dentry {
            Some(e) => e,
            None => u.dentry,
        },
        ioparam: IOParameter { m_offset: reply.m_offset, m_count: reply.m_count, ..u.ioparam },
        cwd_parent: match reply.result {
            Ok(SearchAction::Create { .. }) => Some(dir),
            _ => u.cwd_parent,
        },
        ..u
    }
}

/// Whether the searched directory grows: a new entry goes past its end.
pub open spec fn grows(reply: SearchReply) -> bool {
    reply.result matches Ok(SearchAction::Create { extends, .. }) && extends
}

/// One more entry scanned: the first free entry of `0..j+1` is that of
/// `0..j`, or `j` when there was none and `j` is free.
proof fn lemma_scan_free_step(dir: Seq<u8>, j: int)
    requires
        0 <= j,
    ensures
        scan_free(dir, j + 1, 0) == match scan_free(dir, j, 0) {
            Some(f) => Some(f),
            None => if ent_ino(dir, j) == 0 { Some(j) } else { None },
        },
{
    lemma_scan_free_extend(dir, j, 0);
}

proof fn lemma_scan_free_extend(dir: Seq<u8>, j: int, k: int)
    requires
        0 <= k <= j,
    ensures
        scan_free(dir, j + 1, k) == match scan_free(dir, j, k) {
            Some(f) => Some(f),
            None => if ent_ino(dir, j) == 0 { Some(j) } else { None },
        },
    decreases j - k,
{
    if k < j {
        lemma_scan_free_extend(dir, j, k + 1);
    } else {
        assert(scan_free(dir, j + 1, j + 1) is None);
    }
}

} // verus!
