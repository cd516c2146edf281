//! Properties that hold across the operations of the library.
use vstd::prelude::*;
use crate::dev::buffer::{DevId, PhysicalBlock};
use crate::fs::file_system::{
    alloc_outcome, claim_outcome, flag_set, fs_sized, free_outcome, free_sb, i_alloc_outcome, i_free_outcome, i_free_sb,
    lemma_first_from, lemma_with_sb_lookup, normalized, FileSystemError, FsView, SbView, S_FMOD,
    S_ILOCK,
};
use crate::fs::file_manager::{
    comp_end, components, dir_entries, ent_ino, lemma_comp_end, lemma_skip_slashes, scan_free, scan_match,
    skip_slashes,
};
use crate::fs::file_manager::{first_nul, grows, recorded, SearchAction, SearchReply};
use crate::fs::file::{first_free_fd, File};
use crate::fs::file_system::{synced_mount, MountView, S_FLOCK, S_RONLY};
use crate::fs::open_file_manager::{first_unused_file, fresh_file, handed_over};
use crate::fs::inode::{
    bmap_allocates, bmap_result, clean_inode, file_type, i_update_outcome, no_blocks, read_i_returns, read_lastr, trunc_inode, unlocked, wakes,
    write_i_maps, written_size, Inode, IACC, IFBLK, IFCHR, ILOCK, IUPD, IWANT,
};
use crate::loader::{stripped, wanted_indices, SectionHeader};
use crate::user::Userspace;

verus! {

/// The free-block cache is a stack: after block `b` is freed on `dev`, the
/// next allocation there takes `b` back (it is on top of the cache), and
/// leaves the cache count and the entries below as they were.
pub proof fn law_free_then_alloc_takes_back(fs: FsView, dev: DevId, b: i32)
    requires
        fs_sized(fs),
        fs.lookup(dev) is Some,
        b != 0,
        0 < normalized(fs.sb(fs.lookup(dev).unwrap())).nfree < 100,
    ensures
        ({
            let i = fs.lookup(dev).unwrap();
            let sb = normalized(fs.sb(i));
            let fs1 = free_outcome(fs, dev, b).0;
            let (fs2, e) = alloc_outcome(fs1, dev);
            &&& fs1.lookup(dev) == Some(i)
            &&& fs1.sb(i).free[fs1.sb(i).nfree - 1] == b
            &&& fs2.sb(i).nfree == sb.nfree
            &&& fs2.sb(i).free.subrange(0, sb.nfree as int) == sb.free.subrange(0, sb.nfree as int)
            &&& e == FileSystemError::BufferUnavailable
        }),
{
    let i = fs.lookup(dev).unwrap();
    lemma_first_from(fs.mounts, dev, 0);
    let sb = normalized(fs.sb(i));
    let sb1 = free_sb(sb, b);
    lemma_with_sb_lookup(fs, i, sb1, dev);
    let fs1 = free_outcome(fs, dev, b).0;
    assert(fs.mounts[i].spb matches Some(x) && x.free.len() == 100);
    assert(sb.free.len() == 100);
    assert(sb1.nfree == sb.nfree + 1);
    assert(sb1.free == sb.free.update(sb.nfree as int, b));
    assert(fs1.sb(i) == sb1);
    assert(normalized(sb1) == sb1);
    let n = sb1.nfree - 1;
    assert(n == sb.nfree);
    assert(sb1.free[n] == b);
    let sb2 = SbView { nfree: n as i32, flag: sb1.flag | S_FMOD, ..sb1 };
    lemma_with_sb_lookup(fs1, i, sb2, dev);
    assert(alloc_outcome(fs1, dev).0 == fs1.with_sb(i, sb2));
    assert(sb2.free.subrange(0, sb.nfree as int) =~= sb.free.subrange(0, sb.nfree as int));
}

/// The free-inode cache is a stack: after inode number `n` is freed on
/// `dev` (cache unlocked, not full), the next inode allocation there takes
/// `n`, and the cache count is back where it was.
pub proof fn law_i_free_then_i_alloc(fs: FsView, dev: DevId, n: i32)
    requires
        fs_sized(fs),
        fs.lookup(dev) is Some,
        !flag_set(normalized(fs.sb(fs.lookup(dev).unwrap())).flag, S_ILOCK),
        0 <= normalized(fs.sb(fs.lookup(dev).unwrap())).ninode < 100,
    ensures
        ({
            let i = fs.lookup(dev).unwrap();
            let fs1 = i_free_outcome(fs, dev, n).0;
            let (fs2, r) = i_alloc_outcome(fs1, dev);
            &&& r == Ok::<i32, FileSystemError>(n)
            &&& fs2.sb(i).ninode == normalized(fs.sb(i)).ninode
        }),
{
    let i = fs.lookup(dev).unwrap();
    lemma_first_from(fs.mounts, dev, 0);
    let sb = normalized(fs.sb(i));
    let sb1 = i_free_sb(sb, n);
    lemma_with_sb_lookup(fs, i, sb1, dev);
    let fs1 = i_free_outcome(fs, dev, n).0;
    assert(fs.mounts[i].spb matches Some(x) && x.inode.len() == 100);
    assert(sb1.ninode == sb.ninode + 1);
    assert(sb1.inode[sb.ninode as int] == n);
    assert(fs1.sb(i) == sb1);
    assert(normalized(sb1) == sb1);
    lemma_with_sb_lookup(fs1, i, SbView { ninode: sb.ninode, ..sb1 }, dev);
}

/// An inode allocation gives the inode whose number was on top of the
/// free-inode cache. `i_alloc` pops that number, `i_get` hands the inode over
/// locked and referenced, and when it has no mode `claim_free` cleans it and
/// marks the super block modified. The cache's entries stay as they were, its
/// count is one lower, and the other mount slots are untouched.
pub proof fn law_i_alloc_gives_top_inode(fs: FsView, dev: DevId, got: Inode)
    requires
        fs_sized(fs),
        i_alloc_outcome(fs, dev).1 is Ok,
        handed_over(got, dev, i_alloc_outcome(fs, dev).1->Ok_0),
        got.i_mode == 0,
    ensures
        fs.lookup(dev) is Some,
        ({
            let i = fs.lookup(dev).unwrap();
            let sb = normalized(fs.sb(i));
            let fs2 = claim_outcome(i_alloc_outcome(fs, dev).0, dev);
            let a = clean_inode(got);
            &&& 0 < sb.ninode <= 100
            &&& a.i_dev == dev
            &&& a.i_number == sb.inode[sb.ninode - 1]
            &&& a.i_mode == 0 && a.i_nlink == 0 && a.i_size == 0
            &&& a.i_uid == -1 && a.i_gid == -1 && a.i_lastr == -1
            &&& a.i_addr == no_blocks()
            &&& flag_set(a.i_flag, ILOCK) && a.i_count >= 1
            &&& fs2.lookup(dev) == Some(i)
            &&& flag_set(fs2.sb(i).flag, S_FMOD)
            &&& fs2.sb(i).inode == sb.inode
            &&& fs2.sb(i).ninode == sb.ninode - 1
            &&& fs2.mounts.len() == fs.mounts.len()
            &&& forall|j: int| 0 <= j < fs.mounts.len() && j != i ==> #[trigger] fs2.mounts[j] == fs.mounts[j]
        }),
{
    lemma_first_from(fs.mounts, dev, 0);
    let i = fs.lookup(dev).unwrap();
    let sb = normalized(fs.sb(i));
    let n = sb.ninode - 1;
    let sb1 = SbView { ninode: n as i32, ..sb };
    lemma_with_sb_lookup(fs, i, sb1, dev);
    let fs1 = fs.with_sb(i, sb1);
    assert(i_alloc_outcome(fs, dev).0 == fs1);
    assert(normalized(sb1) == sb1);
    let sb2 = SbView { flag: sb1.flag | S_FMOD, ..sb1 };
    lemma_with_sb_lookup(fs1, i, sb2, dev);
    let f = sb1.flag;
    assert((f | S_FMOD) & S_FMOD == S_FMOD) by (bit_vector);
}

/// Looking a device up twice is looking it up once: the same slot serves
/// it, and the second lookup changes nothing.
pub proof fn law_lookup_idempotent(fs: FsView, dev: DevId)
    ensures
        fs.after_lookup(dev).lookup(dev) == fs.lookup(dev),
        fs.after_lookup(dev).after_lookup(dev) == fs.after_lookup(dev),
{
    lemma_first_from(fs.mounts, dev, 0);
    match fs.lookup(dev) {
        None => {},
        Some(i) => {
            let sb = normalized(fs.sb(i));
            lemma_with_sb_lookup(fs, i, sb, dev);
            let fs1 = fs.after_lookup(dev);
            assert(normalized(sb) == sb);
            assert(fs1.with_sb(i, sb) =~= fs1);
        },
    }
}

/// Locking an unlocked inode nobody waits for and unlocking it again gives
/// back its flags and wakes nobody.
pub proof fn law_lock_then_unlock(f: u32)
    requires
        !flag_set(f, ILOCK),
        !flag_set(f, IWANT),
    ensures
        unlocked(f | ILOCK) == f,
        !wakes(f | ILOCK),
{
    assert(f & 1u32 != 1u32 && f & 16u32 != 16u32 ==> ((f | 1u32) & !1u32) & 16u32 != 16u32) by (bit_vector);
    assert(f & 1u32 != 1u32 ==> (f | 1u32) & !1u32 == f) by (bit_vector);
}

/// Getting a cached, unlocked inode and putting it back, with no one
/// waiting for it and other references left, leaves it as it was.
pub proof fn law_get_then_put(o: Inode)
    requires
        !flag_set(o.i_flag, ILOCK),
        !flag_set(o.i_flag, IWANT),
        0 < o.i_count < i32::MAX,
    ensures
        ({
            let got = Inode { i_count: (o.i_count + 1) as i32, i_flag: o.i_flag | ILOCK, ..o };
            &&& got.i_count - 1 != 0
            &&& (Inode { i_count: (got.i_count - 1) as i32, i_flag: unlocked(got.i_flag), ..got }) == o
            &&& !wakes(got.i_flag)
        }),
{
    law_lock_then_unlock(o.i_flag);
}

/// A truncated file maps no block: every lookup of a block fails, and a
/// direct block would have to be allocated anew.
pub proof fn law_truncated_maps_nothing(o: Inode, lbn: u32)
    ensures
        bmap_result(trunc_inode(o), lbn) is Err,
        lbn < 6 ==> bmap_allocates(trunc_inode(o), lbn),
{
    if lbn < 6 {
        assert(trunc_inode(o).i_addr[lbn as int] == PhysicalBlock(0));
    }
}

/// A write never shrinks a file.
pub proof fn law_write_never_shrinks(o: Inode, m_count: usize, m_offset: usize)
    requires
        write_i_maps(o, m_count, m_offset),
    ensures
        written_size(o, m_count, m_offset) >= o.i_size,
{
}

proof fn lemma_scan_free_in(dir: Seq<u8>, stop: int, j: int)
    requires
        0 <= j,
    ensures
        scan_free(dir, stop, j) matches Some(f) ==> j <= f < stop && ent_ino(dir, f) == 0
            && forall|m: int| j <= m < f ==> #[trigger] ent_ino(dir, m) != 0,
    decreases stop - j,
{
    if j < stop && ent_ino(dir, j) != 0 {
        lemma_scan_free_in(dir, stop, j + 1);
    }
}

/// Creating a name a directory lacks reuses its first free entry: the
/// entry chosen is free and every entry before it is in use.
pub proof fn law_create_reuses_first_free_entry(dir: Seq<u8>, i_size: u32, name: Seq<u8>)
    requires
        scan_match(dir, dir_entries(i_size), name, 0) is None,
        scan_free(dir, dir_entries(i_size), 0) is Some,
    ensures
        ({
            let f = scan_free(dir, dir_entries(i_size), 0).unwrap();
            &&& 0 <= f < dir_entries(i_size)
            &&& ent_ino(dir, f) == 0
            &&& forall|m: int| 0 <= m < f ==> #[trigger] ent_ino(dir, m) != 0
        }),
{
    lemma_scan_free_in(dir, dir_entries(i_size), 0);
}

/// A path component the walk names (it starts past the slashes) is not
/// empty and holds no slash.
pub proof fn law_component_is_a_name(path: Seq<u8>, pos: int)
    requires
        0 <= pos < path.len(),
        path[pos] != 47,
    ensures
        comp_end(path, pos) > pos,
        forall|m: int| pos <= m < comp_end(path, pos) ==> #[trigger] path[m] != 47,
{
    lemma_comp_end(path, pos);
    lemma_comp_end(path, pos + 1);
}

/// The walk starts where the path's components start: past the leading
/// slashes, at the end or at a byte that is not a slash.
pub proof fn law_walk_starts_at_a_component(path: Seq<u8>)
    ensures
        0 <= skip_slashes(path, 0) <= path.len(),
        skip_slashes(path, skip_slashes(path, 0)) == skip_slashes(path, 0),
{
    lemma_skip_slashes(path, 0);
}

/// The path walk follows the path's components in order. At a position
/// where a component starts (the end, or a byte that is not a slash), no
/// component is left exactly at the end; otherwise the component searched
/// is the first one left, the walk moves strictly forward to where the rest
/// starts, and that step is the last one exactly when one component was left.
pub proof fn law_walk_follows_components(path: Seq<u8>, pos: int)
    requires
        0 <= pos <= path.len(),
        skip_slashes(path, pos) == pos,
    ensures
        (components(path, pos).len() == 0) == (pos == path.len()),
        pos < path.len() ==> {
            let end = comp_end(path, pos);
            let next = skip_slashes(path, end);
            &&& components(path, pos)[0] == path.subrange(pos, end)
            &&& components(path, next) == components(path, pos).drop_first()
            &&& pos < next <= path.len()
            &&& skip_slashes(path, next) == next
            &&& (next == path.len()) == (components(path, pos).len() == 1)
        },
{
    if pos < path.len() {
        lemma_skip_slashes(path, pos);
        lemma_comp_end(path, pos);
        lemma_comp_end(path, pos + 1);
        let end = comp_end(path, pos);
        let next = skip_slashes(path, end);
        lemma_skip_slashes(path, end);
        lemma_skip_slashes(path, next);
        let c = components(path, pos);
        assert(c == seq![path.subrange(pos, end)] + components(path, next));
        assert(c.drop_first() =~= components(path, next));
        if next < path.len() {
            assert(components(path, next).len() > 0);
        }
    }
}

/// Every component the walk names is a name: not empty, and without a
/// slash.
pub proof fn law_components_are_names(path: Seq<u8>, pos: int)
    requires
        0 <= pos <= path.len(),
        skip_slashes(path, pos) == pos,
    ensures
        forall|k: int| 0 <= k < components(path, pos).len() ==> {
            &&& (#[trigger] components(path, pos)[k]).len() > 0
            &&& forall|m: int| 0 <= m < components(path, pos)[k].len() ==> components(path, pos)[k][m] != 47
        },
    decreases path.len() - pos,
{
    if pos < path.len() {
        law_walk_follows_components(path, pos);
        lemma_skip_slashes(path, pos);
        lemma_comp_end(path, pos);
        lemma_comp_end(path, pos + 1);
        let end = comp_end(path, pos);
        let next = skip_slashes(path, end);
        law_components_are_names(path, next);
        let c = components(path, pos);
        assert forall|k: int| 0 <= k < c.len() implies {
            &&& (#[trigger] c[k]).len() > 0
            &&& forall|m: int| 0 <= m < c[k].len() ==> c[k][m] != 47
        } by {
            if k > 0 {
                assert(c[k] == components(path, next)[k - 1]);
            } else {
                assert(c[0] == path.subrange(pos, end));
                assert forall|m: int| 0 <= m < c[0].len() implies c[0][m] != 47 by {
                    assert(path[pos + m] != 47);
                }
            }
        }
    }
}

/// A write to a file that is neither a character nor a block device grows
/// it to the end of the write when that end lies past the old size, and
/// leaves the size alone otherwise: the new size is the larger of the two.
/// Device files keep their size, and so does every file on an empty write.
pub proof fn law_write_grows_to_its_end(o: Inode, m_count: usize, m_offset: usize)
    requires
        write_i_maps(o, m_count, m_offset),
    ensures
        m_count > 0 && file_type(o.i_mode) != IFCHR && file_type(o.i_mode) != IFBLK ==> {
            &&& m_offset + m_count <= 3072
            &&& written_size(o, m_count, m_offset) >= o.i_size
            &&& written_size(o, m_count, m_offset) >= m_offset + m_count
            &&& (written_size(o, m_count, m_offset) == o.i_size
                || written_size(o, m_count, m_offset) == m_offset + m_count)
            &&& o.i_size < m_offset + m_count ==> written_size(o, m_count, m_offset) == m_offset + m_count
        },
        m_count == 0 || file_type(o.i_mode) == IFCHR || file_type(o.i_mode) == IFBLK
            ==> written_size(o, m_count, m_offset) == o.i_size,
{
}

/// The disk inode `i_update` plans to write carries the inode's mode, links,
/// owner, size and blocks, the access time exactly when the inode was
/// accessed (0 otherwise) and the modification time exactly when it was
/// modified (0 otherwise), each independently of the other flag. A write is
/// planned only for an inode that was accessed or modified.
pub proof fn law_update_stamps_by_flag(ino: Inode, fs: FsView, time: i32)
    ensures
        i_update_outcome(ino, fs, time).1 is Some ==> ino.i_flag & IUPD == IUPD || ino.i_flag & IACC == IACC,
        i_update_outcome(ino, fs, time).1 matches Some(w) ==> {
            let d = w.d_inode;
            &&& d.d_mode == ino.i_mode && d.d_nlink == ino.i_nlink
            &&& d.d_uid == ino.i_uid && d.d_gid == ino.i_gid
            &&& d.d_size == ino.i_size && d.d_addr == ino.i_addr
            &&& ino.i_flag & IUPD == IUPD ==> d.d_mtime == time
            &&& ino.i_flag & IUPD != IUPD ==> d.d_mtime == 0
            &&& ino.i_flag & IACC == IACC ==> d.d_atime == time
            &&& ino.i_flag & IACC != IACC ==> d.d_atime == 0
        },
{
    let f = ino.i_flag;
    assert(f & (2u32 | 4u32) != 0 ==> f & 2u32 == 2u32 || f & 4u32 == 4u32) by (bit_vector);
}

proof fn lemma_wanted_indices_contains(secs: Seq<SectionHeader>, skip_text: bool, k: int, j: int)
    requires
        0 <= k <= secs.len(),
        secs.len() <= usize::MAX,
        0 <= j < secs.len(),
    ensures
        wanted_indices(secs, skip_text, k).contains(j as usize)
            <==> j < k && crate::loader::wanted_name(stripped(secs[j].name@), skip_text),
    decreases k,
{
    if k > 0 {
        lemma_wanted_indices_contains(secs, skip_text, k - 1, j);
        let prev = wanted_indices(secs, skip_text, k - 1);
        if crate::loader::wanted_name(stripped(secs[k - 1].name@), skip_text) {
            let cur = prev.push((k - 1) as usize);
            assert(cur[cur.len() - 1] == (k - 1) as usize);
            if cur.contains(j as usize) {
                let m = choose|m: int| 0 <= m < cur.len() && cur[m] == j as usize;
                if m < prev.len() {
                    assert(prev[m] == cur[m]);
                }
            }
            if prev.contains(j as usize) {
                let m = choose|m: int| 0 <= m < prev.len() && prev[m] == j as usize;
                assert(cur[m] == prev[m]);
            }
        }
    }
}

/// The loader fills exactly the sections named `.data`, `.rdata`,
/// `.rodata` and `.bss`, and `.text` unless the text is shared: a section is
/// among the wanted ones exactly when its name (up to the first zero byte)
/// is one of these.
pub proof fn law_wanted_sections_by_name(secs: Seq<SectionHeader>, skip_text: bool, j: int)
    requires
        secs.len() <= usize::MAX,
        0 <= j < secs.len(),
    ensures
        wanted_indices(secs, skip_text, secs.len() as int).contains(j as usize) <==> {
            let n = stripped(secs[j].name@);
            ||| !skip_text && n == seq![46u8, 116u8, 101u8, 120u8, 116u8]
            ||| n == seq![46u8, 100u8, 97u8, 116u8, 97u8]
            ||| n == seq![46u8, 114u8, 100u8, 97u8, 116u8, 97u8]
            ||| n == seq![46u8, 114u8, 111u8, 100u8, 97u8, 116u8, 97u8]
            ||| n == seq![46u8, 98u8, 115u8, 115u8]
        },
{
    lemma_wanted_indices_contains(secs, skip_text, secs.len() as int, j);
}

/// An open-file entry handed out by `f_alloc` starts afresh, whatever it
/// held before: one reference, position 0, no flags, no inode.
pub proof fn law_f_alloc_entry_is_fresh(f: File)
    ensures
        fresh_file(f).f_count == 1,
        fresh_file(f).f_offset == 0,
        fresh_file(f).f_flag == 0,
        fresh_file(f).f_inode is None,
{
}

/// After a search that ends in creating a name, the searched directory is
/// recorded as the parent of what is created, whether or not the directory
/// grows; other outcomes leave the recorded parent alone. The transfer
/// position and count are those of the search.
pub proof fn law_create_records_parent(u: Userspace, dir: usize, name: [u8; 28], reply: SearchReply)
    ensures
        reply.result matches Ok(SearchAction::Create { .. }) ==> recorded(u, dir, name, reply).cwd_parent == Some(dir),
        !(reply.result matches Ok(SearchAction::Create { .. })) ==> recorded(u, dir, name, reply).cwd_parent == u.cwd_parent,
        recorded(u, dir, name, reply).ioparam.m_offset == reply.m_offset,
        recorded(u, dir, name, reply).ioparam.m_count == reply.m_count,
        recorded(u, dir, name, reply).cwd_name == name,
        reply.dentry matches Some(e) ==> recorded(u, dir, name, reply).dentry == e,
        reply.dentry is None ==> recorded(u, dir, name, reply).dentry == u.dentry,
        grows(reply) <==> (reply.result matches Ok(SearchAction::Create { extends, .. }) && extends),
{
}

/// A read remembers the block that holds the last byte it reads. On a
/// file that is not a device, a read starting inside the file stops at its
/// end; a read starting at or past the end, an empty read and a read of a
/// character device remember what was remembered before.
pub proof fn law_read_remembers_last_block(o: Inode, m_count: usize, m_offset: usize)
    requires
        read_i_returns(o, m_count, m_offset),
    ensures
        m_count > 0 && file_type(o.i_mode) != IFCHR && file_type(o.i_mode) != IFBLK && m_offset < o.i_size ==> {
            let last = if m_offset + m_count < o.i_size { m_offset + m_count - 1 } else { o.i_size - 1 };
            &&& 512 * read_lastr(o, m_count, m_offset) <= last < 512 * read_lastr(o, m_count, m_offset) + 512
        },
        m_count > 0 && file_type(o.i_mode) == IFBLK ==> {
            let last = m_offset + m_count - 1;
            &&& 512 * read_lastr(o, m_count, m_offset) <= last < 512 * read_lastr(o, m_count, m_offset) + 512
        },
        m_count == 0 || file_type(o.i_mode) == IFCHR
            || (file_type(o.i_mode) != IFBLK && o.i_size <= m_offset <= u32::MAX)
            ==> read_lastr(o, m_count, m_offset) == o.i_lastr,
{
}

/// `i_update` plans a disk write exactly for an inode that was accessed or
/// modified and whose device is not mounted read-only; the record goes to
/// the inode's sector of the inode area, at its slot in that sector.
pub proof fn law_update_writes_where_and_when(ino: Inode, fs: FsView, time: i32)
    ensures
        (i_update_outcome(ino, fs, time).1 is Some) <==> {
            &&& ino.i_flag & IUPD == IUPD || ino.i_flag & IACC == IACC
            &&& match fs.lookup(ino.i_dev) {
                Some(i) => !flag_set(fs.sb(i).flag, S_RONLY),
                None => true,
            }
        },
        i_update_outcome(ino, fs, time).1 matches Some(w) ==> {
            &&& w.sector == 514 + (ino.i_number as usize) / 8
            &&& w.offset == ((ino.i_number as usize) % 8) * 64
        },
{
    let f = ino.i_flag;
    assert(f & (2u32 | 4u32) != 0 <==> f & 2u32 == 2u32 || f & 4u32 == 4u32) by (bit_vector);
    lemma_first_from(fs.mounts, ino.i_dev, 0);
    match fs.lookup(ino.i_dev) {
        Some(i) => {
            lemma_with_sb_lookup(fs, i, normalized(fs.sb(i)), ino.i_dev);
            assert(fs.after_lookup(ino.i_dev).sb(i).flag == fs.sb(i).flag);
        },
        None => {},
    }
}

/// The write-back of a super block marks it clean at time 0 and leaves the
/// rest alone; it happens exactly for a super block that is modified, not
/// being refilled and not read-only. Other mount slots stay as they were.
pub proof fn law_write_back_marks_clean(m: MountView)
    ensures
        m.spb matches Some(sb) ==> {
            let do_sync = flag_set(sb.flag, S_FMOD) && !flag_set(sb.flag, S_ILOCK) && !flag_set(sb.flag, S_FLOCK)
                && !flag_set(sb.flag, S_RONLY);
            &&& do_sync ==> synced_mount(m).spb == Some(SbView { flag: sb.flag & !S_FMOD, time: 0, ..sb })
            &&& do_sync ==> !flag_set(synced_mount(m).spb.unwrap().flag, S_FMOD)
            &&& !do_sync ==> synced_mount(m) == m
            &&& synced_mount(m).dev == m.dev && synced_mount(m).inode == m.inode
        },
        m.spb is None ==> synced_mount(m) == m,
{
    if let Some(sb) = m.spb {
        let f = sb.flag;
        assert((f & !4u32) & 4u32 != 4u32) by (bit_vector);
    }
}

proof fn lemma_wanted_indices_sorted(secs: Seq<SectionHeader>, skip_text: bool, k: int)
    requires
        0 <= k <= secs.len(),
        secs.len() <= usize::MAX,
    ensures
        forall|a: int| 0 <= a < wanted_indices(secs, skip_text, k).len() ==> #[trigger] wanted_indices(secs, skip_text, k)[a] < k,
        forall|a: int, b: int| 0 <= a < b < wanted_indices(secs, skip_text, k).len()
            ==> wanted_indices(secs, skip_text, k)[a] < wanted_indices(secs, skip_text, k)[b],
    decreases k,
{
    if k > 0 {
        lemma_wanted_indices_sorted(secs, skip_text, k - 1);
        let prev = wanted_indices(secs, skip_text, k - 1);
        let cur = wanted_indices(secs, skip_text, k);
        if crate::loader::wanted_name(stripped(secs[k - 1].name@), skip_text) {
            assert(cur == prev.push((k - 1) as usize));
            assert forall|a: int| 0 <= a < cur.len() implies #[trigger] cur[a] < k by {
                if a < prev.len() {
                    assert(cur[a] == prev[a]);
                }
            }
            assert forall|a: int, b: int| 0 <= a < b < cur.len() implies cur[a] < cur[b] by {
                assert(cur[a] == prev[a]);
                if b < prev.len() {
                    assert(cur[b] == prev[b]);
                }
            }
        } else {
            assert(cur == prev);
        }
    }
}

/// The wanted sections come in the order of their headers, each once.
pub proof fn law_wanted_sections_in_order(secs: Seq<SectionHeader>, skip_text: bool)
    requires
        secs.len() <= usize::MAX,
    ensures
        forall|a: int, b: int| 0 <= a < b < wanted_indices(secs, skip_text, secs.len() as int).len()
            ==> wanted_indices(secs, skip_text, secs.len() as int)[a] < wanted_indices(secs, skip_text, secs.len() as int)[b],
        forall|a: int| 0 <= a < wanted_indices(secs, skip_text, secs.len() as int).len()
            ==> #[trigger] wanted_indices(secs, skip_text, secs.len() as int)[a] < secs.len(),
{
    lemma_wanted_indices_sorted(secs, skip_text, secs.len() as int);
}

/// A section's name is the bytes of its header's name field before the
/// first zero byte: it holds no zero, and it is followed by a zero or is the
/// whole field.
pub proof fn law_section_name_stops_at_zero(s: Seq<u8>)
    ensures
        stripped(s).len() <= s.len(),
        stripped(s) == s.take(stripped(s).len() as int),
        forall|m: int| 0 <= m < stripped(s).len() ==> #[trigger] stripped(s)[m] != 0,
        stripped(s).len() < s.len() ==> s[stripped(s).len() as int] == 0,
{
    crate::fs::file_manager::lemma_first_nul(s, 0);
    match first_nul(s, 0) {
        Some(j) => {
            assert(stripped(s) == s.take(j));
        },
        None => {
            assert(s.take(s.len() as int) =~= s);
        },
    }
}

proof fn lemma_first_free_fd_least(s: Seq<Option<usize>>, k: int)
    requires
        0 <= k,
    ensures
        first_free_fd(s, k) matches Some(j) ==> k <= j < s.len() && s[j] is None
            && forall|m: int| k <= m < j ==> #[trigger] s[m] is Some,
        first_free_fd(s, k) is None ==> forall|m: int| k <= m < s.len() ==> #[trigger] s[m] is Some,
    decreases s.len() - k,
{
    if k < s.len() && s[k] is Some {
        lemma_first_free_fd_least(s, k + 1);
    }
}

proof fn lemma_first_unused_file_least(s: Seq<File>, k: int)
    requires
        0 <= k,
    ensures
        first_unused_file(s, k) matches Some(j) ==> k <= j < s.len() && s[j].f_count == 0
            && forall|m: int| k <= m < j ==> #[trigger] s[m].f_count != 0,
        first_unused_file(s, k) is None ==> forall|m: int| k <= m < s.len() ==> #[trigger] s[m].f_count != 0,
    decreases s.len() - k,
{
    if k < s.len() && s[k].f_count != 0 {
        lemma_first_unused_file_least(s, k + 1);
    }
}

/// `f_alloc` takes the lowest free descriptor and the lowest unused
/// open-file entry; it runs out only when every descriptor, or every entry,
/// is in use.
pub proof fn law_f_alloc_takes_lowest_free(fds: Seq<Option<usize>>, files: Seq<File>)
    ensures
        first_free_fd(fds, 0) matches Some(d) ==> 0 <= d < fds.len() && fds[d] is None
            && forall|m: int| 0 <= m < d ==> #[trigger] fds[m] is Some,
        first_free_fd(fds, 0) is None ==> forall|m: int| 0 <= m < fds.len() ==> #[trigger] fds[m] is Some,
        first_unused_file(files, 0) matches Some(k) ==> 0 <= k < files.len() && files[k].f_count == 0
            && forall|m: int| 0 <= m < k ==> #[trigger] files[m].f_count != 0,
        first_unused_file(files, 0) is None ==> forall|m: int| 0 <= m < files.len() ==> #[trigger] files[m].f_count != 0,
{
    lemma_first_free_fd_least(fds, 0);
    lemma_first_unused_file_least(files, 0);
}

} // verus!
