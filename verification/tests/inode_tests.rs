use v6kernel::dev::buffer::{Buf, DevId, LogicalBlock, PhysicalBlock};
use v6kernel::fs::file_system::{FileSystem, FileSystemError, Mount, SuperBlock, S_FMOD, S_RONLY};
use v6kernel::fs::inode::{
    map_fs_alloc_error, BmapError, DeviceCall, DeviceKind, DeviceReply, IndexKind, Inode, OpenError,
    IACC, IFBLK, IFCHR, IFDIR, ILARG, ILOCK, IREAD, IUPD, IWANT, IWRITE, ISUID,
};

fn root_fs(nfree: i32) -> FileSystem {
    let mut sb = SuperBlock::new();
    sb.s_nfree = nfree;
    for i in 0..100 {
        sb.s_free[i] = 500 + i as i32;
    }
    let mut fs = FileSystem::new();
    fs.m_mount[0] = Mount { m_dev: DevId(0), m_spb: Some(sb), m_inode: None };
    fs
}

fn file(addrs: &[u32], size: u32) -> Inode {
    let mut i = Inode::new();
    i.i_dev = DevId(0);
    i.i_number = 9;
    i.i_size = size;
    for (k, a) in addrs.iter().enumerate() {
        i.i_addr[k] = PhysicalBlock(*a);
    }
    i
}

#[test]
fn from_lbn_positions() {
    assert_eq!(IndexKind::from_lbn(0), Ok(IndexKind::Direct { slot: 0 }));
    assert_eq!(IndexKind::from_lbn(5), Ok(IndexKind::Direct { slot: 5 }));
    assert_eq!(IndexKind::from_lbn(6), Ok(IndexKind::Indirect { i_addr_slot: 6, inner: 0 }));
    assert_eq!(IndexKind::from_lbn(133), Ok(IndexKind::Indirect { i_addr_slot: 6, inner: 127 }));
    assert_eq!(IndexKind::from_lbn(134), Ok(IndexKind::Indirect { i_addr_slot: 7, inner: 0 }));
    assert_eq!(IndexKind::from_lbn(261), Ok(IndexKind::Indirect { i_addr_slot: 7, inner: 127 }));
    assert_eq!(IndexKind::from_lbn(262), Ok(IndexKind::DoubleIndirect { i_addr_slot: 8, mid: 0, inner: 0 }));
    assert_eq!(IndexKind::from_lbn(262 + 129), Ok(IndexKind::DoubleIndirect { i_addr_slot: 8, mid: 1, inner: 1 }));
    assert_eq!(IndexKind::from_lbn(262 + 16384), Ok(IndexKind::DoubleIndirect { i_addr_slot: 9, mid: 0, inner: 0 }));
    assert_eq!(IndexKind::from_lbn(33029), Ok(IndexKind::DoubleIndirect { i_addr_slot: 9, mid: 127, inner: 127 }));
    assert_eq!(IndexKind::from_lbn(33030), Err(BmapError::FileTooLarge));
}

#[test]
fn index_positions_are_distinct() {
    // every block below the limit has its own position
    let mut seen = std::collections::HashSet::new();
    for lbn in 0..33030usize {
        let k = IndexKind::from_lbn(lbn).unwrap();
        assert!(seen.insert(format!("{:?}", k)));
    }
}

#[test]
fn alloc_errors_map_to_alloc_failed() {
    assert_eq!(map_fs_alloc_error(FileSystemError::NoSpace), BmapError::AllocFailed);
}

#[test]
fn bmap_direct_block_with_read_ahead() {
    let mut fs = root_fs(3);
    let mut ino = file(&[10, 11, 0, 13, 14, 15], 0);
    let r = ino.bmap(&mut fs, LogicalBlock(0)).unwrap();
    assert_eq!(r.phyblk, PhysicalBlock(10));
    assert_eq!(r.rablock, Some(PhysicalBlock(11)));
    let r = ino.bmap(&mut fs, LogicalBlock(1)).unwrap();
    assert_eq!(r.rablock, None);
    let r = ino.bmap(&mut fs, LogicalBlock(5)).unwrap();
    assert_eq!(r.phyblk, PhysicalBlock(15));
    assert_eq!(r.rablock, None);
    assert_eq!(fs.m_mount[0].m_spb.unwrap().s_nfree, 3);
}

#[test]
fn bmap_failures() {
    let mut fs = root_fs(3);
    let mut ino = file(&[10, 11, 0], 0);
    assert!(matches!(ino.bmap(&mut fs, LogicalBlock(2)), Err(BmapError::AllocFailed)));
    // the allocation took a block from the cache and found no buffer
    assert_eq!(fs.m_mount[0].m_spb.unwrap().s_nfree, 2);
    assert_eq!(ino.i_addr[2], PhysicalBlock(0));
    assert!(matches!(ino.bmap(&mut fs, LogicalBlock(6)), Err(BmapError::AllocFailed)));
    assert!(matches!(ino.bmap(&mut fs, LogicalBlock(300)), Err(BmapError::AllocFailed)));
    assert!(matches!(ino.bmap(&mut fs, LogicalBlock(40000)), Err(BmapError::FileTooLarge)));
    assert_eq!(fs.m_mount[0].m_spb.unwrap().s_nfree, 2);
}

#[test]
fn read_i_marks_access() {
    let mut fs = root_fs(3);
    let mut ino = file(&[10], 100);
    assert!(ino.read_i(&mut fs, 0, 0).is_ok());
    assert_eq!(ino.i_flag, 0);
    assert!(ino.read_i(&mut fs, 10, 100).is_ok());
    assert_eq!(ino.i_flag, IACC);
    assert_eq!(ino.i_lastr, -1);
    let mut dev = file(&[3], 0);
    dev.i_mode = IFCHR;
    assert!(dev.read_i(&mut fs, 10, 0).is_ok());
    assert_eq!(dev.i_flag, IACC);
    assert_eq!(dev.i_lastr, -1);
}

#[test]
fn read_i_walks_blocks_to_end_of_file() {
    let mut fs = root_fs(3);
    let mut ino = file(&[10, 11, 12], 1200);
    // stops at the end of the file, in block 2
    assert!(ino.read_i(&mut fs, 5000, 100).is_ok());
    assert_eq!(ino.i_lastr, 2);
    assert_eq!(ino.i_flag, IACC);
    assert_eq!(ino.i_size, 1200);
    // stops at the end of the read, in block 1
    assert!(ino.read_i(&mut fs, 500, 100).is_ok());
    assert_eq!(ino.i_lastr, 1);
    assert!(ino.read_i(&mut fs, 1, 0).is_ok());
    assert_eq!(ino.i_lastr, 0);
    assert_eq!(fs.m_mount[0].m_spb.unwrap().s_nfree, 3);
}

#[test]
fn read_i_block_device() {
    let mut fs = root_fs(3);
    let mut blk = file(&[3], 0);
    blk.i_mode = IFBLK;
    assert!(blk.read_i(&mut fs, 2000, 1000).is_ok());
    assert_eq!(blk.i_lastr, 5);
    assert_eq!(blk.i_flag, IACC);
}

#[test]
fn write_i_grows_regular_file() {
    let mut fs = root_fs(3);
    let mut ino = file(&[10, 11, 12], 100);
    assert!(ino.write_i(&mut fs, 600, 400).is_ok());
    assert_eq!(ino.i_size, 1000);
    assert_eq!(ino.i_flag, IACC | IUPD);
    // a write inside the file keeps its size (law: writes never shrink)
    assert!(ino.write_i(&mut fs, 10, 0).is_ok());
    assert_eq!(ino.i_size, 1000);
    assert_eq!(fs.m_mount[0].m_spb.unwrap().s_nfree, 3);
}

#[test]
fn write_i_devices_keep_size() {
    let mut fs = root_fs(3);
    let mut blk = file(&[3], 7);
    blk.i_mode = IFBLK;
    assert!(blk.write_i(&mut fs, 5000, 123).is_ok());
    assert_eq!(blk.i_size, 7);
    assert_eq!(blk.i_flag, IACC | IUPD);
    let mut chr = file(&[3], 7);
    chr.i_mode = IFCHR;
    assert!(chr.write_i(&mut fs, 50, 0).is_ok());
    assert_eq!(chr.i_size, 7);
    let mut empty = file(&[], 7);
    assert!(empty.write_i(&mut fs, 0, 9000).is_ok());
    assert_eq!(empty.i_flag, IACC | IUPD);
}

#[test]
fn i_trunc_frees_blocks_last_first() {
    let mut fs = root_fs(2);
    let mut ino = file(&[10, 0, 12, 0, 0, 0, 0, 0, 0, 19], 5000);
    ino.i_mode = ILARG | IREAD | IWRITE | ISUID;
    ino.i_nlink = 3;
    ino.i_trunc(&mut fs);
    for k in 0..10 {
        assert_eq!(ino.i_addr[k], PhysicalBlock(0));
    }
    assert_eq!(ino.i_size, 0);
    assert_eq!(ino.i_nlink, 1);
    assert_eq!(ino.i_mode, ISUID);
    assert_eq!(ino.i_flag & IUPD, IUPD);
    let sb = fs.m_mount[0].m_spb.unwrap();
    assert_eq!(sb.s_nfree, 5);
    assert_eq!(sb.s_free[2], 19);
    assert_eq!(sb.s_free[3], 12);
    assert_eq!(sb.s_free[4], 10);
    // a truncated file maps nothing
    let mut fs2 = root_fs(0);
    assert!(ino.bmap(&mut fs2, LogicalBlock(0)).is_err());
}

#[test]
fn i_trunc_leaves_devices_and_directories() {
    let mut fs = root_fs(2);
    for mode in [IFCHR, IFBLK, IFDIR] {
        let mut ino = file(&[10], 50);
        ino.i_mode = mode;
        ino.i_trunc(&mut fs);
        assert_eq!(ino.i_addr[0], PhysicalBlock(10));
        assert_eq!(ino.i_size, 50);
    }
    assert_eq!(fs.m_mount[0].m_spb.unwrap().s_nfree, 2);
}

#[test]
fn lock_and_unlock() {
    let mut ino = Inode::new();
    assert!(ino.nf_lock());
    assert_eq!(ino.i_flag, ILOCK);
    assert!(!ino.nf_rele());
    assert_eq!(ino.i_flag, 0);
    assert!(ino.plock());
    ino.i_flag |= IWANT;
    assert!(ino.prele());
    assert_eq!(ino.i_flag, 0);
}

#[test]
fn lock_held_marks_waiter() {
    let mut ino = Inode::new();
    assert!(ino.plock());
    assert!(!ino.plock());
    assert_eq!(ino.i_flag, ILOCK | IWANT);
    assert!(!ino.nf_lock());
    assert_eq!(ino.i_flag, ILOCK | IWANT);
    assert!(ino.nf_rele());
    assert_eq!(ino.i_flag, 0);
    assert!(ino.nf_lock());
}

#[test]
fn clean_forgets_the_file() {
    let mut ino = file(&[1, 2, 3], 99);
    ino.i_mode = IFDIR;
    ino.i_nlink = 2;
    ino.i_flag = IUPD;
    ino.i_count = 3;
    ino.clean();
    assert_eq!(ino.i_mode, 0);
    assert_eq!(ino.i_nlink, 0);
    assert_eq!(ino.i_uid, -1);
    assert_eq!(ino.i_gid, -1);
    assert_eq!(ino.i_size, 0);
    assert_eq!(ino.i_lastr, -1);
    assert_eq!(ino.i_addr, [PhysicalBlock(0); 10]);
    assert_eq!(ino.i_flag, IUPD);
    assert_eq!(ino.i_count, 3);
}

#[test]
fn device_open_and_close() {
    let mut chr = file(&[0x0102], 0);
    chr.i_mode = IFCHR;
    assert_eq!(chr.open_request(3), Some(DeviceCall { kind: DeviceKind::Char, dev: 0x0102, mode: 3 }));
    assert_eq!(chr.open_i(3, DeviceReply::Opened), Ok(()));
    assert_eq!(chr.open_i(3, DeviceReply::Missing), Err(OpenError::NoSuchDevice));
    assert_eq!(chr.open_i(3, DeviceReply::Refused), Err(OpenError::NoSuchDevice));
    let mut blk = file(&[7], 0);
    blk.i_mode = IFBLK;
    assert_eq!(blk.open_request(1).unwrap().kind, DeviceKind::Block);
    let reg = file(&[7], 0);
    assert_eq!(reg.open_request(1), None);
    assert_eq!(reg.open_i(1, DeviceReply::Missing), Ok(()));
    chr.i_count = 2;
    assert_eq!(chr.close_i(1), None);
    chr.i_count = 1;
    assert_eq!(chr.close_i(1), Some(DeviceCall { kind: DeviceKind::Char, dev: 0x0102, mode: 1 }));
}

#[test]
fn i_update_plans_write() {
    let mut sb = SuperBlock::new();
    sb.s_nfree = 101;
    let mut fs = FileSystem::new();
    fs.m_mount[0] = Mount { m_dev: DevId(0), m_spb: Some(sb), m_inode: None };
    let mut ino = file(&[4, 5], 77);
    ino.i_number = 19;
    assert!(ino.i_update(&mut fs, 1000).is_none());
    assert_eq!(fs.m_mount[0].m_spb.unwrap().s_nfree, 101);
    ino.i_flag = IUPD;
    let w = ino.i_update(&mut fs, 1000).unwrap();
    assert_eq!(w.sector, 514 + 2);
    assert_eq!(w.offset, 3 * 64);
    assert_eq!(w.d_inode.d_size, 77);
    assert_eq!(w.d_inode.d_mtime, 1000);
    assert_eq!(w.d_inode.d_atime, 0);
    assert_eq!(w.d_inode.d_addr[1], PhysicalBlock(5));
    // the lookup reset the damaged cache counts
    assert_eq!(fs.m_mount[0].m_spb.unwrap().s_nfree, 0);
    let mut ro = fs.m_mount[0].m_spb.unwrap();
    ro.s_flag = S_RONLY;
    fs.m_mount[0].m_spb = Some(ro);
    assert!(ino.i_update(&mut fs, 1000).is_none());
    assert_eq!(fs.m_mount[0].m_spb.unwrap().s_flag & S_FMOD, 0);
}

#[test]
fn i_copy_reads_disk_inode() {
    let mut buf = Buf::new();
    buf.b_addr = vec![0u8; 512];
    let off = 5 * 64;
    buf.b_addr[off..off + 4].copy_from_slice(&0x41FFu32.to_le_bytes());
    buf.b_addr[off + 4..off + 8].copy_from_slice(&2i32.to_le_bytes());
    buf.b_addr[off + 8..off + 10].copy_from_slice(&7i16.to_le_bytes());
    buf.b_addr[off + 10..off + 12].copy_from_slice(&(-2i16).to_le_bytes());
    buf.b_addr[off + 12..off + 16].copy_from_slice(&1234u32.to_le_bytes());
    buf.b_addr[off + 16..off + 20].copy_from_slice(&88u32.to_le_bytes());
    buf.b_addr[off + 52..off + 56].copy_from_slice(&99u32.to_le_bytes());
    let mut ino = Inode::new();
    ino.i_count = 4;
    ino.i_copy(&buf, 13);
    assert_eq!(ino.i_mode, 0x41FF);
    assert_eq!(ino.i_nlink, 2);
    assert_eq!(ino.i_uid, 7);
    assert_eq!(ino.i_gid, -2);
    assert_eq!(ino.i_size, 1234);
    assert_eq!(ino.i_addr[0], PhysicalBlock(88));
    assert_eq!(ino.i_addr[9], PhysicalBlock(99));
    assert_eq!(ino.i_count, 4);
}
