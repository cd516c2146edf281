use v6kernel::constants::PosixError;
use v6kernel::dev::buffer::{Buf, Buffer, DevId, PhysicalBlock};
use v6kernel::fs::file::{File, OpenFiles, FPIPE};
use v6kernel::fs::file_system::{FileSystem, Mount, SuperBlock, S_FMOD};
use v6kernel::fs::inode::{IACC, ILOCK, IMOUNT, IREAD, IUPD, IWANT, IWRITE};
use v6kernel::fs::inode::Inode;
use v6kernel::fs::open_file_manager::{IGet, InodeTable, OpenFileTable};

fn root_fs() -> FileSystem {
    let mut fs = FileSystem::new();
    let mut sb = SuperBlock::new();
    sb.s_nfree = 1;
    fs.m_mount[0] = Mount { m_dev: DevId(0), m_spb: Some(sb), m_inode: None };
    fs
}

#[test]
fn i_get_loads_then_finds() {
    let mut t = InodeTable::new();
    assert_eq!(t.get(DevId(0), 17), None);
    assert_eq!(t.i_get(DevId(0), 17), Ok(IGet::Load { slot: 0, sector: 516 }));
    assert_eq!(t.m_inode[0].i_count, 1);
    assert_eq!(t.m_inode[0].i_flag, ILOCK);
    assert_eq!(t.m_inode[0].i_number, 17);
    assert_eq!(t.get(DevId(0), 17), Some(0));
    // locked: the caller must wait
    assert_eq!(t.i_get(DevId(0), 17), Ok(IGet::Busy(0)));
    assert_eq!(t.m_inode[0].i_flag, ILOCK | IWANT);
    let mut fs = root_fs();
    let r = t.i_put(&mut fs, 0, 5);
    // not the last reference? count 1 -> 0 is the last one
    assert!(r.wake);
    assert_eq!(t.m_inode[0].i_number, -1);
    assert_eq!(t.m_inode[0].i_flag, 0);
}

#[test]
fn i_get_then_i_put_restores_inode() {
    let mut t = InodeTable::new();
    t.m_inode[3].i_dev = DevId(0);
    t.m_inode[3].i_number = 8;
    t.m_inode[3].i_count = 2;
    t.m_inode[3].i_nlink = 1;
    t.m_inode[3].i_flag = IACC;
    let before = t.m_inode[3];
    assert_eq!(t.i_get(DevId(0), 8), Ok(IGet::Ready(3)));
    assert_eq!(t.m_inode[3].i_count, 3);
    assert_eq!(t.m_inode[3].i_flag, IACC | ILOCK);
    let mut fs = root_fs();
    let r = t.i_put(&mut fs, 3, 0);
    assert!(!r.wake);
    assert!(r.write.is_none());
    let after = t.m_inode[3];
    assert_eq!(after.i_count, before.i_count);
    assert_eq!(after.i_flag, before.i_flag);
}

#[test]
fn i_get_full_table_is_enfile() {
    let mut t = InodeTable::new();
    for i in 0..100 {
        t.m_inode[i].i_count = 1;
        t.m_inode[i].i_number = 1000 + i as i32;
        t.m_inode[i].i_dev = DevId(0);
    }
    assert_eq!(t.i_get(DevId(0), 5), Err(PosixError::ENFILE));
    assert_eq!(t.alloc_free(DevId(0), 5), None);
}

#[test]
fn load_inode_fills_slot() {
    let mut t = InodeTable::new();
    let step = t.i_get(DevId(0), 9).unwrap();
    let slot = match step {
        IGet::Load { slot, .. } => slot,
        _ => panic!("expected a load"),
    };
    let mut b = Buf::new();
    b.b_addr = vec![0u8; 512];
    b.b_wcount = 512;
    let off = (9 % 8) * 64;
    b.b_addr[off..off + 4].copy_from_slice(&0x8000u32.to_le_bytes());
    b.b_addr[off + 12..off + 16].copy_from_slice(&600u32.to_le_bytes());
    b.b_addr[off + 16..off + 20].copy_from_slice(&31u32.to_le_bytes());
    t.load_inode(slot, Buffer::new(b), 9);
    assert_eq!(t.m_inode[slot].i_mode, 0x8000);
    assert_eq!(t.m_inode[slot].i_size, 600);
    assert_eq!(t.m_inode[slot].i_addr[0], PhysicalBlock(31));
    assert_eq!(t.m_inode[slot].i_number, 9);
}

#[test]
fn i_put_unlinked_file_frees_everything() {
    let mut fs = root_fs();
    let mut sb = fs.m_mount[0].m_spb.unwrap();
    sb.s_ninode = 0;
    fs.m_mount[0].m_spb = Some(sb);
    let mut t = InodeTable::new();
    t.m_inode[0].i_dev = DevId(0);
    t.m_inode[0].i_number = 21;
    t.m_inode[0].i_count = 1;
    t.m_inode[0].i_nlink = 0;
    t.m_inode[0].i_mode = 0x81A4;
    t.m_inode[0].i_size = 700;
    t.m_inode[0].i_addr[0] = PhysicalBlock(60);
    t.m_inode[0].i_addr[1] = PhysicalBlock(61);
    let r = t.i_put(&mut fs, 0, 77);
    let sb = fs.m_mount[0].m_spb.unwrap();
    assert_eq!(sb.s_nfree, 3);
    assert_eq!(sb.s_free[1], 61);
    assert_eq!(sb.s_free[2], 60);
    assert_eq!(sb.s_ninode, 1);
    assert_eq!(sb.s_inode[0], 21);
    assert_eq!(sb.s_flag & S_FMOD, S_FMOD);
    let w = r.write.unwrap();
    assert_eq!(w.d_inode.d_mode, 0);
    assert_eq!(w.d_inode.d_size, 0);
    assert_eq!(w.d_inode.d_mtime, 77);
    assert_eq!(w.sector, 514 + 2);
    assert_eq!(t.m_inode[0].i_number, -1);
    assert_eq!(t.m_inode[0].i_count, 0);
}

#[test]
fn update_inode_table_visits_unlocked_referenced() {
    let mut fs = root_fs();
    let mut t = InodeTable::new();
    t.m_inode[1].i_count = 1;
    t.m_inode[1].i_flag = IUPD;
    t.m_inode[1].i_dev = DevId(0);
    t.m_inode[1].i_number = 3;
    t.m_inode[2].i_count = 1;
    t.m_inode[2].i_flag = ILOCK | IUPD;
    t.m_inode[4].i_count = 2;
    let acts = t.update_inode_table(&mut fs, 9);
    assert_eq!(acts.len(), 2);
    assert_eq!(acts[0].slot, 1);
    assert!(acts[0].write.is_some());
    assert_eq!(acts[1].slot, 4);
    assert!(acts[1].write.is_none());
    assert_eq!(t.m_inode[1].i_flag, IUPD);
    assert_eq!(t.m_inode[2].i_flag, ILOCK | IUPD);
}

#[test]
fn update_syncs_modified_super_blocks() {
    let mut fs = root_fs();
    let mut sb = fs.m_mount[0].m_spb.unwrap();
    sb.s_flag = S_FMOD;
    sb.s_time = 44;
    fs.m_mount[0].m_spb = Some(sb);
    let mut t = InodeTable::new();
    let acts = fs.update(&mut t, 1);
    assert!(acts.is_empty());
    let sb = fs.m_mount[0].m_spb.unwrap();
    assert_eq!(sb.s_flag, 0);
    assert_eq!(sb.s_time, 0);
}

#[test]
fn i_alloc_claims_free_inode() {
    let mut fs = root_fs();
    let mut ino = v6kernel::fs::inode::Inode::new();
    ino.i_mode = 0x8000;
    assert!(!fs.i_alloc_claim(DevId(0), &mut ino));
    assert_eq!(ino.i_mode, 0x8000);
    ino.i_mode = 0;
    ino.i_size = 5;
    assert!(fs.i_alloc_claim(DevId(0), &mut ino));
    assert_eq!(ino.i_size, 0);
    assert_eq!(fs.m_mount[0].m_spb.unwrap().s_flag & S_FMOD, S_FMOD);
}

#[test]
fn get_mount_matches_device_and_number() {
    let mut fs = root_fs();
    let mut t = InodeTable::new();
    t.m_inode[7].i_dev = DevId(0);
    t.m_inode[7].i_number = 40;
    fs.m_mount[2] = Mount { m_dev: DevId(1), m_spb: Some(SuperBlock::new()), m_inode: Some(7) };
    let mut probe = v6kernel::fs::inode::Inode::new();
    probe.i_dev = DevId(0);
    probe.i_number = 40;
    assert_eq!(fs.get_mount(&probe, &t), Some(2));
    probe.i_number = 41;
    assert_eq!(fs.get_mount(&probe, &t), None);
    let _ = IMOUNT;
}

#[test]
fn f_alloc_and_close() {
    let mut ft = OpenFileTable::new();
    let mut ofs = OpenFiles::new();
    assert_eq!(ofs.alloc_free_slot(), Ok(0));
    assert_eq!(ft.f_alloc(&mut ofs), Ok((0, 0)));
    assert_eq!(ofs.ofile[0], Some(0));
    assert_eq!(ft.f_alloc(&mut ofs), Ok((1, 1)));
    assert_eq!(ofs.ofile[1], Some(1));
    assert_eq!(ft.m_file[0].f_count, 1);
    let mut t = InodeTable::new();
    let r = ft.close_f(0, &mut t);
    assert!(r.release);
    assert!(r.pipe_inode.is_none());
    assert_eq!(ft.m_file[0].f_count, 0);
    ofs.ofile[0] = None;
    assert_eq!(ft.f_alloc(&mut ofs), Ok((0, 0)));
    for i in 0..100 {
        ft.m_file[i].f_count = 1;
    }
    ofs.ofile[5] = None;
    let before = ofs.ofile;
    assert_eq!(ft.f_alloc(&mut ofs), Err(PosixError::ENFILE));
    assert_eq!(ofs.ofile, before);
}

#[test]
fn f_alloc_full_descriptor_table() {
    let mut ft = OpenFileTable::new();
    let mut ofs = OpenFiles::new();
    for i in 0..15 {
        ofs.ofile[i] = Some(50);
    }
    assert_eq!(ofs.alloc_free_slot(), Err(PosixError::EMFILE));
    assert_eq!(ft.f_alloc(&mut ofs), Err(PosixError::EMFILE));
    assert_eq!(ft.m_file[0].f_count, 0);
    ofs.set_f(3, 7);
    assert_eq!(ofs.ofile[3], Some(7));
}

#[test]
fn close_pipe_drops_permissions() {
    let mut ft = OpenFileTable::new();
    ft.m_file[2] = File { f_flag: FPIPE, f_count: 2, f_inode: Some(5), f_offset: 0 };
    let mut t = InodeTable::new();
    t.m_inode[5].i_mode = 0x8000 | IREAD | IWRITE | 0x40;
    let r = ft.close_f(2, &mut t);
    assert_eq!(r.pipe_inode, Some(5));
    assert!(!r.release);
    assert_eq!(t.m_inode[5].i_mode, 0x8000 | 0x40);
    assert_eq!(ft.m_file[2].f_count, 1);
}

#[test]
fn i_alloc_gives_top_of_cache_inode() {
    let mut fs = root_fs();
    let mut sb = fs.m_mount[0].m_spb.unwrap();
    sb.s_ninode = 3;
    sb.s_inode[0] = 11;
    sb.s_inode[1] = 12;
    sb.s_inode[2] = 13;
    fs.m_mount[0].m_spb = Some(sb);
    let mut t = InodeTable::new();
    // the candidate on top of the cache is taken
    assert_eq!(fs.i_alloc(DevId(0)), Ok(13));
    // the inode is fetched: not in memory, so a slot is taken and loaded
    let slot = match t.i_get(DevId(0), 13) {
        Ok(IGet::Load { slot, sector }) => {
            assert_eq!(sector, 515);
            slot
        }
        r => panic!("unexpected {:?}", r),
    };
    t.m_inode[slot].i_size = 77;
    t.m_inode[slot].i_nlink = 2;
    // no mode: it is free and is claimed
    assert!(t.claim_free(&mut fs, DevId(0), slot));
    let got = t.m_inode[slot];
    assert_eq!(got.i_number, 13);
    assert_eq!(got.i_dev, DevId(0));
    assert_eq!(got.i_flag & ILOCK, ILOCK);
    assert_eq!(got.i_count, 1);
    assert_eq!(got.i_size, 0);
    assert_eq!(got.i_nlink, 0);
    assert_eq!(got.i_uid, -1);
    assert_eq!(got.i_lastr, -1);
    assert_eq!(got.i_addr, [PhysicalBlock(0); 10]);
    let sb = fs.m_mount[0].m_spb.unwrap();
    assert_eq!(sb.s_flag & S_FMOD, S_FMOD);
    assert_eq!(sb.s_ninode, 2);
    assert_eq!(&sb.s_inode[..3], &[11, 12, 13]);
}

#[test]
fn claim_free_leaves_inode_in_use() {
    let mut fs = root_fs();
    let mut t = InodeTable::new();
    t.m_inode[4].i_mode = 0x8000;
    t.m_inode[4].i_size = 9;
    let before = t.m_inode[4];
    assert!(!t.claim_free(&mut fs, DevId(0), 4));
    assert_eq!(t.m_inode[4].i_size, before.i_size);
    assert_eq!(t.m_inode[4].i_mode, 0x8000);
    assert_eq!(fs.m_mount[0].m_spb.unwrap().s_flag & S_FMOD, 0);
    let _ = Inode::new();
}
