use v6kernel::dev::buffer::{DevId, ROOTDEV};
use v6kernel::fs::file_system::{
    CppMount, CppSuperBlock, FileSystem, FileSystemError, Mount, SuperBlock, S_FLOCK, S_FMOD, S_ILOCK, S_RONLY,
};

fn fs_with(sb: SuperBlock) -> FileSystem {
    let mut fs = FileSystem::new();
    fs.m_mount[0] = Mount { m_dev: DevId(0), m_spb: Some(sb), m_inode: None };
    fs
}

fn sb_of(fs: &FileSystem, i: usize) -> SuperBlock {
    fs.m_mount[i].m_spb.unwrap()
}

#[test]
fn mount_validity() {
    let m = Mount::new();
    assert!(!m.is_valid());
    let m = Mount { m_dev: DevId(0), m_spb: Some(SuperBlock::new()), m_inode: None };
    assert!(m.is_valid());
    let m = Mount { m_dev: DevId(-1), m_spb: Some(SuperBlock::new()), m_inode: None };
    assert!(!m.is_valid());
}

#[test]
fn get_fs_finds_first_serving_slot() {
    let mut fs = FileSystem::new();
    assert_eq!(fs.get_fs(DevId(0)), Err(FileSystemError::NoSuchFileSystem));
    fs.m_mount[1] = Mount { m_dev: DevId(3), m_spb: None, m_inode: None };
    fs.m_mount[2] = Mount { m_dev: DevId(3), m_spb: Some(SuperBlock::new()), m_inode: None };
    fs.m_mount[4] = Mount { m_dev: DevId(3), m_spb: Some(SuperBlock::new()), m_inode: None };
    assert_eq!(fs.get_fs(DevId(3)), Ok(2));
}

#[test]
fn get_fs_resets_damaged_counts() {
    let mut sb = SuperBlock::new();
    sb.s_nfree = 150;
    sb.s_ninode = 7;
    let mut fs = fs_with(sb);
    assert_eq!(fs.get_fs(DevId(0)), Ok(0));
    assert_eq!(sb_of(&fs, 0).s_nfree, 0);
    assert_eq!(sb_of(&fs, 0).s_ninode, 0);
    // a second lookup changes nothing (law: lookup is idempotent)
    assert_eq!(fs.get_fs(DevId(0)), Ok(0));
    assert_eq!(sb_of(&fs, 0).s_nfree, 0);
}

#[test]
fn alloc_block_errors() {
    let mut fs = FileSystem::new();
    assert!(matches!(fs.alloc_block(DevId(0)), Err(FileSystemError::NoSuchFileSystem)));

    let mut fs = fs_with(SuperBlock::new());
    assert!(matches!(fs.alloc_block(DevId(0)), Err(FileSystemError::NoSpace)));

    let mut sb = SuperBlock::new();
    sb.s_nfree = 2;
    sb.s_free[0] = 40;
    sb.s_free[1] = 0;
    let mut fs = fs_with(sb);
    assert!(matches!(fs.alloc_block(DevId(0)), Err(FileSystemError::NoSpace)));
    assert_eq!(sb_of(&fs, 0).s_nfree, 0);
}

#[test]
fn alloc_block_takes_top_of_cache() {
    let mut sb = SuperBlock::new();
    sb.s_nfree = 2;
    sb.s_free[0] = 40;
    sb.s_free[1] = 41;
    let mut fs = fs_with(sb);
    assert!(matches!(fs.alloc_block(DevId(0)), Err(FileSystemError::BufferUnavailable)));
    let sb = sb_of(&fs, 0);
    assert_eq!(sb.s_nfree, 1);
    assert_eq!(sb.s_flag & S_FMOD, S_FMOD);
    assert!(matches!(fs.alloc_block(DevId(0)), Err(FileSystemError::BufferUnavailable)));
    assert_eq!(sb_of(&fs, 0).s_nfree, 0);
    assert_eq!(sb_of(&fs, 0).s_flag & S_FLOCK, 0);
}

#[test]
fn free_pushes_block() {
    let mut sb = SuperBlock::new();
    sb.s_nfree = 3;
    let mut fs = fs_with(sb);
    assert_eq!(fs.free(DevId(0), 77), Ok(()));
    let sb = sb_of(&fs, 0);
    assert_eq!(sb.s_nfree, 4);
    assert_eq!(sb.s_free[3], 77);
    assert_eq!(sb.s_flag & S_FMOD, S_FMOD);
    assert_eq!(fs.free(DevId(9), 1), Err(FileSystemError::NoSuchFileSystem));
}

#[test]
fn free_into_empty_cache_keeps_sentinel() {
    let mut sb = SuperBlock::new();
    sb.s_nfree = -3;
    sb.s_free[0] = 55;
    let mut fs = fs_with(sb);
    assert_eq!(fs.free(DevId(0), 12), Ok(()));
    let sb = sb_of(&fs, 0);
    assert_eq!(sb.s_nfree, 2);
    assert_eq!(sb.s_free[0], 0);
    assert_eq!(sb.s_free[1], 12);
}

#[test]
fn free_into_full_cache_starts_over() {
    let mut sb = SuperBlock::new();
    sb.s_nfree = 100;
    let mut fs = fs_with(sb);
    assert_eq!(fs.free(DevId(0), 12), Ok(()));
    let sb = sb_of(&fs, 0);
    assert_eq!(sb.s_nfree, 1);
    assert_eq!(sb.s_free[0], 12);
    assert_eq!(sb.s_flag & S_FLOCK, 0);
}

#[test]
fn free_then_alloc_takes_back() {
    let mut sb = SuperBlock::new();
    sb.s_nfree = 5;
    for i in 0..5 {
        sb.s_free[i] = 100 + i as i32;
    }
    let mut fs = fs_with(sb);
    fs.free(DevId(0), 321).unwrap();
    assert_eq!(sb_of(&fs, 0).s_free[5], 321);
    assert!(matches!(fs.alloc_block(DevId(0)), Err(FileSystemError::BufferUnavailable)));
    assert_eq!(sb_of(&fs, 0).s_nfree, 5);
}

#[test]
fn i_free_and_i_alloc_are_a_stack() {
    let mut sb = SuperBlock::new();
    sb.s_ninode = 2;
    sb.s_inode[0] = 10;
    sb.s_inode[1] = 11;
    let mut fs = fs_with(sb);
    assert_eq!(fs.i_free(DevId(0), 42), Ok(()));
    assert_eq!(sb_of(&fs, 0).s_ninode, 3);
    assert_eq!(fs.i_alloc(DevId(0)), Ok(42));
    assert_eq!(fs.i_alloc(DevId(0)), Ok(11));
    assert_eq!(fs.i_alloc(DevId(0)), Ok(10));
    assert_eq!(fs.i_alloc(DevId(0)), Err(FileSystemError::NoSpace));
    assert_eq!(sb_of(&fs, 0).s_flag & S_ILOCK, 0);
    assert_eq!(fs.i_alloc(DevId(5)), Err(FileSystemError::NoSuchFileSystem));
}

#[test]
fn i_free_keeps_locked_or_full_cache() {
    let mut sb = SuperBlock::new();
    sb.s_flag = S_ILOCK;
    sb.s_ninode = 1;
    let mut fs = fs_with(sb);
    assert_eq!(fs.i_free(DevId(0), 9), Ok(()));
    assert_eq!(sb_of(&fs, 0).s_ninode, 1);

    let mut sb = SuperBlock::new();
    sb.s_ninode = 100;
    let mut fs = fs_with(sb);
    assert_eq!(fs.i_free(DevId(0), 9), Ok(()));
    assert_eq!(sb_of(&fs, 0).s_ninode, 100);
}

#[test]
fn superblock_flags() {
    let mut sb = SuperBlock::new();
    assert!(!sb.is_readonly() && !sb.is_modified() && !sb.is_flock() && !sb.is_ilock());
    sb.s_flag = S_RONLY | S_FMOD;
    assert!(sb.is_readonly() && sb.is_modified());
    sb.s_flag = S_FLOCK | S_ILOCK;
    assert!(sb.is_flock() && sb.is_ilock());
}

fn image() -> Vec<u8> {
    let mut bytes = vec![0u8; 1024];
    let mut put = |k: usize, v: i32| {
        bytes[4 * k..4 * k + 4].copy_from_slice(&v.to_le_bytes());
    };
    put(0, 510);
    put(1, 30000);
    put(2, 3);
    put(3, 901);
    put(4, 902);
    put(5, 903);
    put(103, 1);
    put(104, 17);
    put(204, 1);
    put(205, 1);
    put(206, 1);
    put(207, 1);
    put(208, 12345);
    bytes
}

#[test]
fn cpp_super_block_decodes_words() {
    let c = CppSuperBlock::from_bytes(&image());
    assert_eq!(c.s_isize, 510);
    assert_eq!(c.s_fsize, 30000);
    assert_eq!(c.s_nfree, 3);
    assert_eq!(c.s_free[2], 903);
    assert_eq!(c.s_ninode, 1);
    assert_eq!(c.s_inode[0], 17);
    assert_eq!(c.s_ronly, 1);
    assert_eq!(c.s_time, 12345);
}

#[test]
fn from_cpp_keeps_only_modified() {
    let c = CppSuperBlock::from_bytes(&image());
    let sb = SuperBlock::from_cpp(&c, 99);
    assert_eq!(sb.s_flag, S_FMOD);
    assert_eq!(sb.s_time, 99);
    assert_eq!(sb.s_free[0], 901);
}

#[test]
fn load_super_block_installs_root() {
    let mut fs = FileSystem::new();
    assert_eq!(fs.load_super_block(None, 5), Err(FileSystemError::LoadSuperBlockFailed));
    assert!(fs.m_mount[0].m_spb.is_none());
    let img = image();
    assert_eq!(fs.load_super_block(Some(&img), 5), Ok(()));
    assert_eq!(fs.m_mount[0].m_dev, DevId(ROOTDEV));
    let sb = sb_of(&fs, 0);
    assert_eq!(sb.s_nfree, 3);
    assert_eq!(sb.s_time, 5);
    assert_eq!(fs.get_fs(DevId(ROOTDEV)), Ok(0));
}

#[test]
fn load_cpp_super_block_clears_lock_words() {
    let mut fs = FileSystem::new();
    let mut m = CppMount { m_dev: -1, m_spb: None, m_inodep: None };
    assert!(!fs.load_cpp_super_block(&mut m, None, 3));
    assert_eq!(m.m_dev, -1);
    let img = image();
    assert!(fs.load_cpp_super_block(&mut m, Some(&img), 3));
    assert_eq!(m.m_dev, ROOTDEV);
    let c = m.m_spb.unwrap();
    assert_eq!((c.s_flock, c.s_ilock, c.s_ronly, c.s_fmod), (0, 0, 0, 1));
    assert_eq!(c.s_time, 3);
    assert_eq!(c.s_free[1], 902);
    assert_eq!(sb_of(&fs, 0).s_flag, S_FMOD);
}
