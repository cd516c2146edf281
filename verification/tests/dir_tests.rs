use v6kernel::constants::PosixError;
use v6kernel::fs::file_manager::{search, DirSearchMode, DirectoryEntry, FileManager, FindStep, SearchAction};
use v6kernel::fs::inode::{IFDIR, IFMT, IUPD};
use v6kernel::fs::open_file_manager::InodeTable;
use v6kernel::user::{Process, ProcessState, Userspace};

fn process() -> Process {
    Process {
        uid: 0,
        pid: 1,
        ppid: 0,
        addr: 0,
        size: 0,
        textp: None,
        stat: ProcessState::SRUN,
        flag: 0,
        pri: 0,
        cpu: 0,
        nice: 0,
        time: 0,
        wchan: 0,
        sig: 0,
        tty: None,
        sigmap: 0,
    }
}

fn name28(s: &str) -> [u8; 28] {
    let mut n = [0u8; 28];
    n[..s.len()].copy_from_slice(s.as_bytes());
    n
}

fn dir(entries: &[(i32, &str)]) -> Vec<u8> {
    let mut v = Vec::new();
    for (ino, name) in entries {
        v.extend_from_slice(&ino.to_le_bytes());
        let mut n = [0u8; 28];
        n[..name.len()].copy_from_slice(name.as_bytes());
        v.extend_from_slice(&n);
    }
    v
}

#[test]
fn entry_name_stops_at_zero() {
    let mut e = DirectoryEntry::new();
    assert_eq!(e.name(), &[] as &[u8]);
    e.m_name[..3].copy_from_slice(b"bin");
    assert_eq!(e.name(), b"bin");
    assert_eq!(e.m_ino, 0);
}

#[test]
fn search_finds_entry() {
    let d = dir(&[(1, "."), (1, ".."), (0, "old"), (7, "etc"), (9, "bin")]);
    let r = search(&d, d.len() as u32, b"etc", false, false, false);
    assert_eq!(r.result, Ok(SearchAction::Open { ino: 7 }));
    assert_eq!(r.m_offset, 96);
    assert_eq!(r.m_count, 2);
    assert_eq!(r.dentry.unwrap().m_ino, 7);
}

#[test]
fn search_skips_free_entries_with_same_name() {
    let d = dir(&[(0, "etc"), (7, "etc")]);
    let r = search(&d, d.len() as u32, b"etc", false, false, false);
    assert_eq!(r.result, Ok(SearchAction::Open { ino: 7 }));
    assert_eq!(r.m_offset, 32);
}

#[test]
fn search_remove_needs_write() {
    let d = dir(&[(1, "."), (7, "etc")]);
    let r = search(&d, d.len() as u32, b"etc", false, true, false);
    assert_eq!(r.result, Err(PosixError::EACCES));
    let r = search(&d, d.len() as u32, b"etc", false, true, true);
    assert_eq!(r.result, Ok(SearchAction::Remove));
    assert_eq!(r.m_offset, 32);
    assert_eq!(r.m_count, 1);
}

#[test]
fn search_missing_name() {
    let d = dir(&[(1, "."), (0, ""), (7, "etc"), (0, "")]);
    let r = search(&d, d.len() as u32, b"usr", false, false, true);
    assert_eq!(r.result, Err(PosixError::ENOENT));
    assert_eq!(r.m_count, 0);
    assert_eq!(r.m_offset, 128);
    assert!(r.dentry.is_none());
    let r = search(&d, d.len() as u32, b"usr", true, false, false);
    assert_eq!(r.result, Err(PosixError::EACCES));
    let r = search(&d, d.len() as u32, b"usr", true, false, true);
    assert_eq!(r.result, Ok(SearchAction::Create { offset: 32, extends: false }));
    assert_eq!(r.m_offset, 32);
}

#[test]
fn search_create_at_end() {
    let d = dir(&[(1, "."), (2, "..")]);
    let r = search(&d, d.len() as u32, b"new", true, false, true);
    assert_eq!(r.result, Ok(SearchAction::Create { offset: 64, extends: true }));
    let r = search(&[], 0, b"new", true, false, true);
    assert_eq!(r.result, Ok(SearchAction::Create { offset: 0, extends: true }));
}

#[test]
fn find_start_absolute_and_relative() {
    let fm = FileManager::new(1);
    assert_eq!(fm.find_start(b"//usr/bin", 9), (1, 2));
    assert_eq!(fm.find_start(b"usr", 9), (9, 0));
    assert_eq!(fm.find_start(b"", 9), (9, 0));
}

#[test]
fn find_step_moves() {
    let path = b"usr//bin";
    match FileManager::find_step(path, 0, DirSearchMode::Create, IFDIR, true, false) {
        FindStep::Search { name, len, next, create, remove } => {
            assert_eq!(&name[..len], b"usr");
            assert!(name[len..].iter().all(|&b| b == 0));
            assert_eq!(next, 5);
            assert!(!create && !remove);
        }
        _ => panic!("expected a search"),
    }
    match FileManager::find_step(path, 5, DirSearchMode::Create, IFDIR, true, false) {
        FindStep::Search { len, next, create, .. } => {
            assert_eq!(len, 3);
            assert_eq!(next, 8);
            assert!(create);
        }
        _ => panic!("expected a search"),
    }
    assert!(matches!(FileManager::find_step(path, 8, DirSearchMode::Open, IFDIR, true, false), FindStep::Done));
    assert!(matches!(FileManager::find_step(path, 0, DirSearchMode::Open, IFDIR, true, true), FindStep::Done));
    assert!(matches!(FileManager::find_step(path, 0, DirSearchMode::Open, 0x8000, true, false), FindStep::NotDir));
    assert!(matches!(FileManager::find_step(path, 0, DirSearchMode::Open, IFDIR & IFMT, false, false), FindStep::NoAccess));
    match FileManager::find_step(b"a/", 0, DirSearchMode::Delete, IFDIR, true, false) {
        FindStep::Search { remove, next, .. } => {
            assert!(remove);
            assert_eq!(next, 2);
        }
        _ => panic!("expected a search"),
    }
}

#[test]
fn walk_visits_components_in_order() {
    let fm = FileManager::new(1);
    let path = b"//usr//local/bin/";
    let (_, mut pos) = fm.find_start(path, 9);
    let mut seen: Vec<Vec<u8>> = Vec::new();
    loop {
        match FileManager::find_step(path, pos, DirSearchMode::Open, IFDIR, true, false) {
            FindStep::Search { name, len, next, .. } => {
                assert!(next > pos);
                seen.push(name[..len].to_vec());
                pos = next;
            }
            FindStep::Done => break,
            _ => panic!("unexpected step"),
        }
    }
    assert_eq!(seen, vec![b"usr".to_vec(), b"local".to_vec(), b"bin".to_vec()]);
    assert_eq!(pos, path.len());
}

#[test]
fn record_search_of_a_create_in_a_growing_directory() {
    let d = dir(&[(1, "."), (1, "..")]);
    let r = search(&d, d.len() as u32, b"new", true, false, true);
    assert_eq!(r.result, Ok(SearchAction::Create { offset: 64, extends: true }));
    let mut u = Userspace::init(process());
    let mut t = InodeTable::new();
    FileManager::record_search(&mut u, &mut t, 5, name28("new"), &r);
    assert_eq!(u.cwd_parent, Some(5));
    assert_eq!(&u.cwd_name[..3], b"new");
    assert_eq!(u.ioparam.m_offset, 64);
    assert_eq!(u.ioparam.m_count, 0);
    assert_eq!(t.m_inode[5].i_flag, IUPD);
    assert_eq!(t.m_inode[4].i_flag, 0);
}

#[test]
fn record_search_of_a_found_entry() {
    let d = dir(&[(1, "."), (0, "x"), (7, "etc")]);
    let r = search(&d, d.len() as u32, b"etc", false, false, false);
    let mut u = Userspace::init(process());
    let mut t = InodeTable::new();
    FileManager::record_search(&mut u, &mut t, 2, name28("etc"), &r);
    assert_eq!(u.dentry.m_ino, 7);
    assert_eq!(u.cwd_parent, None);
    assert_eq!(u.ioparam.m_offset, 64);
    assert_eq!(u.ioparam.m_count, 1);
    assert_eq!(t.m_inode[2].i_flag, 0);
}
