use v6kernel::constants::PosixError;
use v6kernel::loader::{NTHeader, PEParser, SectionHeader};
use v6kernel::user::{MemoryDescriptor, Process, ProcessState, Userspace};

fn process() -> Process {
    Process {
        uid: 0,
        pid: 1,
        ppid: 0,
        addr: 0,
        size: 0,
        textp: None,
        stat: ProcessState::SRUN,
        flag: 0,
        pri: 0,
        cpu: 0,
        nice: 0,
        time: 0,
        wchan: 0,
        sig: 0,
        tty: None,
        sigmap: 0,
    }
}

#[test]
fn init_user_is_root_at_slash() {
    let u = Userspace::init(process());
    assert_eq!(u.getpwd()[0], b'/');
    assert!(u.getpwd()[1..].iter().all(|&b| b == 0));
    assert!(u.error.is_none());
    assert_eq!(u.getuid(), 0);
    let _ = MemoryDescriptor::new();
}

#[test]
fn errors_set_and_clear() {
    let mut u = Userspace::init(process());
    u.set_error(PosixError::ENOENT);
    assert_eq!(u.error, Some(PosixError::ENOENT));
    u.clear_error();
    assert_eq!(u.error, None);
    u.io_param_mut().m_count = 12;
    assert_eq!(u.ioparam.m_count, 12);
}

#[test]
fn setuid_rules() {
    let mut u = Userspace::init(process());
    assert!(u.is_root());
    u.setuid(300, 0);
    assert_eq!(u.uid, 300);
    assert_eq!(u.euid, 300);
    assert_eq!(u.proc.uid, 300);
    assert_eq!(u.getuid(), (300u32 << 16) | (300 & 0xff));
    u.setuid(5, 0);
    assert_eq!(u.error, Some(PosixError::EPERM));
    assert_eq!(u.uid, 300);
    assert!(!u.is_root());
    u.clear_error();
    u.setuid(300, 0);
    assert!(u.error.is_none());
}

#[test]
fn setgid_rules() {
    let mut u = Userspace::init(process());
    u.setgid(20, 0);
    assert_eq!(u.gid, 20);
    assert_eq!(u.getgid(), (20u32 << 16) | 20);
    u.uid = 7;
    u.setgid(21, 0);
    assert_eq!(u.error, Some(PosixError::EPERM));
    assert_eq!(u.gid, 20);
}

fn put32(v: &mut [u8], off: usize, x: u32) {
    v[off..off + 4].copy_from_slice(&x.to_le_bytes());
}

fn nt(count: u16) -> Vec<u8> {
    let mut v = vec![0u8; 248];
    put32(&mut v, 0, 0x4550);
    v[6..8].copy_from_slice(&count.to_le_bytes());
    put32(&mut v, 40, 0x10); // entry
    put32(&mut v, 44, 0x1000); // code base
    put32(&mut v, 48, 0x3000); // data base
    put32(&mut v, 52, 0x400000); // image base
    put32(&mut v, 100, 0x2000); // stack
    put32(&mut v, 108, 0x8000); // heap
    put32(&mut v, 128, 0x5000); // data directory 1
    v
}

fn section(name: &str, vsize: u32, vaddr: u32, raw: u32) -> Vec<u8> {
    let mut v = vec![0u8; 40];
    v[..name.len()].copy_from_slice(name.as_bytes());
    put32(&mut v, 8, vsize);
    put32(&mut v, 12, vaddr);
    put32(&mut v, 20, raw);
    v
}

#[test]
fn load_reads_layout() {
    let mut p = PEParser::new();
    let mut bad = nt(0);
    bad[0] = 0;
    assert!(!p.load(&bad, &[]));
    assert!(p.nt_header.is_none());
    let mut secs = section(".text", 0x1800, 0x1000, 0x400);
    secs.extend(section(".reloc", 0x10, 0x9000, 0x2000));
    secs.extend(section(".data", 0x10, 0x3000, 0x1c00));
    assert!(p.load(&nt(3), &secs));
    assert_eq!(p.text, 0x401000);
    assert_eq!(p.text_len, 0x2000);
    assert_eq!(p.data, 0x403000);
    assert_eq!(p.data_len, 0x2000);
    assert_eq!(p.entry, 0x400010);
    assert_eq!(p.stack_size, 0x2000);
    assert_eq!(p.heap_size, 0x8000);
    assert_eq!(p.wanted_sections(false), vec![0, 2]);
    assert_eq!(p.wanted_sections(true), vec![2]);
    let plan = p.relocation_plan(false);
    assert_eq!(plan.writable, Some((0x401, 0x403)));
    assert_eq!(plan.text_pages, 2);
    assert_eq!(plan.zero, vec![(0x401000, 0x2000), (0x403000, 0x1000)]);
    assert_eq!(plan.copy, vec![(0x401000, 0x1800, 0x400), (0x403000, 0x10, 0x1c00)]);
    let plan = p.relocation_plan(true);
    assert_eq!(plan.writable, None);
    assert_eq!(plan.zero.len(), 1);
}

#[test]
fn header_offsets() {
    let mut dos = vec![0u8; 64];
    put32(&mut dos, 60, 0x80);
    assert_eq!(PEParser::nt_header_offset(&dos), 0x80);
    assert_eq!(PEParser::section_count(&nt(4)), 4);
    let h = NTHeader::from_bytes(&nt(4));
    assert_eq!(h.opt_header.data_dir[1].vaddr, 0x5000);
    let s = SectionHeader::from_bytes(&section(".rodata", 1, 2, 3), 0);
    assert_eq!(s.name_stripped(), b".rodata");
    let s = SectionHeader::from_bytes(&section(".abcdefg", 1, 2, 3), 0);
    assert_eq!(s.name_stripped().len(), 8);
}
