use v6kernel::dev::buffer::{Buf, Buffer, PhysicalBlock, B_ASYNC, B_BUSY, B_DELWRI, B_DONE, B_ERROR};

#[test]
fn physical_block_zero_is_none() {
    assert_eq!(PhysicalBlock::new(0), None);
    assert_eq!(PhysicalBlock::new(7), Some(PhysicalBlock(7)));
}

#[test]
fn new_buf_is_empty() {
    let b = Buf::new();
    assert_eq!(b.b_flags, 0);
    assert_eq!(b.b_dev, -1);
    assert_eq!(b.b_wcount, 0);
    assert!(b.b_addr.is_empty());
    assert_eq!(b.b_blkno, PhysicalBlock(0));
    assert!(!b.is_busy() && !b.is_done() && !b.has_error() && !b.is_async() && !b.is_delwri());
    assert!(!b.is_on_device_list());
    assert!(!b.is_on_free_list());
}

#[test]
fn buf_flag_predicates() {
    let mut b = Buf::new();
    b.b_flags = B_BUSY | B_DONE | B_DELWRI;
    assert!(b.is_busy());
    assert!(b.is_done());
    assert!(b.is_delwri());
    assert!(!b.has_error());
    assert!(!b.is_async());
    b.b_flags = B_ERROR | B_ASYNC;
    assert!(b.has_error() && b.is_async() && !b.is_busy());
}

#[test]
fn buf_list_links() {
    let mut b = Buf::new();
    b.b_forw = Some(3);
    assert!(!b.is_on_device_list());
    b.b_back = Some(4);
    assert!(b.is_on_device_list());
    b.av_back = Some(1);
    assert!(b.is_on_free_list());
}

#[test]
fn read_table_is_little_endian() {
    let mut b = Buf::new();
    b.b_addr = vec![0u8; 512];
    b.b_addr[0] = 0x78;
    b.b_addr[1] = 0x56;
    b.b_addr[2] = 0x34;
    b.b_addr[3] = 0x12;
    b.b_addr[508] = 0xff;
    b.b_addr[509] = 0xff;
    b.b_addr[510] = 0xff;
    b.b_addr[511] = 0xff;
    let t = b.read_table();
    assert_eq!(t[0], 0x12345678);
    assert_eq!(t[1], 0);
    assert_eq!(t[127], -1);
    assert_eq!(b.as_slice().len(), 512);
}

#[test]
fn buffer_bytes_follow_wcount() {
    let mut b = Buf::new();
    b.b_addr = (0..16u8).collect();
    b.b_wcount = 4;
    b.b_blkno = PhysicalBlock(99);
    let buf = Buffer::new(b);
    assert_eq!(buf.as_bytes(), &[0u8, 1, 2, 3][..]);
    assert_eq!(buf.phyblk(), PhysicalBlock(99));
    let raw = buf.into_raw();
    assert_eq!(raw.b_blkno, PhysicalBlock(99));
    assert_eq!(raw.b_addr.len(), 16);
}

#[test]
fn write_table_reads_back() {
    let mut b = Buf::new();
    b.b_addr = vec![0xAAu8; 520];
    let mut t = [0i32; 128];
    for i in 0..128 {
        t[i] = (i as i32 - 64) * 1_000_003;
    }
    t[5] = i32::MIN;
    t[6] = i32::MAX;
    b.write_table(&t);
    assert_eq!(b.read_table(), t);
    assert_eq!(&b.b_addr[0..4], &(t[0]).to_le_bytes()[..]);
    assert_eq!(&b.b_addr[512..], &[0xAAu8; 8][..]);
}
