use minifilter_rs::shared_def::{CDriverMsg, CDriverMsgs, IOMessage, ReplyIrp};

const BASE: u64 = 0x7000_0000;

fn put_u16(buf: &mut [u8], at: usize, v: u16) {
    buf[at..at + 2].copy_from_slice(&v.to_le_bytes());
}

fn put_u32(buf: &mut [u8], at: usize, v: u32) {
    buf[at..at + 4].copy_from_slice(&v.to_le_bytes());
}

fn put_u64(buf: &mut [u8], at: usize, v: u64) {
    buf[at..at + 8].copy_from_slice(&v.to_le_bytes());
}

/// Writes one record at offset `at`; its path is stored at offset `path_at`.
fn put_record(
    buf: &mut [u8],
    at: usize,
    gid: u64,
    pid: u32,
    irp_op: u8,
    path: &str,
    ext: &str,
    path_at: usize,
    next: u64,
) {
    for (i, u) in ext.encode_utf16().enumerate() {
        put_u16(buf, at + 2 * i, u);
    }
    put_u64(buf, at + 24, 0xABCD);
    for i in 0..16 {
        buf[at + 32 + i] = i as u8;
    }
    put_u64(buf, at + 48, 4096);
    put_u64(buf, at + 56, 7.5f64.to_bits());
    put_u32(buf, at + 64, pid);
    buf[at + 68] = irp_op;
    buf[at + 69] = 1;
    buf[at + 70] = 3;
    buf[at + 71] = 0;
    let units: Vec<u16> = path.encode_utf16().collect();
    put_u16(buf, at + 72, (units.len() + 1) as u16);
    put_u16(buf, at + 74, (units.len() + 1) as u16);
    put_u64(buf, at + 80, BASE + path_at as u64);
    for (i, u) in units.iter().enumerate() {
        put_u16(buf, path_at + 2 * i, *u);
    }
    put_u16(buf, path_at + 2 * units.len(), 0);
    put_u64(buf, at + 88, gid);
    put_u64(buf, at + 96, next);
}

fn three_records(num_ops: u64) -> Vec<u8> {
    let mut buf = vec![0u8; 1024];
    put_u64(&mut buf, 0, 1000);
    put_u64(&mut buf, 8, BASE + 24);
    put_u64(&mut buf, 16, num_ops);
    put_record(&mut buf, 24, 1, 10, 4, "C:\\a\\f.txt", "txt", 400, BASE + 128);
    put_record(&mut buf, 128, 1, 10, 2, "C:\\a\\f.txt", "txt", 500, BASE + 232);
    put_record(&mut buf, 232, 2, 99, 2, "C:\\b\\g.dat", "dat", 600, 0);
    buf
}

#[test]
fn header_is_read_from_the_first_bytes() {
    let buf = three_records(3);
    let irp = ReplyIrp::from_bytes(&buf).unwrap();
    assert_eq!(irp.data_size, 1000);
    assert_eq!(irp.data, BASE + 24);
    assert_eq!(irp.num_ops, 3);
    assert!(ReplyIrp::from_bytes(&buf[..23]).is_none());
    assert!(ReplyIrp::from_reply(&buf, 0).is_none());
    assert!(ReplyIrp::from_reply(&buf, 336).is_some());
}

#[test]
fn full_chain_gives_every_record_in_order() {
    let buf = three_records(3);
    let irp = ReplyIrp::from_bytes(&buf).unwrap();
    let msgs = irp.unpack_drivermsg(&buf, BASE);
    assert_eq!(msgs.len(), 3);
    assert_eq!(msgs[0].gid, 1);
    assert_eq!(msgs[0].pid, 10);
    assert_eq!(msgs[0].irp_op, 4);
    assert_eq!(msgs[1].irp_op, 2);
    assert_eq!(msgs[2].gid, 2);
    assert_eq!(msgs[2].pid, 99);
    assert_eq!(msgs[0].file_id_vsn, 0xABCD);
    assert_eq!(msgs[0].file_id_id[15], 15);
    assert_eq!(msgs[0].mem_sized_used, 4096);
    assert_eq!(f64::from_bits(msgs[0].entropy), 7.5);
    assert_eq!(msgs[0].filepath.to_string(), "C:\\a\\f.txt");
    assert_eq!(msgs[2].filepath.to_string_ext(msgs[2].extension), "C:\\b\\g.dat");
}

#[test]
fn early_null_ends_the_walk() {
    let mut buf = three_records(3);
    put_u64(&mut buf, 128 + 96, 0);
    let irp = ReplyIrp::from_bytes(&buf).unwrap();
    let msgs = irp.unpack_drivermsg(&buf, BASE);
    assert_eq!(msgs.len(), 2);
    assert_eq!(msgs[1].irp_op, 2);
}

#[test]
fn announced_count_caps_the_walk() {
    let buf = three_records(2);
    let irp = ReplyIrp::from_bytes(&buf).unwrap();
    assert_eq!(irp.unpack_drivermsg(&buf, BASE).len(), 2);
    let none = three_records(0);
    let irp = ReplyIrp::from_bytes(&none).unwrap();
    assert_eq!(irp.unpack_drivermsg(&none, BASE).len(), 0);
}

#[test]
fn cycle_is_cut_at_the_announced_count() {
    let mut buf = three_records(3);
    put_u64(&mut buf, 232 + 96, BASE + 24);
    put_u64(&mut buf, 16, 7);
    let irp = ReplyIrp::from_bytes(&buf).unwrap();
    let msgs = irp.unpack_drivermsg(&buf, BASE);
    assert_eq!(msgs.len(), 7);
    assert_eq!(msgs[3].irp_op, 4);
    assert_eq!(msgs[6].gid, 1);
}

#[test]
fn address_outside_the_buffer_ends_the_walk() {
    let mut buf = three_records(3);
    put_u64(&mut buf, 24 + 96, BASE + 1024 - 50);
    let irp = ReplyIrp::from_bytes(&buf).unwrap();
    assert_eq!(irp.unpack_drivermsg(&buf, BASE).len(), 1);
    put_u64(&mut buf, 8, BASE - 8);
    let irp = ReplyIrp::from_bytes(&buf).unwrap();
    assert_eq!(irp.unpack_drivermsg(&buf, BASE).len(), 0);
    assert!(CDriverMsg::read_at(&buf, BASE, 0).is_none());
    assert!(CDriverMsg::read_at(&buf, BASE, u64::MAX).is_none());
    assert!(CDriverMsg::read_at(&buf, BASE, BASE + 1024 - 104).is_some());
    assert!(CDriverMsg::read_at(&buf, BASE, BASE + 1024 - 103).is_none());
}

#[test]
fn records_come_one_at_a_time() {
    let buf = three_records(3);
    let irp = ReplyIrp::from_bytes(&buf).unwrap();
    let mut msgs = CDriverMsgs::new(&irp, &buf, BASE);
    assert_eq!(msgs.next().unwrap().irp_op, 4);
    assert_eq!(msgs.next().unwrap().irp_op, 2);
    assert_eq!(msgs.next().unwrap().gid, 2);
    assert!(msgs.next().is_none());
    assert!(msgs.next().is_none());
}

#[test]
fn path_outside_the_buffer_is_empty() {
    let mut buf = three_records(3);
    put_u64(&mut buf, 24 + 80, BASE + 5000);
    let msg = CDriverMsg::read_at(&buf, BASE, BASE + 24).unwrap();
    assert!(msg.filepath.buffer.is_empty());
    assert_eq!(msg.filepath.to_string(), "");
    put_u64(&mut buf, 24 + 80, BASE + 1024 - 6);
    let msg = CDriverMsg::read_at(&buf, BASE, BASE + 24).unwrap();
    assert_eq!(msg.filepath.buffer.len(), 3);
}

#[test]
fn event_takes_over_the_record() {
    let buf = three_records(3);
    let msg = CDriverMsg::read_at(&buf, BASE, BASE + 24).unwrap();
    let event = IOMessage::from(&msg, Some(1234));
    assert_eq!(event.gid, 1);
    assert_eq!(event.pid, 10);
    assert_eq!(event.irp_op, 4);
    assert_eq!(event.is_entropy_calc, 1);
    assert_eq!(event.file_change, 3);
    assert_eq!(event.file_location_info, 0);
    assert_eq!(event.extension, msg.extension);
    assert_eq!(event.file_id_id, msg.file_id_id);
    assert_eq!(event.filepathstr, "C:\\a\\f.txt");
    assert_eq!(event.file_size, 1234);
    assert!(event.runtime_features.exe_still_exists);
    assert_eq!(event.runtime_features.exepath, "");
    assert_eq!(IOMessage::from(&msg, None).file_size, -1);
    assert_eq!(IOMessage::from(&msg, Some(u64::MAX)).file_size, -1);
    assert_eq!(IOMessage::from(&msg, Some(1 << 63)).file_size, i64::MIN);
    assert_eq!(IOMessage::from(&msg, Some(i64::MAX as u64)).file_size, i64::MAX);
}
