use minifilter_rs::driver_comm::{after_poll, IrpMajorOp, PollStep};
use minifilter_rs::shared_def::{CDriverMsgs, IOMessage};
use minifilter_rs::worker::process_record_handling::Exepath;
use minifilter_rs::worker::Worker;

const AT: u64 = 0x10_0000;

struct TwoProcesses;

impl Exepath for TwoProcesses {
    fn exepath(&self, iomsg: &IOMessage) -> Option<String> {
        match iomsg.pid {
            10 => Some("C:\\Users\\x\\app.exe".to_string()),
            99 => Some("C:\\Users\\x\\tool.exe".to_string()),
            _ => None,
        }
    }

    fn exe_still_exists(&self, exepath: &str) -> bool {
        exepath != "C:\\Users\\x\\tool.exe"
    }
}

fn store(buf: &mut [u8], at: usize, bytes: &[u8]) {
    buf[at..at + bytes.len()].copy_from_slice(bytes);
}

fn record(buf: &mut [u8], at: usize, gid: u64, pid: u32, op: u8, path: &str, ext: &str, next: u64) {
    for (i, u) in ext.encode_utf16().enumerate() {
        store(buf, at + 2 * i, &u.to_le_bytes());
    }
    store(buf, at + 64, &pid.to_le_bytes());
    buf[at + 68] = op;
    let path_at = at + 104;
    let units: Vec<u16> = path.encode_utf16().collect();
    store(buf, at + 72, &((units.len() + 1) as u16).to_le_bytes());
    store(buf, at + 74, &((units.len() + 1) as u16).to_le_bytes());
    store(buf, at + 80, &(AT + path_at as u64).to_le_bytes());
    for (i, u) in units.iter().enumerate() {
        store(buf, path_at + 2 * i, &u.to_le_bytes());
    }
    store(buf, at + 88, &gid.to_le_bytes());
    store(buf, at + 96, &next.to_le_bytes());
}

fn batch() -> Vec<u8> {
    let mut buf = vec![0u8; 65536];
    store(&mut buf, 0, &600u64.to_le_bytes());
    store(&mut buf, 8, &(AT + 24).to_le_bytes());
    store(&mut buf, 16, &3u64.to_le_bytes());
    record(&mut buf, 24, 1, 10, 4, "C:\\a\\f.", "txt", AT + 200);
    record(&mut buf, 200, 1, 10, 2, "C:\\a\\f.txt", "txt", AT + 400);
    record(&mut buf, 400, 2, 99, 2, "C:\\b\\g.bin", "bin", 0);
    buf
}

#[test]
fn batch_of_three_records_gives_two_process_records() {
    let buf = batch();
    let irp = match after_poll(0, &buf, 600) {
        PollStep::Decode(irp) => irp,
        other => panic!("{:?}", other),
    };
    let mut worker = Worker::new(TwoProcesses);
    let mut events = Vec::new();
    let mut msgs = CDriverMsgs::new(&irp, &buf, AT);
    while let Some(msg) = msgs.next() {
        let mut event = IOMessage::from(&msg, None);
        worker.process_io(&mut event);
        events.push(event);
    }
    assert_eq!(events.len(), 3);
    assert_eq!(events[0].filepathstr, "C:\\a\\f.");
    assert_eq!(events[1].filepathstr, "C:\\a\\f.txt");
    assert_eq!(events[2].filepathstr, "C:\\b\\g.bin");
    assert_eq!(IrpMajorOp::from_byte(events[0].irp_op), IrpMajorOp::IrpCreate);
    assert_eq!(IrpMajorOp::from_byte(events[1].irp_op), IrpMajorOp::IrpWrite);
    assert_eq!(events[0].file_size, -1);
    assert_eq!(events[0].runtime_features.exepath, "C:\\Users\\x\\app.exe");
    assert_eq!(events[2].runtime_features.exepath, "C:\\Users\\x\\tool.exe");
    assert!(events[0].runtime_features.exe_still_exists);
    assert!(events[1].runtime_features.exe_still_exists);
    assert!(!events[2].runtime_features.exe_still_exists);

    let table = worker.process_records();
    assert_eq!(table.len(), 2);
    let first = table.get_precord_by_gid(1).unwrap();
    assert_eq!(first.irp_records.len(), 2);
    assert_eq!(first.pids, vec![10]);
    assert_eq!(first.appname, "app.exe");
    let second = table.get_precord_by_gid(2).unwrap();
    assert_eq!(second.irp_records.len(), 1);
    assert_eq!(second.pids, vec![99]);
    assert_eq!(second.appname, "tool.exe");
}

#[test]
fn batch_cut_short_gives_the_events_it_has() {
    let mut buf = batch();
    store(&mut buf, 200 + 96, &0u64.to_le_bytes());
    let irp = match after_poll(0, &buf, 600) {
        PollStep::Decode(irp) => irp,
        other => panic!("{:?}", other),
    };
    assert_eq!(irp.num_ops, 3);
    let msgs = irp.unpack_drivermsg(&buf, AT);
    assert_eq!(msgs.len(), 2);
    let mut worker = Worker::new(TwoProcesses);
    for msg in msgs.iter() {
        worker.process_io(&mut IOMessage::from(msg, Some(10)));
    }
    assert_eq!(worker.process_records().len(), 1);
    assert_eq!(worker.process_records().get_precord_by_gid(1).unwrap().irp_records.len(), 2);
}
