use minifilter_rs::paths::{file_name_of, system_executable};
use minifilter_rs::process::{ProcessRecord, ProcessState};
use minifilter_rs::shared_def::{IOMessage, RuntimeFeatures};
use minifilter_rs::worker::process_record_handling::{
    exepath_from_image_name, try_suspend, Exepath,
};
use minifilter_rs::worker::process_records::ProcessRecords;
use minifilter_rs::worker::Worker;

/// Finds executables in a fixed list.
struct Listed {
    entries: Vec<(u32, &'static str)>,
    gone: Vec<&'static str>,
}

impl Exepath for Listed {
    fn exepath(&self, iomsg: &IOMessage) -> Option<String> {
        self.entries.iter().find(|e| e.0 == iomsg.pid).map(|e| e.1.to_string())
    }

    fn exe_still_exists(&self, exepath: &str) -> bool {
        !self.gone.contains(&exepath)
    }
}

fn users() -> Listed {
    Listed {
        entries: vec![
            (10, "C:\\Users\\x\\app.exe"),
            (11, "C:\\Users\\x\\helper.exe"),
            (99, "C:\\Users\\x\\tool.exe"),
            (4, "C:\\Windows\\System32\\svchost.exe"),
            (5, "C:\\Windows\\System32\\drivers\\etc\\thing.exe"),
            (6, "C:\\Windows\\System32x\\odd.exe"),
        ],
        gone: vec!["C:\\Users\\x\\tool.exe"],
    }
}

fn event(gid: u64, pid: u32, irp_op: u8) -> IOMessage {
    IOMessage {
        extension: [0; 12],
        file_id_vsn: 1,
        file_id_id: [0; 16],
        mem_sized_used: 512,
        entropy: 0,
        pid,
        irp_op,
        is_entropy_calc: 0,
        file_change: 2,
        file_location_info: 0,
        filepathstr: "C:\\a\\f.txt".to_string(),
        gid,
        runtime_features: RuntimeFeatures::new(),
        file_size: 2048,
    }
}

#[test]
fn first_event_opens_a_record_and_is_folded() {
    let mut worker = Worker::new(users());
    let mut ev = event(1, 10, 4);
    worker.process_io(&mut ev);
    let table = worker.process_records();
    assert_eq!(table.len(), 1);
    let record = table.get_precord_by_gid(1).unwrap();
    assert_eq!(record.gid, 1);
    assert_eq!(record.exepath, "C:\\Users\\x\\app.exe");
    assert_eq!(record.appname, "app.exe");
    assert_eq!(record.process_state, ProcessState::Running);
    assert_eq!(record.pids, vec![10]);
    assert_eq!(record.irp_records.len(), 1);
    assert_eq!(record.irp_records[0].irp_op, 4);
    assert_eq!(record.irp_records[0].mem_sized_used, 512);
    assert_eq!(record.irp_records[0].file_size, 2048);
    assert_eq!(ev.runtime_features.exepath, "C:\\Users\\x\\app.exe");
    assert!(ev.runtime_features.exe_still_exists);
}

#[test]
fn second_event_of_a_family_opens_no_second_record() {
    let mut worker = Worker::new(users());
    worker.process_io(&mut event(1, 10, 4));
    worker.process_io(&mut event(1, 10, 2));
    let mut third = event(1, 11, 1);
    worker.process_io(&mut third);
    let table = worker.process_records();
    assert_eq!(table.len(), 1);
    let record = table.get_precord_by_gid(1).unwrap();
    assert_eq!(record.pids, vec![10, 11]);
    assert_eq!(record.irp_records.len(), 3);
    assert_eq!(record.exepath, "C:\\Users\\x\\app.exe");
    assert_eq!(third.runtime_features.exepath, "C:\\Users\\x\\app.exe");
}

#[test]
fn table_grows_by_one_for_each_new_admitted_family() {
    let mut worker = Worker::new(users());
    let mut sizes = Vec::new();
    for (gid, pid) in [(1u64, 10u32), (1, 10), (2, 99), (3, 4), (2, 99), (4, 77), (5, 11)] {
        worker.process_io(&mut event(gid, pid, 2));
        sizes.push(worker.process_records().len());
    }
    assert_eq!(sizes, vec![1, 1, 2, 2, 2, 2, 3]);
}

#[test]
fn system_executables_get_no_record() {
    let mut worker = Worker::new(users());
    worker.process_io(&mut event(1, 10, 2));
    let mut ev = event(7, 4, 2);
    worker.process_io(&mut ev);
    assert_eq!(worker.process_records().len(), 1);
    assert!(worker.process_records().get_precord_by_gid(7).is_none());
    assert_eq!(ev.runtime_features.exepath, "");
    worker.process_io(&mut event(8, 5, 2));
    assert_eq!(worker.process_records().len(), 1);
    worker.process_io(&mut event(9, 6, 2));
    assert_eq!(worker.process_records().len(), 2);
    assert_eq!(worker.process_records().get_precord_by_gid(9).unwrap().appname, "odd.exe");
}

#[test]
fn unresolved_process_gets_no_record() {
    let mut worker = Worker::new(users());
    let mut ev = event(3, 12345, 2);
    worker.process_io(&mut ev);
    assert_eq!(worker.process_records().len(), 0);
    assert_eq!(ev.runtime_features.exepath, "");
    assert!(ev.runtime_features.exe_still_exists);
    assert_eq!(ev.gid, 3);
}

#[test]
fn executable_is_looked_for_only_for_a_new_family() {
    let mut worker = Worker::new(users());
    worker.process_io(&mut event(1, 10, 2));
    let mut other = event(1, 4, 2);
    worker.process_io(&mut other);
    let record = worker.process_records().get_precord_by_gid(1).unwrap();
    assert_eq!(record.pids, vec![10, 4]);
    assert_eq!(other.runtime_features.exepath, "C:\\Users\\x\\app.exe");
}

#[test]
fn three_chained_records_give_two_families() {
    let mut worker = Worker::new(users());
    let mut events = vec![event(1, 10, 4), event(1, 10, 2), event(2, 99, 2)];
    events[0].filepathstr = "C:\\a\\f.txt".to_string();
    for ev in events.iter_mut() {
        worker.process_io(ev);
    }
    let table = worker.process_records();
    assert_eq!(table.len(), 2);
    assert_eq!(table.get_precord_by_gid(1).unwrap().irp_records.len(), 2);
    assert_eq!(table.get_precord_by_gid(2).unwrap().irp_records.len(), 1);
    assert_eq!(table.get_precord_by_gid(1).unwrap().exepath, "C:\\Users\\x\\app.exe");
    assert_eq!(table.get_precord_by_gid(2).unwrap().exepath, "C:\\Users\\x\\tool.exe");
    assert_eq!(table.get_precord_by_gid(2).unwrap().appname, "tool.exe");
    assert_eq!(events[2].runtime_features.exepath, "C:\\Users\\x\\tool.exe");
}

#[test]
fn resolved_outcome_decides_the_record() {
    let mut worker = Worker::new(users());
    worker.process_io_resolved(&mut event(1, 1, 2), None, true);
    assert_eq!(worker.process_records().len(), 0);
    let system = Some("C:\\Windows\\System32\\cmd.exe".to_string());
    worker.process_io_resolved(&mut event(1, 1, 2), system, true);
    assert_eq!(worker.process_records().len(), 0);
    worker.process_io_resolved(&mut event(1, 1, 2), Some("D:\\tools\\".to_string()), true);
    assert_eq!(worker.process_records().len(), 1);
    assert_eq!(worker.process_records().get_precord_by_gid(1).unwrap().appname, "DEFAULT");
    worker.process_io_resolved(&mut event(1, 2, 2), Some("E:\\other.exe".to_string()), false);
    assert_eq!(worker.process_records().len(), 1);
    let record = worker.process_records().get_precord_by_gid(1).unwrap();
    assert_eq!(record.exepath, "D:\\tools\\");
    assert_eq!(record.pids, vec![1, 2]);
}

#[test]
fn event_tells_whether_the_executable_still_exists() {
    let mut worker = Worker::new(users());
    let mut here = event(1, 10, 2);
    worker.process_io(&mut here);
    assert_eq!(here.runtime_features.exepath, "C:\\Users\\x\\app.exe");
    assert!(here.runtime_features.exe_still_exists);
    let mut gone = event(2, 99, 2);
    worker.process_io(&mut gone);
    assert_eq!(gone.runtime_features.exepath, "C:\\Users\\x\\tool.exe");
    assert!(!gone.runtime_features.exe_still_exists);
    let mut again = event(2, 99, 1);
    worker.process_io(&mut again);
    assert!(!again.runtime_features.exe_still_exists);

    let mut told = event(1, 10, 2);
    worker.process_io_resolved(&mut told, None, false);
    assert_eq!(told.runtime_features.exepath, "C:\\Users\\x\\app.exe");
    assert!(!told.runtime_features.exe_still_exists);
    let mut told = event(1, 10, 2);
    worker.process_io_resolved(&mut told, None, true);
    assert!(told.runtime_features.exe_still_exists);
    let mut unknown = event(77, 12345, 2);
    worker.process_io_resolved(&mut unknown, None, false);
    assert_eq!(unknown.runtime_features.exepath, "");
    assert!(unknown.runtime_features.exe_still_exists);
}

#[test]
fn terminating_an_unseen_family_leaves_the_table() {
    let mut worker = Worker::new(users());
    worker.process_io(&mut event(1, 10, 2));
    let command = worker.terminate_family(404, 7);
    assert_eq!((command.msg_type, command.pid, command.gid), (4, 7, 404));
    assert!(command.path.iter().all(|u| *u == 0));
    assert_eq!(worker.process_records().len(), 1);
    assert!(worker.process_records().get_precord_by_gid(404).is_none());
    assert_eq!(worker.process_records().get_precord_by_gid(1).unwrap().irp_records.len(), 1);
    let command = worker.terminate_family(1, 7);
    assert_eq!(command.gid, 1);
    assert_eq!(worker.process_records().len(), 1);
}

#[test]
fn handler_can_be_swapped() {
    let mut worker = Worker::new(Listed { entries: vec![], gone: vec![] });
    worker.process_io(&mut event(1, 10, 2));
    assert_eq!(worker.process_records().len(), 0);
    let mut worker = worker.exepath_handler(users()).build();
    worker.process_io(&mut event(1, 10, 2));
    assert_eq!(worker.process_records().len(), 1);
}

#[test]
fn suspending_marks_the_record_and_lists_its_processes() {
    let mut record =
        ProcessRecord::from(&event(3, 30, 2), "a.exe".to_string(), "C:\\a.exe".to_string());
    assert_eq!(record.process_state, ProcessState::Running);
    assert!(record.pids.is_empty());
    record.add_irp_record(&event(3, 30, 2));
    record.add_irp_record(&event(3, 31, 2));
    record.add_irp_record(&event(3, 30, 1));
    let pids = try_suspend(&mut record);
    assert_eq!(pids, vec![30, 31]);
    assert_eq!(record.process_state, ProcessState::Suspended);
    assert_eq!(record.irp_records.len(), 3);
    assert_eq!(record.gid, 3);
}

#[test]
fn records_are_kept_by_family() {
    let mut table = ProcessRecords::new();
    assert_eq!(table.len(), 0);
    assert!(table.get_precord_by_gid(1).is_none());
    assert!(table.get_precord_mut_by_gid(1).is_none());
    table.insert_precord(
        1,
        ProcessRecord::from(&event(1, 2, 2), "a".to_string(), "C:\\a".to_string()),
    );
    table.insert_precord(
        2,
        ProcessRecord::from(&event(2, 3, 2), "b".to_string(), "C:\\b".to_string()),
    );
    assert_eq!(table.len(), 2);
    table.get_precord_mut_by_gid(2).unwrap().add_irp_record(&event(2, 3, 2));
    assert_eq!(table.get_precord_by_gid(2).unwrap().irp_records.len(), 1);
    assert_eq!(table.get_precord_by_gid(1).unwrap().irp_records.len(), 0);
    table.insert_precord(
        2,
        ProcessRecord::from(&event(2, 3, 2), "c".to_string(), "C:\\c".to_string()),
    );
    assert_eq!(table.len(), 2);
    assert_eq!(table.get_precord_by_gid(2).unwrap().appname, "c");
    assert_eq!(ProcessRecords::default().len(), 0);
}

#[test]
fn system_directory_is_matched_by_components() {
    assert!(system_executable("C:\\Windows\\System32\\svchost.exe"));
    assert!(system_executable("C:\\Windows\\System32\\wbem\\wmiprvse.exe"));
    assert!(!system_executable("C:\\Windows\\System32"));
    assert!(!system_executable("C:\\Windows\\System32x\\a.exe"));
    assert!(!system_executable("C:\\Windows\\explorer.exe"));
    assert!(!system_executable("C:\\Users\\x\\app.exe"));
    assert!(!system_executable("c:\\windows\\system32\\svchost.exe"));
    assert!(!system_executable("svchost.exe"));
    assert!(!system_executable(""));
}

#[test]
fn application_name_is_the_file_name() {
    assert_eq!(file_name_of("C:\\Users\\x\\app.exe"), Some("app.exe".to_string()));
    assert_eq!(file_name_of("app.exe"), Some("app.exe".to_string()));
    assert_eq!(file_name_of("C:\\dir\\"), None);
    assert_eq!(file_name_of(""), None);
    assert_eq!(file_name_of("C:\\ü\\é.exe"), Some("é.exe".to_string()));
    assert_eq!(
        Worker::<Listed>::appname_from_exepath("C:\\Users\\x\\tool.exe"),
        Some("tool.exe".to_string())
    );
}

#[test]
fn image_name_is_trimmed_of_zero_bytes() {
    let mut buffer = vec![0u8; 64];
    let path = b"\\Device\\HarddiskVolume3\\Users\\x\\app.exe";
    buffer[..path.len()].copy_from_slice(path);
    assert_eq!(
        exepath_from_image_name(path.len() as u32, &buffer),
        Some("\\Device\\HarddiskVolume3\\Users\\x\\app.exe".to_string())
    );
    assert_eq!(exepath_from_image_name(0, &buffer), None);
    assert_eq!(exepath_from_image_name(3, &[0, 0, 97, 0, 98, 0]), Some("a\0b".to_string()));
    assert_eq!(exepath_from_image_name(3, &[0, 0, 0]), Some(String::new()));
    assert_eq!(exepath_from_image_name(3, &[]), Some(String::new()));
    assert_eq!(exepath_from_image_name(2, &[0xC3, 0xA9, 0]), Some("é".to_string()));
    assert_eq!(exepath_from_image_name(2, &[0x61, 0xFF, 0]), None);
}
