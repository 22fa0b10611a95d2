use process_cpu_auto::process::monitor::{RawProcessEntry, SnapshotRead};
use process_cpu_auto::process::ProcessMonitor;
use process_cpu_auto::utils::ServiceError;

fn name_field(name: &str) -> [u16; 260] {
    let mut field = [0u16; 260];
    for (i, unit) in name.encode_utf16().enumerate() {
        field[i] = unit;
    }
    field
}

fn entry(process_id: u32, parent_process_id: u32, name: &str) -> RawProcessEntry {
    RawProcessEntry { process_id, parent_process_id, exe_file: name_field(name) }
}

fn sample_table() -> SnapshotRead {
    SnapshotRead::Entries(vec![
        entry(0, 0, "[System Process]"),
        entry(4, 0, "System"),
        entry(612, 4, "smss.exe"),
        entry(4242, 612, "current.exe"),
        entry(5000, 4242, "child.exe"),
    ])
}

#[test]
fn test_get_processes() {
    let result = ProcessMonitor::get_all_processes(sample_table());
    assert!(result.is_ok());

    let processes = result.unwrap();
    assert!(!processes.is_empty());

    // Should contain at least current process
    let current_pid = 4242;
    let found = processes.iter().any(|p| p.pid == current_pid);
    assert!(found, "Current process not found in process list");
}

#[test]
fn test_process_names() {
    let processes = ProcessMonitor::get_all_processes(sample_table()).unwrap();

    for process in &processes {
        assert!(!process.name.is_empty());
        assert!(process.pid > 0);
    }

    // Print some processes for manual inspection
    println!("Sample processes:");
    for process in processes.iter().take(5) {
        println!("  PID: {}, Name: {}", process.pid, process.name);
    }
}

#[test]
fn idle_process_is_left_out() {
    let processes = ProcessMonitor::get_all_processes(sample_table()).unwrap();
    let listed: Vec<(u32, String, u32)> =
        processes.iter().map(|p| (p.pid, p.name.clone(), p.parent_pid)).collect();
    assert_eq!(
        listed,
        vec![
            (4, "System".to_string(), 0),
            (612, "smss.exe".to_string(), 4),
            (4242, "current.exe".to_string(), 612),
            (5000, "child.exe".to_string(), 4242),
        ]
    );
    assert!(ProcessMonitor::parse_process_entry(&entry(0, 7, "idle")).is_none());
}

#[test]
fn enumeration_keeps_order_and_duplicates() {
    let entries = vec![entry(9, 1, "b.exe"), entry(0, 0, ""), entry(3, 1, "a.exe"), entry(9, 1, "b.exe")];
    let processes = ProcessMonitor::enumerate_processes(&entries);
    let pids: Vec<u32> = processes.iter().map(|p| p.pid).collect();
    assert_eq!(pids, vec![9, 3, 9]);
    assert!(ProcessMonitor::enumerate_processes(&Vec::new()).is_empty());
}

#[test]
fn enumeration_errors() {
    match ProcessMonitor::get_all_processes(SnapshotRead::SnapshotFailed) {
        Err(ServiceError::ProcessMonitoring(detail)) => {
            assert_eq!(detail, "Failed to create process snapshot")
        }
        _ => panic!("a missing snapshot must fail"),
    }
    match ProcessMonitor::get_all_processes(SnapshotRead::FirstFailed) {
        Err(ServiceError::ProcessMonitoring(detail)) => {
            assert_eq!(detail, "Failed to get first process")
        }
        _ => panic!("an unreadable first record must fail"),
    }
    assert!(ProcessMonitor::get_all_processes(SnapshotRead::Entries(Vec::new()))
        .unwrap()
        .is_empty());
}

#[test]
fn name_ends_at_the_first_zero_unit() {
    assert_eq!(ProcessMonitor::extract_process_name(&name_field("notepad.exe")), "notepad.exe");
    assert_eq!(ProcessMonitor::extract_process_name(&name_field("")), "");
    let mut field = name_field("abc");
    field[5] = 'x' as u16;
    assert_eq!(ProcessMonitor::extract_process_name(&field), "abc");
    let full = ['a' as u16; 260];
    assert_eq!(ProcessMonitor::extract_process_name(&full), "a".repeat(260));
}

#[test]
fn name_is_decoded_from_utf16() {
    assert_eq!(ProcessMonitor::extract_process_name(&name_field("größe.exe")), "größe.exe");
    assert_eq!(ProcessMonitor::extract_process_name(&name_field("游戏.exe")), "游戏.exe");
    assert_eq!(ProcessMonitor::extract_process_name(&name_field("𝄞.exe")), "𝄞.exe");
    let mut lone = [0u16; 260];
    lone[0] = 0xD834;
    lone[1] = 'a' as u16;
    assert_eq!(ProcessMonitor::extract_process_name(&lone), "\u{FFFD}a");
}

#[test]
fn parsed_entry_carries_the_parent() {
    let info = ProcessMonitor::parse_process_entry(&entry(77, 12, "svc.exe")).unwrap();
    assert_eq!(info.pid, 77);
    assert_eq!(info.parent_pid, 12);
    assert_eq!(info.name, "svc.exe");
}
