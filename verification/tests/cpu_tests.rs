use process_cpu_auto::cpu::affinity::AffinityStatus;
use process_cpu_auto::cpu::detector::{NativeQuery, ProcessorRecord, SystemProbe};
use process_cpu_auto::cpu::{AffinityManager, CoreInfo, CpuDetector, DetectionMode};
use process_cpu_auto::utils::ServiceError;
use std::sync::Arc;

fn probe_of(processor_count: u32) -> SystemProbe {
    SystemProbe { native: NativeQuery::QueryFailed, processor_count }
}

fn core_record(efficiency_class: u8, group_mask: u64) -> ProcessorRecord {
    ProcessorRecord { relationship: 0, efficiency_class, group_mask }
}

#[test]
fn test_core_mask_calculation() {
    let p_cores = vec![0, 1, 2, 3];
    let e_cores = vec![4, 5, 6, 7];
    let info = CoreInfo::new(p_cores, e_cores);

    // P-cores: 0b00001111 = 0x0F
    assert_eq!(info.p_core_mask, 0x0F);
    // E-cores: 0b11110000 = 0xF0
    assert_eq!(info.e_core_mask, 0xF0);
    assert_eq!(info.total_cores, 8);
    assert!(info.has_hybrid_architecture());
}

#[test]
fn test_all_cores() {
    let info = CoreInfo::all_cores(8);
    assert_eq!(info.total_cores, 8);
    assert_eq!(info.p_core_mask, 0xFF);
    assert_eq!(info.e_core_mask, 0);
    assert!(!info.has_hybrid_architecture());
}

#[test]
fn test_affinity_manager_creation() {
    let p_cores = vec![0, 1, 2, 3];
    let e_cores = vec![4, 5, 6, 7];
    let core_info = Arc::new(CoreInfo::new(p_cores, e_cores));
    let manager = AffinityManager::new(core_info);

    assert_eq!(manager.get_p_core_mask(), 0x0F);
}

#[test]
fn test_manual_detection() {
    let p_cores = vec![0, 1, 2, 3];
    let e_cores = vec![4, 5, 6, 7];
    let result = CpuDetector::detect(DetectionMode::Manual, p_cores, e_cores, &probe_of(8));
    assert!(result.is_ok());

    let info = result.unwrap();
    assert_eq!(info.p_cores.len(), 4);
    assert_eq!(info.e_cores.len(), 4);
}

#[test]
fn test_all_cores_detection() {
    let result =
        CpuDetector::detect(DetectionMode::AllCores, Vec::new(), Vec::new(), &probe_of(8));
    assert!(result.is_ok());

    let info = result.unwrap();
    assert!(info.total_cores > 0);
    assert!(!info.has_hybrid_architecture());
}

#[test]
fn mask_is_the_or_of_the_core_bits() {
    assert_eq!(CoreInfo::calculate_mask(&vec![]), 0);
    assert_eq!(CoreInfo::calculate_mask(&vec![0]), 1);
    assert_eq!(CoreInfo::calculate_mask(&vec![5]), 32);
    assert_eq!(CoreInfo::calculate_mask(&vec![1, 3, 5]), 0b101010);
    assert_eq!(CoreInfo::calculate_mask(&vec![3, 1, 3, 1]), 0b1010);
    assert_eq!(CoreInfo::calculate_mask(&vec![31]), 1usize << 31);
}

#[test]
fn disjoint_lists_give_disjoint_masks() {
    let info = CoreInfo::new(vec![0, 2, 4], vec![1, 3]);
    assert_eq!(info.p_core_mask, 0b10101);
    assert_eq!(info.e_core_mask, 0b01010);
    assert_eq!(info.p_core_mask & info.e_core_mask, 0);
    assert_eq!(info.total_cores, 5);
    assert!(info.has_hybrid_architecture());
}

#[test]
fn hybrid_exactly_when_both_lists_are_non_empty() {
    assert!(!CoreInfo::new(vec![0, 1], vec![]).has_hybrid_architecture());
    assert!(!CoreInfo::new(vec![], vec![0, 1]).has_hybrid_architecture());
    assert!(!CoreInfo::new(vec![], vec![]).has_hybrid_architecture());
    assert!(CoreInfo::new(vec![0], vec![1]).has_hybrid_architecture());
}

#[test]
fn all_cores_lists_every_processor() {
    let info = CoreInfo::all_cores(4);
    assert_eq!(info.p_cores, vec![0, 1, 2, 3]);
    assert!(info.e_cores.is_empty());
    assert_eq!(info.p_core_mask, 0b1111);

    let none = CoreInfo::all_cores(0);
    assert!(none.p_cores.is_empty());
    assert_eq!(none.p_core_mask, 0);
    assert_eq!(none.total_cores, 0);

    let wide = CoreInfo::all_cores(32);
    assert_eq!(wide.p_core_mask, 0xFFFF_FFFF);
}

#[test]
fn topology_in_text() {
    let info = CoreInfo::new(vec![0, 1, 2, 3], vec![4, 5, 6, 7]);
    assert_eq!(
        info.describe(),
        "CoreInfo { total: 8, P-cores: [0, 1, 2, 3] (mask: 0xF), E-cores: [4, 5, 6, 7] (mask: 0xF0) }"
    );
    let plain = CoreInfo::all_cores(2);
    assert_eq!(
        plain.describe(),
        "CoreInfo { total: 2, P-cores: [0, 1] (mask: 0x3), E-cores: [] (mask: 0x0) }"
    );
    let big = CoreInfo::new(vec![10, 11], vec![]);
    assert_eq!(
        big.describe(),
        "CoreInfo { total: 2, P-cores: [10, 11] (mask: 0xC00), E-cores: [] (mask: 0x0) }"
    );
}

#[test]
fn manual_detection_needs_performance_cores() {
    let result = CpuDetector::detect(DetectionMode::Manual, vec![], vec![4, 5], &probe_of(8));
    match result {
        Err(ServiceError::CpuDetection(detail)) => {
            assert_eq!(detail, "Manual mode requires at least P-cores to be specified")
        }
        _ => panic!("manual detection without performance cores must fail"),
    }
    let direct = CpuDetector::detect_manual(vec![], vec![]);
    assert!(matches!(direct, Err(ServiceError::CpuDetection(_))));
}

#[test]
fn manual_detection_keeps_the_lists() {
    let info = CpuDetector::detect_manual(vec![2, 3], vec![]).unwrap();
    assert_eq!(info.p_cores, vec![2, 3]);
    assert!(info.e_cores.is_empty());
    assert_eq!(info.p_core_mask, 0b1100);
    assert!(!info.has_hybrid_architecture());
}

#[test]
fn all_cores_mode_uses_the_processor_count() {
    let info = CpuDetector::detect_all_cores(6);
    assert_eq!(info.total_cores, 6);
    assert_eq!(info.p_cores, vec![0, 1, 2, 3, 4, 5]);
    assert_eq!(info.p_core_mask, 0b11_1111);
    assert_eq!(info.e_core_mask, 0);
}

#[test]
fn native_records_are_sorted_by_efficiency_class() {
    // Two performance cores with two logical processors each, then four
    // efficiency cores with one each.
    let records = vec![
        core_record(1, 0b0000_0011),
        core_record(1, 0b0000_1100),
        core_record(0, 0b0001_0000),
        core_record(0, 0b0010_0000),
        core_record(0, 0b0100_0000),
        core_record(0, 0b1000_0000),
    ];
    let info = CpuDetector::detect_via_windows_api(&NativeQuery::Records(records)).unwrap();
    assert_eq!(info.p_cores, vec![0, 1, 2, 3]);
    assert_eq!(info.e_cores, vec![4, 5, 6, 7]);
    assert_eq!(info.p_core_mask, 0x0F);
    assert_eq!(info.e_core_mask, 0xF0);
    assert_eq!(info.total_cores, 8);
    assert!(info.has_hybrid_architecture());
}

#[test]
fn native_processors_are_numbered_in_record_order() {
    let records = vec![core_record(0, 0b1), core_record(1, 0b110), core_record(0, 0b1000), core_record(1, 0b1_0000)];
    let info = CpuDetector::detect_via_windows_api(&NativeQuery::Records(records)).unwrap();
    assert_eq!(info.e_cores, vec![0, 3]);
    assert_eq!(info.p_cores, vec![1, 2, 4]);
    assert_eq!(info.p_core_mask & info.e_core_mask, 0);
}

#[test]
fn native_records_of_other_kinds_are_passed_over() {
    let records = vec![
        ProcessorRecord { relationship: 3, efficiency_class: 1, group_mask: 0xFF },
        core_record(1, 0b01),
        ProcessorRecord { relationship: 2, efficiency_class: 0, group_mask: 0xFF },
        core_record(0, 0b10),
    ];
    let info = CpuDetector::detect_via_windows_api(&NativeQuery::Records(records)).unwrap();
    assert_eq!(info.p_cores, vec![0]);
    assert_eq!(info.e_cores, vec![1]);
}

#[test]
fn native_efficiency_only_counts_as_performance() {
    let records = vec![core_record(0, 0b11), core_record(0, 0b1100)];
    let info = CpuDetector::detect_via_windows_api(&NativeQuery::Records(records)).unwrap();
    assert_eq!(info.p_cores, vec![0, 1, 2, 3]);
    assert!(info.e_cores.is_empty());
    assert!(!info.has_hybrid_architecture());
}

#[test]
fn native_higher_efficiency_classes_are_efficiency_cores() {
    let records = vec![core_record(2, 0b1), core_record(1, 0b10)];
    let info = CpuDetector::detect_via_windows_api(&NativeQuery::Records(records)).unwrap();
    assert_eq!(info.e_cores, vec![0]);
    assert_eq!(info.p_cores, vec![1]);
}

#[test]
fn native_detection_errors() {
    match CpuDetector::detect_via_windows_api(&NativeQuery::NoBufferSize) {
        Err(ServiceError::CpuDetection(detail)) => {
            assert_eq!(detail, "Failed to get processor information buffer size")
        }
        _ => panic!("a missing buffer size must fail"),
    }
    match CpuDetector::detect_via_windows_api(&NativeQuery::QueryFailed) {
        Err(ServiceError::CpuDetection(detail)) => {
            assert_eq!(detail, "Failed to get processor information")
        }
        _ => panic!("a failed query must fail"),
    }
    match CpuDetector::detect_via_windows_api(&NativeQuery::Records(vec![])) {
        Err(ServiceError::CpuDetection(detail)) => assert_eq!(detail, "No cores detected"),
        _ => panic!("no records must fail"),
    }
    match CpuDetector::detect_via_windows_api(&NativeQuery::Records(vec![core_record(1, 0)])) {
        Err(ServiceError::CpuDetection(detail)) => assert_eq!(detail, "No cores detected"),
        _ => panic!("a core without processors must fail"),
    }
}

#[test]
fn auto_detection_uses_native_information() {
    let probe = SystemProbe {
        native: NativeQuery::Records(vec![core_record(1, 0b11), core_record(0, 0b100)]),
        processor_count: 16,
    };
    let info = CpuDetector::detect(DetectionMode::Auto, vec![9], vec![8], &probe).unwrap();
    assert_eq!(info.p_cores, vec![0, 1]);
    assert_eq!(info.e_cores, vec![2]);
    assert!(info.has_hybrid_architecture());
}

#[test]
fn auto_detection_falls_back_to_all_cores() {
    for native in [
        NativeQuery::NoBufferSize,
        NativeQuery::QueryFailed,
        NativeQuery::Records(vec![]),
    ] {
        let probe = SystemProbe { native, processor_count: 4 };
        let info = CpuDetector::detect_auto(&probe).unwrap();
        assert_eq!(info.p_cores, vec![0, 1, 2, 3]);
        assert!(info.e_cores.is_empty());
        assert_eq!(info.p_core_mask, 0b1111);
        assert!(!info.has_hybrid_architecture());
    }
}

#[test]
fn non_hybrid_mask_is_the_full_mask() {
    let info =
        CpuDetector::detect(DetectionMode::AllCores, vec![], vec![], &probe_of(12)).unwrap();
    assert_eq!(info.p_core_mask, (1usize << 12) - 1);
    assert!(!info.has_hybrid_architecture());
}

#[test]
fn affinity_request_targets_the_performance_cores() {
    let manager = AffinityManager::new(Arc::new(CoreInfo::new(vec![0, 1], vec![2, 3])));
    let request = manager.set_affinity_to_p_cores(4321, "game.exe");
    assert_eq!(request.pid, 4321);
    assert_eq!(request.affinity_mask, 0b11);
    assert_eq!(request.process_name, "game.exe");
    assert_eq!(manager.get_core_info().p_cores, vec![0, 1]);
    assert_eq!(manager.get_core_info().e_core_mask, 0b1100);
}

#[test]
fn affinity_outcome_for_each_answer() {
    let manager = AffinityManager::new(Arc::new(CoreInfo::all_cores(8)));
    assert!(manager.set_affinity(77, 0xFF, "game.exe", AffinityStatus::Applied).is_ok());
    match manager.set_affinity(77, 0xFF, "game.exe", AffinityStatus::OpenFailed) {
        Err(ServiceError::AffinitySetting(detail)) => assert_eq!(
            detail,
            "Failed to open process with PID: 77 (insufficient permissions or process doesn't exist)"
        ),
        _ => panic!("a process that cannot be opened must fail"),
    }
    match manager.set_affinity(1234, 0xAB0F, "game.exe", AffinityStatus::SetFailed) {
        Err(ServiceError::AffinitySetting(detail)) => assert_eq!(
            detail,
            "Failed to set affinity mask 0xAB0F for process game.exe (PID: 1234)"
        ),
        _ => panic!("a rejected mask must fail"),
    }
    match manager.set_affinity(0, 0, "", AffinityStatus::SetFailed) {
        Err(ServiceError::AffinitySetting(detail)) => {
            assert_eq!(detail, "Failed to set affinity mask 0x0 for process  (PID: 0)")
        }
        _ => panic!("a rejected mask must fail"),
    }
}

#[test]
fn detection_is_possible_within_the_mask() {
    let probe = probe_of(8);
    assert!(CpuDetector::can_detect(DetectionMode::Manual, &vec![0, 31], &vec![5], &probe));
    assert!(!CpuDetector::can_detect(DetectionMode::Manual, &vec![0, 64], &vec![], &probe));
    assert!(!CpuDetector::can_detect(DetectionMode::Manual, &vec![1], &vec![200], &probe));
    assert!(CpuDetector::can_detect(DetectionMode::Manual, &vec![], &vec![200], &probe));
    assert!(matches!(
        CpuDetector::detect(DetectionMode::Manual, vec![], vec![200], &probe),
        Err(ServiceError::CpuDetection(_))
    ));
    assert!(CpuDetector::can_detect(DetectionMode::AllCores, &vec![900], &vec![], &probe));
    assert!(!CpuDetector::can_detect(DetectionMode::AllCores, &vec![], &vec![], &probe_of(65)));
    assert!(CpuDetector::can_detect(DetectionMode::Auto, &vec![], &vec![], &probe));
    assert!(!CpuDetector::can_detect(DetectionMode::Auto, &vec![], &vec![], &probe_of(65)));
    let reported = SystemProbe {
        native: NativeQuery::Records(vec![core_record(1, 0b11), core_record(0, 0b100)]),
        processor_count: 500,
    };
    assert!(CpuDetector::can_detect(DetectionMode::Auto, &vec![], &vec![], &reported));
    assert_eq!(CpuDetector::detect_auto(&reported).unwrap().p_cores, vec![0, 1]);
    let silent = SystemProbe {
        native: NativeQuery::Records(vec![core_record(1, 0)]),
        processor_count: 500,
    };
    assert!(!CpuDetector::can_detect(DetectionMode::Auto, &vec![], &vec![], &silent));
    let crowded = SystemProbe {
        native: NativeQuery::Records(vec![core_record(1, u64::MAX), core_record(0, 0b1)]),
        processor_count: 8,
    };
    assert!(!CpuDetector::can_detect(DetectionMode::Auto, &vec![], &vec![], &crowded));
    let other_kinds = SystemProbe {
        native: NativeQuery::Records(vec![
            ProcessorRecord { relationship: 1, efficiency_class: 0, group_mask: u64::MAX },
            core_record(1, 0xFF),
        ]),
        processor_count: 8,
    };
    assert!(CpuDetector::can_detect(DetectionMode::Auto, &vec![], &vec![], &other_kinds));
}
