use halo::metrics::{
    disk_label, disk_used_space, gpu_label, gpu_reading, is_root_path, select_disk, CpuMetric,
    MemoryMetric,
};

#[test]
fn labels() {
    assert_eq!(CpuMetric::new().label(), "CPU");
    assert_eq!(MemoryMetric::new().label(), "RAM");
    assert_eq!(disk_label(), "DISK");
    assert_eq!(gpu_label(), "GPU");
}

#[test]
fn root_paths() {
    assert!(is_root_path("/"));
    assert!(is_root_path("//"));
    assert!(is_root_path("/."));
    assert!(is_root_path("/./"));
    assert!(!is_root_path(""));
    assert!(!is_root_path("."));
    assert!(!is_root_path("/home"));
    assert!(!is_root_path("/.."));
    assert!(!is_root_path("/.x"));
}

#[test]
fn disk_selection() {
    let v = |xs: &[&str]| xs.iter().map(|s| s.to_string()).collect::<Vec<String>>();
    assert_eq!(select_disk(&v(&["/boot", "/", "/home"])), Some(1));
    assert_eq!(select_disk(&v(&["/boot", "/home"])), Some(0));
    assert_eq!(select_disk(&v(&[])), None);
}

#[test]
fn used_space() {
    assert_eq!(disk_used_space(0, 0), None);
    assert_eq!(disk_used_space(100, 40), Some(60));
    assert_eq!(disk_used_space(100, 140), Some(0));
}

#[test]
fn gpu_output_first_line() {
    assert_eq!(gpu_reading("  42 \n13\n").as_deref(), Some("42"));
    assert_eq!(gpu_reading("17\r\n").as_deref(), Some("17"));
    assert_eq!(gpu_reading("\n5").as_deref(), Some(""));
    assert_eq!(gpu_reading("7").as_deref(), Some("7"));
    assert_eq!(gpu_reading(""), None);
}

#[test]
fn gpu_poll_pacing() {
    let mut p = halo::metrics::GpuPoll::new();
    assert!(!p.after_reading(true));
    assert!(p.after_reading(false));
    assert!(!p.after_reading(false));
    assert!(!p.after_reading(true));
    assert!(halo::metrics::gpu_keep_waiting(0, true));
    assert!(halo::metrics::gpu_keep_waiting(900, true));
    assert!(!halo::metrics::gpu_keep_waiting(1000, true));
    assert!(!halo::metrics::gpu_keep_waiting(0, false));
}
