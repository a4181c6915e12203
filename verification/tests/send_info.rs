use hbb_common::report::{HostMetrics, SendInfo, PRINTER_DEF};

fn metrics() -> HostMetrics {
    HostMetrics {
        disk_totals: vec![100 << 30, 28 << 30],
        disk_available: vec![(10 << 30) + 5, 0],
        total_memory: 16 * 1048576,
        available_memory: 3 * 1048576 + 10,
        mac: "AA:BB:CC:DD:EE:FF".to_string(),
        ip: "10.0.0.5".to_string(),
    }
}

#[test]
fn new_report_from_host() {
    let s = SendInfo::new(&metrics(), "12.5".to_string());
    assert_eq!(s.cpuRate, "12.5");
    assert_eq!(s.memoryVolume, "16");
    assert_eq!(s.memoryAvailable, "3");
    assert_eq!(s.diskVolume, "128");
    assert_eq!(s.diskAvailable, "10");
    assert_eq!(s.ink, "");
    assert_eq!(s.paper, "");
    assert_eq!(s.mac, "AA:BB:CC:DD:EE:FF");
    assert_eq!(s.ip, "10.0.0.5");
    assert_eq!(s.id, "");
    assert_eq!(s.file, "");
    assert_eq!(s.upt_date_time(), "");
}

#[test]
fn update_report() {
    let mut s = SendInfo::new(&metrics(), "0".to_string());
    s.update(
        40,
        75,
        "t1".to_string(),
        "d1".to_string(),
        "d2".to_string(),
        "t2".to_string(),
        "9".to_string(),
        &metrics(),
        33,
        "C:/path".to_string(),
    );
    assert_eq!(s.ink, "40");
    assert_eq!(s.paper, "75");
    assert_eq!(s.cpuRate, "33");
    assert_eq!(s.id, "9");
    assert_eq!(s.file, "C:/path");
    assert_eq!(s.upt_date_time(), "t1");
    assert_eq!(s.pub_date(), "d1");
    assert_eq!(s.upt_date(), "d2");
    assert_eq!(s.pub_date_time(), "t2");
}

#[test]
fn default_ink_blanks_both_levels() {
    let mut s = SendInfo::new(&metrics(), "0".to_string());
    s.update(
        PRINTER_DEF,
        75,
        String::new(),
        String::new(),
        String::new(),
        String::new(),
        String::new(),
        &metrics(),
        0,
        String::new(),
    );
    assert_eq!(s.ink, "");
    assert_eq!(s.paper, "");
    s.update(
        5,
        PRINTER_DEF,
        String::new(),
        String::new(),
        String::new(),
        String::new(),
        String::new(),
        &metrics(),
        -1,
        String::new(),
    );
    assert_eq!(s.ink, "5");
    assert_eq!(s.paper, "9999");
    assert_eq!(s.cpuRate, "-1");
}
