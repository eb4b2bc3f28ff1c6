use sysmon::control::{RefreshScheduler, TabSelector};
use sysmon::sensors::{temp_summary, TempReading, TempSummary};
use sysmon::snapshot::{
    build_snapshot, disk_summary, net_summary, usage_bp, DiskEntry, NetEntry, ProcEntry,
    RawReadings, SwapStatus,
};
use sysmon::thresholds::{swap_band, Band};

fn reading(label: &str, milli_c: i64) -> TempReading {
    TempReading { label: label.to_string(), milli_c }
}

#[test]
fn percentage_is_exact() {
    // 100 * used / total, in basis points (hundredths of a percent).
    assert_eq!(usage_bp(50, 100), Some(5000));
    assert_eq!(usage_bp(0, 100), Some(0));
    assert_eq!(usage_bp(1, 3), Some(3333));
    assert_eq!(usage_bp(100, 100), Some(10000));
}

#[test]
fn percentage_zero_total_is_sentinel() {
    assert_eq!(usage_bp(0, 0), None);
    assert_eq!(usage_bp(123, 0), None);
}

#[test]
fn swap_bands() {
    assert_eq!(swap_band(5, 100), Band::Normal);
    assert_eq!(swap_band(10, 100), Band::Normal);
    assert_eq!(swap_band(11, 100), Band::Warning);
    assert_eq!(swap_band(50, 100), Band::Warning);
    assert_eq!(swap_band(51, 100), Band::Critical);
}

#[test]
fn temperature_warning_band_at_75() {
    let readings = vec![reading("CPU Package", 75_000)];
    match temp_summary(&readings) {
        TempSummary::Available { avg_milli, max_milli, band } => {
            assert_eq!(avg_milli, 75_000);
            assert_eq!(max_milli, 75_000);
            assert_eq!(band, Band::Warning);
        }
        TempSummary::NotAvailable => panic!("expected a summary"),
    }
}

#[test]
fn temperature_no_qualifying_sensor() {
    let readings = vec![reading("gpu fan", 90_000), reading("ambient", 25_000)];
    assert_eq!(temp_summary(&readings), TempSummary::NotAvailable);
}

#[test]
fn temperature_filters_and_averages() {
    let readings = vec![
        reading("Core 0", 70_000),
        reading("ambient", 90_000),
        reading("Core 1", 80_000),
        reading("cpu aux", 0),
        reading("PROCESSOR die", -5_000),
    ];
    match temp_summary(&readings) {
        TempSummary::Available { avg_milli, max_milli, band } => {
            assert_eq!(avg_milli, 75_000);
            assert_eq!(max_milli, 80_000);
            assert_eq!(band, Band::Warning);
        }
        TempSummary::NotAvailable => panic!("expected a summary"),
    }
}

#[test]
fn temperature_band_boundaries() {
    // An average of exactly 70 degrees is still normal.
    let at70 = vec![reading("cpu", 70_000)];
    match temp_summary(&at70) {
        TempSummary::Available { band, .. } => assert_eq!(band, Band::Normal),
        _ => panic!("expected a summary"),
    }
    // An average of exactly 80 degrees is warning, not critical.
    let at80 = vec![reading("cpu", 80_000)];
    match temp_summary(&at80) {
        TempSummary::Available { band, .. } => assert_eq!(band, Band::Warning),
        _ => panic!("expected a summary"),
    }
    let above80 = vec![reading("cpu", 80_001)];
    match temp_summary(&above80) {
        TempSummary::Available { band, .. } => assert_eq!(band, Band::Critical),
        _ => panic!("expected a summary"),
    }
}

#[test]
fn temperature_case_insensitive_labels() {
    let readings = vec![reading("CoRe complex", 65_000)];
    assert!(matches!(temp_summary(&readings), TempSummary::Available { .. }));
    let readings2 = vec![reading("CPU", 65_000)];
    assert!(matches!(temp_summary(&readings2), TempSummary::Available { .. }));
}

fn net(name: &str, rx: u64, tx: u64) -> NetEntry {
    NetEntry { name: name.to_string(), rx, tx }
}

#[test]
fn network_summary_counts_active_only() {
    let nets = vec![net("lo", 0, 0), net("eth0", 10, 0), net("wlan0", 5, 7)];
    let s = net_summary(&nets);
    assert_eq!(s.active_count, 2);
    assert_eq!(s.total_rx, 15);
    assert_eq!(s.total_tx, 7);
    assert_eq!(s.details.len(), 2);
    assert_eq!(s.details[0].name, "eth0");
    assert_eq!(s.details[1].name, "wlan0");
}

#[test]
fn network_summary_keeps_first_four_details() {
    let nets = vec![
        net("a", 1, 0),
        net("b", 2, 0),
        net("idle", 0, 0),
        net("c", 3, 0),
        net("d", 4, 0),
        net("e", 5, 0),
    ];
    let s = net_summary(&nets);
    assert_eq!(s.active_count, 5);
    assert_eq!(s.total_rx, 15);
    assert_eq!(s.details.len(), 4);
    let names: Vec<&str> = s.details.iter().map(|e| e.name.as_str()).collect();
    assert_eq!(names, ["a", "b", "c", "d"]);
}

#[test]
fn network_summary_saturates() {
    let nets = vec![net("a", u64::MAX, 0), net("b", 1, 0)];
    let s = net_summary(&nets);
    assert_eq!(s.total_rx, u64::MAX);
}

fn disk(name: &str, total: u64, available: u64) -> DiskEntry {
    DiskEntry { name: name.to_string(), total, available }
}

#[test]
fn disk_summary_skips_zero_capacity() {
    let disks = vec![disk("root", 1000, 400), disk("virtual", 0, 0), disk("data", 500, 500)];
    let s = disk_summary(&disks);
    assert_eq!(s.disk_count, 2);
    assert_eq!(s.total_space, 1500);
    assert_eq!(s.total_used, 600);
    assert_eq!(s.details.len(), 2);
    assert_eq!(s.details[0].name, "root");
    assert_eq!(s.details[1].name, "data");
}

#[test]
fn snapshot_merges_all_domains() {
    let raw = RawReadings {
        cpu_bp: 4210,
        mem_total: 1000,
        mem_used: 250,
        swap_total: 0,
        swap_used: 0,
        load_one_c: 152,
        load_five_c: 98,
        load_fifteen_c: 75,
        uptime_s: 3661,
        temps: vec![reading("cpu", 60_000)],
        disks: vec![disk("root", 1000, 250)],
        nets: vec![net("eth0", 7, 3)],
        procs: vec![ProcEntry { pid: 1, name: "init".to_string(), cpu_milli: 100, memory: 4096 }],
    };
    let s = build_snapshot(raw);
    assert_eq!(s.cpu_bp, 4210);
    assert_eq!(s.mem_usage, Some(2500));
    assert_eq!(s.swap, SwapStatus::NotConfigured);
    assert_eq!(s.uptime_s, 3661);
    match s.temp {
        sysmon::sensors::TempSummary::Available { avg_milli, band, .. } => {
            assert_eq!(avg_milli, 60_000);
            assert_eq!(band, Band::Normal);
        }
        _ => panic!("expected a summary"),
    }
    assert_eq!(s.net.active_count, 1);
    assert_eq!(s.disk.disk_count, 1);
    assert_eq!(s.disk.total_used, 750);
    assert_eq!(s.procs.len(), 1);
    assert_eq!(s.temps.len(), 1);
    assert_eq!(s.disks.len(), 1);
    assert_eq!(s.nets.len(), 1);
    assert_eq!(s.nets[0].name, "eth0");
}

#[test]
fn snapshot_configured_swap() {
    let raw = RawReadings {
        cpu_bp: 0,
        mem_total: 0,
        mem_used: 0,
        swap_total: 100,
        swap_used: 60,
        load_one_c: 0,
        load_five_c: 0,
        load_fifteen_c: 0,
        uptime_s: 0,
        temps: vec![],
        disks: vec![],
        nets: vec![],
        procs: vec![],
    };
    let s = build_snapshot(raw);
    assert_eq!(s.mem_usage, None);
    assert_eq!(s.swap, SwapStatus::Configured { bp: 6000, band: Band::Critical });
}

#[test]
fn scheduler_gates_by_interval() {
    let mut sched = RefreshScheduler::new(10_000);
    assert!(!sched.should_refresh(10_000));
    assert!(!sched.should_refresh(10_999));
    assert!(sched.should_refresh(11_000));
    sched.mark_refreshed(11_000);
    assert!(!sched.should_refresh(11_500));
    assert!(sched.should_refresh(12_000));
}

#[test]
fn scheduler_suppresses_backward_clock() {
    let sched = RefreshScheduler::new(10_000);
    assert!(!sched.should_refresh(9_000));
}

#[test]
fn tabs_wrap_both_ways() {
    let mut tabs = TabSelector::new();
    assert_eq!(tabs.index, 0);
    tabs.next();
    assert_eq!(tabs.index, 1);
    tabs.next();
    assert_eq!(tabs.index, 0);
    tabs.previous();
    assert_eq!(tabs.index, 1);
    tabs.previous();
    assert_eq!(tabs.index, 0);
}
