use sysmon::rank::{top_by_cpu, top_by_memory};
use sysmon::scan::{rank_subdirectories, size_of_listing, DirEntryInfo, DirListing, SubdirSize};
use sysmon::snapshot::ProcEntry;

fn proc(pid: u64, name: &str, cpu_milli: u64, memory: u64) -> ProcEntry {
    ProcEntry { pid, name: name.to_string(), cpu_milli, memory }
}

#[test]
fn top_by_cpu_sorts_descending() {
    let procs = vec![
        proc(1, "a", 1_000, 10),
        proc(2, "b", 9_000, 20),
        proc(3, "c", 5_000, 30),
    ];
    let top = top_by_cpu(&procs, 15);
    assert_eq!(top.len(), 3);
    assert_eq!(top[0].pid, 2);
    assert_eq!(top[1].pid, 3);
    assert_eq!(top[2].pid, 1);
}

#[test]
fn top_by_cpu_length_is_min() {
    let procs = vec![proc(1, "a", 1, 1), proc(2, "b", 2, 2)];
    assert_eq!(top_by_cpu(&procs, 15).len(), 2);
    assert_eq!(top_by_cpu(&procs, 1).len(), 1);
    assert_eq!(top_by_cpu(&procs, 0).len(), 0);
    let empty: Vec<ProcEntry> = vec![];
    assert_eq!(top_by_cpu(&empty, 15).len(), 0);
}

#[test]
fn top_by_cpu_is_stable_on_ties() {
    let procs = vec![
        proc(10, "a", 500, 1),
        proc(11, "b", 500, 2),
        proc(12, "c", 900, 3),
        proc(13, "d", 500, 4),
    ];
    let top = top_by_cpu(&procs, 15);
    let pids: Vec<u64> = top.iter().map(|p| p.pid).collect();
    assert_eq!(pids, [12, 10, 11, 13]);
}

#[test]
fn top_by_memory_sorts_descending() {
    let procs = vec![
        proc(1, "a", 0, 300),
        proc(2, "b", 0, 100),
        proc(3, "c", 0, 200),
        proc(4, "d", 0, 300),
    ];
    let top = top_by_memory(&procs, 2);
    let pids: Vec<u64> = top.iter().map(|p| p.pid).collect();
    assert_eq!(pids, [1, 4]);
}

#[test]
fn top_leaves_input_unchanged() {
    let procs = vec![proc(1, "a", 1, 9), proc(2, "b", 2, 8)];
    let _ = top_by_cpu(&procs, 15);
    let _ = top_by_memory(&procs, 15);
    assert_eq!(procs[0].pid, 1);
    assert_eq!(procs[1].pid, 2);
}

#[test]
fn size_of_files_is_exact_sum() {
    let listing = DirListing::Entries(vec![
        DirEntryInfo::File { size: 100 },
        DirEntryInfo::File { size: 250 },
        DirEntryInfo::File { size: 7 },
    ]);
    assert_eq!(size_of_listing("/tmp/things", listing).unwrap(), 357);
}

#[test]
fn size_of_subdirectories_only_is_zero() {
    let listing = DirListing::Entries(vec![DirEntryInfo::NotFile, DirEntryInfo::NotFile]);
    assert_eq!(size_of_listing("/tmp/things", listing).unwrap(), 0);
}

#[test]
fn size_of_missing_path_is_zero() {
    assert_eq!(size_of_listing("/no/such/path", DirListing::Missing).unwrap(), 0);
}

#[test]
fn size_of_unreadable_directory_is_error() {
    let e = size_of_listing("/root/locked", DirListing::Unreadable).unwrap_err();
    assert_eq!(e.path, "/root/locked");
}

#[test]
fn size_skips_unreadable_entries() {
    let listing = DirListing::Entries(vec![
        DirEntryInfo::File { size: 40 },
        DirEntryInfo::MetaUnavailable,
        DirEntryInfo::NotFile,
        DirEntryInfo::File { size: 2 },
    ]);
    assert_eq!(size_of_listing("/home/someone", listing).unwrap(), 42);
}

fn subdir(name: &str, size: u64) -> SubdirSize {
    SubdirSize { name: name.to_string(), size }
}

#[test]
fn subdirectories_ranked_top_two() {
    let cands = vec![
        subdir("Downloads", 500),
        subdir("Documents", 900),
        subdir("Pictures", 0),
        subdir("Videos", 700),
    ];
    let top = rank_subdirectories(&cands);
    assert_eq!(top.len(), 2);
    assert_eq!(top[0].name, "Documents");
    assert_eq!(top[1].name, "Videos");
}

#[test]
fn subdirectories_discard_zero_and_tie_stably() {
    let cands = vec![subdir("Music", 300), subdir("Desktop", 300), subdir("Empty", 0)];
    let top = rank_subdirectories(&cands);
    assert_eq!(top.len(), 2);
    assert_eq!(top[0].name, "Music");
    assert_eq!(top[1].name, "Desktop");
    let none: Vec<SubdirSize> = vec![subdir("Empty", 0)];
    assert_eq!(rank_subdirectories(&none).len(), 0);
    let one = vec![subdir("Only", 5)];
    assert_eq!(rank_subdirectories(&one).len(), 1);
}
