use procdash::app::ProcessSort;
use procdash::process::{
    category_bucket, preview_rows, sort_processes, visible_slice, ProcessInfo,
};
use procdash::category::ProcessCategory;

fn rec(pid: u32, name: &str, cpu_centi: u64, memory: u64) -> ProcessInfo {
    ProcessInfo::new(pid, name.to_string(), cpu_centi, memory, "Running".to_string())
}

fn pids(v: &[ProcessInfo]) -> Vec<u32> {
    v.iter().map(|p| p.pid).collect()
}

#[test]
fn sort_by_cpu_descending_by_default() {
    let list = vec![rec(1, "a", 500, 10), rec(2, "b", 1500, 20), rec(3, "c", 1000, 30)];
    let out = sort_processes(list, ProcessSort::Cpu, false);
    assert_eq!(pids(&out), vec![2, 3, 1]);
}

#[test]
fn sort_by_memory_and_pid() {
    let list = vec![rec(3, "a", 0, 5), rec(1, "b", 0, 50), rec(2, "c", 0, 20)];
    let by_mem = sort_processes(list.clone(), ProcessSort::Memory, false);
    assert_eq!(pids(&by_mem), vec![1, 2, 3]);
    let by_pid = sort_processes(list, ProcessSort::Pid, true);
    assert_eq!(pids(&by_pid), vec![1, 2, 3]);
}

#[test]
fn sort_by_name_directions_reverse_each_other() {
    let list = vec![rec(1, "delta", 0, 0), rec(2, "alpha", 0, 0), rec(3, "charlie", 0, 0)];
    let desc = sort_processes(list.clone(), ProcessSort::Name, false);
    let asc = sort_processes(list, ProcessSort::Name, true);
    assert_eq!(pids(&desc), vec![1, 3, 2]);
    let mut reversed = pids(&desc);
    reversed.reverse();
    assert_eq!(pids(&asc), reversed);
}

#[test]
fn sort_is_stable_for_duplicate_keys() {
    let list = vec![
        rec(1, "same", 100, 0),
        rec(2, "other", 100, 0),
        rec(3, "same", 100, 0),
        rec(4, "same", 100, 0),
    ];
    // equal names keep snapshot order, whatever the direction
    let asc = sort_processes(list.clone(), ProcessSort::Name, true);
    assert_eq!(pids(&asc), vec![2, 1, 3, 4]);
    let desc = sort_processes(list.clone(), ProcessSort::Name, false);
    assert_eq!(pids(&desc), vec![1, 3, 4, 2]);
    // equal CPU values keep snapshot order too
    let by_cpu = sort_processes(list, ProcessSort::Cpu, false);
    assert_eq!(pids(&by_cpu), vec![1, 2, 3, 4]);
}

#[test]
fn browser_box_scenario() {
    // twelve processes, five carrying a browser token
    let list = vec![
        rec(1, "systemd", 100, 0),
        rec(2, "firefox", 2100, 0),
        rec(3, "cargo", 900, 0),
        rec(4, "chrome", 4500, 0),
        rec(5, "bash", 50, 0),
        rec(6, "brave", 300, 0),
        rec(7, "nvim", 150, 0),
        rec(8, "vivaldi", 800, 0),
        rec(9, "spotify", 700, 0),
        rec(10, "opera", 1200, 0),
        rec(11, "mysqld", 20, 0),
        rec(12, "some-tool", 10, 0),
    ];
    let bucket = category_bucket(list, ProcessCategory::Browser);
    assert_eq!(pids(&bucket), vec![2, 4, 6, 8, 10]);
    let sorted = sort_processes(bucket, ProcessSort::Cpu, false);
    // descending CPU, the preview cap of ten rows trivially satisfied,
    // and the scroll offset plays no part in a grid box
    let shown = preview_rows(sorted);
    assert_eq!(pids(&shown), vec![4, 2, 10, 8, 6]);
}

#[test]
fn preview_caps_at_ten_rows() {
    let mut list = Vec::new();
    for i in 0..13u32 {
        list.push(rec(i, "p", 0, 0));
    }
    let shown = preview_rows(list);
    assert_eq!(shown.len(), 10);
    assert_eq!(pids(&shown), vec![0, 1, 2, 3, 4, 5, 6, 7, 8, 9]);
}

#[test]
fn scroll_offset_slices_the_sorted_list() {
    let list = vec![
        rec(1, "a", 500, 0),
        rec(2, "b", 400, 0),
        rec(3, "c", 300, 0),
        rec(4, "d", 200, 0),
        rec(5, "e", 100, 0),
    ];
    let sorted = sort_processes(list, ProcessSort::Cpu, false);
    assert_eq!(pids(&sorted), vec![1, 2, 3, 4, 5]);
    // a scroll offset of three over five sorted rows shows the last two
    let visible = visible_slice(sorted, 3);
    assert_eq!(pids(&visible), vec![4, 5]);
}

#[test]
fn scroll_offset_beyond_the_end_shows_nothing() {
    let list = vec![rec(1, "a", 0, 0), rec(2, "b", 0, 0)];
    let visible = visible_slice(list, 9);
    assert!(visible.is_empty());
}

#[test]
fn empty_bucket_is_not_an_error() {
    let list = vec![rec(1, "cargo", 0, 0)];
    let bucket = category_bucket(list, ProcessCategory::Media);
    assert!(bucket.is_empty());
}

#[test]
fn record_constructor_categorizes() {
    let p = rec(7, "firefox", 123, 456);
    assert_eq!(p.category, ProcessCategory::Browser);
    assert_eq!(p.pid, 7);
    assert_eq!(p.cpu_centi, 123);
    assert_eq!(p.memory, 456);
    assert_eq!(p.status, "Running".to_string());
}
