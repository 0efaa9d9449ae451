use std::time::Duration;

use systop::controls::{command_for, Command, Key};
use systop::display::{cpu_load_level, memory_load_level, shown_core_count, uptime_hours_minutes, LoadLevel};
use systop::history::{HistoryRing, HISTORY_LEN};
use systop::monitor::percent;
use systop::process::{goes_before, sort_processes, ProcessInfo};
use systop::{App, CpuReading, HostSample, ProcessSample, SortOrder, SystemMonitor, SystemSample};

fn proc(pid: u32, name: &str, cpu: u64, mem: u64) -> ProcessSample {
    ProcessSample { pid, name: name.to_string(), cpu_usage: cpu, memory: mem }
}

fn sample(usages: &[u64], total: u64, used: u64, processes: Vec<ProcessSample>) -> SystemSample {
    SystemSample {
        cpus: usages
            .iter()
            .enumerate()
            .map(|(i, u)| CpuReading { name: format!("cpu{}", i), usage: *u })
            .collect(),
        total_memory: total,
        used_memory: used,
        processes,
        host: HostSample { host_name: Some("box".to_string()), kernel_version: None, os_version: None, uptime: 7260 },
    }
}

fn pids(v: &[ProcessInfo]) -> Vec<u32> {
    v.iter().map(|p| p.pid).collect()
}

#[test]
fn history_keeps_last_sixty_in_order() {
    let mut h = HistoryRing::new();
    for v in 0..70u64 {
        h.push(v);
        assert!(h.len() <= HISTORY_LEN);
    }
    let expected: Vec<u64> = (10..70u64).collect();
    assert_eq!(h.values(), expected);
    assert_eq!(h.len(), 60);
}

#[test]
fn history_below_capacity_keeps_all() {
    let mut h = HistoryRing::new();
    assert!(h.is_empty());
    h.push(5);
    h.push(7);
    assert_eq!(h.values(), vec![5, 7]);
}

#[test]
fn two_cores_two_refreshes() {
    let mut m = SystemMonitor::new(sample(&[0, 0], 100, 50, vec![]));
    m.refresh(sample(&[10, 90], 100, 50, vec![]));
    m.refresh(sample(&[20, 70], 100, 50, vec![]));
    let cpus = m.get_cpu_info();
    assert_eq!(cpus[0].history.values(), vec![10, 20]);
    assert_eq!(cpus[1].history.values(), vec![90, 70]);
    assert_eq!(cpus[0].usage, 20);
    assert_eq!(cpus[1].usage, 70);
}

#[test]
fn fresh_monitor_has_empty_histories() {
    let m = SystemMonitor::new(sample(&[30, 40], 100, 50, vec![]));
    let cpus = m.get_cpu_info();
    assert_eq!(cpus.len(), 2);
    assert_eq!(cpus[0].usage, 0);
    assert_eq!(cpus[0].name, "cpu0");
    assert!(cpus[1].history.is_empty());
    assert!(m.get_memory_history().is_empty());
}

#[test]
fn each_refresh_grows_histories_by_one() {
    let mut m = SystemMonitor::new(sample(&[1, 2, 3], 100, 25, vec![]));
    for k in 1..=3usize {
        m.refresh(sample(&[4, 5, 6], 100, 25, vec![proc(k as u32, "p", 1, 1)]));
        for c in m.get_cpu_info() {
            assert_eq!(c.history.len(), k);
        }
        assert_eq!(m.get_memory_history().len(), k);
        assert_eq!(m.get_processes(&SortOrder::Pid).len(), 1);
    }
}

#[test]
fn extra_cores_ignored_missing_cores_kept() {
    let mut m = SystemMonitor::new(sample(&[0, 0], 100, 0, vec![]));
    m.refresh(sample(&[11, 22, 33], 100, 0, vec![]));
    assert_eq!(m.get_cpu_info().len(), 2);
    m.refresh(sample(&[44], 100, 0, vec![]));
    let cpus = m.get_cpu_info();
    assert_eq!(cpus[0].history.values(), vec![11, 44]);
    assert_eq!(cpus[1].history.values(), vec![22]);
    assert_eq!(cpus[1].usage, 22);
}

#[test]
fn memory_history_records_percent() {
    let mut m = SystemMonitor::new(sample(&[], 400, 100, vec![]));
    m.refresh(sample(&[], 400, 100, vec![]));
    m.refresh(sample(&[], 3, 1, vec![]));
    assert_eq!(m.get_memory_history().values(), vec![2500, 3333]);
    assert_eq!(m.get_memory_percent(), 3333);
    assert_eq!(m.get_total_memory(), 3);
    assert_eq!(m.get_used_memory(), 1);
}

#[test]
fn percent_edges() {
    assert_eq!(percent(1, 2), 5000);
    assert_eq!(percent(5, 0), 0);
    assert_eq!(percent(0, 9), 0);
    assert_eq!(percent(u64::MAX, 1), u64::MAX);
}

#[test]
fn sort_by_cpu_then_memory() {
    let m = SystemMonitor::new(sample(&[], 1000, 0, vec![proc(1, "a", 500, 100), proc(2, "b", 5000, 50)]));
    assert_eq!(pids(&m.get_processes(&SortOrder::Cpu)), vec![2, 1]);
    assert_eq!(pids(&m.get_processes(&SortOrder::Memory)), vec![1, 2]);
}

#[test]
fn sort_by_pid_ascending() {
    let m = SystemMonitor::new(sample(&[], 1000, 0, vec![proc(30, "a", 1, 1), proc(4, "b", 1, 1), proc(17, "c", 1, 1)]));
    assert_eq!(pids(&m.get_processes(&SortOrder::Pid)), vec![4, 17, 30]);
}

#[test]
fn sort_by_name_ignores_case() {
    let m = SystemMonitor::new(sample(
        &[],
        1000,
        0,
        vec![proc(1, "zsh", 1, 1), proc(2, "Bash", 1, 1), proc(3, "apache", 1, 1), proc(4, "Cron", 1, 1)],
    ));
    let names: Vec<String> = m.get_processes(&SortOrder::Name).into_iter().map(|p| p.name).collect();
    assert_eq!(names, vec!["apache", "Bash", "Cron", "zsh"]);
}

#[test]
fn rows_carry_memory_percent() {
    let m = SystemMonitor::new(sample(&[], 1000, 0, vec![proc(9, "x", 3, 250)]));
    let rows = m.get_processes(&SortOrder::Cpu);
    assert_eq!(rows.len(), 1);
    assert_eq!(rows[0].memory_percent, 2500);
    assert_eq!(rows[0].cpu_usage, 3);
    assert_eq!(rows[0].name, "x");
}

#[test]
fn empty_table_gives_empty_view() {
    let mut m = SystemMonitor::new(sample(&[10], 100, 10, vec![]));
    m.refresh(sample(&[10], 100, 10, vec![]));
    for order in [SortOrder::Cpu, SortOrder::Memory, SortOrder::Pid, SortOrder::Name] {
        assert!(m.get_processes(&order).is_empty());
    }
}

#[test]
fn sort_keeps_every_row() {
    let rows = vec![
        ProcessInfo { pid: 1, name: "a".to_string(), cpu_usage: 7, memory: 1, memory_percent: 0 },
        ProcessInfo { pid: 2, name: "b".to_string(), cpu_usage: 7, memory: 1, memory_percent: 0 },
        ProcessInfo { pid: 3, name: "c".to_string(), cpu_usage: 9, memory: 1, memory_percent: 0 },
    ];
    let sorted = sort_processes(&rows, SortOrder::Cpu);
    let mut got = pids(&sorted);
    assert_eq!(got[0], 3);
    got.sort();
    assert_eq!(got, vec![1, 2, 3]);
}

#[test]
fn name_comparison_lowercases() {
    let a = ProcessInfo { pid: 1, name: "B".to_string(), cpu_usage: 0, memory: 0, memory_percent: 0 };
    let b = ProcessInfo { pid: 2, name: "a".to_string(), cpu_usage: 0, memory: 0, memory_percent: 0 };
    assert!(goes_before(SortOrder::Name, &b, &a));
    assert!(!goes_before(SortOrder::Name, &a, &b));
}

#[test]
fn system_info_fills_unknown() {
    let m = SystemMonitor::new(sample(&[], 1, 0, vec![]));
    let info = m.get_system_info();
    assert_eq!(info.hostname, "box");
    assert_eq!(info.kernel_version, "unknown");
    assert_eq!(info.os_version, "unknown");
    assert_eq!(info.uptime, 7260);
}

#[test]
fn clamp_after_view_shrinks() {
    let mut app = App::new(Duration::from_millis(1000), false);
    for _ in 0..4 {
        app.move_selection_down(5);
    }
    assert_eq!(app.selected_process(), 4);
    app.clamp_selection(2);
    assert_eq!(app.selected_process(), 1);
    app.clamp_selection(0);
    assert_eq!(app.selected_process(), 0);
}

#[test]
fn cursor_stays_in_bounds() {
    let mut app = App::new(Duration::from_millis(1000), true);
    app.move_selection_up();
    assert_eq!(app.selected_process(), 0);
    app.move_selection_down(0);
    assert_eq!(app.selected_process(), 0);
    app.move_selection_down(2);
    app.move_selection_down(2);
    assert_eq!(app.selected_process(), 1);
    assert!(app.debug_mode());
}

#[test]
fn keys_map_to_commands() {
    assert_eq!(command_for(Key::Char('q'), false), Command::Quit);
    assert_eq!(command_for(Key::Char('c'), true), Command::Quit);
    assert_eq!(command_for(Key::Char('c'), false), Command::SortBy(SortOrder::Cpu));
    assert_eq!(command_for(Key::Char('m'), false), Command::SortBy(SortOrder::Memory));
    assert_eq!(command_for(Key::Up, false), Command::SelectUp);
    assert_eq!(command_for(Key::Char('k'), false), Command::SelectUp);
    assert_eq!(command_for(Key::Down, false), Command::SelectDown);
    assert_eq!(command_for(Key::Char('j'), false), Command::SelectDown);
    assert_eq!(command_for(Key::Char('K'), false), Command::KillSelected);
    assert_eq!(command_for(Key::Char('x'), false), Command::Ignore);
    assert_eq!(command_for(Key::Other, true), Command::Ignore);
}

#[test]
fn commands_drive_state() {
    let m = SystemMonitor::new(sample(&[], 1000, 0, vec![proc(1, "a", 10, 300), proc(2, "b", 50, 100)]));
    let mut app = App::new(Duration::from_millis(500), false);
    let view = m.get_processes(&app.sort_order());
    assert_eq!(app.apply(Command::SelectDown, &view), None);
    assert_eq!(app.apply(Command::KillSelected, &view), Some(1));
    assert_eq!(app.apply(Command::SortBy(SortOrder::Memory), &view), None);
    assert_eq!(app.sort_order(), SortOrder::Memory);
    assert_eq!(app.selected_process(), 0);
    let view = m.get_processes(&app.sort_order());
    assert_eq!(app.apply(Command::KillSelected, &view), Some(1));
    assert_eq!(app.apply(Command::KillSelected, &vec![]), None);
    assert!(!app.should_quit());
    assert_eq!(app.apply(Command::Quit, &view), None);
    assert!(app.should_quit());
}

#[test]
fn display_rules() {
    assert_eq!(uptime_hours_minutes(7260), (2, 1));
    assert_eq!(uptime_hours_minutes(59), (0, 0));
    assert_eq!(cpu_load_level(50), LoadLevel::Low);
    assert_eq!(cpu_load_level(51), LoadLevel::Moderate);
    assert_eq!(cpu_load_level(81), LoadLevel::High);
    assert_eq!(memory_load_level(60), LoadLevel::Low);
    assert_eq!(memory_load_level(85), LoadLevel::Moderate);
    assert_eq!(memory_load_level(86), LoadLevel::High);
    assert_eq!(shown_core_count(2), 2);
    assert_eq!(shown_core_count(16), 4);
}

#[test]
fn move_down_caps_a_cursor_past_the_end() {
    let mut app = App::new(Duration::from_millis(1000), false);
    for _ in 0..5 {
        app.move_selection_down(6);
    }
    assert_eq!(app.selected_process(), 5);
    app.move_selection_down(2);
    assert_eq!(app.selected_process(), 1);
    app.move_selection_down(0);
    assert_eq!(app.selected_process(), 0);
}

#[test]
fn name_sort_with_equal_lowercase_names() {
    let m = SystemMonitor::new(sample(
        &[],
        1000,
        0,
        vec![proc(1, "ZED", 1, 1), proc(2, "alpha", 1, 1), proc(3, "zed", 1, 1), proc(4, "Alpha", 1, 1)],
    ));
    let names: Vec<String> = m.get_processes(&SortOrder::Name).into_iter().map(|p| p.name.to_lowercase()).collect();
    assert_eq!(names, vec!["alpha", "alpha", "zed", "zed"]);
}
