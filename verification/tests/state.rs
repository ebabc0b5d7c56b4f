use cowtui::app::{App, ProcessSort, Series, Tab, HISTORY};
use cowtui::input::{Action, Key};
use cowtui::sys::{Mem, Proc, Reading, Snapshot};
use cowtui::ui::theme::Theme;

fn proc_(pid: i32, name: &str, cpu: u64, rss: u64) -> Proc {
    Proc {
        pid,
        ppid: 1,
        name: name.to_string(),
        state: 'S',
        threads: 1,
        uid: 0,
        cpu_order: cpu,
        rss_kb: rss,
    }
}

fn snapshot(ctx: u64, intr: u64, procs: Vec<Proc>) -> Snapshot {
    Snapshot {
        mem: Mem::zero(),
        conns: Vec::new(),
        top_cpu: procs.clone(),
        top_mem: procs,
        proc_total: 3,
        hostname: "barn".to_string(),
        kernel: "6.1".to_string(),
        ctx_switches: ctx,
        interrupts: intr,
    }
}

fn reading(v: u64) -> Reading {
    Reading {
        cpu_percent: v,
        mem_percent: v + 1,
        rx_kib: v + 2,
        tx_kib: v + 3,
        disk_read_kib: v + 4,
        disk_write_kib: v + 5,
    }
}

fn pids(ps: &[Proc]) -> Vec<i32> {
    ps.iter().map(|p| p.pid).collect()
}

#[test]
fn tab_titles_and_indices() {
    assert_eq!(
        Tab::titles(),
        [" Overview ", " CPU ", " Processes ", " Packets ", " Storage ", " Sensors "]
    );
    for (i, t) in Tab::ALL.iter().enumerate() {
        assert_eq!(t.index(), i);
        assert_eq!(Tab::from_index(i), *t);
    }
    assert_eq!(Tab::Sensors.index(), 5);
}

#[test]
fn series_keeps_the_latest_window() {
    let mut s = Series::new();
    assert!(s.as_vec().is_empty());
    for v in 0..(HISTORY as u64 + 10) {
        s.push(v);
    }
    let v = s.as_vec();
    assert_eq!(v.len(), HISTORY);
    assert_eq!(v[0], 10);
    assert_eq!(*v.last().unwrap(), HISTORY as u64 + 9);
    let mut short = Series::new();
    short.push(7);
    short.push(8);
    assert_eq!(short.as_vec(), vec![7, 8]);
}

#[test]
fn new_app_starts_on_overview() {
    let app = App::new(32, Theme::pasture());
    assert_eq!(app.tab, Tab::Overview);
    assert!(!app.paused);
    assert_eq!(app.top_count, 32);
    assert_eq!(app.proc_sort, ProcessSort::Cpu);
    assert!(app.proc_sort_desc);
    assert!(app.search_query.is_none());
    assert_eq!(app.cow_frame, 0);
    assert_eq!(app.theme.name, "Pasture");
}

#[test]
fn tabs_cycle_and_reset_scroll() {
    let mut app = App::new(8, Theme::pasture());
    app.scroll_down();
    app.scroll_down();
    assert_eq!(app.table_scroll, 2);
    app.next_tab();
    assert_eq!(app.tab, Tab::Cpu);
    assert_eq!(app.table_scroll, 0);
    app.prev_tab();
    app.prev_tab();
    assert_eq!(app.tab, Tab::Sensors);
    for _ in 0..6 {
        app.next_tab();
    }
    assert_eq!(app.tab, Tab::Sensors);
    app.select_tab(2);
    assert_eq!(app.tab, Tab::Processes);
    app.scroll_down();
    app.select_tab(6);
    assert_eq!(app.tab, Tab::Processes);
    assert_eq!(app.table_scroll, 1);
    app.scroll_up();
    app.scroll_up();
    assert_eq!(app.table_scroll, 0);
}

#[test]
fn scroll_saturates_at_the_top_and_bottom() {
    let mut app = App::new(8, Theme::pasture());
    app.scroll_up();
    assert_eq!(app.table_scroll, 0);
    app.table_scroll = usize::MAX;
    app.scroll_down();
    assert_eq!(app.table_scroll, usize::MAX);
}

#[test]
fn refresh_records_rates_and_history() {
    let mut app = App::new(8, Theme::pasture());
    app.refresh(Ok((snapshot(100, 50, vec![]), reading(10))));
    assert_eq!(app.ctx_rate, 100);
    assert_eq!(app.intr_rate, 50);
    app.refresh(Ok((snapshot(160, 40, vec![]), reading(20))));
    assert_eq!(app.ctx_rate, 60);
    assert_eq!(app.intr_rate, 0);
    assert_eq!(app.cpu_hist.as_vec(), vec![10, 20]);
    assert_eq!(app.mem_hist.as_vec(), vec![11, 21]);
    assert_eq!(app.disk_w_hist.as_vec(), vec![15, 25]);
    assert_eq!(app.cow_frame, 2);
    assert_eq!(app.snapshot.hostname, "barn");
    app.refresh(Err("no proc".to_string()));
    assert_eq!(app.error.as_deref(), Some("no proc"));
    assert_eq!(app.cow_frame, 3);
    assert_eq!(app.cpu_hist.as_vec(), vec![10, 20]);
    app.refresh(Ok((snapshot(170, 45, vec![]), reading(30))));
    assert!(app.error.is_none());
    assert_eq!(app.ctx_rate, 10);
}

#[test]
fn refresh_while_paused_changes_nothing() {
    let mut app = App::new(8, Theme::pasture());
    app.toggle_pause();
    app.refresh(Ok((snapshot(100, 50, vec![]), reading(10))));
    assert_eq!(app.cow_frame, 0);
    assert_eq!(app.ctx_rate, 0);
    assert!(app.cpu_hist.as_vec().is_empty());
    app.toggle_pause();
    assert!(!app.paused);
}

#[test]
fn cow_frame_wraps() {
    let mut app = App::new(8, Theme::pasture());
    app.cow_frame = u64::MAX;
    app.refresh(Err("x".to_string()));
    assert_eq!(app.cow_frame, 0);
}

#[test]
fn themes_cycle_both_ways() {
    let mut app = App::new(8, Theme::pasture());
    let names: Vec<&str> = (0..6)
        .map(|_| {
            app.next_theme();
            app.theme.name
        })
        .collect();
    assert_eq!(names, vec!["Midnight", "Sunset", "Forest", "Arctic", "Retro", "Pasture"]);
    app.prev_theme();
    assert_eq!(app.theme.name, "Retro");
    app.next_theme();
    assert_eq!(app.theme.name, "Pasture");
}

#[test]
fn sort_cycles_through_columns() {
    let mut app = App::new(8, Theme::pasture());
    app.scroll_down();
    app.cycle_sort();
    assert_eq!(app.proc_sort, ProcessSort::Mem);
    assert_eq!(app.table_scroll, 0);
    app.cycle_sort();
    assert_eq!(app.proc_sort, ProcessSort::Pid);
    app.cycle_sort();
    assert_eq!(app.proc_sort, ProcessSort::Name);
    app.cycle_sort();
    assert_eq!(app.proc_sort, ProcessSort::Cpu);
}

#[test]
fn search_query_is_lowercased_for_the_filter() {
    let mut app = App::new(8, Theme::pasture());
    app.search_push('x');
    assert!(app.search_query.is_none());
    app.enter_search();
    assert_eq!(app.search_query.as_deref(), Some(""));
    app.search_push('B');
    app.search_push('a');
    assert_eq!(app.search_query.as_deref(), Some("Ba"));
    assert_eq!(app.lowered_query, "ba");
    app.search_pop();
    assert_eq!(app.search_query.as_deref(), Some("B"));
    assert_eq!(app.lowered_query, "b");
    app.search_pop();
    app.search_pop();
    assert_eq!(app.search_query.as_deref(), Some(""));
    app.search_push('Z');
    app.exit_search();
    assert!(app.search_query.is_none());
    assert_eq!(app.lowered_query, "");
}

#[test]
fn help_toggle_leaves_search() {
    let mut app = App::new(8, Theme::pasture());
    app.enter_search();
    app.toggle_help();
    assert!(app.show_help);
    assert!(app.search_query.is_none());
    app.toggle_help();
    assert!(!app.show_help);
}

fn sample_app() -> App {
    let mut app = App::new(8, Theme::pasture());
    let procs = vec![
        proc_(300, "bash", 5, 4000),
        proc_(12, "Firefox", 50, 900000),
        proc_(7, "sshd", 5, 2000),
        proc_(45, "fire-cracker", 20, 3000),
        proc_(1, "init", 0, 100),
    ];
    app.refresh(Ok((snapshot(1, 1, procs), reading(1))));
    app
}

#[test]
fn filtered_procs_sort_by_each_column() {
    let mut app = sample_app();
    // CPU, largest first; ties keep their sampled order.
    assert_eq!(pids(&app.filtered_procs(10, true)), vec![12, 45, 300, 7, 1]);
    app.cycle_sort();
    assert_eq!(pids(&app.filtered_procs(10, true)), vec![12, 300, 45, 7, 1]);
    app.cycle_sort();
    assert_eq!(pids(&app.filtered_procs(10, true)), vec![1, 7, 12, 45, 300]);
    app.cycle_sort();
    // Names compare by code point: upper case first.
    assert_eq!(pids(&app.filtered_procs(10, true)), vec![12, 300, 45, 1, 7]);
}

#[test]
fn filtered_procs_ascending_reverses_and_truncates() {
    let mut app = sample_app();
    app.proc_sort_desc = false;
    assert_eq!(pids(&app.filtered_procs(10, true)), vec![1, 7, 300, 45, 12]);
    assert_eq!(pids(&app.filtered_procs(2, true)), vec![1, 7]);
    app.proc_sort_desc = true;
    assert_eq!(pids(&app.filtered_procs(2, false)), vec![12, 45]);
    assert!(app.filtered_procs(0, true).is_empty());
}

#[test]
fn filtered_procs_match_name_or_pid() {
    let mut app = sample_app();
    app.enter_search();
    app.search_push('F');
    app.search_push('I');
    assert_eq!(pids(&app.filtered_procs(10, true)), vec![12, 45]);
    app.exit_search();
    app.enter_search();
    app.search_push('3');
    assert_eq!(pids(&app.filtered_procs(10, true)), vec![300]);
    app.search_pop();
    app.search_push('1');
    // "1" occurs in pid 12, pid 1 and in no name.
    assert_eq!(pids(&app.filtered_procs(10, true)), vec![12, 1]);
    app.search_pop();
    app.search_push('z');
    assert!(app.filtered_procs(10, true).is_empty());
}

#[test]
fn filtered_procs_find_negative_pids_by_text() {
    let mut app = App::new(8, Theme::pasture());
    app.refresh(Ok((snapshot(0, 0, vec![proc_(-42, "odd", 1, 1), proc_(42, "even", 1, 1)]), reading(0))));
    app.enter_search();
    app.search_push('-');
    assert_eq!(pids(&app.filtered_procs(10, true)), vec![-42]);
}

#[test]
fn keys_in_normal_mode() {
    let mut app = sample_app();
    assert_eq!(app.handle_key(Key::Tab, false), Action::Continue);
    assert_eq!(app.tab, Tab::Cpu);
    app.handle_key(Key::Right, false);
    assert_eq!(app.tab, Tab::Processes);
    app.handle_key(Key::Left, false);
    app.handle_key(Key::BackTab, false);
    assert_eq!(app.tab, Tab::Overview);
    app.handle_key(Key::Char('5'), false);
    assert_eq!(app.tab, Tab::Storage);
    app.handle_key(Key::Char('6'), false);
    assert_eq!(app.tab, Tab::Sensors);
    app.handle_key(Key::Char('7'), false);
    assert_eq!(app.tab, Tab::Sensors);
    app.handle_key(Key::Down, false);
    app.handle_key(Key::Char('j'), false);
    assert_eq!(app.table_scroll, 2);
    app.handle_key(Key::Up, false);
    assert_eq!(app.table_scroll, 1);
    assert_eq!(app.handle_key(Key::Char('p'), false), Action::Continue);
    assert!(app.paused);
    assert_eq!(app.handle_key(Key::Char('r'), false), Action::Refresh);
    assert_eq!(app.handle_key(Key::Char('t'), false), Action::SaveTheme);
    assert_eq!(app.theme.name, "Midnight");
    assert_eq!(app.handle_key(Key::Char('T'), false), Action::SaveTheme);
    assert_eq!(app.theme.name, "Pasture");
    app.handle_key(Key::Char('s'), false);
    assert_eq!(app.proc_sort, ProcessSort::Mem);
    assert_eq!(app.handle_key(Key::Char('c'), false), Action::Continue);
    assert_eq!(app.handle_key(Key::Char('c'), true), Action::Quit);
    assert_eq!(app.handle_key(Key::Char('q'), false), Action::Quit);
    assert_eq!(app.handle_key(Key::Esc, false), Action::Quit);
    assert_eq!(app.handle_key(Key::Other, false), Action::Continue);
}

#[test]
fn keys_select_and_kill() {
    let mut app = sample_app();
    assert_eq!(app.handle_key(Key::Char('k'), false), Action::Continue);
    app.handle_key(Key::Enter, false);
    assert_eq!(app.selected_pid, Some(12));
    assert_eq!(app.handle_key(Key::Char('k'), false), Action::Kill(12));
    assert_eq!(app.selected_pid, None);
    assert_eq!(app.handle_key(Key::Char('k'), false), Action::Continue);
    let mut empty = App::new(8, Theme::pasture());
    empty.handle_key(Key::Enter, false);
    assert_eq!(empty.selected_pid, None);
}

#[test]
fn keys_while_searching_edit_the_query() {
    let mut app = sample_app();
    app.handle_key(Key::Char('/'), false);
    assert!(app.search_query.is_some());
    assert_eq!(app.handle_key(Key::Char('q'), false), Action::Continue);
    assert_eq!(app.handle_key(Key::Char('S'), false), Action::Continue);
    assert_eq!(app.search_query.as_deref(), Some("qS"));
    assert_eq!(app.lowered_query, "qs");
    app.handle_key(Key::Backspace, false);
    assert_eq!(app.search_query.as_deref(), Some("q"));
    app.handle_key(Key::Tab, false);
    assert_eq!(app.tab, Tab::Overview);
    app.handle_key(Key::Enter, false);
    assert!(app.search_query.is_none());
    app.handle_key(Key::Char('/'), false);
    app.handle_key(Key::Esc, false);
    assert!(app.search_query.is_none());
}

#[test]
fn keys_while_help_is_open() {
    let mut app = sample_app();
    app.handle_key(Key::Char('?'), false);
    assert!(app.show_help);
    assert_eq!(app.handle_key(Key::Char('q'), false), Action::Continue);
    app.handle_key(Key::Tab, false);
    assert_eq!(app.tab, Tab::Overview);
    app.handle_key(Key::Char('?'), false);
    assert!(!app.show_help);
    app.handle_key(Key::Char('?'), false);
    app.handle_key(Key::Esc, false);
    assert!(!app.show_help);
}

fn history_lengths(app: &App) -> Vec<usize> {
    vec![
        app.cpu_hist.as_vec().len(),
        app.mem_hist.as_vec().len(),
        app.rx_hist.as_vec().len(),
        app.tx_hist.as_vec().len(),
        app.disk_r_hist.as_vec().len(),
        app.disk_w_hist.as_vec().len(),
    ]
}

#[test]
fn histories_grow_together_up_to_the_window() {
    let mut app = App::new(8, Theme::pasture());
    let mut recorded: usize = 0;
    for i in 0..500u64 {
        match i % 7 {
            0 => app.refresh(Err("no proc".to_string())),
            1 => {
                app.toggle_pause();
                app.refresh(Ok((snapshot(i, i, vec![]), reading(i))));
                app.toggle_pause();
            }
            2 => {
                app.handle_key(Key::Char('t'), false);
                app.handle_key(Key::Tab, false);
            }
            _ => {
                app.refresh(Ok((snapshot(i, i, vec![]), reading(i))));
                recorded += 1;
            }
        }
        let expected = recorded.min(HISTORY);
        assert_eq!(history_lengths(&app), vec![expected; 6]);
    }
    assert_eq!(history_lengths(&app), vec![HISTORY; 6]);
}
