use memtui::app::{App, Focus};
use memtui::collector::{MemorySnapshot, ProcessMemory};
use memtui::input::{KeyCode, KeyModifiers, CONTROL, SHIFT};
use memtui::ui::widgets::{ListState, ProcessListState, SortMode};

fn proc(pid: u32, name: &str, rss: u64, pss: u64, private: u64) -> ProcessMemory {
    ProcessMemory { pid, name: name.to_string(), rss, pss, private }
}

fn snapshot() -> MemorySnapshot {
    MemorySnapshot {
        processes: vec![
            proc(30, "zsh", 100, 50, 10),
            proc(10, "firefox", 900, 700, 600),
            proc(20, "Xorg", 500, 800, 20),
            proc(40, "bash", 500, 60, 30),
        ],
    }
}

fn pids(app: &App) -> Vec<u32> {
    app.processes().iter().map(|p| p.pid).collect()
}

fn none() -> KeyModifiers {
    KeyModifiers::from_bits(0)
}

#[test]
fn focus_cycles_forward_and_back() {
    let order = [Focus::ProcessList, Focus::DetailPanel, Focus::GraphPanel, Focus::InsightsPanel];
    for i in 0..4 {
        assert_eq!(order[i].next(), order[(i + 1) % 4]);
        assert_eq!(order[i].prev(), order[(i + 3) % 4]);
        assert_eq!(order[i].next().prev(), order[i]);
        assert_eq!(order[i].next().next().next().next(), order[i]);
    }
    assert_eq!(Focus::default(), Focus::ProcessList);
}

#[test]
fn sort_mode_cycle() {
    assert_eq!(SortMode::Rss.next(), SortMode::Pss);
    assert_eq!(SortMode::Pss.next(), SortMode::Private);
    assert_eq!(SortMode::Private.next(), SortMode::Name);
    assert_eq!(SortMode::Name.next(), SortMode::Pid);
    assert_eq!(SortMode::Pid.next(), SortMode::Rss);
}

#[test]
fn new_app_state() {
    let app = App::new();
    assert!(!app.should_quit);
    assert!(!app.show_help);
    assert_eq!(app.focus, Focus::ProcessList);
    assert!(app.snapshot.is_none());
    assert!(app.processes().is_empty());
    assert!(app.selected_process().is_none());
    assert_eq!(app.process_list_state.sort_mode, SortMode::Rss);
    assert_eq!(app.process_list_state.list_state.selected(), Some(0));
    assert_eq!(app.process_list_state.selected_pid, None);
    assert_eq!(App::default().process_list_state, app.process_list_state);
}

#[test]
fn update_sorts_by_rss_descending_and_stably() {
    let mut app = App::new();
    app.update(snapshot());
    // Xorg and bash share an rss of 500 and keep their snapshot order
    assert_eq!(pids(&app), vec![10, 20, 40, 30]);
    assert_eq!(app.snapshot.as_ref().unwrap().processes.len(), 4);
    assert_eq!(app.selected_process().unwrap().pid, 10);
}

#[test]
fn sort_key_cycles_through_all_orders() {
    let mut app = App::new();
    app.update(snapshot());
    app.handle_key(KeyCode::Char('s'), none());
    assert_eq!(app.process_list_state.sort_mode, SortMode::Pss);
    assert_eq!(pids(&app), vec![20, 10, 40, 30]);
    app.handle_key(KeyCode::Char('s'), none());
    assert_eq!(app.process_list_state.sort_mode, SortMode::Private);
    assert_eq!(pids(&app), vec![10, 40, 20, 30]);
    app.handle_key(KeyCode::Char('s'), none());
    assert_eq!(app.process_list_state.sort_mode, SortMode::Name);
    // byte order: upper case before lower case
    assert_eq!(pids(&app), vec![20, 40, 10, 30]);
    app.handle_key(KeyCode::Char('s'), none());
    assert_eq!(app.process_list_state.sort_mode, SortMode::Pid);
    assert_eq!(pids(&app), vec![10, 20, 30, 40]);
    app.handle_key(KeyCode::Char('s'), none());
    assert_eq!(app.process_list_state.sort_mode, SortMode::Rss);
    assert_eq!(pids(&app), vec![10, 20, 40, 30]);
}

#[test]
fn name_order_compares_bytes_and_prefixes() {
    let mut app = App::new();
    app.process_list_state.sort_mode = SortMode::Name;
    app.update(MemorySnapshot {
        processes: vec![
            proc(1, "abc", 0, 0, 0),
            proc(2, "ab", 0, 0, 0),
            proc(3, "b", 0, 0, 0),
            proc(4, "ab", 0, 0, 0),
            proc(5, "é", 0, 0, 0),
            proc(6, "", 0, 0, 0),
        ],
    });
    assert_eq!(pids(&app), vec![6, 2, 4, 1, 3, 5]);
}

#[test]
fn selection_follows_process_across_updates() {
    let mut app = App::new();
    app.update(snapshot());
    app.handle_key(KeyCode::Down, none());
    app.handle_key(KeyCode::Char('j'), none());
    assert_eq!(app.selected_process().unwrap().pid, 40);
    assert_eq!(app.process_list_state.selected_pid, Some(40));
    // bash grows to the top of the list
    let mut next = snapshot();
    next.processes[3].rss = 1000;
    app.update(next);
    assert_eq!(pids(&app), vec![40, 10, 20, 30]);
    assert_eq!(app.process_list_state.list_state.selected(), Some(0));
    assert_eq!(app.selected_process().unwrap().pid, 40);
}

#[test]
fn stale_selection_is_reset_to_first_entry() {
    let mut app = App::new();
    app.update(snapshot());
    app.handle_key(KeyCode::End, none());
    assert_eq!(app.process_list_state.list_state.selected(), Some(3));
    app.process_list_state.selected_pid = Some(999);
    app.update(MemorySnapshot { processes: vec![proc(1, "a", 1, 1, 1)] });
    assert_eq!(app.process_list_state.list_state.selected(), Some(0));
    // an empty list keeps the stale index
    app.handle_key(KeyCode::Char('G'), none());
    app.process_list_state.list_state.select(Some(5));
    app.update(MemorySnapshot { processes: vec![] });
    assert_eq!(app.process_list_state.list_state.selected(), Some(5));
    assert!(app.selected_process().is_none());
}

#[test]
fn navigation_wraps_around() {
    let mut app = App::new();
    app.update(snapshot());
    app.handle_key(KeyCode::Up, none());
    assert_eq!(app.process_list_state.list_state.selected(), Some(3));
    assert_eq!(app.process_list_state.selected_pid, Some(30));
    app.handle_key(KeyCode::Down, none());
    assert_eq!(app.process_list_state.list_state.selected(), Some(0));
    app.handle_key(KeyCode::Char('k'), none());
    app.handle_key(KeyCode::Char('g'), none());
    assert_eq!(app.process_list_state.list_state.selected(), Some(0));
    assert_eq!(app.process_list_state.selected_pid, Some(10));
    app.handle_key(KeyCode::Home, none());
    assert_eq!(app.process_list_state.list_state.selected(), Some(0));
}

#[test]
fn navigation_on_empty_list_does_nothing() {
    let mut app = App::new();
    app.handle_key(KeyCode::Down, none());
    app.handle_key(KeyCode::End, none());
    assert_eq!(app.process_list_state.list_state.selected(), Some(0));
    assert_eq!(app.process_list_state.selected_pid, None);
}

#[test]
fn global_keys() {
    let mut app = App::new();
    app.handle_key(KeyCode::Char('?'), none());
    assert!(app.show_help);
    app.handle_key(KeyCode::Esc, none());
    assert!(!app.show_help);
    app.handle_key(KeyCode::Char('?'), none());
    app.handle_key(KeyCode::Char('?'), none());
    assert!(!app.show_help);
    app.handle_key(KeyCode::Tab, none());
    assert_eq!(app.focus, Focus::DetailPanel);
    app.handle_key(KeyCode::Tab, KeyModifiers::from_bits(SHIFT));
    assert_eq!(app.focus, Focus::ProcessList);
    app.handle_key(KeyCode::Tab, KeyModifiers::from_bits(SHIFT));
    assert_eq!(app.focus, Focus::InsightsPanel);
    // Tab with other modifiers moves forward
    app.handle_key(KeyCode::Tab, KeyModifiers::from_bits(SHIFT | CONTROL));
    assert_eq!(app.focus, Focus::ProcessList);
    assert!(!app.should_quit);
    app.handle_key(KeyCode::Char('c'), none());
    assert!(!app.should_quit);
    app.handle_key(KeyCode::Char('c'), KeyModifiers::from_bits(CONTROL));
    assert!(app.should_quit);
    let mut other = App::new();
    other.handle_key(KeyCode::Char('q'), KeyModifiers::from_bits(CONTROL));
    assert!(other.should_quit);
}

#[test]
fn panel_keys_only_act_on_the_process_list() {
    let mut app = App::new();
    app.update(snapshot());
    app.handle_key(KeyCode::Tab, none());
    app.handle_key(KeyCode::Down, none());
    app.handle_key(KeyCode::Char('s'), none());
    assert_eq!(app.process_list_state.list_state.selected(), Some(0));
    assert_eq!(app.process_list_state.sort_mode, SortMode::Rss);
}

#[test]
fn process_list_state_steps() {
    let mut state = ProcessListState::new();
    assert_eq!(state.list_state, ListState { offset: 0, selected: Some(0) });
    state.select_previous(3);
    assert_eq!(state.list_state.selected, Some(2));
    state.select_next(3);
    assert_eq!(state.list_state.selected, Some(0));
    state.list_state.select(None);
    state.select_next(3);
    assert_eq!(state.list_state.selected, Some(0));
    state.select_next(0);
    assert_eq!(state.list_state.selected, Some(0));
    state.cycle_sort();
    assert_eq!(state.sort_mode, SortMode::Pss);
    let mut ls = ListState { offset: 7, selected: Some(2) };
    ls.select(Some(4));
    assert_eq!(ls, ListState { offset: 7, selected: Some(4) });
    ls.select(None);
    assert_eq!(ls, ListState { offset: 0, selected: None });
}

#[test]
fn updating_twice_with_the_same_snapshot_gives_the_same_list() {
    let mut a = App::new();
    a.update(snapshot());
    let first = pids(&a);
    a.update(snapshot());
    assert_eq!(pids(&a), first);
}

#[test]
fn resorting_by_the_same_key_changes_nothing() {
    let mut app = App::new();
    app.update(snapshot());
    app.handle_key(KeyCode::Down, none());
    for _ in 0..5 {
        app.handle_key(KeyCode::Char('s'), none());
    }
    // five presses return to the rss order, which sorts the list as before
    assert_eq!(app.process_list_state.sort_mode, SortMode::Rss);
    assert_eq!(pids(&app), vec![10, 20, 40, 30]);
    assert_eq!(app.selected_process().unwrap().pid, 20);
}
