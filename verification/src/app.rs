//! Application state and main logic

use vstd::prelude::*;
use vstd::seq_lib::group_to_multiset_ensures;

use crate::collector::{infos, MemorySnapshot, ProcessInfo, ProcessMemory};
use crate::input::{KeyCode, KeyModifiers, CONTROL, SHIFT};
use crate::ordering::{
    byte_order_lt, is_stable_sort, lemma_stable_sort_idempotent, lemma_stable_sort_meaning,
    lemma_stable_sort_unique, stable_sort, with_name_bytes, with_pid, with_private, with_pss, with_rss,
};
use vstd::utf8::encode_utf8;
use crate::ui::widgets::{next_index, previous_index, ListState, ProcessListState, SortMode};

verus! {

/// Focus state for keyboard navigation
#[derive(Debug, Clone, Copy, PartialEq, Eq, Structural, Default)]
pub enum Focus {
    #[default]
    ProcessList,
    DetailPanel,
    GraphPanel,
    InsightsPanel,
}

impl Focus {
    /// Position of the panel in the focus cycle.
    pub open spec fn index(self) -> int {
        match self {
            Focus::ProcessList => 0,
            Focus::DetailPanel => 1,
            Focus::GraphPanel => 2,
            Focus::InsightsPanel => 3,
        }
    }

    /// The panel at position `i` of the focus cycle.
    pub open spec fn from_index(i: int) -> Focus {
        if i == 0 {
            Focus::ProcessList
        } else if i == 1 {
            Focus::DetailPanel
        } else if i == 2 {
            Focus::GraphPanel
        } else {
            Focus::InsightsPanel
        }
    }

    /// The panel after this one in the focus cycle.
    pub fn next(&self) -> (r: Self)
        ensures
            r == Focus::from_index((self.index() + 1) % 4),
    {
        match self {
            Focus::ProcessList => Focus::DetailPanel,
            Focus::DetailPanel => Focus::GraphPanel,
            Focus::GraphPanel => Focus::InsightsPanel,
            Focus::InsightsPanel => Focus::ProcessList,
        }
    }

    /// The panel before this one in the focus cycle.
    pub fn prev(&self) -> (r: Self)
        ensures
            r == Focus::from_index((self.index() + 3) % 4),
    {
        match self {
            Focus::ProcessList => Focus::InsightsPanel,
            Focus::DetailPanel => Focus::ProcessList,
            Focus::GraphPanel => Focus::DetailPanel,
            Focus::InsightsPanel => Focus::GraphPanel,
        }
    }
}

/// Main application state
pub struct App {
    /// Whether the app should quit
    pub should_quit: bool,
    /// Current focus
    pub focus: Focus,
    /// Latest memory snapshot
    pub snapshot: Option<MemorySnapshot>,
    /// Process list state
    pub process_list_state: ProcessListState,
    /// Whether to show help overlay
    pub show_help: bool,
    /// Sorted processes (cached); read them through `processes`
    pub sorted_processes: Vec<ProcessMemory>,
}

/// The mathematical value of an `App`.
pub struct AppView {
    pub should_quit: bool,
    pub focus: Focus,
    pub snapshot: Option<Seq<ProcessInfo>>,
    pub process_list_state: ProcessListState,
    pub show_help: bool,
    /// The processes in the order they are shown
    pub processes: Seq<ProcessInfo>,
}

impl View for App {
    type V = AppView;

    open spec fn view(&self) -> AppView {
        AppView {
            should_quit: self.should_quit,
            focus: self.focus,
            snapshot: match self.snapshot {
                Some(s) => Some(s@),
                None => None,
            },
            process_list_state: self.process_list_state,
            show_help: self.show_help,
            processes: infos(self.sorted_processes@),
        }
    }
}

/// Some process in `list` has the given pid.
pub open spec fn has_pid(list: Seq<ProcessInfo>, pid: u32) -> bool {
    exists|i: int| 0 <= i < list.len() && #[trigger] list[i].pid == pid
}

/// `i` is the first position in `list` of a process with the given pid.
pub open spec fn is_first_with_pid(list: Seq<ProcessInfo>, pid: u32, i: int) -> bool {
    &&& 0 <= i < list.len()
    &&& list[i].pid == pid
    &&& forall|j: int| 0 <= j < i ==> #[trigger] list[j].pid != pid
}

/// The first position in `list` of a process with the given pid.
pub open spec fn first_with_pid(list: Seq<ProcessInfo>, pid: u32) -> int {
    choose|i: int| is_first_with_pid(list, pid, i)
}

/// The selection once the list shown has become `list`: the first entry of
/// the followed process if it is there; else the first entry if the old
/// selection points past the end of a non-empty list; else unchanged.
pub open spec fn reselected(pid: Option<u32>, list: Seq<ProcessInfo>, selected: Option<usize>) -> Option<usize> {
    if pid is Some && has_pid(list, pid->0) {
        Some(first_with_pid(list, pid->0) as usize)
    } else if selected is Some && selected->0 >= list.len() && list.len() > 0 {
        Some(0)
    } else {
        selected
    }
}

/// `v` with the selected index of the process list set to `selected`.
pub open spec fn with_selection(v: AppView, selected: Option<usize>) -> AppView {
    AppView {
        process_list_state: ProcessListState {
            list_state: ListState { selected, ..v.process_list_state.list_state },
            ..v.process_list_state
        },
        ..v
    }
}

/// `v` with the followed pid set to that of the selected process, if the
/// selection points into the list.
pub open spec fn followed(v: AppView) -> AppView {
    match v.process_list_state.list_state.selected {
        Some(idx) => if idx < v.processes.len() {
            AppView {
                process_list_state: ProcessListState {
                    selected_pid: Some(v.processes[idx as int].pid),
                    ..v.process_list_state
                },
                ..v
            }
        } else {
            v
        },
        None => v,
    }
}

/// `w` is `v` with the list shown re-sorted by `mode`, and the selection
/// moved as `reselected` says.
pub open spec fn resorted(v: AppView, mode: SortMode, w: AppView) -> bool {
    &&& is_stable_sort(mode, v.processes, w.processes)
    &&& w == with_selection(
        AppView {
            process_list_state: ProcessListState { sort_mode: mode, ..v.process_list_state },
            processes: w.processes,
            ..v
        },
        reselected(v.process_list_state.selected_pid, w.processes, v.process_list_state.list_state.selected),
    )
}

/// The effect of `update` with a snapshot whose processes are `snapshot`:
/// they are shown stably sorted by the current sort key, and the selection
/// moves as `reselected` says.
pub open spec fn update_step(v: AppView, snapshot: Seq<ProcessInfo>, w: AppView) -> bool {
    &&& is_stable_sort(v.process_list_state.sort_mode, snapshot, w.processes)
    &&& w.processes.len() <= usize::MAX
    &&& w == with_selection(
        AppView { snapshot: Some(snapshot), processes: w.processes, ..v },
        reselected(v.process_list_state.selected_pid, w.processes, v.process_list_state.list_state.selected),
    )
}

/// The effect of a key on the process list panel.
pub open spec fn list_key_step(v: AppView, key: KeyCode, w: AppView) -> bool {
    let len = v.processes.len();
    let selected = v.process_list_state.list_state.selected;
    if key == KeyCode::Up || key == KeyCode::Char('k') {
        w == followed(if len == 0 { v } else { with_selection(v, Some(previous_index(selected, len as usize))) })
    } else if key == KeyCode::Down || key == KeyCode::Char('j') {
        w == followed(if len == 0 { v } else { with_selection(v, Some(next_index(selected, len as usize))) })
    } else if key == KeyCode::Char('s') {
        resorted(v, SortMode::from_index((v.process_list_state.sort_mode.index() + 1) % 5), w)
    } else if key == KeyCode::Home || key == KeyCode::Char('g') {
        w == if len == 0 { v } else { followed(with_selection(v, Some(0))) }
    } else if key == KeyCode::End || key == KeyCode::Char('G') {
        w == if len == 0 { v } else { followed(with_selection(v, Some((len - 1) as usize))) }
    } else {
        w == v
    }
}

/// The effect of a key press with the given modifiers on the application.
pub open spec fn key_step(v: AppView, key: KeyCode, modifiers: KeyModifiers, w: AppView) -> bool {
    if key == KeyCode::Char('q') || (key == KeyCode::Char('c') && modifiers.bits == CONTROL) {
        w == AppView { should_quit: true, ..v }
    } else if key == KeyCode::Char('?') {
        w == AppView { show_help: !v.show_help, ..v }
    } else if key == KeyCode::Esc && v.show_help {
        w == AppView { show_help: false, ..v }
    } else if key == KeyCode::Tab && modifiers.bits == SHIFT {
        w == AppView { focus: Focus::from_index((v.focus.index() + 3) % 4), ..v }
    } else if key == KeyCode::Tab {
        w == AppView { focus: Focus::from_index((v.focus.index() + 1) % 4), ..v }
    } else if v.focus == Focus::ProcessList {
        list_key_step(v, key, w)
    } else {
        w == v
    }
}

proof fn lemma_first_with_pid(list: Seq<ProcessInfo>, pid: u32, i: int)
    requires
        is_first_with_pid(list, pid, i),
    ensures
        has_pid(list, pid),
        first_with_pid(list, pid) == i,
{
    let k = first_with_pid(list, pid);
    assert(is_first_with_pid(list, pid, k));
    if k < i {
        assert(list[k].pid != pid);
    } else if k > i {
        assert(list[i].pid != pid);
    }
}

/// A list that holds a process with the given pid has a first position
/// holding one.
proof fn lemma_first_with_pid_exists(list: Seq<ProcessInfo>, pid: u32, j: int)
    requires
        0 <= j < list.len(),
        list[j].pid == pid,
    ensures
        is_first_with_pid(list, pid, first_with_pid(list, pid)),
    decreases j,
{
    if exists|k: int| 0 <= k < j && #[trigger] list[k].pid == pid {
        let k = choose|k: int| 0 <= k < j && #[trigger] list[k].pid == pid;
        lemma_first_with_pid_exists(list, pid, k);
    } else {
        assert(is_first_with_pid(list, pid, j));
    }
}

impl App {
    /// Create a new application
    pub fn new() -> (r: Self)
        ensures
            r@ == (AppView {
                should_quit: false,
                focus: Focus::ProcessList,
                snapshot: None,
                process_list_state: ProcessListState {
                    list_state: ListState { offset: 0, selected: Some(0) },
                    sort_mode: SortMode::Rss,
                    selected_pid: None,
                },
                show_help: false,
                processes: Seq::empty(),
            }),
    {
        let r = Self {
            should_quit: false,
            focus: Focus::ProcessList,
            snapshot: None,
            process_list_state: ProcessListState::new(),
            show_help: false,
            sorted_processes: Vec::new(),
        };
        assert(infos(r.sorted_processes@) =~= Seq::empty());
        r
    }

    /// Update with a new memory snapshot: its processes are shown sorted
    /// by the current sort key, and the selection follows the chosen process.
    pub fn update(&mut self, snapshot: MemorySnapshot)
        ensures
            update_step(old(self)@, snapshot@, final(self)@),
    {
        // Update sorted processes
        self.update_sorted_processes(&snapshot);

        // Update selected process
        self.update_selection();

        // Store snapshot
        self.snapshot = Some(snapshot);
        assert(infos(self.sorted_processes@).len() == self.sorted_processes.len());
    }

    /// Update sorted process list based on current sort mode
    fn update_sorted_processes(&mut self, snapshot: &MemorySnapshot)
        ensures
            is_stable_sort(old(self)@.process_list_state.sort_mode, snapshot@, final(self)@.processes),
            final(self)@ == (AppView { processes: final(self)@.processes, ..old(self)@ }),
    {
        self.sorted_processes = stable_sort(self.process_list_state.sort_mode, &snapshot.processes);
    }

    /// Update selection after sort change
    fn update_selection(&mut self)
        ensures
            final(self)@ == with_selection(
                old(self)@,
                reselected(
                    old(self)@.process_list_state.selected_pid,
                    old(self)@.processes,
                    old(self)@.process_list_state.list_state.selected,
                ),
            ),
    {
        // Try to keep the same process selected
        if let Some(selected_pid) = self.process_list_state.selected_pid {
            let mut i: usize = 0;
            while i < self.sorted_processes.len()
                invariant
                    *self == *old(self),
                    self.process_list_state.selected_pid == Some(selected_pid),
                    i <= self.sorted_processes@.len(),
                    forall|j: int| 0 <= j < i ==> #[trigger] infos(self.sorted_processes@)[j].pid != selected_pid,
                decreases self.sorted_processes@.len() - i,
            {
                if self.sorted_processes[i].pid == selected_pid {
                    proof {
                        lemma_first_with_pid(infos(self.sorted_processes@), selected_pid, i as int);
                    }
                    self.process_list_state.list_state.select(Some(i));
                    return;
                }
                i = i + 1;
            }
        }

        // Otherwise, ensure selection is valid
        if let Some(selected) = self.process_list_state.list_state.selected() {
            if selected >= self.sorted_processes.len() && !self.sorted_processes.is_empty() {
                self.process_list_state.list_state.select(Some(0));
            }
        }
    }

    /// Re-sort existing processes (for sort mode change)
    fn resort_processes(&mut self)
        ensures
            resorted(old(self)@, old(self)@.process_list_state.sort_mode, final(self)@),
    {
        self.sorted_processes = stable_sort(self.process_list_state.sort_mode, &self.sorted_processes);
        self.update_selection();
    }

    /// Get sorted processes
    pub fn processes(&self) -> (r: &[ProcessMemory])
        ensures
            infos(r@) == self@.processes,
    {
        self.sorted_processes.as_slice()
    }

    /// Get currently selected process
    pub fn selected_process(&self) -> (r: Option<&ProcessMemory>)
        ensures
            match self@.process_list_state.list_state.selected {
                Some(i) => if i < self@.processes.len() {
                    r is Some && r->0@ == self@.processes[i as int]
                } else {
                    r is None
                },
                None => r is None,
            },
    {
        let idx = self.process_list_state.list_state.selected()?;
        if idx < self.sorted_processes.len() {
            Some(&self.sorted_processes[idx])
        } else {
            None
        }
    }

    /// Handle keyboard input
    pub fn handle_key(&mut self, key: KeyCode, modifiers: KeyModifiers)
        ensures
            key_step(old(self)@, key, modifiers, final(self)@),
    {
        // Global keys
        match key {
            KeyCode::Char('q') => {
                self.should_quit = true;
                return;
            },
            KeyCode::Char('c') if modifiers.bits == CONTROL => {
                self.should_quit = true;
                return;
            },
            KeyCode::Char('?') => {
                self.show_help = !self.show_help;
                return;
            },
            KeyCode::Esc => {
                if self.show_help {
                    self.show_help = false;
                    return;
                }
            },
            KeyCode::Tab if modifiers.bits == SHIFT => {
                self.focus = self.focus.prev();
                return;
            },
            KeyCode::Tab => {
                self.focus = self.focus.next();
                return;
            },
            _ => {},
        }

        // Panel-specific keys
        match self.focus {
            Focus::ProcessList => self.handle_process_list_key(key),
            Focus::DetailPanel => {},
            Focus::GraphPanel => {},
            Focus::InsightsPanel => {},
        }
    }

    fn handle_process_list_key(&mut self, key: KeyCode)
        ensures
            list_key_step(old(self)@, key, final(self)@),
    {
        match key {
            KeyCode::Up | KeyCode::Char('k') => {
                self.process_list_state.select_previous(self.sorted_processes.len());
                self.update_selected_pid();
            },
            KeyCode::Down | KeyCode::Char('j') => {
                self.process_list_state.select_next(self.sorted_processes.len());
                self.update_selected_pid();
            },
            KeyCode::Char('s') => {
                self.process_list_state.cycle_sort();
                self.resort_processes();
            },
            KeyCode::Home | KeyCode::Char('g') => {
                if !self.sorted_processes.is_empty() {
                    self.process_list_state.list_state.select(Some(0));
                    self.update_selected_pid();
                }
            },
            KeyCode::End | KeyCode::Char('G') => {
                if !self.sorted_processes.is_empty() {
                    self.process_list_state.list_state.select(Some(self.sorted_processes.len() - 1));
                    self.update_selected_pid();
                }
            },
            _ => {},
        }
    }

    fn update_selected_pid(&mut self)
        ensures
            final(self)@ == followed(old(self)@),
    {
        if let Some(idx) = self.process_list_state.list_state.selected() {
            if idx < self.sorted_processes.len() {
                self.process_list_state.selected_pid = Some(self.sorted_processes[idx].pid);
            }
        }
    }
}

/// The focus moves forward through the process list, the detail panel, the
/// graph panel and the insights panel, and from the insights panel back to
/// the process list; backward in the opposite order.
pub proof fn lemma_focus_order(f: Focus)
    ensures
        Focus::from_index((f.index() + 1) % 4) == match f {
            Focus::ProcessList => Focus::DetailPanel,
            Focus::DetailPanel => Focus::GraphPanel,
            Focus::GraphPanel => Focus::InsightsPanel,
            Focus::InsightsPanel => Focus::ProcessList,
        },
        Focus::from_index((f.index() + 3) % 4) == match f {
            Focus::ProcessList => Focus::InsightsPanel,
            Focus::DetailPanel => Focus::ProcessList,
            Focus::GraphPanel => Focus::DetailPanel,
            Focus::InsightsPanel => Focus::GraphPanel,
        },
{
}

/// On the process list, 's' steps the sort key (resident set, proportional
/// set, private memory, name, pid, and back to resident set) and shows the
/// same processes ordered by the new key, stably.
pub proof fn lemma_sort_key_effect(v: AppView, m: KeyModifiers, w: AppView)
    requires
        v.focus == Focus::ProcessList,
        key_step(v, KeyCode::Char('s'), m, w),
    ensures
        w.process_list_state.sort_mode == match v.process_list_state.sort_mode {
            SortMode::Rss => SortMode::Pss,
            SortMode::Pss => SortMode::Private,
            SortMode::Private => SortMode::Name,
            SortMode::Name => SortMode::Pid,
            SortMode::Pid => SortMode::Rss,
        },
        w.processes.to_multiset() == v.processes.to_multiset(),
        forall|i: int, j: int| #![trigger w.processes[i], w.processes[j]] 0 <= i < j < w.processes.len() ==> match w.process_list_state.sort_mode {
            SortMode::Rss => w.processes[i].rss >= w.processes[j].rss,
            SortMode::Pss => w.processes[i].pss >= w.processes[j].pss,
            SortMode::Private => w.processes[i].private >= w.processes[j].private,
            SortMode::Name => !byte_order_lt(encode_utf8(w.processes[j].name), encode_utf8(w.processes[i].name)),
            SortMode::Pid => w.processes[i].pid <= w.processes[j].pid,
        },
        w.should_quit == v.should_quit && w.show_help == v.show_help && w.focus == v.focus,
        w.process_list_state.selected_pid == v.process_list_state.selected_pid,
{
    lemma_stable_sort_meaning(w.process_list_state.sort_mode, v.processes, w.processes);
}

/// Stepping the focus forward then back, or back then forward, returns to
/// the same panel; four steps forward return to the start.
pub proof fn lemma_focus_cycle(f: Focus)
    ensures
        Focus::from_index((Focus::from_index((f.index() + 1) % 4).index() + 3) % 4) == f,
        Focus::from_index((Focus::from_index((f.index() + 3) % 4).index() + 1) % 4) == f,
        Focus::from_index(
            (Focus::from_index(
                (Focus::from_index((Focus::from_index((f.index() + 1) % 4).index() + 1) % 4).index()
                    + 1) % 4,
            ).index() + 1) % 4,
        ) == f,
{
}

/// Updating twice from the same state with the same snapshot gives the
/// same state: what is shown is determined by the snapshot, the sort key
/// and the selection.
pub proof fn lemma_update_deterministic(v: AppView, snapshot: Seq<ProcessInfo>, w1: AppView, w2: AppView)
    requires
        update_step(v, snapshot, w1),
        update_step(v, snapshot, w2),
    ensures
        w1 == w2,
{
    lemma_stable_sort_unique(v.process_list_state.sort_mode, snapshot, w1.processes, w2.processes);
}

/// After an update, the selection stays on the followed process when the
/// snapshot still holds it: on the first entry that has its pid.
pub proof fn lemma_update_follows_process(v: AppView, snapshot: Seq<ProcessInfo>, w: AppView, pid: u32)
    requires
        update_step(v, snapshot, w),
        v.process_list_state.selected_pid == Some(pid),
        has_pid(snapshot, pid),
    ensures
        w.process_list_state.list_state.selected matches Some(i) && i < w.processes.len()
            && w.processes[i as int].pid == pid,
        w.process_list_state.list_state.selected matches Some(i) && forall|k: int|
            0 <= k < i ==> #[trigger] w.processes[k].pid != pid,
        w.process_list_state.selected_pid == Some(pid),
{
    broadcast use group_to_multiset_ensures;

    let k = choose|k: int| 0 <= k < snapshot.len() && #[trigger] snapshot[k].pid == pid;
    assert(snapshot.to_multiset().count(snapshot[k]) > 0);
    assert(w.processes.to_multiset().count(snapshot[k]) > 0);
    let j = choose|j: int| 0 <= j < w.processes.len() && w.processes[j] == snapshot[k];
    assert(w.processes[j].pid == pid);
    lemma_first_with_pid_exists(w.processes, pid, j);
}

/// After an update in which the followed process is not in the snapshot
/// (or none is followed), a selection past the end of a non-empty list moves
/// to the first entry, and any other selection stays as it was.
pub proof fn lemma_update_lost_process(v: AppView, snapshot: Seq<ProcessInfo>, w: AppView)
    requires
        update_step(v, snapshot, w),
        v.process_list_state.selected_pid matches Some(pid) ==> forall|k: int|
            0 <= k < snapshot.len() ==> #[trigger] snapshot[k].pid != pid,
    ensures
        w.process_list_state.list_state.selected == match v.process_list_state.list_state.selected {
            Some(s) => if s >= snapshot.len() && snapshot.len() > 0 { Some(0usize) } else { Some(s) },
            None => None,
        },
        w.process_list_state.selected_pid == v.process_list_state.selected_pid,
{
    broadcast use group_to_multiset_ensures;

    w.processes.to_multiset_ensures();
    snapshot.to_multiset_ensures();
    if v.process_list_state.selected_pid is Some {
        let pid = v.process_list_state.selected_pid->0;
        if has_pid(w.processes, pid) {
            let j = choose|j: int| 0 <= j < w.processes.len() && #[trigger] w.processes[j].pid == pid;
            assert(w.processes.to_multiset().count(w.processes[j]) > 0);
            assert(snapshot.to_multiset().count(w.processes[j]) > 0);
        }
    }
}

/// After an update, a selection that existed points into the list whenever
/// the list is not empty.
pub proof fn lemma_update_selection_in_range(v: AppView, snapshot: Seq<ProcessInfo>, w: AppView)
    requires
        update_step(v, snapshot, w),
        v.process_list_state.list_state.selected is Some,
        w.processes.len() > 0,
    ensures
        w.process_list_state.list_state.selected matches Some(i) && i < w.processes.len(),
{
    let pid = v.process_list_state.selected_pid;
    if pid is Some && has_pid(w.processes, pid->0) {
        let j = choose|j: int| 0 <= j < w.processes.len() && #[trigger] w.processes[j].pid == pid->0;
        lemma_first_with_pid_exists(w.processes, pid->0, j);
    }
}

/// Moving the selection again once the list is unchanged does nothing.
proof fn lemma_reselected_idempotent(pid: Option<u32>, list: Seq<ProcessInfo>, selected: Option<usize>)
    ensures
        reselected(pid, list, reselected(pid, list, selected)) == reselected(pid, list, selected),
{
}

/// Re-sorting by the sort key the list was last sorted by changes nothing,
/// the selection included.
pub proof fn lemma_resort_idempotent(v: AppView, w: AppView, u: AppView)
    requires
        resorted(v, v.process_list_state.sort_mode, w),
        resorted(w, w.process_list_state.sort_mode, u),
    ensures
        u == w,
{
    let m = v.process_list_state.sort_mode;
    lemma_stable_sort_idempotent(m, v.processes, w.processes, u.processes);
    lemma_reselected_idempotent(
        v.process_list_state.selected_pid,
        w.processes,
        v.process_list_state.list_state.selected,
    );
}

/// Re-sorting right after an update, by the same sort key, changes nothing,
/// the selection included.
pub proof fn lemma_resort_after_update(v: AppView, snapshot: Seq<ProcessInfo>, w: AppView, u: AppView)
    requires
        update_step(v, snapshot, w),
        resorted(w, w.process_list_state.sort_mode, u),
    ensures
        u == w,
{
    let m = v.process_list_state.sort_mode;
    lemma_stable_sort_idempotent(m, snapshot, w.processes, u.processes);
    lemma_reselected_idempotent(
        v.process_list_state.selected_pid,
        w.processes,
        v.process_list_state.list_state.selected,
    );
}

/// After an update the processes shown are those of the snapshot, each as
/// often as there, ordered by the sort key: largest resident set,
/// proportional set or private memory first, names in byte order, or pids
/// ascending; processes with equal figures keep their snapshot order.
pub proof fn lemma_update_shows_sorted(v: AppView, snapshot: Seq<ProcessInfo>, w: AppView)
    requires
        update_step(v, snapshot, w),
    ensures
        w.processes.to_multiset() == snapshot.to_multiset(),
        forall|i: int, j: int| #![trigger w.processes[i], w.processes[j]] 0 <= i < j < w.processes.len() ==> match v.process_list_state.sort_mode {
            SortMode::Rss => w.processes[i].rss >= w.processes[j].rss,
            SortMode::Pss => w.processes[i].pss >= w.processes[j].pss,
            SortMode::Private => w.processes[i].private >= w.processes[j].private,
            SortMode::Name => !byte_order_lt(encode_utf8(w.processes[j].name), encode_utf8(w.processes[i].name)),
            SortMode::Pid => w.processes[i].pid <= w.processes[j].pid,
        },
        v.process_list_state.sort_mode == SortMode::Rss ==> forall|x: u64|
            #[trigger] with_rss(w.processes, x) == with_rss(snapshot, x),
        v.process_list_state.sort_mode == SortMode::Pss ==> forall|x: u64|
            #[trigger] with_pss(w.processes, x) == with_pss(snapshot, x),
        v.process_list_state.sort_mode == SortMode::Private ==> forall|x: u64|
            #[trigger] with_private(w.processes, x) == with_private(snapshot, x),
        v.process_list_state.sort_mode == SortMode::Name ==> forall|x: Seq<u8>|
            #[trigger] with_name_bytes(w.processes, x) == with_name_bytes(snapshot, x),
        v.process_list_state.sort_mode == SortMode::Pid ==> forall|x: u32|
            #[trigger] with_pid(w.processes, x) == with_pid(snapshot, x),
{
    lemma_stable_sort_meaning(v.process_list_state.sort_mode, snapshot, w.processes);
}

/// What the global keys do. Only 'q', with any modifiers, and 'c' with
/// exactly Control quit; only '?' toggles the help, and Esc hides it; only
/// Tab moves the focus, back with exactly Shift, forward otherwise. Esc
/// with the help hidden changes nothing.
pub proof fn lemma_global_key_effects(v: AppView, key: KeyCode, m: KeyModifiers, w: AppView)
    requires
        key_step(v, key, m, w),
    ensures
        w.should_quit == (v.should_quit || key == KeyCode::Char('q') || (key == KeyCode::Char('c')
            && m.bits == CONTROL)),
        key == KeyCode::Char('?') ==> w.show_help == !v.show_help,
        key == KeyCode::Esc ==> !w.show_help,
        key != KeyCode::Char('?') && key != KeyCode::Esc ==> w.show_help == v.show_help,
        key == KeyCode::Tab && m.bits == SHIFT ==> w.focus.index() == (v.focus.index() + 3) % 4,
        key == KeyCode::Tab && m.bits != SHIFT ==> w.focus.index() == (v.focus.index() + 1) % 4,
        key != KeyCode::Tab ==> w.focus == v.focus,
        key == KeyCode::Esc && !v.show_help ==> w == v,
{
}

/// What the navigation keys do on a non-empty process list whose selection
/// is absent or in range: Down (or 'j') selects the next entry, wrapping
/// from the last to the first; Up (or 'k') the previous one, wrapping from
/// the first to the last; both select the first entry when nothing was
/// selected; Home (or 'g') selects the first entry and End (or 'G') the
/// last. The followed pid becomes that of the entry now selected, and
/// nothing else changes.
pub proof fn lemma_navigation_effects(v: AppView, key: KeyCode, m: KeyModifiers, w: AppView)
    requires
        v.focus == Focus::ProcessList,
        key == KeyCode::Up || key == KeyCode::Down || key == KeyCode::Home || key == KeyCode::End
            || key == KeyCode::Char('k') || key == KeyCode::Char('j') || key == KeyCode::Char('g')
            || key == KeyCode::Char('G'),
        0 < v.processes.len() <= usize::MAX,
        v.process_list_state.list_state.selected matches Some(i) ==> i < v.processes.len(),
        key_step(v, key, m, w),
    ensures
        ({
            let len = v.processes.len();
            let old_selection = v.process_list_state.list_state.selected;
            let i = w.process_list_state.list_state.selected->0 as int;
            &&& w.process_list_state.list_state.selected is Some
            &&& 0 <= i < len
            &&& (key == KeyCode::Home || key == KeyCode::Char('g')) ==> i == 0
            &&& (key == KeyCode::End || key == KeyCode::Char('G')) ==> i == len - 1
            &&& (key == KeyCode::Down || key == KeyCode::Char('j')) ==> i == match old_selection {
                Some(k) => if k + 1 == len { 0 } else { k + 1 },
                None => 0,
            }
            &&& (key == KeyCode::Up || key == KeyCode::Char('k')) ==> i == match old_selection {
                Some(k) => if k == 0 { len - 1 } else { k - 1 },
                None => 0,
            }
            &&& w.process_list_state.selected_pid == Some(w.processes[i].pid)
            &&& w.processes == v.processes
            &&& w.process_list_state.sort_mode == v.process_list_state.sort_mode
            &&& w.process_list_state.list_state.offset == v.process_list_state.list_state.offset
            &&& w.should_quit == v.should_quit && w.show_help == v.show_help && w.focus == v.focus
            &&& w.snapshot == v.snapshot
        }),
{
}

/// Pressing '?' twice leaves the application as it was.
pub proof fn lemma_help_toggles_back(v: AppView, m1: KeyModifiers, w: AppView, m2: KeyModifiers, u: AppView)
    requires
        key_step(v, KeyCode::Char('?'), m1, w),
        key_step(w, KeyCode::Char('?'), m2, u),
    ensures
        u == v,
{
}

/// Tab then Shift+Tab, or Shift+Tab then Tab, leaves the application as it
/// was.
pub proof fn lemma_tab_round_trip(v: AppView, m1: KeyModifiers, w: AppView, m2: KeyModifiers, u: AppView)
    requires
        key_step(v, KeyCode::Tab, m1, w),
        key_step(w, KeyCode::Tab, m2, u),
        (m1.bits == SHIFT) != (m2.bits == SHIFT),
    ensures
        u == v,
{
    lemma_focus_cycle(v.focus);
}

/// On the process list, moving down then up (or up then down) from a
/// selected entry selects that entry again.
pub proof fn lemma_down_up_round_trip(
    v: AppView,
    k1: KeyCode,
    m1: KeyModifiers,
    w: AppView,
    k2: KeyCode,
    m2: KeyModifiers,
    u: AppView,
)
    requires
        v.focus == Focus::ProcessList,
        (k1 == KeyCode::Down && k2 == KeyCode::Up) || (k1 == KeyCode::Up && k2 == KeyCode::Down),
        v.processes.len() <= usize::MAX,
        v.process_list_state.list_state.selected matches Some(i) && i < v.processes.len(),
        key_step(v, k1, m1, w),
        key_step(w, k2, m2, u),
    ensures
        u.process_list_state.list_state.selected == v.process_list_state.list_state.selected,
        u.processes == v.processes,
{
    let len = v.processes.len();
    let i = v.process_list_state.list_state.selected->0;
    if k1 == KeyCode::Down {
        assert(w.process_list_state.list_state.selected == Some(next_index(Some(i), len as usize)));
    } else {
        assert(w.process_list_state.list_state.selected == Some(previous_index(Some(i), len as usize)));
    }
}

/// On a non-empty process list whose selection is absent or in range, the
/// navigation keys leave an entry of the list selected.
pub proof fn lemma_navigation_stays_in_range(v: AppView, key: KeyCode, m: KeyModifiers, w: AppView)
    requires
        v.focus == Focus::ProcessList,
        key == KeyCode::Up || key == KeyCode::Down || key == KeyCode::Home || key == KeyCode::End
            || key == KeyCode::Char('k') || key == KeyCode::Char('j') || key == KeyCode::Char('g')
            || key == KeyCode::Char('G'),
        0 < v.processes.len() <= usize::MAX,
        v.process_list_state.list_state.selected matches Some(i) ==> i < v.processes.len(),
        key_step(v, key, m, w),
    ensures
        w.process_list_state.list_state.selected matches Some(i) && i < w.processes.len(),
{
}

impl Default for App {
    fn default() -> (r: Self)
        ensures
            r@ == (AppView {
                should_quit: false,
                focus: Focus::ProcessList,
                snapshot: None,
                process_list_state: ProcessListState {
                    list_state: ListState { offset: 0, selected: Some(0) },
                    sort_mode: SortMode::Rss,
                    selected_pid: None,
                },
                show_help: false,
                processes: Seq::empty(),
            }),
    {
        Self::new()
    }
}

} // verus!
