//! State of the UI widgets

use vstd::prelude::*;

verus! {

/// Order in which the process list is shown
#[derive(Debug, Clone, Copy, PartialEq, Eq, Structural)]
pub enum SortMode {
    /// Largest resident set first
    Rss,
    /// Largest proportional set first
    Pss,
    /// Largest private memory first
    Private,
    /// By name, in byte order
    Name,
    /// By process id, ascending
    Pid,
}

impl SortMode {
    /// Position of the mode in the cycle that the sort key steps through.
    pub open spec fn index(self) -> int {
        match self {
            SortMode::Rss => 0,
            SortMode::Pss => 1,
            SortMode::Private => 2,
            SortMode::Name => 3,
            SortMode::Pid => 4,
        }
    }

    /// The mode at position `i` of the cycle.
    pub open spec fn from_index(i: int) -> SortMode {
        if i == 0 {
            SortMode::Rss
        } else if i == 1 {
            SortMode::Pss
        } else if i == 2 {
            SortMode::Private
        } else if i == 3 {
            SortMode::Name
        } else {
            SortMode::Pid
        }
    }

    /// The mode that follows this one in the cycle.
    pub fn next(&self) -> (r: SortMode)
        ensures
            r == SortMode::from_index((self.index() + 1) % 5),
    {
        match self {
            SortMode::Rss => SortMode::Pss,
            SortMode::Pss => SortMode::Private,
            SortMode::Private => SortMode::Name,
            SortMode::Name => SortMode::Pid,
            SortMode::Pid => SortMode::Rss,
        }
    }
}

/// The sort key steps from resident set to proportional set, private
/// memory, name, pid, and back to resident set.
pub proof fn lemma_sort_mode_order(m: SortMode)
    ensures
        SortMode::from_index((m.index() + 1) % 5) == match m {
            SortMode::Rss => SortMode::Pss,
            SortMode::Pss => SortMode::Private,
            SortMode::Private => SortMode::Name,
            SortMode::Name => SortMode::Pid,
            SortMode::Pid => SortMode::Rss,
        },
{
}

/// Five steps through the cycle of sort modes return to the start.
pub proof fn lemma_sort_mode_cycle(m: SortMode)
    ensures
        SortMode::from_index(
            (SortMode::from_index(
                (SortMode::from_index(
                    (SortMode::from_index((SortMode::from_index((m.index() + 1) % 5).index() + 1) % 5).index()
                        + 1) % 5,
                ).index() + 1) % 5,
            ).index() + 1) % 5,
        ) == m,
{
}

/// Selection and scroll position of a list widget
#[derive(Debug, Clone, Copy, PartialEq, Eq, Structural)]
pub struct ListState {
    /// Index of the first item shown
    pub offset: usize,
    /// Index of the selected item, if any
    pub selected: Option<usize>,
}

impl ListState {
    /// No item selected, scrolled to the top.
    pub fn new() -> (r: ListState)
        ensures
            r.offset == 0,
            r.selected is None,
    {
        ListState { offset: 0, selected: None }
    }

    /// Index of the selected item, if any.
    pub fn selected(&self) -> (r: Option<usize>)
        ensures
            r == self.selected,
    {
        self.selected
    }

    /// Selects the item at `index`, or clears the selection; clearing it
    /// also scrolls back to the top.
    pub fn select(&mut self, index: Option<usize>)
        ensures
            final(self).selected == index,
            final(self).offset == if index is None { 0 } else { old(self).offset },
    {
        self.selected = index;
        if index.is_none() {
            self.offset = 0;
        }
    }
}

/// State of the process list: sort key, selection, and the process the
/// selection follows when the list is refreshed.
#[derive(Debug, Clone, Copy, PartialEq, Eq, Structural)]
pub struct ProcessListState {
    /// Widget selection state
    pub list_state: ListState,
    /// Current sort key
    pub sort_mode: SortMode,
    /// Pid of the process the user selected
    pub selected_pid: Option<u32>,
}

/// Index selected by stepping one item down a list of `len` items,
/// wrapping from the last item to the first.
pub open spec fn next_index(selected: Option<usize>, len: usize) -> usize {
    match selected {
        Some(i) => if i >= len - 1 { 0 } else { (i + 1) as usize },
        None => 0,
    }
}

/// Index selected by stepping one item up a list of `len` items,
/// wrapping from the first item to the last.
pub open spec fn previous_index(selected: Option<usize>, len: usize) -> usize {
    match selected {
        Some(i) => if i == 0 { (len - 1) as usize } else { (i - 1) as usize },
        None => 0,
    }
}

impl ProcessListState {
    /// Sorted by resident set size, first item selected, no process followed.
    pub fn new() -> (r: ProcessListState)
        ensures
            r.list_state == (ListState { offset: 0, selected: Some(0) }),
            r.sort_mode == SortMode::Rss,
            r.selected_pid is None,
    {
        let mut list_state = ListState::new();
        list_state.select(Some(0));
        ProcessListState { list_state, sort_mode: SortMode::Rss, selected_pid: None }
    }

    /// Moves the selection one item down, wrapping to the top; does nothing
    /// on an empty list.
    pub fn select_next(&mut self, len: usize)
        ensures
            len == 0 ==> *final(self) == *old(self),
            len > 0 ==> *final(self) == (ProcessListState {
                list_state: ListState {
                    offset: old(self).list_state.offset,
                    selected: Some(next_index(old(self).list_state.selected, len)),
                },
                ..*old(self)
            }),
    {
        if len == 0 {
            return;
        }
        let i = match self.list_state.selected() {
            Some(i) => if i >= len - 1 { 0 } else { i + 1 },
            None => 0,
        };
        self.list_state.select(Some(i));
    }

    /// Moves the selection one item up, wrapping to the bottom; does nothing
    /// on an empty list.
    pub fn select_previous(&mut self, len: usize)
        ensures
            len == 0 ==> *final(self) == *old(self),
            len > 0 ==> *final(self) == (ProcessListState {
                list_state: ListState {
                    offset: old(self).list_state.offset,
                    selected: Some(previous_index(old(self).list_state.selected, len)),
                },
                ..*old(self)
            }),
    {
        if len == 0 {
            return;
        }
        let i = match self.list_state.selected() {
            Some(i) => if i == 0 { len - 1 } else { i - 1 },
            None => 0,
        };
        self.list_state.select(Some(i));
    }

    /// Steps the sort key to the next mode in the cycle.
    pub fn cycle_sort(&mut self)
        ensures
            final(self).sort_mode == SortMode::from_index((old(self).sort_mode.index() + 1) % 5),
            final(self).list_state == old(self).list_state,
            final(self).selected_pid == old(self).selected_pid,
    {
        self.sort_mode = self.sort_mode.next();
    }
}

} // verus!
