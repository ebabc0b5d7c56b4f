//! Keyboard handling: what each key does to the monitor state, and what the
//! caller has to do afterwards.

use vstd::prelude::*;

use crate::app::{App, AppView, HISTORY};
use crate::sys::{Reading, Snapshot};
use crate::text::lowered;
use crate::ui::theme::Theme;

verus! {

/// A key the monitor reacts to.
#[derive(Clone, Copy, PartialEq, Eq, Structural, Debug)]
pub enum Key {
    Char(char),
    Esc,
    Backspace,
    Enter,
    Tab,
    BackTab,
    Left,
    Right,
    Up,
    Down,
    /// Any other key.
    Other,
}

/// What the caller does after a key has been handled.
#[derive(Clone, Copy, PartialEq, Eq, Structural, Debug)]
pub enum Action {
    /// Nothing more: draw the next frame.
    Continue,
    /// Leave the monitor.
    Quit,
    /// Take a sample now.
    Refresh,
    /// Store the newly chosen theme.
    SaveTheme,
    /// Ask the process with this pid to terminate, then take a sample.
    Kill(i32),
}

impl AppView {
    /// The state after choosing the first row of the CPU table (none when
    /// the table is empty).
    pub open spec fn after_select_first(self) -> AppView {
        let ps = self.procs(1, true);
        AppView {
            selected_pid: if ps.len() > 0 {
                Some(ps[0].pid)
            } else {
                None
            },
            ..self
        }
    }

    /// The effect of a key press (`ctrl` tells whether Control was held).
    ///
    /// While searching, keys edit the query: Esc and Enter leave search mode,
    /// Backspace erases, characters are typed, other keys are ignored. While
    /// the help overlay is open only Esc and `?` (which close it) count.
    /// Otherwise: `q`, Esc and Ctrl-C quit; Tab/Right and BackTab/Left switch
    /// tabs; `1`-`6` jump to a tab; `p` pauses; `r` samples now; `t`/`T` cycle
    /// themes; `?` opens help; `/` starts a search; `s` cycles the sort; `k`
    /// terminates the selected process; Enter selects the top CPU process;
    /// Down/`j` and Up scroll.
    pub open spec fn on_key(self, key: Key, ctrl: bool) -> (AppView, Action) {
        if self.search_query is Some {
            (
                match key {
                    Key::Esc => self.after_exit_search(),
                    Key::Enter => self.after_exit_search(),
                    Key::Backspace => self.after_search_pop(),
                    Key::Char(c) => self.after_search_push(c),
                    _ => self,
                },
                Action::Continue,
            )
        } else if self.show_help {
            (
                if key == Key::Esc || key == Key::Char('?') {
                    self.after_toggle_help()
                } else {
                    self
                },
                Action::Continue,
            )
        } else {
            match key {
                Key::Esc => (self, Action::Quit),
                Key::Tab => (self.after_next_tab(), Action::Continue),
                Key::Right => (self.after_next_tab(), Action::Continue),
                Key::BackTab => (self.after_prev_tab(), Action::Continue),
                Key::Left => (self.after_prev_tab(), Action::Continue),
                Key::Enter => (self.after_select_first(), Action::Continue),
                Key::Down => (self.after_scroll_down(), Action::Continue),
                Key::Up => (self.after_scroll_up(), Action::Continue),
                Key::Char(c) => {
                    if c == 'q' {
                        (self, Action::Quit)
                    } else if c == 'c' && ctrl {
                        (self, Action::Quit)
                    } else if '1' <= c && c <= '6' {
                        (self.after_select_tab(c as int - '1' as int), Action::Continue)
                    } else if c == 'p' {
                        (self.after_toggle_pause(), Action::Continue)
                    } else if c == 'r' {
                        (self, Action::Refresh)
                    } else if c == 't' {
                        (self.after_next_theme(), Action::SaveTheme)
                    } else if c == 'T' {
                        (self.after_prev_theme(), Action::SaveTheme)
                    } else if c == '?' {
                        (self.after_toggle_help(), Action::Continue)
                    } else if c == '/' {
                        (self.after_enter_search(), Action::Continue)
                    } else if c == 's' {
                        (self.after_cycle_sort(), Action::Continue)
                    } else if c == 'k' {
                        match self.selected_pid {
                            Some(pid) => (AppView { selected_pid: None, ..self }, Action::Kill(pid)),
                            None => (self, Action::Continue),
                        }
                    } else if c == 'j' {
                        (self.after_scroll_down(), Action::Continue)
                    } else {
                        (self, Action::Continue)
                    }
                },
                _ => (self, Action::Continue),
            }
        }
    }
}

impl App {
    /// Handles one key press and tells the caller what to do next.
    pub fn handle_key(&mut self, key: Key, ctrl: bool) -> (action: Action)
        ensures
            (final(self)@, action) == old(self)@.on_key(key, ctrl),
    {
        if self.search_query.is_some() {
            match key {
                Key::Esc => self.exit_search(),
                Key::Enter => self.exit_search(),
                Key::Backspace => self.search_pop(),
                Key::Char(c) => self.search_push(c),
                _ => {},
            }
            return Action::Continue;
        }
        if self.show_help {
            match key {
                Key::Esc => self.toggle_help(),
                Key::Char(c) => {
                    if c == '?' {
                        self.toggle_help();
                    }
                },
                _ => {},
            }
            return Action::Continue;
        }
        match key {
            Key::Esc => Action::Quit,
            Key::Tab | Key::Right => {
                self.next_tab();
                Action::Continue
            },
            Key::BackTab | Key::Left => {
                self.prev_tab();
                Action::Continue
            },
            Key::Enter => {
                let procs = self.filtered_procs(1, true);
                self.selected_pid = if procs.len() > 0 {
                    Some(procs[0].pid)
                } else {
                    None
                };
                Action::Continue
            },
            Key::Down => {
                self.scroll_down();
                Action::Continue
            },
            Key::Up => {
                self.scroll_up();
                Action::Continue
            },
            Key::Char(c) => {
                if c == 'q' {
                    Action::Quit
                } else if c == 'c' && ctrl {
                    Action::Quit
                } else if '1' <= c && c <= '6' {
                    self.select_tab((c as u32 - '1' as u32) as usize);
                    Action::Continue
                } else if c == 'p' {
                    self.toggle_pause();
                    Action::Continue
                } else if c == 'r' {
                    Action::Refresh
                } else if c == 't' {
                    self.next_theme();
                    Action::SaveTheme
                } else if c == 'T' {
                    self.prev_theme();
                    Action::SaveTheme
                } else if c == '?' {
                    self.toggle_help();
                    Action::Continue
                } else if c == '/' {
                    self.enter_search();
                    Action::Continue
                } else if c == 's' {
                    self.cycle_sort();
                    Action::Continue
                } else if c == 'k' {
                    match self.selected_pid {
                        Some(pid) => {
                            self.selected_pid = None;
                            Action::Kill(pid)
                        },
                        None => Action::Continue,
                    }
                } else if c == 'j' {
                    self.scroll_down();
                    Action::Continue
                } else {
                    Action::Continue
                }
            },
            _ => Action::Continue,
        }
    }
}

impl AppView {
    /// While searching, the process filter is the lowercased query (an
    /// empty query, just entered, filters nothing).
    pub open spec fn filter_follows_query(self) -> bool {
        match self.search_query {
            Some(q) => (q.len() == 0 && self.lowered_query.len() == 0) || self.lowered_query
                == lowered(q),
            None => true,
        }
    }
}

/// Every key keeps the process filter in step with the search query.
pub proof fn lemma_key_keeps_filter(v: AppView, key: Key, ctrl: bool)
    requires
        v.filter_follows_query(),
    ensures
        v.on_key(key, ctrl).0.filter_follows_query(),
{
}

/// Keys typed into the search bar or pressed over the help overlay never
/// quit or trigger any outside work; outside them, exactly `q`, Esc and
/// Ctrl-C quit.
pub proof fn lemma_quit_keys(v: AppView, key: Key, ctrl: bool)
    ensures
        (v.search_query is Some || v.show_help) ==> v.on_key(key, ctrl).1 == Action::Continue,
        (v.search_query is None && !v.show_help) ==> (v.on_key(key, ctrl).1 == Action::Quit <==> (
        key == Key::Esc || key == Key::Char('q') || (key == Key::Char('c') && ctrl))),
{
}

/// `k` asks to terminate exactly the selected process, once: the selection
/// is cleared, and with nothing selected nothing is killed.
pub proof fn lemma_kill_selected(v: AppView, key: Key, ctrl: bool, pid: i32)
    ensures
        v.on_key(key, ctrl).1 == Action::Kill(pid) ==> v.selected_pid == Some(pid)
            && v.on_key(key, ctrl).0.selected_pid is None,
        v.selected_pid is None ==> v.on_key(key, ctrl).1 != Action::Kill(pid),
{
}

/// Enter selects the first row of the CPU table, as the table is currently
/// filtered and ordered.
pub proof fn lemma_enter_selects_top(v: AppView)
    requires
        v.search_query is None,
        !v.show_help,
    ensures
        v.procs(1, true).len() > 0 ==> v.on_key(Key::Enter, false).0.selected_pid == Some(
            v.procs(1, true)[0].pid,
        ),
        v.procs(1, true).len() == 0 ==> v.on_key(Key::Enter, false).0.selected_pid is None,
{
}


/// Outside search and help, each number key `1`-`6` jumps to the tab at
/// that place in display order (`1` the first), scrolled to the top, and
/// asks for nothing more; nothing else about the state changes.
pub proof fn lemma_number_keys(v: AppView, c: char, ctrl: bool)
    requires
        v.search_query is None,
        !v.show_help,
        0x31 <= (c as u32) <= 0x36,
    ensures
        v.on_key(Key::Char(c), ctrl).0.tab.ord() == (c as u32) - 0x31,
        v.on_key(Key::Char(c), ctrl).0 == (AppView {
            tab: v.on_key(Key::Char(c), ctrl).0.tab,
            table_scroll: 0,
            ..v
        }),
        v.on_key(Key::Char(c), ctrl).1 == Action::Continue,
{
}

/// One call on the monitor state: a sample (or a sampling error) arriving,
/// a key press, or one of the state's own methods.
pub enum Step {
    Refresh(Result<(Snapshot, Reading), String>),
    Key(Key, bool),
    NextTheme,
    PrevTheme,
    NextTab,
    PrevTab,
    SelectTab(usize),
    ScrollDown,
    ScrollUp,
    TogglePause,
    ToggleHelp,
    EnterSearch,
    ExitSearch,
    SearchPush(char),
    SearchPop,
    CycleSort,
}

impl AppView {
    /// The state after one step; each step is the transition that the
    /// method of the same name is proved to make.
    pub open spec fn after_step(self, e: Step) -> AppView {
        match e {
            Step::Refresh(sampled) => self.after_refresh(sampled),
            Step::Key(key, ctrl) => self.on_key(key, ctrl).0,
            Step::NextTheme => self.after_next_theme(),
            Step::PrevTheme => self.after_prev_theme(),
            Step::NextTab => self.after_next_tab(),
            Step::PrevTab => self.after_prev_tab(),
            Step::SelectTab(i) => self.after_select_tab(i as int),
            Step::ScrollDown => self.after_scroll_down(),
            Step::ScrollUp => self.after_scroll_up(),
            Step::TogglePause => self.after_toggle_pause(),
            Step::ToggleHelp => self.after_toggle_help(),
            Step::EnterSearch => self.after_enter_search(),
            Step::ExitSearch => self.after_exit_search(),
            Step::SearchPush(c) => self.after_search_push(c),
            Step::SearchPop => self.after_search_pop(),
            Step::CycleSort => self.after_cycle_sort(),
        }
    }

    /// The state after the steps, in order.
    pub open spec fn after_steps(self, steps: Seq<Step>) -> AppView
        decreases steps.len(),
    {
        if steps.len() == 0 {
            self
        } else {
            self.after_steps(steps.drop_last()).after_step(steps.last())
        }
    }

    /// Whether a step records a sample: a successful sample that arrives
    /// while sampling is not paused.
    pub open spec fn records_sample(self, e: Step) -> bool {
        !self.paused && (e matches Step::Refresh(Ok(_)))
    }

    /// How many of the steps record a sample.
    pub open spec fn samples_recorded(self, steps: Seq<Step>) -> nat
        decreases steps.len(),
    {
        if steps.len() == 0 {
            0
        } else {
            self.samples_recorded(steps.drop_last()) + if self.after_steps(
                steps.drop_last(),
            ).records_sample(steps.last()) {
                1nat
            } else {
                0nat
            }
        }
    }

    /// All six history windows hold `n` values.
    pub open spec fn histories_hold(self, n: nat) -> bool {
        &&& self.cpu_hist.len() == n
        &&& self.mem_hist.len() == n
        &&& self.rx_hist.len() == n
        &&& self.tx_hist.len() == n
        &&& self.disk_r_hist.len() == n
        &&& self.disk_w_hist.len() == n
    }
}

/// The smaller of a count and the window size.
pub open spec fn capped(n: nat) -> nat {
    if n < HISTORY {
        n
    } else {
        HISTORY as nat
    }
}

/// One step grows the histories together by one value (up to the window
/// size) when it records a sample, and leaves their length alone otherwise.
pub proof fn lemma_step_histories(v: AppView, e: Step, n: nat)
    requires
        v.histories_hold(n),
        n <= HISTORY,
    ensures
        v.after_step(e).histories_hold(
            if v.records_sample(e) {
                capped(n + 1)
            } else {
                n
            },
        ),
{
}

/// The six history windows always have the same length: starting from
/// windows of `n` values, after any steps they hold the smaller of `n` plus
/// the number of recorded samples and `HISTORY`; from start-up, the smaller
/// of the number of recorded samples and `HISTORY`.
pub proof fn lemma_histories_in_step(v: AppView, steps: Seq<Step>, n: nat)
    requires
        v.histories_hold(n),
        n <= HISTORY,
    ensures
        v.after_steps(steps).histories_hold(capped(n + v.samples_recorded(steps))),
    decreases steps.len(),
{
    if steps.len() > 0 {
        let prev = steps.drop_last();
        lemma_histories_in_step(v, prev, n);
        lemma_step_histories(
            v.after_steps(prev),
            steps.last(),
            capped(n + v.samples_recorded(prev)),
        );
    }
}

/// From start-up, every history holds the smaller of the number of
/// recorded samples and `HISTORY` values.
pub proof fn lemma_histories_from_start(
    v: AppView,
    top_count: usize,
    theme: Theme,
    steps: Seq<Step>,
)
    requires
        v.initial(top_count, theme),
    ensures
        v.after_steps(steps).histories_hold(capped(v.samples_recorded(steps))),
{
    lemma_histories_in_step(v, steps, 0);
}

} // verus!
