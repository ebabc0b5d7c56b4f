//! Application state: tabs, history windows, the process table and the
//! transitions that keys and samples drive.

use vstd::prelude::*;

use crate::sys::{Proc, Reading, Snapshot};
use crate::text::{
    chars_less, chars_of, contains_chars, dec_int, has_substring, i32_to_string,
    lemma_seq_lt_irreflexive, lemma_seq_lt_transitive, lowered, pop_char, push_char, seq_lt,
    to_lowercase, window,
};
use crate::ui::theme::{theme_count, Theme};

verus! {

/// How many samples a history window keeps.
pub const HISTORY: usize = 240;

/// The tabs of the monitor, in the order they are shown.
#[derive(Clone, Copy, PartialEq, Eq, Structural, Debug)]
pub enum Tab {
    Overview,
    Cpu,
    Processes,
    Network,
    Storage,
    Sensors,
}

/// The number of tabs.
pub open spec fn tab_count() -> nat {
    6
}

impl Tab {
    /// Every tab, in display order.
    pub const ALL: [Tab; 6] = [
        Tab::Overview,
        Tab::Cpu,
        Tab::Processes,
        Tab::Network,
        Tab::Storage,
        Tab::Sensors,
    ];

    /// The position of a tab in display order.
    pub open spec fn ord(self) -> nat {
        match self {
            Tab::Overview => 0,
            Tab::Cpu => 1,
            Tab::Processes => 2,
            Tab::Network => 3,
            Tab::Storage => 4,
            Tab::Sensors => 5,
        }
    }

    /// The tab at a position in display order (the last one past the end).
    pub open spec fn at(i: int) -> Tab {
        if i == 0 {
            Tab::Overview
        } else if i == 1 {
            Tab::Cpu
        } else if i == 2 {
            Tab::Processes
        } else if i == 3 {
            Tab::Network
        } else if i == 4 {
            Tab::Storage
        } else {
            Tab::Sensors
        }
    }

    /// The label of a tab in the tab bar.
    pub open spec fn title(self) -> Seq<char> {
        match self {
            Tab::Overview => " Overview "@,
            Tab::Cpu => " CPU "@,
            Tab::Processes => " Processes "@,
            Tab::Network => " Packets "@,
            Tab::Storage => " Storage "@,
            Tab::Sensors => " Sensors "@,
        }
    }

    /// The labels of all tabs, in display order.
    pub fn titles() -> (r: [&'static str; 6])
        ensures
            forall|i: int| 0 <= i < 6 ==> (#[trigger] r[i])@ == Tab::at(i).title(),
    {
        [" Overview ", " CPU ", " Processes ", " Packets ", " Storage ", " Sensors "]
    }

    /// The position of this tab in display order.
    pub fn index(self) -> (r: usize)
        ensures
            r == self.ord(),
            r < tab_count(),
            Tab::at(r as int) == self,
    {
        match self {
            Tab::Overview => 0,
            Tab::Cpu => 1,
            Tab::Processes => 2,
            Tab::Network => 3,
            Tab::Storage => 4,
            Tab::Sensors => 5,
        }
    }

    /// The tab at position `i` of the display order.
    pub fn from_index(i: usize) -> (t: Tab)
        requires
            i < tab_count(),
        ensures
            t == Tab::at(i as int),
            t.ord() == i,
    {
        Tab::ALL[i]
    }
}

/// The column that orders the process tables.
#[derive(Clone, Copy, PartialEq, Eq, Structural, Debug)]
pub enum ProcessSort {
    Cpu,
    Mem,
    Pid,
    Name,
}

impl ProcessSort {
    /// The column that follows this one when the user cycles the sort.
    pub open spec fn next(self) -> ProcessSort {
        match self {
            ProcessSort::Cpu => ProcessSort::Mem,
            ProcessSort::Mem => ProcessSort::Pid,
            ProcessSort::Pid => ProcessSort::Name,
            ProcessSort::Name => ProcessSort::Cpu,
        }
    }
}

/// The window after one more value arrives: the oldest value leaves once the
/// window is full.
pub open spec fn window_push(s: Seq<u64>, v: u64) -> Seq<u64> {
    if s.len() == HISTORY {
        s.drop_first().push(v)
    } else {
        s.push(v)
    }
}

/// The window after the values of `xs` arrive in order.
pub open spec fn window_push_all(s: Seq<u64>, xs: Seq<u64>) -> Seq<u64>
    decreases xs.len(),
{
    if xs.len() == 0 {
        s
    } else {
        window_push(window_push_all(s, xs.drop_last()), xs.last())
    }
}

/// A bounded history of samples, oldest first.
pub struct Series {
    pub data: std::collections::VecDeque<u64>,
}

impl View for Series {
    type V = Seq<u64>;

    open spec fn view(&self) -> Seq<u64> {
        self.data@
    }
}

impl Series {
    /// An empty history.
    pub fn new() -> (s: Series)
        ensures
            s@ == Seq::<u64>::empty(),
    {
        Series { data: std::collections::VecDeque::with_capacity(HISTORY) }
    }

    /// Records a value, dropping the oldest one when the window is full.
    pub fn push(&mut self, value: u64)
        ensures
            final(self)@ == window_push(old(self)@, value),
    {
        if self.data.len() == HISTORY {
            self.data.pop_front();
        }
        self.data.push_back(value);
    }

    /// The recorded values, oldest first.
    pub fn as_vec(&self) -> (v: Vec<u64>)
        ensures
            v@ == self@,
    {
        let n = self.data.len();
        let mut v: Vec<u64> = Vec::with_capacity(n);
        let mut i: usize = 0;
        while i < n
            invariant
                n == self@.len(),
                i <= n,
                v@ == self@.subrange(0, i as int),
            decreases n - i,
        {
            v.push(self.data[i]);
            i = i + 1;
            assert(v@ =~= self@.subrange(0, i as int));
        }
        assert(v@ =~= self@);
        v
    }
}

/// A history never grows past `HISTORY` values, and its newest value is the
/// one just recorded.
pub proof fn lemma_window_bounded(s: Seq<u64>, v: u64)
    requires
        s.len() <= HISTORY,
    ensures
        window_push(s, v).len() <= HISTORY,
        window_push(s, v).last() == v,
{
}

/// Starting from an empty history, the window holds exactly the last
/// `HISTORY` values recorded (all of them while fewer have arrived), oldest
/// first.
pub proof fn lemma_window_keeps_latest(xs: Seq<u64>)
    ensures
        window_push_all(Seq::empty(), xs) == xs.subrange(
            if xs.len() > HISTORY { xs.len() - HISTORY } else { 0 },
            xs.len() as int,
        ),
    decreases xs.len(),
{
    if xs.len() > 0 {
        let ys = xs.drop_last();
        lemma_window_keeps_latest(ys);
        let w = window_push_all(Seq::empty(), ys);
        if ys.len() >= HISTORY {
            assert(w.drop_first().push(xs.last()) =~= xs.subrange(
                xs.len() - HISTORY,
                xs.len() as int,
            ));
        } else {
            assert(w.push(xs.last()) =~= xs.subrange(0, xs.len() as int));
        }
    } else {
        assert(xs.subrange(0, 0) =~= Seq::<u64>::empty());
    }
}


// ---------------------------------------------------------------- processes

/// A process matches a lowercased search query when the query occurs in its
/// lowercased name or in the decimal text of its pid.
pub open spec fn proc_matches(p: Proc, q: Seq<char>) -> bool {
    has_substring(lowered(p.name@), q) || has_substring(dec_int(p.pid as int), q)
}

/// The processes of `s` that a search query keeps, in their sampled order
/// (an empty query keeps them all).
pub open spec fn kept(s: Seq<Proc>, q: Seq<char>) -> Seq<Proc>
    decreases s.len(),
{
    if s.len() == 0 {
        Seq::empty()
    } else {
        let r = kept(s.drop_last(), q);
        if q.len() == 0 || proc_matches(s.last(), q) {
            r.push(s.last())
        } else {
            r
        }
    }
}

/// `a` is listed strictly before `b` under a sort column: by CPU share and by
/// resident memory the largest come first, by pid and by name the smallest.
pub open spec fn goes_before(a: Proc, b: Proc, sort: ProcessSort) -> bool {
    match sort {
        ProcessSort::Cpu => a.cpu_order > b.cpu_order,
        ProcessSort::Mem => a.rss_kb > b.rss_kb,
        ProcessSort::Pid => a.pid < b.pid,
        ProcessSort::Name => seq_lt(a.name@, b.name@),
    }
}

/// Where `x` goes into the ordered list `r` when it arrives after all of
/// them: in front of the first entry it goes before, else at the end.
pub open spec fn insert_pos(r: Seq<Proc>, x: Proc, sort: ProcessSort) -> int
    decreases r.len(),
{
    if r.len() == 0 {
        0
    } else if goes_before(x, r[0], sort) {
        0
    } else {
        1 + insert_pos(r.drop_first(), x, sort)
    }
}

/// The stable ordering of `s` under a sort column: ordered by the column,
/// with processes that tie kept in their sampled order.
pub open spec fn sorted_procs(s: Seq<Proc>, sort: ProcessSort) -> Seq<Proc>
    decreases s.len(),
{
    if s.len() == 0 {
        Seq::empty()
    } else {
        let r = sorted_procs(s.drop_last(), sort);
        r.insert(insert_pos(r, s.last(), sort), s.last())
    }
}

/// A list read front to back, or back to front.
pub open spec fn oriented(s: Seq<Proc>, forward: bool) -> Seq<Proc> {
    if forward {
        s
    } else {
        s.reverse()
    }
}

/// The first `n` entries of a list (all of them when it is shorter).
pub open spec fn first_n(s: Seq<Proc>, n: nat) -> Seq<Proc> {
    if s.len() <= n {
        s
    } else {
        s.take(n as int)
    }
}

pub proof fn lemma_insert_pos_bounds(r: Seq<Proc>, x: Proc, sort: ProcessSort)
    ensures
        0 <= insert_pos(r, x, sort) <= r.len(),
    decreases r.len(),
{
    if r.len() > 0 && !goes_before(x, r[0], sort) {
        lemma_insert_pos_bounds(r.drop_first(), x, sort);
    }
}

/// The first entry that `x` goes before sits at `insert_pos`.
pub proof fn lemma_insert_pos_is_first(r: Seq<Proc>, x: Proc, sort: ProcessSort, j: int)
    requires
        0 <= j <= r.len(),
        forall|k: int| 0 <= k < j ==> !goes_before(x, #[trigger] r[k], sort),
        j == r.len() || goes_before(x, r[j], sort),
    ensures
        insert_pos(r, x, sort) == j,
    decreases j,
{
    if j > 0 {
        assert(!goes_before(x, r[0], sort));
        let t = r.drop_first();
        assert forall|k: int| 0 <= k < j - 1 implies !goes_before(x, #[trigger] t[k], sort) by {
            assert(t[k] == r[k + 1]);
        }
        if j < r.len() {
            assert(t[j - 1] == r[j]);
        }
        lemma_insert_pos_is_first(t, x, sort, j - 1);
    }
}

/// Whether `a` is listed strictly before `b` under `sort`.
fn proc_goes_before(a: &Proc, b: &Proc, sort: ProcessSort) -> (r: bool)
    ensures
        r == goes_before(*a, *b, sort),
{
    match sort {
        ProcessSort::Cpu => a.cpu_order > b.cpu_order,
        ProcessSort::Mem => a.rss_kb > b.rss_kb,
        ProcessSort::Pid => a.pid < b.pid,
        ProcessSort::Name => {
            let an = chars_of(a.name.as_str());
            let bn = chars_of(b.name.as_str());
            chars_less(an.as_slice(), bn.as_slice())
        },
    }
}

/// Where `x` goes into the ordered list `r`.
fn insert_position(r: &Vec<Proc>, x: &Proc, sort: ProcessSort) -> (j: usize)
    ensures
        j == insert_pos(r@, *x, sort),
{
    let n = r.len();
    let mut j: usize = 0;
    while j < n
        invariant
            n == r@.len(),
            j <= n,
            forall|k: int| 0 <= k < j ==> !goes_before(*x, #[trigger] r@[k], sort),
        decreases n - j,
    {
        if proc_goes_before(x, &r[j], sort) {
            proof {
                lemma_insert_pos_is_first(r@, *x, sort, j as int);
            }
            return j;
        }
        j = j + 1;
    }
    proof {
        lemma_insert_pos_is_first(r@, *x, sort, j as int);
    }
    j
}

/// Whether a process matches a lowercased search query.
fn proc_matches_query(p: &Proc, q: &[char]) -> (r: bool)
    ensures
        r == proc_matches(*p, q@),
{
    let lower = to_lowercase(p.name.as_str());
    let lc = chars_of(lower.as_str());
    if contains_chars(lc.as_slice(), q) {
        return true;
    }
    let pid = i32_to_string(p.pid);
    let pc = chars_of(pid.as_str());
    contains_chars(pc.as_slice(), q)
}

// ---------------------------------------------------------------- app state

/// The state of the monitor: what is shown, how it is ordered, what the user
/// has typed, and the histories of the recent samples.
pub struct App {
    pub snapshot: Snapshot,
    pub tab: Tab,
    pub paused: bool,
    pub top_count: usize,
    pub table_scroll: usize,
    pub error: Option<String>,
    pub cpu_hist: Series,
    pub mem_hist: Series,
    pub rx_hist: Series,
    pub tx_hist: Series,
    pub disk_r_hist: Series,
    pub disk_w_hist: Series,
    pub ctx_rate: u64,
    pub intr_rate: u64,
    // Theme
    pub theme: Theme,
    // Process search / sort
    pub search_query: Option<String>,
    pub lowered_query: String,
    pub proc_sort: ProcessSort,
    pub proc_sort_desc: bool,
    pub selected_pid: Option<i32>,
    // Help overlay
    pub show_help: bool,
    // Cow animation frame
    pub cow_frame: u64,
}

/// The abstract state of the monitor: strings as character sequences and
/// histories as sequences of values.
#[verifier::ext_equal]
pub struct AppView {
    pub snapshot: Snapshot,
    pub tab: Tab,
    pub paused: bool,
    pub top_count: usize,
    pub table_scroll: usize,
    pub error: Option<Seq<char>>,
    pub cpu_hist: Seq<u64>,
    pub mem_hist: Seq<u64>,
    pub rx_hist: Seq<u64>,
    pub tx_hist: Seq<u64>,
    pub disk_r_hist: Seq<u64>,
    pub disk_w_hist: Seq<u64>,
    pub ctx_rate: u64,
    pub intr_rate: u64,
    pub theme: Theme,
    pub search_query: Option<Seq<char>>,
    pub lowered_query: Seq<char>,
    pub proc_sort: ProcessSort,
    pub proc_sort_desc: bool,
    pub selected_pid: Option<i32>,
    pub show_help: bool,
    pub cow_frame: u64,
}

/// The characters of an optional string.
pub open spec fn text_view(s: Option<String>) -> Option<Seq<char>> {
    match s {
        Some(t) => Some(t@),
        None => None,
    }
}

impl View for App {
    type V = AppView;

    open spec fn view(&self) -> AppView {
        AppView {
            snapshot: self.snapshot,
            tab: self.tab,
            paused: self.paused,
            top_count: self.top_count,
            table_scroll: self.table_scroll,
            error: text_view(self.error),
            cpu_hist: self.cpu_hist@,
            mem_hist: self.mem_hist@,
            rx_hist: self.rx_hist@,
            tx_hist: self.tx_hist@,
            disk_r_hist: self.disk_r_hist@,
            disk_w_hist: self.disk_w_hist@,
            ctx_rate: self.ctx_rate,
            intr_rate: self.intr_rate,
            theme: self.theme,
            search_query: text_view(self.search_query),
            lowered_query: self.lowered_query@,
            proc_sort: self.proc_sort,
            proc_sort_desc: self.proc_sort_desc,
            selected_pid: self.selected_pid,
            show_help: self.show_help,
            cow_frame: self.cow_frame,
        }
    }
}

impl AppView {
    /// The state right after start-up.
    pub open spec fn initial(self, top_count: usize, theme: Theme) -> bool {
        &&& self.snapshot.spec_empty()
        &&& self.tab == Tab::Overview
        &&& !self.paused
        &&& self.top_count == top_count
        &&& self.table_scroll == 0
        &&& self.error is None
        &&& self.cpu_hist.len() == 0
        &&& self.mem_hist.len() == 0
        &&& self.rx_hist.len() == 0
        &&& self.tx_hist.len() == 0
        &&& self.disk_r_hist.len() == 0
        &&& self.disk_w_hist.len() == 0
        &&& self.ctx_rate == 0
        &&& self.intr_rate == 0
        &&& self.theme == theme
        &&& self.search_query is None
        &&& self.lowered_query.len() == 0
        &&& self.proc_sort == ProcessSort::Cpu
        &&& self.proc_sort_desc
        &&& self.selected_pid is None
        &&& !self.show_help
        &&& self.cow_frame == 0
    }

    /// The sampled list behind a process table: the top-CPU list or the
    /// top-memory list.
    pub open spec fn listed(self, by_cpu: bool) -> Seq<Proc> {
        if by_cpu {
            self.snapshot.top_cpu@
        } else {
            self.snapshot.top_mem@
        }
    }

    /// The process table: the top-CPU or top-memory list, filtered by the
    /// search query, ordered by the sort column (reversed when ascending is
    /// chosen), and cut to `top_n` rows.
    pub open spec fn procs(self, top_n: nat, by_cpu: bool) -> Seq<Proc> {
        let source = if by_cpu {
            self.snapshot.top_cpu@
        } else {
            self.snapshot.top_mem@
        };
        first_n(
            oriented(
                sorted_procs(kept(source, self.lowered_query), self.proc_sort),
                self.proc_sort_desc,
            ),
            top_n,
        )
    }

    /// The state after a sample (or a sampling error) arrives. While paused
    /// nothing changes; otherwise the animation advances one frame and a
    /// sample replaces the snapshot, records its readings, derives the
    /// per-interval context-switch and interrupt counts and clears the error.
    pub open spec fn after_refresh(self, sampled: Result<(Snapshot, Reading), String>) -> AppView {
        if self.paused {
            self
        } else {
            let frame = self.cow_frame.wrapping_add(1);
            match sampled {
                Ok((s, r)) => AppView {
                    cow_frame: frame,
                    ctx_rate: s.ctx_switches.saturating_sub(self.snapshot.ctx_switches),
                    intr_rate: s.interrupts.saturating_sub(self.snapshot.interrupts),
                    cpu_hist: window_push(self.cpu_hist, r.cpu_percent),
                    mem_hist: window_push(self.mem_hist, r.mem_percent),
                    rx_hist: window_push(self.rx_hist, r.rx_kib),
                    tx_hist: window_push(self.tx_hist, r.tx_kib),
                    disk_r_hist: window_push(self.disk_r_hist, r.disk_read_kib),
                    disk_w_hist: window_push(self.disk_w_hist, r.disk_write_kib),
                    snapshot: s,
                    error: None,
                    ..self
                },
                Err(e) => AppView { cow_frame: frame, error: Some(e@), ..self },
            }
        }
    }

    /// The same state with the tables scrolled to the top.
    pub open spec fn scrolled_to_top(self) -> AppView {
        AppView { table_scroll: 0, ..self }
    }

    /// The same state outside search mode (the filter is kept).
    pub open spec fn out_of_search(self) -> AppView {
        AppView { search_query: None, ..self }
    }

    /// The state after switching to the next tab (wrapping round).
    pub open spec fn after_next_tab(self) -> AppView {
        AppView { tab: Tab::at(((self.tab.ord() + 1) % 6) as int), table_scroll: 0, ..self }
    }

    /// The state after switching to the previous tab (wrapping round).
    pub open spec fn after_prev_tab(self) -> AppView {
        AppView { tab: Tab::at(((self.tab.ord() + 5) % 6) as int), table_scroll: 0, ..self }
    }

    /// The state after jumping to tab `i`; out-of-range positions are ignored.
    pub open spec fn after_select_tab(self, i: int) -> AppView {
        if 0 <= i < 6 {
            AppView { tab: Tab::at(i), table_scroll: 0, ..self }
        } else {
            self
        }
    }

    /// The state after scrolling one row down (stopping at the largest row).
    pub open spec fn after_scroll_down(self) -> AppView {
        AppView { table_scroll: self.table_scroll.saturating_add(1), ..self }
    }

    /// The state after scrolling one row up (stopping at the top).
    pub open spec fn after_scroll_up(self) -> AppView {
        AppView { table_scroll: self.table_scroll.saturating_sub(1), ..self }
    }

    /// The state after pausing or resuming sampling.
    pub open spec fn after_toggle_pause(self) -> AppView {
        AppView { paused: !self.paused, ..self }
    }

    /// The state after opening or closing the help overlay, which also
    /// leaves search mode.
    pub open spec fn after_toggle_help(self) -> AppView {
        AppView { show_help: !self.show_help, search_query: None, ..self }
    }

    /// The state after entering search mode with an empty query.
    pub open spec fn after_enter_search(self) -> AppView {
        AppView { search_query: Some(Seq::empty()), lowered_query: Seq::empty(), ..self }
    }

    /// The state after leaving search mode, which clears the filter.
    pub open spec fn after_exit_search(self) -> AppView {
        AppView { search_query: None, lowered_query: Seq::empty(), ..self }
    }

    /// The state after typing `c` into the search bar (ignored outside
    /// search mode); the filter follows the lowercased query.
    pub open spec fn after_search_push(self, c: char) -> AppView {
        match self.search_query {
            Some(q) => AppView {
                search_query: Some(q.push(c)),
                lowered_query: lowered(q.push(c)),
                ..self
            },
            None => self,
        }
    }

    /// The state after erasing the last character of the search query
    /// (ignored outside search mode); the filter follows the query.
    pub open spec fn after_search_pop(self) -> AppView {
        match self.search_query {
            Some(q) => {
                let nq = if q.len() > 0 {
                    q.drop_last()
                } else {
                    q
                };
                AppView { search_query: Some(nq), lowered_query: lowered(nq), ..self }
            },
            None => self,
        }
    }

    /// The state after moving to the next sort column.
    pub open spec fn after_cycle_sort(self) -> AppView {
        AppView { proc_sort: self.proc_sort.next(), table_scroll: 0, ..self }
    }

    /// The state after moving to the next built-in theme.
    pub open spec fn after_next_theme(self) -> AppView {
        AppView {
            theme: Theme::spec_at((Theme::spec_index_of(self.theme.name@) + 1) % 6),
            ..self
        }
    }

    /// The state after moving to the previous built-in theme.
    pub open spec fn after_prev_theme(self) -> AppView {
        AppView {
            theme: Theme::spec_at((Theme::spec_index_of(self.theme.name@) + 5) % 6),
            ..self
        }
    }
}

impl App {
    /// A fresh monitor state showing the overview, with `top_count` rows
    /// requested per process table and the given theme.
    pub fn new(top_count: usize, theme: Theme) -> (app: App)
        ensures
            app@.initial(top_count, theme),
    {
        App {
            snapshot: Snapshot::empty(),
            tab: Tab::Overview,
            paused: false,
            top_count,
            table_scroll: 0,
            error: None,
            cpu_hist: Series::new(),
            mem_hist: Series::new(),
            rx_hist: Series::new(),
            tx_hist: Series::new(),
            disk_r_hist: Series::new(),
            disk_w_hist: Series::new(),
            ctx_rate: 0,
            intr_rate: 0,
            theme,
            search_query: None,
            lowered_query: String::new(),
            proc_sort: ProcessSort::Cpu,
            proc_sort_desc: true,
            selected_pid: None,
            show_help: false,
            cow_frame: 0,
        }
    }

    /// Takes in the outcome of one sampling: the discrete snapshot and the
    /// rounded readings, or the sampler's error message. Does nothing while
    /// paused (the caller does not sample then).
    pub fn refresh(&mut self, sampled: Result<(Snapshot, Reading), String>)
        ensures
            final(self)@ == old(self)@.after_refresh(sampled),
    {
        if self.paused {
            return;
        }
        self.cow_frame = self.cow_frame.wrapping_add(1);
        match sampled {
            Ok((s, r)) => {
                self.ctx_rate = s.ctx_switches.saturating_sub(self.snapshot.ctx_switches);
                self.intr_rate = s.interrupts.saturating_sub(self.snapshot.interrupts);
                self.cpu_hist.push(r.cpu_percent);
                self.mem_hist.push(r.mem_percent);
                self.rx_hist.push(r.rx_kib);
                self.tx_hist.push(r.tx_kib);
                self.disk_r_hist.push(r.disk_read_kib);
                self.disk_w_hist.push(r.disk_write_kib);
                self.snapshot = s;
                self.error = None;
            },
            Err(e) => {
                self.error = Some(e);
            },
        }
    }

    /// Moves to the next built-in theme (the caller stores the choice).
    pub fn next_theme(&mut self)
        ensures
            final(self)@ == old(self)@.after_next_theme(),
    {
        let i = (self.theme.index() + 1) % 6;
        self.theme = Theme::at(i);
    }

    /// Moves to the previous built-in theme (the caller stores the choice).
    pub fn prev_theme(&mut self)
        ensures
            final(self)@ == old(self)@.after_prev_theme(),
    {
        let i = (self.theme.index() + 6 - 1) % 6;
        self.theme = Theme::at(i);
    }

    /// Switches to the next tab, wrapping round, and scrolls to the top.
    pub fn next_tab(&mut self)
        ensures
            final(self)@ == old(self)@.after_next_tab(),
    {
        let i = self.tab.index();
        self.tab = Tab::from_index((i + 1) % 6);
        self.table_scroll = 0;
    }

    /// Switches to the previous tab, wrapping round, and scrolls to the top.
    pub fn prev_tab(&mut self)
        ensures
            final(self)@ == old(self)@.after_prev_tab(),
    {
        let i = self.tab.index();
        self.tab = Tab::from_index((i + 6 - 1) % 6);
        self.table_scroll = 0;
    }

    /// Jumps to tab `i` and scrolls to the top; an out-of-range `i` is
    /// ignored.
    pub fn select_tab(&mut self, i: usize)
        ensures
            final(self)@ == old(self)@.after_select_tab(i as int),
    {
        if i < 6 {
            self.tab = Tab::from_index(i);
            self.table_scroll = 0;
        }
    }

    /// Scrolls the tables one row down.
    pub fn scroll_down(&mut self)
        ensures
            final(self)@ == old(self)@.after_scroll_down(),
    {
        self.table_scroll = self.table_scroll.saturating_add(1);
    }

    /// Scrolls the tables one row up.
    pub fn scroll_up(&mut self)
        ensures
            final(self)@ == old(self)@.after_scroll_up(),
    {
        self.table_scroll = self.table_scroll.saturating_sub(1);
    }

    /// Pauses or resumes sampling.
    pub fn toggle_pause(&mut self)
        ensures
            final(self)@ == old(self)@.after_toggle_pause(),
    {
        self.paused = !self.paused;
    }

    /// Opens or closes the help overlay, leaving search mode.
    pub fn toggle_help(&mut self)
        ensures
            final(self)@ == old(self)@.after_toggle_help(),
    {
        self.show_help = !self.show_help;
        self.search_query = None;
    }

    /// Enters search mode with an empty query.
    pub fn enter_search(&mut self)
        ensures
            final(self)@ == old(self)@.after_enter_search(),
    {
        self.search_query = Some(String::new());
        self.lowered_query = String::new();
    }

    /// Leaves search mode and clears the filter.
    pub fn exit_search(&mut self)
        ensures
            final(self)@ == old(self)@.after_exit_search(),
    {
        self.search_query = None;
        self.lowered_query = String::new();
    }

    /// Types a character into the search query.
    pub fn search_push(&mut self, c: char)
        ensures
            final(self)@ == old(self)@.after_search_push(c),
    {
        match self.search_query.take() {
            Some(q) => {
                let mut q = q;
                push_char(&mut q, c);
                self.lowered_query = to_lowercase(q.as_str());
                self.search_query = Some(q);
            },
            None => {},
        }
    }

    /// Erases the last character of the search query.
    pub fn search_pop(&mut self)
        ensures
            final(self)@ == old(self)@.after_search_pop(),
    {
        match self.search_query.take() {
            Some(q) => {
                let mut q = q;
                let _ = pop_char(&mut q);
                self.lowered_query = to_lowercase(q.as_str());
                self.search_query = Some(q);
            },
            None => {},
        }
    }

    /// Moves to the next sort column and scrolls to the top.
    pub fn cycle_sort(&mut self)
        ensures
            final(self)@ == old(self)@.after_cycle_sort(),
    {
        self.proc_sort = match self.proc_sort {
            ProcessSort::Cpu => ProcessSort::Mem,
            ProcessSort::Mem => ProcessSort::Pid,
            ProcessSort::Pid => ProcessSort::Name,
            ProcessSort::Name => ProcessSort::Cpu,
        };
        self.table_scroll = 0;
    }

    /// Returns processes filtered by search query and sorted by current column.
    pub fn filtered_procs(&self, top_n: usize, by_cpu: bool) -> (r: Vec<Proc>)
        ensures
            r@ == self@.procs(top_n as nat, by_cpu),
    {
        let source = if by_cpu {
            &self.snapshot.top_cpu
        } else {
            &self.snapshot.top_mem
        };
        let q = chars_of(self.lowered_query.as_str());
        let sort = self.proc_sort;
        let ghost src = source@;
        let mut sorted: Vec<Proc> = Vec::new();
        let mut i: usize = 0;
        assert(src.take(0) =~= Seq::<Proc>::empty());
        while i < source.len()
            invariant
                src == source@,
                q@ == self.lowered_query@,
                i <= src.len(),
                sorted@ == sorted_procs(kept(src.take(i as int), q@), sort),
            decreases src.len() - i,
        {
            let ghost before = src.take(i as int);
            assert(src.take(i + 1).drop_last() =~= before);
            assert(src.take(i + 1).last() == src[i as int]);
            let p = &source[i];
            if q.len() == 0 || proc_matches_query(p, q.as_slice()) {
                let j = insert_position(&sorted, p, sort);
                proof {
                    lemma_insert_pos_bounds(sorted@, *p, sort);
                    assert(kept(src.take(i + 1), q@) =~= kept(before, q@).push(*p));
                    assert(kept(src.take(i + 1), q@).drop_last() =~= kept(before, q@));
                }
                sorted.insert(j, p.clone());
            } else {
                assert(kept(src.take(i + 1), q@) =~= kept(before, q@));
            }
            i = i + 1;
        }
        assert(src.take(src.len() as int) =~= src);
        let n = sorted.len();
        let m = if n < top_n {
            n
        } else {
            top_n
        };
        let desc = self.proc_sort_desc;
        let mut out: Vec<Proc> = Vec::new();
        let mut k: usize = 0;
        while k < m
            invariant
                n == sorted@.len(),
                m <= n,
                m <= top_n,
                m == n || m == top_n,
                k <= m,
                out@ == oriented(sorted@, desc).take(k as int),
            decreases m - k,
        {
            let idx = if desc {
                k
            } else {
                n - 1 - k
            };
            out.push(sorted[idx].clone());
            k = k + 1;
            assert(out@ =~= oriented(sorted@, desc).take(k as int));
        }
        assert(out@ =~= first_n(oriented(sorted@, desc), top_n as nat));
        out
    }
}

// ---------------------------------------------------------------- laws

/// No entry of `r` is listed strictly before an entry that precedes it.
pub open spec fn ordered(r: Seq<Proc>, sort: ProcessSort) -> bool {
    forall|i: int, j: int| 0 <= i < j < r.len() ==> !goes_before(#[trigger] r[j], #[trigger] r[i], sort)
}

proof fn lemma_before_irreflexive(a: Proc, sort: ProcessSort)
    ensures
        !goes_before(a, a, sort),
{
    lemma_seq_lt_irreflexive(a.name@);
}

proof fn lemma_before_transitive(a: Proc, b: Proc, c: Proc, sort: ProcessSort)
    requires
        goes_before(a, b, sort),
        goes_before(b, c, sort),
    ensures
        goes_before(a, c, sort),
{
    if sort == ProcessSort::Name {
        lemma_seq_lt_transitive(a.name@, b.name@, c.name@);
    }
}

proof fn lemma_before_insert_pos(r: Seq<Proc>, x: Proc, sort: ProcessSort, k: int)
    requires
        0 <= k < insert_pos(r, x, sort),
    ensures
        !goes_before(x, r[k], sort),
    decreases r.len(),
{
    lemma_insert_pos_bounds(r, x, sort);
    if k > 0 {
        lemma_before_insert_pos(r.drop_first(), x, sort, k - 1);
        assert(r.drop_first()[k - 1] == r[k]);
    }
}

proof fn lemma_insert_ordered(r: Seq<Proc>, x: Proc, sort: ProcessSort)
    requires
        ordered(r, sort),
    ensures
        ordered(r.insert(insert_pos(r, x, sort), x), sort),
{
    let p = insert_pos(r, x, sort);
    lemma_insert_pos_bounds(r, x, sort);
    let t = r.insert(p, x);
    r.insert_ensures(p, x);
    assert forall|i: int, j: int| 0 <= i < j < t.len() implies !goes_before(
        #[trigger] t[j],
        #[trigger] t[i],
        sort,
    ) by {
        if i < p && j < p {
            assert(t[i] == r[i] && t[j] == r[j]);
        } else if i < p && j == p {
            lemma_before_insert_pos(r, x, sort, i);
        } else if i < p && j > p {
            assert(t[i] == r[i] && t[j] == r[j - 1]);
        } else if i == p {
            // x against a later entry r[j - 1]: r[p] is one x goes before
            assert(t[j] == r[j - 1]);
            if goes_before(r[j - 1], x, sort) {
                lemma_before_first_after(r, x, sort);
                if j - 1 == p {
                    lemma_before_transitive(x, r[p], x, sort);
                    lemma_before_irreflexive(x, sort);
                } else {
                    lemma_before_transitive(r[j - 1], x, r[p], sort);
                }
            }
        } else {
            assert(t[i] == r[i - 1] && t[j] == r[j - 1]);
        }
    }
}

proof fn lemma_before_first_after(r: Seq<Proc>, x: Proc, sort: ProcessSort)
    requires
        insert_pos(r, x, sort) < r.len(),
    ensures
        goes_before(x, r[insert_pos(r, x, sort)], sort),
    decreases r.len(),
{
    if r.len() > 0 && !goes_before(x, r[0], sort) {
        let p = insert_pos(r.drop_first(), x, sort);
        assert(insert_pos(r, x, sort) == 1 + p);
        lemma_insert_pos_bounds(r.drop_first(), x, sort);
        lemma_before_first_after(r.drop_first(), x, sort);
        assert(r.drop_first()[p] == r[p + 1]);
    }
}

/// The stable ordering of a list is ordered by its column.
pub proof fn lemma_sorted_procs_ordered(s: Seq<Proc>, sort: ProcessSort)
    ensures
        ordered(sorted_procs(s, sort), sort),
    decreases s.len(),
{
    if s.len() > 0 {
        lemma_sorted_procs_ordered(s.drop_last(), sort);
        lemma_insert_ordered(sorted_procs(s.drop_last(), sort), s.last(), sort);
    }
}

/// The stable ordering of a list holds exactly its entries.
pub proof fn lemma_sorted_procs_permutation(s: Seq<Proc>, sort: ProcessSort)
    ensures
        sorted_procs(s, sort).to_multiset() == s.to_multiset(),
    decreases s.len(),
{
    broadcast use vstd::seq_lib::group_to_multiset_ensures;

    if s.len() > 0 {
        let r = sorted_procs(s.drop_last(), sort);
        lemma_sorted_procs_permutation(s.drop_last(), sort);
        lemma_insert_pos_bounds(r, s.last(), sort);
        assert(s.drop_last().push(s.last()) =~= s);
    }
}

/// The search keeps only processes of the list that match the query, in
/// order; an empty query keeps the whole list.
pub proof fn lemma_kept(s: Seq<Proc>, q: Seq<char>)
    ensures
        forall|p: Proc| #[trigger] kept(s, q).contains(p) ==> s.contains(p) && (q.len() == 0
            || proc_matches(p, q)),
        q.len() == 0 ==> kept(s, q) == s,
    decreases s.len(),
{
    if s.len() > 0 {
        lemma_kept(s.drop_last(), q);
        let r = kept(s.drop_last(), q);
        assert forall|p: Proc| #[trigger] kept(s, q).contains(p) implies s.contains(p) && (q.len()
            == 0 || proc_matches(p, q)) by {
            if r.contains(p) {
                let k = choose|k: int| 0 <= k < r.len() && r[k] == p;
                assert(s.drop_last().contains(p));
                let m = choose|m: int| 0 <= m < s.drop_last().len() && s.drop_last()[m] == p;
                assert(s[m] == p);
            } else {
                let k = choose|k: int| 0 <= k < kept(s, q).len() && kept(s, q)[k] == p;
                assert(p == s.last());
                assert(s[s.len() - 1] == p);
            }
        }
        if q.len() == 0 {
            assert(s.drop_last().push(s.last()) =~= s);
        }
    } else {
        assert(s =~= Seq::<Proc>::empty());
    }
}

/// The process table never has more than the requested rows; every row is
/// a process of the chosen list that matches the search; rows run in the
/// order of the sort column (largest CPU or memory first, smallest pid or
/// name first, the reverse when ascending is chosen); and with no search and
/// room for every row the table shows the whole list, each process once.
pub proof fn lemma_procs_table(v: AppView, top_n: nat, by_cpu: bool)
    ensures
        v.procs(top_n, by_cpu).len() <= top_n,
        forall|p: Proc| #[trigger] v.procs(top_n, by_cpu).contains(p) ==> (if by_cpu {
            v.snapshot.top_cpu@
        } else {
            v.snapshot.top_mem@
        }).contains(p) && (v.lowered_query.len() == 0 || proc_matches(p, v.lowered_query)),
        forall|i: int, j: int|
            0 <= i < j < v.procs(top_n, by_cpu).len() ==> if v.proc_sort_desc {
                !goes_before(
                    #[trigger] v.procs(top_n, by_cpu)[j],
                    #[trigger] v.procs(top_n, by_cpu)[i],
                    v.proc_sort,
                )
            } else {
                !goes_before(v.procs(top_n, by_cpu)[i], v.procs(top_n, by_cpu)[j], v.proc_sort)
            },
        v.lowered_query.len() == 0 && (if by_cpu {
            v.snapshot.top_cpu@
        } else {
            v.snapshot.top_mem@
        }).len() <= top_n ==> v.procs(top_n, by_cpu).to_multiset() == (if by_cpu {
            v.snapshot.top_cpu@
        } else {
            v.snapshot.top_mem@
        }).to_multiset(),
{
    broadcast use vstd::seq_lib::group_to_multiset_ensures;

    let source = if by_cpu {
        v.snapshot.top_cpu@
    } else {
        v.snapshot.top_mem@
    };
    let q = v.lowered_query;
    let sort = v.proc_sort;
    let k = kept(source, q);
    let srt = sorted_procs(k, sort);
    let o = oriented(srt, v.proc_sort_desc);
    let r = first_n(o, top_n);
    lemma_kept(source, q);
    lemma_sorted_procs_ordered(k, sort);
    lemma_sorted_procs_permutation(k, sort);
    if !v.proc_sort_desc {
        srt.lemma_reverse_to_multiset();
    }
    assert(o.to_multiset() == k.to_multiset());
    assert(o.len() == k.len()) by {
        assert(o.to_multiset().len() == k.to_multiset().len());
    }
    if q.len() == 0 && source.len() <= top_n {
        assert(k == source);
        assert(r == o);
    }
    assert forall|p: Proc| #[trigger] r.contains(p) implies source.contains(p) && (q.len() == 0
        || proc_matches(p, q)) by {
        let i = choose|i: int| 0 <= i < r.len() && r[i] == p;
        assert(o[i] == p);
        assert(o.contains(p));
        assert(o.to_multiset().count(p) > 0);
        assert(k.contains(p));
    }
    assert forall|i: int, j: int| 0 <= i < j < r.len() implies if v.proc_sort_desc {
        !goes_before(#[trigger] r[j], #[trigger] r[i], sort)
    } else {
        !goes_before(r[i], r[j], sort)
    } by {
        assert(r[i] == o[i] && r[j] == o[j]);
        if !v.proc_sort_desc {
            assert(o[i] == srt[srt.len() - 1 - i]);
            assert(o[j] == srt[srt.len() - 1 - j]);
        }
    }
}

/// Every process of the list that matches the query is kept.
proof fn lemma_kept_complete(s: Seq<Proc>, q: Seq<char>, p: Proc)
    requires
        s.contains(p),
        q.len() == 0 || proc_matches(p, q),
    ensures
        kept(s, q).contains(p),
    decreases s.len(),
{
    if s.len() > 0 {
        let r = kept(s.drop_last(), q);
        if p == s.last() {
            assert(kept(s, q)[kept(s, q).len() - 1] == p);
        } else {
            let k = choose|k: int| 0 <= k < s.len() && s[k] == p;
            assert(k < s.len() - 1);
            assert(s.drop_last()[k] == p);
            lemma_kept_complete(s.drop_last(), q, p);
            let j = choose|j: int| 0 <= j < r.len() && r[j] == p;
            assert(kept(s, q)[j] == p);
        }
    }
}

/// The rows of the table run in the order of the chosen column, read off
/// the processes themselves. Descending (the default): CPU share and
/// resident memory from the largest, pid from the smallest, and names in
/// lexicographic order of their whole text (code point by code point, a
/// prefix first), so no row's name comes before an earlier row's name.
/// Ascending reverses each of these.
pub proof fn lemma_table_column_order(v: AppView, top_n: nat, by_cpu: bool)
    ensures
        forall|i: int, j: int|
            #![trigger v.procs(top_n, by_cpu)[i], v.procs(top_n, by_cpu)[j]]
            0 <= i < j < v.procs(top_n, by_cpu).len() ==> {
                let a = v.procs(top_n, by_cpu)[i];
                let b = v.procs(top_n, by_cpu)[j];
                match v.proc_sort {
                    ProcessSort::Cpu => if v.proc_sort_desc {
                        a.cpu_order >= b.cpu_order
                    } else {
                        a.cpu_order <= b.cpu_order
                    },
                    ProcessSort::Mem => if v.proc_sort_desc {
                        a.rss_kb >= b.rss_kb
                    } else {
                        a.rss_kb <= b.rss_kb
                    },
                    ProcessSort::Pid => if v.proc_sort_desc {
                        a.pid <= b.pid
                    } else {
                        a.pid >= b.pid
                    },
                    ProcessSort::Name => if v.proc_sort_desc {
                        !seq_lt(b.name@, a.name@)
                    } else {
                        !seq_lt(a.name@, b.name@)
                    },
                }
            },
{
    lemma_procs_table(v, top_n, by_cpu);
    let rows = v.procs(top_n, by_cpu);
    assert forall|i: int, j: int| 0 <= i < j < rows.len() implies if v.proc_sort_desc {
        !goes_before(#[trigger] rows[j], #[trigger] rows[i], v.proc_sort)
    } else {
        !goes_before(rows[i], rows[j], v.proc_sort)
    } by {}
}

/// The search keeps exactly the processes whose lowercased name or decimal
/// pid text holds the query as a contiguous run: every row is a process of
/// the chosen list in which the query occurs so (any process with an empty
/// query), and when the table has room for the whole list every such
/// process is a row.
pub proof fn lemma_search_table(v: AppView, top_n: nat, by_cpu: bool)
    ensures
        forall|p: Proc| #[trigger] v.procs(top_n, by_cpu).contains(p) ==> v.listed(by_cpu).contains(
            p,
        ) && (v.lowered_query.len() == 0 || (exists|k: int|
            0 <= k && k + v.lowered_query.len() <= lowered(p.name@).len() && #[trigger] lowered(
                p.name@,
            ).subrange(k, k + v.lowered_query.len()) == v.lowered_query) || (exists|k: int|
            0 <= k && k + v.lowered_query.len() <= dec_int(p.pid as int).len()
                && #[trigger] dec_int(p.pid as int).subrange(k, k + v.lowered_query.len())
                == v.lowered_query)),
        v.listed(by_cpu).len() <= top_n ==> forall|p: Proc, k: int|
            #![trigger v.listed(by_cpu).contains(p), lowered(p.name@).subrange(k, k + v.lowered_query.len())]
            v.listed(by_cpu).contains(p) && 0 <= k && k + v.lowered_query.len() <= lowered(
                p.name@,
            ).len() && lowered(p.name@).subrange(k, k + v.lowered_query.len()) == v.lowered_query
                ==> v.procs(top_n, by_cpu).contains(p),
        v.listed(by_cpu).len() <= top_n ==> forall|p: Proc, k: int|
            #![trigger v.listed(by_cpu).contains(p), dec_int(p.pid as int).subrange(k, k + v.lowered_query.len())]
            v.listed(by_cpu).contains(p) && 0 <= k && k + v.lowered_query.len() <= dec_int(
                p.pid as int,
            ).len() && dec_int(p.pid as int).subrange(k, k + v.lowered_query.len())
                == v.lowered_query ==> v.procs(top_n, by_cpu).contains(p),
{
    broadcast use vstd::seq_lib::group_to_multiset_ensures;

    lemma_procs_table(v, top_n, by_cpu);
    let source = if by_cpu {
        v.snapshot.top_cpu@
    } else {
        v.snapshot.top_mem@
    };
    let q = v.lowered_query;
    let k0 = kept(source, q);
    let srt = sorted_procs(k0, v.proc_sort);
    let o = oriented(srt, v.proc_sort_desc);
    let rows = v.procs(top_n, by_cpu);
    lemma_kept(source, q);
    lemma_sorted_procs_permutation(k0, v.proc_sort);
    if !v.proc_sort_desc {
        srt.lemma_reverse_to_multiset();
    }
    assert(o.to_multiset() == k0.to_multiset());
    assert forall|p: Proc| #[trigger] rows.contains(p) implies (q.len() == 0 || (exists|k: int|
        0 <= k && k + q.len() <= lowered(p.name@).len() && #[trigger] lowered(p.name@).subrange(
            k,
            k + q.len(),
        ) == q) || (exists|k: int|
        0 <= k && k + q.len() <= dec_int(p.pid as int).len() && #[trigger] dec_int(
            p.pid as int,
        ).subrange(k, k + q.len()) == q)) by {
        if q.len() > 0 {
            assert(proc_matches(p, q));
            if has_substring(lowered(p.name@), q) {
                let k = choose|k: int|
                    0 <= k && k + q.len() <= lowered(p.name@).len() && #[trigger] window(
                        lowered(p.name@),
                        k,
                        q.len() as int,
                    ) == q;
                assert(lowered(p.name@).subrange(k, k + q.len()) == q);
            } else {
                let k = choose|k: int|
                    0 <= k && k + q.len() <= dec_int(p.pid as int).len() && #[trigger] window(
                        dec_int(p.pid as int),
                        k,
                        q.len() as int,
                    ) == q;
                assert(dec_int(p.pid as int).subrange(k, k + q.len()) == q);
            }
        }
    }
    if source.len() <= top_n {
        assert(k0.len() <= source.len()) by {
            lemma_kept_len(source, q);
        }
        assert(o.len() == k0.len()) by {
            assert(o.to_multiset().len() == k0.to_multiset().len());
        }
        assert(rows == o);
        assert forall|p: Proc, k: int|
            #![trigger source.contains(p), lowered(p.name@).subrange(k, k + q.len())]
            source.contains(p) && 0 <= k && k + q.len() <= lowered(p.name@).len()
                && lowered(p.name@).subrange(k, k + q.len()) == q implies rows.contains(p) by {
            assert(window(lowered(p.name@), k, q.len() as int) == q);
            lemma_kept_complete(source, q, p);
            lemma_in_permutation(o, k0, p);
        }
        assert forall|p: Proc, k: int|
            #![trigger source.contains(p), dec_int(p.pid as int).subrange(k, k + q.len())]
            source.contains(p) && 0 <= k && k + q.len() <= dec_int(p.pid as int).len()
                && dec_int(p.pid as int).subrange(k, k + q.len()) == q implies rows.contains(p) by {
            assert(window(dec_int(p.pid as int), k, q.len() as int) == q);
            lemma_kept_complete(source, q, p);
            lemma_in_permutation(o, k0, p);
        }
    }
}

/// A search never keeps more processes than the list has.
proof fn lemma_kept_len(s: Seq<Proc>, q: Seq<char>)
    ensures
        kept(s, q).len() <= s.len(),
    decreases s.len(),
{
    if s.len() > 0 {
        lemma_kept_len(s.drop_last(), q);
    }
}

/// A process of one list is in any list with the same entries.
proof fn lemma_in_permutation(a: Seq<Proc>, b: Seq<Proc>, p: Proc)
    requires
        a.to_multiset() == b.to_multiset(),
        b.contains(p),
    ensures
        a.contains(p),
{
    broadcast use vstd::seq_lib::group_to_multiset_ensures;

    assert(b.to_multiset().count(p) > 0);
    assert(a.to_multiset().count(p) > 0);
}

/// Asking for fewer rows shows the first rows of the longer table: the
/// table for `n` rows is a prefix of the table for `m >= n` rows.
pub proof fn lemma_procs_prefix(v: AppView, n: nat, m: nat, by_cpu: bool)
    requires
        n <= m,
    ensures
        v.procs(n, by_cpu) == first_n(v.procs(m, by_cpu), n),
{
    let source = if by_cpu {
        v.snapshot.top_cpu@
    } else {
        v.snapshot.top_mem@
    };
    let o = oriented(
        sorted_procs(kept(source, v.lowered_query), v.proc_sort),
        v.proc_sort_desc,
    );
    if o.len() > m {
        assert(o.take(m as int).take(n as int) =~= o.take(n as int));
    }
}

/// Switching to the next tab and back lands on the same tab, scrolled to
/// the top; so does going back and then forward.
pub proof fn lemma_tab_next_prev(v: AppView)
    ensures
        v.after_next_tab().after_prev_tab() == v.scrolled_to_top(),
        v.after_prev_tab().after_next_tab() == v.scrolled_to_top(),
{
}

/// Six steps forward through the tabs return to the starting tab.
pub proof fn lemma_tab_full_cycle(v: AppView)
    ensures
        v.after_next_tab().after_next_tab().after_next_tab().after_next_tab().after_next_tab().after_next_tab()
            == v.scrolled_to_top(),
{
}

/// A tab's position and the tab at that position correspond.
pub proof fn lemma_tab_index_roundtrip(t: Tab, i: int)
    ensures
        Tab::at(t.ord() as int) == t,
        0 <= i < 6 ==> Tab::at(i).ord() == i,
{
}

/// Jumping to a tab by its number shows that tab; numbers past the last tab
/// change nothing.
pub proof fn lemma_select_tab(v: AppView, i: int)
    ensures
        0 <= i < 6 ==> v.after_select_tab(i).tab.ord() == i && v.after_select_tab(i).table_scroll
            == 0,
        i >= 6 ==> v.after_select_tab(i) == v,
{
}

/// Pausing twice, or opening and closing help, changes nothing else.
pub proof fn lemma_toggles(v: AppView)
    ensures
        v.after_toggle_pause().after_toggle_pause() == v,
        v.after_toggle_help().after_toggle_help() == v.out_of_search(),
{
}

/// Four sort changes go round all columns back to the first.
pub proof fn lemma_sort_cycle(v: AppView)
    ensures
        v.after_cycle_sort().after_cycle_sort().after_cycle_sort().after_cycle_sort() == v.scrolled_to_top(),
{
}

/// Scrolling down and back up returns to the same row, unless the row
/// counter was already at its largest value.
pub proof fn lemma_scroll_down_up(v: AppView)
    requires
        v.table_scroll < usize::MAX,
    ensures
        v.after_scroll_down().after_scroll_up() == v,
{
}

/// With a built-in theme, the next theme and then the previous one give
/// back the same theme, and so does the reverse.
pub proof fn lemma_theme_next_prev(v: AppView, i: int)
    requires
        0 <= i < theme_count(),
        v.theme == Theme::spec_at(i),
    ensures
        v.after_next_theme().after_prev_theme() == v,
        v.after_prev_theme().after_next_theme() == v,
{
    crate::ui::theme::lemma_index_of_at(i);
    crate::ui::theme::lemma_index_of_at((i + 1) % 6);
    crate::ui::theme::lemma_index_of_at((i + 5) % 6);
}

/// While paused, a sample changes nothing; otherwise the context-switch and
/// interrupt rates are the growth of the counters since the last sample (0
/// when a counter went back), and each history keeps at most `HISTORY`
/// values ending with its own new reading (CPU, memory, received and sent
/// throughput, disk reads and writes), after the values it held before less
/// the oldest once it was full.
pub proof fn lemma_refresh(v: AppView, s: Snapshot, r: Reading)
    requires
        v.cpu_hist.len() <= HISTORY,
    ensures
        v.paused ==> v.after_refresh(Ok((s, r))) == v,
        !v.paused ==> v.after_refresh(Ok((s, r))).ctx_rate == (if s.ctx_switches
            >= v.snapshot.ctx_switches {
            s.ctx_switches - v.snapshot.ctx_switches
        } else {
            0
        }),
        !v.paused ==> v.after_refresh(Ok((s, r))).intr_rate == (if s.interrupts
            >= v.snapshot.interrupts {
            s.interrupts - v.snapshot.interrupts
        } else {
            0
        }),
        !v.paused ==> v.after_refresh(Ok((s, r))).cpu_hist.len() <= HISTORY,
        !v.paused ==> v.after_refresh(Ok((s, r))).cpu_hist.last() == r.cpu_percent,
        !v.paused ==> v.after_refresh(Ok((s, r))).mem_hist.last() == r.mem_percent,
        !v.paused ==> v.after_refresh(Ok((s, r))).rx_hist.last() == r.rx_kib,
        !v.paused ==> v.after_refresh(Ok((s, r))).tx_hist.last() == r.tx_kib,
        !v.paused ==> v.after_refresh(Ok((s, r))).disk_r_hist.last() == r.disk_read_kib,
        !v.paused ==> v.after_refresh(Ok((s, r))).disk_w_hist.last() == r.disk_write_kib,
        !v.paused ==> v.after_refresh(Ok((s, r))).cpu_hist.drop_last() == (if v.cpu_hist.len()
            == HISTORY {
            v.cpu_hist.drop_first()
        } else {
            v.cpu_hist
        }),
        !v.paused ==> v.after_refresh(Ok((s, r))).rx_hist.drop_last() == (if v.rx_hist.len()
            == HISTORY {
            v.rx_hist.drop_first()
        } else {
            v.rx_hist
        }),
        !v.paused ==> v.after_refresh(Ok((s, r))).tx_hist.drop_last() == (if v.tx_hist.len()
            == HISTORY {
            v.tx_hist.drop_first()
        } else {
            v.tx_hist
        }),
        !v.paused ==> v.after_refresh(Ok((s, r))).mem_hist.drop_last() == (if v.mem_hist.len()
            == HISTORY {
            v.mem_hist.drop_first()
        } else {
            v.mem_hist
        }),
        !v.paused ==> v.after_refresh(Ok((s, r))).disk_r_hist.drop_last() == (if v.disk_r_hist.len()
            == HISTORY {
            v.disk_r_hist.drop_first()
        } else {
            v.disk_r_hist
        }),
        !v.paused ==> v.after_refresh(Ok((s, r))).disk_w_hist.drop_last() == (if v.disk_w_hist.len()
            == HISTORY {
            v.disk_w_hist.drop_first()
        } else {
            v.disk_w_hist
        }),
        !v.paused ==> v.after_refresh(Ok((s, r))).snapshot == s,
{
    lemma_window_bounded(v.cpu_hist, r.cpu_percent);
}

/// Typing a character and erasing it again gives back the query, and the
/// filter becomes its lowercase; entering and leaving search mode leaves no
/// query and no filter behind.
pub proof fn lemma_search_edit(v: AppView, c: char)
    ensures
        v.search_query is Some ==> v.after_search_push(c).after_search_pop().search_query
            == v.search_query,
        v.search_query is Some ==> v.after_search_push(c).after_search_pop().lowered_query
            == lowered(v.search_query.unwrap()),
        v.search_query is None ==> v.after_search_push(c) == v && v.after_search_pop() == v,
        v.after_enter_search().after_exit_search().search_query is None,
        v.after_enter_search().after_exit_search().lowered_query.len() == 0,
{
    if let Some(q) = v.search_query {
        assert(q.push(c).drop_last() =~= q);
    }
}

} // verus!
