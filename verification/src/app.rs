//! The monitor's state and the rules by which events change it.
//!
//! The program around this module owns the event loop. It hands each event
//! to `App::handle`, which returns what to do next. Where that is a round
//! of sampling, the program reads the figures and hands them to
//! `App::update`.

use crate::event::{command_of, Command, Config, Event, Key};
use crate::history::{pushed, HistoryBuffer, BUFFER_CAPACITY};
use crate::metrics::{cpu_percent, cpu_percentage, memory_percentage, percent_of, Reading};
use crate::process::{fits, get_processes, is_snapshot, ProcessMeta, ProcessSample, Sort, CPU_SCALE};
use crate::selection::{
    confirmed, find_row, first_named, moved_down, moved_up, row_names, style_of, text, RowStyle,
    Selection,
};
use vstd::prelude::*;

verus! {

/// The number of ticks from one full refresh to the next.
pub const REFRESH_EVERY: u64 = 8;

/// What the program is to do after an event.
#[derive(Debug, Copy, Clone, PartialEq, Eq, Structural)]
pub enum Action {
    /// Leave the event loop.
    Exit,
    /// Draw the screen again; nothing else.
    Draw,
    /// Take a round of samples, with the process list if `processes` is
    /// set, pass it to `App::update`, and draw.
    Sample { processes: bool },
}

/// The state of the monitor.
pub struct App {
    memory: HistoryBuffer,
    cpu: HistoryBuffer,
    processes: Vec<ProcessMeta>,
    selection: Selection,
    total_memory: u64,
    sort: Sort,
    wants_sort: Sort,
    ticks: u64,
}

/// The state of the monitor as plain values.
pub struct AppView {
    /// The memory history, newest first.
    pub memory: Seq<u64>,
    /// The CPU history, newest first.
    pub cpu: Seq<u64>,
    /// The rows of the current snapshot, top to bottom.
    pub rows: Seq<ProcessMeta>,
    /// The name under the cursor.
    pub highlighted: Option<Seq<char>>,
    /// The name of the pinned row.
    pub selected: Option<Seq<char>>,
    /// Memory installed as of the last full refresh, in bytes.
    pub total_memory: u64,
    /// The order of the current snapshot.
    pub sort: Sort,
    /// The order last asked for.
    pub wants_sort: Sort,
    /// The number of ticks seen, counted modulo 2^64.
    pub ticks: u64,
}

/// A full refresh is due at the coming tick: the tick count is a multiple
/// of `REFRESH_EVERY`, or an order was asked for that the snapshot does not
/// have.
pub open spec fn refresh_due(s: AppView) -> bool {
    s.ticks % REFRESH_EVERY == 0 || s.wants_sort != s.sort
}

/// The tick count after one more tick.
pub open spec fn next_tick(ticks: u64) -> u64 {
    if ticks == u64::MAX {
        0
    } else {
        (ticks + 1) as u64
    }
}

/// The state after a tick, before the samples of that tick arrive: the
/// order asked for becomes the order in force, and the tick is counted.
pub open spec fn ticked(s: AppView) -> AppView {
    AppView { sort: s.wants_sort, ticks: next_tick(s.ticks), ..s }
}

/// The state after a command from the keyboard.
pub open spec fn commanded(s: AppView, command: Command) -> AppView {
    match command {
        Command::Exit => s,
        Command::MoveUp => AppView {
            highlighted: moved_up(row_names(s.rows), s.highlighted),
            ..s
        },
        Command::MoveDown => AppView {
            highlighted: moved_down(row_names(s.rows), s.highlighted),
            ..s
        },
        Command::Confirm => AppView { selected: confirmed(s.highlighted, s.selected), ..s },
        Command::SortBy(sort) => AppView { wants_sort: sort, ..s },
        Command::Ignore => s,
    }
}

/// The state after `event`.
pub open spec fn stepped(s: AppView, event: Event, exit_key: Key) -> AppView {
    match event {
        Event::Tick => ticked(s),
        Event::Input(key) => commanded(s, command_of(key, exit_key)),
    }
}

/// What the program is to do after `event` arrived in state `s`.
pub open spec fn action_for(s: AppView, event: Event, exit_key: Key) -> Action {
    match event {
        Event::Tick => Action::Sample { processes: refresh_due(s) },
        Event::Input(key) => if command_of(key, exit_key) == Command::Exit {
            Action::Exit
        } else {
            Action::Draw
        },
    }
}

/// The state after `n` ticks with no key pressed in between and the samples
/// left aside.
pub open spec fn ticked_times(s: AppView, n: nat) -> AppView
    decreases n,
{
    if n == 0 {
        s
    } else {
        ticked(ticked_times(s, (n - 1) as nat))
    }
}

/// What the CPU chart shows: the usage of the pinned row in whole percent
/// points, as a single bar, where that row is in the snapshot; else the CPU
/// history.
pub open spec fn cpu_series_of(s: AppView) -> Seq<u64> {
    match s.selected {
        Some(name) => match first_named(s.rows, name) {
            Some(row) => seq![(row.cpu_usage / CPU_SCALE) as u64],
            None => s.cpu,
        },
        None => s.cpu,
    }
}

/// A key that asks for another order changes neither the snapshot nor the
/// order in force. At the next tick the order asked for comes into force,
/// and a full refresh is due whatever the tick count.
pub proof fn lemma_sort_request_takes_effect_at_tick(s: AppView, sort: Sort)
    requires
        s.sort != sort,
    ensures
        commanded(s, Command::SortBy(sort)).rows == s.rows,
        commanded(s, Command::SortBy(sort)).sort == s.sort,
        commanded(s, Command::SortBy(sort)).wants_sort == sort,
        refresh_due(commanded(s, Command::SortBy(sort))),
        ticked(commanded(s, Command::SortBy(sort))).sort == sort,
        ticked(commanded(s, Command::SortBy(sort))).rows == s.rows,
{
}

/// The same, told by keys: with CPU order in force, `m` leaves the
/// snapshot as it is and asks for nothing but a redraw; the tick after it
/// asks for the process list and puts memory order in force.
pub proof fn lemma_memory_key_then_tick(s: AppView, exit_key: Key)
    requires
        s.sort == Sort::Cpu,
        exit_key != Key::Char('m'),
    ensures
        ({
            let after_key = stepped(s, Event::Input(Key::Char('m')), exit_key);
            &&& action_for(s, Event::Input(Key::Char('m')), exit_key) == Action::Draw
            &&& after_key.rows == s.rows
            &&& after_key.sort == Sort::Cpu
            &&& action_for(after_key, Event::Tick, exit_key) == (Action::Sample { processes: true })
            &&& stepped(after_key, Event::Tick, exit_key).sort == Sort::Memory
        }),
{
}

/// While no other order is asked for, a full refresh is due at every
/// `REFRESH_EVERY`th tick and at no other: the tick that finds the count at
/// a multiple of `REFRESH_EVERY`.
pub proof fn lemma_refresh_cadence(s: AppView, n: nat)
    requires
        s.sort == s.wants_sort,
    ensures
        ticked_times(s, n).sort == s.sort,
        ticked_times(s, n).wants_sort == s.wants_sort,
        ticked_times(s, n).rows == s.rows,
        ticked_times(s, n).ticks % REFRESH_EVERY == (s.ticks + n) % (REFRESH_EVERY as int),
        refresh_due(ticked_times(s, n)) <==> (s.ticks + n) % (REFRESH_EVERY as int) == 0,
    decreases n,
{
    if n > 0 {
        lemma_refresh_cadence(s, (n - 1) as nat);
    }
}

/// Counting from zero, the first tick has a full refresh due and the seven
/// after it have none.
pub proof fn lemma_first_ticks(s: AppView, n: nat)
    requires
        s.ticks == 0,
        s.sort == s.wants_sort,
        n < REFRESH_EVERY,
    ensures
        refresh_due(ticked_times(s, n)) <==> n == 0,
{
    lemma_refresh_cadence(s, n);
}

impl View for App {
    type V = AppView;

    closed spec fn view(&self) -> AppView {
        AppView {
            memory: self.memory@,
            cpu: self.cpu@,
            rows: self.processes@,
            highlighted: text(self.selection.highlighted),
            selected: text(self.selection.selected),
            total_memory: self.total_memory,
            sort: self.sort,
            wants_sort: self.wants_sort,
            ticks: self.ticks,
        }
    }
}

impl App {
    /// Both histories are well formed and of the standard capacity.
    pub closed spec fn wf(&self) -> bool {
        &&& self.memory.wf()
        &&& self.cpu.wf()
        &&& self.memory.capacity() == BUFFER_CAPACITY
        &&& self.cpu.capacity() == BUFFER_CAPACITY
    }

    /// The monitor at start: nothing sampled, no rows, nothing highlighted
    /// or selected, rows to be ordered by CPU usage.
    pub fn new() -> (app: App)
        ensures
            app.wf(),
            app@ == (AppView {
                memory: Seq::empty(),
                cpu: Seq::empty(),
                rows: Seq::empty(),
                highlighted: None,
                selected: None,
                total_memory: 0,
                sort: Sort::Cpu,
                wants_sort: Sort::Cpu,
                ticks: 0,
            }),
    {
        App {
            memory: HistoryBuffer::new(),
            cpu: HistoryBuffer::new(),
            processes: Vec::new(),
            selection: Selection::new(),
            total_memory: 0,
            sort: Sort::Cpu,
            wants_sort: Sort::Cpu,
            ticks: 0,
        }
    }

    /// Takes in one event and says what the program is to do next.
    ///
    /// A key moves the cursor, pins or releases a row, asks for another
    /// order, or ends the program; it never touches the snapshot or the
    /// histories. A tick puts the order asked for in force, counts itself,
    /// and asks for a round of sampling, with the process list where a full
    /// refresh is due.
    pub fn handle(&mut self, event: Event, config: &Config) -> (action: Action)
        requires
            old(self).wf(),
        ensures
            final(self).wf(),
            final(self)@ == stepped(old(self)@, event, config.exit_key),
            action == action_for(old(self)@, event, config.exit_key),
    {
        match event {
            Event::Tick => {
                let sort_updated = self.sort != self.wants_sort;
                let update_processes = self.ticks % REFRESH_EVERY == 0 || sort_updated;
                if sort_updated {
                    self.sort = self.wants_sort;
                }
                self.ticks = self.ticks.wrapping_add(1);
                Action::Sample { processes: update_processes }
            },
            Event::Input(key) => {
                match config.command_for(key) {
                    Command::Exit => {
                        return Action::Exit;
                    },
                    Command::MoveUp => {
                        self.selection.move_up(&self.processes);
                    },
                    Command::MoveDown => {
                        self.selection.move_down(&self.processes);
                    },
                    Command::Confirm => {
                        self.selection.confirm();
                    },
                    Command::SortBy(sort) => {
                        self.wants_sort = sort;
                    },
                    Command::Ignore => {},
                }
                Action::Draw
            },
        }
    }

    /// The rows of the current snapshot.
    pub fn processes(&self) -> (rows: &Vec<ProcessMeta>)
        ensures
            rows@ == self@.rows,
    {
        &self.processes
    }

    /// The cursor and the pinned row.
    pub fn selection(&self) -> (selection: &Selection)
        ensures
            text(selection.highlighted) == self@.highlighted,
            text(selection.selected) == self@.selected,
    {
        &self.selection
    }

    /// The memory history.
    pub fn memory(&self) -> (history: &HistoryBuffer)
        ensures
            history@ == self@.memory,
    {
        &self.memory
    }

    /// The CPU history.
    pub fn cpu(&self) -> (history: &HistoryBuffer)
        ensures
            history@ == self@.cpu,
    {
        &self.cpu
    }

    /// Memory installed as of the last full refresh, in bytes.
    pub fn total_memory(&self) -> (bytes: u64)
        ensures
            bytes == self@.total_memory,
    {
        self.total_memory
    }

    /// The order of the current snapshot.
    pub fn sort(&self) -> (sort: Sort)
        ensures
            sort == self@.sort,
    {
        self.sort
    }

    /// The order last asked for.
    pub fn wants_sort(&self) -> (sort: Sort)
        ensures
            sort == self@.wants_sort,
    {
        self.wants_sort
    }

    /// The number of ticks seen, counted modulo 2^64.
    pub fn ticks(&self) -> (ticks: u64)
        ensures
            ticks == self@.ticks,
    {
        self.ticks
    }

    /// How the row named `name` is to be drawn.
    pub fn row_style(&self, name: &String) -> (style: RowStyle)
        ensures
            style == style_of(name@, self@.highlighted, self@.selected),
    {
        self.selection.row_style(name)
    }

    /// The data of the CPU chart, first bar first.
    pub fn cpu_series(&self) -> (series: Vec<u64>)
        ensures
            series@ == cpu_series_of(self@),
    {
        if let Some(name) = &self.selection.selected {
            if let Some(row) = find_row(&self.processes, name) {
                let mut series: Vec<u64> = Vec::new();
                series.push(row.cpu_usage / CPU_SCALE);
                return series;
            }
        }
        self.cpu.to_vec()
    }

    /// Replaces the snapshot by the ranking of `procs` under the order in
    /// force, and the memory total by `total_memory`.
    pub fn update_processes(&mut self, procs: &Vec<ProcessSample>, total_memory: u64)
        requires
            old(self).wf(),
            fits(procs@),
        ensures
            final(self).wf(),
            is_snapshot(final(self)@.rows, procs@, old(self)@.sort),
            final(self)@ == (AppView { rows: final(self)@.rows, total_memory, ..old(self)@ }),
    {
        let processes = get_processes(procs, self.sort);
        self.total_memory = total_memory;
        self.processes = processes;
    }

    /// Records memory in use as a percentage of memory installed.
    pub fn update_memory(&mut self, used: u64, total: u64)
        requires
            old(self).wf(),
        ensures
            final(self).wf(),
            final(self)@ == (AppView {
                memory: pushed(old(self)@.memory, BUFFER_CAPACITY as nat, percent_of(used, total)),
                ..old(self)@
            }),
    {
        let memory_percentage = memory_percentage(used, total);
        self.memory.push_front(memory_percentage);
    }

    /// Records the mean load of the cores, in percent.
    pub fn update_cpu(&mut self, cores: &Vec<u64>)
        requires
            old(self).wf(),
        ensures
            final(self).wf(),
            final(self)@ == (AppView {
                cpu: pushed(old(self)@.cpu, BUFFER_CAPACITY as nat, cpu_percent(cores@)),
                ..old(self)@
            }),
    {
        let cpu_percentage = cpu_percentage(cores);
        self.cpu.push_front(cpu_percentage);
    }

    /// Takes in one round of samples: the snapshot and the memory total are
    /// replaced where the round brought a process list, and each history
    /// gets one new sample in any case.
    pub fn update(&mut self, reading: &Reading)
        requires
            old(self).wf(),
            reading.processes matches Some(procs) ==> fits(procs@),
        ensures
            final(self).wf(),
            match reading.processes {
                Some(procs) => is_snapshot(final(self)@.rows, procs@, old(self)@.sort)
                    && final(self)@.total_memory == reading.total_memory,
                None => final(self)@.rows == old(self)@.rows && final(self)@.total_memory == old(
                    self,
                )@.total_memory,
            },
            final(self)@ == (AppView {
                memory: pushed(
                    old(self)@.memory,
                    BUFFER_CAPACITY as nat,
                    percent_of(reading.used_memory, reading.total_memory),
                ),
                cpu: pushed(old(self)@.cpu, BUFFER_CAPACITY as nat, cpu_percent(reading.cores@)),
                rows: final(self)@.rows,
                total_memory: final(self)@.total_memory,
                ..old(self)@
            }),
    {
        if let Some(procs) = &reading.processes {
            self.update_processes(procs, reading.total_memory);
        }
        self.update_memory(reading.used_memory, reading.total_memory);
        self.update_cpu(&reading.cores);
    }
}

} // verus!
