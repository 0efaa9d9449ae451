use vstd::prelude::*;

use crate::process::{ProcessInfo, SortOrder};
use core::time::Duration;

verus! {

/// A key as the terminal reports it, reduced to what the controls read.
#[derive(Debug, Clone, Copy, PartialEq, Eq, Structural)]
pub enum Key {
    Char(char),
    Up,
    Down,
    Other,
}

/// What the user asked for.
#[derive(Debug, Clone, Copy, PartialEq, Eq, Structural)]
pub enum Command {
    Quit,
    SelectUp,
    SelectDown,
    KillSelected,
    SortBy(SortOrder),
    Ignore,
}

/// The command bound to `key`; `control_only` says that Control, and no other
/// modifier, was held.
pub open spec fn command_spec(key: Key, control_only: bool) -> Command {
    match key {
        Key::Char('q') => Command::Quit,
        Key::Char('c') if control_only => Command::Quit,
        Key::Up | Key::Char('k') => Command::SelectUp,
        Key::Down | Key::Char('j') => Command::SelectDown,
        Key::Char('K') => Command::KillSelected,
        Key::Char('c') => Command::SortBy(SortOrder::Cpu),
        Key::Char('m') => Command::SortBy(SortOrder::Memory),
        _ => Command::Ignore,
    }
}

pub fn command_for(key: Key, control_only: bool) -> (r: Command)
    ensures
        r == command_spec(key, control_only),
{
    match key {
        Key::Char('q') => Command::Quit,
        Key::Char('c') if control_only => Command::Quit,
        Key::Up | Key::Char('k') => Command::SelectUp,
        Key::Down | Key::Char('j') => Command::SelectDown,
        Key::Char('K') => Command::KillSelected,
        Key::Char('c') => Command::SortBy(SortOrder::Cpu),
        Key::Char('m') => Command::SortBy(SortOrder::Memory),
        _ => Command::Ignore,
    }
}

/// `cursor` kept inside a view of `len` rows: at most `len - 1`, and 0 for an empty view.
pub open spec fn clamped(cursor: usize, len: usize) -> usize {
    if len == 0 {
        0
    } else if cursor >= len {
        (len - 1) as usize
    } else {
        cursor
    }
}

/// `cursor` one row further down a view of `len` rows, capped at the last row
/// (at 0 for an empty view).
pub open spec fn moved_down(cursor: usize, len: usize) -> usize {
    if cursor + 1 < len {
        (cursor + 1) as usize
    } else if len > 0 {
        (len - 1) as usize
    } else {
        0
    }
}

/// The interaction state: selection cursor, active sort key, quit flag and settings.
pub struct App {
    selected_process: usize,
    sort_order: SortOrder,
    update_interval: Duration,
    should_quit: bool,
    debug_mode: bool,
}

impl App {
    pub closed spec fn cursor(&self) -> usize {
        self.selected_process
    }

    pub closed spec fn order(&self) -> SortOrder {
        self.sort_order
    }

    pub closed spec fn quitting(&self) -> bool {
        self.should_quit
    }

    pub closed spec fn debug(&self) -> bool {
        self.debug_mode
    }

    pub closed spec fn interval(&self) -> Duration {
        self.update_interval
    }

    /// Fresh state: cursor on the first row, sorted by CPU, not quitting.
    pub fn new(update_interval: Duration, debug: bool) -> (r: App)
        ensures
            r.cursor() == 0,
            r.order() == SortOrder::Cpu,
            !r.quitting(),
            r.debug() == debug,
            r.interval() == update_interval,
    {
        App {
            selected_process: 0,
            sort_order: SortOrder::Cpu,
            update_interval,
            should_quit: false,
            debug_mode: debug,
        }
    }

    pub fn selected_process(&self) -> (r: usize)
        ensures
            r == self.cursor(),
    {
        self.selected_process
    }

    pub fn sort_order(&self) -> (r: SortOrder)
        ensures
            r == self.order(),
    {
        self.sort_order
    }

    pub fn should_quit(&self) -> (r: bool)
        ensures
            r == self.quitting(),
    {
        self.should_quit
    }

    pub fn debug_mode(&self) -> (r: bool)
        ensures
            r == self.debug(),
    {
        self.debug_mode
    }

    pub fn update_interval(&self) -> (r: Duration)
        ensures
            r == self.interval(),
    {
        self.update_interval
    }

    /// Moves the cursor one row up, stopping at the first row.
    pub fn move_selection_up(&mut self)
        ensures
            final(self).cursor() == if old(self).cursor() > 0 {
                (old(self).cursor() - 1) as usize
            } else {
                0
            },
            final(self).order() == old(self).order(),
            final(self).quitting() == old(self).quitting(),
            final(self).debug() == old(self).debug(),
            final(self).interval() == old(self).interval(),
    {
        if self.selected_process > 0 {
            self.selected_process = self.selected_process - 1;
        }
    }

    /// Moves the cursor one row down in a view of `len` rows, stopping at the last row;
    /// a cursor already past the end lands on the last row (on 0 for an empty view).
    pub fn move_selection_down(&mut self, len: usize)
        ensures
            final(self).cursor() == moved_down(old(self).cursor(), len),
            final(self).order() == old(self).order(),
            final(self).quitting() == old(self).quitting(),
            final(self).debug() == old(self).debug(),
            final(self).interval() == old(self).interval(),
    {
        if self.selected_process < len && len - self.selected_process > 1 {
            self.selected_process = self.selected_process + 1;
        } else if len > 0 {
            self.selected_process = len - 1;
        } else {
            self.selected_process = 0;
        }
    }

    /// Keeps the cursor inside a view that now has `len` rows.
    pub fn clamp_selection(&mut self, len: usize)
        ensures
            final(self).cursor() == clamped(old(self).cursor(), len),
            final(self).cursor() < if len > 0 {
                len
            } else {
                1
            },
            len == 0 ==> final(self).cursor() == 0,
            final(self).order() == old(self).order(),
            final(self).quitting() == old(self).quitting(),
            final(self).debug() == old(self).debug(),
            final(self).interval() == old(self).interval(),
    {
        if len == 0 {
            self.selected_process = 0;
        } else if self.selected_process >= len {
            self.selected_process = len - 1;
        }
    }

    /// Switches the sort key and puts the cursor back on the first row.
    pub fn set_sort_order(&mut self, order: SortOrder)
        ensures
            final(self).order() == order,
            final(self).cursor() == 0,
            final(self).quitting() == old(self).quitting(),
            final(self).debug() == old(self).debug(),
            final(self).interval() == old(self).interval(),
    {
        self.sort_order = order;
        self.selected_process = 0;
    }

    /// The pid of the row under the cursor in `view`, if the cursor is on a row.
    pub fn selected_pid(&self, view: &Vec<ProcessInfo>) -> (r: Option<u32>)
        ensures
            r == if self.cursor() < view@.len() {
                Some(view@[self.cursor() as int].pid)
            } else {
                None::<u32>
            },
    {
        if self.selected_process < view.len() {
            Some(view[self.selected_process].pid)
        } else {
            None
        }
    }

    /// Applies `cmd` against the current sorted `view`; returns the pid to terminate
    /// when the command asks to kill the selected row and there is one.
    pub fn apply(&mut self, cmd: Command, view: &Vec<ProcessInfo>) -> (r: Option<u32>)
        ensures
            final(self).debug() == old(self).debug(),
            final(self).interval() == old(self).interval(),
            final(self).quitting() == (old(self).quitting() || cmd == Command::Quit),
            match cmd {
                Command::SelectUp => final(self).cursor() == if old(self).cursor() > 0 {
                    (old(self).cursor() - 1) as usize
                } else {
                    0
                },
                Command::SelectDown => final(self).cursor() == moved_down(
                    old(self).cursor(),
                    view@.len() as usize,
                ),
                Command::SortBy(order) => final(self).cursor() == 0 && final(self).order()
                    == order,
                _ => final(self).cursor() == old(self).cursor(),
            },
            !(cmd is SortBy) ==> final(self).order() == old(self).order(),
            r == if cmd == Command::KillSelected && old(self).cursor() < view@.len() {
                Some(view@[old(self).cursor() as int].pid)
            } else {
                None::<u32>
            },
    {
        match cmd {
            Command::Quit => {
                self.should_quit = true;
                None
            },
            Command::SelectUp => {
                self.move_selection_up();
                None
            },
            Command::SelectDown => {
                self.move_selection_down(view.len());
                None
            },
            Command::KillSelected => self.selected_pid(view),
            Command::SortBy(order) => {
                self.set_sort_order(order);
                None
            },
            Command::Ignore => None,
        }
    }
}

} // verus!
