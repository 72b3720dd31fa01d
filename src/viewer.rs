//! Key handling: maps each key to a table operation according to the input mode.
use crate::renderer::{RenderingAction, TableRenderer};
use crate::sort::{keeps_tie_order, sorted_by_col};
use crate::state::{CharCoord, TableCoord, TableState, column_width, rows_match_header};
use crate::text::is_row_number;
use vstd::prelude::*;

verus! {

/// A key event, as the viewer distinguishes them.
#[derive(Debug, Clone, Copy, PartialEq, Eq, Structural)]
pub enum Key {
    Char(char),
    Ctrl(char),
    Up,
    Down,
    Left,
    Right,
    PageUp,
    PageDown,
    Home,
    End,
    Backspace,
    Esc,
    Other,
}

/// Input mode: navigation, or typing a search pattern.
#[derive(Debug, Clone, Copy, PartialEq, Eq, Structural)]
pub enum Mode {
    Normal,
    Command,
}

/// What a key asks for in normal mode.
#[derive(Debug, Clone, Copy, PartialEq, Eq, Structural)]
pub enum NormalCommand {
    Quit,
    SortAscending,
    SortDescending,
    RestoreOrder,
    Down,
    Up,
    PageDown,
    PageUp,
    Home,
    End,
    Right,
    Left,
    StartOfLine,
    EndOfLine,
    StartSearch,
    RepeatSearch,
    Ignore,
}

/// The normal-mode key table; `prev` is the key before, for `gg`.
pub open spec fn normal_command(key: Key, prev: Key) -> NormalCommand {
    match key {
        Key::Char('q') | Key::Ctrl('q') | Key::Ctrl('x') | Key::Ctrl('c') => NormalCommand::Quit,
        Key::Char('a') => NormalCommand::SortAscending,
        Key::Char('d') => NormalCommand::SortDescending,
        Key::Char('o') => NormalCommand::RestoreOrder,
        Key::Down | Key::Char('j') => NormalCommand::Down,
        Key::Up | Key::Char('k') => NormalCommand::Up,
        Key::PageDown => NormalCommand::PageDown,
        Key::PageUp => NormalCommand::PageUp,
        Key::Home => NormalCommand::Home,
        Key::Char('g') => if prev == Key::Char('g') {
            NormalCommand::Home
        } else {
            NormalCommand::Ignore
        },
        Key::End | Key::Char('G') => NormalCommand::End,
        Key::Right | Key::Char('l') => NormalCommand::Right,
        Key::Left | Key::Char('h') => NormalCommand::Left,
        Key::Char('0') => NormalCommand::StartOfLine,
        Key::Char('$') => NormalCommand::EndOfLine,
        Key::Char('/') => NormalCommand::StartSearch,
        Key::Char(' ') => NormalCommand::RepeatSearch,
        _ => NormalCommand::Ignore,
    }
}

/// A quit key that works in both modes.
pub open spec fn is_ctrl_quit(key: Key) -> bool {
    key == Key::Ctrl('q') || key == Key::Ctrl('x') || key == Key::Ctrl('c')
}

/// Column 0 of every row holds its row number.
pub open spec fn rows_numbered(ts: TableState) -> bool {
    forall|k: int| 0 <= k < ts.n_rows() ==> is_row_number(#[trigger] ts.rows@[k]@[0]@)
}

/// `new` is `old` with its rows sorted by column `col` (descending when
/// `desc`): a rearrangement that keeps ties in order, nothing else changed.
pub open spec fn sorted_from(old: TableState, new: TableState, col: int, desc: bool) -> bool {
    &&& new == old.with_rows(new.rows)
    &&& sorted_by_col(new.rows@, col, desc)
    &&& new.rows@.to_multiset() == old.rows@.to_multiset()
    &&& keeps_tie_order(new.rows@, old.rows@, col)
}

/// `new` is `old` with only its command buffer changed, to `buffer`.
pub open spec fn buffer_set(old: TableState, new: TableState, buffer: Seq<char>) -> bool {
    new == old.with_buffer(new.command_buffer) && new.command_buffer@ == buffer
}

/// What a key does in normal mode: the new state, mode and redraw.
pub open spec fn normal_effect(
    old: TableState,
    new: TableState,
    mode: Mode,
    key: Key,
    prev: Key,
    r: RenderingAction,
) -> bool {
    let cur = old.offsets.col + old.cur_pos.col;
    &&& normal_command(key, prev) != NormalCommand::StartSearch ==> mode == Mode::Normal
    &&& match normal_command(key, prev) {
        NormalCommand::Quit => new == old && r == RenderingAction::Reset,
        NormalCommand::SortAscending => sorted_from(old, new, cur, false) && r
            == RenderingAction::Rerender,
        NormalCommand::SortDescending => sorted_from(old, new, cur, true) && r
            == RenderingAction::Rerender,
        NormalCommand::RestoreOrder => sorted_from(old, new, 0, false) && r
            == RenderingAction::Rerender,
        NormalCommand::Down => (new, r) == old.step_down(),
        NormalCommand::Up => (new, r) == old.step_up(),
        NormalCommand::PageDown => (new, r) == old.step_page_down(),
        NormalCommand::PageUp => (new, r) == old.step_page_up(),
        NormalCommand::Home => new == old.after_home() && r == RenderingAction::Rerender,
        NormalCommand::End => new == old.after_end() && r == RenderingAction::Rerender,
        NormalCommand::Right => (new, r) == old.step_right(),
        NormalCommand::Left => (new, r) == old.step_left(),
        NormalCommand::StartOfLine => (new, r) == old.step_start_of_line(),
        NormalCommand::EndOfLine => new == old.after_end_of_line() && r
            == RenderingAction::Rerender,
        NormalCommand::StartSearch => mode == Mode::Command && buffer_set(old, new, seq!['/'])
            && r == RenderingAction::Command,
        NormalCommand::RepeatSearch => match old.command_pattern() {
            Some(p) => new == old.after_search(p) && r == RenderingAction::Rerender,
            None => new == old && r == RenderingAction::Nothing,
        },
        NormalCommand::Ignore => new == old && r == RenderingAction::Nothing,
    }
}

/// What a key does in command mode: the new state, mode and redraw.
pub open spec fn command_effect(
    old: TableState,
    new: TableState,
    mode: Mode,
    key: Key,
    r: RenderingAction,
) -> bool {
    let buf = old.command_buffer@;
    if is_ctrl_quit(key) {
        new == old && mode == Mode::Command && r == RenderingAction::Reset
    } else if key == Key::Char('\n') {
        mode == Mode::Normal && if buf.len() <= 1 {
            new == old && r == RenderingAction::Rerender
        } else {
            match old.command_pattern() {
                Some(p) => new == old.after_search(p) && r == RenderingAction::Rerender,
                None => new == old && r == RenderingAction::Nothing,
            }
        }
    } else if key is Char {
        mode == Mode::Command && buffer_set(old, new, buf.push(key->Char_0)) && r
            == RenderingAction::Command
    } else if key == Key::Backspace {
        let rest = if buf.len() > 0 {
            buf.drop_last()
        } else {
            buf
        };
        buffer_set(old, new, rest) && if rest.len() == 0 {
            mode == Mode::Normal && r == RenderingAction::Rerender
        } else {
            mode == Mode::Command && r == RenderingAction::Command
        }
    } else if key == Key::Esc {
        mode == Mode::Normal && buffer_set(old, new, Seq::empty()) && r
            == RenderingAction::Rerender
    } else {
        new == old && mode == Mode::Command && r == RenderingAction::Nothing
    }
}

/// Drives a table state from key events and renders it.
pub struct TableViewer<T: TableRenderer> {
    pub state: TableState,
    pub renderer: T,
    pub mode: Mode,
    pub prev_key: Key,
}

impl<T: TableRenderer> TableViewer<T> {
    pub open spec fn wf(&self) -> bool {
        self.state.wf() && rows_numbered(self.state)
    }

    /// Builds the viewer for a terminal of `terminal_size` characters.
    pub fn new(renderer: T, header: Vec<String>, rows: Vec<Vec<String>>, terminal_size: CharCoord) -> (r: Self)
        requires
            header@.len() >= 1,
            rows_match_header(header@, rows@),
            forall|k: int| 0 <= k < rows@.len() ==> is_row_number(#[trigger] rows@[k]@[0]@),
            terminal_size.x >= 1,
            terminal_size.y >= 2,
            header@.len() * terminal_size.x <= usize::MAX,
        ensures
            r.wf(),
            r.state.header == header,
            r.state.rows == rows,
            r.state.terminal_size == terminal_size,
            r.state.offsets == (TableCoord { col: 0, row: 0 }),
            r.state.cur_pos == (TableCoord { col: 0, row: 0 }),
            r.state.command_buffer@.len() == 0,
            forall|i: int|
                0 <= i < r.state.n_cols() ==> (#[trigger] r.state.columns@[i]).width
                    == column_width(header@, rows@, i, 2, terminal_size.x as int),
            r.renderer == renderer,
            r.mode == Mode::Normal,
    {
        let state = TableState::new(header, rows, terminal_size);
        TableViewer { state, renderer, mode: Mode::Normal, prev_key: Key::Home }
    }

    /// Output for `action`, or nothing when nothing changed.
    pub fn render(&self, action: &RenderingAction) -> (r: Option<String>)
        requires
            self.wf(),
        ensures
            match *action {
                RenderingAction::Rerender => r is Some && r->Some_0@
                    == self.renderer.full_render_spec(self.state),
                RenderingAction::MoveCursor => r is Some && r->Some_0@
                    == self.renderer.cursor_spec(self.state),
                RenderingAction::Command => r is Some && r->Some_0@
                    == self.renderer.command_spec(self.state),
                RenderingAction::Reset => r is Some && r->Some_0@ == self.renderer.reset_spec(),
                RenderingAction::Nothing => r is None,
            },
    {
        self.renderer.render(&self.state, action)
    }

    /// Handles one key and returns the redraw it needs.
    pub fn handle_key(&mut self, key: Key) -> (r: RenderingAction)
        requires
            old(self).wf(),
        ensures
            final(self).wf(),
            final(self).prev_key == key,
            final(self).renderer == old(self).renderer,
            old(self).mode == Mode::Normal ==> normal_effect(
                old(self).state,
                final(self).state,
                final(self).mode,
                key,
                old(self).prev_key,
                r,
            ),
            old(self).mode == Mode::Command ==> command_effect(
                old(self).state,
                final(self).state,
                final(self).mode,
                key,
                r,
            ),
    {
        let action = match self.mode {
            Mode::Normal => self.normal_key(key),
            Mode::Command => self.command_key(key),
        };
        self.prev_key = key;
        action
    }

    fn normal_key(&mut self, key: Key) -> (r: RenderingAction)
        requires
            old(self).wf(),
            old(self).mode == Mode::Normal,
        ensures
            final(self).wf(),
            final(self).prev_key == old(self).prev_key,
            final(self).renderer == old(self).renderer,
            normal_effect(
                old(self).state,
                final(self).state,
                final(self).mode,
                key,
                old(self).prev_key,
                r,
            ),
    {
        let ghost before = self.state.rows@;
        let prev = self.prev_key;
        let action = match key {
            // Quit app
            Key::Char('q') | Key::Ctrl('q') | Key::Ctrl('x') | Key::Ctrl('c') => {
                RenderingAction::Reset
            },
            // Sort by column: ascending or descending
            Key::Char('a') => {
                let col = self.state.current_column();
                self.state.ascending(col)
            },
            Key::Char('d') => {
                let col = self.state.current_column();
                self.state.descending(col)
            },
            Key::Char('o') => self.state.ascending(0),
            // Navigation
            Key::Down | Key::Char('j') => self.state.move_down(),
            Key::Up | Key::Char('k') => self.state.move_up(),
            Key::PageDown => self.state.move_page_down(),
            Key::PageUp => self.state.move_page_up(),
            Key::Home => self.state.move_home(),
            Key::Char('g') => {
                if prev == Key::Char('g') {
                    self.state.move_home()
                } else {
                    RenderingAction::Nothing
                }
            },
            Key::End | Key::Char('G') => self.state.move_end(),
            Key::Right | Key::Char('l') => self.state.move_right(),
            Key::Left | Key::Char('h') => self.state.move_left(),
            Key::Char('0') => self.state.move_start_of_line(),
            Key::Char('$') => self.state.move_end_of_line(),
            // Switch to command mode
            Key::Char('/') => {
                self.mode = Mode::Command;
                self.state.command_buffer.clear();
                self.state.command_buffer.push('/');
                RenderingAction::Command
            },
            // Repeat last search
            Key::Char(' ') => self.state.execute_command(),
            _ => RenderingAction::Nothing,
        };
        assert forall|k: int| 0 <= k < self.state.n_rows() implies is_row_number(
            #[trigger] self.state.rows@[k]@[0]@,
        ) by {
            if self.state.rows@ != before {
                assert(before.contains(self.state.rows@[k]));
            }
        }
        action
    }

    fn command_key(&mut self, key: Key) -> (r: RenderingAction)
        requires
            old(self).wf(),
            old(self).mode == Mode::Command,
        ensures
            final(self).wf(),
            final(self).prev_key == old(self).prev_key,
            final(self).renderer == old(self).renderer,
            command_effect(old(self).state, final(self).state, final(self).mode, key, r),
    {
        match key {
            // Quit app
            Key::Ctrl('q') | Key::Ctrl('x') | Key::Ctrl('c') => RenderingAction::Reset,
            // Execute command
            Key::Char('\n') => {
                self.mode = Mode::Normal;
                if self.state.command_buffer.len() <= 1 {
                    RenderingAction::Rerender
                } else {
                    self.state.execute_command()
                }
            },
            // Enter command character
            Key::Char(c) => {
                self.state.command_buffer.push(c);
                RenderingAction::Command
            },
            // Delete command character
            Key::Backspace => {
                if self.state.command_buffer.len() > 0 {
                    self.state.command_buffer.pop();
                }
                if self.state.command_buffer.len() == 0 {
                    self.mode = Mode::Normal;
                    RenderingAction::Rerender
                } else {
                    RenderingAction::Command
                }
            },
            // Switch to normal mode
            Key::Esc => {
                self.mode = Mode::Normal;
                self.state.command_buffer.clear();
                RenderingAction::Rerender
            },
            _ => RenderingAction::Nothing,
        }
    }
}

} // verus!
