//! What each operation asks the display to redraw, and how a terminal draws it.
use crate::state::{TableState, col_end};
use crate::text::{decimal_digits, string_of_chars};
use vstd::prelude::*;

verus! {

/// The cheapest redraw that an operation's change needs.
#[derive(Debug, Clone, Copy, PartialEq, Eq, Structural)]
pub enum RenderingAction {
    /// The cursor moved within the visible window.
    MoveCursor,
    /// The visible window changed: draw the whole frame.
    Rerender,
    /// The command line changed.
    Command,
    /// Clear the screen before leaving.
    Reset,
    /// Nothing changed.
    Nothing,
}

/// A display coordinate, saturated to what a terminal position can hold.
pub open spec fn coord(v: int) -> u16 {
    if v > 65535 {
        65535
    } else {
        v as u16
    }
}

/// The escape sequence that moves the terminal cursor to column `x`, line `y`.
pub open spec fn goto_seq(x: u16, y: u16) -> Seq<char> {
    seq!['\x1b', '['] + decimal_digits(y as nat) + seq![';'] + decimal_digits(x as nat) + seq!['H']
}

pub open spec fn bold_seq() -> Seq<char> {
    seq!['\x1b', '[', '1', 'm']
}

pub open spec fn style_reset_seq() -> Seq<char> {
    seq!['\x1b', '[', 'm']
}

pub open spec fn clear_all_seq() -> Seq<char> {
    seq!['\x1b', '[', '2', 'J']
}

/// Relies on termion's `cursor::Goto` display: `ESC [ y ; x H`. Termion
/// asserts (in debug builds) that the position is not `(0, 0)`.
#[verifier::external_body]
fn goto(x: u16, y: u16) -> (r: String)
    requires
        x != 0 || y != 0,
    ensures
        r@ == goto_seq(x, y),
{
    format!("{}", termion::cursor::Goto(x, y))
}

/// Relies on termion's `style::Bold` display: `ESC [ 1 m`.
#[verifier::external_body]
fn bold() -> (r: String)
    ensures
        r@ == bold_seq(),
{
    format!("{}", termion::style::Bold)
}

/// Relies on termion's `style::Reset` display: `ESC [ m`.
#[verifier::external_body]
fn style_reset() -> (r: String)
    ensures
        r@ == style_reset_seq(),
{
    format!("{}", termion::style::Reset)
}

/// Relies on termion's `clear::All` display: `ESC [ 2 J`.
#[verifier::external_body]
fn clear_all() -> (r: String)
    ensures
        r@ == clear_all_seq(),
{
    format!("{}", termion::clear::All)
}

/// `n` spaces.
pub open spec fn spaces(n: int) -> Seq<char> {
    Seq::new(n as nat, |i: int| ' ')
}

/// A cell value fitted to `width` characters: cut with an ellipsis when it
/// is longer, padded with spaces when it is shorter.
pub open spec fn fixed_width_spec(value: Seq<char>, width: int) -> Seq<char> {
    if value.len() > width {
        value.take(width - 1).push('\u{2026}')
    } else {
        value + spaces(width - value.len())
    }
}

fn push_spaces(s: &mut String, n: usize)
    ensures
        final(s)@ == old(s)@ + spaces(n as int),
{
    let ghost start = s@;
    let mut i: usize = 0;
    while i < n
        invariant
            i <= n,
            s@ == start + spaces(i as int),
        decreases n - i,
    {
        proof {
            reveal_strlit(" ");
        }
        s.append(" ");
        assert(start + spaces(i as int + 1) =~= start + spaces(i as int) + " "@);
        i = i + 1;
    }
}

/// Fits `value` to `col_width` characters.
pub fn fixed_width(value: &str, col_width: usize) -> (r: String)
    requires
        col_width >= 1,
    ensures
        r@ == fixed_width_spec(value@, col_width as int),
{
    let len = value.unicode_len();
    if len > col_width {
        let mut r = String::from_str(value.substring_char(0, col_width - 1));
        proof {
            reveal_strlit("\u{2026}");
        }
        r.append("\u{2026}");
        assert(r@ =~= value@.take(col_width - 1).push('\u{2026}'));
        r
    } else {
        let mut r = String::from_str(value);
        push_spaces(&mut r, col_width - len);
        r
    }
}

/// Columns from `i` on whose left edge lies within the window.
pub open spec fn shown_from(ts: TableState, i: int) -> bool {
    i < ts.n_cols() && ts.columns@[i].index < ts.terminal_size.x + ts.columns@[
        ts.offsets.col as int
    ].index
}

/// Width that column `i` gets on screen: cut at the window's right edge.
pub open spec fn shown_width(ts: TableState, i: int) -> int {
    let last = col_end(ts.columns@, i) - ts.columns@[ts.offsets.col as int].index;
    if last > ts.terminal_size.x {
        ts.columns@[i].width - (last - ts.terminal_size.x)
    } else {
        ts.columns@[i].width as int
    }
}

/// The characters of `row` from column `i` on, as the window shows them.
pub open spec fn line_from(ts: TableState, row: Seq<String>, i: int) -> Seq<char>
    decreases ts.n_cols() - i,
{
    if i < 0 || !shown_from(ts, i) {
        Seq::empty()
    } else {
        fixed_width_spec(row[i]@, shown_width(ts, i)) + line_from(ts, row, i + 1)
    }
}

/// One line of the window: the visible columns of `row`.
pub open spec fn line_of(ts: TableState, row: Seq<String>) -> Seq<char> {
    line_from(ts, row, ts.offsets.col as int)
}

/// Data lines of the window from row `k` up to (not including) `stop`, each
/// preceded by a line break.
pub open spec fn data_lines(ts: TableState, k: int, stop: int) -> Seq<char>
    decreases stop - k,
{
    if k >= stop {
        Seq::empty()
    } else {
        seq!['\r', '\n'] + line_of(ts, ts.rows@[k]@) + data_lines(ts, k + 1, stop)
    }
}

/// Last data row (exclusive) that the window shows.
pub open spec fn window_stop(ts: TableState) -> int {
    let s = ts.offsets.row + ts.disp();
    if s < ts.n_rows() {
        s
    } else {
        ts.n_rows()
    }
}

/// The whole window: the header in bold, then the visible data rows.
pub open spec fn frame_spec(ts: TableState) -> Seq<char> {
    bold_seq() + line_of(ts, ts.header@) + style_reset_seq() + data_lines(
        ts,
        ts.offsets.row as int,
        window_stop(ts),
    )
}

/// The escape sequence that puts the terminal cursor on the current cell.
pub open spec fn cursor_seq(ts: TableState) -> Seq<char> {
    let cur = ts.offsets.col + ts.cur_pos.col;
    goto_seq(
        coord(ts.columns@[cur].index - ts.columns@[ts.offsets.col as int].index + 1),
        coord(ts.cur_pos.row + 1),
    )
}

/// The command line: the last terminal line blanked, then the buffer.
pub open spec fn command_line_seq(ts: TableState) -> Seq<char> {
    let y = coord(ts.terminal_size.y as int);
    goto_seq(1, y) + spaces(ts.terminal_size.x as int) + goto_seq(1, y) + ts.command_buffer@
}

/// Clears the screen and homes the cursor.
pub open spec fn reset_seq() -> Seq<char> {
    clear_all_seq() + goto_seq(1, 1)
}

/// A full redraw: clear, the window, then the cursor placement.
pub open spec fn full_render_seq(ts: TableState) -> Seq<char> {
    reset_seq() + frame_spec(ts) + cursor_seq(ts)
}

fn to_coord(v: usize) -> (r: u16)
    ensures
        r == coord(v as int),
{
    if v > 65535 {
        65535
    } else {
        v as u16
    }
}

/// Rendering interface: turns the table state into output for a redraw.
pub trait TableRenderer {
    /// Output of a full redraw of `ts`.
    spec fn full_render_spec(&self, ts: TableState) -> Seq<char>;

    /// Output that only moves the terminal cursor to the current cell.
    spec fn cursor_spec(&self, ts: TableState) -> Seq<char>;

    /// Output that redraws the command line.
    spec fn command_spec(&self, ts: TableState) -> Seq<char>;

    /// Output that clears the screen.
    spec fn reset_spec(&self) -> Seq<char>;

    fn full_render(&self, ts: &TableState) -> (r: String)
        requires
            ts.wf(),
        ensures
            r@ == self.full_render_spec(*ts),
    ;

    fn go_to_cur_pos(&self, ts: &TableState) -> (r: String)
        requires
            ts.wf(),
        ensures
            r@ == self.cursor_spec(*ts),
    ;

    fn render_command(&self, ts: &TableState) -> (r: String)
        requires
            ts.wf(),
        ensures
            r@ == self.command_spec(*ts),
    ;

    fn reset_window(&self) -> (r: String)
        ensures
            r@ == self.reset_spec(),
    ;

    /// Output for `action`; nothing when nothing changed.
    fn render(&self, ts: &TableState, action: &RenderingAction) -> (r: Option<String>)
        requires
            ts.wf(),
        ensures
            match *action {
                RenderingAction::Rerender => r is Some && r->Some_0@ == self.full_render_spec(*ts),
                RenderingAction::MoveCursor => r is Some && r->Some_0@ == self.cursor_spec(*ts),
                RenderingAction::Command => r is Some && r->Some_0@ == self.command_spec(*ts),
                RenderingAction::Reset => r is Some && r->Some_0@ == self.reset_spec(),
                RenderingAction::Nothing => r is None,
            },
    {
        match action {
            RenderingAction::Rerender => Some(self.full_render(ts)),
            RenderingAction::MoveCursor => Some(self.go_to_cur_pos(ts)),
            RenderingAction::Command => Some(self.render_command(ts)),
            RenderingAction::Reset => Some(self.reset_window()),
            RenderingAction::Nothing => None,
        }
    }
}

/// A table renderer for TTY terminals.
pub struct TerminalTableRenderer;

impl TerminalTableRenderer {
    /// Formats the visible cells of `row`.
    pub fn format_row(&self, ts: &TableState, row: &Vec<String>) -> (r: String)
        requires
            ts.wf(),
            row@.len() == ts.n_cols(),
        ensures
            r@ == line_of(*ts, row@),
    {
        let x = ts.terminal_size.x;
        let x0 = ts.x_offset();
        let c = ts.columns.len();
        let mut out = String::new();
        let mut i = ts.offsets.col;
        proof {
            crate::state::lemma_layout_monotone(ts.columns@, x as int, i as int, c - 1);
        }
        while i < c
            invariant
                ts.wf(),
                x == ts.terminal_size.x,
                x0 == ts.columns@[ts.offsets.col as int].index,
                c == ts.n_cols(),
                row@.len() == c,
                ts.offsets.col <= i <= c,
                out@ + line_from(*ts, row@, i as int) == line_of(*ts, row@),
            decreases c - i,
        {
            let column = ts.columns[i];
            proof {
                crate::state::lemma_layout_monotone(ts.columns@, x as int, ts.offsets.col as int, i as int);
            }
            if column.index - x0 >= x {
                assert(line_from(*ts, row@, i as int) =~= Seq::<char>::empty());
                assert(out@ =~= out@ + line_from(*ts, row@, i as int));
                return out;
            }
            let last_col_pos = column.index + column.width - x0;
            let width = if last_col_pos > x {
                column.width - (last_col_pos - x)
            } else {
                column.width
            };
            let cell = fixed_width(row[i].as_str(), width);
            out.append(cell.as_str());
            assert(out@ + line_from(*ts, row@, i + 1) =~= line_of(*ts, row@));
            i = i + 1;
        }
        assert(line_from(*ts, row@, i as int) =~= Seq::<char>::empty());
        assert(out@ =~= out@ + line_from(*ts, row@, i as int));
        out
    }
    /// Formats the header line in bold.
    pub fn format_header(&self, ts: &TableState, row: &Vec<String>) -> (r: String)
        requires
            ts.wf(),
            row@.len() == ts.n_cols(),
        ensures
            r@ == bold_seq() + line_of(*ts, row@) + style_reset_seq(),
    {
        let mut out = bold();
        let line = self.format_row(ts, row);
        out.append(line.as_str());
        let reset = style_reset();
        out.append(reset.as_str());
        out
    }

    /// The header and the visible data rows, separated by line breaks.
    pub fn generate_frame(&self, ts: &TableState) -> (r: String)
        requires
            ts.wf(),
        ensures
            r@ == frame_spec(*ts),
    {
        let mut out = self.format_header(ts, &ts.header);
        let n = ts.rows.len();
        let d = ts.displayable_data_rows();
        let stop = if n - ts.offsets.row <= d { n } else { ts.offsets.row + d };
        let mut k = ts.offsets.row;
        assert(out@ + data_lines(*ts, k as int, stop as int) == frame_spec(*ts));
        while k < stop
            invariant
                ts.wf(),
                n == ts.n_rows(),
                stop == window_stop(*ts),
                ts.offsets.row <= k <= stop,
                out@ + data_lines(*ts, k as int, stop as int) == frame_spec(*ts),
            decreases stop - k,
        {
            proof {
                reveal_strlit("\r\n");
            }
            let line = self.format_row(ts, &ts.rows[k]);
            let ghost before = out@;
            out.append("\r\n");
            out.append(line.as_str());
            assert(out@ + data_lines(*ts, k + 1, stop as int) =~= before + data_lines(
                *ts,
                k as int,
                stop as int,
            ));
            k = k + 1;
        }
        assert(out@ =~= out@ + data_lines(*ts, k as int, stop as int));
        out
    }

    /// Moves the terminal cursor onto the current cell.
    pub fn cursor_position(&self, ts: &TableState) -> (r: String)
        requires
            ts.wf(),
        ensures
            r@ == cursor_seq(*ts),
    {
        let cur = ts.current_column();
        let x0 = ts.x_offset();
        proof {
            crate::state::lemma_layout_monotone(ts.columns@, ts.terminal_size.x as int, ts.offsets.col as int, cur as int);
        }
        goto(to_coord(ts.columns[cur].index - x0 + 1), to_coord(ts.cur_pos.row + 1))
    }

    /// Blanks the last terminal line and shows the command buffer there.
    pub fn command_line(&self, ts: &TableState) -> (r: String)
        requires
            ts.wf(),
        ensures
            r@ == command_line_seq(*ts),
    {
        let y = to_coord(ts.terminal_size.y);
        let mut out = goto(1, y);
        push_spaces(&mut out, ts.terminal_size.x);
        let again = goto(1, y);
        out.append(again.as_str());
        let typed = string_of_chars(&ts.command_buffer, 0);
        out.append(typed.as_str());
        assert(ts.command_buffer@.skip(0) =~= ts.command_buffer@);
        out
    }

    /// Clears the screen and homes the cursor.
    pub fn clear_screen(&self) -> (r: String)
        ensures
            r@ == reset_seq(),
    {
        let mut out = clear_all();
        let home = goto(1, 1);
        out.append(home.as_str());
        out
    }

    /// Clears the screen, draws the window and places the cursor.
    pub fn full_frame(&self, ts: &TableState) -> (r: String)
        requires
            ts.wf(),
        ensures
            r@ == full_render_seq(*ts),
    {
        let mut out = self.clear_screen();
        let frame = self.generate_frame(ts);
        out.append(frame.as_str());
        let cursor = self.cursor_position(ts);
        out.append(cursor.as_str());
        out
    }
}

impl TableRenderer for TerminalTableRenderer {
    open spec fn full_render_spec(&self, ts: TableState) -> Seq<char> {
        full_render_seq(ts)
    }

    open spec fn cursor_spec(&self, ts: TableState) -> Seq<char> {
        cursor_seq(ts)
    }

    open spec fn command_spec(&self, ts: TableState) -> Seq<char> {
        command_line_seq(ts)
    }

    open spec fn reset_spec(&self) -> Seq<char> {
        reset_seq()
    }

    fn full_render(&self, ts: &TableState) -> String {
        self.full_frame(ts)
    }

    fn go_to_cur_pos(&self, ts: &TableState) -> String {
        self.cursor_position(ts)
    }

    fn render_command(&self, ts: &TableState) -> String {
        self.command_line(ts)
    }

    fn reset_window(&self) -> String {
        self.clear_screen()
    }
}

} // verus!
