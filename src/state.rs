//! Table state without external side-effects.
use crate::renderer::RenderingAction;
use crate::sort::{keeps_tie_order, sort_rows, sortable, sorted_by_col};
use crate::text::{has_substring, is_row_number, str_contains, string_of_chars};
use vstd::prelude::*;

verus! {

/// Table cell-based coordinates (columns and rows).
#[derive(Debug, Clone, Copy, PartialEq, Eq, Structural)]
pub struct TableCoord {
    pub col: usize,
    pub row: usize,
}

/// Character-based coordinates in x and y direction.
#[derive(Debug, Clone, Copy, PartialEq, Eq, Structural)]
pub struct CharCoord {
    pub x: usize,
    pub y: usize,
}

/// Formatting information about a column: width and index in characters.
#[derive(Debug, Clone, Copy, PartialEq, Eq, Structural)]
pub struct ColFormat {
    pub width: usize,
    pub index: usize,
}

/// Keeps data and state for rendering.
///
/// `cur_pos.row` counts display lines: 0 is the header, `k >= 1` shows
/// `rows[offsets.row + k - 1]`. `cur_pos.col` is relative to `offsets.col`.
pub struct TableState {
    pub header: Vec<String>,
    pub rows: Vec<Vec<String>>,
    pub columns: Vec<ColFormat>,
    pub terminal_size: CharCoord,
    pub cur_pos: TableCoord,
    pub offsets: TableCoord,
    pub command_buffer: Vec<char>,
}

/// Columns laid out side by side from character 0, each between one
/// character and `w` characters wide.
pub open spec fn layout_wf(columns: Seq<ColFormat>, w: int) -> bool {
    &&& columns.len() >= 1
    &&& columns[0].index == 0
    &&& forall|i: int| 0 <= i < columns.len() ==> 1 <= #[trigger] columns[i].width <= w
    &&& forall|i: int|
        0 <= i < columns.len() - 1 ==> #[trigger] columns[i + 1].index == columns[i].index
            + columns[i].width
    &&& columns.last().index + columns.last().width <= usize::MAX
}

/// Right edge of column `i` in the unscrolled rendering.
pub open spec fn col_end(columns: Seq<ColFormat>, i: int) -> int {
    columns[i].index + columns[i].width
}

pub proof fn lemma_layout_monotone(columns: Seq<ColFormat>, w: int, i: int, j: int)
    requires
        layout_wf(columns, w),
        0 <= i <= j < columns.len(),
    ensures
        columns[i].index <= columns[j].index,
        col_end(columns, i) <= col_end(columns, j),
        col_end(columns, j) <= usize::MAX,
    decreases columns.len() - i,
{
    if i < j {
        lemma_layout_monotone(columns, w, i + 1, j);
    } else if j < columns.len() - 1 {
        lemma_layout_monotone(columns, w, j + 1, columns.len() - 1);
    }
}

/// Character count of the longest entry of column `i` among the header and
/// the first `k` rows.
pub open spec fn max_len(header: Seq<String>, rows: Seq<Vec<String>>, i: int, k: int) -> nat
    decreases k,
{
    if k <= 0 {
        header[i]@.len()
    } else {
        let m = max_len(header, rows, i, k - 1);
        let l = rows[k - 1]@[i]@.len();
        if l > m {
            l
        } else {
            m
        }
    }
}

/// Width of column `i`: its longest entry plus padding, at most `w`.
pub open spec fn column_width(
    header: Seq<String>,
    rows: Seq<Vec<String>>,
    i: int,
    padding: int,
    w: int,
) -> int {
    let m = max_len(header, rows, i, rows.len() as int) + padding;
    if m > w {
        w
    } else {
        m
    }
}

/// Every row has as many cells as the header.
pub open spec fn rows_match_header(header: Seq<String>, rows: Seq<Vec<String>>) -> bool {
    forall|r: int| 0 <= r < rows.len() ==> (#[trigger] rows[r])@.len() == header.len()
}

fn compute_col_widths(
    header: &Vec<String>,
    rows: &Vec<Vec<String>>,
    padding: usize,
    window_width: usize,
) -> (r: Vec<usize>)
    requires
        rows_match_header(header@, rows@),
    ensures
        r@.len() == header@.len(),
        forall|i: int|
            0 <= i < r@.len() ==> r@[i] == column_width(
                header@,
                rows@,
                i,
                padding as int,
                window_width as int,
            ),
{
    let c = header.len();
    let mut widths: Vec<usize> = Vec::new();
    let mut i: usize = 0;
    while i < c
        invariant
            c == header@.len(),
            i <= c,
            widths@.len() == i,
            forall|j: int| 0 <= j < i ==> widths@[j] == max_len(header@, rows@, j, 0),
        decreases c - i,
    {
        widths.push(header[i].as_str().unicode_len());
        i = i + 1;
    }
    let n = rows.len();
    let mut k: usize = 0;
    while k < n
        invariant
            c == header@.len(),
            n == rows@.len(),
            k <= n,
            rows_match_header(header@, rows@),
            widths@.len() == c,
            forall|j: int| 0 <= j < c ==> widths@[j] == max_len(header@, rows@, j, k as int),
        decreases n - k,
    {
        let row = &rows[k];
        assert(row@.len() == c);
        let mut i: usize = 0;
        while i < c
            invariant
                c == header@.len(),
                row@.len() == c,
                *row == rows@[k as int],
                k < n,
                n == rows@.len(),
                i <= c,
                widths@.len() == c,
                forall|j: int| 0 <= j < i ==> widths@[j] == max_len(header@, rows@, j, k + 1),
                forall|j: int| i <= j < c ==> widths@[j] == max_len(header@, rows@, j, k as int),
            decreases c - i,
        {
            let length = row[i].as_str().unicode_len();
            if length > widths[i] {
                widths.set(i, length);
            }
            i = i + 1;
        }
        k = k + 1;
    }
    // add padding and truncate to window width
    let mut i: usize = 0;
    while i < c
        invariant
            c == header@.len(),
            n == rows@.len(),
            i <= c,
            widths@.len() == c,
            forall|j: int|
                0 <= j < i ==> widths@[j] == column_width(
                    header@,
                    rows@,
                    j,
                    padding as int,
                    window_width as int,
                ),
            forall|j: int| i <= j < c ==> widths@[j] == max_len(header@, rows@, j, n as int),
        decreases c - i,
    {
        let m = widths[i];
        let w = if m >= window_width || window_width - m <= padding {
            window_width
        } else {
            m + padding
        };
        widths.set(i, w);
        i = i + 1;
    }
    widths
}

impl TableState {
    /// Number of data rows that fit below the header.
    pub open spec fn disp(&self) -> int {
        self.terminal_size.y - 1
    }

    pub open spec fn n_rows(&self) -> int {
        self.rows@.len() as int
    }

    pub open spec fn n_cols(&self) -> int {
        self.columns@.len() as int
    }

    /// Largest row offset: the window then ends at the last row.
    pub open spec fn max_row_offset(&self) -> int {
        if self.n_rows() > self.disp() {
            self.n_rows() - self.disp()
        } else {
            0
        }
    }

    /// Display line of the last data row that the window can show.
    pub open spec fn bottom_line(&self) -> int {
        if self.n_rows() < self.disp() {
            self.n_rows()
        } else {
            self.disp()
        }
    }

    /// Every row has one cell per column.
    pub open spec fn grid_wf(&self) -> bool {
        &&& self.header@.len() == self.columns@.len()
        &&& forall|r: int|
            0 <= r < self.rows@.len() ==> (#[trigger] self.rows@[r])@.len() == self.header@.len()
    }

    /// The invariant that every operation keeps.
    pub open spec fn wf(&self) -> bool {
        &&& self.terminal_size.y >= 2
        &&& self.terminal_size.x >= 1
        &&& self.rows@.len() <= usize::MAX
        &&& self.columns@.len() <= usize::MAX
        &&& self.grid_wf()
        &&& layout_wf(self.columns@, self.terminal_size.x as int)
        &&& self.offsets.row <= self.max_row_offset()
        &&& self.cur_pos.row <= self.bottom_line()
        &&& self.offsets.col < self.n_cols()
        &&& self.cur_pos.col < self.n_cols() - self.offsets.col
    }

    /// The same table with the vertical window and cursor moved.
    pub open spec fn at_rows(self, offset: int, cursor: int) -> TableState {
        TableState {
            offsets: TableCoord { row: offset as usize, col: self.offsets.col },
            cur_pos: TableCoord { row: cursor as usize, col: self.cur_pos.col },
            ..self
        }
    }

    /// The same table with the horizontal window and cursor moved.
    pub open spec fn at_cols(self, offset: int, cursor: int) -> TableState {
        TableState {
            offsets: TableCoord { row: self.offsets.row, col: offset as usize },
            cur_pos: TableCoord { row: self.cur_pos.row, col: cursor as usize },
            ..self
        }
    }

    pub open spec fn spec_final_row_visible(&self) -> bool {
        self.offsets.row + self.disp() >= self.n_rows()
    }

    pub open spec fn step_down(self) -> (TableState, RenderingAction) {
        if self.cur_pos.row == self.bottom_line() {
            if !self.spec_final_row_visible() {
                (self.at_rows(self.offsets.row + 1, self.cur_pos.row as int), RenderingAction::Rerender)
            } else {
                (self, RenderingAction::Nothing)
            }
        } else {
            (self.at_rows(self.offsets.row as int, self.cur_pos.row + 1), RenderingAction::MoveCursor)
        }
    }

    pub open spec fn step_up(self) -> (TableState, RenderingAction) {
        if self.cur_pos.row == 1 {
            if self.offsets.row != 0 {
                (self.at_rows(self.offsets.row - 1, 1), RenderingAction::Rerender)
            } else {
                (self.at_rows(0, 0), RenderingAction::MoveCursor)
            }
        } else if self.cur_pos.row != 0 {
            (self.at_rows(self.offsets.row as int, self.cur_pos.row - 1), RenderingAction::MoveCursor)
        } else {
            (self, RenderingAction::Nothing)
        }
    }

    pub open spec fn step_page_down(self) -> (TableState, RenderingAction) {
        if self.cur_pos.row == 0 {
            if self.n_rows() == 0 {
                (self, RenderingAction::Nothing)
            } else {
                (self.at_rows(self.offsets.row as int, 1), RenderingAction::MoveCursor)
            }
        } else if !self.spec_final_row_visible() {
            let next = self.offsets.row + (self.disp() - 1);
            let last = self.n_rows() - self.disp();
            (
                self.at_rows(if next < last { next } else { last }, self.cur_pos.row as int),
                RenderingAction::Rerender,
            )
        } else if self.cur_pos.row != self.bottom_line() {
            (self.at_rows(self.offsets.row as int, self.bottom_line()), RenderingAction::MoveCursor)
        } else {
            (self, RenderingAction::Nothing)
        }
    }

    pub open spec fn step_page_up(self) -> (TableState, RenderingAction) {
        if self.offsets.row != 0 {
            let step = self.disp() - 1;
            (
                self.at_rows(
                    if self.offsets.row >= step { self.offsets.row - step } else { 0 },
                    self.cur_pos.row as int,
                ),
                RenderingAction::Rerender,
            )
        } else if self.cur_pos.row != 0 {
            (self.at_rows(0, 0), RenderingAction::MoveCursor)
        } else {
            (self, RenderingAction::Nothing)
        }
    }

    pub open spec fn after_home(self) -> TableState {
        self.at_rows(0, 0)
    }

    pub open spec fn after_end(self) -> TableState {
        if self.n_rows() <= self.disp() {
            self.at_rows(0, self.n_rows())
        } else {
            self.at_rows(self.n_rows() - self.disp(), self.disp())
        }
    }
    /// Column `last` ends within a window that starts at column `first`.
    pub open spec fn fits(&self, first: int, last: int) -> bool {
        col_end(self.columns@, last) - self.columns@[first].index <= self.terminal_size.x
    }

    /// Smallest column offset from `from` on at which column `last` fits.
    pub open spec fn first_fit(&self, from: int, last: int) -> int
        decreases last - from,
    {
        if from >= last || self.fits(from, last) {
            from
        } else {
            self.first_fit(from + 1, last)
        }
    }

    pub open spec fn step_right(self) -> (TableState, RenderingAction) {
        let cur = self.offsets.col + self.cur_pos.col;
        if cur == self.n_cols() - 1 {
            (self, RenderingAction::Nothing)
        } else if self.fits(self.offsets.col as int, cur + 1) {
            (self.at_cols(self.offsets.col as int, self.cur_pos.col + 1), RenderingAction::MoveCursor)
        } else {
            let o = self.first_fit(self.offsets.col as int, cur + 1);
            (self.at_cols(o, cur + 1 - o), RenderingAction::Rerender)
        }
    }

    pub open spec fn step_left(self) -> (TableState, RenderingAction) {
        if self.cur_pos.col == 0 {
            if self.offsets.col != 0 {
                (self.at_cols(self.offsets.col - 1, 0), RenderingAction::Rerender)
            } else {
                (self, RenderingAction::Nothing)
            }
        } else {
            (self.at_cols(self.offsets.col as int, self.cur_pos.col - 1), RenderingAction::MoveCursor)
        }
    }

    pub open spec fn step_start_of_line(self) -> (TableState, RenderingAction) {
        if self.offsets.col == 0 {
            (self.at_cols(0, 0), RenderingAction::MoveCursor)
        } else {
            (self.at_cols(0, 0), RenderingAction::Rerender)
        }
    }

    /// The window placement that shows data row `row` (paging rule).
    pub open spec fn after_jump(self, row: int) -> TableState {
        if row < self.disp() {
            self.at_rows(0, row + 1)
        } else if self.n_rows() - row < self.disp() {
            let o = self.n_rows() - self.disp();
            self.at_rows(o, row - o + 1)
        } else {
            self.at_rows(row, 1)
        }
    }

    /// Row where a search starts: the one after the cursor's row, or the
    /// first visible row while the cursor is on the header.
    pub open spec fn search_start(self) -> int {
        self.offsets.row + self.cur_pos.row
    }

    /// The `k`-th row that a search visits, wrapping past the last row.
    pub open spec fn scan_row(self, k: int) -> int {
        if self.search_start() + k < self.n_rows() {
            self.search_start() + k
        } else {
            self.search_start() + k - self.n_rows()
        }
    }

    /// The cell of data row `row` in the current column holds `pattern`.
    pub open spec fn row_matches(self, row: int, pattern: Seq<char>) -> bool {
        has_substring(self.rows@[row]@[self.offsets.col + self.cur_pos.col]@, pattern)
    }

    /// Position in scan order, from the `k`-th on, of the first matching row.
    pub open spec fn first_hit(self, pattern: Seq<char>, k: int) -> Option<int>
        decreases self.n_rows() - k,
    {
        if k >= self.n_rows() {
            None
        } else if self.row_matches(self.scan_row(k), pattern) {
            Some(k)
        } else {
            self.first_hit(pattern, k + 1)
        }
    }

    pub open spec fn after_search(self, pattern: Seq<char>) -> TableState {
        match self.first_hit(pattern, 0) {
            Some(k) => self.after_jump(self.scan_row(k)),
            None => self,
        }
    }

    /// The search pattern held by the command line, if it holds one.
    pub open spec fn command_pattern(self) -> Option<Seq<char>> {
        if self.command_buffer@.len() > 1 && self.command_buffer@[0] == '/' {
            Some(self.command_buffer@.skip(1))
        } else {
            None
        }
    }

    /// The same table with `buffer` as its command buffer.
    pub open spec fn with_buffer(self, buffer: Vec<char>) -> TableState {
        TableState { command_buffer: buffer, ..self }
    }

    /// The same table holding `rows` as its data rows.
    pub open spec fn with_rows(self, rows: Vec<Vec<String>>) -> TableState {
        TableState { rows, ..self }
    }

    /// Column `col` can be sorted by: it exists, and in column 0 every row
    /// holds a row number.
    pub open spec fn can_sort_by(self, col: int) -> bool {
        &&& 0 <= col < self.n_cols()
        &&& col == 0 ==> forall|k: int|
            0 <= k < self.n_rows() ==> is_row_number(#[trigger] self.rows@[k]@[0]@)
    }

    pub open spec fn after_end_of_line(self) -> TableState {
        let o = self.first_fit(0, self.n_cols() - 1);
        self.at_cols(o, self.n_cols() - 1 - o)
    }
}

pub proof fn lemma_first_fit(s: TableState, from: int, last: int)
    requires
        s.wf(),
        0 <= from <= last < s.n_cols(),
    ensures
        from <= s.first_fit(from, last) <= last,
        s.fits(s.first_fit(from, last), last),
        forall|j: int| from <= j < s.first_fit(from, last) ==> !#[trigger] s.fits(j, last),
    decreases last - from,
{
    if from < last && !s.fits(from, last) {
        lemma_first_fit(s, from + 1, last);
    }
}

// Factory methods
impl TableState {
    /// Lays out the columns for a terminal of `terminal_size` characters and
    /// puts the window and cursor at the top left, on the header.
    pub fn new(header: Vec<String>, rows: Vec<Vec<String>>, terminal_size: CharCoord) -> (r: Self)
        requires
            header@.len() >= 1,
            rows_match_header(header@, rows@),
            terminal_size.x >= 1,
            terminal_size.y >= 2,
            header@.len() * terminal_size.x <= usize::MAX,
        ensures
            r.wf(),
            r.header == header,
            r.rows == rows,
            r.terminal_size == terminal_size,
            r.offsets == (TableCoord { col: 0, row: 0 }),
            r.cur_pos == (TableCoord { col: 0, row: 0 }),
            r.command_buffer@.len() == 0,
            forall|i: int|
                0 <= i < r.n_cols() ==> (#[trigger] r.columns@[i]).width == column_width(
                    header@,
                    rows@,
                    i,
                    2,
                    terminal_size.x as int,
                ),
    {
        let x = terminal_size.x;
        // the row count fits in a usize, as the invariant states
        let n_rows: usize = rows.len();
        assert(rows@.len() == n_rows);
        let col_widths = compute_col_widths(&header, &rows, 2, x);
        let c = col_widths.len();
        let mut columns: Vec<ColFormat> = Vec::new();
        let mut acc: usize = 0;
        let mut i: usize = 0;
        while i < c
            invariant
                c == col_widths@.len(),
                c == header@.len(),
                c >= 1,
                c * x <= usize::MAX,
                x >= 1,
                i <= c,
                columns@.len() == i,
                acc <= i * x,
                forall|j: int| 0 <= j < c ==> 1 <= #[trigger] col_widths@[j] <= x,
                forall|j: int| 0 <= j < i ==> (#[trigger] columns@[j]).width == col_widths@[j],
                forall|j: int| 0 <= j < i ==> 1 <= (#[trigger] columns@[j]).width <= x,
                i > 0 ==> columns@[0].index == 0,
                i == 0 ==> acc == 0,
                i > 0 ==> acc == col_end(columns@, i - 1),
                forall|j: int|
                    0 <= j < i - 1 ==> #[trigger] columns@[j + 1].index == columns@[j].index
                        + columns@[j].width,
            decreases c - i,
        {
            let width = col_widths[i];
            assert(acc + width <= (i + 1) * x) by (nonlinear_arith)
                requires
                    acc <= i * x,
                    width <= x,
            ;
            assert((i + 1) * x <= c * x) by (nonlinear_arith)
                requires
                    i + 1 <= c,
            ;
            columns.push(ColFormat { width, index: acc });
            acc = acc + width;
            i = i + 1;
        }
        TableState {
            header,
            rows,
            columns,
            terminal_size,
            cur_pos: TableCoord { col: 0, row: 0 },
            offsets: TableCoord { col: 0, row: 0 },
            command_buffer: Vec::new(),
        }
    }
}

// Helper methods for accessing state.
impl TableState {
    /// Character offset of the first visible column.
    pub fn x_offset(&self) -> (r: usize)
        requires
            self.wf(),
        ensures
            r == self.columns@[self.offsets.col as int].index,
    {
        self.columns[self.offsets.col].index
    }

    pub fn displayable_data_rows(&self) -> (r: usize)
        requires
            self.wf(),
        ensures
            r == self.disp(),
    {
        // need to subtract the header
        self.terminal_size.y - 1
    }

    /// Is the final data row visible in the current window?
    pub fn final_row_visible(&self) -> (r: bool)
        requires
            self.wf(),
        ensures
            r == self.spec_final_row_visible(),
    {
        let d = self.displayable_data_rows();
        self.rows.len() <= self.offsets.row || self.rows.len() - self.offsets.row <= d
    }

    /// Is the first data row visible in the current window?
    pub fn first_row_visible(&self) -> (r: bool)
        ensures
            r == (self.offsets.row == 0),
    {
        self.offsets.row == 0
    }

    /// Is the last data column visible in the current window?
    pub fn last_col_visible(&self) -> (r: bool)
        requires
            self.wf(),
        ensures
            r == (col_end(self.columns@, self.n_cols() - 1) <= self.columns@[
                self.offsets.col as int
            ].index + self.terminal_size.x),
    {
        let last_col = &self.columns[self.columns.len() - 1];
        let x0 = self.x_offset();
        proof {
            lemma_layout_monotone(self.columns@, self.terminal_size.x as int, self.offsets.col as int, self.n_cols() - 1);
        }
        last_col.index + last_col.width - x0 <= self.terminal_size.x
    }

    /// Is the cursor on the bottom line of the displayed window?
    pub fn is_bottom(&self) -> (r: bool)
        requires
            self.wf(),
        ensures
            r == (self.cur_pos.row == self.bottom_line()),
    {
        let d = self.displayable_data_rows();
        let bottom_row = if d < self.rows.len() { d } else { self.rows.len() };
        self.cur_pos.row == bottom_row
    }

    /// Absolute index of the current column.
    pub fn current_column(&self) -> (r: usize)
        requires
            self.wf(),
        ensures
            r == self.offsets.col + self.cur_pos.col,
            r < self.n_cols(),
    {
        self.offsets.col + self.cur_pos.col
    }

    /// Row offset plus cursor line: the index of the row under the cursor
    /// plus one, or the row offset while the cursor is on the header.
    pub fn current_row(&self) -> (r: usize)
        requires
            self.wf(),
        ensures
            r == self.offsets.row + self.cur_pos.row,
            r <= self.n_rows(),
    {
        self.offsets.row + self.cur_pos.row
    }
}

// User actions. Each returns the redraw it needs.
impl TableState {
    pub fn move_down(&mut self) -> (r: RenderingAction)
        requires
            old(self).wf(),
        ensures
            final(self).wf(),
            (*final(self), r) == old(self).step_down(),
    {
        if self.is_bottom() {
            if !self.final_row_visible() {
                self.offsets.row = self.offsets.row + 1;
                return RenderingAction::Rerender;
            }
        } else {
            self.cur_pos.row = self.cur_pos.row + 1;
            return RenderingAction::MoveCursor;
        }
        RenderingAction::Nothing
    }

    pub fn move_up(&mut self) -> (r: RenderingAction)
        requires
            old(self).wf(),
        ensures
            final(self).wf(),
            (*final(self), r) == old(self).step_up(),
    {
        if self.cur_pos.row == 1 {
            if !self.first_row_visible() {
                self.offsets.row = self.offsets.row - 1;
                return RenderingAction::Rerender;
            } else {
                self.cur_pos.row = 0;
                return RenderingAction::MoveCursor;
            }
        } else if self.cur_pos.row != 0 {
            self.cur_pos.row = self.cur_pos.row - 1;
            return RenderingAction::MoveCursor;
        }
        RenderingAction::Nothing
    }

    pub fn move_page_down(&mut self) -> (r: RenderingAction)
        requires
            old(self).wf(),
        ensures
            final(self).wf(),
            (*final(self), r) == old(self).step_page_down(),
    {
        let d = self.displayable_data_rows();
        // from the header, we jump to the first data row
        if self.cur_pos.row == 0 {
            if self.rows.len() == 0 {
                RenderingAction::Nothing
            } else {
                self.cur_pos.row = 1;
                RenderingAction::MoveCursor
            }
        }
        // the final row is not yet visible: shift the window
        else if !self.final_row_visible() {
            let next = self.offsets.row + (d - 1);
            let last = self.rows.len() - d;
            self.offsets.row = if next < last { next } else { last };
            RenderingAction::Rerender
        }
        // the final row is already within our window
        else {
            let bottom = if d < self.rows.len() { d } else { self.rows.len() };
            if self.cur_pos.row != bottom {
                self.cur_pos.row = bottom;
                RenderingAction::MoveCursor
            } else {
                RenderingAction::Nothing
            }
        }
    }

    pub fn move_page_up(&mut self) -> (r: RenderingAction)
        requires
            old(self).wf(),
        ensures
            final(self).wf(),
            (*final(self), r) == old(self).step_page_up(),
    {
        if !self.first_row_visible() {
            let step = self.displayable_data_rows() - 1;
            self.offsets.row = if self.offsets.row >= step { self.offsets.row - step } else { 0 };
            RenderingAction::Rerender
        } else if self.cur_pos.row != 0 {
            self.cur_pos.row = 0;
            RenderingAction::MoveCursor
        } else {
            RenderingAction::Nothing
        }
    }

    pub fn move_home(&mut self) -> (r: RenderingAction)
        requires
            old(self).wf(),
        ensures
            final(self).wf(),
            *final(self) == old(self).after_home(),
            r == RenderingAction::Rerender,
    {
        self.offsets.row = 0;
        self.cur_pos.row = 0;
        RenderingAction::Rerender
    }

    pub fn move_end(&mut self) -> (r: RenderingAction)
        requires
            old(self).wf(),
        ensures
            final(self).wf(),
            *final(self) == old(self).after_end(),
            r == RenderingAction::Rerender,
    {
        let d = self.displayable_data_rows();
        // all data rows fit into one window
        if self.rows.len() <= d {
            self.offsets.row = 0;
            self.cur_pos.row = self.rows.len();
        }
        // move window to last position and cursor to last row
        else {
            self.offsets.row = self.rows.len() - d;
            self.cur_pos.row = d;
        }
        RenderingAction::Rerender
    }
    pub fn move_right(&mut self) -> (r: RenderingAction)
        requires
            old(self).wf(),
        ensures
            final(self).wf(),
            (*final(self), r) == old(self).step_right(),
    {
        let cur = self.current_column();
        // We are already in the last column
        if cur == self.columns.len() - 1 {
            return RenderingAction::Nothing;
        }
        let next = cur + 1;
        let x = self.terminal_size.x;
        let first = self.offsets.col;
        proof {
            lemma_layout_monotone(self.columns@, x as int, first as int, next as int);
            lemma_first_fit(*self, first as int, next as int);
        }
        let new_col_end = self.columns[next].index + self.columns[next].width;
        // The new column is completely within the displayed window
        if new_col_end - self.columns[first].index <= x {
            self.cur_pos.col = self.cur_pos.col + 1;
            return RenderingAction::MoveCursor;
        }
        // Find the first column offset at which the new column fits into the window
        let mut i = first;
        while i < next && new_col_end - self.columns[i].index > x
            invariant
                self.wf(),
                x == self.terminal_size.x,
                first <= i <= next < self.n_cols(),
                new_col_end == col_end(self.columns@, next as int),
                self.columns@[i as int].index <= new_col_end,
                self.first_fit(first as int, next as int) == self.first_fit(i as int, next as int),
            decreases next - i,
        {
            proof {
                lemma_layout_monotone(self.columns@, x as int, i as int + 1, next as int);
            }
            i = i + 1;
        }
        self.offsets.col = i;
        self.cur_pos.col = next - i;
        RenderingAction::Rerender
    }

    pub fn move_left(&mut self) -> (r: RenderingAction)
        requires
            old(self).wf(),
        ensures
            final(self).wf(),
            (*final(self), r) == old(self).step_left(),
    {
        if self.cur_pos.col == 0 {
            if self.offsets.col != 0 {
                self.offsets.col = self.offsets.col - 1;
                return RenderingAction::Rerender;
            }
        } else {
            self.cur_pos.col = self.cur_pos.col - 1;
            return RenderingAction::MoveCursor;
        }
        RenderingAction::Nothing
    }

    pub fn move_start_of_line(&mut self) -> (r: RenderingAction)
        requires
            old(self).wf(),
        ensures
            final(self).wf(),
            (*final(self), r) == old(self).step_start_of_line(),
    {
        self.cur_pos.col = 0;
        if self.offsets.col == 0 {
            return RenderingAction::MoveCursor;
        }
        self.offsets.col = 0;
        RenderingAction::Rerender
    }

    pub fn move_end_of_line(&mut self) -> (r: RenderingAction)
        requires
            old(self).wf(),
        ensures
            final(self).wf(),
            *final(self) == old(self).after_end_of_line(),
            r == RenderingAction::Rerender,
    {
        let x = self.terminal_size.x;
        let last = self.columns.len() - 1;
        proof {
            lemma_layout_monotone(self.columns@, x as int, 0, last as int);
            lemma_first_fit(*self, 0, last as int);
        }
        let complete_width = self.columns[last].index + self.columns[last].width;
        let mut i: usize = 0;
        while i < last && complete_width - self.columns[i].index > x
            invariant
                self.wf(),
                x == self.terminal_size.x,
                last == self.n_cols() - 1,
                i <= last,
                complete_width == col_end(self.columns@, last as int),
                self.columns@[i as int].index <= complete_width,
                self.first_fit(0, last as int) == self.first_fit(i as int, last as int),
            decreases last - i,
        {
            proof {
                lemma_layout_monotone(self.columns@, x as int, i as int + 1, last as int);
            }
            i = i + 1;
        }
        self.offsets.col = i;
        self.cur_pos.col = last - i;
        RenderingAction::Rerender
    }
    fn jump_to_row(&mut self, row: usize)
        requires
            old(self).wf(),
            row < old(self).n_rows(),
        ensures
            final(self).wf(),
            *final(self) == old(self).after_jump(row as int),
    {
        let d = self.displayable_data_rows();
        let n = self.rows.len();
        // first window position
        if row < d {
            self.offsets.row = 0;
            self.cur_pos.row = row + 1;
        }
        // last window position
        else if n - row < d {
            self.offsets.row = n - d;
            self.cur_pos.row = row - (n - d) + 1;
        }
        // middle
        else {
            self.offsets.row = row;
            self.cur_pos.row = 1;
        }
    }

    /// Moves to the next row, in wrap-around order, whose cell in the
    /// current column contains `pattern`.
    pub fn search(&mut self, pattern: &str) -> (r: RenderingAction)
        requires
            old(self).wf(),
        ensures
            final(self).wf(),
            *final(self) == old(self).after_search(pattern@),
            r == RenderingAction::Rerender,
    {
        let col = self.current_column();
        let start = self.current_row();
        let n = self.rows.len();
        let mut k: usize = 0;
        while k < n
            invariant
                self.wf(),
                *self == *old(self),
                col == self.offsets.col + self.cur_pos.col,
                start == self.search_start(),
                n == self.n_rows(),
                k <= n,
                self.first_hit(pattern@, 0) == self.first_hit(pattern@, k as int),
            decreases n - k,
        {
            let row = if k < n - start { start + k } else { k - (n - start) };
            assert(row == self.scan_row(k as int));
            assert(self.rows@[row as int]@.len() == self.header@.len());
            if str_contains(self.rows[row][col].as_str(), pattern) {
                self.jump_to_row(row);
                return RenderingAction::Rerender;
            }
            k = k + 1;
        }
        RenderingAction::Rerender
    }

    /// Runs the search held by the command line, if there is one.
    pub fn execute_command(&mut self) -> (r: RenderingAction)
        requires
            old(self).wf(),
        ensures
            final(self).wf(),
            match old(self).command_pattern() {
                Some(p) => *final(self) == old(self).after_search(p) && r
                    == RenderingAction::Rerender,
                None => *final(self) == *old(self) && r == RenderingAction::Nothing,
            },
    {
        if self.command_buffer.len() > 1 && self.command_buffer[0] == '/' {
            let pattern = string_of_chars(&self.command_buffer, 1);
            self.search(pattern.as_str())
        } else {
            RenderingAction::Nothing
        }
    }
    fn sort_by_column(&mut self, col: usize, desc: bool)
        requires
            old(self).wf(),
            old(self).can_sort_by(col as int),
        ensures
            final(self).wf(),
            *final(self) == old(self).with_rows(final(self).rows),
            sorted_by_col(final(self).rows@, col as int, desc),
            final(self).rows@.to_multiset() == old(self).rows@.to_multiset(),
            keeps_tie_order(final(self).rows@, old(self).rows@, col as int),
            forall|k: int|
                0 <= k < final(self).n_rows() ==> old(self).rows@.contains(
                    #[trigger] final(self).rows@[k],
                ),
    {
        let ghost before = self.rows@;
        assert forall|k: int| 0 <= k < before.len() implies sortable(col as int, #[trigger] before[k]) by {
            assert(before[k]@.len() == self.header@.len());
        }
        sort_rows(&mut self.rows, col, desc);
        assert forall|k: int| 0 <= k < self.rows@.len() implies (#[trigger] self.rows@[k])@.len()
            == self.header@.len() by {
            assert(before.contains(self.rows@[k]));
        }
        proof {
            vstd::seq_lib::to_multiset_len(before);
            vstd::seq_lib::to_multiset_len(self.rows@);
        }
    }

    /// Sorts the data rows ascending by column `col`, keeping ties in order.
    /// The window and cursor stay where they are.
    pub fn ascending(&mut self, col: usize) -> (r: RenderingAction)
        requires
            old(self).wf(),
            old(self).can_sort_by(col as int),
        ensures
            final(self).wf(),
            *final(self) == old(self).with_rows(final(self).rows),
            sorted_by_col(final(self).rows@, col as int, false),
            final(self).rows@.to_multiset() == old(self).rows@.to_multiset(),
            keeps_tie_order(final(self).rows@, old(self).rows@, col as int),
            forall|k: int|
                0 <= k < final(self).n_rows() ==> old(self).rows@.contains(
                    #[trigger] final(self).rows@[k],
                ),
            r == RenderingAction::Rerender,
    {
        self.sort_by_column(col, false);
        RenderingAction::Rerender
    }

    /// Sorts the data rows descending by column `col`, keeping ties in order.
    /// The window and cursor stay where they are.
    pub fn descending(&mut self, col: usize) -> (r: RenderingAction)
        requires
            old(self).wf(),
            old(self).can_sort_by(col as int),
        ensures
            final(self).wf(),
            *final(self) == old(self).with_rows(final(self).rows),
            sorted_by_col(final(self).rows@, col as int, true),
            final(self).rows@.to_multiset() == old(self).rows@.to_multiset(),
            keeps_tie_order(final(self).rows@, old(self).rows@, col as int),
            forall|k: int|
                0 <= k < final(self).n_rows() ==> old(self).rows@.contains(
                    #[trigger] final(self).rows@[k],
                ),
            r == RenderingAction::Rerender,
    {
        self.sort_by_column(col, true);
        RenderingAction::Rerender
    }
}

} // verus!
