//! The terminal grid.

use vstd::prelude::*;

verus! {

/// A single character cell in the terminal grid: the displayed character,
/// its foreground and background colours and the bold attribute.
#[derive(Clone, Copy, Debug, PartialEq, Eq)]
pub struct Cell {
    /// The Unicode scalar displayed in this cell.
    pub c: char,
    /// Foreground colour as `[R, G, B]`.
    pub fg: [u8; 3],
    /// Background colour as `[R, G, B]`.
    pub bg: [u8; 3],
    /// Whether the cell should be rendered in bold weight.
    pub bold: bool,
}

/// One cell as it is drawn: its screen position, character and the colours
/// it is drawn in (swapped under the cursor).
#[derive(Clone, Copy, Debug, PartialEq, Eq)]
pub struct CellDraw {
    /// Screen line, 0 = top of the view.
    pub row: usize,
    /// Column.
    pub col: usize,
    /// The character shown.
    pub c: char,
    /// Colour of the glyph.
    pub fg: [u8; 3],
    /// Colour of the cell's background.
    pub bg: [u8; 3],
}

} // verus!

use crate::colors::{ansi_16_color, ansi_256_color};
use crate::model::{blank_row, fill_rect, sat_sub, GridModel};
use crate::vte_params::{first_values, param_values, params_groups};

verus! {

impl Default for Cell {
    /// A blank cell in the default light-gray-on-dark-blue colours.
    fn default() -> (cell: Self)
        ensures
            cell == (Cell { c: ' ', fg: [200, 200, 200], bg: [14, 14, 26], bold: false }),
    {
        Cell { c: ' ', fg: [200, 200, 200], bg: [14, 14, 26], bold: false }
    }
}

/// The terminal grid holding the cell matrix and cursor state.
///
/// `cells` holds the full scrollback history. The visible region is always
/// the last `rows` entries. When output scrolls the screen, new rows are
/// appended and old rows are trimmed only when `cells.len() > rows + max_scrollback`.
pub struct Grid {
    /// Number of columns (characters per line).
    pub cols: usize,
    /// Number of visible rows.
    pub rows: usize,
    /// Full history including scrollback. Index 0 = oldest line.
    pub cells: Vec<Vec<Cell>>,
    /// Current cursor column (0-indexed).
    pub cursor_x: usize,
    /// Cursor row relative to the visible region (not absolute history index).
    pub cursor_y: usize,
    /// Lines scrolled back from the live view (0 = showing latest output).
    pub scroll_offset: usize,
    /// Maximum history lines retained above the visible area.
    pub max_scrollback: usize,
    /// Default foreground colour.
    pub default_fg: [u8; 3],
    /// Default background colour.
    pub default_bg: [u8; 3],
    /// Foreground colour of the current SGR state.
    pub cur_fg: [u8; 3],
    /// Background colour of the current SGR state.
    pub cur_bg: [u8; 3],
    /// Bold attribute of the current SGR state.
    pub cur_bold: bool,
}

/// The contents of a sequence of lines.
pub open spec fn rows_view(cells: Seq<Vec<Cell>>) -> Seq<Seq<Cell>> {
    Seq::new(cells.len(), |r: int| cells[r]@)
}

/// `base` with the positions `lo..hi` taken from `target`.
pub open spec fn merge_from(base: Seq<Cell>, target: Seq<Cell>, lo: int, hi: int) -> Seq<Cell> {
    Seq::new(base.len(), |k: int| if lo <= k && k < hi { target[k] } else { base[k] })
}

/// Replacing one line replaces its contents.
pub broadcast proof fn lemma_rows_view_update(cells: Seq<Vec<Cell>>, r: int, row: Vec<Cell>)
    requires
        0 <= r < cells.len(),
    ensures
        #[trigger] rows_view(cells.update(r, row)) == rows_view(cells).update(r, row@),
{
    assert(rows_view(cells.update(r, row)) =~= rows_view(cells).update(r, row@));
}

impl View for Grid {
    type V = GridModel;

    open spec fn view(&self) -> GridModel {
        GridModel {
            cols: self.cols as nat,
            rows: self.rows as nat,
            cells: rows_view(self.cells@),
            cursor_x: self.cursor_x as nat,
            cursor_y: self.cursor_y as nat,
            scroll_offset: self.scroll_offset as nat,
            max_scrollback: self.max_scrollback as nat,
            default_fg: self.default_fg,
            default_bg: self.default_bg,
            cur_fg: self.cur_fg,
            cur_bg: self.cur_bg,
            cur_bold: self.cur_bold,
        }
    }
}

impl Grid {
    /// A grid of `rows` blank lines of `cols` default cells, cursor at the
    /// origin, live view, default colours.
    pub fn new(cols: usize, rows: usize, max_scrollback: usize, default_fg: [u8; 3], default_bg: [u8; 3]) -> (g: Self)
        ensures
            g@.cols == cols,
            g@.rows == rows,
            g@.max_scrollback == max_scrollback,
            g@.cells == Seq::new(rows as nat, |_r: int| blank_row(g@.default_cell(), cols as nat)),
            g@.cursor_x == 0,
            g@.cursor_y == 0,
            g@.scroll_offset == 0,
            g@.default_fg == default_fg,
            g@.default_bg == default_bg,
            g@.cur_fg == default_fg,
            g@.cur_bg == default_bg,
            g@.cur_bold == false,
    {
        let blank = Cell { c: ' ', fg: default_fg, bg: default_bg, bold: false };
        let mut cells: Vec<Vec<Cell>> = Vec::new();
        let mut i: usize = 0;
        while i < rows
            invariant
                i <= rows,
                cells@.len() == i,
                forall|r: int| 0 <= r < i ==> #[trigger] cells@[r]@ == blank_row(blank, cols as nat),
            decreases rows - i,
        {
            let row = vec![blank; cols];
            assert(row@ == blank_row(blank, cols as nat));
            cells.push(row);
            i = i + 1;
        }
        let g = Grid {
            cols,
            rows,
            cells,
            cursor_x: 0,
            cursor_y: 0,
            scroll_offset: 0,
            max_scrollback,
            default_fg,
            default_bg,
            cur_fg: default_fg,
            cur_bg: default_bg,
            cur_bold: false,
        };
        assert(g@.cells =~= Seq::new(rows as nat, |_r: int| blank_row(g@.default_cell(), cols as nat)));
        g
    }

    /// Index of the first visible row in `self.cells`.
    pub fn visible_start(&self) -> (start: usize)
        ensures
            start == self@.visible_start(),
    {
        let total = self.cells.len();
        if total <= self.rows {
            0
        } else {
            let live_start = total - self.rows;
            live_start.saturating_sub(self.scroll_offset)
        }
    }

    /// Scroll the view by `delta` lines (positive = scroll up / back in history).
    pub fn scroll_view(&mut self, delta: isize)
        requires
            isize::MIN <= (old(self).scroll_offset as isize) + delta <= isize::MAX,
            old(self).cells.len() <= isize::MAX,
        ensures
            final(self)@ == old(self)@.scroll_view(delta as int),
    {
        let total = self.cells.len();
        let max_offset = total.saturating_sub(self.rows);
        let want = self.scroll_offset as isize + delta;
        let lo = if want < 0 { 0 } else { want };
        let new_offset = if lo > max_offset as isize { max_offset as isize } else { lo };
        self.scroll_offset = new_offset as usize;
    }

    /// Jump to the live (bottom) view.
    pub fn scroll_to_bottom(&mut self)
        ensures
            final(self)@ == (GridModel { scroll_offset: 0, ..old(self)@ }),
    {
        self.scroll_offset = 0;
    }

    /// A line of `cols` blank cells in the default colours.
    pub fn blank_row(&self) -> (row: Vec<Cell>)
        ensures
            row@ == blank_row(self@.default_cell(), self.cols as nat),
    {
        let row = vec![Cell { c: ' ', fg: self.default_fg, bg: self.default_bg, bold: false }; self.cols];
        assert(row@ =~= blank_row(self@.default_cell(), self.cols as nat));
        row
    }

    /// A blank cell in the current SGR colours and weight.
    pub fn current_cell(&self) -> (cell: Cell)
        ensures
            cell == self@.pen_cell(),
    {
        Cell { c: ' ', fg: self.cur_fg, bg: self.cur_bg, bold: self.cur_bold }
    }

    /// Appends a blank line in the current colours, dropping the oldest line
    /// once the history exceeds `rows + max_scrollback`.
    pub fn scroll_up(&mut self)
        requires
            old(self)@.scroll_up_ok(),
        ensures
            final(self)@ == old(self)@.scroll_up(),
    {
        let new_row = vec![self.current_cell(); self.cols];
        assert(new_row@ =~= blank_row(self@.pen_cell(), self.cols as nat));
        let ghost before = self@;
        self.cells.push(new_row);
        let max_total = self.rows + self.max_scrollback;
        if self.cells.len() > max_total {
            self.cells.remove(0);
        }
        assert(self@.cells =~= before.scroll_up().cells);
    }

    /// A mutable reference to a cell in the live (visible) region.
    fn visible_cell_mut(&mut self, row: usize, col: usize) -> (cell: Option<&mut Cell>)
        requires
            old(self)@.live_start() + row <= usize::MAX,
        ensures
            ({
                let r = old(self)@.live_start() + row;
                let m = old(self)@;
                if r < m.cells.len() && col < m.cells[r as int].len() {
                    &&& cell is Some
                    &&& *cell->0 == m.cells[r as int][col as int]
                    &&& final(self)@ == m.write_visible(row as int, col as int, *final(cell->0))
                } else {
                    &&& cell is None
                    &&& final(self)@ == m
                }
            }),
    {
        let live_start = self.cells.len().saturating_sub(self.rows);
        let r = live_start + row;
        if r < self.cells.len() && col < self.cells[r].len() {
            broadcast use lemma_rows_view_update;
            let row_ref: &mut Vec<Cell> = &mut self.cells[r];
            let cell_ref: &mut Cell = &mut row_ref[col];
            Some(cell_ref)
        } else {
            None
        }
    }

    /// Moves the cursor one column right, wrapping and scrolling as needed.
    pub fn advance_cursor(&mut self)
        requires
            old(self)@.advance_ok(),
        ensures
            final(self)@ == old(self)@.advance_cursor(),
    {
        self.cursor_x += 1;
        if self.cursor_x >= self.cols {
            self.cursor_x = 0;
            self.cursor_y += 1;
            if self.cursor_y >= self.rows {
                self.cursor_y = self.rows - 1;
                self.scroll_up();
            }
        }
    }

    /// Brings the cursor back onto the screen.
    fn clamp_cursor(&mut self)
        ensures
            final(self)@ == old(self)@.clamp_cursor(),
    {
        if self.cursor_x >= self.cols {
            self.cursor_x = self.cols.saturating_sub(1);
        }
        if self.cursor_y >= self.rows {
            self.cursor_y = self.rows.saturating_sub(1);
        }
    }

    /// Writes `c` in the current colours at the cursor and advances the cursor.
    pub fn print(&mut self, c: char)
        requires
            old(self)@.print_ok(),
        ensures
            final(self)@ == old(self)@.print(c),
    {
        let cur_fg = self.cur_fg;
        let cur_bg = self.cur_bg;
        let cur_bold = self.cur_bold;
        let cy = self.cursor_y;
        let cx = self.cursor_x;
        if let Some(cell) = self.visible_cell_mut(cy, cx) {
            cell.c = c;
            cell.fg = cur_fg;
            cell.bg = cur_bg;
            cell.bold = cur_bold;
        }
        self.advance_cursor();
    }

    /// Handles a C0 control byte: line feed, carriage return, tab and backspace.
    pub fn execute(&mut self, byte: u8)
        requires
            old(self)@.execute_ok(byte),
        ensures
            final(self)@ == old(self)@.execute(byte),
    {
        if byte == 0x0a {
            self.cursor_y += 1;
            if self.cursor_y >= self.rows {
                self.cursor_y = self.rows - 1;
                self.scroll_up();
            }
        } else if byte == 0x0d {
            self.cursor_x = 0;
        } else if byte == 0x09 {
            let next_tab = (self.cursor_x / 8 + 1) * 8;
            self.cursor_x = if next_tab < self.cols - 1 { next_tab } else { self.cols - 1 };
        } else if byte == 0x08 {
            if self.cursor_x > 0 {
                self.cursor_x -= 1;
            }
        }
    }

    /// Applies the SGR parameter at index `i`; returns the index of the last
    /// parameter it consumed.
    fn sgr_step(&mut self, params: &[u16], i: usize) -> (last: usize)
        requires
            i < params@.len(),
        ensures
            (final(self)@, last as int) == old(self)@.sgr_at(params@, i as int),
    {
        let p = params[i];
        let len = params.len();
        if p == 0 {
            self.cur_fg = self.default_fg;
            self.cur_bg = self.default_bg;
            self.cur_bold = false;
            i
        } else if p == 1 {
            self.cur_bold = true;
            i
        } else if p == 22 {
            self.cur_bold = false;
            i
        } else if 30 <= p && p <= 37 {
            self.cur_fg = ansi_16_color((p - 30) as usize);
            i
        } else if p == 38 || p == 48 {
            if 1 < len - i && params[i + 1] == 2 {
                if 4 < len - i {
                    let rgb: [u8; 3] = [params[i + 2] as u8, params[i + 3] as u8, params[i + 4] as u8];
                    if p == 38 {
                        self.cur_fg = rgb;
                    } else {
                        self.cur_bg = rgb;
                    }
                    i + 4
                } else {
                    i
                }
            } else if 1 < len - i && params[i + 1] == 5 {
                if 2 < len - i {
                    let rgb = ansi_256_color(params[i + 2] as usize);
                    if p == 38 {
                        self.cur_fg = rgb;
                    } else {
                        self.cur_bg = rgb;
                    }
                    i + 2
                } else {
                    i
                }
            } else {
                i
            }
        } else if p == 39 {
            self.cur_fg = self.default_fg;
            i
        } else if 40 <= p && p <= 47 {
            self.cur_bg = ansi_16_color((p - 40) as usize);
            i
        } else if p == 49 {
            self.cur_bg = self.default_bg;
            i
        } else if 90 <= p && p <= 97 {
            self.cur_fg = ansi_16_color((p - 90 + 8) as usize);
            i
        } else if 100 <= p && p <= 107 {
            self.cur_bg = ansi_16_color((p - 100 + 8) as usize);
            i
        } else {
            i
        }
    }

    /// Select Graphic Rendition: updates the current colours and weight from
    /// the parameters (reset, bold, 8/16 colours, 256 colours, true colour).
    pub fn apply_sgr(&mut self, params: &[u16])
        ensures
            final(self)@ == old(self)@.apply_sgr(params@),
    {
        if params.len() == 0 {
            self.cur_fg = self.default_fg;
            self.cur_bg = self.default_bg;
            self.cur_bold = false;
            return;
        }
        let mut i: usize = 0;
        while i < params.len()
            invariant
                i <= params@.len(),
                params@.len() > 0,
                self@.sgr_from(params@, i as int) == old(self)@.apply_sgr(params@),
            decreases params@.len() - i,
        {
            let last = self.sgr_step(params, i);
            i = last + 1;
        }
    }

    /// Sets the columns `x_lo..x_hi` of line `r` to `b`, where they exist.
    fn fill_line(&mut self, r: usize, x_lo: usize, x_hi: usize, b: Cell)
        ensures
            final(self)@ == (GridModel {
                cells: fill_rect(old(self)@.cells, r as int, r + 1, x_lo as int, x_hi as int, b),
                ..old(self)@
            }),
    {
        broadcast use lemma_rows_view_update;
        let ghost m = self@;
        if r >= self.cells.len() || x_lo >= x_hi {
            assert(m.cells =~~= fill_rect(m.cells, r as int, r + 1, x_lo as int, x_hi as int, b));
            return;
        }
        assert(m.cells =~~= fill_rect(m.cells, r as int, r + 1, x_lo as int, x_lo as int, b));
        let mut x = x_lo;
        while x < x_hi
            invariant
                x_lo <= x <= x_hi,
                r < self.cells@.len(),
                self@ == (GridModel {
                    cells: fill_rect(m.cells, r as int, r + 1, x_lo as int, x as int, b),
                    ..m
                }),
            decreases x_hi - x,
        {
            if x < self.cells[r].len() {
                let ghost before = self@.cells;
                self.cells[r][x] = b;
                assert(self@.cells == before.update(r as int, before[r as int].update(x as int, b)));
                assert(self@.cells =~~= fill_rect(m.cells, r as int, r + 1, x_lo as int, x + 1, b));
            } else {
                assert(self@.cells =~~= fill_rect(m.cells, r as int, r + 1, x_lo as int, x + 1, b));
            }
            x += 1;
        }
    }

    /// Sets the columns `0..cols` of the lines `ls + y_lo .. ls + y_hi` to `b`, where they exist.
    fn fill_lines(&mut self, ls: usize, y_lo: usize, y_hi: usize, b: Cell)
        requires
            y_lo < y_hi ==> ls + y_hi <= usize::MAX,
        ensures
            final(self)@ == (GridModel {
                cells: fill_rect(old(self)@.cells, ls + y_lo, ls + y_hi, 0, old(self).cols as int, b),
                ..old(self)@
            }),
    {
        let ghost m = self@;
        if y_lo >= y_hi {
            assert(m.cells =~~= fill_rect(m.cells, ls + y_lo, ls + y_hi, 0, m.cols as int, b));
            return;
        }
        assert(m.cells =~~= fill_rect(m.cells, ls + y_lo, ls + y_lo, 0, m.cols as int, b));
        let mut y = y_lo;
        while y < y_hi
            invariant
                y_lo <= y <= y_hi,
                ls + y_hi <= usize::MAX,
                self@ == (GridModel {
                    cells: fill_rect(m.cells, ls + y_lo, ls + y, 0, m.cols as int, b),
                    ..m
                }),
            decreases y_hi - y,
        {
            let cols = self.cols;
            self.fill_line(ls + y, 0, cols, b);
            assert(self@.cells =~~= fill_rect(m.cells, ls + y_lo, ls + y + 1, 0, m.cols as int, b));
            y += 1;
        }
    }

    /// Erase in Display: mode 0 from the cursor to the end of the screen,
    /// 1 from the start of the screen to the cursor, 2 and 3 the whole screen
    /// (2 also homes the cursor); erased cells take the current colours.
    fn erase_display(&mut self, mode: u16)
        requires
            old(self)@.csi_ok(seq![mode], 'J'),
        ensures
            final(self)@ == old(self)@.erase_display(mode as int),
    {
        let blank = self.current_cell();
        let cx = self.cursor_x;
        let cy = self.cursor_y;
        let ls = self.cells.len().saturating_sub(self.rows);
        let cols = self.cols;
        let rows = self.rows;
        if mode == 0 {
            self.fill_line(ls + cy, cx, cols, blank);
            self.fill_lines(ls, cy + 1, rows, blank);
        } else if mode == 1 {
            self.fill_lines(ls, 0, cy, blank);
            let last = if cx < cols - 1 { cx } else { cols - 1 };
            self.fill_line(ls + cy, 0, last + 1, blank);
        } else if mode == 2 || mode == 3 {
            self.fill_lines(ls, 0, rows, blank);
            if mode == 2 {
                self.cursor_x = 0;
                self.cursor_y = 0;
            }
        }
    }

    /// Erase in Line: mode 0 from the cursor to the end of the line, 1 from
    /// the start of the line to the cursor, 2 the whole line.
    fn erase_line(&mut self, mode: u16)
        requires
            old(self)@.csi_ok(seq![mode], 'K'),
        ensures
            final(self)@ == old(self)@.erase_line(mode as int),
    {
        let blank = self.current_cell();
        let cx = self.cursor_x;
        let cols = self.cols;
        let r = self.cells.len().saturating_sub(self.rows) + self.cursor_y;
        if mode == 0 {
            self.fill_line(r, cx, cols, blank);
        } else if mode == 1 {
            let last = if cx < cols - 1 { cx } else { cols - 1 };
            self.fill_line(r, 0, last + 1, blank);
        } else if mode == 2 {
            self.fill_line(r, 0, cols, blank);
        }
    }

    /// Deletes `n` characters at the cursor (`P`).
    fn delete_chars(&mut self, n: usize)
        requires
            old(self)@.row_edit_ok(n as nat),
        ensures
            final(self)@ == old(self)@.edit_cursor_row(old(self)@.deleted_row(old(self)@.cursor_row(), n as nat)),
    {
        broadcast use lemma_rows_view_update;
        let ghost m = self@;
        let cx = self.cursor_x;
        let cols = self.cols;
        let blank = self.current_cell();
        let r = self.cells.len().saturating_sub(self.rows) + self.cursor_y;
        if r < self.cells.len() {
            let ghost row0 = m.cells[r as int];
            let ghost target = m.deleted_row(row0, n as nat);
            assert(m.cells.update(r as int, merge_from(row0, target, cx as int, cx as int)) =~~= m.cells);
            if cx >= cols {
                assert(target =~= row0);
                return;
            }
            let mut i = cx;
            while i < cols
                invariant
                    cx <= i <= cols,
                    r < m.cells.len(),
                    r == m.live_start() + m.cursor_y,
                    row0 == m.cells[r as int],
                    target == m.deleted_row(row0, n as nat),
                    row0.len() >= cols,
                    cols == m.cols,
                    cx == m.cursor_x,
                    blank == m.pen_cell(),
                    cols + n <= usize::MAX,
                    self.cells@.len() == m.cells.len(),
                    self.cells@[r as int]@ == merge_from(row0, target, cx as int, i as int),
                    self@ == (GridModel { cells: m.cells.update(r as int, merge_from(row0, target, cx as int, i as int)), ..m }),
                decreases cols - i,
            {
                let ghost prev = self.cells@;
                if i + n < cols {
                    let v = self.cells[r][i + n];
                    assert(v == target[i as int]);
                    self.cells[r][i] = v;
                } else {
                    self.cells[r][i] = blank;
                }
                assert(self@.cells == rows_view(prev).update(r as int, rows_view(prev)[r as int].update(i as int, target[i as int])));
                assert(merge_from(row0, target, cx as int, i + 1) =~= merge_from(row0, target, cx as int, i as int).update(i as int, target[i as int]));
                assert(m.cells.update(r as int, merge_from(row0, target, cx as int, i as int)).update(r as int, merge_from(row0, target, cx as int, i + 1))
                    =~= m.cells.update(r as int, merge_from(row0, target, cx as int, i + 1)));
                i += 1;
            }
            assert(merge_from(row0, target, cx as int, cols as int) =~= target);
        } else {
            assert(m.edit_cursor_row(m.deleted_row(m.cursor_row(), n as nat)) == m);
        }
    }

    /// Inserts `n` blank characters at the cursor (`@`).
    fn insert_blanks(&mut self, n: usize)
        requires
            old(self)@.row_edit_ok(n as nat),
        ensures
            final(self)@ == old(self)@.edit_cursor_row(old(self)@.inserted_row(old(self)@.cursor_row(), n as nat)),
    {
        broadcast use lemma_rows_view_update;
        let ghost m = self@;
        let cx = self.cursor_x;
        let cols = self.cols;
        let blank = self.current_cell();
        let r = self.cells.len().saturating_sub(self.rows) + self.cursor_y;
        if r < self.cells.len() {
            let ghost row0 = m.cells[r as int];
            let ghost target = m.inserted_row(row0, n as nat);
            assert(m.cells.update(r as int, merge_from(row0, target, cols as int, cols as int)) =~~= m.cells);
            if cx >= cols {
                assert(target =~= row0);
                return;
            }
            let mut i = cols;
            while i > cx
                invariant
                    cx <= i <= cols,
                    r < m.cells.len(),
                    r == m.live_start() + m.cursor_y,
                    row0 == m.cells[r as int],
                    target == m.inserted_row(row0, n as nat),
                    row0.len() >= cols,
                    cols == m.cols,
                    cx == m.cursor_x,
                    blank == m.pen_cell(),
                    cols + n <= usize::MAX,
                    self.cells@.len() == m.cells.len(),
                    self.cells@[r as int]@ == merge_from(row0, target, i as int, cols as int),
                    self@ == (GridModel { cells: m.cells.update(r as int, merge_from(row0, target, i as int, cols as int)), ..m }),
                decreases i - cx,
            {
                i -= 1;
                let ghost prev = self.cells@;
                if i >= cx + n {
                    let v = self.cells[r][i - n];
                    assert(v == target[i as int]);
                    self.cells[r][i] = v;
                } else {
                    self.cells[r][i] = blank;
                }
                assert(self@.cells == rows_view(prev).update(r as int, rows_view(prev)[r as int].update(i as int, target[i as int])));
                assert(merge_from(row0, target, i as int, cols as int) =~= merge_from(row0, target, i + 1, cols as int).update(i as int, target[i as int]));
                assert(m.cells.update(r as int, merge_from(row0, target, i + 1, cols as int)).update(r as int, merge_from(row0, target, i as int, cols as int))
                    =~= m.cells.update(r as int, merge_from(row0, target, i as int, cols as int)));
            }
            assert(merge_from(row0, target, cx as int, cols as int) =~= target);
        } else {
            assert(m.edit_cursor_row(m.inserted_row(m.cursor_row(), n as nat)) == m);
        }
    }

    /// Scrolls the screen up `n` lines (`S`).
    fn scroll_up_lines(&mut self, n: usize)
        requires
            old(self)@.scroll_up_ok(),
        ensures
            final(self)@ == old(self)@.scroll_up_n(n as nat),
    {
        let mut k: usize = 0;
        while k < n
            invariant
                k <= n,
                self@ == old(self)@.scroll_up_n(k as nat),
                self@.scroll_up_ok(),
            decreases n - k,
        {
            self.scroll_up();
            k += 1;
        }
    }

    /// Scrolls the screen down `n` lines (`T`): blank lines enter at the top
    /// of the live screen, and the last line is dropped whenever the history
    /// exceeds `rows + max_scrollback`.
    fn scroll_down_lines(&mut self, n: usize)
        requires
            old(self)@.scroll_up_ok(),
        ensures
            final(self)@ == (GridModel { cells: old(self)@.scroll_down_cells(n as nat), ..old(self)@ }),
    {
        let ghost m = self@;
        let live_start = self.cells.len().saturating_sub(self.rows);
        let mut k: usize = 0;
        while k < n
            invariant
                k <= n,
                live_start == m.live_start(),
                live_start <= self.cells@.len(),
                m.scroll_up_ok(),
                self@ == (GridModel { cells: m.scroll_down_steps(live_start as int, k as nat), ..m }),
            decreases n - k,
        {
            let ghost prev = self@.cells;
            let new_row = vec![self.current_cell(); self.cols];
            assert(new_row@ =~= blank_row(m.pen_cell(), m.cols));
            self.cells.insert(live_start, new_row);
            assert(rows_view(self.cells@) =~= prev.insert(live_start as int, blank_row(m.pen_cell(), m.cols)));
            if self.cells.len() > self.rows + self.max_scrollback {
                let ghost ins = self.cells@;
                self.cells.pop();
                assert(rows_view(self.cells@) =~= rows_view(ins).drop_last());
            }
            k += 1;
        }
        proof {
            m.lemma_scroll_down_steps(n as nat);
        }
    }

    /// Applies the CSI sequence with parameters `params` and final character
    /// `action`: cursor motion (`A B C D E F G H f`), erasing (`J K`), SGR
    /// (`m`), deleting and inserting characters (`P @`) and scrolling
    /// (`S T`); other sequences are ignored. The cursor is then clamped to
    /// the screen.
    pub fn apply_csi(&mut self, params: &[u16], action: char)
        requires
            old(self)@.csi_ok(params@, action),
        ensures
            final(self)@ == old(self)@.csi(params@, action),
    {
        let p0: u16 = if params.len() > 0 { params[0] } else { 0 };
        let n: usize = if p0 > 1 { p0 as usize } else { 1 };
        if action == 'A' {
            self.cursor_y = self.cursor_y.saturating_sub(n);
        } else if action == 'B' {
            let y = self.cursor_y + n;
            self.cursor_y = if y < self.rows - 1 { y } else { self.rows - 1 };
        } else if action == 'C' {
            let x = self.cursor_x + n;
            self.cursor_x = if x < self.cols - 1 { x } else { self.cols - 1 };
        } else if action == 'D' {
            self.cursor_x = self.cursor_x.saturating_sub(n);
        } else if action == 'H' || action == 'f' {
            let row = p0.saturating_sub(1) as usize;
            let p1: u16 = if params.len() > 1 { params[1] } else { 1 };
            let col = p1.saturating_sub(1) as usize;
            self.cursor_y = if row < self.rows - 1 { row } else { self.rows - 1 };
            self.cursor_x = if col < self.cols - 1 { col } else { self.cols - 1 };
        } else if action == 'J' {
            self.erase_display(p0);
        } else if action == 'K' {
            self.erase_line(p0);
        } else if action == 'm' {
            self.apply_sgr(params);
        } else if action == 'E' {
            self.cursor_x = 0;
            let y = self.cursor_y + n;
            self.cursor_y = if y < self.rows - 1 { y } else { self.rows - 1 };
        } else if action == 'F' {
            self.cursor_x = 0;
            self.cursor_y = self.cursor_y.saturating_sub(n);
        } else if action == 'G' {
            let col = p0.saturating_sub(1) as usize;
            self.cursor_x = if col < self.cols - 1 { col } else { self.cols - 1 };
        } else if action == 'P' {
            self.delete_chars(n);
        } else if action == 'S' {
            self.scroll_up_lines(n);
        } else if action == 'T' {
            self.scroll_down_lines(n);
        } else if action == '@' {
            self.insert_blanks(n);
        }
        self.clamp_cursor();
    }

    /// Resize the visible grid. Extends rows with blank lines, trims if smaller.
    pub fn resize(&mut self, new_cols: usize, new_rows: usize)
        ensures
            final(self)@ == old(self)@.resize(new_cols as nat, new_rows as nat),
    {
        broadcast use lemma_rows_view_update;
        let ghost m = self@;
        let d = Cell { c: ' ', fg: self.default_fg, bg: self.default_bg, bold: false };
        let ghost len0 = m.cells.len();
        let ghost target = m.resize(new_cols as nat, new_rows as nat).cells;
        // The lines as they stand before each line is resized.
        let ghost ext = m.cells + Seq::new(sat_sub(new_rows as int, len0 as int), |_r: int| blank_row(d, new_cols as nat));
        assert(ext.subrange(0, len0 as int) =~= m.cells);
        assert(rows_view(self.cells@) =~= ext.subrange(0, len0 as int));
        while self.cells.len() < new_rows
            invariant
                ext.len() == if len0 < new_rows { new_rows as int } else { len0 as int },
                ext == m.cells + Seq::new(sat_sub(new_rows as int, len0 as int), |_r: int| blank_row(d, new_cols as nat)),
                len0 == m.cells.len(),
                len0 <= self.cells@.len() <= if len0 < new_rows { new_rows as int } else { len0 as int },
                d == m.default_cell(),
                self@ == (GridModel { cells: ext.subrange(0, self.cells@.len() as int), ..m }),
            decreases new_rows - self.cells@.len(),
        {
            let row = vec![d; new_cols];
            assert(row@ =~= blank_row(d, new_cols as nat));
            let ghost prev = self.cells@;
            self.cells.push(row);
            assert(ext[prev.len() as int] == blank_row(d, new_cols as nat));
            assert(rows_view(self.cells@) =~= ext.subrange(0, self.cells@.len() as int));
        }
        assert(ext.subrange(0, self.cells@.len() as int) =~= ext);
        let mut r: usize = 0;
        while r < self.cells.len()
            invariant
                r <= self.cells@.len(),
                self.cells@.len() == ext.len(),
                ext.len() == target.len(),
                d == m.default_cell(),
                forall|k: int| 0 <= k < r ==> #[trigger] rows_view(self.cells@)[k] == target[k],
                forall|k: int| r <= k < ext.len() ==> #[trigger] rows_view(self.cells@)[k] == ext[k],
                self.cols == m.cols,
                self.rows == m.rows,
                self.cursor_x == m.cursor_x,
                self.cursor_y == m.cursor_y,
                self.scroll_offset == m.scroll_offset,
                self.max_scrollback == m.max_scrollback,
                self.default_fg == m.default_fg,
                self.default_bg == m.default_bg,
                self.cur_fg == m.cur_fg,
                self.cur_bg == m.cur_bg,
                self.cur_bold == m.cur_bold,
                target == m.resize(new_cols as nat, new_rows as nat).cells,
                len0 == m.cells.len(),
                ext == m.cells + Seq::new(sat_sub(new_rows as int, len0 as int), |_r: int| blank_row(d, new_cols as nat)),
            decreases self.cells@.len() - r,
        {
            let ghost prev = self.cells@;
            let ghost old_row = prev[r as int]@;
            assert(rows_view(prev)[r as int] == old_row);
            assert(old_row == ext[r as int]);
            self.cells[r].resize(new_cols, d);
            proof {
                if r < len0 {
                    assert(ext[r as int] == m.cells[r as int]);
                    assert(forall|i: int| old_row.len() <= i < new_cols ==> self.cells@[r as int]@[i] == d);
                } else {
                    assert(ext[r as int] == blank_row(d, new_cols as nat));
                }
            }
            assert(self.cells@[r as int]@ =~= target[r as int]);
            assert(rows_view(self.cells@) == rows_view(prev).update(r as int, self.cells@[r as int]@));
            r += 1;
        }
        assert(rows_view(self.cells@) =~= target);
        let last_col = new_cols.saturating_sub(1);
        let last_row = new_rows.saturating_sub(1);
        self.cursor_x = if self.cursor_x < last_col { self.cursor_x } else { last_col };
        self.cursor_y = if self.cursor_y < last_row { self.cursor_y } else { last_row };
        self.cols = new_cols;
        self.rows = new_rows;
    }

    /// The CSI sequence with parameter list `params` (as handed over by the
    /// `vte` parser) and final character `action`, applied to the grid: the
    /// first value of each parameter is what the actions read.
    pub fn csi_dispatch(&mut self, params: &vte::Params, _intermediates: &[u8], _ignore: bool, action: char)
        requires
            old(self)@.csi_ok(first_values(params_groups(*params)), action),
        ensures
            final(self)@ == old(self)@.csi(first_values(params_groups(*params)), action),
    {
        let ps = param_values(params);
        self.apply_csi(ps.as_slice(), action);
    }

    /// Like `csi_dispatch`, for any grid: the sequence is applied when it can
    /// run without overflow or an index out of bounds, and the grid is left
    /// unchanged (and `false` returned) where it cannot.
    pub fn csi_dispatch_checked(&mut self, params: &vte::Params, intermediates: &[u8], ignore: bool, action: char) -> (applied: bool)
        ensures
            applied == old(self)@.csi_ok(first_values(params_groups(*params)), action),
            applied ==> final(self)@ == old(self)@.csi(first_values(params_groups(*params)), action),
            !applied ==> final(self)@ == old(self)@,
    {
        let ps = param_values(params);
        if self.can_apply_csi(ps.as_slice(), action) {
            self.apply_csi(ps.as_slice(), action);
            true
        } else {
            false
        }
    }

    /// Whether the CSI sequence can be applied without overflow, underflow or
    /// an index out of bounds.
    pub fn can_apply_csi(&self, params: &[u16], action: char) -> (ok: bool)
        ensures
            ok == self@.csi_ok(params@, action),
    {
        let p0: u16 = if params.len() > 0 { params[0] } else { 0 };
        let n: usize = if p0 > 1 { p0 as usize } else { 1 };
        let ls = self.cells.len().saturating_sub(self.rows);
        if action == 'B' || action == 'E' {
            self.rows >= 1 && self.cursor_y.checked_add(n).is_some()
        } else if action == 'C' {
            self.cols >= 1 && self.cursor_x.checked_add(n).is_some()
        } else if action == 'H' || action == 'f' {
            self.rows >= 1 && self.cols >= 1
        } else if action == 'G' {
            self.cols >= 1
        } else if action == 'J' {
            let line = ls.checked_add(self.cursor_y);
            if p0 == 0 {
                match line {
                    Some(r) => r.checked_add(1).is_some(),
                    None => false,
                }
            } else if p0 == 1 {
                line.is_some() && self.cols >= 1
            } else {
                true
            }
        } else if action == 'K' {
            ls.checked_add(self.cursor_y).is_some() && (p0 != 1 || self.cols >= 1)
        } else if action == 'P' || action == '@' {
            match ls.checked_add(self.cursor_y) {
                None => false,
                Some(r) => {
                    if r < self.cells.len() && self.cursor_x < self.cols {
                        self.cells[r].len() >= self.cols && self.cols.checked_add(n).is_some()
                    } else {
                        true
                    }
                },
            }
        } else if action == 'S' || action == 'T' {
            self.rows.checked_add(self.max_scrollback).is_some()
        } else {
            true
        }
    }

    /// Whether `print` can run without overflow or underflow.
    pub fn can_print(&self) -> (ok: bool)
        ensures
            ok == self@.print_ok(),
    {
        let ls = self.cells.len().saturating_sub(self.rows);
        if ls.checked_add(self.cursor_y).is_none() || self.cursor_x == usize::MAX {
            return false;
        }
        if self.cursor_x + 1 >= self.cols {
            if self.cursor_y == usize::MAX {
                return false;
            }
            if self.cursor_y + 1 >= self.rows {
                return self.rows >= 1 && self.rows.checked_add(self.max_scrollback).is_some();
            }
        }
        true
    }

    /// Whether `execute(byte)` can run without overflow or underflow.
    pub fn can_execute(&self, byte: u8) -> (ok: bool)
        ensures
            ok == self@.execute_ok(byte),
    {
        if byte == 0x0a {
            if self.cursor_y == usize::MAX {
                return false;
            }
            if self.cursor_y + 1 >= self.rows {
                return self.rows >= 1 && self.rows.checked_add(self.max_scrollback).is_some();
            }
            true
        } else if byte == 0x09 {
            self.cols >= 1 && (self.cursor_x / 8 + 1).checked_mul(8).is_some()
        } else {
            true
        }
    }

    /// The cells of one frame, line by line from the first visible line:
    /// what the renderer draws.
    pub fn draw_list(&self) -> (cells: Vec<CellDraw>)
        ensures
            cells@ == self@.draw_list(),
    {
        let ghost m = self@;
        let visible_start = self.visible_start();
        let total = self.cells.len();
        let avail = total - visible_start;
        let rows_to_render = if self.rows < avail { self.rows } else { avail };
        let mut out: Vec<CellDraw> = Vec::new();
        let mut row: usize = 0;
        while row < rows_to_render
            invariant
                m == self@,
                visible_start == m.visible_start(),
                rows_to_render == m.rows_to_draw(),
                total == self.cells@.len(),
                visible_start + rows_to_render <= total,
                row <= rows_to_render,
                out@ == m.draw_lines(row as nat),
            decreases rows_to_render - row,
        {
            let abs_row = visible_start + row;
            let cell_row = &self.cells[abs_row];
            let width = if self.cols < cell_row.len() { self.cols } else { cell_row.len() };
            assert(rows_view(self.cells@)[abs_row as int] == cell_row@);
            let ghost base = out@;
            let mut col: usize = 0;
            while col < width
                invariant
                    m == self@,
                    visible_start == m.visible_start(),
                    abs_row == visible_start + row,
                    abs_row < self.cells@.len(),
                    cell_row@ == m.cells[abs_row as int],
                    width == m.draw_width(row as int),
                    width <= cell_row@.len(),
                    col <= width,
                    out@ == base + m.draw_line(row as int).subrange(0, col as int),
                decreases width - col,
            {
                let cell = cell_row[col];
                let inverted = row == self.cursor_y && col == self.cursor_x && self.scroll_offset == 0;
                let (fg, bg) = if inverted { (cell.bg, cell.fg) } else { (cell.fg, cell.bg) };
                out.push(CellDraw { row, col, c: cell.c, fg, bg });
                assert(m.draw_line(row as int).subrange(0, col + 1) =~= m.draw_line(row as int).subrange(0, col as int).push(m.draw_cell(row as int, col as int)));
                col += 1;
            }
            assert(m.draw_line(row as int).subrange(0, width as int) =~= m.draw_line(row as int));
            row += 1;
        }
        out
    }
}

} // verus!
