//! The mathematical model of the terminal grid and of every action that
//! edits it. Executable operations in `terminal` are specified by these
//! transitions.

use vstd::prelude::*;

use crate::colors::{ansi_16, ansi_256};
use crate::terminal::{Cell, CellDraw};

verus! {

/// `a - b`, or 0 where that is negative (`usize::saturating_sub`).
pub open spec fn sat_sub(a: int, b: int) -> nat {
    if a > b { (a - b) as nat } else { 0 }
}

/// The smaller of two integers.
pub open spec fn min_int(a: int, b: int) -> int {
    if a <= b { a } else { b }
}

/// A row of `n` copies of `cell`.
pub open spec fn blank_row(cell: Cell, n: nat) -> Seq<Cell> {
    Seq::new(n, |_i: int| cell)
}

/// `row` with the columns in `lo..hi` replaced by `b`.
pub open spec fn fill_row(row: Seq<Cell>, lo: int, hi: int, b: Cell) -> Seq<Cell> {
    Seq::new(row.len(), |x: int| if lo <= x && x < hi { b } else { row[x] })
}

/// `cells` with the columns `x_lo..x_hi` of the rows `r_lo..r_hi` replaced by `b`
/// (only where those rows and columns exist).
pub open spec fn fill_rect(cells: Seq<Seq<Cell>>, r_lo: int, r_hi: int, x_lo: int, x_hi: int, b: Cell) -> Seq<Seq<Cell>> {
    Seq::new(cells.len(), |r: int| if r_lo <= r && r < r_hi { fill_row(cells[r], x_lo, x_hi, b) } else { cells[r] })
}

/// `row` cut or padded with `pad` to exactly `n` columns.
pub open spec fn resize_row(row: Seq<Cell>, n: nat, pad: Cell) -> Seq<Cell> {
    Seq::new(n, |i: int| if i < row.len() { row[i] } else { pad })
}

/// The state of a terminal grid.
pub ghost struct GridModel {
    pub cols: nat,
    pub rows: nat,
    /// All lines, oldest first; the live screen is the last `rows` of them.
    pub cells: Seq<Seq<Cell>>,
    pub cursor_x: nat,
    pub cursor_y: nat,
    pub scroll_offset: nat,
    pub max_scrollback: nat,
    pub default_fg: [u8; 3],
    pub default_bg: [u8; 3],
    pub cur_fg: [u8; 3],
    pub cur_bg: [u8; 3],
    pub cur_bold: bool,
}

impl GridModel {
    /// Index in `cells` of the first line of the live screen.
    pub open spec fn live_start(self) -> nat {
        sat_sub(self.cells.len() as int, self.rows as int)
    }

    /// Index in `cells` of the first line shown, after scrolling back.
    pub open spec fn visible_start(self) -> nat {
        sat_sub(self.live_start() as int, self.scroll_offset as int)
    }

    /// The largest scroll-back offset: the number of history lines above the screen.
    pub open spec fn max_offset(self) -> nat {
        sat_sub(self.cells.len() as int, self.rows as int)
    }

    /// A blank cell in the current colours and weight.
    pub open spec fn pen_cell(self) -> Cell {
        Cell { c: ' ', fg: self.cur_fg, bg: self.cur_bg, bold: self.cur_bold }
    }

    /// A blank cell in the default colours.
    pub open spec fn default_cell(self) -> Cell {
        Cell { c: ' ', fg: self.default_fg, bg: self.default_bg, bold: false }
    }

    /// Every line has exactly `cols` cells.
    pub open spec fn rows_have_width(self) -> bool {
        forall|r: int| 0 <= r < self.cells.len() ==> #[trigger] self.cells[r].len() == self.cols
    }

    /// The history holds at most `rows + max_scrollback` lines.
    pub open spec fn history_bounded(self) -> bool {
        self.cells.len() <= self.rows + self.max_scrollback
    }

    /// The cursor lies on the screen.
    pub open spec fn cursor_on_screen(self) -> bool {
        self.cursor_x < self.cols && self.cursor_y < self.rows
    }

    /// The shape that every operation of the grid keeps: a non-empty screen,
    /// lines of `cols` cells, at least a screenful of lines, and the cursor
    /// on the screen.
    pub open spec fn well_shaped(self) -> bool {
        &&& 1 <= self.cols <= usize::MAX
        &&& self.rows >= 1
        &&& self.rows_have_width()
        &&& self.rows <= self.cells.len() <= usize::MAX
        &&& self.cursor_on_screen()
    }

    // ── Scrolling ────────────────────────────────────────────────────

    /// `scroll_up` can run without overflow.
    pub open spec fn scroll_up_ok(self) -> bool {
        self.rows + self.max_scrollback <= usize::MAX
    }

    /// A line of blank cells in the current colours is appended; the oldest
    /// line is dropped once the history exceeds `rows + max_scrollback`.
    pub open spec fn scroll_up(self) -> GridModel {
        let pushed = self.cells.push(blank_row(self.pen_cell(), self.cols));
        GridModel {
            cells: if pushed.len() > self.rows + self.max_scrollback { pushed.drop_first() } else { pushed },
            ..self
        }
    }

    /// `scroll_up` done `n` times.
    pub open spec fn scroll_up_n(self, n: nat) -> GridModel
        decreases n,
    {
        if n == 0 { self } else { self.scroll_up_n((n - 1) as nat).scroll_up() }
    }

    /// The lines after `k` steps of scrolling down at index `at`: each step
    /// inserts a blank line in the current colours at `at`, then drops the
    /// last line when the history exceeds `rows + max_scrollback`.
    pub open spec fn scroll_down_steps(self, at: int, k: nat) -> Seq<Seq<Cell>>
        decreases k,
    {
        if k == 0 {
            self.cells
        } else {
            let prev = self.scroll_down_steps(at, (k - 1) as nat);
            let ins = prev.insert(at, blank_row(self.pen_cell(), self.cols));
            if ins.len() > self.rows + self.max_scrollback { ins.drop_last() } else { ins }
        }
    }

    /// Scroll Down by `n` lines: `n` blank lines in the current colours enter
    /// at the top of the live screen, ahead of its lines. The history grows
    /// by those lines until it holds `rows + max_scrollback` of them; past
    /// that bound the last lines are dropped, and a history already longer
    /// keeps its length.
    pub open spec fn scroll_down_cells(self, n: nat) -> Seq<Seq<Cell>> {
        let ls = self.live_start() as int;
        let len = self.cells.len() as int;
        let bound = (self.rows + self.max_scrollback) as int;
        let keep = min_int(if len >= bound { len } else { bound }, len + n);
        (self.cells.subrange(0, ls) + Seq::new(n, |_i: int| blank_row(self.pen_cell(), self.cols))
            + self.cells.subrange(ls, len)).take(keep)
    }

    /// Stepwise scrolling down at the top of the live screen gives `scroll_down_cells`.
    pub proof fn lemma_scroll_down_steps(self, k: nat)
        ensures
            self.scroll_down_steps(self.live_start() as int, k) == self.scroll_down_cells(k),
        decreases k,
    {
        let ls = self.live_start() as int;
        let len = self.cells.len() as int;
        let bound = (self.rows + self.max_scrollback) as int;
        let b = blank_row(self.pen_cell(), self.cols);
        let pre = self.cells.subrange(0, ls);
        let post = self.cells.subrange(ls, len);
        if k == 0 {
            assert(self.scroll_down_cells(0) =~= self.cells);
        } else {
            self.lemma_scroll_down_steps((k - 1) as nat);
            let c = self.scroll_down_cells((k - 1) as nat);
            let keep0 = min_int(if len >= bound { len } else { bound }, len + k - 1);
            let keep1 = min_int(if len >= bound { len } else { bound }, len + k);
            let all0 = pre + Seq::new((k - 1) as nat, |_i: int| b) + post;
            let all1 = pre + Seq::new(k, |_i: int| b) + post;
            assert(all1 =~= all0.insert(ls, b));
            let ins = c.insert(ls, b);
            assert(ins =~= all1.take(keep0 + 1));
            if ins.len() > bound {
                assert(keep1 == keep0);
                assert(ins.drop_last() =~= all1.take(keep1));
            } else {
                assert(keep1 == keep0 + 1);
            }
        }
    }

    // ── Cursor ───────────────────────────────────────────────────────

    /// `advance_cursor` can run without overflow or underflow.
    pub open spec fn advance_ok(self) -> bool {
        &&& self.cursor_x < usize::MAX
        &&& self.cursor_x + 1 >= self.cols ==> {
            &&& self.cursor_y < usize::MAX
            &&& self.cursor_y + 1 >= self.rows ==> self.rows >= 1 && self.scroll_up_ok()
        }
    }

    /// Moves the cursor one column right, wrapping to the start of the next
    /// line and scrolling when it leaves the last line.
    pub open spec fn advance_cursor(self) -> GridModel {
        if self.cursor_x + 1 >= self.cols {
            if self.cursor_y + 1 >= self.rows {
                GridModel { cursor_x: 0, cursor_y: (self.rows - 1) as nat, ..self }.scroll_up()
            } else {
                GridModel { cursor_x: 0, cursor_y: self.cursor_y + 1, ..self }
            }
        } else {
            GridModel { cursor_x: self.cursor_x + 1, ..self }
        }
    }

    /// Brings a cursor coordinate that lies beyond the screen back to its last column or line.
    pub open spec fn clamp_cursor(self) -> GridModel {
        GridModel {
            cursor_x: if self.cursor_x >= self.cols { sat_sub(self.cols as int, 1) } else { self.cursor_x },
            cursor_y: if self.cursor_y >= self.rows { sat_sub(self.rows as int, 1) } else { self.cursor_y },
            ..self
        }
    }

    // ── Printing and control characters ──────────────────────────────

    /// `cells` with cell `col` of screen line `row` set to `cell`, where that cell exists.
    pub open spec fn write_visible(self, row: int, col: int, cell: Cell) -> GridModel {
        let r = self.live_start() + row;
        if 0 <= r < self.cells.len() && 0 <= col < self.cells[r].len() {
            GridModel { cells: self.cells.update(r, self.cells[r].update(col, cell)), ..self }
        } else {
            self
        }
    }

    /// `print` can run without overflow or underflow.
    pub open spec fn print_ok(self) -> bool {
        &&& self.live_start() + self.cursor_y <= usize::MAX
        &&& self.advance_ok()
    }

    /// Writes `c` in the current colours at the cursor, then advances the cursor.
    pub open spec fn print(self, c: char) -> GridModel {
        self.write_visible(
            self.cursor_y as int,
            self.cursor_x as int,
            Cell { c: c, fg: self.cur_fg, bg: self.cur_bg, bold: self.cur_bold },
        ).advance_cursor()
    }

    /// `execute` can run without overflow or underflow.
    pub open spec fn execute_ok(self, byte: u8) -> bool {
        &&& byte == 0x0a ==> {
            &&& self.cursor_y < usize::MAX
            &&& self.cursor_y + 1 >= self.rows ==> self.rows >= 1 && self.scroll_up_ok()
        }
        &&& byte == 0x09 ==> self.cols >= 1 && (self.cursor_x / 8 + 1) * 8 <= usize::MAX
    }

    /// The effect of a C0 control byte: line feed, carriage return, tab
    /// (next multiple of 8, at most the last column) and backspace; other
    /// bytes change nothing.
    pub open spec fn execute(self, byte: u8) -> GridModel {
        if byte == 0x0a {
            if self.cursor_y + 1 >= self.rows {
                GridModel { cursor_y: (self.rows - 1) as nat, ..self }.scroll_up()
            } else {
                GridModel { cursor_y: self.cursor_y + 1, ..self }
            }
        } else if byte == 0x0d {
            GridModel { cursor_x: 0, ..self }
        } else if byte == 0x09 {
            GridModel {
                cursor_x: min_int(((self.cursor_x / 8 + 1) * 8) as int, self.cols - 1) as nat,
                ..self
            }
        } else if byte == 0x08 {
            GridModel { cursor_x: sat_sub(self.cursor_x as int, 1), ..self }
        } else {
            self
        }
    }

    // ── SGR ──────────────────────────────────────────────────────────

    /// Current colours and weight reset to the defaults.
    pub open spec fn sgr_reset(self) -> GridModel {
        GridModel { cur_fg: self.default_fg, cur_bg: self.default_bg, cur_bold: false, ..self }
    }

    /// The effect of the SGR parameter at index `i`, and the index of the
    /// last parameter it consumed.
    pub open spec fn sgr_at(self, ps: Seq<u16>, i: int) -> (GridModel, int) {
        let p = ps[i] as int;
        if p == 0 {
            (self.sgr_reset(), i)
        } else if p == 1 {
            (GridModel { cur_bold: true, ..self }, i)
        } else if p == 22 {
            (GridModel { cur_bold: false, ..self }, i)
        } else if 30 <= p <= 37 {
            (GridModel { cur_fg: ansi_16(p - 30), ..self }, i)
        } else if p == 38 || p == 48 {
            if i + 1 < ps.len() && ps[i + 1] == 2 {
                if i + 4 < ps.len() {
                    let rgb: [u8; 3] = [ps[i + 2] as u8, ps[i + 3] as u8, ps[i + 4] as u8];
                    if p == 38 {
                        (GridModel { cur_fg: rgb, ..self }, i + 4)
                    } else {
                        (GridModel { cur_bg: rgb, ..self }, i + 4)
                    }
                } else {
                    (self, i)
                }
            } else if i + 1 < ps.len() && ps[i + 1] == 5 {
                if i + 2 < ps.len() {
                    let rgb = ansi_256(ps[i + 2] as int);
                    if p == 38 {
                        (GridModel { cur_fg: rgb, ..self }, i + 2)
                    } else {
                        (GridModel { cur_bg: rgb, ..self }, i + 2)
                    }
                } else {
                    (self, i)
                }
            } else {
                (self, i)
            }
        } else if p == 39 {
            (GridModel { cur_fg: self.default_fg, ..self }, i)
        } else if 40 <= p <= 47 {
            (GridModel { cur_bg: ansi_16(p - 40), ..self }, i)
        } else if p == 49 {
            (GridModel { cur_bg: self.default_bg, ..self }, i)
        } else if 90 <= p <= 97 {
            (GridModel { cur_fg: ansi_16(p - 90 + 8), ..self }, i)
        } else if 100 <= p <= 107 {
            (GridModel { cur_bg: ansi_16(p - 100 + 8), ..self }, i)
        } else {
            (self, i)
        }
    }

    /// The SGR parameters from index `i` on, applied left to right.
    pub open spec fn sgr_from(self, ps: Seq<u16>, i: int) -> GridModel
        decreases ps.len() - i,
    {
        if i < 0 || i >= ps.len() {
            self
        } else {
            let (m, j) = self.sgr_at(ps, i);
            if j < i { m } else { m.sgr_from(ps, j + 1) }
        }
    }

    /// Select Graphic Rendition: an empty list resets the colours and weight.
    pub open spec fn apply_sgr(self, ps: Seq<u16>) -> GridModel {
        if ps.len() == 0 { self.sgr_reset() } else { self.sgr_from(ps, 0) }
    }

    // ── CSI ──────────────────────────────────────────────────────────

    /// The first parameter, 0 when there is none.
    pub open spec fn param0(ps: Seq<u16>) -> int {
        if ps.len() > 0 { ps[0] as int } else { 0 }
    }

    /// The first parameter, at least 1 (a repeat count).
    pub open spec fn count(ps: Seq<u16>) -> nat {
        let p0 = Self::param0(ps);
        if p0 > 1 { p0 as nat } else { 1 }
    }

    /// Erase in Display with mode `mode`.
    pub open spec fn erase_display(self, mode: int) -> GridModel {
        let ls = self.live_start() as int;
        let cx = self.cursor_x as int;
        let cy = self.cursor_y as int;
        let b = self.pen_cell();
        if mode == 0 {
            GridModel {
                cells: fill_rect(
                    fill_rect(self.cells, ls + cy, ls + cy + 1, cx, self.cols as int, b),
                    ls + cy + 1, ls + self.rows, 0, self.cols as int, b),
                ..self
            }
        } else if mode == 1 {
            GridModel {
                cells: fill_rect(
                    fill_rect(self.cells, ls, ls + cy, 0, self.cols as int, b),
                    ls + cy, ls + cy + 1, 0, min_int(cx, self.cols - 1) + 1, b),
                ..self
            }
        } else if mode == 2 || mode == 3 {
            let erased = GridModel {
                cells: fill_rect(self.cells, ls, ls + self.rows, 0, self.cols as int, b),
                ..self
            };
            if mode == 2 { GridModel { cursor_x: 0, cursor_y: 0, ..erased } } else { erased }
        } else {
            self
        }
    }

    /// Erase in Line with mode `mode`.
    pub open spec fn erase_line(self, mode: int) -> GridModel {
        let r = (self.live_start() + self.cursor_y) as int;
        let cx = self.cursor_x as int;
        let b = self.pen_cell();
        if mode == 0 {
            GridModel { cells: fill_rect(self.cells, r, r + 1, cx, self.cols as int, b), ..self }
        } else if mode == 1 {
            GridModel { cells: fill_rect(self.cells, r, r + 1, 0, min_int(cx, self.cols - 1) + 1, b), ..self }
        } else if mode == 2 {
            GridModel { cells: fill_rect(self.cells, r, r + 1, 0, self.cols as int, b), ..self }
        } else {
            self
        }
    }

    /// The cursor line after deleting `n` characters at the cursor: the rest
    /// of the line shifts left and blanks enter at the right margin.
    pub open spec fn deleted_row(self, row: Seq<Cell>, n: nat) -> Seq<Cell> {
        let cx = self.cursor_x as int;
        let cols = self.cols as int;
        Seq::new(row.len(), |i: int|
            if cx <= i && i < cols { if i + n < cols { row[i + n] } else { self.pen_cell() } } else { row[i] })
    }

    /// The cursor line after inserting `n` blanks at the cursor: the rest of
    /// the line shifts right and cells pushed past the right margin are lost.
    pub open spec fn inserted_row(self, row: Seq<Cell>, n: nat) -> Seq<Cell> {
        let cx = self.cursor_x as int;
        let cols = self.cols as int;
        Seq::new(row.len(), |i: int|
            if cx <= i && i < cols { if i >= cx + n { row[i - n] } else { self.pen_cell() } } else { row[i] })
    }

    /// Applies `f` to the cursor line, where that line exists.
    pub open spec fn edit_cursor_row(self, new_row: Seq<Cell>) -> GridModel {
        let r = (self.live_start() + self.cursor_y) as int;
        if r < self.cells.len() {
            GridModel { cells: self.cells.update(r, new_row), ..self }
        } else {
            self
        }
    }

    /// The cursor line, where it exists.
    pub open spec fn cursor_row(self) -> Seq<Cell> {
        self.cells[(self.live_start() + self.cursor_y) as int]
    }

    /// The line editing of `P` and `@` can run: the cursor line is at least
    /// `cols` wide and the shifted indices fit in `usize`.
    pub open spec fn row_edit_ok(self, n: nat) -> bool {
        let r = self.live_start() + self.cursor_y;
        &&& r <= usize::MAX
        &&& (r < self.cells.len() && self.cursor_x < self.cols) ==> {
            &&& self.cursor_row().len() >= self.cols
            &&& self.cols + n <= usize::MAX
        }
    }

    /// The action of a CSI sequence with parameters `ps` and final character
    /// `action`, before the cursor is clamped to the screen.
    pub open spec fn csi_action(self, ps: Seq<u16>, action: char) -> GridModel {
        let p0 = Self::param0(ps);
        let n = Self::count(ps);
        if action == 'A' {
            GridModel { cursor_y: sat_sub(self.cursor_y as int, n as int), ..self }
        } else if action == 'B' {
            GridModel { cursor_y: min_int((self.cursor_y + n) as int, self.rows - 1) as nat, ..self }
        } else if action == 'C' {
            GridModel { cursor_x: min_int((self.cursor_x + n) as int, self.cols - 1) as nat, ..self }
        } else if action == 'D' {
            GridModel { cursor_x: sat_sub(self.cursor_x as int, n as int), ..self }
        } else if action == 'H' || action == 'f' {
            let row = sat_sub(p0, 1) as int;
            let col = sat_sub(if ps.len() > 1 { ps[1] as int } else { 1 }, 1) as int;
            GridModel {
                cursor_y: min_int(row, self.rows - 1) as nat,
                cursor_x: min_int(col, self.cols - 1) as nat,
                ..self
            }
        } else if action == 'J' {
            self.erase_display(p0)
        } else if action == 'K' {
            self.erase_line(p0)
        } else if action == 'm' {
            self.apply_sgr(ps)
        } else if action == 'E' {
            GridModel { cursor_x: 0, cursor_y: min_int((self.cursor_y + n) as int, self.rows - 1) as nat, ..self }
        } else if action == 'F' {
            GridModel { cursor_x: 0, cursor_y: sat_sub(self.cursor_y as int, n as int), ..self }
        } else if action == 'G' {
            GridModel { cursor_x: min_int(sat_sub(p0, 1) as int, self.cols - 1) as nat, ..self }
        } else if action == 'P' {
            self.edit_cursor_row(self.deleted_row(self.cursor_row(), n))
        } else if action == 'S' {
            self.scroll_up_n(n)
        } else if action == 'T' {
            GridModel { cells: self.scroll_down_cells(n), ..self }
        } else if action == '@' {
            self.edit_cursor_row(self.inserted_row(self.cursor_row(), n))
        } else {
            self
        }
    }

    /// A CSI sequence: its action, then the cursor clamped to the screen.
    pub open spec fn csi(self, ps: Seq<u16>, action: char) -> GridModel {
        self.csi_action(ps, action).clamp_cursor()
    }

    /// The CSI sequence can run without overflow, underflow or an index out of bounds.
    pub open spec fn csi_ok(self, ps: Seq<u16>, action: char) -> bool {
        let p0 = Self::param0(ps);
        let n = Self::count(ps);
        let ls = self.live_start();
        if action == 'B' || action == 'E' {
            self.rows >= 1 && self.cursor_y + n <= usize::MAX
        } else if action == 'C' {
            self.cols >= 1 && self.cursor_x + n <= usize::MAX
        } else if action == 'H' || action == 'f' {
            self.rows >= 1 && self.cols >= 1
        } else if action == 'G' {
            self.cols >= 1
        } else if action == 'J' {
            &&& p0 == 0 ==> ls + self.cursor_y + 1 <= usize::MAX
            &&& p0 == 1 ==> ls + self.cursor_y <= usize::MAX && self.cols >= 1
        } else if action == 'K' {
            &&& ls + self.cursor_y <= usize::MAX
            &&& p0 == 1 ==> self.cols >= 1
        } else if action == 'P' || action == '@' {
            self.row_edit_ok(n)
        } else if action == 'S' || action == 'T' {
            self.scroll_up_ok()
        } else {
            true
        }
    }

    // ── Resizing ─────────────────────────────────────────────────────

    /// The grid after resizing to `new_cols` × `new_rows`: missing lines are
    /// added blank at the end, every line is cut or padded with default
    /// blanks to `new_cols`, and the cursor is brought onto the new screen.
    pub open spec fn resize(self, new_cols: nat, new_rows: nat) -> GridModel {
        let len = self.cells.len();
        let new_len = if len < new_rows { new_rows } else { len };
        GridModel {
            cols: new_cols,
            rows: new_rows,
            cells: Seq::new(new_len, |r: int|
                if r < len { resize_row(self.cells[r], new_cols, self.default_cell()) }
                else { blank_row(self.default_cell(), new_cols) }),
            cursor_x: if self.cursor_x <= sat_sub(new_cols as int, 1) { self.cursor_x } else { sat_sub(new_cols as int, 1) },
            cursor_y: if self.cursor_y <= sat_sub(new_rows as int, 1) { self.cursor_y } else { sat_sub(new_rows as int, 1) },
            ..self
        }
    }

    // ── Viewport ─────────────────────────────────────────────────────

    /// The view scrolled by `delta` lines (positive = back into history),
    /// kept between the live screen and the oldest line. The offset is read
    /// as an `isize` (an offset above `isize::MAX` counts as negative).
    pub open spec fn scroll_view(self, delta: int) -> GridModel {
        let want = (self.scroll_offset as isize) as int + delta;
        let off = if want < 0 { 0 } else if want > self.max_offset() { self.max_offset() as int } else { want };
        GridModel { scroll_offset: off as nat, ..self }
    }

    // ── Drawing ──────────────────────────────────────────────────────

    /// The number of screen lines drawn: `rows`, or fewer when the history
    /// from the first visible line on is shorter.
    pub open spec fn rows_to_draw(self) -> nat {
        let avail = sat_sub(self.cells.len() as int, self.visible_start() as int);
        if self.rows <= avail { self.rows } else { avail }
    }

    /// Whether screen position (`row`, `col`) shows the cursor: only in the
    /// live view.
    pub open spec fn shows_cursor(self, row: int, col: int) -> bool {
        row == self.cursor_y && col == self.cursor_x && self.scroll_offset == 0
    }

    /// What is drawn at column `col` of screen line `row`: the cell's
    /// character with its colours, swapped under the cursor.
    pub open spec fn draw_cell(self, row: int, col: int) -> CellDraw {
        let cell = self.cells[self.visible_start() + row][col];
        let inverted = self.shows_cursor(row, col);
        CellDraw {
            row: row as usize,
            col: col as usize,
            c: cell.c,
            fg: if inverted { cell.bg } else { cell.fg },
            bg: if inverted { cell.fg } else { cell.bg },
        }
    }

    /// The number of cells drawn on screen line `row`: at most `cols`, and
    /// no more than the line holds.
    pub open spec fn draw_width(self, row: int) -> nat {
        let len = self.cells[self.visible_start() + row].len();
        if self.cols <= len { self.cols } else { len }
    }

    /// The cells drawn on screen line `row`, left to right.
    pub open spec fn draw_line(self, row: int) -> Seq<CellDraw> {
        Seq::new(self.draw_width(row), |col: int| self.draw_cell(row, col))
    }

    /// The cells drawn on the first `k` screen lines, line by line.
    pub open spec fn draw_lines(self, k: nat) -> Seq<CellDraw>
        decreases k,
    {
        if k == 0 { Seq::empty() } else { self.draw_lines((k - 1) as nat) + self.draw_line(k - 1) }
    }

    /// Everything drawn for one frame.
    pub open spec fn draw_list(self) -> Seq<CellDraw> {
        self.draw_lines(self.rows_to_draw())
    }
}

} // verus!
