//! Properties of the grid that hold across its operations.

use vstd::prelude::*;

use crate::model::{blank_row, fill_rect, min_int, GridModel};
use crate::colors::{ansi_16, ansi_256, cube_level};
use crate::atlas::{AtlasModel, CacheModel, ATLAS_H, ATLAS_W};
use crate::keys::ctrl_code;
use crate::session::cells_across;
use crate::terminal::{Cell, Grid};

verus! {

/// Sizes for which no cursor or line arithmetic of the grid can overflow:
/// the history bound fits in `usize`, and the screen's height and width
/// stay 65535 (the largest CSI count) below `usize::MAX`.
pub open spec fn sizes_fit(m: GridModel) -> bool {
    &&& m.scroll_up_ok()
    &&& m.rows + 65535 <= usize::MAX
    &&& m.cols + 65535 <= usize::MAX
}

/// A well-shaped grid of fitting size accepts every printable character,
/// every control byte and every CSI sequence: none of them can panic.
pub proof fn lemma_well_shaped_accepts_all(m: GridModel, c: char, byte: u8, ps: Seq<u16>, action: char)
    requires
        m.well_shaped(),
        sizes_fit(m),
    ensures
        m.print_ok(),
        m.execute_ok(byte),
        m.csi_ok(ps, action),
{
    assert(GridModel::count(ps) <= 65535);
    assert((m.cursor_x / 8 + 1) * 8 <= m.cursor_x + 8) by (nonlinear_arith);
    if m.live_start() + m.cursor_y < m.cells.len() && m.cursor_x < m.cols {
        assert(m.cursor_row().len() == m.cols);
    }
}


/// The lines of `m` have width `cols` and number between `rows` and the
/// larger of their number in `before` and the history bound.
pub open spec fn lines_ok(m: GridModel, before_len: nat) -> bool {
    &&& m.rows_have_width()
    &&& m.rows <= m.cells.len()
    &&& m.cells.len() <= if before_len >= m.rows + m.max_scrollback { before_len } else { m.rows + m.max_scrollback }
}

proof fn lemma_scroll_up_lines(m: GridModel, before_len: nat)
    requires
        lines_ok(m, before_len),
    ensures
        lines_ok(m.scroll_up(), before_len),
        m.scroll_up().cells.len() >= m.cells.len(),
        m.cells.len() <= m.rows + m.max_scrollback ==> m.scroll_up().cells.len() <= m.rows + m.max_scrollback,
{
    let s = m.scroll_up();
    let pushed = m.cells.push(blank_row(m.pen_cell(), m.cols));
    assert forall|r: int| 0 <= r < s.cells.len() implies #[trigger] s.cells[r].len() == s.cols by {
        if pushed.len() > m.rows + m.max_scrollback {
            assert(s.cells[r] == pushed[r + 1]);
        } else {
            assert(s.cells[r] == pushed[r]);
        }
    }
}

proof fn lemma_scroll_up_n_lines(m: GridModel, n: nat, before_len: nat)
    requires
        lines_ok(m, before_len),
    ensures
        lines_ok(m.scroll_up_n(n), before_len),
        m.cells.len() <= m.rows + m.max_scrollback ==> m.scroll_up_n(n).cells.len() <= m.rows + m.max_scrollback,
        m.scroll_up_n(n) == (GridModel { cells: m.scroll_up_n(n).cells, ..m }),
    decreases n,
{
    if n > 0 {
        lemma_scroll_up_n_lines(m, (n - 1) as nat, before_len);
        lemma_scroll_up_lines(m.scroll_up_n((n - 1) as nat), before_len);
    }
}

proof fn lemma_scroll_down_lines(m: GridModel, n: nat)
    requires
        m.rows_have_width(),
        m.rows <= m.cells.len(),
    ensures
        m.cells.len() <= m.scroll_down_cells(n).len(),
        m.scroll_down_cells(n).len() == min_int(
            if m.cells.len() >= m.rows + m.max_scrollback { m.cells.len() as int } else { (m.rows + m.max_scrollback) as int },
            (m.cells.len() + n) as int,
        ),
        forall|r: int| 0 <= r < m.scroll_down_cells(n).len() ==> (#[trigger] m.scroll_down_cells(n)[r]).len() == m.cols,
{
    let ls = m.live_start() as int;
    let len = m.cells.len() as int;
    let b = blank_row(m.pen_cell(), m.cols);
    let all = m.cells.subrange(0, ls) + Seq::new(n, |_i: int| b) + m.cells.subrange(ls, len);
    let c = m.scroll_down_cells(n);
    assert forall|r: int| 0 <= r < c.len() implies (#[trigger] m.scroll_down_cells(n)[r]).len() == m.cols by {
        assert(c[r] == all[r]);
        if r < ls {
            assert(all[r] == m.cells[r]);
        } else if r < ls + n {
            assert(all[r] == b);
        } else {
            assert(all[r] == m.cells[r - n]);
        }
    }
}

broadcast proof fn lemma_fill_rect_lines(cells: Seq<Seq<Cell>>, r_lo: int, r_hi: int, x_lo: int, x_hi: int, b: Cell)
    ensures
        #[trigger] fill_rect(cells, r_lo, r_hi, x_lo, x_hi, b).len() == cells.len(),
        forall|r: int| 0 <= r < cells.len() ==> #[trigger] fill_rect(cells, r_lo, r_hi, x_lo, x_hi, b)[r].len() == cells[r].len(),
{
}

proof fn lemma_advance_lines(m: GridModel, before_len: nat)
    requires
        lines_ok(m, before_len),
        m.cols >= 1,
        m.rows >= 1,
        m.cursor_on_screen(),
    ensures
        lines_ok(m.advance_cursor(), before_len),
        m.advance_cursor().cursor_on_screen(),
        m.advance_cursor().cols == m.cols,
        m.advance_cursor().rows == m.rows,
        m.cells.len() <= m.rows + m.max_scrollback ==> m.advance_cursor().cells.len() <= m.rows + m.max_scrollback,
{
    if m.cursor_x + 1 >= m.cols && m.cursor_y + 1 >= m.rows {
        lemma_scroll_up_lines(GridModel { cursor_x: 0, cursor_y: (m.rows - 1) as nat, ..m }, before_len);
    }
}

/// Printing keeps a well-shaped grid well-shaped, and keeps the history
/// within `rows + max_scrollback` lines once it is.
pub proof fn lemma_print_keeps_shape(m: GridModel, c: char)
    requires
        m.well_shaped(),
        m.scroll_up_ok(),
    ensures
        m.print(c).well_shaped(),
        m.history_bounded() ==> m.print(c).history_bounded(),
{
    let cell = Cell { c: c, fg: m.cur_fg, bg: m.cur_bg, bold: m.cur_bold };
    let w = m.write_visible(m.cursor_y as int, m.cursor_x as int, cell);
    assert(lines_ok(w, m.cells.len()));
    lemma_advance_lines(w, m.cells.len());
}


/// Control bytes keep a well-shaped grid well-shaped, and keep the history
/// within `rows + max_scrollback` lines once it is.
pub proof fn lemma_execute_keeps_shape(m: GridModel, byte: u8)
    requires
        m.well_shaped(),
        m.scroll_up_ok(),
    ensures
        m.execute(byte).well_shaped(),
        m.history_bounded() ==> m.execute(byte).history_bounded(),
{
    if byte == 0x0a && m.cursor_y + 1 >= m.rows {
        lemma_scroll_up_lines(GridModel { cursor_y: (m.rows - 1) as nat, ..m }, m.cells.len());
    }
}

proof fn lemma_sgr_from_pen_only(m: GridModel, ps: Seq<u16>, i: int)
    ensures
        m.sgr_from(ps, i) == (GridModel {
            cur_fg: m.sgr_from(ps, i).cur_fg,
            cur_bg: m.sgr_from(ps, i).cur_bg,
            cur_bold: m.sgr_from(ps, i).cur_bold,
            ..m
        }),
    decreases ps.len() - i,
{
    if 0 <= i < ps.len() {
        let (m2, j) = m.sgr_at(ps, i);
        if j >= i {
            lemma_sgr_from_pen_only(m2, ps, j + 1);
        }
    }
}

/// SGR changes only the current colours and weight: the lines, cursor,
/// sizes and defaults stay as they were.
pub proof fn lemma_sgr_changes_only_pen(m: GridModel, ps: Seq<u16>)
    ensures
        m.apply_sgr(ps) == (GridModel {
            cur_fg: m.apply_sgr(ps).cur_fg,
            cur_bg: m.apply_sgr(ps).cur_bg,
            cur_bold: m.apply_sgr(ps).cur_bold,
            ..m
        }),
{
    if ps.len() > 0 {
        lemma_sgr_from_pen_only(m, ps, 0);
    }
}

/// Every CSI sequence keeps a well-shaped grid well-shaped, and keeps the
/// history within `rows + max_scrollback` lines once it is.
pub proof fn lemma_csi_keeps_shape(m: GridModel, ps: Seq<u16>, action: char)
    requires
        m.well_shaped(),
        m.scroll_up_ok(),
    ensures
        m.csi(ps, action).well_shaped(),
        m.history_bounded() ==> m.csi(ps, action).history_bounded(),
{
    let a = m.csi_action(ps, action);
    let n = GridModel::count(ps);
    let p0 = GridModel::param0(ps);
    broadcast use lemma_fill_rect_lines;
    assert(lines_ok(m, m.cells.len()));
    if action == 'J' {
        let ls = m.live_start() as int;
        let cx = m.cursor_x as int;
        let cy = m.cursor_y as int;
        let b = m.pen_cell();
        assert(lines_ok(a, m.cells.len()));
    } else if action == 'K' {
        let r = (m.live_start() + m.cursor_y) as int;
        let b = m.pen_cell();
        assert(lines_ok(a, m.cells.len()));
    } else if action == 'm' {
        lemma_sgr_changes_only_pen(m, ps);
    } else if action == 'P' {
        assert(lines_ok(a, m.cells.len()));
    } else if action == '@' {
        assert(lines_ok(a, m.cells.len()));
    } else if action == 'S' {
        lemma_scroll_up_n_lines(m, n, m.cells.len());
    } else if action == 'T' {
        lemma_scroll_down_lines(m, n);
    }
}


/// Resizing to a non-empty screen gives a well-shaped grid that keeps, of
/// every old line, the cells that fit in the new width.
pub proof fn lemma_resize_keeps_what_fits(m: GridModel, new_cols: nat, new_rows: nat)
    requires
        new_cols >= 1,
        new_rows >= 1,
        m.cells.len() <= usize::MAX,
        new_rows <= usize::MAX,
        new_cols <= usize::MAX,
    ensures
        m.resize(new_cols, new_rows).well_shaped(),
        m.resize(new_cols, new_rows).cells.len() == if m.cells.len() < new_rows { new_rows } else { m.cells.len() },
        forall|i: int, j: int|
            0 <= i < m.cells.len() && 0 <= j < new_cols && j < m.cells[i].len()
                ==> #[trigger] m.resize(new_cols, new_rows).cells[i][j] == m.cells[i][j],
{
    let r = m.resize(new_cols, new_rows);
    assert forall|i: int| 0 <= i < r.cells.len() implies #[trigger] r.cells[i].len() == r.cols by {}
}

/// The view shows lines at or above the live screen, and never past the
/// end of the history.
pub proof fn lemma_view_within_history(m: GridModel)
    ensures
        m.visible_start() <= m.live_start(),
        m.rows <= m.cells.len() ==> m.visible_start() + m.rows <= m.cells.len(),
        m.scroll_offset == 0 ==> m.visible_start() == m.live_start(),
{
}

/// Scrolling the view keeps the offset between the live screen and the
/// oldest line; scrolling back by the same amount undoes a scroll that was
/// not cut off at either end (with fewer than `isize::MAX` history lines
/// above the screen).
pub proof fn lemma_scroll_view_bounded_and_undone(m: GridModel, delta: int)
    ensures
        m.scroll_view(delta).scroll_offset <= m.max_offset(),
        (0 <= m.scroll_offset + delta <= m.max_offset() && m.scroll_offset <= m.max_offset()
            && m.max_offset() <= isize::MAX) ==> m.scroll_view(delta).scroll_view(-delta) == m,
        m.scroll_view(delta).cells == m.cells,
{
}

/// Scrolling up moves every line of a full screen up by one and brings in
/// a blank line in the current colours at the bottom.
pub proof fn lemma_scroll_up_shifts_screen(m: GridModel)
    requires
        1 <= m.rows <= m.cells.len(),
    ensures
        ({
            let s = m.scroll_up();
            &&& forall|y: int| 0 <= y < m.rows - 1 ==> #[trigger] s.cells[s.live_start() + y] == m.cells[m.live_start() + y + 1]
            &&& s.cells[s.live_start() + m.rows - 1] == blank_row(m.pen_cell(), m.cols)
        }),
{
    let s = m.scroll_up();
    let pushed = m.cells.push(blank_row(m.pen_cell(), m.cols));
    if pushed.len() > m.rows + m.max_scrollback {
        assert(s.live_start() == m.live_start());
        assert forall|y: int| 0 <= y < m.rows - 1 implies #[trigger] s.cells[s.live_start() + y] == m.cells[m.live_start() + y + 1] by {
            assert(s.cells[s.live_start() + y] == pushed[s.live_start() + y + 1]);
        }
    } else {
        assert(s.live_start() == m.live_start() + 1);
    }
}

/// Erasing the whole display (`ESC [ 2 J`) blanks every cell of the screen in
/// the current colours and homes the cursor.
pub proof fn lemma_erase_display_blanks_screen(m: GridModel)
    requires
        m.well_shaped(),
    ensures
        ({
            let e = m.csi(seq![2u16], 'J');
            &&& e.cursor_x == 0 && e.cursor_y == 0
            &&& e.cells.len() == m.cells.len()
            &&& forall|y: int, x: int| 0 <= y < m.rows && 0 <= x < m.cols
                ==> #[trigger] e.cells[m.live_start() + y][x] == m.pen_cell()
            &&& forall|r: int| 0 <= r < m.live_start() ==> #[trigger] e.cells[r] == m.cells[r]
        }),
{
    let ps = seq![2u16];
    assert(GridModel::param0(ps) == 2);
    let e = m.csi(ps, 'J');
    assert forall|y: int, x: int| 0 <= y < m.rows && 0 <= x < m.cols
        implies #[trigger] e.cells[m.live_start() + y][x] == m.pen_cell() by {
        assert(m.cells[m.live_start() + y].len() == m.cols);
    }
}

/// Deleting `n` characters at the cursor undoes inserting `n` blanks there:
/// the cells that were not pushed past the right margin come back, and the
/// last `n` columns are blank.
pub proof fn lemma_delete_undoes_insert(m: GridModel, row: Seq<Cell>, n: nat)
    requires
        row.len() >= m.cols,
        m.cursor_x < m.cols,
    ensures
        ({
            let back = m.deleted_row(m.inserted_row(row, n), n);
            &&& back.len() == row.len()
            &&& forall|i: int| 0 <= i < row.len() && (i < m.cursor_x || i >= m.cols) ==> #[trigger] back[i] == row[i]
            &&& forall|i: int| m.cursor_x <= i < m.cols - n ==> #[trigger] back[i] == row[i]
            &&& forall|i: int| m.cursor_x <= i < m.cols && i >= m.cols - n ==> #[trigger] back[i] == m.pen_cell()
        }),
{
}


/// `ESC [ n @` followed by `ESC [ n P` restores the cursor line, except
/// that its last `n` columns become blank; nothing else changes.
pub proof fn lemma_csi_delete_undoes_insert(m: GridModel, k: u16)
    requires
        m.well_shaped(),
    ensures
        ({
            let n = GridModel::count(seq![k]);
            let t = m.csi(seq![k], '@').csi(seq![k], 'P');
            let r = (m.live_start() + m.cursor_y) as int;
            &&& t.cells.len() == m.cells.len()
            &&& t.cursor_x == m.cursor_x && t.cursor_y == m.cursor_y
            &&& forall|i: int| 0 <= i < m.cells.len() && i != r ==> #[trigger] t.cells[i] == m.cells[i]
            &&& forall|x: int| 0 <= x < m.cols && (x < m.cursor_x || x < m.cols - n) ==> #[trigger] t.cells[r][x] == m.cells[r][x]
            &&& forall|x: int| m.cursor_x <= x < m.cols && x >= m.cols - n ==> #[trigger] t.cells[r][x] == m.pen_cell()
        }),
{
    let ps = seq![k];
    let n = GridModel::count(ps);
    let r = (m.live_start() + m.cursor_y) as int;
    let a = m.csi(ps, '@');
    assert(a == m.edit_cursor_row(m.inserted_row(m.cursor_row(), n)));
    assert(a.live_start() == m.live_start());
    assert(a.cursor_row() == m.inserted_row(m.cursor_row(), n));
    lemma_delete_undoes_insert(m, m.cursor_row(), n);
}

/// An empty SGR list and the list `0` both reset the colours and weight.
pub proof fn lemma_sgr_reset(m: GridModel)
    ensures
        m.apply_sgr(Seq::empty()) == m.sgr_reset(),
        m.apply_sgr(seq![0u16]) == m.sgr_reset(),
{
    let ps = seq![0u16];
    assert(m.sgr_at(ps, 0) == (m.sgr_reset(), 0int));
    assert(m.sgr_reset().sgr_from(ps, 1) == m.sgr_reset());
}

/// The 256-colour form `38;5;n` / `48;5;n` of one of the eight normal
/// colours sets the same colour as `30+n` / `40+n`, and of one of the eight
/// bright colours the same as `90+n-8` / `100+n-8`; `38;2;r;g;b` sets exactly
/// the colour `[r, g, b]` (each value cut to a byte).
pub proof fn lemma_sgr_colour_forms_agree(m: GridModel, n: u16, r: u16, g: u16, b: u16)
    ensures
        n < 8 ==> m.apply_sgr(seq![38u16, 5, n]) == m.apply_sgr(seq![(30 + n) as u16]),
        n < 8 ==> m.apply_sgr(seq![48u16, 5, n]) == m.apply_sgr(seq![(40 + n) as u16]),
        8 <= n < 16 ==> m.apply_sgr(seq![38u16, 5, n]) == m.apply_sgr(seq![(90 + n - 8) as u16]),
        8 <= n < 16 ==> m.apply_sgr(seq![48u16, 5, n]) == m.apply_sgr(seq![(100 + n - 8) as u16]),
        m.apply_sgr(seq![38u16, 2, r, g, b]).cur_fg == [#[verifier::truncate] (r as u8), #[verifier::truncate] (g as u8), #[verifier::truncate] (b as u8)],
        m.apply_sgr(seq![48u16, 2, r, g, b]).cur_bg == [#[verifier::truncate] (r as u8), #[verifier::truncate] (g as u8), #[verifier::truncate] (b as u8)],
{
    let f5 = seq![38u16, 5, n];
    let b5 = seq![48u16, 5, n];
    let f2 = seq![38u16, 2, r, g, b];
    let b2 = seq![48u16, 2, r, g, b];
    assert(f5[0] == 38 && f5[1] == 5 && f5[2] == n);
    assert(b5[0] == 48 && b5[1] == 5 && b5[2] == n);
    assert(f2[0] == 38 && f2[1] == 2 && f2[2] == r && f2[3] == g && f2[4] == b);
    assert(b2[0] == 48 && b2[1] == 2 && b2[2] == r && b2[3] == g && b2[4] == b);
    let rgb: [u8; 3] = [r as u8, g as u8, b as u8];
    let fg2 = GridModel { cur_fg: rgb, ..m };
    let bg2 = GridModel { cur_bg: rgb, ..m };
    assert(m.sgr_at(f2, 0) == (fg2, 4int));
    assert(m.sgr_at(b2, 0) == (bg2, 4int));
    assert(fg2.sgr_from(f2, 5) == fg2);
    assert(bg2.sgr_from(b2, 5) == bg2);
    let fgn = GridModel { cur_fg: ansi_256(n as int), ..m };
    let bgn = GridModel { cur_bg: ansi_256(n as int), ..m };
    assert(m.sgr_at(f5, 0) == (fgn, 2int));
    assert(m.sgr_at(b5, 0) == (bgn, 2int));
    assert(fgn.sgr_from(f5, 3) == fgn);
    assert(bgn.sgr_from(b5, 3) == bgn);
    if n < 16 {
        assert(ansi_256(n as int) == ansi_16(n as int));
    }
    if n < 8 {
        let s30 = seq![(30 + n) as u16];
        let s40 = seq![(40 + n) as u16];
        assert(s30[0] == 30 + n);
        assert(s40[0] == 40 + n);
        assert(m.sgr_at(s30, 0) == (fgn, 0int));
        assert(m.sgr_at(s40, 0) == (bgn, 0int));
        assert(fgn.sgr_from(s30, 1) == fgn);
        assert(bgn.sgr_from(s40, 1) == bgn);
    }
    if 8 <= n < 16 {
        let s90 = seq![(90 + n - 8) as u16];
        let s100 = seq![(100 + n - 8) as u16];
        assert(s90[0] == 90 + n - 8);
        assert(s100[0] == 100 + n - 8);
        assert(m.sgr_at(s90, 0) == (fgn, 0int));
        assert(m.sgr_at(s100, 0) == (bgn, 0int));
        assert(fgn.sgr_from(s90, 1) == fgn);
        assert(bgn.sgr_from(s100, 1) == bgn);
    }
}

/// Entry `16 + 36 r + 6 g + b` of the 256-colour table (`r, g, b < 6`) is
/// the cube colour with those coordinates, and entry `232 + k` (`k < 24`)
/// is the gray `8 + 10 k`.
pub proof fn lemma_palette_layout(r: int, g: int, b: int, k: int)
    requires
        0 <= r < 6,
        0 <= g < 6,
        0 <= b < 6,
        0 <= k < 24,
    ensures
        ansi_256(16 + 36 * r + 6 * g + b) == [cube_level(r), cube_level(g), cube_level(b)],
        ansi_256(232 + k) == [(8 + 10 * k) as u8, (8 + 10 * k) as u8, (8 + 10 * k) as u8],
{
    let m = 36 * r + 6 * g + b;
    assert(m / 36 == r && (m % 36) / 6 == g && m % 6 == b) by (nonlinear_arith)
        requires
            m == 36 * r + 6 * g + b,
            0 <= r < 6,
            0 <= g < 6,
            0 <= b < 6,
    ;
    assert((8 + 10 * k) % 256 == 8 + 10 * k);
}


/// Ctrl with a letter key sends the letter's code with the top three bits
/// cleared (`^C` = 3, `^Z` = 26, in either case).
pub proof fn lemma_ctrl_code_is_low_bits(b: u8)
    ensures
        ctrl_code(b) matches Some(code) ==> code == b % 32,
{
}

/// A placed glyph lies below the top and above the bottom of the atlas,
/// and within its width whenever it is not wider than the atlas.
pub proof fn lemma_placed_glyph_in_atlas(a: AtlasModel, w: nat, h: nat, bitmap: Seq<u8>)
    ensures
        a.add_glyph(w, h, bitmap).1 matches Some(p) ==> {
            &&& p.1 + h <= ATLAS_H
            &&& w <= ATLAS_W ==> p.0 + w <= ATLAS_W
        },
{
}

/// A placed glyph occupies none of the atlas already handed out, and all of
/// it is handed out afterwards.
pub proof fn lemma_placed_glyph_is_fresh(a: AtlasModel, w: nat, h: nat, bitmap: Seq<u8>)
    ensures
        a.add_glyph(w, h, bitmap).1 matches Some(p) ==> forall|x: int, y: int|
            p.0 <= x < p.0 + w && p.1 <= y < p.1 + h ==> !a.used(x, y) && #[trigger] a.add_glyph(w, h, bitmap).0.used(x, y),
{
}

/// Adding a glyph, placed or not, never gives back any part of the atlas
/// already handed out. With the previous law, glyphs never overlap.
pub proof fn lemma_used_only_grows(a: AtlasModel, w: nat, h: nat, bitmap: Seq<u8>)
    ensures
        forall|x: int, y: int| a.used(x, y) ==> #[trigger] a.add_glyph(w, h, bitmap).0.used(x, y),
{
}

/// An empty glyph leaves the atlas unchanged and is not placed.
pub proof fn lemma_empty_glyph_changes_nothing(a: AtlasModel, w: nat, h: nat, bitmap: Seq<u8>)
    requires
        bitmap.len() == 0 || w == 0 || h == 0,
    ensures
        a.add_glyph(w, h, bitmap) == (a, None::<(nat, nat)>),
{
}

proof fn lemma_draw_lines_layout(m: GridModel, k: nat)
    requires
        k <= m.rows,
        m.rows <= m.cells.len(),
        m.rows_have_width(),
    ensures
        m.draw_lines(k).len() == k * m.cols,
        forall|y: int, x: int| 0 <= y < k && 0 <= x < m.cols ==> #[trigger] m.draw_lines(k)[y * m.cols + x] == m.draw_cell(y, x),
    decreases k,
{
    if k > 0 {
        lemma_draw_lines_layout(m, (k - 1) as nat);
        let prev = m.draw_lines((k - 1) as nat);
        let line = m.draw_line(k - 1);
        assert(m.visible_start() + (k - 1) < m.cells.len());
        assert(m.cells[m.visible_start() + (k - 1)].len() == m.cols);
        assert(line.len() == m.cols);
        assert(m.draw_lines(k) == prev + line);
        assert((k - 1) * m.cols + m.cols == k * m.cols) by (nonlinear_arith);
        assert(m.draw_lines(k).len() == k * m.cols);
        assert forall|y: int, x: int| 0 <= y < k && 0 <= x < m.cols implies #[trigger] m.draw_lines(k)[y * m.cols + x] == m.draw_cell(y, x) by {
            if y < k - 1 {
                assert(y * m.cols + x < (k - 1) * m.cols) by (nonlinear_arith)
                    requires y < k - 1, x < m.cols;
            } else {
                assert(y * m.cols == (k - 1) * m.cols);
            }
        }
    } else {
        assert(0 * m.cols == 0);
    }
}

/// A frame draws every cell of a full screen once, line by line: entry
/// `y * cols + x` is column `x` of screen line `y`, drawn in its own colours
/// except under the cursor, whose colours are swapped in the live view.
pub proof fn lemma_frame_layout(m: GridModel)
    requires
        m.well_shaped(),
    ensures
        m.draw_list().len() == m.rows * m.cols,
        forall|y: int, x: int| 0 <= y < m.rows && 0 <= x < m.cols ==> {
            let d = #[trigger] m.draw_list()[y * m.cols + x];
            let cell = m.cells[m.visible_start() + y][x];
            &&& d.row == y && d.col == x && d.c == cell.c
            &&& if m.shows_cursor(y, x) { d.fg == cell.bg && d.bg == cell.fg } else { d.fg == cell.fg && d.bg == cell.bg }
        },
{
    assert(m.visible_start() + m.rows <= m.cells.len());
    assert(m.rows_to_draw() == m.rows);
    lemma_draw_lines_layout(m, m.rows);
    assert forall|y: int, x: int| 0 <= y < m.rows && 0 <= x < m.cols implies {
        let d = #[trigger] m.draw_list()[y * m.cols + x];
        let cell = m.cells[m.visible_start() + y][x];
        &&& d.row == y && d.col == x && d.c == cell.c
        &&& if m.shows_cursor(y, x) { d.fg == cell.bg && d.bg == cell.fg } else { d.fg == cell.fg && d.bg == cell.bg }
    } by {
        assert(y * m.cols + x < m.rows * m.cols) by (nonlinear_arith)
            requires 0 <= y < m.rows, 0 <= x < m.cols;
        assert(m.draw_list()[y * m.cols + x] == m.draw_cell(y, x));
    }
}


/// The model of every grid: its sizes and its number of lines fit in `usize`.
pub proof fn lemma_grid_sizes(g: &Grid)
    ensures
        g@.cells.len() <= usize::MAX,
        g@.cols <= usize::MAX,
        g@.rows <= usize::MAX,
        g@.cursor_x <= usize::MAX,
        g@.cursor_y <= usize::MAX,
{
    assert(g.cells@.len() == g.cells.len());
}

/// A freshly made grid of at least one column and one line (its lines all
/// blank, cursor at the origin) is well-shaped and within its history bound.
pub proof fn lemma_new_grid_well_shaped(m: GridModel)
    requires
        1 <= m.cols <= usize::MAX,
        1 <= m.rows <= usize::MAX,
        m.cells == Seq::new(m.rows, |_r: int| blank_row(m.default_cell(), m.cols)),
        m.cursor_x == 0,
        m.cursor_y == 0,
    ensures
        m.well_shaped(),
        m.history_bounded(),
{
}


/// Scroll Down (`ESC [ n T`, `n` at least 1) on a well-shaped grid: `n`
/// blank lines in the current colours are inserted at the top of the live
/// screen, ahead of the lines that were there; the lines above stay. The
/// history grows by `n` lines up to `rows + max_scrollback` of them (a
/// longer history keeps its length), the last lines being dropped past that
/// bound. The cursor and the colours stay.
pub proof fn lemma_scroll_down_moves_screen(m: GridModel, ps: Seq<u16>)
    requires
        m.well_shaped(),
    ensures
        ({
            let t = m.csi(ps, 'T');
            let n = GridModel::count(ps) as int;
            let ls = m.live_start() as int;
            let len = m.cells.len() as int;
            let bound = (m.rows + m.max_scrollback) as int;
            &&& t.cells.len() == min_int(if len >= bound { len } else { bound }, len + n)
            &&& m.history_bounded() ==> t.cells.len() == min_int(bound, len + n)
            &&& forall|r: int| 0 <= r < ls ==> #[trigger] t.cells[r] == m.cells[r]
            &&& forall|y: int| 0 <= y < n && ls + y < t.cells.len()
                ==> #[trigger] t.cells[ls + y] == blank_row(m.pen_cell(), m.cols)
            &&& forall|r: int| ls + n <= r < t.cells.len() ==> #[trigger] t.cells[r] == m.cells[r - n]
            &&& t.cols == m.cols && t.rows == m.rows && t.max_scrollback == m.max_scrollback
            &&& t.cursor_x == m.cursor_x && t.cursor_y == m.cursor_y
            &&& t.cur_fg == m.cur_fg && t.cur_bg == m.cur_bg && t.cur_bold == m.cur_bold
        }),
{
    let n = GridModel::count(ps);
    let ls = m.live_start() as int;
    let len = m.cells.len() as int;
    let b = blank_row(m.pen_cell(), m.cols);
    let all = m.cells.subrange(0, ls) + Seq::new(n, |_i: int| b) + m.cells.subrange(ls, len);
    let t = m.csi(ps, 'T');
    assert(ls + m.rows == len);
    assert forall|r: int| 0 <= r < ls implies #[trigger] t.cells[r] == m.cells[r] by {
        assert(all[r] == m.cells[r]);
    }
    assert forall|y: int| 0 <= y < n && ls + y < t.cells.len() implies #[trigger] t.cells[ls + y] == b by {
        assert(all[ls + y] == b);
    }
    assert forall|r: int| ls + n <= r < t.cells.len() implies #[trigger] t.cells[r] == m.cells[r - n] by {
        assert(all[r] == m.cells[r - n]);
    }
}

/// Advancing the cursor on the screen moves it to the next cell in reading
/// order; from the last cell of the screen it goes to the start of the last
/// line and the screen scrolls up once. Nothing else changes.
pub proof fn lemma_advance_cursor_steps_one_cell(m: GridModel)
    requires
        m.rows >= 1,
        m.cols >= 1,
        m.cursor_on_screen(),
    ensures
        ({
            let a = m.advance_cursor();
            let pos = m.cursor_y * m.cols + m.cursor_x;
            &&& a.cursor_on_screen()
            &&& pos + 1 < m.rows * m.cols ==> {
                &&& a.cursor_y * m.cols + a.cursor_x == pos + 1
                &&& a == (GridModel { cursor_x: a.cursor_x, cursor_y: a.cursor_y, ..m })
            }
            &&& pos + 1 == m.rows * m.cols ==> a == (GridModel { cursor_x: 0, cursor_y: (m.rows - 1) as nat, ..m }).scroll_up()
        }),
{
    let pos = m.cursor_y * m.cols + m.cursor_x;
    assert(pos + 1 <= m.rows * m.cols) by (nonlinear_arith)
        requires
            pos == m.cursor_y * m.cols + m.cursor_x,
            m.cursor_x < m.cols,
            m.cursor_y < m.rows,
    ;
    if m.cursor_x + 1 >= m.cols {
        assert((m.cursor_y + 1) * m.cols == pos + 1) by (nonlinear_arith)
            requires
                pos == m.cursor_y * m.cols + m.cursor_x,
                m.cursor_x + 1 == m.cols,
        ;
        if m.cursor_y + 1 < m.rows {
            assert((m.cursor_y + 1) * m.cols < m.rows * m.cols) by (nonlinear_arith)
                requires
                    m.cursor_y + 1 < m.rows,
                    m.cols >= 1,
            ;
        } else {
            assert(m.cursor_y + 1 == m.rows);
        }
    } else {
        assert(pos + 1 < m.rows * m.cols) by (nonlinear_arith)
            requires
                pos == m.cursor_y * m.cols + m.cursor_x,
                m.cursor_x + 1 < m.cols,
                m.cursor_y < m.rows,
        ;
    }
}

/// Scrolling up appends one blank line in the current colours and drops
/// only the oldest line, and only when the history would exceed
/// `rows + max_scrollback`; a history within that bound stays within it.
/// The cursor and everything else stay as they were.
pub proof fn lemma_scroll_up_trims_oldest(m: GridModel)
    ensures
        ({
            let s = m.scroll_up();
            let ext = m.cells.push(blank_row(m.pen_cell(), m.cols));
            &&& s.cells == if ext.len() > m.rows + m.max_scrollback { ext.subrange(1, ext.len() as int) } else { ext }
            &&& s == (GridModel { cells: s.cells, ..m })
            &&& m.history_bounded() ==> s.history_bounded()
        }),
{
    let ext = m.cells.push(blank_row(m.pen_cell(), m.cols));
    assert(ext.drop_first() =~= ext.subrange(1, ext.len() as int));
}

/// The glyph cache rasterises and packs each character once: after a
/// request for a character, a second request for it returns the same
/// placement and leaves the cache, atlas included, as it was, whatever
/// bitmap comes with it. The first request records the character and keeps
/// the placements of all others.
pub proof fn lemma_second_request_reuses_placement(
    c: CacheModel,
    code: u32,
    w1: nat,
    h1: nat,
    bitmap1: Seq<u8>,
    xmin1: i32,
    ymin1: i32,
    w2: nat,
    h2: nat,
    bitmap2: Seq<u8>,
    xmin2: i32,
    ymin2: i32,
)
    ensures
        ({
            let (c1, p1) = c.request(code, w1, h1, bitmap1, xmin1, ymin1);
            let (c2, p2) = c1.request(code, w2, h2, bitmap2, xmin2, ymin2);
            &&& c1.slots.contains_key(code)
            &&& c1.slots[code] == p1
            &&& c2 == c1
            &&& p2 == p1
            &&& forall|k: u32| k != code && c.slots.contains_key(k)
                ==> #[trigger] c1.slots.contains_key(k) && c1.slots[k] == c.slots[k]
        }),
{
}

/// Erase in Line (`ESC [ mode K`) on a well-shaped grid touches only the
/// cursor line of the live screen, line `cells.len() - rows + cursor_y`:
/// mode 0 blanks it in the current colours from the cursor to the right
/// margin, mode 1 from the left margin through the cursor, mode 2 wholly;
/// other modes change nothing. Every other line, the cursor and the
/// colours stay.
pub proof fn lemma_erase_line_touches_cursor_line(m: GridModel, ps: Seq<u16>)
    requires
        m.well_shaped(),
    ensures
        ({
            let t = m.csi(ps, 'K');
            let mode = if ps.len() > 0 { ps[0] as int } else { 0 };
            let r = m.cells.len() - m.rows + m.cursor_y;
            let pen = Cell { c: ' ', fg: m.cur_fg, bg: m.cur_bg, bold: m.cur_bold };
            &&& t.cells.len() == m.cells.len()
            &&& forall|i: int| 0 <= i < m.cells.len() && i != r ==> #[trigger] t.cells[i] == m.cells[i]
            &&& t.cells[r].len() == m.cols
            &&& forall|x: int| 0 <= x < m.cols ==> #[trigger] t.cells[r][x] == if (mode == 0 && m.cursor_x <= x)
                || (mode == 1 && x <= m.cursor_x) || mode == 2 { pen } else { m.cells[r][x] }
            &&& t.cursor_x == m.cursor_x && t.cursor_y == m.cursor_y
            &&& t.cur_fg == m.cur_fg && t.cur_bg == m.cur_bg && t.cur_bold == m.cur_bold
        }),
{
    let r = m.cells.len() - m.rows + m.cursor_y;
    assert(m.cells[r].len() == m.cols);
}

/// Erase in Display (`ESC [ mode J`) on a well-shaped grid, taking the
/// cells of the live screen in reading order: mode 0 blanks, in the current
/// colours, the cells from the cursor to the end of the screen, mode 1 the
/// cells from the start of the screen through the cursor, modes 2 and 3
/// the whole screen (mode 2 also homes the cursor). The history above the
/// screen and every other cell stay.
pub proof fn lemma_erase_display_in_reading_order(m: GridModel, ps: Seq<u16>)
    requires
        m.well_shaped(),
    ensures
        ({
            let t = m.csi(ps, 'J');
            let mode = if ps.len() > 0 { ps[0] as int } else { 0 };
            let ls = m.cells.len() - m.rows;
            let r = ls + m.cursor_y;
            let pen = Cell { c: ' ', fg: m.cur_fg, bg: m.cur_bg, bold: m.cur_bold };
            &&& t.cells.len() == m.cells.len()
            &&& forall|i: int| 0 <= i < m.cells.len() ==> (#[trigger] t.cells[i]).len() == m.cols
            &&& forall|i: int, x: int| 0 <= i < m.cells.len() && 0 <= x < m.cols
                ==> #[trigger] t.cells[i][x] == if (mode == 0 && (i > r || (i == r && x >= m.cursor_x)))
                    || (mode == 1 && ls <= i && (i < r || (i == r && x <= m.cursor_x)))
                    || ((mode == 2 || mode == 3) && ls <= i) { pen } else { m.cells[i][x] }
            &&& mode == 2 ==> t.cursor_x == 0 && t.cursor_y == 0
            &&& mode != 2 ==> t.cursor_x == m.cursor_x && t.cursor_y == m.cursor_y
            &&& t.cur_fg == m.cur_fg && t.cur_bg == m.cur_bg && t.cur_bold == m.cur_bold
        }),
{
    let t = m.csi(ps, 'J');
    assert forall|i: int| 0 <= i < m.cells.len() implies (#[trigger] t.cells[i]).len() == m.cols by {
        assert(m.cells[i].len() == m.cols);
    }
}

/// SGR `38;5;n` sets the foreground, and `48;5;n` the background, to entry
/// `n` of the 256-colour table, for every `n`; nothing else changes.
pub proof fn lemma_sgr_256_colour_for_every_index(m: GridModel, n: u16)
    ensures
        m.apply_sgr(seq![38u16, 5, n]) == (GridModel { cur_fg: ansi_256(n as int), ..m }),
        m.apply_sgr(seq![48u16, 5, n]) == (GridModel { cur_bg: ansi_256(n as int), ..m }),
{
    let f5 = seq![38u16, 5, n];
    let b5 = seq![48u16, 5, n];
    assert(f5[0] == 38 && f5[1] == 5 && f5[2] == n);
    assert(b5[0] == 48 && b5[1] == 5 && b5[2] == n);
    let fgn = GridModel { cur_fg: ansi_256(n as int), ..m };
    let bgn = GridModel { cur_bg: ansi_256(n as int), ..m };
    assert(m.sgr_at(f5, 0) == (fgn, 2int));
    assert(m.sgr_at(b5, 0) == (bgn, 2int));
    assert(fgn.sgr_from(f5, 3) == fgn);
    assert(bgn.sgr_from(b5, 3) == bgn);
}

/// Printing does not depend on how far the view is scrolled back: it
/// writes `c` in the current colours at the cursor on the live screen, line
/// `cells.len() - rows + cursor_y`, and changes no other cell. When the
/// cursor was on the last cell of the screen the screen then scrolls up, so
/// the written line is the one above the new blank last line (unless the
/// grid holds a single line and no scrollback, when it scrolls away).
pub proof fn lemma_print_writes_live_cursor_cell(m: GridModel, c: char)
    ensures
        m.print(c).cells == (GridModel { scroll_offset: 0, ..m }).print(c).cells,
        m.print(c).cursor_x == (GridModel { scroll_offset: 0, ..m }).print(c).cursor_x,
        m.print(c).cursor_y == (GridModel { scroll_offset: 0, ..m }).print(c).cursor_y,
        m.well_shaped() ==> ({
            let p = m.print(c);
            let cell = Cell { c: c, fg: m.cur_fg, bg: m.cur_bg, bold: m.cur_bold };
            let r = m.cells.len() - m.rows + m.cursor_y;
            let last = m.cursor_x + 1 >= m.cols && m.cursor_y + 1 >= m.rows;
            &&& !last ==> {
                &&& p.cells.len() == m.cells.len()
                &&& p.cells[r][m.cursor_x as int] == cell
                &&& forall|i: int, j: int| 0 <= i < m.cells.len() && 0 <= j < m.cols && (i != r || j != m.cursor_x)
                    ==> #[trigger] p.cells[i][j] == m.cells[i][j]
            }
            &&& last && (m.cells.len() >= 2 || m.max_scrollback >= 1) ==> {
                &&& p.cells[p.cells.len() - 2][m.cursor_x as int] == cell
                &&& forall|j: int| 0 <= j < m.cols && j != m.cursor_x
                    ==> #[trigger] p.cells[p.cells.len() - 2][j] == m.cells[r][j]
            }
        }),
{
    if m.well_shaped() {
        let cell = Cell { c: c, fg: m.cur_fg, bg: m.cur_bg, bold: m.cur_bold };
        let r = m.cells.len() - m.rows + m.cursor_y;
        assert(m.cells[r].len() == m.cols);
        let w = m.write_visible(m.cursor_y as int, m.cursor_x as int, cell);
        assert(w.cells == m.cells.update(r, m.cells[r].update(m.cursor_x as int, cell)));
        if m.cursor_x + 1 >= m.cols && m.cursor_y + 1 >= m.rows {
            let g = GridModel { cursor_x: 0, cursor_y: (m.rows - 1) as nat, ..w };
            let pushed = g.cells.push(blank_row(g.pen_cell(), g.cols));
            assert(r == m.cells.len() - 1);
            assert(pushed[m.cells.len() - 1] == w.cells[r]);
            let p = m.print(c);
            if pushed.len() > g.rows + g.max_scrollback {
                assert(p.cells == pushed.drop_first());
                assert(p.cells.len() == m.cells.len());
                if m.cells.len() >= 2 {
                    assert(p.cells[p.cells.len() - 2] == pushed[m.cells.len() - 1]);
                }
            } else {
                assert(p.cells == pushed);
            }
        }
    }
}

/// A tab moves the cursor to the next tab stop: the next column that is a
/// multiple of 8, or the last column when there is none before it. No tab
/// stop is skipped, and nothing but the cursor column changes.
pub proof fn lemma_tab_moves_to_next_stop(m: GridModel)
    requires
        m.cols >= 1,
    ensures
        ({
            let t = m.execute(0x09u8);
            &&& t == (GridModel { cursor_x: t.cursor_x, ..m })
            &&& t.cursor_x <= m.cols - 1
            &&& t.cursor_x % 8 == 0 || t.cursor_x == m.cols - 1
            &&& m.cursor_x < m.cols - 1 ==> m.cursor_x < t.cursor_x
            &&& forall|k: int| m.cursor_x < k < t.cursor_x ==> #[trigger] (k % 8) != 0
        }),
{
    let cx = m.cursor_x as int;
    let d = cx / 8;
    let q = (d + 1) * 8;
    vstd::arithmetic::div_mod::lemma_fundamental_div_mod(cx, 8);
    assert(q == 8 * d + 8);
    assert(cx < q && q <= cx + 8);
    vstd::arithmetic::div_mod::lemma_mod_multiples_basic(d + 1, 8);
    assert(q % 8 == 0);
    let t = m.execute(0x09u8);
    assert forall|k: int| m.cursor_x < k < t.cursor_x implies #[trigger] (k % 8) != 0 by {
        vstd::arithmetic::div_mod::lemma_fundamental_div_mod(k, 8);
        if k % 8 == 0 {
            assert(k == 8 * (k / 8));
            assert(8 * d < k < 8 * d + 8);
        }
    }
}

/// Resizing to a non-empty screen brings each cursor coordinate onto it:
/// a coordinate that fits stays, one that does not becomes the last column
/// or line of the new screen.
pub proof fn lemma_resize_clamps_cursor(m: GridModel, new_cols: nat, new_rows: nat)
    requires
        new_cols >= 1,
        new_rows >= 1,
    ensures
        m.resize(new_cols, new_rows).cursor_x == if m.cursor_x < new_cols { m.cursor_x as int } else { new_cols - 1 },
        m.resize(new_cols, new_rows).cursor_y == if m.cursor_y < new_rows { m.cursor_y as int } else { new_rows - 1 },
{
}

/// The cursor-motion sequences on a well-shaped grid move only the cursor,
/// by the count `n` (the first parameter, at least 1), and stop at the edges
/// of the screen: `A` up, `B` down, `C` right, `D` left, `E` down to the
/// start of a line, `F` up to the start of a line; `G` goes to column
/// `p0`, and `H` or `f` to line `p0`, column `p1`, both counted from 1 (0
/// or a missing parameter meaning 1).
pub proof fn lemma_cursor_motion(m: GridModel, ps: Seq<u16>, action: char)
    requires
        m.well_shaped(),
        action == 'A' || action == 'B' || action == 'C' || action == 'D' || action == 'E'
            || action == 'F' || action == 'G' || action == 'H' || action == 'f',
    ensures
        ({
            let t = m.csi(ps, action);
            let p0 = if ps.len() > 0 { ps[0] as int } else { 0 };
            let p1 = if ps.len() > 1 { ps[1] as int } else { 1 };
            let n = if p0 > 1 { p0 } else { 1 };
            let cx = m.cursor_x as int;
            let cy = m.cursor_y as int;
            let last_x = m.cols - 1;
            let last_y = m.rows - 1;
            &&& t == (GridModel { cursor_x: t.cursor_x, cursor_y: t.cursor_y, ..m })
            &&& action == 'A' ==> t.cursor_x == cx && t.cursor_y == if cy >= n { cy - n } else { 0 }
            &&& action == 'B' ==> t.cursor_x == cx && t.cursor_y == if cy + n <= last_y { cy + n } else { last_y }
            &&& action == 'C' ==> t.cursor_y == cy && t.cursor_x == if cx + n <= last_x { cx + n } else { last_x }
            &&& action == 'D' ==> t.cursor_y == cy && t.cursor_x == if cx >= n { cx - n } else { 0 }
            &&& action == 'E' ==> t.cursor_x == 0 && t.cursor_y == if cy + n <= last_y { cy + n } else { last_y }
            &&& action == 'F' ==> t.cursor_x == 0 && t.cursor_y == if cy >= n { cy - n } else { 0 }
            &&& action == 'G' ==> t.cursor_y == cy
                && t.cursor_x == if p0 <= 1 { 0 } else if p0 - 1 <= last_x { p0 - 1 } else { last_x }
            &&& (action == 'H' || action == 'f') ==> {
                &&& t.cursor_y == if p0 <= 1 { 0 } else if p0 - 1 <= last_y { p0 - 1 } else { last_y }
                &&& t.cursor_x == if p1 <= 1 { 0 } else if p1 - 1 <= last_x { p1 - 1 } else { last_x }
            }
        }),
{
}

/// Deleting `n` characters (`ESC [ n P`) on a well-shaped grid: on the
/// cursor line of the live screen the cells left of the cursor stay, the
/// cells from the cursor on are those `n` columns further right, and the
/// last `n` columns become blanks in the current colours. Inserting `n`
/// blanks (`ESC [ n @`): the cells left of the cursor stay, `n` blanks in
/// the current colours follow from the cursor, then the old cells from the
/// cursor on, cut at the right margin. No other line, nor the cursor,
/// changes.
pub proof fn lemma_delete_and_insert_chars(m: GridModel, ps: Seq<u16>)
    requires
        m.well_shaped(),
    ensures
        ({
            let p0 = if ps.len() > 0 { ps[0] as int } else { 0 };
            let n = if p0 > 1 { p0 } else { 1 };
            let r = m.cells.len() - m.rows + m.cursor_y;
            let row = m.cells[r];
            let cx = m.cursor_x as int;
            let pen = Cell { c: ' ', fg: m.cur_fg, bg: m.cur_bg, bold: m.cur_bold };
            let d = m.csi(ps, 'P');
            let a = m.csi(ps, '@');
            &&& d.cells.len() == m.cells.len() && a.cells.len() == m.cells.len()
            &&& forall|i: int| 0 <= i < m.cells.len() && i != r ==> #[trigger] d.cells[i] == m.cells[i] && a.cells[i] == m.cells[i]
            &&& d.cells[r].len() == m.cols && a.cells[r].len() == m.cols
            &&& forall|x: int| 0 <= x < m.cols ==> #[trigger] d.cells[r][x] == if x < cx { row[x] }
                else if x + n < m.cols { row[x + n] } else { pen }
            &&& forall|x: int| 0 <= x < m.cols ==> #[trigger] a.cells[r][x] == if x < cx { row[x] }
                else if x < cx + n { pen } else { row[x - n] }
            &&& d == (GridModel { cells: d.cells, ..m }) && a == (GridModel { cells: a.cells, ..m })
        }),
{
    let r = m.cells.len() - m.rows + m.cursor_y;
    assert(m.cells[r].len() == m.cols);
}

/// Control bytes: carriage return goes to column 0; backspace moves one
/// column left, staying at column 0; line feed moves one line down, and on
/// the last line of a well-shaped grid keeps the cursor there and scrolls
/// the screen up by one line, a blank line in the current colours entering
/// at the bottom. Other bytes change nothing; no control byte changes the
/// colours.
pub proof fn lemma_control_bytes(m: GridModel, byte: u8)
    ensures
        m.execute(0x0du8) == (GridModel { cursor_x: 0, ..m }),
        m.execute(0x08u8) == (GridModel { cursor_x: if m.cursor_x >= 1 { (m.cursor_x - 1) as nat } else { 0 }, ..m }),
        m.cursor_y + 1 < m.rows ==> m.execute(0x0au8) == (GridModel { cursor_y: m.cursor_y + 1, ..m }),
        byte != 0x0a && byte != 0x0d && byte != 0x09 && byte != 0x08 ==> m.execute(byte) == m,
        m.well_shaped() && m.cursor_y + 1 == m.rows ==> ({
            let t = m.execute(0x0au8);
            let ls = m.cells.len() - m.rows;
            let tls = t.cells.len() - t.rows;
            &&& t.cursor_x == m.cursor_x && t.cursor_y == m.cursor_y && t.rows == m.rows && t.cols == m.cols
            &&& forall|y: int| 0 <= y < m.rows - 1 ==> #[trigger] t.cells[tls + y] == m.cells[ls + y + 1]
            &&& forall|x: int| 0 <= x < m.cols ==> #[trigger] t.cells[tls + m.rows - 1][x]
                == Cell { c: ' ', fg: m.cur_fg, bg: m.cur_bg, bold: m.cur_bold }
        }),
{
    if m.well_shaped() && m.cursor_y + 1 == m.rows {
        let g = GridModel { cursor_y: (m.rows - 1) as nat, ..m };
        lemma_scroll_up_shifts_screen(g);
    }
}

/// The 16 base colours: bit 0 of the index is red, bit 1 green, bit 2 blue;
/// a set bit gives 170 in the normal colours (0–7) and 255 in the bright
/// ones (8–15), a clear bit 0 and 85.
pub proof fn lemma_base_colour_bits(k: int)
    requires
        0 <= k < 16,
    ensures
        ({
            let on: u8 = if k < 8 { 170 } else { 255 };
            let off: u8 = if k < 8 { 0 } else { 85 };
            let b = k % 8;
            ansi_16(k) == [if b % 2 == 1 { on } else { off }, if (b / 2) % 2 == 1 { on } else { off }, if b / 4 == 1 { on } else { off }]
        }),
{
}

/// A single SGR code: 0 resets the colours and weight to the defaults, 1
/// sets bold and 22 clears it, 30–37 and 90–97 set the foreground to base
/// colour `p - 30` and `p - 82`, 40–47 and 100–107 the background to base
/// colour `p - 40` and `p - 92`, 39 and 49 restore the default foreground
/// and background; any other code except 38 and 48 changes nothing. Nothing
/// but the colours and weight ever changes.
pub proof fn lemma_sgr_single_code(m: GridModel, p: u16)
    ensures
        ({
            let t = m.apply_sgr(seq![p]);
            &&& p == 0 ==> t == (GridModel { cur_fg: m.default_fg, cur_bg: m.default_bg, cur_bold: false, ..m })
            &&& p == 1 ==> t == (GridModel { cur_bold: true, ..m })
            &&& p == 22 ==> t == (GridModel { cur_bold: false, ..m })
            &&& 30 <= p <= 37 ==> t == (GridModel { cur_fg: ansi_16(p - 30), ..m })
            &&& 90 <= p <= 97 ==> t == (GridModel { cur_fg: ansi_16(p - 82), ..m })
            &&& 40 <= p <= 47 ==> t == (GridModel { cur_bg: ansi_16(p - 40), ..m })
            &&& 100 <= p <= 107 ==> t == (GridModel { cur_bg: ansi_16(p - 92), ..m })
            &&& p == 39 ==> t == (GridModel { cur_fg: m.default_fg, ..m })
            &&& p == 49 ==> t == (GridModel { cur_bg: m.default_bg, ..m })
            &&& !(p == 0 || p == 1 || p == 22 || 30 <= p <= 39 || 40 <= p <= 49 || 90 <= p <= 97 || 100 <= p <= 107)
                ==> t == m
        }),
{
    let ps = seq![p];
    assert(ps[0] == p);
    let (t1, j) = m.sgr_at(ps, 0);
    assert(j == 0);
    assert(t1.sgr_from(ps, 1) == t1);
}

/// Two SGR codes in one sequence act as the two in turn, for codes other
/// than the extended-colour introducers 38 and 48.
pub proof fn lemma_sgr_codes_compose(m: GridModel, p: u16, q: u16)
    requires
        p != 38 && p != 48,
        q != 38 && q != 48,
    ensures
        m.apply_sgr(seq![p, q]) == m.apply_sgr(seq![p]).apply_sgr(seq![q]),
{
    let ps = seq![p, q];
    let sp = seq![p];
    let sq = seq![q];
    assert(ps[0] == p && ps[1] == q && sp[0] == p && sq[0] == q);
    let (m1, j) = m.sgr_at(ps, 0);
    assert(j == 0);
    assert((m1, j) == m.sgr_at(sp, 0));
    assert(m1.sgr_from(sp, 1) == m1);
    let (m2, k) = m1.sgr_at(ps, 1);
    assert(k == 1);
    assert(m2 == m1.sgr_at(sq, 0).0);
    assert(m2.sgr_from(ps, 2) == m2);
    assert(m2.sgr_from(sq, 1) == m2);
    assert(m1.sgr_from(ps, 1) == m2);
    assert(m.sgr_from(ps, 0) == m2);
    assert(m.sgr_from(sp, 0) == m1);
    assert(m1.sgr_from(sq, 0) == m2);
}

/// Scrolling up `n` times (`ESC [ n S`, and the scrolling of output at the
/// bottom of the screen): the history becomes its old lines followed by `n`
/// blank lines in the current colours, of which only the last are kept: as
/// many as there were lines, plus `n`, up to `rows + max_scrollback` (a
/// history already longer keeps its length). Nothing else changes.
pub proof fn lemma_scroll_up_n_appends_blank_lines(m: GridModel, n: nat)
    ensures
        ({
            let len = m.cells.len() as int;
            let bound = (m.rows + m.max_scrollback) as int;
            let kept = if len >= bound { len } else { min_int(len + n, bound) };
            let all = m.cells + Seq::new(n, |_i: int| blank_row(m.pen_cell(), m.cols));
            let s = m.scroll_up_n(n);
            &&& s.cells == all.subrange(len + n - kept, len + n)
            &&& s == (GridModel { cells: s.cells, ..m })
        }),
    decreases n,
{
    let len = m.cells.len() as int;
    let bound = (m.rows + m.max_scrollback) as int;
    let b = blank_row(m.pen_cell(), m.cols);
    let all = m.cells + Seq::new(n, |_i: int| b);
    if n == 0 {
        assert(all.subrange(0, len) =~= m.cells);
    } else {
        lemma_scroll_up_n_appends_blank_lines(m, (n - 1) as nat);
        let k0 = if len >= bound { len } else { min_int(len + n - 1, bound) };
        let k1 = if len >= bound { len } else { min_int(len + n, bound) };
        let all0 = m.cells + Seq::new((n - 1) as nat, |_i: int| b);
        let prev = m.scroll_up_n((n - 1) as nat);
        assert(prev.cells == all0.subrange(len + n - 1 - k0, len + n - 1));
        let pushed = prev.cells.push(b);
        assert(pushed =~= all.subrange(len + n - 1 - k0, len + n));
        if pushed.len() > bound {
            assert(k1 == k0);
            assert(pushed.drop_first() =~= all.subrange(len + n - k1, len + n));
        } else {
            assert(k1 == k0 + 1);
        }
    }
}

/// The number of whole cells that fit across a window of `pixels` pixels,
/// at least 1: a window at least one cell wide holds that many cells and
/// not one more.
pub proof fn lemma_cells_across_is_whole_cells(pixels: int, cell: int)
    requires
        pixels >= 0,
        cell > 0,
    ensures
        cells_across(pixels, cell) >= 1,
        pixels >= cell ==> cells_across(pixels, cell) * cell <= pixels,
        (cells_across(pixels, cell) + 1) * cell > pixels,
{
    let q = pixels / cell;
    let r = pixels % cell;
    vstd::arithmetic::div_mod::lemma_fundamental_div_mod(pixels, cell);
    vstd::arithmetic::div_mod::lemma_mod_pos_bound(pixels, cell);
    assert(q >= 0) by (nonlinear_arith)
        requires
            pixels == cell * q + r,
            0 <= r < cell,
            pixels >= 0,
    ;
    assert(pixels >= cell ==> q >= 1) by (nonlinear_arith)
        requires
            pixels == cell * q + r,
            0 <= r < cell,
    ;
    assert((q + 1) * cell > pixels && q * cell <= pixels) by (nonlinear_arith)
        requires
            pixels == cell * q + r,
            0 <= r < cell,
    ;
    if q < 1 {
        assert(2 * cell > pixels) by (nonlinear_arith)
            requires
                (q + 1) * cell > pixels,
                q < 1,
                cell > 0,
        ;
    }
}

} // verus!
