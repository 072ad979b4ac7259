use fermi_term::terminal::{Cell, CellDraw, Grid};

const FG: [u8; 3] = [200, 200, 200];
const BG: [u8; 3] = [14, 14, 26];

fn blank() -> Cell {
    Cell { c: ' ', fg: FG, bg: BG, bold: false }
}

fn grid(cols: usize, rows: usize, scrollback: usize) -> Grid {
    Grid::new(cols, rows, scrollback, FG, BG)
}

fn type_str(g: &mut Grid, s: &str) {
    for c in s.chars() {
        g.print(c);
    }
}

fn row_text(g: &Grid, abs_row: usize) -> String {
    g.cells[abs_row].iter().map(|c| c.c).collect()
}

fn live_row_text(g: &Grid, y: usize) -> String {
    let ls = g.cells.len().saturating_sub(g.rows);
    row_text(g, ls + y)
}

#[test]
fn cell_default_is_blank_light_on_dark() {
    let c = Cell::default();
    assert_eq!(c, Cell { c: ' ', fg: [200, 200, 200], bg: [14, 14, 26], bold: false });
}

#[test]
fn new_grid_is_blank_with_cursor_home() {
    let g = grid(4, 3, 10);
    assert_eq!(g.cols, 4);
    assert_eq!(g.rows, 3);
    assert_eq!(g.cells.len(), 3);
    for row in &g.cells {
        assert_eq!(row.len(), 4);
        for c in row {
            assert_eq!(*c, blank());
        }
    }
    assert_eq!((g.cursor_x, g.cursor_y, g.scroll_offset), (0, 0, 0));
    assert_eq!(g.current_cell(), blank());
    assert_eq!(g.blank_row(), vec![blank(); 4]);
}

#[test]
fn new_grid_with_zero_rows_has_no_lines() {
    let g = grid(5, 0, 3);
    assert!(g.cells.is_empty());
    assert_eq!(g.visible_start(), 0);
}

#[test]
fn print_writes_at_cursor_and_advances() {
    let mut g = grid(4, 3, 10);
    g.print('a');
    assert_eq!(g.cells[0][0].c, 'a');
    assert_eq!(g.cells[0][0].fg, FG);
    assert_eq!((g.cursor_x, g.cursor_y), (1, 0));
    type_str(&mut g, "bcd");
    assert_eq!(row_text(&g, 0), "abcd");
    // Writing the last column wraps the cursor to the next line.
    assert_eq!((g.cursor_x, g.cursor_y), (0, 1));
}

#[test]
fn print_at_bottom_right_scrolls() {
    let mut g = grid(2, 2, 10);
    type_str(&mut g, "abcd");
    assert_eq!(g.cells.len(), 3);
    assert_eq!(row_text(&g, 0), "ab");
    assert_eq!(row_text(&g, 1), "cd");
    assert_eq!(row_text(&g, 2), "  ");
    assert_eq!((g.cursor_x, g.cursor_y), (0, 1));
    assert_eq!(g.visible_start(), 1);
}

#[test]
fn history_is_trimmed_past_scrollback() {
    let mut g = grid(1, 2, 1);
    type_str(&mut g, "abcdef");
    // At most rows + max_scrollback lines are kept.
    assert_eq!(g.cells.len(), 3);
    assert_eq!(row_text(&g, 0), "e");
    assert_eq!(row_text(&g, 1), "f");
    assert_eq!(row_text(&g, 2), " ");
    assert_eq!((g.cursor_x, g.cursor_y), (0, 1));
}

#[test]
fn print_uses_current_colours() {
    let mut g = grid(3, 1, 0);
    g.apply_sgr(&[1, 31, 42]);
    g.print('x');
    assert_eq!(g.cells[0][0], Cell { c: 'x', fg: [170, 0, 0], bg: [0, 170, 0], bold: true });
}

#[test]
fn execute_line_feed_carriage_return_tab_backspace() {
    let mut g = grid(20, 2, 5);
    g.cursor_x = 3;
    g.execute(b'\n');
    assert_eq!((g.cursor_x, g.cursor_y), (3, 1));
    g.execute(b'\n');
    // At the last line a line feed scrolls.
    assert_eq!((g.cursor_x, g.cursor_y), (3, 1));
    assert_eq!(g.cells.len(), 3);
    g.execute(b'\r');
    assert_eq!(g.cursor_x, 0);
    g.execute(b'\t');
    assert_eq!(g.cursor_x, 8);
    g.execute(b'\t');
    assert_eq!(g.cursor_x, 16);
    g.execute(b'\t');
    // The tab stops at the last column.
    assert_eq!(g.cursor_x, 19);
    g.execute(0x08);
    assert_eq!(g.cursor_x, 18);
    g.cursor_x = 0;
    g.execute(0x08);
    assert_eq!(g.cursor_x, 0);
    let before: Vec<Vec<Cell>> = g.cells.clone();
    g.execute(0x07);
    assert_eq!(g.cells, before);
    assert_eq!((g.cursor_x, g.cursor_y), (0, 1));
}

#[test]
fn csi_cursor_motion() {
    let mut g = grid(10, 5, 0);
    g.apply_csi(&[], 'B');
    assert_eq!(g.cursor_y, 1);
    g.apply_csi(&[3], 'C');
    assert_eq!(g.cursor_x, 3);
    g.apply_csi(&[100], 'C');
    assert_eq!(g.cursor_x, 9);
    g.apply_csi(&[2], 'D');
    assert_eq!(g.cursor_x, 7);
    g.apply_csi(&[0], 'D');
    assert_eq!(g.cursor_x, 6);
    g.apply_csi(&[50], 'B');
    assert_eq!(g.cursor_y, 4);
    g.apply_csi(&[2], 'A');
    assert_eq!(g.cursor_y, 2);
    g.apply_csi(&[9], 'A');
    assert_eq!(g.cursor_y, 0);
    g.apply_csi(&[3, 4], 'H');
    assert_eq!((g.cursor_x, g.cursor_y), (3, 2));
    g.apply_csi(&[], 'H');
    assert_eq!((g.cursor_x, g.cursor_y), (0, 0));
    g.apply_csi(&[99, 99], 'f');
    assert_eq!((g.cursor_x, g.cursor_y), (9, 4));
    g.apply_csi(&[2], 'F');
    assert_eq!((g.cursor_x, g.cursor_y), (0, 2));
    g.cursor_x = 5;
    g.apply_csi(&[1], 'E');
    assert_eq!((g.cursor_x, g.cursor_y), (0, 3));
    g.apply_csi(&[4], 'G');
    assert_eq!(g.cursor_x, 3);
    g.apply_csi(&[0], 'G');
    assert_eq!(g.cursor_x, 0);
}

#[test]
fn csi_clamps_cursor_after_any_sequence() {
    let mut g = grid(4, 3, 0);
    g.cursor_x = 10;
    g.cursor_y = 7;
    g.apply_csi(&[], 'z');
    assert_eq!((g.cursor_x, g.cursor_y), (3, 2));
}

fn filled(cols: usize, rows: usize) -> Grid {
    let mut g = grid(cols, rows, 0);
    for y in 0..rows {
        for x in 0..cols {
            g.cells[y][x].c = (b'a' + (y * cols + x) as u8) as char;
        }
    }
    g
}

#[test]
fn csi_erase_in_display() {
    let mut g = filled(3, 3);
    g.cursor_x = 1;
    g.cursor_y = 1;
    g.apply_csi(&[], 'J');
    assert_eq!(row_text(&g, 0), "abc");
    assert_eq!(row_text(&g, 1), "d  ");
    assert_eq!(row_text(&g, 2), "   ");

    let mut g = filled(3, 3);
    g.cursor_x = 1;
    g.cursor_y = 1;
    g.apply_csi(&[1], 'J');
    assert_eq!(row_text(&g, 0), "   ");
    assert_eq!(row_text(&g, 1), "  f");
    assert_eq!(row_text(&g, 2), "ghi");

    let mut g = filled(3, 3);
    g.cursor_x = 1;
    g.cursor_y = 1;
    g.apply_csi(&[3], 'J');
    for y in 0..3 {
        assert_eq!(row_text(&g, y), "   ");
    }
    assert_eq!((g.cursor_x, g.cursor_y), (1, 1));

    let mut g = filled(3, 3);
    g.cursor_x = 1;
    g.cursor_y = 1;
    g.apply_sgr(&[44]);
    g.apply_csi(&[2], 'J');
    for y in 0..3 {
        for x in 0..3 {
            assert_eq!(g.cells[y][x], Cell { c: ' ', fg: FG, bg: [0, 0, 170], bold: false });
        }
    }
    assert_eq!((g.cursor_x, g.cursor_y), (0, 0));
}

#[test]
fn csi_erase_in_line() {
    let mut g = filled(4, 2);
    g.cursor_x = 2;
    g.cursor_y = 1;
    g.apply_csi(&[0], 'K');
    assert_eq!(row_text(&g, 1), "ef  ");
    assert_eq!(row_text(&g, 0), "abcd");
    let mut g = filled(4, 2);
    g.cursor_x = 2;
    g.apply_csi(&[1], 'K');
    assert_eq!(row_text(&g, 0), "   d");
    let mut g = filled(4, 2);
    g.apply_csi(&[2], 'K');
    assert_eq!(row_text(&g, 0), "    ");
    let mut g = filled(4, 2);
    g.apply_csi(&[7], 'K');
    assert_eq!(row_text(&g, 0), "abcd");
}

#[test]
fn csi_delete_and_insert_characters() {
    let mut g = filled(5, 1);
    g.cursor_x = 1;
    g.apply_csi(&[2], 'P');
    assert_eq!(row_text(&g, 0), "ade  ");
    let mut g = filled(5, 1);
    g.cursor_x = 1;
    g.apply_csi(&[2], '@');
    assert_eq!(row_text(&g, 0), "a  bc");
    let mut g = filled(5, 1);
    g.cursor_x = 3;
    g.apply_csi(&[], '@');
    assert_eq!(row_text(&g, 0), "abc d");
}

#[test]
fn delete_undoes_insert_on_concrete_line() {
    let mut g = filled(6, 1);
    g.cursor_x = 1;
    g.apply_csi(&[2], '@');
    g.apply_csi(&[2], 'P');
    assert_eq!(row_text(&g, 0), "abcd  ");
}

#[test]
fn csi_scroll_up_and_down() {
    let mut g = filled(2, 3);
    g.max_scrollback = 10;
    g.apply_csi(&[2], 'S');
    assert_eq!(g.cells.len(), 5);
    assert_eq!(live_row_text(&g, 0), "ef");
    assert_eq!(live_row_text(&g, 1), "  ");
    assert_eq!(live_row_text(&g, 2), "  ");

    let mut g = filled(2, 3);
    g.apply_csi(&[1], 'T');
    // No scrollback: the last line leaves at the end.
    assert_eq!(g.cells.len(), 3);
    assert_eq!(row_text(&g, 0), "  ");
    assert_eq!(row_text(&g, 1), "ab");
    assert_eq!(row_text(&g, 2), "cd");
}

#[test]
fn csi_scroll_down_grows_history_up_to_its_bound() {
    let mut g = grid(2, 2, 10);
    type_str(&mut g, "abcdef");
    assert_eq!(g.cells.len(), 4);
    assert_eq!((g.cursor_x, g.cursor_y), (0, 1));
    // One blank line enters at the top of the live screen; nothing is dropped
    // while the history holds at most rows + max_scrollback = 12 lines.
    g.apply_csi(&[], 'T');
    assert_eq!(g.cells.len(), 5);
    assert_eq!(row_text(&g, 0), "ab");
    assert_eq!(row_text(&g, 1), "cd");
    assert_eq!(g.cells[2], vec![blank(); 2]);
    assert_eq!(row_text(&g, 3), "ef");
    assert_eq!(row_text(&g, 4), "  ");
    assert_eq!((g.cursor_x, g.cursor_y), (0, 1));

    let red = Cell { c: ' ', fg: FG, bg: [170, 0, 0], bold: false };
    g.apply_sgr(&[41]);
    g.apply_csi(&[5], 'T');
    assert_eq!(g.cells.len(), 10);
    assert_eq!(g.cells[2], vec![blank(); 2]);
    for r in 3..8 {
        assert_eq!(g.cells[r], vec![red; 2]);
    }
    assert_eq!(row_text(&g, 8), "ef");
    assert_eq!(row_text(&g, 9), "  ");

    // Past the bound the last lines are dropped.
    g.apply_csi(&[5], 'T');
    assert_eq!(g.cells.len(), 12);
    assert_eq!(row_text(&g, 0), "ab");
    for r in 3..12 {
        assert_eq!(g.cells[r], vec![red; 2]);
    }
    assert_eq!((g.cursor_x, g.cursor_y), (0, 1));
}

#[test]
fn scroll_up_and_advance_cursor_directly() {
    let mut g = filled(2, 2);
    g.max_scrollback = 1;
    g.scroll_up();
    assert_eq!(g.cells.len(), 3);
    assert_eq!(row_text(&g, 2), "  ");
    g.scroll_up();
    // The history bound is rows + max_scrollback = 3: the oldest line goes.
    assert_eq!(g.cells.len(), 3);
    assert_eq!(row_text(&g, 0), "cd");
    g.cursor_x = 0;
    g.cursor_y = 0;
    g.advance_cursor();
    assert_eq!((g.cursor_x, g.cursor_y), (1, 0));
    g.advance_cursor();
    assert_eq!((g.cursor_x, g.cursor_y), (0, 1));
    g.advance_cursor();
    g.advance_cursor();
    assert_eq!((g.cursor_x, g.cursor_y), (0, 1));
    assert_eq!(g.cells.len(), 3);
    assert_eq!(row_text(&g, 0), "  ");
}

#[test]
fn scroll_up_shifts_screen_on_concrete_grid() {
    let mut g = filled(2, 3);
    g.cursor_y = 2;
    g.cursor_x = 0;
    g.execute(b'\n');
    assert_eq!(live_row_text(&g, 0), "cd");
    assert_eq!(live_row_text(&g, 1), "ef");
    assert_eq!(live_row_text(&g, 2), "  ");
}

#[test]
fn sgr_attributes_and_colours() {
    let mut g = grid(2, 1, 0);
    g.apply_sgr(&[1]);
    assert!(g.current_cell().bold);
    g.apply_sgr(&[22]);
    assert!(!g.current_cell().bold);
    g.apply_sgr(&[33, 46]);
    assert_eq!(g.current_cell().fg, [170, 170, 0]);
    assert_eq!(g.current_cell().bg, [0, 170, 170]);
    g.apply_sgr(&[95, 107]);
    assert_eq!(g.current_cell().fg, [255, 85, 255]);
    assert_eq!(g.current_cell().bg, [255, 255, 255]);
    g.apply_sgr(&[39]);
    assert_eq!(g.current_cell().fg, FG);
    g.apply_sgr(&[49]);
    assert_eq!(g.current_cell().bg, BG);
    g.apply_sgr(&[38, 2, 1, 2, 300]);
    assert_eq!(g.current_cell().fg, [1, 2, 44]);
    g.apply_sgr(&[48, 5, 196]);
    assert_eq!(g.current_cell().bg, [255, 0, 0]);
    g.apply_sgr(&[1, 4, 7]);
    assert!(g.current_cell().bold);
    g.apply_sgr(&[]);
    assert_eq!(g.current_cell(), blank());
}

#[test]
fn sgr_reset_forms_agree() {
    let mut a = grid(2, 1, 0);
    let mut b = grid(2, 1, 0);
    a.apply_sgr(&[1, 31]);
    b.apply_sgr(&[1, 31]);
    a.apply_sgr(&[]);
    b.apply_sgr(&[0]);
    assert_eq!(a.current_cell(), b.current_cell());
    assert_eq!(a.current_cell(), blank());
}

#[test]
fn sgr_256_form_matches_basic_form() {
    for n in 0u16..8 {
        let mut a = grid(1, 1, 0);
        let mut b = grid(1, 1, 0);
        a.apply_sgr(&[38, 5, n]);
        b.apply_sgr(&[30 + n]);
        assert_eq!(a.current_cell(), b.current_cell());
        a.apply_sgr(&[48, 5, n + 8]);
        b.apply_sgr(&[100 + n]);
        assert_eq!(a.current_cell(), b.current_cell());
    }
}

#[test]
fn sgr_incomplete_extended_colour_is_ignored() {
    let mut g = grid(1, 1, 0);
    g.apply_sgr(&[38, 2, 10, 20]);
    assert_eq!(g.current_cell().fg, FG);
    g.apply_sgr(&[38, 5]);
    assert_eq!(g.current_cell().fg, FG);
    g.apply_sgr(&[48]);
    assert_eq!(g.current_cell().bg, BG);
    // `38;2` is skipped as a whole; the 31 after it still applies.
    g.apply_sgr(&[38, 2, 1, 2, 3, 31]);
    assert_eq!(g.current_cell().fg, [170, 0, 0]);
}

#[test]
fn scroll_view_is_clamped_and_undone() {
    let mut g = grid(1, 2, 10);
    type_str(&mut g, "abcdef");
    // 7 lines of history, 2 on screen: 5 can be scrolled back.
    assert_eq!(g.cells.len(), 7);
    assert_eq!(g.visible_start(), 5);
    g.scroll_view(2);
    assert_eq!(g.scroll_offset, 2);
    assert_eq!(g.visible_start(), 3);
    g.scroll_view(-2);
    assert_eq!(g.scroll_offset, 0);
    g.scroll_view(100);
    assert_eq!(g.scroll_offset, 5);
    assert_eq!(g.visible_start(), 0);
    g.scroll_view(-100);
    assert_eq!(g.scroll_offset, 0);
    g.scroll_view(3);
    g.scroll_to_bottom();
    assert_eq!(g.scroll_offset, 0);
    assert_eq!(g.visible_start(), 5);
    // An offset beyond isize::MAX reads as negative and is clamped to 0.
    g.scroll_offset = usize::MAX;
    g.scroll_view(0);
    assert_eq!(g.scroll_offset, 0);
}

#[test]
fn resize_keeps_what_fits() {
    let mut g = filled(3, 2);
    g.cursor_x = 2;
    g.cursor_y = 1;
    g.resize(2, 4);
    assert_eq!((g.cols, g.rows), (2, 4));
    assert_eq!(g.cells.len(), 4);
    assert_eq!(row_text(&g, 0), "ab");
    assert_eq!(row_text(&g, 1), "de");
    assert_eq!(row_text(&g, 2), "  ");
    assert_eq!((g.cursor_x, g.cursor_y), (1, 1));
    g.resize(5, 1);
    assert_eq!(g.cells.len(), 4);
    assert_eq!(row_text(&g, 0), "ab   ");
    assert_eq!(g.cells[0][4], blank());
    assert_eq!((g.cursor_x, g.cursor_y), (1, 0));
    g.resize(0, 0);
    assert_eq!((g.cursor_x, g.cursor_y), (0, 0));
    assert!(g.cells.iter().all(|r| r.is_empty()));
}

#[test]
fn draw_list_swaps_colours_under_cursor_in_live_view() {
    let mut g = filled(2, 2);
    g.cursor_x = 1;
    g.cursor_y = 0;
    let cells = g.draw_list();
    assert_eq!(cells.len(), 4);
    assert_eq!(cells[0], CellDraw { row: 0, col: 0, c: 'a', fg: FG, bg: BG });
    assert_eq!(cells[1], CellDraw { row: 0, col: 1, c: 'b', fg: BG, bg: FG });
    assert_eq!(cells[3], CellDraw { row: 1, col: 1, c: 'd', fg: FG, bg: BG });
    g.max_scrollback = 5;
    g.execute(b'\n');
    g.execute(b'\n');
    g.scroll_view(1);
    let cells = g.draw_list();
    assert_eq!(cells[0].c, 'a');
    assert!(cells.iter().all(|d| d.fg == FG));
}

#[test]
fn overflow_checks_accept_ordinary_grids() {
    let g = grid(80, 24, 1000);
    assert!(g.can_print());
    assert!(g.can_execute(b'\n'));
    assert!(g.can_execute(b'\t'));
    assert!(g.can_apply_csi(&[5], 'B'));
    let z = grid(0, 0, 0);
    assert!(!z.can_execute(b'\t'));
    assert!(!z.can_apply_csi(&[], 'H'));
    assert!(z.can_apply_csi(&[], 'A'));
}
