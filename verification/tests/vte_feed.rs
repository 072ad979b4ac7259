use fermi_term::terminal::{Cell, Grid};
use fermi_term::vte_params::param_values;

const FG: [u8; 3] = [200, 200, 200];
const BG: [u8; 3] = [14, 14, 26];

struct Feed<'a> {
    grid: &'a mut Grid,
    values: Vec<Vec<u16>>,
}

impl vte::Perform for Feed<'_> {
    fn print(&mut self, c: char) {
        self.grid.print(c);
    }

    fn execute(&mut self, byte: u8) {
        self.grid.execute(byte);
    }

    fn csi_dispatch(&mut self, params: &vte::Params, intermediates: &[u8], ignore: bool, action: char) {
        self.values.push(param_values(params));
        self.grid.csi_dispatch(params, intermediates, ignore, action);
    }
}

fn feed(grid: &mut Grid, bytes: &[u8]) -> Vec<Vec<u16>> {
    let mut parser = vte::Parser::new();
    let mut f = Feed { grid, values: Vec::new() };
    for &b in bytes {
        parser.advance(&mut f, b);
    }
    f.values
}

fn text(g: &Grid, row: usize) -> String {
    g.cells[row].iter().map(|c| c.c).collect()
}

#[test]
fn parsed_parameters_are_first_values() {
    let mut g = Grid::new(10, 3, 0, FG, BG);
    let values = feed(&mut g, b"\x1b[2;5H\x1b[m\x1b[38:2:1:2:3m");
    assert_eq!(values, vec![vec![2, 5], vec![0], vec![38]]);
    assert_eq!((g.cursor_x, g.cursor_y), (4, 1));
    // `38` alone (its colour given as subparameters) changes nothing.
    assert_eq!(g.current_cell().fg, FG);
}

#[test]
fn shell_output_is_laid_out_on_the_grid() {
    let mut g = Grid::new(6, 3, 10, FG, BG);
    feed(&mut g, b"hi\r\n\x1b[31mred\x1b[0m!\r\nab\x1b[1;2H\x1b[K");
    assert_eq!(text(&g, 0), "h     ");
    assert_eq!(text(&g, 1), "red!  ");
    assert_eq!(text(&g, 2), "ab    ");
    assert_eq!(g.cells[1][0], Cell { c: 'r', fg: [170, 0, 0], bg: BG, bold: false });
    assert_eq!(g.cells[1][3], Cell { c: '!', fg: FG, bg: BG, bold: false });
    assert_eq!((g.cursor_x, g.cursor_y), (1, 0));
}

#[test]
fn clear_screen_sequence_blanks_everything() {
    let mut g = Grid::new(4, 2, 0, FG, BG);
    feed(&mut g, b"abcdefg\x1b[2J");
    assert!(g.cells.iter().all(|r| r.iter().all(|c| c.c == ' ')));
    assert_eq!((g.cursor_x, g.cursor_y), (0, 0));
}

#[test]
fn checked_dispatch_refuses_overflowing_sequences() {
    struct Checked<'a>(&'a mut Grid, Vec<bool>);
    impl vte::Perform for Checked<'_> {
        fn csi_dispatch(&mut self, params: &vte::Params, intermediates: &[u8], ignore: bool, action: char) {
            let applied = self.0.csi_dispatch_checked(params, intermediates, ignore, action);
            self.1.push(applied);
        }
    }
    let mut g = Grid::new(0, 0, 0, FG, BG);
    let mut parser = vte::Parser::new();
    let mut c = Checked(&mut g, Vec::new());
    for &b in b"\x1b[3B\x1b[2A".iter() {
        parser.advance(&mut c, b);
    }
    // `B` on a grid without lines cannot run; `A` can.
    assert_eq!(c.1, vec![false, true]);
}
