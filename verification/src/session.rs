//! The decisions the terminal window takes on user input: what a key press
//! sends and does to the view, and the grid size for a window size.

use vstd::prelude::*;

use crate::keys::{is_quit_key, key_bytes, key_to_bytes, quits, Key, Modifiers};
use crate::model::GridModel;
use crate::terminal::Grid;

verus! {

/// What a key press asks of the terminal.
pub struct KeyOutcome {
    /// The bytes to write to the shell.
    pub bytes: Vec<u8>,
    /// Whether the terminal should quit.
    pub quit: bool,
}

/// A key press: returns the bytes to send to the shell and whether to quit
/// (Escape quits and sends nothing); when there are bytes to send, the view
/// jumps back to the live screen.
pub fn key_press(grid: &mut Grid, key: &Key, mods: Modifiers) -> (outcome: KeyOutcome)
    ensures
        outcome.bytes@ == key_bytes(*key, mods),
        outcome.quit == quits(*key),
        outcome.bytes@.len() > 0 ==> final(grid)@ == (GridModel { scroll_offset: 0, ..old(grid)@ }),
        outcome.bytes@.len() == 0 ==> final(grid)@ == old(grid)@,
{
    let bytes = key_to_bytes(key, mods);
    if bytes.len() > 0 {
        grid.scroll_to_bottom();
    }
    KeyOutcome { bytes, quit: is_quit_key(key) }
}

/// The number of whole `cell`-pixel cells in `pixels`, at least 1.
pub open spec fn cells_across(pixels: int, cell: int) -> nat {
    let n = pixels / cell;
    if n >= 1 { n as nat } else { 1 }
}

/// The grid size (columns, lines) for a window of `width` × `height`
/// pixels and cells of `cell_w` × `cell_h` pixels: whole cells, at least one
/// each way.
pub fn grid_size(width: u32, height: u32, cell_w: usize, cell_h: usize) -> (dims: (usize, usize))
    requires
        cell_w > 0,
        cell_h > 0,
    ensures
        dims.0 == cells_across(width as int, cell_w as int),
        dims.1 == cells_across(height as int, cell_h as int),
{
    let cols = width as usize / cell_w;
    let rows = height as usize / cell_h;
    (if cols >= 1 { cols } else { 1 }, if rows >= 1 { rows } else { 1 })
}

/// A window resize: the grid is resized to the whole cells that fit, and
/// that size (columns, lines) is returned for the pseudo-terminal.
pub fn window_resized(grid: &mut Grid, width: u32, height: u32, cell_w: usize, cell_h: usize) -> (dims: (usize, usize))
    requires
        cell_w > 0,
        cell_h > 0,
    ensures
        dims.0 == cells_across(width as int, cell_w as int),
        dims.1 == cells_across(height as int, cell_h as int),
        final(grid)@ == old(grid)@.resize(dims.0 as nat, dims.1 as nat),
{
    let dims = grid_size(width, height, cell_w, cell_h);
    grid.resize(dims.0, dims.1);
    dims
}

} // verus!
