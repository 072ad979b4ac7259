//! Terminal-emulation core: the character grid with its scrollback history,
//! the escape-sequence actions that edit it, the colour palettes, keyboard
//! encoding and the glyph-atlas packing used by the renderer.

use vstd::prelude::*;

pub mod atlas;
pub mod colors;
pub mod keys;
pub mod laws;
pub mod model;
pub mod session;
pub mod terminal;
pub mod vte_params;

verus! {
}
