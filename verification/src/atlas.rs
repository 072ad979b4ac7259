//! The glyph atlas: a 2048×2048 one-byte-per-pixel image into which glyph
//! bitmaps are packed row by row, left to right.

use vstd::prelude::*;

use std::collections::HashMap;

verus! {

/// Width of the atlas in pixels.
pub const ATLAS_W: u32 = 2048;
/// Height of the atlas in pixels.
pub const ATLAS_H: u32 = 2048;

/// The state of the atlas: its pixels and where the next glyph goes.
pub ghost struct AtlasModel {
    pub pixels: Seq<u8>,
    /// Column at which the next glyph of the current shelf starts.
    pub cursor_x: nat,
    /// Top line of the current shelf.
    pub cursor_y: nat,
    /// Height of the tallest glyph on the current shelf.
    pub row_h: nat,
    /// Whether pixels changed since the last upload.
    pub dirty: bool,
}

/// `pixels` with line `row` of a `w`-pixel-wide bitmap copied to the atlas
/// position (`ax`, `ay + row`); pixels past the end of the buffer are dropped.
pub open spec fn blit_line(pixels: Seq<u8>, ax: int, ay: int, w: int, bitmap: Seq<u8>, row: int) -> Seq<u8> {
    let start = (ay + row) * ATLAS_W + ax;
    Seq::new(pixels.len(), |i: int| if start <= i && i < start + w { bitmap[row * w + (i - start)] } else { pixels[i] })
}

/// `pixels` with the first `k` lines of the bitmap copied, top to bottom.
pub open spec fn blit(pixels: Seq<u8>, ax: int, ay: int, w: int, bitmap: Seq<u8>, k: nat) -> Seq<u8>
    decreases k,
{
    if k == 0 {
        pixels
    } else {
        blit_line(blit(pixels, ax, ay, w, bitmap, (k - 1) as nat), ax, ay, w, bitmap, k - 1)
    }
}

impl AtlasModel {
    /// The state after moving to a new shelf when a glyph `w` pixels wide
    /// does not fit on the current one.
    pub open spec fn shelf_for(self, w: nat) -> AtlasModel {
        if self.cursor_x + w > ATLAS_W {
            AtlasModel { cursor_x: 0, cursor_y: self.cursor_y + self.row_h + 1, row_h: 0, ..self }
        } else {
            self
        }
    }

    /// Adding a `w` × `h` glyph bitmap: empty glyphs take no space; a glyph
    /// goes at the cursor of its shelf, unless the atlas is full below it;
    /// its pixels are copied in, the cursor moves past it with one pixel of
    /// gap, and the shelf grows to its height. Returns the new state and
    /// the glyph's top-left corner, if it was placed.
    pub open spec fn add_glyph(self, w: nat, h: nat, bitmap: Seq<u8>) -> (AtlasModel, Option<(nat, nat)>) {
        if bitmap.len() == 0 || w == 0 || h == 0 {
            (self, None)
        } else {
            let s = self.shelf_for(w);
            if s.cursor_y + h > ATLAS_H {
                (s, None)
            } else {
                (AtlasModel {
                    pixels: blit(s.pixels, s.cursor_x as int, s.cursor_y as int, w as int, bitmap, h),
                    cursor_x: s.cursor_x + w + 1,
                    row_h: if s.row_h >= h { s.row_h } else { h },
                    dirty: true,
                    ..s
                }, Some((s.cursor_x, s.cursor_y)))
            }
        }
    }

    /// `add_glyph` can run without overflow: the glyph's size fits in
    /// `u32`, and the cursor arithmetic and pixel indices stay below
    /// `u32::MAX`.
    pub open spec fn add_ok(self, w: nat, h: nat, bitmap: Seq<u8>) -> bool {
        (bitmap.len() > 0 && w > 0 && h > 0) ==> {
            let s = self.shelf_for(w);
            &&& w <= u32::MAX
            &&& h <= u32::MAX
            &&& bitmap.len() >= w * h
            &&& self.cursor_x + w <= u32::MAX
            &&& self.cursor_x + w > ATLAS_W ==> self.cursor_y + self.row_h + 1 <= u32::MAX
            &&& s.cursor_y + h <= u32::MAX
            &&& s.cursor_y + h <= ATLAS_H ==> (s.cursor_y + h) * ATLAS_W + s.cursor_x + w + 1 <= u32::MAX
        }
    }

    /// Atlas position (`x`, `y`) lies in the part already handed out: above
    /// the current shelf, or on it left of the cursor.
    pub open spec fn used(self, x: int, y: int) -> bool {
        0 <= x && 0 <= y && (y < self.cursor_y || (y < self.cursor_y + self.row_h + 1 && x < self.cursor_x))
    }
}

/// The glyph atlas as kept in memory before it is uploaded to the GPU.
pub struct GlyphAtlas {
    /// `ATLAS_W * ATLAS_H` pixels, row-major.
    pub pixels: Vec<u8>,
    pub cursor_x: u32,
    pub cursor_y: u32,
    pub row_h: u32,
    pub dirty: bool,
}

impl View for GlyphAtlas {
    type V = AtlasModel;

    open spec fn view(&self) -> AtlasModel {
        AtlasModel {
            pixels: self.pixels@,
            cursor_x: self.cursor_x as nat,
            cursor_y: self.cursor_y as nat,
            row_h: self.row_h as nat,
            dirty: self.dirty,
        }
    }
}

impl GlyphAtlas {
    /// An empty (all-zero) atlas with the cursor at its top-left corner.
    pub fn new() -> (a: Self)
        ensures
            a@.pixels == Seq::new((ATLAS_W * ATLAS_H) as nat, |_i: int| 0u8),
            a@.cursor_x == 0,
            a@.cursor_y == 0,
            a@.row_h == 0,
            a@.dirty == false,
    {
        let pixels = vec![0u8; (ATLAS_W * ATLAS_H) as usize];
        assert(pixels@ =~= Seq::new((ATLAS_W * ATLAS_H) as nat, |_i: int| 0u8));
        GlyphAtlas { pixels, cursor_x: 0, cursor_y: 0, row_h: 0, dirty: false }
    }

    /// Marks the pixels as uploaded.
    pub fn mark_uploaded(&mut self)
        ensures
            final(self)@ == (AtlasModel { dirty: false, ..old(self)@ }),
    {
        self.dirty = false;
    }

    /// Copies line `row` of a `width`-pixel-wide bitmap to (`ax`, `ay + row`).
    fn blit_line(&mut self, ax: u32, ay: u32, width: usize, bitmap: &[u8], row: usize)
        requires
            width <= u32::MAX,
            bitmap@.len() >= row * width + width,
            (ay + row) * ATLAS_W + ax + width <= u32::MAX,
            row <= u32::MAX,
        ensures
            final(self)@ == (AtlasModel {
                pixels: blit_line(old(self)@.pixels, ax as int, ay as int, width as int, bitmap@, row as int),
                ..old(self)@
            }),
    {
        let ghost p0 = self@.pixels;
        let blen = bitmap.len();
        assert(blen == bitmap@.len());
        let base: usize = row * width;
        let start: u32 = (ay + row as u32) * ATLAS_W + ax;
        let mut col: usize = 0;
        while col < width
            invariant
                col <= width,
                width <= u32::MAX,
                start == (ay + row) * ATLAS_W + ax,
                start + width <= u32::MAX,
                bitmap@.len() >= row * width + width,
                base == row * width,
                blen == bitmap@.len(),
                self@ == (AtlasModel { pixels: self.pixels@, ..old(self)@ }),
                self.pixels@.len() == p0.len(),
                forall|i: int| 0 <= i < p0.len() ==> #[trigger] self.pixels@[i] ==
                    if start <= i && i < start + col { bitmap@[row * width + (i - start)] } else { p0[i] },
            decreases width - col,
        {
            let idx = (start + col as u32) as usize;
            let bm_idx = base + col;
            if idx < self.pixels.len() {
                self.pixels.set(idx, bitmap[bm_idx]);
            }
            col += 1;
        }
        assert(self.pixels@ =~= blit_line(p0, ax as int, ay as int, width as int, bitmap@, row as int));
    }

    /// Packs a `width` × `height` glyph bitmap (row-major) into the atlas
    /// and returns the top-left corner where it was placed; `None` for an
    /// empty glyph or when the atlas is full.
    pub fn add_glyph(&mut self, width: usize, height: usize, bitmap: &[u8]) -> (placed: Option<(u32, u32)>)
        requires
            old(self)@.add_ok(width as nat, height as nat, bitmap@),
        ensures
            ({
                let (m, p) = old(self)@.add_glyph(width as nat, height as nat, bitmap@);
                &&& final(self)@ == m
                &&& placed matches Some(q) ==> p == Some((q.0 as nat, q.1 as nat))
                &&& placed is None ==> p is None
            }),
    {
        if bitmap.len() == 0 || width == 0 || height == 0 {
            return None;
        }
        let gw = width as u32;
        let gh = height as u32;
        if self.cursor_x + gw > ATLAS_W {
            self.cursor_x = 0;
            self.cursor_y += self.row_h + 1;
            self.row_h = 0;
        }
        if self.cursor_y + gh > ATLAS_H {
            return None;
        }
        let ax = self.cursor_x;
        let ay = self.cursor_y;
        let ghost s = self@;
        let mut row: usize = 0;
        while row < height
            invariant
                row <= height,
                height <= u32::MAX,
                width <= u32::MAX,
                ay + height <= ATLAS_H,
                (ay + height) * ATLAS_W + ax + width + 1 <= u32::MAX,
                bitmap@.len() >= width * height,
                ax == s.cursor_x,
                ay == s.cursor_y,
                self@ == (AtlasModel {
                    pixels: blit(s.pixels, ax as int, ay as int, width as int, bitmap@, row as nat),
                    ..s
                }),
            decreases height - row,
        {
            proof {
                assert(row * width + width <= width * height) by (nonlinear_arith)
                    requires row < height;
                assert((ay + row) * ATLAS_W + ax + width <= (ay + height) * ATLAS_W + ax + width) by (nonlinear_arith)
                    requires row < height;
            }
            self.blit_line(ax, ay, width, bitmap, row);
            row += 1;
        }
        self.row_h = if self.row_h >= gh { self.row_h } else { gh };
        self.cursor_x += gw + 1;
        self.dirty = true;
        Some((ax, ay))
    }

    /// Whether `add_glyph(width, height, bitmap)` can run without overflow.
    pub fn can_add(&self, width: usize, height: usize, bitmap: &[u8]) -> (ok: bool)
        ensures
            ok == self@.add_ok(width as nat, height as nat, bitmap@),
    {
        if bitmap.len() == 0 || width == 0 || height == 0 {
            return true;
        }
        if width > u32::MAX as usize || height > u32::MAX as usize {
            return false;
        }
        let w = width as u64;
        let h = height as u64;
        match width.checked_mul(height) {
            None => return false,
            Some(area) => {
                if bitmap.len() < area {
                    return false;
                }
            },
        }
        let cx = self.cursor_x as u64;
        let cy = self.cursor_y as u64;
        let rh = self.row_h as u64;
        let max = u32::MAX as u64;
        if cx + w > max {
            return false;
        }
        let (sx, sy) = if cx + w > ATLAS_W as u64 {
            if cy + rh + 1 > max {
                return false;
            }
            (0u64, cy + rh + 1)
        } else {
            (cx, cy)
        };
        if sy + h > max {
            return false;
        }
        if sy + h <= ATLAS_H as u64 {
            (sy + h) * (ATLAS_W as u64) + sx + w + 1 <= max
        } else {
            true
        }
    }
}


/// Where a glyph sits in the atlas: its top-left corner and size, and the
/// bitmap's offsets (`xmin`, `ymin`) from the glyph origin.
#[derive(Clone, Copy, Debug, PartialEq, Eq)]
pub struct GlyphPlacement {
    pub x: u32,
    pub y: u32,
    pub w: u32,
    pub h: u32,
    pub xmin: i32,
    pub ymin: i32,
}

/// The state of a glyph cache: the atlas and, for each character code met
/// so far, its placement (`None` for a glyph that takes no space or did not
/// fit).
pub ghost struct CacheModel {
    pub atlas: AtlasModel,
    pub slots: Map<u32, Option<GlyphPlacement>>,
}

impl CacheModel {
    /// A request for the glyph of character `code`, rasterised as a `w` ×
    /// `h` bitmap with offsets `xmin`, `ymin`: a character met before gets
    /// its recorded placement and nothing changes; a new one is added to the
    /// atlas and its placement recorded. Returns the new state and the
    /// placement.
    pub open spec fn request(self, code: u32, w: nat, h: nat, bitmap: Seq<u8>, xmin: i32, ymin: i32)
        -> (CacheModel, Option<GlyphPlacement>)
    {
        if self.slots.contains_key(code) {
            (self, self.slots[code])
        } else {
            let (a, p) = self.atlas.add_glyph(w, h, bitmap);
            let slot = match p {
                Some(q) => Some(GlyphPlacement { x: q.0 as u32, y: q.1 as u32, w: w as u32, h: h as u32, xmin, ymin }),
                None => None,
            };
            (CacheModel { atlas: a, slots: self.slots.insert(code, slot) }, slot)
        }
    }
}

/// The glyph atlas with the placements of the characters packed so far.
pub struct GlyphCache {
    pub atlas: GlyphAtlas,
    pub slots: HashMap<u32, Option<GlyphPlacement>>,
}

impl View for GlyphCache {
    type V = CacheModel;

    open spec fn view(&self) -> CacheModel {
        CacheModel { atlas: self.atlas@, slots: self.slots@ }
    }
}

impl GlyphCache {
    /// An empty atlas and no characters recorded.
    pub fn new() -> (c: Self)
        ensures
            c@.atlas.pixels == Seq::new((ATLAS_W * ATLAS_H) as nat, |_i: int| 0u8),
            c@.atlas.cursor_x == 0,
            c@.atlas.cursor_y == 0,
            c@.atlas.row_h == 0,
            c@.atlas.dirty == false,
            c@.slots == Map::<u32, Option<GlyphPlacement>>::empty(),
    {
        GlyphCache { atlas: GlyphAtlas::new(), slots: HashMap::new() }
    }

    /// The recorded placement of character `code`, if it was met before.
    pub fn lookup(&self, code: u32) -> (slot: Option<Option<GlyphPlacement>>)
        ensures
            slot == if self@.slots.contains_key(code) { Some(self@.slots[code]) } else { None },
    {
        match self.slots.get(&code) {
            Some(p) => Some(*p),
            None => None,
        }
    }

    /// Packs the glyph of a character not met before and records where it went.
    pub fn add(&mut self, code: u32, width: usize, height: usize, bitmap: &[u8], xmin: i32, ymin: i32)
        -> (slot: Option<GlyphPlacement>)
        requires
            !old(self)@.slots.contains_key(code),
            old(self)@.atlas.add_ok(width as nat, height as nat, bitmap@),
        ensures
            (final(self)@, slot) == old(self)@.request(code, width as nat, height as nat, bitmap@, xmin, ymin),
    {
        let placed = self.atlas.add_glyph(width, height, bitmap);
        let slot = match placed {
            Some((x, y)) => Some(GlyphPlacement { x, y, w: width as u32, h: height as u32, xmin, ymin }),
            None => None,
        };
        self.slots.insert(code, slot);
        slot
    }
}

} // verus!
