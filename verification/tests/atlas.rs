use fermi_term::atlas::{GlyphAtlas, GlyphCache, GlyphPlacement, ATLAS_H, ATLAS_W};

#[test]
fn new_atlas_is_empty() {
    let a = GlyphAtlas::new();
    assert_eq!(a.pixels.len(), (ATLAS_W * ATLAS_H) as usize);
    assert!(a.pixels.iter().all(|&p| p == 0));
    assert_eq!((a.cursor_x, a.cursor_y, a.row_h, a.dirty), (0, 0, 0, false));
}

#[test]
fn glyphs_are_packed_left_to_right_with_a_gap() {
    let mut a = GlyphAtlas::new();
    assert_eq!(a.add_glyph(3, 2, &[1, 2, 3, 4, 5, 6]), Some((0, 0)));
    assert_eq!(&a.pixels[0..4], &[1, 2, 3, 0]);
    let w = ATLAS_W as usize;
    assert_eq!(&a.pixels[w..w + 4], &[4, 5, 6, 0]);
    assert_eq!((a.cursor_x, a.cursor_y, a.row_h), (4, 0, 2));
    assert!(a.dirty);
    assert_eq!(a.add_glyph(2, 5, &[9; 10]), Some((4, 0)));
    assert_eq!((a.cursor_x, a.cursor_y, a.row_h), (7, 0, 5));
    assert_eq!(a.pixels[4 * w + 5], 9);
    a.mark_uploaded();
    assert!(!a.dirty);
}

#[test]
fn full_shelf_moves_to_next_shelf() {
    let mut a = GlyphAtlas::new();
    a.add_glyph(1, 5, &[1; 5]);
    a.cursor_x = 2047;
    assert_eq!(a.add_glyph(2, 1, &[7, 7]), Some((0, 6)));
    assert_eq!((a.cursor_x, a.cursor_y, a.row_h), (3, 6, 1));
    assert_eq!(a.pixels[6 * ATLAS_W as usize], 7);
}

#[test]
fn full_atlas_places_nothing() {
    let mut a = GlyphAtlas::new();
    a.cursor_y = 2047;
    let before = a.pixels.clone();
    assert_eq!(a.add_glyph(1, 2, &[1, 1]), None);
    assert_eq!(a.pixels, before);
    assert!(!a.dirty);
}

#[test]
fn empty_glyphs_take_no_space() {
    let mut a = GlyphAtlas::new();
    assert_eq!(a.add_glyph(0, 3, &[]), None);
    assert_eq!(a.add_glyph(3, 0, &[1, 2, 3]), None);
    assert_eq!(a.add_glyph(2, 2, &[]), None);
    assert_eq!((a.cursor_x, a.cursor_y, a.row_h, a.dirty), (0, 0, 0, false));
    assert!(a.can_add(0, 0, &[]));
}

#[test]
fn placed_glyphs_never_overlap() {
    let mut a = GlyphAtlas::new();
    let mut rects: Vec<(u32, u32, u32, u32)> = Vec::new();
    let sizes = [(700usize, 30usize), (900, 12), (800, 40), (100, 100), (2048, 5), (60, 60), (1500, 20)];
    for &(w, h) in sizes.iter() {
        let bitmap = vec![1u8; w * h];
        assert!(a.can_add(w, h, &bitmap));
        if let Some((x, y)) = a.add_glyph(w, h, &bitmap) {
            assert!(y + h as u32 <= ATLAS_H && x + w as u32 <= ATLAS_W);
            rects.push((x, y, w as u32, h as u32));
        }
    }
    assert_eq!(rects.len(), sizes.len());
    for i in 0..rects.len() {
        for j in i + 1..rects.len() {
            let (x1, y1, w1, h1) = rects[i];
            let (x2, y2, w2, h2) = rects[j];
            let apart = x1 + w1 <= x2 || x2 + w2 <= x1 || y1 + h1 <= y2 || y2 + h2 <= y1;
            assert!(apart, "{:?} overlaps {:?}", rects[i], rects[j]);
        }
    }
}

#[test]
fn glyph_cache_packs_each_character_once() {
    let mut c = GlyphCache::new();
    let code = 'A' as u32;
    assert_eq!(c.lookup(code), None);
    let p = c.add(code, 3, 2, &[1, 2, 3, 4, 5, 6], 1, -2);
    assert_eq!(p, Some(GlyphPlacement { x: 0, y: 0, w: 3, h: 2, xmin: 1, ymin: -2 }));
    assert_eq!(c.lookup(code), Some(p));
    let packed = (c.atlas.cursor_x, c.atlas.cursor_y, c.atlas.row_h);
    assert_eq!(packed, (4, 0, 2));
    // A second request finds the first placement; the atlas does not move.
    assert_eq!(c.lookup(code), Some(p));
    assert_eq!((c.atlas.cursor_x, c.atlas.cursor_y, c.atlas.row_h), packed);
    let q = c.add('B' as u32, 2, 2, &[7; 4], 0, 0);
    assert_eq!(q, Some(GlyphPlacement { x: 4, y: 0, w: 2, h: 2, xmin: 0, ymin: 0 }));
    assert_eq!(c.lookup(code), Some(p));
    assert_eq!(c.atlas.pixels[4], 7);
}

#[test]
fn glyph_cache_records_empty_glyphs() {
    let mut c = GlyphCache::new();
    let code = ' ' as u32;
    assert_eq!(c.add(code, 0, 0, &[], 0, 0), None);
    assert_eq!(c.lookup(code), Some(None));
    assert_eq!((c.atlas.cursor_x, c.atlas.cursor_y, c.atlas.row_h, c.atlas.dirty), (0, 0, 0, false));
}
