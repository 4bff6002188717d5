use vstd::prelude::*;

use crate::framebuffer::{in_bounds, Framebuffer, MAX_SIDE};

verus! {

/// Coverage from which a rasterized sample lights its pixel.
pub const COVERAGE_THRESHOLD: u8 = 128;

/// One rasterized sample of a glyph, relative to the glyph's origin.
#[derive(Clone, Copy, Debug, PartialEq, Eq, Structural)]
pub struct GlyphPixel {
    pub dx: i16,
    pub dy: i16,
    /// How much of the pixel the outline covers, 0 (none) to 255 (all).
    pub coverage: u8,
}

/// A glyph as the rasterizer hands it over: its samples and how far it
/// moves the cursor to the right.
pub struct Glyph {
    pub advance: u16,
    pub pixels: Vec<GlyphPixel>,
}

/// The cursor's offset from the text origin when glyph `i` is drawn: the sum
/// of the advances of the glyphs before it.
pub open spec fn cursor(glyphs: Seq<Glyph>, i: int) -> int
    decreases i,
{
    if i <= 0 {
        0
    } else {
        cursor(glyphs, i - 1) + glyphs[i - 1].advance
    }
}

/// Sample `k` of glyph `g`, drawn with its origin at `(gx, gy)`, lights `(x, y)`.
pub open spec fn sample_lights(g: Glyph, gx: int, gy: int, k: int, x: int, y: int) -> bool {
    &&& 0 <= k < g.pixels@.len()
    &&& gx + g.pixels@[k].dx == x
    &&& gy + g.pixels@[k].dy == y
    &&& g.pixels@[k].coverage >= COVERAGE_THRESHOLD
}

/// One of the first `m` samples of `g` lights `(x, y)`.
pub open spec fn glyph_lights(g: Glyph, gx: int, gy: int, m: int, x: int, y: int) -> bool {
    exists|k: int| 0 <= k < m && #[trigger] sample_lights(g, gx, gy, k, x, y)
}

/// One of the first `n` glyphs, laid out from `(ox, oy)`, lights `(x, y)`.
pub open spec fn text_lights(glyphs: Seq<Glyph>, ox: int, oy: int, n: int, x: int, y: int) -> bool {
    exists|i: int|
        0 <= i < n && #[trigger] glyph_lights(
            glyphs[i],
            ox + cursor(glyphs, i),
            oy,
            glyphs[i].pixels@.len() as int,
            x,
            y,
        )
}

proof fn lemma_cursor_monotone(glyphs: Seq<Glyph>, i: int, j: int)
    requires
        0 <= i <= j,
    ensures
        cursor(glyphs, i) <= cursor(glyphs, j),
    decreases j - i,
{
    if i < j {
        lemma_cursor_monotone(glyphs, i, j - 1);
    }
}

/// Draws a line of rasterized glyphs with its origin at `(x, y)`: glyph `i`
/// is placed at the origin moved right by the advances of the glyphs before
/// it, and each of its samples with at least `COVERAGE_THRESHOLD` coverage
/// turns its pixel on. Samples outside the framebuffer are skipped; no other
/// pixel changes.
pub fn draw_text(fb: &mut Framebuffer, x: i32, y: i32, glyphs: &Vec<Glyph>)
    requires
        old(fb).wf(),
    ensures
        final(fb).keeps_outside(
            old(fb),
            |i: int, j: int| text_lights(glyphs@, x as int, y as int, glyphs@.len() as int, i, j),
            true,
        ),
{
    let ghost gs = glyphs@;
    let w = fb.width();
    let limit: i64 = w as i64 + 32768;
    let mut pen: i64 = x as i64;
    let mut i: usize = 0;
    while i < glyphs.len() && pen <= limit
        invariant
            i <= gs.len(),
            pen >= x,
            gs == glyphs@,
            pen == x + cursor(gs, i as int),
            pen <= 0x8000_0000 + 65535,
            limit == w + 32768,
            w == fb.width_spec(),
            w <= MAX_SIDE,
            fb.keeps_outside(
                old(fb),
                |a: int, b: int| old(fb).pixel(a, b) || text_lights(gs, x as int, y as int, i as int, a, b),
                true,
            ),
        decreases gs.len() - i,
    {
        let g = &glyphs[i];
        let mut k: usize = 0;
        while k < g.pixels.len()
            invariant
                i < gs.len(),
                gs == glyphs@,
                *g == gs[i as int],
                k <= g.pixels@.len(),
                pen == x + cursor(gs, i as int),
                x <= pen <= limit,
                limit == w + 32768,
                w == fb.width_spec(),
                w <= MAX_SIDE,
                fb.keeps_outside(
                    old(fb),
                    |a: int, b: int|
                        old(fb).pixel(a, b) || text_lights(gs, x as int, y as int, i as int, a, b)
                            || glyph_lights(*g, pen as int, y as int, k as int, a, b),
                    true,
                ),
            decreases g.pixels@.len() - k,
        {
            let p = g.pixels[k];
            proof {
                lemma_cursor_monotone(gs, 0, i as int);
            }
            let ghost before = *fb;
            if p.coverage >= COVERAGE_THRESHOLD {
                fb.set_pixel(pen + p.dx as i64, y as i64 + p.dy as i64, true);
            }
            proof {
                assert forall|a: int, b: int|
                    glyph_lights(*g, pen as int, y as int, k + 1, a, b) <==> glyph_lights(
                        *g,
                        pen as int,
                        y as int,
                        k as int,
                        a,
                        b,
                    ) || sample_lights(*g, pen as int, y as int, k as int, a, b) by {
                    if sample_lights(*g, pen as int, y as int, k as int, a, b) {
                        assert(glyph_lights(*g, pen as int, y as int, k + 1, a, b));
                    }
                    if glyph_lights(*g, pen as int, y as int, k + 1, a, b) {
                        let kk = choose|kk: int|
                            0 <= kk < k + 1 && #[trigger] sample_lights(
                                *g,
                                pen as int,
                                y as int,
                                kk,
                                a,
                                b,
                            );
                        if kk < k {
                            assert(glyph_lights(*g, pen as int, y as int, k as int, a, b));
                        }
                    }
                }
                assert forall|a: int, b: int|
                    in_bounds(fb.width_spec(), fb.height_spec(), a, b) implies #[trigger] fb.pixel(a, b)
                    == (old(fb).pixel(a, b) || text_lights(gs, x as int, y as int, i as int, a, b)
                    || glyph_lights(*g, pen as int, y as int, k + 1, a, b)) by {
                    assert(before.pixel(a, b) == (old(fb).pixel(a, b) || text_lights(
                        gs,
                        x as int,
                        y as int,
                        i as int,
                        a,
                        b,
                    ) || glyph_lights(*g, pen as int, y as int, k as int, a, b)));
                }
            }
            k = k + 1;
        }
        proof {
            assert forall|a: int, b: int|
                text_lights(gs, x as int, y as int, i + 1, a, b) <==> text_lights(
                    gs,
                    x as int,
                    y as int,
                    i as int,
                    a,
                    b,
                ) || glyph_lights(*g, pen as int, y as int, g.pixels@.len() as int, a, b) by {
                if glyph_lights(*g, pen as int, y as int, g.pixels@.len() as int, a, b) {
                    assert(glyph_lights(
                        gs[i as int],
                        x + cursor(gs, i as int),
                        y as int,
                        gs[i as int].pixels@.len() as int,
                        a,
                        b,
                    ));
                }
                if text_lights(gs, x as int, y as int, i + 1, a, b) {
                    let n = choose|n: int|
                        0 <= n < i + 1 && #[trigger] glyph_lights(
                            gs[n],
                            x + cursor(gs, n),
                            y as int,
                            gs[n].pixels@.len() as int,
                            a,
                            b,
                        );
                    if n < i {
                        assert(text_lights(gs, x as int, y as int, i as int, a, b));
                    }
                }
            }
        }
        pen = pen + g.advance as i64;
        i = i + 1;
    }
    if i < glyphs.len() {
        proof {
                assert forall|a: int, b: int|
                    in_bounds(fb.width_spec(), fb.height_spec(), a, b) && text_lights(
                        gs,
                        x as int,
                        y as int,
                        gs.len() as int,
                        a,
                        b,
                    ) implies text_lights(gs, x as int, y as int, i as int, a, b) by {
                    let n = choose|n: int|
                        0 <= n < gs.len() && #[trigger] glyph_lights(
                            gs[n],
                            x + cursor(gs, n),
                            y as int,
                            gs[n].pixels@.len() as int,
                            a,
                            b,
                        );
                    if n >= i {
                        lemma_cursor_monotone(gs, i as int, n);
                        let k = choose|k: int|
                            0 <= k < gs[n].pixels@.len() && #[trigger] sample_lights(
                                gs[n],
                                x + cursor(gs, n),
                                y as int,
                                k,
                                a,
                                b,
                            );
                        assert(false);
                    }
                }
            }
    }
    proof {
        assert forall|a: int, b: int|
            in_bounds(fb.width_spec(), fb.height_spec(), a, b) implies #[trigger] fb.pixel(a, b)
            == if text_lights(gs, x as int, y as int, gs.len() as int, a, b) {
            true
        } else {
            old(fb).pixel(a, b)
        } by {
            if text_lights(gs, x as int, y as int, i as int, a, b) {
                let n = choose|n: int|
                    0 <= n < i && #[trigger] glyph_lights(
                        gs[n],
                        x + cursor(gs, n),
                        y as int,
                        gs[n].pixels@.len() as int,
                        a,
                        b,
                    );
                assert(text_lights(gs, x as int, y as int, gs.len() as int, a, b));
            }
        }
    }
}

} // verus!
