//! The pixel math of the text renderer: compositing rasterized glyph
//! coverage into a premultiplied-ARGB bitmap with a transparent
//! background, the form the display server's alpha blending expects.

use vstd::prelude::*;

verus! {

/// Rendered text as a premultiplied-ARGB bitmap, row-major.
pub struct RenderedText {
    pub width: usize,
    pub height: usize,
    pub data: Vec<u32>,
}

/// One rasterized glyph, placed on the output bitmap: the top-left
/// corner it lands on, its size, and its row-major coverage bytes.
pub struct PlacedGlyph {
    pub x: i32,
    pub y: i32,
    pub width: usize,
    pub height: usize,
    pub coverage: Vec<u8>,
}

impl PlacedGlyph {
    pub open spec fn wf(&self) -> bool {
        self.coverage@.len() == self.width * self.height
    }
}

/// The row-major index of the pixel at column `px`, row `py`.
pub open spec fn pixel_index(w: int, px: int, py: int) -> int {
    py * w + px
}

/// A foreground channel scaled by glyph coverage.
pub open spec fn spec_scale_channel(channel: int, coverage: int) -> int {
    (channel * coverage) / 255
}

/// The foreground color premultiplied by the coverage: every channel,
/// the alpha included, is scaled by coverage/255.
pub open spec fn spec_premultiply(fg: u32, coverage: u8) -> int {
    let a = spec_scale_channel((fg as int) / 0x1000000, coverage as int);
    let r = spec_scale_channel(((fg as int) / 0x10000) % 256, coverage as int);
    let g = spec_scale_channel(((fg as int) / 0x100) % 256, coverage as int);
    let b = spec_scale_channel((fg as int) % 256, coverage as int);
    a * 0x1000000 + r * 0x10000 + g * 0x100 + b
}

/// Premultiplies one pixel of the (non-premultiplied) foreground color
/// by a coverage byte.
pub fn premultiply_pixel(fg: u32, coverage: u8) -> (r: u32)
    ensures
        r as int == spec_premultiply(fg, coverage),
{
    let cov: u32 = coverage as u32;
    let hi: u32 = fg / 0x1000000;
    let r0: u32 = (fg / 0x10000) % 256;
    let g0: u32 = (fg / 0x100) % 256;
    let b0: u32 = fg % 256;
    proof {
        assert(fg as int / 0x1000000 <= 255) by (nonlinear_arith)
            requires
                fg <= 0xFFFFFFFFu32,
        ;
        assert(hi * cov <= 65025 && r0 * cov <= 65025 && g0 * cov <= 65025 && b0 * cov <= 65025)
            by (nonlinear_arith)
            requires
                hi <= 255,
                r0 < 256,
                g0 < 256,
                b0 < 256,
                cov <= 255,
        ;
    }
    let a: u32 = hi * cov / 255;
    let red: u32 = r0 * cov / 255;
    let g: u32 = g0 * cov / 255;
    let b: u32 = b0 * cov / 255;
    proof {
        assert(a <= 255 && red <= 255 && g <= 255 && b <= 255) by (nonlinear_arith)
            requires
                a == hi * cov as int / 255,
                red == r0 * cov as int / 255,
                g == g0 * cov as int / 255,
                b == b0 * cov as int / 255,
                hi * cov <= 65025,
                r0 * cov <= 65025,
                g0 * cov <= 65025,
                b0 * cov <= 65025,
        ;
    }
    a * 0x1000000 + red * 0x10000 + g * 0x100 + b
}

/// What one glyph leaves on one output pixel: the premultiplied
/// foreground where the glyph covers it, the underlying value elsewhere.
pub open spec fn spec_blit_pixel(base: int, g: &PlacedGlyph, fg: u32, px: int, py: int) -> int {
    if g.x <= px < g.x + g.width && g.y <= py < g.y + g.height && g.coverage@[(py - g.y) * g.width
        + (px - g.x)] > 0 {
        spec_premultiply(fg, g.coverage@[(py - g.y) * g.width + (px - g.x)])
    } else {
        base
    }
}

/// Like `spec_blit_pixel`, but with the glyph cut off below row `rows`
/// and, on row `rows` itself, right of column `cols`: the part of the
/// glyph already composited mid-loop.
pub open spec fn spec_blit_pixel_partial(
    base: int,
    g: &PlacedGlyph,
    fg: u32,
    px: int,
    py: int,
    rows: int,
    cols: int,
) -> int {
    if g.x <= px < g.x + g.width && g.y <= py && ((py < g.y + rows) || (py == g.y + rows && px
        < g.x + cols)) && py < g.y + g.height && g.coverage@[(py - g.y) * g.width + (px - g.x)]
        > 0 {
        spec_premultiply(fg, g.coverage@[(py - g.y) * g.width + (px - g.x)])
    } else {
        base
    }
}

/// The color a pixel of the finished bitmap carries: transparent black
/// under no glyph, the premultiplied foreground of the last glyph whose
/// coverage touches it.
pub open spec fn spec_text_pixel(gs: Seq<PlacedGlyph>, fg: u32, px: int, py: int) -> int
    decreases gs.len(),
{
    if gs.len() == 0 {
        0
    } else {
        spec_blit_pixel(spec_text_pixel(gs.drop_last(), fg, px, py), &gs.last(), fg, px, py)
    }
}

/// Distinct pixel coordinates occupy distinct row-major indices.
proof fn lemma_row_major_injective(w: int, px: int, py: int, qx: int, qy: int)
    requires
        w > 0,
        0 <= px < w,
        0 <= qx < w,
        py != qy || px != qx,
    ensures
        pixel_index(w, px, py) != pixel_index(w, qx, qy),
{
    if py == qy {
    } else {
        assert(py * w + px != qy * w + qx) by (nonlinear_arith)
            requires
                w > 0,
                0 <= px < w,
                0 <= qx < w,
                py != qy,
        ;
    }
}

/// A row-major index of an in-bounds pixel is in bounds.
proof fn lemma_pixel_index_bounds(w: int, h: int, px: int, py: int)
    requires
        0 <= px < w,
        0 <= py < h,
    ensures
        0 <= pixel_index(w, px, py) < w * h,
{
    assert(0 <= py * w + px < w * h) by (nonlinear_arith)
        requires
            0 <= px < w,
            0 <= py < h,
    ;
}

/// Composites one texel of a placed glyph into the bitmap.
fn blit_texel(
    data: &mut Vec<u32>,
    buf_w: usize,
    buf_h: usize,
    g: &PlacedGlyph,
    fg: u32,
    gx: usize,
    gy: usize,
)
    requires
        g.wf(),
        gx < g.width,
        gy < g.height,
        g.width <= 32768,
        g.height <= 32768,
        old(data)@.len() == buf_w * buf_h,
        buf_w * buf_h <= usize::MAX,
        buf_w <= 1000000,
        buf_h <= 1000000,
    ensures
        final(data)@.len() == old(data)@.len(),
        forall|qx: int, qy: int|
            #![trigger pixel_index(buf_w as int, qx, qy)]
            0 <= qx < buf_w && 0 <= qy < buf_h ==> final(data)@[pixel_index(buf_w as int, qx, qy)]
                as int == (if qx == g.x + gx && qy == g.y + gy && g.coverage@[gy * g.width + gx]
                > 0 {
                spec_premultiply(fg, g.coverage@[gy * g.width + gx])
            } else {
                old(data)@[pixel_index(buf_w as int, qx, qy)] as int
            }),
{
    proof {
        assert(gy * g.width + gx < g.width * g.height && gy * g.width + gx <= 32768 * 32768)
            by (nonlinear_arith)
            requires
                gy < g.height,
                gx < g.width,
                g.width <= 32768,
                g.height <= 32768,
        ;
    }
    let cov = g.coverage[gy * g.width + gx];
    if cov == 0 {
        proof {
            assert forall|qx: int, qy: int|
                #![trigger pixel_index(buf_w as int, qx, qy)]
                0 <= qx < buf_w && 0 <= qy < buf_h implies data@[pixel_index(buf_w as int, qx, qy)]
                as int == (if qx == g.x + gx && qy == g.y + gy && g.coverage@[gy * g.width + gx]
                > 0 {
                spec_premultiply(fg, g.coverage@[gy * g.width + gx])
            } else {
                data@[pixel_index(buf_w as int, qx, qy)] as int
            }) by {
                lemma_pixel_index_bounds(buf_w as int, buf_h as int, qx, qy);
                assert(!(g.coverage@[gy * g.width + gx] > 0));
            }
        }
        return ;
    }
    let px_i: i64 = g.x as i64 + gx as i64;
    let py_i: i64 = g.y as i64 + gy as i64;
    if px_i < 0 || py_i < 0 || px_i >= buf_w as i64 || py_i >= buf_h as i64 {
        proof {
            assert forall|qx: int, qy: int|
                #![trigger pixel_index(buf_w as int, qx, qy)]
                0 <= qx < buf_w && 0 <= qy < buf_h implies data@[pixel_index(buf_w as int, qx, qy)]
                as int == (if qx == g.x + gx && qy == g.y + gy && g.coverage@[gy * g.width + gx]
                > 0 {
                spec_premultiply(fg, g.coverage@[gy * g.width + gx])
            } else {
                data@[pixel_index(buf_w as int, qx, qy)] as int
            }) by {
                lemma_pixel_index_bounds(buf_w as int, buf_h as int, qx, qy);
                assert(qx != g.x + gx || qy != g.y + gy);
            }
        }
        return ;
    }
    let px: usize = px_i as usize;
    let py: usize = py_i as usize;
    proof {
        lemma_pixel_index_bounds(buf_w as int, buf_h as int, px as int, py as int);
    }
    let idx: usize = py * buf_w + px;
    let val = premultiply_pixel(fg, cov);
    proof {
        assert(idx as int == pixel_index(buf_w as int, px as int, py as int));
    }
    data[idx] = val;
    proof {
        assert forall|qx: int, qy: int|
            #![trigger pixel_index(buf_w as int, qx, qy)]
            0 <= qx < buf_w && 0 <= qy < buf_h implies data@[pixel_index(buf_w as int, qx, qy)]
            as int == (if qx == g.x + gx && qy == g.y + gy && g.coverage@[gy * g.width + gx] > 0 {
            spec_premultiply(fg, g.coverage@[gy * g.width + gx])
        } else {
            old(data)@[pixel_index(buf_w as int, qx, qy)] as int
        }) by {
            lemma_pixel_index_bounds(buf_w as int, buf_h as int, qx, qy);
            if qx == px && qy == py {
                assert(data@[pixel_index(buf_w as int, qx, qy)] == val);
            } else {
                lemma_row_major_injective(buf_w as int, px as int, py as int, qx, qy);
            }
        }
    }
}

/// Composites one placed glyph into the bitmap.
fn blit_glyph(data: &mut Vec<u32>, buf_w: usize, buf_h: usize, g: &PlacedGlyph, fg: u32)
    requires
        g.wf(),
        old(data)@.len() == buf_w * buf_h,
        buf_w * buf_h <= usize::MAX,
        buf_w <= 1000000,
        buf_h <= 1000000,
        g.width <= 32768,
        g.height <= 32768,
    ensures
        final(data)@.len() == old(data)@.len(),
        forall|px: int, py: int|
            #![trigger pixel_index(buf_w as int, px, py)]
            0 <= px < buf_w && 0 <= py < buf_h ==> final(data)@[pixel_index(buf_w as int, px, py)]
                == spec_blit_pixel(
                old(data)@[pixel_index(buf_w as int, px, py)] as int,
                g,
                fg,
                px,
                py,
            ),
{
    let ghost base = data@;
    let mut gy: usize = 0;
    while gy < g.height
        invariant
            gy <= g.height,
            g.wf(),
            g.width <= 32768,
            g.height <= 32768,
            data@.len() == base.len(),
            base.len() == buf_w * buf_h,
            buf_w * buf_h <= usize::MAX,
            buf_w <= 1000000,
            buf_h <= 1000000,
            forall|px: int, py: int|
                #![trigger pixel_index(buf_w as int, px, py)]
                0 <= px < buf_w && 0 <= py < buf_h ==> data@[pixel_index(buf_w as int, px, py)]
                    as int == spec_blit_pixel_partial(
                    base[pixel_index(buf_w as int, px, py)] as int,
                    g,
                    fg,
                    px,
                    py,
                    gy as int,
                    0,
                ),
        decreases g.height - gy,
    {
        let mut gx: usize = 0;
        while gx < g.width
            invariant
                gx <= g.width,
                gy < g.height,
                g.wf(),
                g.width <= 32768,
                g.height <= 32768,
                data@.len() == base.len(),
                base.len() == buf_w * buf_h,
                buf_w * buf_h <= usize::MAX,
                buf_w <= 1000000,
                buf_h <= 1000000,
                forall|px: int, py: int|
                    #![trigger pixel_index(buf_w as int, px, py)]
                    0 <= px < buf_w && 0 <= py < buf_h ==> data@[pixel_index(buf_w as int, px, py)]
                        as int == spec_blit_pixel_partial(
                        base[pixel_index(buf_w as int, px, py)] as int,
                        g,
                        fg,
                        px,
                        py,
                        gy as int,
                        gx as int,
                    ),
            decreases g.width - gx,
        {
            let ghost pre = data@;
            blit_texel(data, buf_w, buf_h, g, fg, gx, gy);
            proof {
                assert forall|px: int, py: int|
                    #![trigger pixel_index(buf_w as int, px, py)]
                    0 <= px < buf_w && 0 <= py < buf_h implies data@[pixel_index(
                    buf_w as int,
                    px,
                    py,
                )] as int == spec_blit_pixel_partial(
                    base[pixel_index(buf_w as int, px, py)] as int,
                    g,
                    fg,
                    px,
                    py,
                    gy as int,
                    gx + 1,
                ) by {
                    lemma_pixel_index_bounds(buf_w as int, buf_h as int, px, py);
                    if py == g.y + gy && px == g.x + gx {
                        assert((py - g.y) * g.width + (px - g.x) == gy * g.width + gx)
                            by (nonlinear_arith)
                            requires
                                py - g.y == gy,
                                px - g.x == gx,
                        ;
                    }
                }
            }
            gx = gx + 1;
        }
        proof {
            assert forall|px: int, py: int|
                #![trigger pixel_index(buf_w as int, px, py)]
                0 <= px < buf_w && 0 <= py < buf_h implies data@[pixel_index(buf_w as int, px, py)]
                as int == spec_blit_pixel_partial(
                base[pixel_index(buf_w as int, px, py)] as int,
                g,
                fg,
                px,
                py,
                gy + 1,
                0,
            ) by {
                lemma_pixel_index_bounds(buf_w as int, buf_h as int, px, py);
            }
        }
        gy = gy + 1;
    }
    proof {
        assert forall|px: int, py: int|
            #![trigger pixel_index(buf_w as int, px, py)]
            0 <= px < buf_w && 0 <= py < buf_h implies data@[pixel_index(buf_w as int, px, py)]
            == spec_blit_pixel(base[pixel_index(buf_w as int, px, py)] as int, g, fg, px, py) by {
            lemma_pixel_index_bounds(buf_w as int, buf_h as int, px, py);
        }
    }
}

/// Renders placed glyphs into a fresh transparent bitmap of the given
/// size, compositing each glyph in order with premultiplied alpha.
pub fn render_text_bitmap(width: usize, height: usize, glyphs: &Vec<PlacedGlyph>, fg: u32) -> (r:
    RenderedText)
    requires
        width * height <= usize::MAX,
        width <= 1000000,
        height <= 1000000,
        forall|i: int|
            0 <= i < glyphs@.len() ==> (#[trigger] glyphs@[i]).wf() && glyphs@[i].width <= 32768
                && glyphs@[i].height <= 32768,
    ensures
        r.width == width,
        r.height == height,
        r.data@.len() == width * height,
        forall|px: int, py: int|
            #![trigger pixel_index(width as int, px, py)]
            0 <= px < width && 0 <= py < height ==> r.data@[pixel_index(width as int, px, py)]
                == spec_text_pixel(glyphs@, fg, px, py),
{
    let ghost gs = glyphs@;
    let mut data: Vec<u32> = Vec::new();
    let total: usize = width * height;
    let mut k: usize = 0;
    while k < total
        invariant
            k <= total,
            data@.len() == k,
            forall|j: int| 0 <= j < k ==> data@[j] == 0,
        decreases total - k,
    {
        data.push(0u32);
        k = k + 1;
    }
    proof {
        assert(gs.subrange(0, 0) =~= Seq::<PlacedGlyph>::empty());
        assert forall|px: int, py: int|
            #![trigger pixel_index(width as int, px, py)]
            0 <= px < width && 0 <= py < height implies data@[pixel_index(width as int, px, py)]
            == spec_text_pixel(gs.subrange(0, 0), fg, px, py) by {
            lemma_pixel_index_bounds(width as int, height as int, px, py);
        }
    }
    let mut i: usize = 0;
    while i < glyphs.len()
        invariant
            i <= gs.len(),
            gs == glyphs@,
            width * height <= usize::MAX,
            width <= 1000000,
            height <= 1000000,
            data@.len() == width * height,
            forall|j: int|
                0 <= j < gs.len() ==> (#[trigger] gs[j]).wf() && gs[j].width <= 32768
                    && gs[j].height <= 32768,
            forall|px: int, py: int|
                #![trigger pixel_index(width as int, px, py)]
                0 <= px < width && 0 <= py < height ==> data@[pixel_index(width as int, px, py)]
                    == spec_text_pixel(gs.subrange(0, i as int), fg, px, py),
        decreases gs.len() - i,
    {
        let ghost mid = data@;
        blit_glyph(&mut data, width, height, &glyphs[i], fg);
        proof {
            let next = gs.subrange(0, i + 1);
            assert(next.drop_last() =~= gs.subrange(0, i as int));
            assert(next.last() == gs[i as int]);
            assert forall|px: int, py: int|
                #![trigger pixel_index(width as int, px, py)]
                0 <= px < width && 0 <= py < height implies data@[pixel_index(width as int, px, py)]
                == spec_text_pixel(next, fg, px, py) by {
                lemma_pixel_index_bounds(width as int, height as int, px, py);
                assert(data@[pixel_index(width as int, px, py)] == spec_blit_pixel(
                    mid[pixel_index(width as int, px, py)] as int,
                    &gs[i as int],
                    fg,
                    px,
                    py,
                ));
            }
        }
        i = i + 1;
    }
    proof {
        assert(gs.subrange(0, gs.len() as int) =~= gs);
    }
    RenderedText { width, height, data }
}

} // verus!
