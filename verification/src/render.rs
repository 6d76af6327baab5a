//! The custom window renderer's pixel work: a canvas of 0RGB pixels,
//! rectangles, rounded rectangles, lines, alpha blending and glyph
//! bitmaps, each stated as the pixels it paints; and the geometry of the
//! title bar, the content frame and the dock.
use vstd::prelude::*;

verus! {

// ─── The pixel grid ──────────────────────────────────────────────────

/// The pixel at column `x` and row `y` of a grid `w` pixels wide.
pub open spec fn pix(s: Seq<u32>, w: int, x: int, y: int) -> u32 {
    s[y * w + x]
}

/// The grid with every pixel of a region set to `color`.
pub open spec fn paint(s: Seq<u32>, w: int, region: spec_fn(int, int) -> bool, color: u32) -> Seq<u32> {
    Seq::new(s.len(), |i: int| if region(i % w, i / w) { color } else { s[i] })
}

/// The pixels of a rectangle.
pub open spec fn rect_region(x: int, y: int, rw: int, rh: int) -> spec_fn(int, int) -> bool {
    |px: int, py: int| x <= px < x + rw && y <= py < y + rh
}

proof fn lemma_grid_index(w: int, h: int, x: int, y: int)
    requires
        0 <= x < w,
        0 <= y < h,
    ensures
        0 <= y * w + x < w * h,
        (y * w + x) % w == x,
        (y * w + x) / w == y,
{
    assert(0 <= y * w) by (nonlinear_arith)
        requires
            0 <= y,
            0 < w,
    ;
    assert(y * w + x < w * h) by (nonlinear_arith)
        requires
            0 <= x < w,
            0 <= y < h,
    ;
    vstd::arithmetic::div_mod::lemma_fundamental_div_mod_converse(y * w + x, w, y, x);
}

proof fn lemma_grid_cover(w: int, h: int, i: int)
    requires
        0 <= w,
        0 <= h,
        0 <= i < w * h,
    ensures
        0 < w,
        i == (i / w) * w + i % w,
        0 <= i % w < w,
        0 <= i / w < h,
{
    if w == 0 {
        assert(w * h == 0) by (nonlinear_arith)
            requires
                w == 0,
        ;
    }
    vstd::arithmetic::div_mod::lemma_fundamental_div_mod(i, w);
    assert(0 <= i % w < w) by {
        vstd::arithmetic::div_mod::lemma_mod_bound(i, w);
    }
    assert((i / w) * w == w * (i / w)) by (nonlinear_arith);
    assert(0 <= i / w) by (nonlinear_arith)
        requires
            0 <= i,
            0 < w,
    ;
    assert(i / w < h) by (nonlinear_arith)
        requires
            0 <= i < w * h,
            0 < w,
            i == w * (i / w) + i % w,
            0 <= i % w,
    ;
}

/// A grid whose every pixel is as stated is the painted grid.
proof fn lemma_paint_eq(old: Seq<u32>, new: Seq<u32>, w: int, h: int, region: spec_fn(int, int) -> bool, color: u32)
    requires
        0 <= w,
        0 <= h,
        old.len() == w * h,
        new.len() == old.len(),
        forall|x: int, y: int| 0 <= x < w && 0 <= y < h ==> #[trigger] pix(new, w, x, y) == if region(x, y) {
            color
        } else {
            pix(old, w, x, y)
        },
    ensures
        new == paint(old, w, region, color),
{
    if w > 0 {
        assert forall|i: int| 0 <= i < new.len() implies new[i] == paint(old, w, region, color)[i] by {
            lemma_grid_cover(w, h, i);
            let x = i % w;
            let y = i / w;
            assert(y * w + x == i);
            assert(pix(new, w, x, y) == new[i]);
        }
    } else {
        assert(w * h == 0) by (nonlinear_arith)
            requires
                w == 0,
        ;
    }
    assert(new =~= paint(old, w, region, color));
}

/// A drawing surface of `width` by `height` 0RGB pixels, row by row.
pub struct Canvas {
    pub pixels: Vec<u32>,
    pub width: usize,
    pub height: usize,
}

impl Canvas {
    /// The grid holds exactly one pixel per position, and its sides fit
    /// the signed coordinates drawing uses.
    pub open spec fn wf(&self) -> bool {
        &&& self.pixels@.len() == self.width * self.height
        &&& self.width <= i32::MAX
        &&& self.height <= i32::MAX
    }

    /// A canvas over the given pixels.
    pub fn new(pixels: Vec<u32>, width: usize, height: usize) -> (c: Canvas)
        requires
            pixels@.len() == width * height,
            width <= i32::MAX,
            height <= i32::MAX,
        ensures
            c.wf(),
            c.pixels@ == pixels@,
            c.width == width,
            c.height == height,
    {
        Canvas { pixels, width, height }
    }

    /// The position of a pixel in the grid, if it lies on the canvas.
    pub fn pixel_index(&self, x: i32, y: i32) -> (r: Option<usize>)
        requires
            self.wf(),
        ensures
            match r {
                Some(i) => 0 <= x < self.width && 0 <= y < self.height && i == y * self.width + x
                    && i < self.pixels@.len(),
                None => !(0 <= x < self.width && 0 <= y < self.height),
            },
    {
        if x < 0 || y < 0 {
            return None;
        }
        let xu = x as usize;
        let yu = y as usize;
        if xu >= self.width || yu >= self.height {
            return None;
        }
        let n = self.pixels.len();
        proof {
            lemma_grid_index(self.width as int, self.height as int, x as int, y as int);
        }
        Some(yu * self.width + xu)
    }

    /// Sets one pixel, where it lies on the canvas.
    pub fn set_pixel(&mut self, x: i32, y: i32, color: u32)
        requires
            old(self).wf(),
        ensures
            final(self).wf(),
            final(self).width == old(self).width,
            final(self).height == old(self).height,
            final(self).pixels@ == paint(old(self).pixels@, old(self).width as int, rect_region(x as int, y as int, 1, 1), color),
    {
        let ghost old_px = self.pixels@;
        let w = self.width;
        let h = self.height;
        match self.pixel_index(x, y) {
            Some(i) => {
                self.pixels.set(i, color);
                proof {
                    assert forall|qx: int, qy: int| 0 <= qx < w && 0 <= qy < h implies #[trigger] pix(self.pixels@, w as int, qx, qy)
                        == if rect_region(x as int, y as int, 1, 1)(qx, qy) { color } else { pix(old_px, w as int, qx, qy) } by {
                        lemma_grid_index(w as int, h as int, qx, qy);
                        if qx != x || qy != y {
                            lemma_index_distinct(w as int, h as int, qx, qy, x as int, y as int);
                        }
                    }
                    lemma_paint_eq(old_px, self.pixels@, w as int, h as int, rect_region(x as int, y as int, 1, 1), color);
                }
            },
            None => {
                proof {
                    assert forall|qx: int, qy: int| 0 <= qx < w && 0 <= qy < h implies #[trigger] pix(self.pixels@, w as int, qx, qy)
                        == if rect_region(x as int, y as int, 1, 1)(qx, qy) { color } else { pix(old_px, w as int, qx, qy) } by {}
                    lemma_paint_eq(old_px, self.pixels@, w as int, h as int, rect_region(x as int, y as int, 1, 1), color);
                }
            },
        }
    }
}

proof fn lemma_index_distinct(w: int, h: int, ax: int, ay: int, bx: int, by: int)
    requires
        0 <= ax < w,
        0 <= ay < h,
        0 <= bx < w,
        0 <= by < h,
        ax != bx || ay != by,
    ensures
        ay * w + ax != by * w + bx,
{
    lemma_grid_index(w, h, ax, ay);
    lemma_grid_index(w, h, bx, by);
}

impl Canvas {
    /// Fills a rectangle, clipped to the canvas.
    pub fn draw_rect(&mut self, x: i32, y: i32, w: u32, h: u32, color: u32)
        requires
            old(self).wf(),
            w <= i32::MAX,
            h <= i32::MAX,
            x + w <= i32::MAX,
            y + h <= i32::MAX,
        ensures
            final(self).wf(),
            final(self).width == old(self).width,
            final(self).height == old(self).height,
            final(self).pixels@ == paint(old(self).pixels@, old(self).width as int, rect_region(x as int, y as int, w as int, h as int), color),
    {
        let ghost old_px = self.pixels@;
        let ghost region = rect_region(x as int, y as int, w as int, h as int);
        let width = self.width;
        let height = self.height;
        let n = self.pixels.len();
        let x0: usize = if x < 0 { 0 } else { x as usize };
        let y0: usize = if y < 0 { 0 } else { y as usize };
        let xe: i32 = x + w as i32;
        let ye: i32 = y + h as i32;
        let x1: usize = if xe < 0 { 0 } else if xe as usize > width { width } else { xe as usize };
        let y1: usize = if ye < 0 { 0 } else if ye as usize > height { height } else { ye as usize };
        let mut py: usize = y0;
        while py < y1
            invariant
                self.wf(),
                self.width == width,
                self.height == height,
                n == self.pixels@.len(),
                old_px.len() == n,
                y0 <= py,
                y1 <= height,
                x1 <= width,
                x0 as int == (if x < 0 { 0 } else { x as int }),
                y0 as int == (if y < 0 { 0 } else { y as int }),
                x1 as int == (if x + w < 0 { 0 } else if x + w > width { width as int } else { x + w }),
                y1 as int == (if y + h < 0 { 0 } else if y + h > height { height as int } else { y + h }),
                region == rect_region(x as int, y as int, w as int, h as int),
                forall|qx: int, qy: int| 0 <= qx < width && 0 <= qy < height ==> #[trigger] pix(self.pixels@, width as int, qx, qy)
                    == if region(qx, qy) && qy < py { color } else { pix(old_px, width as int, qx, qy) },
            decreases y1 - py,
        {
            let mut px: usize = x0;
            while px < x1
                invariant
                    self.wf(),
                    self.width == width,
                    self.height == height,
                    n == self.pixels@.len(),
                    old_px.len() == n,
                    py < y1,
                    y0 <= py,
                    y1 <= height,
                    x0 <= px,
                    x1 <= width,
                    x0 as int == (if x < 0 { 0 } else { x as int }),
                    y0 as int == (if y < 0 { 0 } else { y as int }),
                    x1 as int == (if x + w < 0 { 0 } else if x + w > width { width as int } else { x + w }),
                    y1 as int == (if y + h < 0 { 0 } else if y + h > height { height as int } else { y + h }),
                    region == rect_region(x as int, y as int, w as int, h as int),
                    forall|qx: int, qy: int| 0 <= qx < width && 0 <= qy < height ==> #[trigger] pix(self.pixels@, width as int, qx, qy)
                        == if region(qx, qy) && (qy < py || (qy == py && qx < px)) { color } else { pix(old_px, width as int, qx, qy) },
                decreases x1 - px,
            {
                proof {
                    lemma_grid_index(width as int, height as int, px as int, py as int);
                }
                let i = py * width + px;
                let ghost before = self.pixels@;
                self.pixels.set(i, color);
                proof {
                    assert forall|qx: int, qy: int| 0 <= qx < width && 0 <= qy < height implies #[trigger] pix(self.pixels@, width as int, qx, qy)
                        == if region(qx, qy) && (qy < py || (qy == py && qx < px + 1)) { color } else { pix(old_px, width as int, qx, qy) } by {
                        lemma_grid_index(width as int, height as int, qx, qy);
                        if qx != px || qy != py {
                            lemma_index_distinct(width as int, height as int, qx, qy, px as int, py as int);
                            assert(pix(self.pixels@, width as int, qx, qy) == pix(before, width as int, qx, qy));
                        }
                    }
                }
                px += 1;
            }
            proof {
                assert forall|qx: int, qy: int| 0 <= qx < width && 0 <= qy < height implies #[trigger] pix(self.pixels@, width as int, qx, qy)
                    == if region(qx, qy) && qy < py + 1 { color } else { pix(old_px, width as int, qx, qy) } by {
                    if qy == py && qx >= px {
                        assert(!region(qx, qy));
                    }
                    if qy == py && qx < x0 {
                        assert(!region(qx, qy));
                    }
                }
            }
            py += 1;
        }
        proof {
            assert forall|qx: int, qy: int| 0 <= qx < width && 0 <= qy < height implies #[trigger] pix(self.pixels@, width as int, qx, qy)
                == if region(qx, qy) { color } else { pix(old_px, width as int, qx, qy) } by {
                if qy >= py {
                    assert(!region(qx, qy));
                }
            }
            lemma_paint_eq(old_px, self.pixels@, width as int, height as int, region, color);
        }
    }
}

// ─── Alpha blending ──────────────────────────────────────────────────

/// One channel mixed: `alpha` parts of the foreground to `255 - alpha`
/// parts of the background, rounded down.
pub open spec fn mix(fg: int, bg: int, alpha: int) -> int {
    (fg * alpha + bg * (255 - alpha)) / 255
}

/// The red, green and blue channels of a 0RGB colour.
pub open spec fn red(c: u32) -> int {
    ((c as int) / 0x1_0000) % 256
}

pub open spec fn green(c: u32) -> int {
    ((c as int) / 0x100) % 256
}

pub open spec fn blue(c: u32) -> int {
    (c as int) % 256
}

/// A foreground colour laid over a background with the given alpha, each
/// channel mixed on its own.
pub open spec fn blend_of(background: u32, foreground: u32, alpha: u8) -> u32 {
    (mix(red(foreground), red(background), alpha as int) * 0x1_0000 + mix(green(foreground), green(background), alpha as int)
        * 0x100 + mix(blue(foreground), blue(background), alpha as int)) as u32
}

proof fn lemma_mix_bound(f: int, b: int, a: int)
    requires
        0 <= f < 256,
        0 <= b < 256,
        0 <= a <= 255,
    ensures
        0 <= mix(f, b, a) < 256,
{
    assert(0 <= f * a + b * (255 - a) <= 255 * 255) by (nonlinear_arith)
        requires
            0 <= f < 256,
            0 <= b < 256,
            0 <= a <= 255,
    ;
}

/// Lays `foreground` over `background` with the given alpha.
pub fn blend(background: u32, foreground: u32, alpha: u8) -> (c: u32)
    ensures
        c == blend_of(background, foreground, alpha),
{
    let a = alpha as u32;
    let inverse = 255 - a;
    let bg_r = (background >> 16) & 0xFF;
    let bg_g = (background >> 8) & 0xFF;
    let bg_b = background & 0xFF;
    let fg_r = (foreground >> 16) & 0xFF;
    let fg_g = (foreground >> 8) & 0xFF;
    let fg_b = foreground & 0xFF;
    assert((background >> 16) & 0xFF == (background / 0x1_0000) % 256) by (bit_vector);
    assert((background >> 8) & 0xFF == (background / 0x100) % 256) by (bit_vector);
    assert(background & 0xFF == background % 256) by (bit_vector);
    assert((foreground >> 16) & 0xFF == (foreground / 0x1_0000) % 256) by (bit_vector);
    assert((foreground >> 8) & 0xFF == (foreground / 0x100) % 256) by (bit_vector);
    assert(foreground & 0xFF == foreground % 256) by (bit_vector);
    assert(fg_r * a + bg_r * inverse <= 255 * 255) by (nonlinear_arith)
        requires
            fg_r < 256,
            bg_r < 256,
            a <= 255,
            inverse == 255 - a,
    ;
    assert(fg_g * a + bg_g * inverse <= 255 * 255) by (nonlinear_arith)
        requires
            fg_g < 256,
            bg_g < 256,
            a <= 255,
            inverse == 255 - a,
    ;
    assert(fg_b * a + bg_b * inverse <= 255 * 255) by (nonlinear_arith)
        requires
            fg_b < 256,
            bg_b < 256,
            a <= 255,
            inverse == 255 - a,
    ;
    let r = (fg_r * a + bg_r * inverse) / 255;
    let g = (fg_g * a + bg_g * inverse) / 255;
    let b = (fg_b * a + bg_b * inverse) / 255;
    proof {
        lemma_mix_bound(fg_r as int, bg_r as int, a as int);
        lemma_mix_bound(fg_g as int, bg_g as int, a as int);
        lemma_mix_bound(fg_b as int, bg_b as int, a as int);
    }
    assert(r < 256 && g < 256 && b < 256);
    assert((r << 16) | (g << 8) | b == r * 0x1_0000 + g * 0x100 + b) by (bit_vector)
        requires
            r < 256,
            g < 256,
            b < 256,
    ;
    (r << 16) | (g << 8) | b
}

/// The grid with the pixel at `(x, y)` (where it lies on the grid)
/// replaced by `color` laid over it.
pub open spec fn blend_at(s: Seq<u32>, w: int, x: int, y: int, color: u32, alpha: u8) -> Seq<u32> {
    Seq::new(s.len(), |i: int| if i % w == x && i / w == y { blend_of(s[i], color, alpha) } else { s[i] })
}

impl Canvas {
    /// Lays `color` over one pixel with the given alpha, where the pixel
    /// lies on the canvas.
    pub fn blend_pixel(&mut self, x: i32, y: i32, color: u32, alpha: u8)
        requires
            old(self).wf(),
        ensures
            final(self).wf(),
            final(self).width == old(self).width,
            final(self).height == old(self).height,
            final(self).pixels@ == blend_at(old(self).pixels@, old(self).width as int, x as int, y as int, color, alpha),
    {
        let ghost old_px = self.pixels@;
        let w = self.width;
        let h = self.height;
        match self.pixel_index(x, y) {
            Some(i) => {
                let v = blend(self.pixels[i], color, alpha);
                self.pixels.set(i, v);
                proof {
                    assert forall|k: int| 0 <= k < old_px.len() implies self.pixels@[k] == blend_at(old_px, w as int, x as int, y as int, color, alpha)[k] by {
                        lemma_grid_cover(w as int, h as int, k);
                        lemma_grid_index(w as int, h as int, x as int, y as int);
                        if k % (w as int) == x && k / (w as int) == y {
                            assert(k == i);
                        } else {
                            assert(k != i);
                        }
                    }
                    assert(self.pixels@ =~= blend_at(old_px, w as int, x as int, y as int, color, alpha));
                }
            },
            None => {
                proof {
                    assert forall|k: int| 0 <= k < old_px.len() implies self.pixels@[k] == blend_at(old_px, w as int, x as int, y as int, color, alpha)[k] by {
                        lemma_grid_cover(w as int, h as int, k);
                    }
                    assert(self.pixels@ =~= blend_at(old_px, w as int, x as int, y as int, color, alpha));
                }
            },
        }
    }
}

// ─── Glyph bitmaps ───────────────────────────────────────────────────

/// The coverage of a glyph at canvas position `(px, py)`, for a glyph
/// `gw` by `gh` pixels placed at `(gx, gy)`; zero outside it.
pub open spec fn coverage(bitmap: Seq<u8>, gx: int, gy: int, gw: int, gh: int, px: int, py: int) -> u8 {
    if gx <= px < gx + gw && gy <= py < gy + gh {
        bitmap[(py - gy) * gw + (px - gx)]
    } else {
        0
    }
}

/// The grid with a glyph laid over it in `color`, each pixel with the
/// glyph's coverage there as alpha; uncovered pixels are left alone.
pub open spec fn glyph_paint(s: Seq<u32>, w: int, bitmap: Seq<u8>, gx: int, gy: int, gw: int, gh: int, color: u32) -> Seq<u32> {
    Seq::new(s.len(), |i: int| {
        let a = coverage(bitmap, gx, gy, gw, gh, i % w, i / w);
        if a != 0 { blend_of(s[i], color, a) } else { s[i] }
    })
}

impl Canvas {
    /// Lays a glyph's coverage bitmap (row by row, `gw` wide) over the
    /// canvas at `(gx, gy)` in `color`, clipped to the canvas.
    pub fn draw_bitmap(&mut self, gx: i32, gy: i32, gw: usize, gh: usize, bitmap: &[u8], color: u32)
        requires
            old(self).wf(),
            bitmap@.len() >= gw * gh,
            gw <= i32::MAX,
            gh <= i32::MAX,
            gx + gw <= i32::MAX,
            gy + gh <= i32::MAX,
        ensures
            final(self).wf(),
            final(self).width == old(self).width,
            final(self).height == old(self).height,
            final(self).pixels@ == glyph_paint(old(self).pixels@, old(self).width as int, bitmap@, gx as int, gy as int, gw as int, gh as int, color),
    {
        let ghost old_px = self.pixels@;
        let width = self.width;
        let height = self.height;
        let n = self.pixels.len();
        let ghost target = glyph_paint(old_px, width as int, bitmap@, gx as int, gy as int, gw as int, gh as int, color);
        let blen = bitmap.len();
        let mut row: usize = 0;
        while row < gh
            invariant
                self.wf(),
                self.width == width,
                self.height == height,
                n == self.pixels@.len(),
                old_px.len() == n,
                row <= gh,
                blen == bitmap@.len(),
                bitmap@.len() >= gw * gh,
                gw <= i32::MAX,
                gh <= i32::MAX,
                gx + gw <= i32::MAX,
                gy + gh <= i32::MAX,
                target == glyph_paint(old_px, width as int, bitmap@, gx as int, gy as int, gw as int, gh as int, color),
                forall|k: int| 0 <= k < n ==> #[trigger] self.pixels@[k] == if (k / (width as int)) < gy + row { target[k] } else { old_px[k] },
            decreases gh - row,
        {
            let mut col: usize = 0;
            while col < gw
                invariant
                    self.wf(),
                    self.width == width,
                    self.height == height,
                    n == self.pixels@.len(),
                    old_px.len() == n,
                    row < gh,
                    col <= gw,
                    blen == bitmap@.len(),
                    bitmap@.len() >= gw * gh,
                    gw <= i32::MAX,
                    gh <= i32::MAX,
                    gx + gw <= i32::MAX,
                    gy + gh <= i32::MAX,
                    target == glyph_paint(old_px, width as int, bitmap@, gx as int, gy as int, gw as int, gh as int, color),
                    forall|k: int| 0 <= k < n ==> #[trigger] self.pixels@[k] == if (k / (width as int)) < gy + row || ((k / (width as int)) == gy + row && (k % (width as int)) < gx + col) {
                        target[k]
                    } else {
                        old_px[k]
                    },
                decreases gw - col,
            {
                proof {
                    assert(row * gw + col < gw * gh) by (nonlinear_arith)
                        requires
                            row < gh,
                            col < gw,
                    ;
                }
                let alpha = bitmap[row * gw + col];
                let px: i32 = gx + col as i32;
                let py: i32 = gy + row as i32;
                if alpha != 0 && px >= 0 && py >= 0 && (px as usize) < width && (py as usize) < height {
                    proof {
                        lemma_grid_index(width as int, height as int, px as int, py as int);
                    }
                    let i = (py as usize) * width + (px as usize);
                    let v = blend(self.pixels[i], color, alpha);
                    let ghost before = self.pixels@;
                    self.pixels.set(i, v);
                    proof {
                        assert forall|k: int| 0 <= k < n implies #[trigger] self.pixels@[k] == if (k / (width as int)) < gy + row || ((k / (width as int)) == gy + row && (k % (width as int)) < gx + col + 1) {
                            target[k]
                        } else {
                            old_px[k]
                        } by {
                            lemma_grid_cover(width as int, height as int, k);
                            if k == i {
                                assert(coverage(bitmap@, gx as int, gy as int, gw as int, gh as int, px as int, py as int) == alpha);
                            } else {
                                assert(self.pixels@[k] == before[k]);
                                if k % (width as int) == px && k / (width as int) == py {
                                    assert(k == (k / (width as int)) * (width as int) + k % (width as int));
                                }
                            }
                        }
                    }
                } else {
                    proof {
                        assert forall|k: int| 0 <= k < n implies #[trigger] self.pixels@[k] == if (k / (width as int)) < gy + row || ((k / (width as int)) == gy + row && (k % (width as int)) < gx + col + 1) {
                            target[k]
                        } else {
                            old_px[k]
                        } by {
                            lemma_grid_cover(width as int, height as int, k);
                            if k / (width as int) == gy + row && k % (width as int) == gx + col {
                                assert(coverage(bitmap@, gx as int, gy as int, gw as int, gh as int, px as int, py as int) == alpha);
                                assert(alpha == 0);
                            }
                        }
                    }
                }
                col += 1;
            }
            proof {
                assert forall|k: int| 0 <= k < n implies #[trigger] self.pixels@[k] == if (k / (width as int)) < gy + row + 1 { target[k] } else { old_px[k] } by {
                    lemma_grid_cover(width as int, height as int, k);
                    if k / (width as int) == gy + row && k % (width as int) >= gx + col {
                        assert(coverage(bitmap@, gx as int, gy as int, gw as int, gh as int, k % (width as int), k / (width as int)) == 0);
                    }
                    if k / (width as int) == gy + row && k % (width as int) < gx {
                        assert(coverage(bitmap@, gx as int, gy as int, gw as int, gh as int, k % (width as int), k / (width as int)) == 0);
                    }
                }
            }
            row += 1;
        }
        proof {
            assert forall|k: int| 0 <= k < n implies self.pixels@[k] == target[k] by {
                lemma_grid_cover(width as int, height as int, k);
                if k / (width as int) >= gy + row {
                    assert(coverage(bitmap@, gx as int, gy as int, gw as int, gh as int, k % (width as int), k / (width as int)) == 0);
                }
                if k / (width as int) < gy {
                    assert(coverage(bitmap@, gx as int, gy as int, gw as int, gh as int, k % (width as int), k / (width as int)) == 0);
                }
            }
            assert(self.pixels@ =~= target);
        }
    }
}

// ─── Rounded rectangles ──────────────────────────────────────────────

/// Painting two regions one after the other in one colour paints their
/// union.
proof fn lemma_paint_twice(s: Seq<u32>, w: int, a: spec_fn(int, int) -> bool, b: spec_fn(int, int) -> bool, color: u32)
    ensures
        paint(paint(s, w, a, color), w, b, color) == paint(s, w, |px: int, py: int| a(px, py) || b(px, py), color),
{
    assert(paint(paint(s, w, a, color), w, b, color) =~= paint(s, w, |px: int, py: int| a(px, py) || b(px, py), color));
}

/// Painting with the same region twice, written two ways, is one paint.
proof fn lemma_paint_same(s: Seq<u32>, w: int, a: spec_fn(int, int) -> bool, b: spec_fn(int, int) -> bool, color: u32)
    requires
        forall|px: int, py: int| #[trigger] a(px, py) == b(px, py),
    ensures
        paint(s, w, a, color) == paint(s, w, b, color),
{
    assert(paint(s, w, a, color) =~= paint(s, w, b, color));
}

/// The radius a rounded rectangle is drawn with: never more than half a
/// side.
pub open spec fn effective_radius(radius: u32, w: u32, h: u32) -> int {
    let a = if radius < w / 2 { radius } else { w / 2 };
    if a < h / 2 {
        a as int
    } else {
        (h / 2) as int
    }
}

/// Whether the cell `(dx, dy)` of an `r` by `r` corner square lies on the
/// rounded corner.
pub open spec fn corner_hit(r: int, dx: int, dy: int) -> bool {
    0 <= dx < r && 0 <= dy < r && (r - dx - 1) * (r - dx - 1) + (r - dy - 1) * (r - dy - 1) <= r * r
}

/// Whether a corner cell comes before `(cx, cy)` in row order.
pub open spec fn before_cell(dx: int, dy: int, cx: int, cy: int) -> bool {
    dy < cy || (dy == cy && dx < cx)
}

/// The pixels of the four corners, among the corner cells before
/// `(cx, cy)`.
pub open spec fn corners_region(x: int, y: int, w: int, h: int, r: int, cx: int, cy: int) -> spec_fn(int, int) -> bool {
    |px: int, py: int| {
        ||| corner_hit(r, px - x, py - y) && before_cell(px - x, py - y, cx, cy)
        ||| corner_hit(r, px - (x + w - r), py - y) && before_cell(px - (x + w - r), py - y, cx, cy)
        ||| corner_hit(r, px - x, py - (y + h - r)) && before_cell(px - x, py - (y + h - r), cx, cy)
        ||| corner_hit(r, px - (x + w - r), py - (y + h - r)) && before_cell(px - (x + w - r), py - (y + h - r), cx, cy)
    }
}

/// The middle band and the two side bands of a rounded rectangle.
pub open spec fn bands_region(x: int, y: int, w: int, h: int, r: int) -> spec_fn(int, int) -> bool {
    |px: int, py: int| {
        ||| rect_region(x + r, y, w - 2 * r, h)(px, py)
        ||| rect_region(x, y + r, r, h - 2 * r)(px, py)
        ||| rect_region(x + w - r, y + r, r, h - 2 * r)(px, py)
    }
}

/// The pixels of a rectangle with corners rounded to radius `r`.
pub open spec fn rounded_region(x: int, y: int, w: int, h: int, r: int) -> spec_fn(int, int) -> bool {
    if r <= 0 {
        rect_region(x, y, w, h)
    } else {
        |px: int, py: int| bands_region(x, y, w, h, r)(px, py) || corners_region(x, y, w, h, r, 0, r)(px, py)
    }
}

impl Canvas {
    /// Fills a rectangle with rounded corners, clipped to the canvas. The
    /// corner test adds two squared offsets in an `i32`, which bounds the
    /// effective radius by 32768.
    pub fn draw_rounded_rect(&mut self, x: i32, y: i32, w: u32, h: u32, radius: u32, color: u32)
        requires
            old(self).wf(),
            w <= i32::MAX,
            h <= i32::MAX,
            x + w <= i32::MAX,
            y + h <= i32::MAX,
            effective_radius(radius, w, h) <= 32768,
        ensures
            final(self).wf(),
            final(self).width == old(self).width,
            final(self).height == old(self).height,
            final(self).pixels@ == paint(
                old(self).pixels@,
                old(self).width as int,
                rounded_region(x as int, y as int, w as int, h as int, effective_radius(radius, w, h)),
                color,
            ),
    {
        let a = if radius < w / 2 { radius } else { w / 2 };
        let r32 = if a < h / 2 { a } else { h / 2 };
        let r = r32 as i32;
        if r <= 0 {
            self.draw_rect(x, y, w, h, color);
            return;
        }
        let ghost old_px = self.pixels@;
        let ghost wd = self.width as int;
        let ghost ht = self.height;
        assert(r as int == effective_radius(radius, w, h));
        let ghost xi = x as int;
        let ghost yi = y as int;
        let ghost wi = w as int;
        let ghost hi = h as int;
        let ghost ri = r as int;
        let side = (r as u32) * 2;
        self.draw_rect(x + r, y, w - side, h, color);
        self.draw_rect(x, y + r, r as u32, h - side, color);
        self.draw_rect(x + w as i32 - r, y + r, r as u32, h - side, color);
        proof {
            lemma_paint_twice(old_px, wd, rect_region(xi + ri, yi, wi - 2 * ri, hi), rect_region(xi, yi + ri, ri, hi - 2 * ri), color);
            lemma_paint_twice(
                old_px,
                wd,
                |px: int, py: int| rect_region(xi + ri, yi, wi - 2 * ri, hi)(px, py) || rect_region(xi, yi + ri, ri, hi - 2 * ri)(px, py),
                rect_region(xi + wi - ri, yi + ri, ri, hi - 2 * ri),
                color,
            );
            lemma_paint_same(
                old_px,
                wd,
                |px: int, py: int| (rect_region(xi + ri, yi, wi - 2 * ri, hi)(px, py) || rect_region(xi, yi + ri, ri, hi - 2 * ri)(px, py))
                    || rect_region(xi + wi - ri, yi + ri, ri, hi - 2 * ri)(px, py),
                |px: int, py: int| bands_region(xi, yi, wi, hi, ri)(px, py) || corners_region(xi, yi, wi, hi, ri, 0, 0)(px, py),
                color,
            );
        }
        assert(r * r <= 32768 * 32768) by (nonlinear_arith)
            requires
                0 < r <= 32768,
        ;
        let r2 = r * r;
        let mut dy: i32 = 0;
        while dy < r
            invariant
                self.wf(),
                self.width as int == wd,
                self.height == ht,
                w <= i32::MAX,
                h <= i32::MAX,
                self.pixels@.len() == old_px.len(),
                0 <= dy <= r,
                r as int == ri,
                0 < ri <= 32768,
                2 * ri <= wi,
                2 * ri <= hi,
                r2 == ri * ri,
                xi == x as int,
                yi == y as int,
                wi == w as int,
                hi == h as int,
                x + w <= i32::MAX,
                y + h <= i32::MAX,
                self.pixels@ == paint(
                    old_px,
                    wd,
                    |px: int, py: int| bands_region(xi, yi, wi, hi, ri)(px, py) || corners_region(xi, yi, wi, hi, ri, 0, dy as int)(px, py),
                    color,
                ),
            decreases r - dy,
        {
            let mut dx: i32 = 0;
            while dx < r
                invariant
                    self.wf(),
                    self.width as int == wd,
                    self.height == ht,
                    w <= i32::MAX,
                    h <= i32::MAX,
                    self.pixels@.len() == old_px.len(),
                    0 <= dy < r,
                    0 <= dx <= r,
                    r as int == ri,
                    0 < ri <= 32768,
                    2 * ri <= wi,
                    2 * ri <= hi,
                    r2 == ri * ri,
                    xi == x as int,
                    yi == y as int,
                    wi == w as int,
                    hi == h as int,
                    x + w <= i32::MAX,
                    y + h <= i32::MAX,
                    self.pixels@ == paint(
                        old_px,
                        wd,
                        |px: int, py: int| bands_region(xi, yi, wi, hi, ri)(px, py) || corners_region(xi, yi, wi, hi, ri, dx as int, dy as int)(px, py),
                        color,
                    ),
                decreases r - dx,
            {
                let ox = r - dx - 1;
                let oy = r - dy - 1;
                assert(ox * ox <= 32767 * 32767) by (nonlinear_arith)
                    requires
                        0 <= ox < 32768,
                ;
                assert(oy * oy <= 32767 * 32767) by (nonlinear_arith)
                    requires
                        0 <= oy < 32768,
                ;
                let ghost before = self.pixels@;
                let ghost reg = |px: int, py: int| bands_region(xi, yi, wi, hi, ri)(px, py) || corners_region(xi, yi, wi, hi, ri, dx as int, dy as int)(px, py);
                let ghost next = |px: int, py: int| bands_region(xi, yi, wi, hi, ri)(px, py) || corners_region(xi, yi, wi, hi, ri, dx + 1, dy as int)(px, py);
                if ox * ox + oy * oy > r2 {
                    proof {
                        assert(!corner_hit(ri, dx as int, dy as int));
                        lemma_paint_same(old_px, wd, reg, next, color);
                    }
                } else {
                    let p1x = x + dx;
                    let p1y = y + dy;
                    let p2x = x + w as i32 - r + dx;
                    let p3y = y + h as i32 - r + dy;
                    self.set_pixel(p1x, p1y, color);
                    self.set_pixel(p2x, p1y, color);
                    self.set_pixel(p1x, p3y, color);
                    self.set_pixel(p2x, p3y, color);
                    proof {
                        assert(corner_hit(ri, dx as int, dy as int));
                        let q1 = rect_region(p1x as int, p1y as int, 1, 1);
                        let q2 = rect_region(p2x as int, p1y as int, 1, 1);
                        let q3 = rect_region(p1x as int, p3y as int, 1, 1);
                        let q4 = rect_region(p2x as int, p3y as int, 1, 1);
                        lemma_paint_twice(old_px, wd, reg, q1, color);
                        let r1 = |px: int, py: int| reg(px, py) || q1(px, py);
                        lemma_paint_twice(old_px, wd, r1, q2, color);
                        let r2s = |px: int, py: int| r1(px, py) || q2(px, py);
                        lemma_paint_twice(old_px, wd, r2s, q3, color);
                        let r3 = |px: int, py: int| r2s(px, py) || q3(px, py);
                        lemma_paint_twice(old_px, wd, r3, q4, color);
                        let r4 = |px: int, py: int| r3(px, py) || q4(px, py);
                        assert forall|px: int, py: int| #[trigger] r4(px, py) == next(px, py) by {
                            if q1(px, py) {
                                assert(corner_hit(ri, px - xi, py - yi));
                            }
                            if q2(px, py) {
                                assert(corner_hit(ri, px - (xi + wi - ri), py - yi));
                            }
                            if q3(px, py) {
                                assert(corner_hit(ri, px - xi, py - (yi + hi - ri)));
                            }
                            if q4(px, py) {
                                assert(corner_hit(ri, px - (xi + wi - ri), py - (yi + hi - ri)));
                            }
                        }
                        lemma_paint_same(old_px, wd, r4, next, color);
                    }
                }
                dx += 1;
            }
            proof {
                let done_row = |px: int, py: int| bands_region(xi, yi, wi, hi, ri)(px, py) || corners_region(xi, yi, wi, hi, ri, ri, dy as int)(px, py);
                let next_row = |px: int, py: int| bands_region(xi, yi, wi, hi, ri)(px, py) || corners_region(xi, yi, wi, hi, ri, 0, dy + 1)(px, py);
                assert forall|px: int, py: int| #[trigger] done_row(px, py) == next_row(px, py) by {}
                lemma_paint_same(old_px, wd, done_row, next_row, color);
            }
            dy += 1;
        }
        proof {
            let last = |px: int, py: int| bands_region(xi, yi, wi, hi, ri)(px, py) || corners_region(xi, yi, wi, hi, ri, 0, ri)(px, py);
            lemma_paint_same(old_px, wd, last, rounded_region(xi, yi, wi, hi, ri), color);
        }
    }
}

// ─── Lines ───────────────────────────────────────────────────────────

/// `|a|`.
pub open spec fn abs_of(a: int) -> int {
    if a < 0 {
        -a
    } else {
        a
    }
}

/// One step of the error-accumulating line walk from `(x1, y1)` towards
/// `(x2, y2)`: position and error after moving in x, in y, or both.
pub open spec fn line_step(x1: int, y1: int, x2: int, y2: int, st: (int, int, int)) -> (int, int, int) {
    let dx = abs_of(x2 - x1);
    let dy = -abs_of(y2 - y1);
    let sx = if x1 < x2 { 1int } else { -1int };
    let sy = if y1 < y2 { 1int } else { -1int };
    let e2 = 2 * st.2;
    let (nx, e1) = if e2 >= dy { (st.0 + sx, st.2 + dy) } else { (st.0, st.2) };
    if e2 <= dx {
        (nx, st.1 + sy, e1 + dx)
    } else {
        (nx, st.1, e1)
    }
}

/// Where the line walk is, with its error, after `k` steps.
pub open spec fn line_walk(x1: int, y1: int, x2: int, y2: int, k: nat) -> (int, int, int)
    decreases k,
{
    if k == 0 {
        (x1, y1, abs_of(x2 - x1) - abs_of(y2 - y1))
    } else {
        line_step(x1, y1, x2, y2, line_walk(x1, y1, x2, y2, (k - 1) as nat))
    }
}

/// Whether the walk stands on the end point after `k` steps.
pub open spec fn walk_at_end(x1: int, y1: int, x2: int, y2: int, k: nat) -> bool {
    line_walk(x1, y1, x2, y2, k).0 == x2 && line_walk(x1, y1, x2, y2, k).1 == y2
}

/// The pixels of a line: every position of the walk up to the first
/// time it reaches the end point.
pub open spec fn line_region(x1: int, y1: int, x2: int, y2: int) -> spec_fn(int, int) -> bool {
    |px: int, py: int| exists|j: nat|
        (forall|k: nat| k < j ==> !#[trigger] walk_at_end(x1, y1, x2, y2, k)) && #[trigger] line_walk(x1, y1, x2, y2, j).0 == px
            && line_walk(x1, y1, x2, y2, j).1 == py
}

/// The positions of the walk before step `j`.
pub open spec fn walked(x1: int, y1: int, x2: int, y2: int, j: nat) -> spec_fn(int, int) -> bool {
    |px: int, py: int| exists|k: nat| k < j && #[trigger] line_walk(x1, y1, x2, y2, k).0 == px && line_walk(x1, y1, x2, y2, k).1 == py
}

proof fn lemma_line_step(dx: int, dy: int, kx: int, ky: int, err: int)
    requires
        dx >= 0,
        dy <= 0,
        0 <= kx <= dx,
        0 <= ky <= -dy,
        err == dx + dy + kx * dy + ky * dx,
        2 * dy - dx <= err <= 2 * dx - dy,
        !(kx == dx && ky == -dy),
    ensures
        2 * err >= dy || 2 * err <= dx,
        2 * err >= dy ==> kx < dx,
        2 * err <= dx ==> ky < -dy,
        ({
            let kx2 = if 2 * err >= dy { kx + 1 } else { kx };
            let ky2 = if 2 * err <= dx { ky + 1 } else { ky };
            let e2 = err + (if 2 * err >= dy { dy } else { 0 }) + (if 2 * err <= dx { dx } else { 0 });
            &&& e2 == dx + dy + kx2 * dy + ky2 * dx
            &&& 2 * dy - dx <= e2 <= 2 * dx - dy
        }),
{
    if kx == dx {
        assert(err <= dy) by (nonlinear_arith)
            requires
                err == dx + dy + kx * dy + ky * dx,
                kx == dx,
                dx >= 0,
                ky <= -dy - 1,
        ;
    }
    if ky == -dy {
        assert(err >= dx) by (nonlinear_arith)
            requires
                err == dx + dy + kx * dy + ky * dx,
                ky == -dy,
                dy <= 0,
                kx <= dx - 1,
        ;
    }
    assert((kx + 1) * dy == kx * dy + dy) by (nonlinear_arith);
    assert((ky + 1) * dx == ky * dx + dx) by (nonlinear_arith);
}

impl Canvas {
    /// Draws a line from `(x1, y1)` to `(x2, y2)`, end points included,
    /// clipped to the canvas.
    pub fn draw_line(&mut self, x1: i32, y1: i32, x2: i32, y2: i32, color: u32)
        requires
            old(self).wf(),
            abs_of(x2 - x1) < 0x4000_0000,
            abs_of(y2 - y1) < 0x4000_0000,
        ensures
            final(self).wf(),
            final(self).width == old(self).width,
            final(self).height == old(self).height,
            final(self).pixels@ == paint(old(self).pixels@, old(self).width as int, line_region(x1 as int, y1 as int, x2 as int, y2 as int), color),
    {
        let ghost old_px = self.pixels@;
        let ghost wd = self.width as int;
        let ghost ht = self.height;
        let ghost (a1, b1, a2, b2) = (x1 as int, y1 as int, x2 as int, y2 as int);
        let mut x = x1;
        let mut y = y1;
        let dx: i32 = if x2 >= x1 { x2 - x1 } else { x1 - x2 };
        let dy: i32 = if y2 >= y1 { y1 - y2 } else { y2 - y1 };
        let sx: i32 = if x1 < x2 { 1 } else { -1 };
        let sy: i32 = if y1 < y2 { 1 } else { -1 };
        let mut error: i64 = dx as i64 + dy as i64;
        let ghost mut j: nat = 0;
        let ghost mut kx: int = 0;
        let ghost mut ky: int = 0;
        proof {
            assert(paint(old_px, wd, walked(a1, b1, a2, b2, 0), color) =~= old_px);
        }
        while !(x == x2 && y == y2)
            invariant
                self.wf(),
                self.width as int == wd,
                self.height == ht,
                self.pixels@.len() == old_px.len(),
                a1 == x1 as int && b1 == y1 as int && a2 == x2 as int && b2 == y2 as int,
                dx as int == abs_of(a2 - a1),
                dy as int == -abs_of(b2 - b1),
                dx < 0x4000_0000,
                -0x4000_0000 < dy,
                sx == (if x1 < x2 { 1i32 } else { -1i32 }),
                sy == (if y1 < y2 { 1i32 } else { -1i32 }),
                0 <= kx <= dx,
                0 <= ky <= -dy,
                x as int == (if x1 < x2 { a1 + kx } else { a1 - kx }),
                y as int == (if y1 < y2 { b1 + ky } else { b1 - ky }),
                error as int == dx + dy + kx * dy + ky * dx,
                2 * dy - dx <= error <= 2 * dx - dy,
                line_walk(a1, b1, a2, b2, j) == (x as int, y as int, error as int),
                forall|k: nat| k < j ==> !#[trigger] walk_at_end(a1, b1, a2, b2, k),
                self.pixels@ == paint(old_px, wd, walked(a1, b1, a2, b2, j), color),
            decreases (dx - kx) + (-dy - ky),
        {
            let ghost before = self.pixels@;
            self.set_pixel(x, y, color);
            proof {
                lemma_paint_twice(old_px, wd, walked(a1, b1, a2, b2, j), rect_region(x as int, y as int, 1, 1), color);
                let grown = |px: int, py: int| walked(a1, b1, a2, b2, j)(px, py) || rect_region(x as int, y as int, 1, 1)(px, py);
                assert forall|px: int, py: int| #[trigger] grown(px, py) == walked(a1, b1, a2, b2, j + 1)(px, py) by {
                    if rect_region(x as int, y as int, 1, 1)(px, py) {
                        assert(line_walk(a1, b1, a2, b2, j).0 == px && line_walk(a1, b1, a2, b2, j).1 == py);
                    }
                    if walked(a1, b1, a2, b2, j + 1)(px, py) {
                        let k = choose|k: nat| k < j + 1 && #[trigger] line_walk(a1, b1, a2, b2, k).0 == px && line_walk(a1, b1, a2, b2, k).1 == py;
                        if k < j {
                            assert(walked(a1, b1, a2, b2, j)(px, py));
                        }
                    }
                }
                lemma_paint_same(old_px, wd, grown, walked(a1, b1, a2, b2, j + 1), color);
                assert(!walk_at_end(a1, b1, a2, b2, j));
                if x1 < x2 {
                    assert(kx == dx ==> x == x2);
                } else {
                    assert(kx == dx ==> x == x2);
                }
                if y1 < y2 {
                    assert(ky == -dy ==> y == y2);
                } else {
                    assert(ky == -dy ==> y == y2);
                }
                lemma_line_step(dx as int, dy as int, kx, ky, error as int);
            }
            let twice_error = error * 2;
            if twice_error >= dy as i64 {
                error += dy as i64;
                x += sx;
                proof {
                    kx = kx + 1;
                }
            }
            if twice_error <= dx as i64 {
                error += dx as i64;
                y += sy;
                proof {
                    ky = ky + 1;
                }
            }
            proof {
                j = j + 1;
            }
        }
        proof {
            assert(walk_at_end(a1, b1, a2, b2, j));
        }
        let ghost before = self.pixels@;
        self.set_pixel(x, y, color);
        proof {
            lemma_paint_twice(old_px, wd, walked(a1, b1, a2, b2, j), rect_region(x as int, y as int, 1, 1), color);
            let grown = |px: int, py: int| walked(a1, b1, a2, b2, j)(px, py) || rect_region(x as int, y as int, 1, 1)(px, py);
            assert forall|px: int, py: int| #[trigger] grown(px, py) == line_region(a1, b1, a2, b2)(px, py) by {
                if rect_region(x as int, y as int, 1, 1)(px, py) {
                    assert(line_walk(a1, b1, a2, b2, j).0 == px && line_walk(a1, b1, a2, b2, j).1 == py);
                }
                if walked(a1, b1, a2, b2, j)(px, py) {
                    let k = choose|k: nat| k < j && #[trigger] line_walk(a1, b1, a2, b2, k).0 == px && line_walk(a1, b1, a2, b2, k).1 == py;
                    assert forall|k2: nat| k2 < k implies !#[trigger] walk_at_end(a1, b1, a2, b2, k2) by {}
                }
                if line_region(a1, b1, a2, b2)(px, py) {
                    let k = choose|k: nat| (forall|k2: nat| k2 < k ==> !#[trigger] walk_at_end(a1, b1, a2, b2, k2)) && #[trigger] line_walk(a1, b1, a2, b2, k).0 == px
                        && line_walk(a1, b1, a2, b2, k).1 == py;
                    if k > j {
                        assert(!walk_at_end(a1, b1, a2, b2, j));
                    } else if k < j {
                        assert(walked(a1, b1, a2, b2, j)(px, py));
                    }
                }
            }
            lemma_paint_same(old_px, wd, grown, line_region(a1, b1, a2, b2), color);
        }
    }
}

// ─── Hit areas and the dock ──────────────────────────────────────────

#[derive(Clone, Copy, Debug, PartialEq, Eq, Structural)]
pub struct Rect {
    pub x: i32,
    pub y: i32,
    pub w: u32,
    pub h: u32,
}

/// Whether a point lies in a rectangle (its left and top edges included).
pub open spec fn rect_contains(r: Rect, x: int, y: int) -> bool {
    x >= r.x && y >= r.y && x < r.x + r.w && y < r.y + r.h
}

impl Rect {
    /// Whether a point lies in the rectangle.
    pub fn contains(self, x: i32, y: i32) -> (b: bool)
        requires
            self.w <= i32::MAX,
            self.h <= i32::MAX,
            self.x + self.w <= i32::MAX,
            self.y + self.h <= i32::MAX,
        ensures
            b == rect_contains(self, x as int, y as int),
    {
        x >= self.x && y >= self.y && x < self.x + self.w as i32 && y < self.y + self.h as i32
    }
}

/// A rectangle whose right and bottom edges fit in signed coordinates.
pub open spec fn rect_fits(r: Rect) -> bool {
    r.w <= i32::MAX && r.h <= i32::MAX && r.x + r.w <= i32::MAX && r.y + r.h <= i32::MAX
}

/// An entry of the dock: its label and where it was last drawn.
pub struct DockOption {
    pub label: &'static str,
    pub bounds: Rect,
}

/// The dock at the bottom of the window: its entries, the active one and
/// the one under the pointer. (The floating animation is kept by the
/// renderer.)
pub struct Dock {
    pub options: Vec<DockOption>,
    pub active_index: usize,
    pub hovered_index: Option<usize>,
}

/// The width of one dock tab.
pub const TAB_WIDTH: u32 = 90;
/// The height of one dock tab.
pub const TAB_HEIGHT: u32 = 32;
/// The height of the dock's pill.
pub const PILL_HEIGHT: u32 = 44;
/// The gap between the pill and the window's bottom edge.
pub const PILL_BOTTOM: i32 = 24;
/// The pill's inner padding, left and right.
pub const PILL_PADDING_X: i32 = 6;
/// The pill's inner padding, top and bottom.
pub const PILL_PADDING_Y: i32 = 6;

/// Half of `d`, rounded toward zero, as integer division does.
pub open spec fn half_toward_zero(d: int) -> int {
    if d >= 0 {
        d / 2
    } else {
        -((-d) / 2)
    }
}

/// The first entry under a point, if any.
pub open spec fn first_hit(options: Seq<DockOption>, x: int, y: int) -> Option<int>
    decreases options.len(),
{
    if options.len() == 0 {
        None
    } else {
        match first_hit(options.drop_last(), x, y) {
            Some(i) => Some(i),
            None => if rect_contains(options.last().bounds, x, y) {
                Some(options.len() - 1)
            } else {
                None
            },
        }
    }
}

/// The width of the pill for `count` entries.
pub open spec fn pill_width(count: int) -> int {
    PILL_PADDING_X * 2 + count * TAB_WIDTH
}

/// Whether the pill for `count` entries, laid out in a window of the given
/// size and lifted by `float_offset`, lies with its shadow within the
/// signed 32-bit coordinates the canvas draws in.
pub open spec fn pill_fits(count: int, window_width: int, window_height: int, float_offset: int) -> bool {
    let w = pill_width(count);
    let x = half_toward_zero(window_width - w);
    let y = window_height - PILL_BOTTOM - PILL_HEIGHT + float_offset;
    &&& w + 4 <= i32::MAX
    &&& i32::MIN + 2 <= x
    &&& x + w + 2 <= i32::MAX
    &&& i32::MIN <= y
    &&& y + PILL_HEIGHT + 8 <= i32::MAX
}

impl Dock {
    /// Every entry's bounds fit in signed coordinates.
    pub open spec fn wf(&self) -> bool {
        forall|i: int| 0 <= i < self.options@.len() ==> rect_fits(#[trigger] self.options@[i].bounds)
    }

    /// The dock with its two entries, the terminal active.
    pub fn new() -> (d: Dock)
        ensures
            d.wf(),
            d.options@.len() == 2,
            d.options@[0].label@ == "Terminal"@,
            d.options@[1].label@ == "Log"@,
            d.options@[0].bounds == (Rect { x: 0, y: 0, w: 0, h: 0 }),
            d.options@[1].bounds == (Rect { x: 0, y: 0, w: 0, h: 0 }),
            d.active_index == 0,
            d.hovered_index is None,
    {
        let mut options: Vec<DockOption> = Vec::new();
        options.push(DockOption { label: "Terminal", bounds: Rect { x: 0, y: 0, w: 0, h: 0 } });
        options.push(DockOption { label: "Log", bounds: Rect { x: 0, y: 0, w: 0, h: 0 } });
        Dock { options, active_index: 0, hovered_index: None }
    }

    /// The entry under a point, if any.
    pub fn hit_test(&self, x: i32, y: i32) -> (r: Option<usize>)
        requires
            self.wf(),
        ensures
            match r {
                Some(i) => first_hit(self.options@, x as int, y as int) == Some(i as int),
                None => first_hit(self.options@, x as int, y as int) is None,
            },
    {
        let mut i: usize = 0;
        while i < self.options.len()
            invariant
                self.wf(),
                i <= self.options.len(),
                first_hit(self.options@.take(i as int), x as int, y as int) is None,
            decreases self.options.len() - i,
        {
            assert(self.options@.take(i + 1).drop_last() =~= self.options@.take(i as int));
            assert(rect_fits(self.options@[i as int].bounds));
            if self.options[i].bounds.contains(x, y) {
                proof {
                    lemma_first_hit_prefix(self.options@, x as int, y as int, i + 1);
                }
                return Some(i);
            }
            i += 1;
        }
        assert(self.options@.take(self.options@.len() as int) =~= self.options@);
        None
    }

    /// Remembers the entry under the pointer.
    pub fn update_hover(&mut self, x: i32, y: i32)
        requires
            old(self).wf(),
        ensures
            final(self).wf(),
            final(self).options == old(self).options,
            final(self).active_index == old(self).active_index,
            match final(self).hovered_index {
                Some(i) => first_hit(old(self).options@, x as int, y as int) == Some(i as int),
                None => first_hit(old(self).options@, x as int, y as int) is None,
            },
    {
        self.hovered_index = self.hit_test(x, y);
    }

    /// Makes an entry the active one; an index past the entries changes
    /// nothing.
    pub fn set_active(&mut self, index: usize)
        ensures
            final(self).active_index == (if index < old(self).options@.len() { index } else { old(self).active_index }),
            final(self).options == old(self).options,
            final(self).hovered_index == old(self).hovered_index,
    {
        if index < self.options.len() {
            self.active_index = index;
        }
    }

    /// Lays the entries out in the pill centred at the bottom of the
    /// window (raised by the floating offset), returning the pill's
    /// rectangle.
    pub fn layout(&mut self, window_width: u32, window_height: u32, float_offset: i32) -> (pill: Rect)
        requires
            pill_fits(old(self).options@.len() as int, window_width as int, window_height as int, float_offset as int),
        ensures
            final(self).wf(),
            final(self).options@.len() == old(self).options@.len(),
            final(self).active_index == old(self).active_index,
            final(self).hovered_index == old(self).hovered_index,
            pill.w == PILL_PADDING_X * 2 + old(self).options@.len() * TAB_WIDTH,
            pill.h == PILL_HEIGHT,
            pill.x == half_toward_zero(window_width - pill.w),
            pill.y == window_height - PILL_BOTTOM - PILL_HEIGHT + float_offset,
            forall|i: int| 0 <= i < final(self).options@.len() ==> (#[trigger] final(self).options@[i]).bounds == (Rect {
                x: (pill.x + PILL_PADDING_X + i * TAB_WIDTH) as i32,
                y: (pill.y + PILL_PADDING_Y) as i32,
                w: TAB_WIDTH,
                h: TAB_HEIGHT,
            }) && final(self).options@[i].label == old(self).options@[i].label,
    {
        let n = self.options.len();
        assert(n <= 0x0200_0000);
        let pill_w: u32 = (PILL_PADDING_X * 2) as u32 + (n as u32) * TAB_WIDTH;
        let diff: i64 = window_width as i64 - pill_w as i64;
        let half: i64 = if diff >= 0 { diff / 2 } else { -((-diff) / 2) };
        let pill_x: i32 = half as i32;
        let pill_y: i32 = (window_height as i64 - PILL_BOTTOM as i64 - PILL_HEIGHT as i64 + float_offset as i64) as i32;
        let ghost old_opts = self.options@;
        let mut i: usize = 0;
        let mut rebuilt: Vec<DockOption> = Vec::new();
        while i < n
            invariant
                n == old_opts.len(),
                pill_w == pill_width(n as int),
                pill_w + 4 <= i32::MAX,
                i <= n,
                rebuilt@.len() == i,
                i32::MIN + 2 <= pill_x,
                pill_x + pill_w + 2 <= i32::MAX,
                i32::MIN <= pill_y,
                pill_y + PILL_HEIGHT + 8 <= i32::MAX,
                forall|k: int| 0 <= k < i ==> (#[trigger] rebuilt@[k]).bounds == (Rect {
                    x: (pill_x + PILL_PADDING_X + k * TAB_WIDTH) as i32,
                    y: (pill_y + PILL_PADDING_Y) as i32,
                    w: TAB_WIDTH,
                    h: TAB_HEIGHT,
                }) && rebuilt@[k].label == old_opts[k].label,
                forall|k: int| 0 <= k < i ==> rect_fits(#[trigger] rebuilt@[k].bounds),
                old_opts == self.options@,
            decreases n - i,
        {
            let label = self.options[i].label;
            assert(i * 90 + 90 <= n * 90) by (nonlinear_arith)
                requires
                    i < n,
            ;
            let offset: i32 = (i as i32) * (TAB_WIDTH as i32);
            let tab_x: i32 = pill_x + PILL_PADDING_X + offset;
            let tab_y: i32 = pill_y + PILL_PADDING_Y;
            rebuilt.push(DockOption { label, bounds: Rect { x: tab_x, y: tab_y, w: TAB_WIDTH, h: TAB_HEIGHT } });
            i += 1;
        }
        self.options = rebuilt;
        Rect { x: pill_x, y: pill_y, w: pill_w, h: PILL_HEIGHT }
    }
}

/// A tab's label as the caller draws it with the font: its text, where it
/// starts, its colour, and whether it is drawn a second time one pixel to
/// the right, for a bold look.
pub struct DockLabel {
    pub text: &'static str,
    pub x: i32,
    pub y: i32,
    pub color: u32,
    pub bold: bool,
}

/// A dock tab's background: the accent with a muted inner bevel for the
/// active tab, a dark grey for the hovered one, none otherwise.
pub open spec fn tab_paint_of(s: Seq<u32>, w: int, b: Rect, active: bool, hovered: bool, p: crate::theme::Palette) -> Seq<u32> {
    if active {
        let s1 = paint(s, w, rounded_region(b.x as int, b.y as int, 90, 32, effective_radius(16, 90, 32)), p.accent);
        paint(
            s1,
            w,
            rounded_region(b.x + 1, b.y + 1, 88, 30, effective_radius(15, 88, 30)),
            (p.accent & 0xFF_FFFF) | 0x3300_0000,
        )
    } else if hovered {
        paint(s, w, rounded_region(b.x as int, b.y as int, 90, 32, effective_radius(16, 90, 32)), 0x002A_2A2A)
    } else {
        s
    }
}

impl Dock {
    /// Lays the dock out for the window and draws its pill; the tabs are
    /// drawn one by one after it.
    pub fn draw(&mut self, canvas: &mut Canvas, window_width: u32, window_height: u32, float_offset: i32) -> (pill: Rect)
        requires
            old(canvas).wf(),
            1 <= old(self).options@.len(),
            pill_fits(old(self).options@.len() as int, window_width as int, window_height as int, float_offset as int),
        ensures
            final(self).wf(),
            final(canvas).wf(),
            final(canvas).width == old(canvas).width,
            final(canvas).height == old(canvas).height,
            final(self).options@.len() == old(self).options@.len(),
            final(self).active_index == old(self).active_index,
            final(self).hovered_index == old(self).hovered_index,
            pill.w == PILL_PADDING_X * 2 + old(self).options@.len() * TAB_WIDTH,
            pill.h == PILL_HEIGHT,
            pill.x == half_toward_zero(window_width - pill.w),
            pill.y == window_height - PILL_BOTTOM - PILL_HEIGHT + float_offset,
            forall|i: int| 0 <= i < final(self).options@.len() ==> (#[trigger] final(self).options@[i]).bounds == (Rect {
                x: (pill.x + PILL_PADDING_X + i * TAB_WIDTH) as i32,
                y: (pill.y + PILL_PADDING_Y) as i32,
                w: TAB_WIDTH,
                h: TAB_HEIGHT,
            }) && final(self).options@[i].label == old(self).options@[i].label,
            final(canvas).pixels@ == pill_of(old(canvas).pixels@, old(canvas).width as int, pill.x as int, pill.y as int, pill.w as int, pill.h as int),
    {
        let pill = self.layout(window_width, window_height, float_offset);
        draw_pill_background(canvas, pill.x, pill.y, pill.w, pill.h);
        pill
    }

    /// Draws the background of tab `index` and says how its label is
    /// drawn: in the background colour on the active tab, the primary text
    /// colour on the hovered one, else the secondary one; centred
    /// across the tab (by the label's width in pixels) and eight pixels
    /// below its top.
    pub fn draw_tab(&self, canvas: &mut Canvas, index: usize, p: &crate::theme::Palette, text_width: u32) -> (label: DockLabel)
        requires
            old(canvas).wf(),
            index < self.options@.len(),
            self.options@[index as int].bounds.x + TAB_WIDTH <= i32::MAX,
            self.options@[index as int].bounds.y + TAB_HEIGHT <= i32::MAX,
            i32::MIN <= self.options@[index as int].bounds.x + half_toward_zero(TAB_WIDTH - text_width) <= i32::MAX,
        ensures
            final(canvas).wf(),
            final(canvas).width == old(canvas).width,
            final(canvas).height == old(canvas).height,
            final(canvas).pixels@ == tab_paint_of(
                old(canvas).pixels@,
                old(canvas).width as int,
                self.options@[index as int].bounds,
                index == self.active_index,
                self.hovered_index == Some(index),
                *p,
            ),
            label.text == self.options@[index as int].label,
            label.x == self.options@[index as int].bounds.x + half_toward_zero(TAB_WIDTH - text_width),
            label.y == self.options@[index as int].bounds.y + 8,
            label.color == (if index == self.active_index {
                p.bg_primary
            } else if self.hovered_index == Some(index) {
                p.text_primary
            } else {
                p.text_secondary
            }),
            label.bold == (index == self.active_index),
    {
        let b = self.options[index].bounds;
        let is_active = index == self.active_index;
        let is_hovered = match self.hovered_index {
            Some(h) => h == index,
            None => false,
        };
        if is_active {
            canvas.draw_rounded_rect(b.x, b.y, TAB_WIDTH, TAB_HEIGHT, 16, p.accent);
            canvas.draw_rounded_rect(b.x + 1, b.y + 1, TAB_WIDTH - 2, TAB_HEIGHT - 2, 15, (p.accent & 0xFF_FFFF) | 0x3300_0000);
        } else if is_hovered {
            canvas.draw_rounded_rect(b.x, b.y, TAB_WIDTH, TAB_HEIGHT, 16, 0x002A_2A2A);
        }
        let color = if is_active {
            p.bg_primary
        } else if is_hovered {
            p.text_primary
        } else {
            p.text_secondary
        };
        let d: i64 = TAB_WIDTH as i64 - text_width as i64;
        let half: i64 = if d >= 0 { d / 2 } else { -((-d) / 2) };
        let x: i32 = (b.x as i64 + half) as i32;
        DockLabel { text: self.options[index].label, x, y: b.y + 8, color, bold: is_active }
    }
}

proof fn lemma_first_hit_prefix(options: Seq<DockOption>, x: int, y: int, k: int)
    requires
        0 < k <= options.len(),
        first_hit(options.take(k), x, y) is Some,
    ensures
        first_hit(options, x, y) == first_hit(options.take(k), x, y),
    decreases options.len() - k,
{
    if k < options.len() {
        assert(options.take(k + 1).drop_last() =~= options.take(k));
        lemma_first_hit_prefix(options, x, y, k + 1);
    } else {
        assert(options.take(k) =~= options);
    }
}

// ─── The title bar ───────────────────────────────────────────────────

/// The height of the title bar.
pub const TITLEBAR_HEIGHT: u32 = 40;
/// The size of a window button.
pub const BUTTON_W: u32 = 34;
pub const BUTTON_H: u32 = 24;
/// The top of the window buttons.
pub const BUTTON_TOP: i32 = 8;
/// The gap right of the close button.
pub const BUTTON_RIGHT_MARGIN: i32 = 12;

/// What a click on the title bar does.
#[derive(Clone, Copy, Debug, PartialEq, Eq, Structural)]
pub enum TitleBarAction {
    Close,
    Maximize,
    Minimize,
    Drag,
    Outside,
}

/// A window button: its top-left corner and what it does.
#[derive(Clone, Copy, Debug, PartialEq, Eq, Structural)]
pub struct ControlButton {
    pub x: i32,
    pub y: i32,
    pub action: TitleBarAction,
}

/// Where the window buttons sit for a window `width` wide: close at the
/// right edge, maximize left of it, minimize left of that.
pub open spec fn button_layout_of(width: int) -> Seq<ControlButton> {
    let close_x = width - BUTTON_RIGHT_MARGIN - BUTTON_W;
    seq![
        ControlButton { x: close_x as i32, y: BUTTON_TOP, action: TitleBarAction::Close },
        ControlButton { x: (close_x - 2 * BUTTON_W) as i32, y: BUTTON_TOP, action: TitleBarAction::Minimize },
        ControlButton { x: (close_x - BUTTON_W) as i32, y: BUTTON_TOP, action: TitleBarAction::Maximize },
    ]
}

/// Where the window buttons sit for a window `width` wide.
pub fn button_layout(width: u32) -> (b: [ControlButton; 3])
    requires
        width <= i32::MAX,
    ensures
        b@ == button_layout_of(width as int),
{
    let close_x = width as i32 - BUTTON_RIGHT_MARGIN - BUTTON_W as i32;
    let maximize_x = close_x - BUTTON_W as i32;
    let minimize_x = maximize_x - BUTTON_W as i32;
    let b = [
        ControlButton { x: close_x, y: BUTTON_TOP, action: TitleBarAction::Close },
        ControlButton { x: minimize_x, y: BUTTON_TOP, action: TitleBarAction::Minimize },
        ControlButton { x: maximize_x, y: BUTTON_TOP, action: TitleBarAction::Maximize },
    ];
    assert(b@ =~= button_layout_of(width as int));
    b
}

/// Whether a point lies on a window button.
pub open spec fn in_button(x: int, y: int, b: ControlButton) -> bool {
    x >= b.x && y >= b.y && x < b.x + BUTTON_W && y < b.y + BUTTON_H
}

/// Whether a point lies on a window button.
pub fn point_in_button(x: i32, y: i32, button: ControlButton) -> (r: bool)
    requires
        button.x + BUTTON_W <= i32::MAX,
        button.y + BUTTON_H <= i32::MAX,
    ensures
        r == in_button(x as int, y as int, button),
{
    x >= button.x && y >= button.y && x < button.x + BUTTON_W as i32 && y < button.y + BUTTON_H as i32
}

/// What a click at `(x, y)` on a window `width` wide does: nothing below
/// or above the bar, a button's action on a button (close, then minimize,
/// then maximize), else dragging the window.
pub open spec fn title_hit_of(x: int, y: int, width: int) -> TitleBarAction {
    let b = button_layout_of(width);
    if y < 0 || y >= TITLEBAR_HEIGHT {
        TitleBarAction::Outside
    } else if in_button(x, y, b[0]) {
        b[0].action
    } else if in_button(x, y, b[1]) {
        b[1].action
    } else if in_button(x, y, b[2]) {
        b[2].action
    } else {
        TitleBarAction::Drag
    }
}

/// What a click at `(x, y)` on the title bar does.
pub fn title_hit_test(x: i32, y: i32, width: u32) -> (a: TitleBarAction)
    requires
        width <= i32::MAX,
    ensures
        a == title_hit_of(x as int, y as int, width as int),
{
    if y < 0 || y >= TITLEBAR_HEIGHT as i32 {
        return TitleBarAction::Outside;
    }
    let buttons = button_layout(width);
    let mut i: usize = 0;
    while i < 3
        invariant
            buttons@ == button_layout_of(width as int),
            width <= i32::MAX,
            0 <= y < TITLEBAR_HEIGHT,
            i <= 3,
            forall|k: int| 0 <= k < i ==> !in_button(x as int, y as int, #[trigger] buttons@[k]),
        decreases 3 - i,
    {
        if point_in_button(x, y, buttons[i]) {
            return buttons[i].action;
        }
        i += 1;
    }
    TitleBarAction::Drag
}

/// The width of the brand plate: room for the title plus 72 pixels, at
/// least 124, and no wider than what the window buttons leave (but never
/// under 124).
pub open spec fn brand_width_of(title_width: int, window_width: int) -> int {
    let reserve = BUTTON_W * 3 + BUTTON_RIGHT_MARGIN + 48;
    let desired = if title_width + 72 > u32::MAX { u32::MAX as int } else { title_width + 72 };
    let max_width = if window_width - reserve > 124 { window_width - reserve } else { 124 };
    if desired < 124 {
        124
    } else if desired > max_width {
        max_width
    } else {
        desired
    }
}

/// The width of the brand plate for a title `title_width` pixels wide.
pub fn brand_width(title_width: u32, window_width: u32) -> (w: u32)
    requires
        window_width <= i32::MAX,
    ensures
        w == brand_width_of(title_width as int, window_width as int),
{
    let control_reserve: i32 = (BUTTON_W * 3 + BUTTON_RIGHT_MARGIN as u32 + 48) as i32;
    let desired = title_width.saturating_add(72);
    let room = window_width as i32 - control_reserve;
    let max_width: u32 = if room > 124 { room as u32 } else { 124 };
    if desired < 124 {
        124
    } else if desired > max_width {
        max_width
    } else {
        desired
    }
}

// ─── The content frame ───────────────────────────────────────────────

/// Space between the window's sides and the content frame.
pub const CONTENT_PADDING_X: i32 = 20;
/// Space between the title bar and the content frame.
pub const CONTENT_TOP_GAP: i32 = 18;
/// Space between the content frame and the window's bottom.
pub const CONTENT_BOTTOM_GAP: i32 = 20;

#[derive(Clone, Copy, Debug, PartialEq, Eq, Structural)]
pub struct ContentFrame {
    pub x: i32,
    pub y: i32,
    pub width: u32,
    pub height: u32,
}

/// `a - b`, stopping at zero.
pub open spec fn sat_sub(a: int, b: int) -> int {
    if a > b {
        a - b
    } else {
        0
    }
}

/// The frame the terminal grid is drawn in, for a window of the given
/// size: padded at the sides, below the title bar, above a bottom gap.
pub fn content_frame(width: u32, height: u32) -> (f: ContentFrame)
    ensures
        f.x == CONTENT_PADDING_X,
        f.y == TITLEBAR_HEIGHT + CONTENT_TOP_GAP,
        f.width == sat_sub(width as int, 2 * CONTENT_PADDING_X),
        f.height == sat_sub(height as int, TITLEBAR_HEIGHT + CONTENT_TOP_GAP + CONTENT_BOTTOM_GAP),
{
    ContentFrame {
        x: CONTENT_PADDING_X,
        y: TITLEBAR_HEIGHT as i32 + CONTENT_TOP_GAP,
        width: width.saturating_sub((CONTENT_PADDING_X as u32) * 2),
        height: height.saturating_sub(TITLEBAR_HEIGHT + CONTENT_TOP_GAP as u32 + CONTENT_BOTTOM_GAP as u32),
    }
}

/// How many terminal cells fit the content frame, at least one each
/// way and at most `u16::MAX`.
pub open spec fn grid_size_of(width: int, height: int, cell_width: int, cell_height: int) -> (int, int) {
    let cw = if cell_width > 1 { cell_width } else { 1 };
    let ch = if cell_height > 1 { cell_height } else { 1 };
    let columns = sat_sub(width, 2 * CONTENT_PADDING_X) / cw;
    let rows = sat_sub(height, TITLEBAR_HEIGHT + CONTENT_TOP_GAP + CONTENT_BOTTOM_GAP) / ch;
    let c = if columns > 1 { columns } else { 1 };
    let r = if rows > 1 { rows } else { 1 };
    (if c < 0xFFFF { c } else { 0xFFFF }, if r < 0xFFFF { r } else { 0xFFFF })
}

/// How many terminal cells fit the content frame.
pub fn grid_size(width: u32, height: u32, cell_width: u32, cell_height: u32) -> (g: (u16, u16))
    ensures
        (g.0 as int, g.1 as int) == grid_size_of(width as int, height as int, cell_width as int, cell_height as int),
{
    let cw = if cell_width > 1 { cell_width } else { 1 };
    let ch = if cell_height > 1 { cell_height } else { 1 };
    let columns = width.saturating_sub((CONTENT_PADDING_X as u32) * 2) / cw;
    let rows = height.saturating_sub(TITLEBAR_HEIGHT + CONTENT_TOP_GAP as u32 + CONTENT_BOTTOM_GAP as u32) / ch;
    let c = if columns > 1 { columns } else { 1 };
    let r = if rows > 1 { rows } else { 1 };
    ((if c < 0xFFFF { c } else { 0xFFFF }) as u16, (if r < 0xFFFF { r } else { 0xFFFF }) as u16)
}

// ─── Terminal colours ────────────────────────────────────────────────

/// The colours a terminal cell can carry.
#[derive(Clone, Copy, Debug, PartialEq, Eq, Structural)]
pub enum CellColor {
    Reset,
    Black,
    Red,
    Green,
    Yellow,
    Blue,
    Magenta,
    Cyan,
    Gray,
    DarkGray,
    LightRed,
    LightGreen,
    LightYellow,
    LightBlue,
    LightMagenta,
    LightCyan,
    White,
    Rgb(u8, u8, u8),
    Indexed(u8),
}

/// The level of one step of the 6×6×6 colour cube.
pub open spec fn cube_level(v: int) -> int {
    if v == 0 {
        0
    } else {
        55 + 40 * v
    }
}

/// The colour of a 256-colour index: the sixteen terminal colours of the
/// palette, then the 6×6×6 cube, then 24 grays.
pub open spec fn indexed_color_of(p: crate::theme::Palette, value: u8) -> u32 {
    let ansi = crate::theme::renderer_ansi_of(p);
    if value < 8 {
        ansi[value as int]
    } else if value == 8 {
        ansi[9]
    } else if value < 16 {
        ansi[value - 8]
    } else if value < 232 {
        let idx = value - 16;
        (cube_level((idx / 36) % 6) * 0x1_0000 + cube_level((idx / 6) % 6) * 0x100 + cube_level(idx % 6)) as u32
    } else {
        let gray = 8 + 10 * (value - 232);
        (gray * 0x1_0000 + gray * 0x100 + gray) as u32
    }
}

fn cube(v: u8) -> (c: u32)
    requires
        v < 6,
    ensures
        c == cube_level(v as int),
        c < 256,
{
    if v == 0 {
        0
    } else {
        55 + 40 * v as u32
    }
}

/// The colour of a 256-colour index.
pub fn indexed_color(p: &crate::theme::Palette, value: u8) -> (c: u32)
    ensures
        c == indexed_color_of(*p, value),
{
    let ansi: [u32; 10] = [
        p.bg_primary,
        p.accent,
        0x0038_8C50,
        0x00C8_9A1E,
        p.text_primary,
        p.text_secondary,
        p.text_secondary,
        p.text_primary,
        p.text_secondary,
        p.text_dim,
    ];
    assert(ansi@ =~= crate::theme::renderer_ansi_of(*p));
    if value < 8 {
        ansi[value as usize]
    } else if value == 8 {
        ansi[9]
    } else if value < 16 {
        ansi[(value - 8) as usize]
    } else if value < 232 {
        let idx = value - 16;
        let r = cube((idx / 36) % 6);
        let g = cube((idx / 6) % 6);
        let b = cube(idx % 6);
        assert((r << 16) | (g << 8) | b == r * 0x1_0000 + g * 0x100 + b) by (bit_vector)
            requires
                r < 256,
                g < 256,
                b < 256,
        ;
        (r << 16) | (g << 8) | b
    } else {
        let gray: u32 = 8 + 10 * (value - 232) as u32;
        assert((gray << 16) | (gray << 8) | gray == gray * 0x1_0000 + gray * 0x100 + gray) by (bit_vector)
            requires
                gray < 256,
        ;
        (gray << 16) | (gray << 8) | gray
    }
}

/// The colour of a cell colour other than the default.
pub open spec fn palette_color_of(p: crate::theme::Palette, c: CellColor) -> u32 {
    let ansi = crate::theme::renderer_ansi_of(p);
    match c {
        CellColor::Reset => ansi[0],
        CellColor::Black => ansi[0],
        CellColor::Red => ansi[1],
        CellColor::LightRed => ansi[1],
        CellColor::Green => ansi[2],
        CellColor::LightGreen => ansi[2],
        CellColor::Yellow => ansi[3],
        CellColor::LightYellow => ansi[3],
        CellColor::Blue => ansi[4],
        CellColor::LightBlue => ansi[4],
        CellColor::Magenta => ansi[5],
        CellColor::LightMagenta => ansi[5],
        CellColor::Cyan => ansi[6],
        CellColor::LightCyan => ansi[6],
        CellColor::White => ansi[7],
        CellColor::Gray => ansi[8],
        CellColor::DarkGray => ansi[9],
        CellColor::Rgb(r, g, b) => (r as int * 0x1_0000 + g as int * 0x100 + b as int) as u32,
        CellColor::Indexed(v) => indexed_color_of(p, v),
    }
}

/// The colour a cell colour is drawn with.
pub fn map_palette_color(p: &crate::theme::Palette, c: CellColor) -> (r: u32)
    ensures
        r == palette_color_of(*p, c),
{
    match c {
        CellColor::Reset | CellColor::Black => p.bg_primary,
        CellColor::Red | CellColor::LightRed => p.accent,
        CellColor::Green | CellColor::LightGreen => 0x0038_8C50,
        CellColor::Yellow | CellColor::LightYellow => 0x00C8_9A1E,
        CellColor::Blue | CellColor::LightBlue => p.text_primary,
        CellColor::Magenta | CellColor::LightMagenta => p.text_secondary,
        CellColor::Cyan | CellColor::LightCyan => p.text_secondary,
        CellColor::White => p.text_primary,
        CellColor::Gray => p.text_secondary,
        CellColor::DarkGray => p.text_dim,
        CellColor::Rgb(r, g, b) => {
            let (r, g, b) = (r as u32, g as u32, b as u32);
            assert((r << 16) | (g << 8) | b == r * 0x1_0000 + g * 0x100 + b) by (bit_vector)
                requires
                    r < 256,
                    g < 256,
                    b < 256,
            ;
            (r << 16) | (g << 8) | b
        },
        CellColor::Indexed(v) => indexed_color(p, v),
    }
}

/// A cell's text colour: the primary text colour by default.
pub fn map_foreground_color(p: &crate::theme::Palette, c: CellColor) -> (r: u32)
    ensures
        r == (if c == CellColor::Reset { p.text_primary } else { palette_color_of(*p, c) }),
{
    match c {
        CellColor::Reset => p.text_primary,
        other => map_palette_color(p, other),
    }
}

/// A cell's background colour: the primary background by default.
pub fn map_background_color(p: &crate::theme::Palette, c: CellColor) -> (r: u32)
    ensures
        r == (if c == CellColor::Reset { p.bg_primary } else { palette_color_of(*p, c) }),
{
    match c {
        CellColor::Reset => p.bg_primary,
        other => map_palette_color(p, other),
    }
}

// ─── Window chrome ───────────────────────────────────────────────────

/// The window with a one-pixel edge of `color` round it: top, bottom,
/// left and right, in that order.
pub open spec fn window_edge_of(s: Seq<u32>, w: int, h: int, color: u32) -> Seq<u32> {
    if w == 0 || h == 0 {
        s
    } else {
        paint(paint(paint(paint(s, w, rect_region(0, 0, w, 1), color), w, rect_region(0, h - 1, w, 1), color), w,
            rect_region(0, 0, 1, h), color), w, rect_region(w - 1, 0, 1, h), color)
    }
}

/// Draws the one-pixel window edge.
pub fn draw_window_edge(canvas: &mut Canvas, color: u32)
    requires
        old(canvas).wf(),
    ensures
        final(canvas).wf(),
        final(canvas).width == old(canvas).width,
        final(canvas).height == old(canvas).height,
        final(canvas).pixels@ == window_edge_of(old(canvas).pixels@, old(canvas).width as int, old(canvas).height as int, color),
{
    let w = canvas.width;
    let h = canvas.height;
    if w == 0 || h == 0 {
        return;
    }
    canvas.draw_rect(0, 0, w as u32, 1, color);
    canvas.draw_rect(0, h as i32 - 1, w as u32, 1, color);
    canvas.draw_rect(0, 0, 1, h as u32, color);
    canvas.draw_rect(w as i32 - 1, 0, 1, h as u32, color);
}

/// The radius of the content frame's corners.
pub const CONTENT_RADIUS: u32 = 18;

/// The content frame drawn as nested plates: the outer border, the
/// elevated surface, the base surface and the secondary background, a
/// rule under the top, and (with the dock shown and room for it) a strip
/// kept clear for the dock with its rule.
pub open spec fn shell_of(s: Seq<u32>, w: int, f: ContentFrame, show_dock: bool, p: crate::theme::Palette) -> Seq<u32> {
    let (x, y, fw, fh) = (f.x as int, f.y as int, f.width as int, f.height as int);
    if fw == 0 || fh == 0 {
        s
    } else {
        let s1 = paint(s, w, rounded_region(x, y, fw, fh, effective_radius(CONTENT_RADIUS, f.width, f.height)), p.border_strong);
        let s2 = paint(s1, w, rounded_region(x + 1, y + 1, sat_sub(fw, 2), sat_sub(fh, 2),
            effective_radius(17, sat_sub(fw, 2) as u32, sat_sub(fh, 2) as u32)), p.surface_base);
        let s3 = paint(s2, w, rounded_region(x + 3, y + 3, sat_sub(fw, 6), sat_sub(fh, 6),
            effective_radius(15, sat_sub(fw, 6) as u32, sat_sub(fh, 6) as u32)), p.surface_base);
        let s4 = paint(s3, w, rounded_region(x + 8, y + 8, sat_sub(fw, 16), sat_sub(fh, 16),
            effective_radius(11, sat_sub(fw, 16) as u32, sat_sub(fh, 16) as u32)), p.surface_base);
        let s5 = paint(s4, w, rect_region(x + 24, y + 14, sat_sub(fw, 48), 1), p.border_strong);
        if show_dock && fh > 110 {
            let strip_y = y + fh - 88 - 8;
            let s6 = paint(s5, w, rect_region(x + 10, strip_y, sat_sub(fw, 20), 88), p.surface_base);
            paint(s6, w, rect_region(x + 18, strip_y + 8, sat_sub(fw, 36), 1), p.border_strong)
        } else {
            s5
        }
    }
}

/// Draws the content frame's plates.
pub fn draw_workspace_shell(canvas: &mut Canvas, frame: ContentFrame, show_dock: bool, p: &crate::theme::Palette)
    requires
        old(canvas).wf(),
        0 <= frame.x <= 0x1000_0000,
        0 <= frame.y <= 0x1000_0000,
        frame.width <= 0x1000_0000,
        frame.height <= 0x1000_0000,
    ensures
        final(canvas).wf(),
        final(canvas).width == old(canvas).width,
        final(canvas).height == old(canvas).height,
        final(canvas).pixels@ == shell_of(old(canvas).pixels@, old(canvas).width as int, frame, show_dock, *p),
{
    if frame.width == 0 || frame.height == 0 {
        return;
    }
    canvas.draw_rounded_rect(frame.x, frame.y, frame.width, frame.height, CONTENT_RADIUS, p.border_strong);
    canvas.draw_rounded_rect(frame.x + 1, frame.y + 1, frame.width.saturating_sub(2), frame.height.saturating_sub(2), 17, p.surface_base);
    canvas.draw_rounded_rect(frame.x + 3, frame.y + 3, frame.width.saturating_sub(6), frame.height.saturating_sub(6), 15, p.surface_base);
    canvas.draw_rounded_rect(frame.x + 8, frame.y + 8, frame.width.saturating_sub(16), frame.height.saturating_sub(16), 11, p.surface_base);
    canvas.draw_rect(frame.x + 24, frame.y + 14, frame.width.saturating_sub(48), 1, p.border_strong);
    if show_dock && frame.height > 110 {
        let dock_clear_height: u32 = 88;
        let strip_y = frame.y + frame.height as i32 - dock_clear_height as i32 - 8;
        canvas.draw_rect(frame.x + 10, strip_y, frame.width.saturating_sub(20), dock_clear_height, p.surface_base);
        canvas.draw_rect(frame.x + 18, strip_y + 8, frame.width.saturating_sub(36), 1, p.border_strong);
    }
}

/// The dock's pill: a diffused shadow below it, the outer border, the
/// main and inner backgrounds, and a highlight along the top.
pub open spec fn pill_of(s: Seq<u32>, w: int, x: int, y: int, pw: int, ph: int) -> Seq<u32> {
    let s1 = paint(s, w, rounded_region(x - 2, y + 4, pw + 4, ph + 4, effective_radius(24, (pw + 4) as u32, (ph + 4) as u32)), 0x0003_0303);
    let s2 = paint(s1, w, rounded_region(x, y + 4, pw, ph, effective_radius(22, pw as u32, ph as u32)), 0x0005_0505);
    let s3 = paint(s2, w, rounded_region(x, y, pw, ph, effective_radius(22, pw as u32, ph as u32)), 0x0044_4444);
    let s4 = paint(s3, w, rounded_region(x + 1, y + 1, pw - 2, ph - 2, effective_radius(21, (pw - 2) as u32, (ph - 2) as u32)), 0x0022_2222);
    let s5 = paint(s4, w, rounded_region(x + 2, y + 2, pw - 4, ph - 4, effective_radius(20, (pw - 4) as u32, (ph - 4) as u32)), 0x001A_1A1A);
    paint(s5, w, rect_region(x + 22, y + 2, pw - 44, 1), 0x002E_2E2E)
}

/// Draws the dock's pill.
pub fn draw_pill_background(canvas: &mut Canvas, x: i32, y: i32, w: u32, h: u32)
    requires
        old(canvas).wf(),
        44 <= w,
        4 <= h,
        w + 4 <= i32::MAX,
        h + 4 <= i32::MAX,
        i32::MIN + 2 <= x,
        x + w + 2 <= i32::MAX,
        y + h + 8 <= i32::MAX,
    ensures
        final(canvas).wf(),
        final(canvas).width == old(canvas).width,
        final(canvas).height == old(canvas).height,
        final(canvas).pixels@ == pill_of(old(canvas).pixels@, old(canvas).width as int, x as int, y as int, w as int, h as int),
{
    canvas.draw_rounded_rect(x - 2, y + 4, w + 4, h + 4, 24, 0x0003_0303);
    canvas.draw_rounded_rect(x, y + 4, w, h, 22, 0x0005_0505);
    canvas.draw_rounded_rect(x, y, w, h, 22, 0x0044_4444);
    canvas.draw_rounded_rect(x + 1, y + 1, w - 2, h - 2, 21, 0x0022_2222);
    canvas.draw_rounded_rect(x + 2, y + 2, w - 4, h - 4, 20, 0x001A_1A1A);
    canvas.draw_rect(x + 22, y + 2, w - 44, 1, 0x002E_2E2E);
}

// ─── Box-drawing characters ──────────────────────────────────────────

/// The lines a box-drawing character is drawn with inside its cell, as
/// pairs of end points; none for any other text.
pub open spec fn border_lines_of(symbol: Seq<char>, x: int, y: int, cw: int, ch: int) -> Option<Seq<(int, int, int, int)>> {
    let (l, r, t, b) = (x, x + cw - 1, y, y + ch - 1);
    let (mx, my) = (x + cw / 2, y + ch / 2);
    if symbol == seq!['\u{2500}'] {
        Some(seq![(l, my, r, my)])
    } else if symbol == seq!['\u{2502}'] {
        Some(seq![(mx, t, mx, b)])
    } else if symbol == seq!['\u{250C}'] {
        Some(seq![(mx, my, r, my), (mx, my, mx, b)])
    } else if symbol == seq!['\u{2510}'] {
        Some(seq![(l, my, mx, my), (mx, my, mx, b)])
    } else if symbol == seq!['\u{2514}'] {
        Some(seq![(mx, t, mx, my), (mx, my, r, my)])
    } else if symbol == seq!['\u{2518}'] {
        Some(seq![(l, my, mx, my), (mx, t, mx, my)])
    } else if symbol == seq!['\u{251C}'] {
        Some(seq![(mx, t, mx, b), (mx, my, r, my)])
    } else if symbol == seq!['\u{2524}'] {
        Some(seq![(mx, t, mx, b), (l, my, mx, my)])
    } else if symbol == seq!['\u{252C}'] {
        Some(seq![(l, my, r, my), (mx, my, mx, b)])
    } else if symbol == seq!['\u{2534}'] {
        Some(seq![(l, my, r, my), (mx, t, mx, my)])
    } else if symbol == seq!['\u{253C}'] {
        Some(seq![(l, my, r, my), (mx, t, mx, b)])
    } else {
        None
    }
}

/// The grid with lines drawn in `color`, in order.
pub open spec fn lines_paint(s: Seq<u32>, w: int, lines: Seq<(int, int, int, int)>, color: u32) -> Seq<u32>
    decreases lines.len(),
{
    if lines.len() == 0 {
        s
    } else {
        let l = lines.last();
        paint(lines_paint(s, w, lines.drop_last(), color), w, line_region(l.0, l.1, l.2, l.3), color)
    }
}

fn is_symbol(symbol: &[char], c: char) -> (r: bool)
    ensures
        r == (symbol@ == seq![c]),
{
    if symbol.len() == 1 && symbol[0] == c {
        assert(symbol@ =~= seq![c]);
        true
    } else {
        false
    }
}

/// Draws a box-drawing character as lines filling its cell; returns
/// whether the text was one.
pub fn draw_border_symbol(canvas: &mut Canvas, symbol: &str, x: i32, y: i32, cell_width: i32, cell_height: i32, color: u32) -> (drawn: bool)
    requires
        old(canvas).wf(),
        -0x0800_0000 <= x <= 0x0800_0000,
        -0x0800_0000 <= y <= 0x0800_0000,
        0 <= cell_width <= 0x0400_0000,
        0 <= cell_height <= 0x0400_0000,
    ensures
        final(canvas).wf(),
        final(canvas).width == old(canvas).width,
        final(canvas).height == old(canvas).height,
        drawn == border_lines_of(symbol@, x as int, y as int, cell_width as int, cell_height as int) is Some,
        final(canvas).pixels@ == match border_lines_of(symbol@, x as int, y as int, cell_width as int, cell_height as int) {
            Some(ls) => lines_paint(old(canvas).pixels@, old(canvas).width as int, ls, color),
            None => old(canvas).pixels@,
        },
{
    let sym = crate::text::chars_of(symbol);
    let left = x;
    let right = x + cell_width - 1;
    let top = y;
    let bottom = y + cell_height - 1;
    let mid_x = x + cell_width / 2;
    let mid_y = y + cell_height / 2;
    let ghost s0 = canvas.pixels@;
    let ghost w = canvas.width as int;
    let ghost lines = border_lines_of(symbol@, x as int, y as int, cell_width as int, cell_height as int);
    if is_symbol(&sym, '\u{2500}') {
        canvas.draw_line(left, mid_y, right, mid_y, color);
    } else if is_symbol(&sym, '\u{2502}') {
        canvas.draw_line(mid_x, top, mid_x, bottom, color);
    } else if is_symbol(&sym, '\u{250C}') {
        canvas.draw_line(mid_x, mid_y, right, mid_y, color);
        canvas.draw_line(mid_x, mid_y, mid_x, bottom, color);
    } else if is_symbol(&sym, '\u{2510}') {
        canvas.draw_line(left, mid_y, mid_x, mid_y, color);
        canvas.draw_line(mid_x, mid_y, mid_x, bottom, color);
    } else if is_symbol(&sym, '\u{2514}') {
        canvas.draw_line(mid_x, top, mid_x, mid_y, color);
        canvas.draw_line(mid_x, mid_y, right, mid_y, color);
    } else if is_symbol(&sym, '\u{2518}') {
        canvas.draw_line(left, mid_y, mid_x, mid_y, color);
        canvas.draw_line(mid_x, top, mid_x, mid_y, color);
    } else if is_symbol(&sym, '\u{251C}') {
        canvas.draw_line(mid_x, top, mid_x, bottom, color);
        canvas.draw_line(mid_x, mid_y, right, mid_y, color);
    } else if is_symbol(&sym, '\u{2524}') {
        canvas.draw_line(mid_x, top, mid_x, bottom, color);
        canvas.draw_line(left, mid_y, mid_x, mid_y, color);
    } else if is_symbol(&sym, '\u{252C}') {
        canvas.draw_line(left, mid_y, right, mid_y, color);
        canvas.draw_line(mid_x, mid_y, mid_x, bottom, color);
    } else if is_symbol(&sym, '\u{2534}') {
        canvas.draw_line(left, mid_y, right, mid_y, color);
        canvas.draw_line(mid_x, top, mid_x, mid_y, color);
    } else if is_symbol(&sym, '\u{253C}') {
        canvas.draw_line(left, mid_y, right, mid_y, color);
        canvas.draw_line(mid_x, top, mid_x, bottom, color);
    } else {
        return false;
    }
    proof {
        reveal_with_fuel(lines_paint, 3);
        let ls = lines->0;
        if ls.len() == 2 {
            assert(ls.drop_last() =~= seq![ls[0]]);
            assert(ls.drop_last().drop_last() =~= Seq::<(int, int, int, int)>::empty());
        } else {
            assert(ls.drop_last() =~= Seq::<(int, int, int, int)>::empty());
        }
    }
    true
}

// ─── Window buttons ──────────────────────────────────────────────────

#[derive(Clone, Copy, Debug, PartialEq, Eq, Structural)]
pub enum ControlGlyph {
    Close,
    Minimize,
    Maximize,
}

/// The colour of a window button's glyph: the background colour on the
/// hovered close button, the active colour on another hovered button,
/// else the dim colour.
pub open spec fn glyph_color_of(hovered: bool, glyph: ControlGlyph, active: u32, dim: u32, p: crate::theme::Palette) -> u32 {
    if hovered && glyph == ControlGlyph::Close {
        p.bg_primary
    } else if hovered {
        active
    } else {
        dim
    }
}

/// A window button drawn: a plate when hovered (the accent for close),
/// then its glyph: a thick cross, a bar, or a square outline.
pub open spec fn control_button_of(
    s: Seq<u32>,
    w: int,
    b: ControlButton,
    hovered: bool,
    glyph: ControlGlyph,
    active: u32,
    dim: u32,
    p: crate::theme::Palette,
) -> Seq<u32> {
    let plated = if hovered {
        paint(s, w, rounded_region(b.x as int, b.y as int, BUTTON_W as int, BUTTON_H as int, 8),
            if glyph == ControlGlyph::Close { p.accent } else { p.surface_base })
    } else {
        s
    };
    let c = glyph_color_of(hovered, glyph, active, dim, p);
    let cx = b.x + 17;
    let cy = b.y + 12;
    match glyph {
        ControlGlyph::Close => lines_paint(plated, w, seq![
            (cx - 4, cy - 4, cx + 4, cy + 4),
            (cx - 3, cy - 4, cx + 5, cy + 4),
            (cx + 4, cy - 4, cx - 4, cy + 4),
            (cx + 3, cy - 4, cx - 5, cy + 4),
        ], c),
        ControlGlyph::Minimize => paint(plated, w, rect_region(cx - 4, cy + 1, 9, 1), c),
        ControlGlyph::Maximize => paint(paint(paint(paint(plated, w, rect_region(cx - 4, cy - 4, 9, 1), c), w,
            rect_region(cx - 4, cy - 4, 1, 9), c), w, rect_region(cx + 4, cy - 4, 1, 9), c), w,
            rect_region(cx - 4, cy + 4, 9, 1), c),
    }
}

/// Draws a window button.
pub fn draw_control_button(
    canvas: &mut Canvas,
    button: ControlButton,
    hovered_action: Option<TitleBarAction>,
    glyph: ControlGlyph,
    active_color: u32,
    dim_color: u32,
    p: &crate::theme::Palette,
)
    requires
        old(canvas).wf(),
        -0x1000_0000 <= button.x <= 0x1000_0000,
        -0x1000_0000 <= button.y <= 0x1000_0000,
    ensures
        final(canvas).wf(),
        final(canvas).width == old(canvas).width,
        final(canvas).height == old(canvas).height,
        final(canvas).pixels@ == control_button_of(
            old(canvas).pixels@,
            old(canvas).width as int,
            button,
            hovered_action == Some(button.action),
            glyph,
            active_color,
            dim_color,
            *p,
        ),
{
    let is_hovered = match hovered_action {
        Some(a) => a == button.action,
        None => false,
    };
    if is_hovered {
        let plate_color = if glyph == ControlGlyph::Close { p.accent } else { p.surface_base };
        canvas.draw_rounded_rect(button.x, button.y, BUTTON_W, BUTTON_H, 8, plate_color);
    }
    let icon_color = if is_hovered && glyph == ControlGlyph::Close {
        p.bg_primary
    } else if is_hovered {
        active_color
    } else {
        dim_color
    };
    let cx = button.x + BUTTON_W as i32 / 2;
    let cy = button.y + BUTTON_H as i32 / 2;
    match glyph {
        ControlGlyph::Close => {
            canvas.draw_line(cx - 4, cy - 4, cx + 4, cy + 4, icon_color);
            canvas.draw_line(cx - 3, cy - 4, cx + 5, cy + 4, icon_color);
            canvas.draw_line(cx + 4, cy - 4, cx - 4, cy + 4, icon_color);
            canvas.draw_line(cx + 3, cy - 4, cx - 5, cy + 4, icon_color);
            proof {
                reveal_with_fuel(lines_paint, 5);
                let ls = seq![
                    (cx - 4, cy - 4, cx + 4, cy + 4),
                    (cx - 3, cy - 4, cx + 5, cy + 4),
                    (cx + 4, cy - 4, cx - 4, cy + 4),
                    (cx + 3, cy - 4, cx - 5, cy + 4),
                ];
                assert(ls.drop_last() =~= seq![ls[0], ls[1], ls[2]]);
                assert(ls.drop_last().drop_last() =~= seq![ls[0], ls[1]]);
                assert(ls.drop_last().drop_last().drop_last() =~= seq![ls[0]]);
                assert(ls.drop_last().drop_last().drop_last().drop_last() =~= Seq::<(int, int, int, int)>::empty());
            }
        },
        ControlGlyph::Minimize => {
            canvas.draw_rect(cx - 4, cy + 1, 9, 1, icon_color);
        },
        ControlGlyph::Maximize => {
            canvas.draw_rect(cx - 4, cy - 4, 9, 1, icon_color);
            canvas.draw_rect(cx - 4, cy - 4, 1, 9, icon_color);
            canvas.draw_rect(cx + 4, cy - 4, 1, 9, icon_color);
            canvas.draw_rect(cx - 4, cy + 4, 9, 1, icon_color);
        },
    }
}

// ─── The window icon ─────────────────────────────────────────────────

/// The side of the icon as drawn in the title bar.
pub const ICON_SIZE: u32 = 16;

/// The RGBA sample of the source image for icon pixel `(dx, dy)`: the
/// nearest source pixel, by scaling down.
pub open spec fn icon_sample(rgba: Seq<u8>, src_w: int, src_h: int, dx: int, dy: int) -> (int, int, int, u8) {
    let sx = dx * src_w / 16;
    let sy = dy * src_h / 16;
    let idx = (sy * src_w + sx) * 4;
    (rgba[idx] as int, rgba[idx + 1] as int, rgba[idx + 2] as int, rgba[idx + 3])
}

/// The grid with the window icon drawn 16 by 16 at column `x_offset`,
/// centred in the title bar: pixels nearly transparent are skipped,
/// nearly opaque ones set, the rest blended by their alpha.
pub open spec fn icon_paint(s: Seq<u32>, w: int, rgba: Seq<u8>, src_w: int, src_h: int, x_offset: int) -> Seq<u32> {
    Seq::new(s.len(), |i: int| {
        let (px, py) = (i % w, i / w);
        let (dx, dy) = (px - x_offset, py - 12);
        if 0 <= dx < 16 && 0 <= dy < 16 {
            let (r, g, b, a) = icon_sample(rgba, src_w, src_h, dx, dy);
            let c = (r * 0x1_0000 + g * 0x100 + b) as u32;
            if a < 10 {
                s[i]
            } else if a > 240 {
                c
            } else {
                blend_of(s[i], c, a)
            }
        } else {
            s[i]
        }
    })
}

proof fn lemma_icon_index(src_w: int, src_h: int, dx: int, dy: int)
    requires
        0 < src_w,
        0 < src_h,
        0 <= dx < 16,
        0 <= dy < 16,
    ensures
        0 <= dx * src_w / 16 < src_w,
        0 <= dy * src_h / 16 < src_h,
        0 <= ((dy * src_h / 16) * src_w + dx * src_w / 16) * 4 + 3 < src_w * src_h * 4,
{
    assert(0 <= dx * src_w / 16 < src_w) by (nonlinear_arith)
        requires
            0 < src_w,
            0 <= dx < 16,
    ;
    assert(0 <= dy * src_h / 16 < src_h) by (nonlinear_arith)
        requires
            0 < src_h,
            0 <= dy < 16,
    ;
    let sx = dx * src_w / 16;
    let sy = dy * src_h / 16;
    assert((sy * src_w + sx) * 4 + 3 < src_w * src_h * 4) by (nonlinear_arith)
        requires
            0 <= sx < src_w,
            0 <= sy < src_h,
    ;
    assert(0 <= (sy * src_w + sx) * 4) by (nonlinear_arith)
        requires
            0 <= sx,
            0 <= sy,
            0 < src_w,
    ;
}

/// Draws the window icon, scaled to 16 by 16; an image with fewer bytes
/// than its size asks for is not drawn.
pub fn draw_icon(canvas: &mut Canvas, rgba: &[u8], src_w: u32, src_h: u32, x_offset: i32)
    requires
        old(canvas).wf(),
        src_w > 0,
        src_h > 0,
        src_w * src_h * 4 <= u32::MAX,
        15 * src_w <= u32::MAX,
        15 * src_h <= u32::MAX,
        -0x1000_0000 <= x_offset <= 0x1000_0000,
    ensures
        final(canvas).wf(),
        final(canvas).width == old(canvas).width,
        final(canvas).height == old(canvas).height,
        final(canvas).pixels@ == if rgba@.len() < src_w * src_h * 4 {
            old(canvas).pixels@
        } else {
            icon_paint(old(canvas).pixels@, old(canvas).width as int, rgba@, src_w as int, src_h as int, x_offset as int)
        },
{
    if rgba.len() < (src_w * src_h * 4) as usize {
        return;
    }
    let ghost old_px = canvas.pixels@;
    let ghost target = icon_paint(old_px, canvas.width as int, rgba@, src_w as int, src_h as int, x_offset as int);
    let width = canvas.width;
    let height = canvas.height;
    let n = canvas.pixels.len();
    let mut dy: u32 = 0;
    while dy < ICON_SIZE
        invariant
            canvas.wf(),
            canvas.width == width,
            canvas.height == height,
            n == canvas.pixels@.len(),
            old_px.len() == n,
            dy <= 16,
            rgba@.len() >= src_w * src_h * 4,
            src_w * src_h * 4 <= u32::MAX,
            src_w > 0,
            src_h > 0,
            15 * src_w <= u32::MAX,
            15 * src_h <= u32::MAX,
            -0x1000_0000 <= x_offset <= 0x1000_0000,
            target == icon_paint(old_px, width as int, rgba@, src_w as int, src_h as int, x_offset as int),
            forall|k: int| 0 <= k < n ==> #[trigger] canvas.pixels@[k] == if (k / (width as int)) < 12 + dy { target[k] } else { old_px[k] },
        decreases 16 - dy,
    {
        let mut dx: u32 = 0;
        while dx < ICON_SIZE
            invariant
                canvas.wf(),
                canvas.width == width,
                canvas.height == height,
                n == canvas.pixels@.len(),
                old_px.len() == n,
                dy < 16,
                dx <= 16,
                rgba@.len() >= src_w * src_h * 4,
                src_w * src_h * 4 <= u32::MAX,
                src_w > 0,
                src_h > 0,
                15 * src_w <= u32::MAX,
                15 * src_h <= u32::MAX,
                -0x1000_0000 <= x_offset <= 0x1000_0000,
                target == icon_paint(old_px, width as int, rgba@, src_w as int, src_h as int, x_offset as int),
                forall|k: int| 0 <= k < n ==> #[trigger] canvas.pixels@[k] == if (k / (width as int)) < 12 + dy || ((k / (width as int)) == 12 + dy && (k % (width as int)) < x_offset + dx) {
                    target[k]
                } else {
                    old_px[k]
                },
            decreases 16 - dx,
        {
            proof {
                lemma_icon_index(src_w as int, src_h as int, dx as int, dy as int);
                assert(dx * src_w <= 15 * src_w) by (nonlinear_arith)
                    requires
                        dx < 16,
                ;
                assert(dy * src_h <= 15 * src_h) by (nonlinear_arith)
                    requires
                        dy < 16,
                ;
            }
            let sx = (dx * src_w / ICON_SIZE) as usize;
            let sy = (dy * src_h / ICON_SIZE) as usize;
            let idx = (sy * src_w as usize + sx) * 4;
            let r = rgba[idx] as u32;
            let g = rgba[idx + 1] as u32;
            let b = rgba[idx + 2] as u32;
            let a = rgba[idx + 3];
            let px = x_offset + dx as i32;
            let py = 12i32 + dy as i32;
            let ghost before = canvas.pixels@;
            if a >= 10 {
                assert((r << 16) | (g << 8) | b == r * 0x1_0000 + g * 0x100 + b) by (bit_vector)
                    requires
                        r < 256,
                        g < 256,
                        b < 256,
                ;
                let color = (r << 16) | (g << 8) | b;
                if a > 240 {
                    canvas.set_pixel(px, py, color);
                } else {
                    canvas.blend_pixel(px, py, color, a);
                }
            }
            proof {
                assert forall|k: int| 0 <= k < n implies #[trigger] canvas.pixels@[k] == if (k / (width as int)) < 12 + dy || ((k / (width as int)) == 12 + dy && (k % (width as int)) < x_offset + dx + 1) {
                    target[k]
                } else {
                    old_px[k]
                } by {
                    lemma_grid_cover(width as int, height as int, k);
                    let kx = k % (width as int);
                    let ky = k / (width as int);
                    if kx == px && ky == py {
                        assert(before[k] == old_px[k]);
                    } else {
                        assert(canvas.pixels@[k] == before[k]);
                    }
                }
            }
            dx += 1;
        }
        proof {
            assert forall|k: int| 0 <= k < n implies #[trigger] canvas.pixels@[k] == if (k / (width as int)) < 12 + dy + 1 { target[k] } else { old_px[k] } by {
                lemma_grid_cover(width as int, height as int, k);
            }
        }
        dy += 1;
    }
    proof {
        assert forall|k: int| 0 <= k < n implies canvas.pixels@[k] == target[k] by {
            lemma_grid_cover(width as int, height as int, k);
        }
        assert(canvas.pixels@ =~= target);
    }
}

// ─── Title bar ───────────────────────────────────────────────────────

/// The left edge of the brand plate in the title bar.
pub const BRAND_LEFT: i32 = 16;
/// The top of the brand plate.
pub const BRAND_TOP: i32 = 8;
/// The height of the brand plate.
pub const BRAND_HEIGHT: u32 = 24;
/// The size the window title is written at.
pub const TITLE_FONT_SIZE: u32 = 14;

/// Where the window title is written, and in which colour.
#[derive(Clone, Copy, Debug, PartialEq, Eq, Structural)]
pub struct TitleText {
    pub x: i32,
    pub y: i32,
    pub color: u32,
}

/// The title bar drawn: its background and bottom rule, the brand plate
/// `bw` wide with its divider, the minimize, maximize and close buttons
/// (brighter in the active window), then the window icon in the plate.
pub open spec fn titlebar_of(
    s: Seq<u32>,
    w: int,
    width: u32,
    bw: u32,
    hovered: Option<TitleBarAction>,
    active: bool,
    rgba: Seq<u8>,
    icon_w: u32,
    icon_h: u32,
    p: crate::theme::Palette,
) -> Seq<u32> {
    let s1 = paint(s, w, rect_region(0, 0, width as int, TITLEBAR_HEIGHT as int), p.bg_titlebar);
    let s2 = paint(s1, w, rect_region(0, TITLEBAR_HEIGHT - 1, width as int, 1), p.border_strong);
    let s3 = paint(s2, w, rounded_region(BRAND_LEFT as int, BRAND_TOP as int, bw as int, BRAND_HEIGHT as int,
        effective_radius(8, bw, BRAND_HEIGHT)), p.border_strong);
    let inner_w = sat_sub(bw as int, 2);
    let s4 = paint(s3, w, rounded_region(BRAND_LEFT + 1, BRAND_TOP + 1, inner_w, BRAND_HEIGHT - 2,
        effective_radius(7, inner_w as u32, (BRAND_HEIGHT - 2) as u32)), p.surface_base);
    let s5 = paint(s4, w, rect_region(BRAND_LEFT + 35, BRAND_TOP + 4, 1, BRAND_HEIGHT - 8), p.border_strong);
    let b = button_layout_of(width as int);
    let active_c = if active { p.text_primary } else { p.text_secondary };
    let dim_c = if active { p.text_secondary } else { p.text_dim };
    let s6 = control_button_of(s5, w, b[1], hovered == Some(b[1].action), ControlGlyph::Minimize, active_c, dim_c, p);
    let s7 = control_button_of(s6, w, b[2], hovered == Some(b[2].action), ControlGlyph::Maximize, active_c, dim_c, p);
    let s8 = control_button_of(s7, w, b[0], hovered == Some(b[0].action), ControlGlyph::Close, active_c, dim_c, p);
    if rgba.len() < icon_w * icon_h * 4 {
        s8
    } else {
        icon_paint(s8, w, rgba, icon_w as int, icon_h as int, BRAND_LEFT + 10)
    }
}

/// Draws the title bar of a window `width` wide whose title is
/// `title_width` pixels wide, and says where the title goes.
pub fn draw_titlebar(
    canvas: &mut Canvas,
    width: u32,
    title_width: u32,
    hovered: Option<TitleBarAction>,
    active: bool,
    rgba: &[u8],
    icon_w: u32,
    icon_h: u32,
    p: &crate::theme::Palette,
) -> (t: TitleText)
    requires
        old(canvas).wf(),
        width <= 0x1000_0000,
        icon_w > 0,
        icon_h > 0,
        icon_w * icon_h * 4 <= u32::MAX,
        15 * icon_w <= u32::MAX,
        15 * icon_h <= u32::MAX,
    ensures
        final(canvas).wf(),
        final(canvas).width == old(canvas).width,
        final(canvas).height == old(canvas).height,
        final(canvas).pixels@ == titlebar_of(old(canvas).pixels@, old(canvas).width as int, width,
            brand_width_of(title_width as int, width as int) as u32, hovered, active, rgba@, icon_w, icon_h, *p),
        t.x == BRAND_LEFT + 46,
        t.y == 12,
        t.color == (if active { p.text_primary } else { p.text_secondary }),
{
    canvas.draw_rect(0, 0, width, TITLEBAR_HEIGHT, p.bg_titlebar);
    canvas.draw_rect(0, TITLEBAR_HEIGHT as i32 - 1, width, 1, p.border_strong);
    let buttons = button_layout(width);
    let bw = brand_width(title_width, width);
    canvas.draw_rounded_rect(BRAND_LEFT, BRAND_TOP, bw, BRAND_HEIGHT, 8, p.border_strong);
    canvas.draw_rounded_rect(BRAND_LEFT + 1, BRAND_TOP + 1, bw.saturating_sub(2), BRAND_HEIGHT - 2, 7, p.surface_base);
    canvas.draw_rect(BRAND_LEFT + 35, BRAND_TOP + 4, 1, BRAND_HEIGHT - 8, p.border_strong);
    let active_c = if active { p.text_primary } else { p.text_secondary };
    let dim_c = if active { p.text_secondary } else { p.text_dim };
    draw_control_button(canvas, buttons[1], hovered, ControlGlyph::Minimize, active_c, dim_c, p);
    draw_control_button(canvas, buttons[2], hovered, ControlGlyph::Maximize, active_c, dim_c, p);
    draw_control_button(canvas, buttons[0], hovered, ControlGlyph::Close, active_c, dim_c, p);
    draw_icon(canvas, rgba, icon_w, icon_h, BRAND_LEFT + 10);
    TitleText { x: BRAND_LEFT + 46, y: 12, color: active_c }
}

} // verus!
