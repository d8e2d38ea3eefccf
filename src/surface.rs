//! The frame buffer: a flat row-major array of `0xAARRGGBB` pixels and the
//! primitives that draw into it.

use vstd::prelude::*;
use crate::color::{
    alpha_of, argb_from_rgba, blend, blend_channel, blend_pixel, blue_of, compose, compose_pixel, green_of,
    lemma_blend_pixel_channels, red_of,
};

verus! {

/// One pixel of a rasterised glyph: its position on the surface and how
/// much of it the glyph covers (0 none, 255 all).
#[derive(Clone, Copy, Debug, PartialEq, Eq)]
pub struct CoverageSample {
    pub x: i64,
    pub y: i64,
    pub coverage: u8,
}

/// A pixel buffer of `width * height` pixels, row after row.
pub struct PixelSurface {
    pub width: u16,
    pub height: u16,
    pub buffer: Vec<u32>,
}

/// Whether the rectangle at `(x, y)` of extent `w` by `h` covers `(px, py)`.
pub open spec fn covers(x: int, y: int, w: int, h: int, px: int, py: int) -> bool {
    x <= px < x + w && y <= py < y + h
}

/// Row-major position of `(px, py)` in a buffer `width` pixels wide.
pub open spec fn index_of(width: int, px: int, py: int) -> int {
    py * width + px
}

/// The pixel at `(px, py)` of a row-major buffer.
pub open spec fn pixel_at(buf: Seq<u32>, width: int, px: int, py: int) -> u32 {
    buf[index_of(width, px, py)]
}

/// Distinct in-bounds coordinates have distinct positions, inside the buffer.
proof fn lemma_index(width: int, height: int, px: int, py: int)
    requires
        0 <= px < width,
        0 <= py < height,
    ensures
        0 <= index_of(width, px, py) < width * height,
        forall|qx: int, qy: int|
            0 <= qx < width && 0 <= qy && (qx != px || qy != py) ==> #[trigger] index_of(width, qx, qy)
                != index_of(width, px, py),
{
    assert(0 <= py * width + px < width * height) by (nonlinear_arith)
        requires 0 <= px < width, 0 <= py < height;
    assert forall|qx: int, qy: int|
        0 <= qx < width && 0 <= qy && (qx != px || qy != py) implies #[trigger] index_of(width, qx, qy)
            != index_of(width, px, py) by {
        if qy < py {
            assert(qy * width + qx < py * width + px) by (nonlinear_arith)
                requires 0 <= qx < width, 0 <= px, qy < py, qy >= 0;
        } else if qy > py {
            assert(qy * width + qx > py * width + px) by (nonlinear_arith)
                requires 0 <= px < width, 0 <= qx, qy > py, py >= 0;
        }
    }
}

/// A `u16` by `u16` area fits in 32 bits, hence in `usize`.
proof fn lemma_area_fits(width: u16, height: u16)
    ensures
        width as int * height as int <= 0xFFFF_FFFF,
{
    assert(width as int * height as int <= 65535 * 65535) by (nonlinear_arith)
        requires width <= 65535, height <= 65535;
}

/// The surface's pixels after one glyph sample is blended in: a sample off
/// the surface changes nothing.
pub open spec fn plot_sample(buf: Seq<u32>, width: int, height: int, s: CoverageSample, color: u32) -> Seq<u32> {
    if 0 <= s.x < width && 0 <= s.y < height {
        buf.update(
            index_of(width, s.x as int, s.y as int),
            blend_pixel(color, buf[index_of(width, s.x as int, s.y as int)], s.coverage as u32),
        )
    } else {
        buf
    }
}

/// The surface's pixels after the samples are blended in, in order.
pub open spec fn plot_samples(buf: Seq<u32>, width: int, height: int, samples: Seq<CoverageSample>, color: u32) -> Seq<u32>
    decreases samples.len(),
{
    if samples.len() == 0 {
        buf
    } else {
        plot_sample(plot_samples(buf, width, height, samples.drop_last(), color), width, height, samples.last(), color)
    }
}

impl PixelSurface {
    /// The buffer holds exactly one pixel per coordinate.
    pub open spec fn wf(&self) -> bool {
        self.buffer@.len() == self.width as int * self.height as int
    }

    /// The pixel at `(px, py)`.
    pub open spec fn at(&self, px: int, py: int) -> u32 {
        pixel_at(self.buffer@, self.width as int, px, py)
    }

    /// Whether `(px, py)` lies on the surface.
    pub open spec fn in_bounds(&self, px: int, py: int) -> bool {
        0 <= px < self.width && 0 <= py < self.height
    }

    /// A surface of the given size with every pixel set to `color`.
    pub fn new(width: u16, height: u16, color: u32) -> (s: Self)
        ensures
            s.wf(),
            s.width == width,
            s.height == height,
            forall|i: int| 0 <= i < s.buffer@.len() ==> s.buffer@[i] == color,
    {
        proof {
            lemma_area_fits(width, height);
        }
        let n: usize = width as usize * height as usize;
        let mut buffer: Vec<u32> = Vec::with_capacity(n);
        let mut i: usize = 0;
        while i < n
            invariant
                i <= n,
                n == width as int * height as int,
                buffer@.len() == i,
                forall|k: int| 0 <= k < i ==> buffer@[k] == color,
            decreases n - i,
        {
            buffer.push(color);
            i += 1;
        }
        PixelSurface { width, height, buffer }
    }

    /// Sets every pixel to `color`.
    pub fn fill(&mut self, color: u32)
        requires
            old(self).wf(),
        ensures
            final(self).wf(),
            final(self).width == old(self).width,
            final(self).height == old(self).height,
            forall|i: int| 0 <= i < final(self).buffer@.len() ==> final(self).buffer@[i] == color,
    {
        let n = self.buffer.len();
        let mut i: usize = 0;
        while i < n
            invariant
                i <= n,
                n == self.buffer@.len(),
                self.width == old(self).width,
                self.height == old(self).height,
                self.wf(),
                forall|k: int| 0 <= k < i ==> self.buffer@[k] == color,
            decreases n - i,
        {
            self.buffer.set(i, color);
            i += 1;
        }
    }

    /// Copies a background, given as `(red, green, blue, alpha)` samples in
    /// row-major order, into the surface pixel for pixel. Samples past the
    /// end of the buffer are ignored; pixels past the end of the samples are
    /// left as they were.
    pub fn copy_background(&mut self, rgba: &Vec<(u8, u8, u8, u8)>)
        requires
            old(self).wf(),
        ensures
            final(self).wf(),
            final(self).width == old(self).width,
            final(self).height == old(self).height,
            forall|i: int| 0 <= i < final(self).buffer@.len() ==> {
                let c = #[trigger] final(self).buffer@[i];
                if i < rgba@.len() {
                    alpha_of(c) == rgba@[i].3 && red_of(c) == rgba@[i].0 && green_of(c) == rgba@[i].1
                        && blue_of(c) == rgba@[i].2
                } else {
                    c == old(self).buffer@[i]
                }
            },
    {
        let n = self.buffer.len();
        let m = rgba.len();
        let mut i: usize = 0;
        while i < n && i < m
            invariant
                i <= n,
                i <= m,
                n == self.buffer@.len(),
                n == old(self).buffer@.len(),
                m == rgba@.len(),
                self.width == old(self).width,
                self.height == old(self).height,
                self.wf(),
                forall|k: int| 0 <= k < self.buffer@.len() ==> {
                    let c = #[trigger] self.buffer@[k];
                    if k < i {
                        alpha_of(c) == rgba@[k].3 && red_of(c) == rgba@[k].0 && green_of(c) == rgba@[k].1
                            && blue_of(c) == rgba@[k].2
                    } else {
                        c == old(self).buffer@[k]
                    }
                },
            decreases n - i,
        {
            let (r, g, b, a) = rgba[i];
            let c = argb_from_rgba(r, g, b, a);
            self.buffer.set(i, c);
            i += 1;
        }
    }

    /// Fills the rectangle at `(x, y)` of extent `w` by `h` with `color`,
    /// clipped to the surface: an opaque colour overwrites each covered
    /// pixel, any other is blended in channel by channel with its own alpha.
    pub fn draw_rect(&mut self, x: i64, y: i64, w: u32, h: u32, color: u32)
        requires
            old(self).wf(),
        ensures
            final(self).wf(),
            final(self).width == old(self).width,
            final(self).height == old(self).height,
            forall|px: int, py: int|
                old(self).in_bounds(px, py) ==> #[trigger] final(self).at(px, py) == if covers(
                    x as int,
                    y as int,
                    w as int,
                    h as int,
                    px,
                    py,
                ) {
                    compose(color, old(self).at(px, py))
                } else {
                    old(self).at(px, py)
                },
            alpha_of(color) == 255 ==> forall|px: int, py: int|
                old(self).in_bounds(px, py) && covers(x as int, y as int, w as int, h as int, px, py)
                    ==> #[trigger] final(self).at(px, py) == color,
            alpha_of(color) < 255 ==> forall|px: int, py: int|
                old(self).in_bounds(px, py) && covers(x as int, y as int, w as int, h as int, px, py) ==> {
                    let out = #[trigger] final(self).at(px, py);
                    let dst = old(self).at(px, py);
                    let a = alpha_of(color) as int;
                    &&& alpha_of(out) == 255
                    &&& red_of(out) == blend_channel(red_of(color) as int, red_of(dst) as int, a)
                    &&& green_of(out) == blend_channel(green_of(color) as int, green_of(dst) as int, a)
                    &&& blue_of(out) == blend_channel(blue_of(color) as int, blue_of(dst) as int, a)
                },
    {
        let wd = self.width as i64;
        let ht = self.height as i64;
        let x0: i64 = if x < 0 { 0 } else { x };
        let x1: i64 = if x >= wd { wd } else if x + w as i64 > wd { wd } else { x + w as i64 };
        let y0: i64 = if y < 0 { 0 } else { y };
        let y1: i64 = if y >= ht { ht } else if y + h as i64 > ht { ht } else { y + h as i64 };
        let ghost before = *self;
        let mut py = y0;
        while py < y1
            invariant
                before == *old(self),
                before.wf(),
                self.wf(),
                self.width == before.width,
                self.height == before.height,
                wd == self.width,
                ht == self.height,
                0 <= x0,
                x1 <= wd,
                x0 == (if x < 0 { 0 } else { x as int }),
                x1 == (if x >= wd { wd as int } else if x + w > wd { wd as int } else { x + w }),
                0 <= y0,
                y1 <= ht,
                y0 == (if y < 0 { 0 } else { y as int }),
                y1 == (if y >= ht { ht as int } else if y + h > ht { ht as int } else { y + h }),
                y0 <= py,
                y0 <= y1 ==> py <= y1,
                forall|qx: int, qy: int|
                    before.in_bounds(qx, qy) ==> #[trigger] self.at(qx, qy) == if covers(
                        x as int,
                        y as int,
                        w as int,
                        h as int,
                        qx,
                        qy,
                    ) && qy < py {
                        compose(color, before.at(qx, qy))
                    } else {
                        before.at(qx, qy)
                    },
            decreases y1 - py,
        {
            let mut px = x0;
            while px < x1
                invariant
                    before == *old(self),
                    before.wf(),
                    self.wf(),
                    self.width == before.width,
                    self.height == before.height,
                    wd == self.width,
                    ht == self.height,
                    0 <= x0,
                    x1 <= wd,
                    x0 == (if x < 0 { 0 } else { x as int }),
                    x1 == (if x >= wd { wd as int } else if x + w > wd { wd as int } else { x + w }),
                    0 <= y0 <= py < y1 <= ht,
                    y0 == (if y < 0 { 0 } else { y as int }),
                    y1 == (if y >= ht { ht as int } else if y + h > ht { ht as int } else { y + h }),
                    x0 <= px,
                    x0 <= x1 ==> px <= x1,
                    forall|qx: int, qy: int|
                        before.in_bounds(qx, qy) ==> #[trigger] self.at(qx, qy) == if covers(
                            x as int,
                            y as int,
                            w as int,
                            h as int,
                            qx,
                            qy,
                        ) && (qy < py || (qy == py && qx < px)) {
                            compose(color, before.at(qx, qy))
                        } else {
                            before.at(qx, qy)
                        },
                decreases x1 - px,
            {
                proof {
                    lemma_index(wd as int, ht as int, px as int, py as int);
                    lemma_area_fits(self.width, self.height);
                    assert(py * wd + px < wd * ht);
                }
                let idx = py as usize * self.width as usize + px as usize;
                assert(self.at(px as int, py as int) == before.at(px as int, py as int));
                assert(covers(x as int, y as int, w as int, h as int, px as int, py as int));
                assert(idx as int == index_of(wd as int, px as int, py as int));
                let ghost prev = self.buffer@;
                let ghost prev_self = *self;
                let v = compose_pixel(color, self.buffer[idx]);
                self.buffer.set(idx, v);
                proof {
                    assert forall|qx: int, qy: int| before.in_bounds(qx, qy) implies #[trigger] self.at(qx, qy)
                        == if covers(x as int, y as int, w as int, h as int, qx, qy) && (qy < py || (qy
                        == py && qx < px + 1)) {
                        compose(color, before.at(qx, qy))
                    } else {
                        before.at(qx, qy)
                    } by {
                        lemma_index(wd as int, ht as int, qx, qy);
                        if qx != px || qy != py {
                            assert(index_of(wd as int, qx, qy) != index_of(wd as int, px as int, py as int));
                            assert(self.at(qx, qy) == pixel_at(prev, wd as int, qx, qy));
                            assert(self.at(qx, qy) == prev_self.at(qx, qy));
                        } else {
                            assert(self.at(qx, qy) == v);
                        }
                    }
                }
                px += 1;
            }
            py += 1;
        }
        proof {
            if alpha_of(color) < 255 {
                assert forall|px: int, py: int|
                    before.in_bounds(px, py) && covers(x as int, y as int, w as int, h as int, px, py) implies {
                    let out = #[trigger] self.at(px, py);
                    let dst = before.at(px, py);
                    let a = alpha_of(color) as int;
                    &&& alpha_of(out) == 255
                    &&& red_of(out) == blend_channel(red_of(color) as int, red_of(dst) as int, a)
                    &&& green_of(out) == blend_channel(green_of(color) as int, green_of(dst) as int, a)
                    &&& blue_of(out) == blend_channel(blue_of(color) as int, blue_of(dst) as int, a)
                } by {
                    lemma_blend_pixel_channels(color, before.at(px, py), alpha_of(color));
                }
            }
        }
    }

    /// Blends a rasterised glyph into the surface: each sample, in order,
    /// lays `color` over its pixel with the sample's coverage as the weight.
    /// Samples off the surface are skipped.
    pub fn draw_coverage(&mut self, samples: &Vec<CoverageSample>, color: u32)
        requires
            old(self).wf(),
        ensures
            final(self).wf(),
            final(self).width == old(self).width,
            final(self).height == old(self).height,
            final(self).buffer@ == plot_samples(
                old(self).buffer@,
                old(self).width as int,
                old(self).height as int,
                samples@,
                color,
            ),
    {
        let wd = self.width as i64;
        let ht = self.height as i64;
        let n = samples.len();
        let mut i: usize = 0;
        while i < n
            invariant
                i <= n,
                n == samples@.len(),
                self.wf(),
                self.width == old(self).width,
                self.height == old(self).height,
                wd == self.width,
                ht == self.height,
                self.buffer@ == plot_samples(
                    old(self).buffer@,
                    wd as int,
                    ht as int,
                    samples@.subrange(0, i as int),
                    color,
                ),
            decreases n - i,
        {
            let smp = samples[i];
            proof {
                let prefix = samples@.subrange(0, i as int + 1);
                assert(prefix.drop_last() =~= samples@.subrange(0, i as int));
                assert(prefix.last() == smp);
            }
            if 0 <= smp.x && smp.x < wd && 0 <= smp.y && smp.y < ht {
                proof {
                    lemma_index(wd as int, ht as int, smp.x as int, smp.y as int);
                    lemma_area_fits(self.width, self.height);
                    assert(smp.y * wd + smp.x < wd * ht);
                }
                let idx = smp.y as usize * self.width as usize + smp.x as usize;
                assert(idx as int == index_of(wd as int, smp.x as int, smp.y as int));
                let v = blend(color, self.buffer[idx], smp.coverage as u32);
                self.buffer.set(idx, v);
            }
            i += 1;
        }
        assert(samples@.subrange(0, n as int) =~= samples@);
    }

    /// Splits the rows of the surface into consecutive transfer chunks,
    /// top to bottom, each of `rows_per_chunk` rows but the last, which
    /// takes what is left. Every row is in exactly one chunk.
    pub fn chunk_plan(&self) -> (r: Vec<Chunk>)
        requires
            self.wf(),
            self.width > 0,
        ensures
            r@.len() == 0 <==> self.height == 0,
            r@.len() > 0 ==> r@[0].y == 0,
            r@.len() > 0 ==> r@.last().y + r@.last().rows == self.height,
            forall|i: int|
                0 <= i < r@.len() ==> #[trigger] r@[i].rows as int == min(
                    rows_per_chunk(self.width as int),
                    self.height - r@[i].y,
                ),
            forall|i: int| 0 < i < r@.len() ==> #[trigger] r@[i].y == r@[i - 1].y + r@[i - 1].rows,
            forall|i: int|
                0 <= i < r@.len() ==> (#[trigger] r@[i]).rows == 1 || 4 * self.width * r@[i].rows
                    <= TRANSFER_LIMIT,
            forall|i: int| 0 <= i < r@.len() ==> (#[trigger] r@[i]).rows >= 1,
    {
        proof {
            lemma_chunk_fits(self.width as int);
        }
        let rpc = chunk_rows(self.width);
        let mut out: Vec<Chunk> = Vec::new();
        let mut y: u16 = 0;
        while y < self.height
            invariant
                rpc as int == rows_per_chunk(self.width as int),
                1 <= rpc,
                self.width > 0,
                y <= self.height,
                out@.len() == 0 <==> y == 0,
                out@.len() > 0 ==> out@[0].y == 0,
                out@.len() > 0 ==> out@.last().y + out@.last().rows == y,
                forall|i: int|
                    0 <= i < out@.len() ==> #[trigger] out@[i].rows as int == min(
                        rows_per_chunk(self.width as int),
                        self.height - out@[i].y,
                    ),
                forall|i: int| 0 < i < out@.len() ==> #[trigger] out@[i].y == out@[i - 1].y + out@[i - 1].rows,
                forall|i: int|
                    0 <= i < out@.len() ==> (#[trigger] out@[i]).rows == 1 || 4 * self.width * out@[i].rows
                        <= TRANSFER_LIMIT,
                forall|i: int| 0 <= i < out@.len() ==> (#[trigger] out@[i]).rows >= 1,
            decreases self.height - y,
        {
            let remaining = self.height - y;
            let rows = if remaining < rpc { remaining } else { rpc };
            proof {
                lemma_chunk_fits(self.width as int);
                assert(4 * self.width * rows <= 4 * self.width * rows_per_chunk(self.width as int));
            }
            out.push(Chunk { y, rows });
            y = y + rows;
        }
        out
    }

    /// The pixels of `rows` rows from row `y` on, four bytes each, lowest
    /// byte first (blue, green, red, alpha), ready to send.
    pub fn chunk_bytes(&self, c: Chunk) -> (r: Vec<u8>)
        requires
            self.wf(),
            c.y + c.rows <= self.height,
        ensures
            r@.len() == 4 * (c.rows as int * self.width as int),
            forall|i: int|
                0 <= i < r@.len() ==> #[trigger] r@[i] == packed_byte(
                    self.buffer@,
                    c.y as int * self.width as int,
                    i,
                ),
    {
        proof {
            lemma_area_fits(self.width, self.height);
            let (cy, cr, w, h) = (c.y as int, c.rows as int, self.width as int, self.height as int);
            assert(cy * w + cr * w <= h * w && cy * w >= 0 && cr * w >= 0) by (nonlinear_arith)
                requires cy + cr <= h, cy >= 0, cr >= 0, w >= 0;
        }
        let start: usize = c.y as usize * self.width as usize;
        let n: usize = c.rows as usize * self.width as usize;
        let len = self.buffer.len();
        let mut out: Vec<u8> = Vec::new();
        let mut k: usize = 0;
        while k < n
            invariant
                k <= n,
                len == self.buffer@.len(),
                start + n <= self.buffer@.len(),
                start == c.y as int * self.width as int,
                n == c.rows as int * self.width as int,
                out@.len() == 4 * k,
                forall|i: int| 0 <= i < out@.len() ==> #[trigger] out@[i] == packed_byte(self.buffer@, start as int, i),
            decreases n - k,
        {
            let p = self.buffer[start + k];
            proof {
                assert((p & 0xFF) <= 255 && ((p >> 8) & 0xFF) <= 255 && ((p >> 16) & 0xFF) <= 255 && ((p
                    >> 24) & 0xFF) <= 255) by (bit_vector);
            }
            out.push((p & 0xFF) as u8);
            out.push(((p >> 8) & 0xFF) as u8);
            out.push(((p >> 16) & 0xFF) as u8);
            out.push(((p >> 24) & 0xFF) as u8);
            proof {
                assert(p & 0xFF == (p >> 0u32) & 0xFF) by (bit_vector);
                assert forall|i: int| 0 <= i < out@.len() implies #[trigger] out@[i] == packed_byte(
                    self.buffer@,
                    start as int,
                    i,
                ) by {
                    if i >= 4 * k {
                        assert(i / 4 == k);
                    }
                }
            }
            k += 1;
        }
        out
    }
}

/// A band of whole rows sent to the display in one transfer.
#[derive(Clone, Copy, Debug, PartialEq, Eq)]
pub struct Chunk {
    pub y: u16,
    pub rows: u16,
}

/// Most bytes a single transfer may carry.
pub const TRANSFER_LIMIT: u32 = 65536;

/// Rows per transfer for a surface `width` pixels wide: as many whole rows
/// as fit under the limit, and at least one.
pub open spec fn rows_per_chunk(width: int) -> int {
    if TRANSFER_LIMIT as int / (4 * width) >= 1 {
        TRANSFER_LIMIT as int / (4 * width)
    } else {
        1
    }
}

/// A chunk of more than one row stays under the transfer limit.
proof fn lemma_chunk_fits(width: int)
    requires
        width > 0,
    ensures
        rows_per_chunk(width) == 1 || 4 * width * rows_per_chunk(width) <= TRANSFER_LIMIT,
        forall|k: int| 0 <= k <= rows_per_chunk(width) ==> #[trigger] (4 * width * k) <= 4 * width * rows_per_chunk(width),
{
    let d = 4 * width;
    let q = TRANSFER_LIMIT as int / d;
    assert(q * d <= 65536int) by (nonlinear_arith) requires d > 0, q == 65536int / d;
    assert(4 * width * q == q * d) by (nonlinear_arith) requires d == 4 * width;
    assert forall|k: int| 0 <= k <= rows_per_chunk(width) implies #[trigger] (4 * width * k) <= 4 * width
        * rows_per_chunk(width) by {
        let r = rows_per_chunk(width);
        assert(4 * width * k <= 4 * width * r) by (nonlinear_arith) requires 0 <= k <= r, width > 0;
    }
}

pub open spec fn min(a: int, b: int) -> int {
    if a <= b { a } else { b }
}

/// Byte `i` of the transfer that starts at pixel `start` of `buf`.
pub open spec fn packed_byte(buf: Seq<u32>, start: int, i: int) -> u8 {
    ((buf[start + i / 4] >> (8 * (i % 4)) as u32) & 0xFF) as u8
}

/// Rows per transfer for a surface `width` pixels wide.
pub fn chunk_rows(width: u16) -> (r: u16)
    requires
        width > 0,
    ensures
        r as int == rows_per_chunk(width as int),
        r >= 1,
{
    let stride: u32 = 4 * width as u32;
    let rows = TRANSFER_LIMIT / stride;
    if rows >= 1 {
        assert(rows <= 16384) by (nonlinear_arith) requires rows == 65536u32 / stride, stride >= 4;
        rows as u16
    } else {
        1
    }
}

/// The rightmost of the glyph boxes' right edges (0 when there is none).
pub open spec fn rightmost(edges: Seq<i64>) -> int
    decreases edges.len(),
{
    if edges.len() == 0 {
        0
    } else if edges.len() == 1 {
        edges[0] as int
    } else if rightmost(edges.drop_last()) >= edges.last() {
        rightmost(edges.drop_last())
    } else {
        edges.last() as int
    }
}

/// Width of a drawn text: from its starting `x` to the rightmost right
/// edge of its glyph boxes; 0 when no glyph has a box or none reaches right
/// of `x`.
pub fn text_extent(edges: &Vec<i64>, x: i64) -> (r: u64)
    ensures
        r == (if edges@.len() > 0 && rightmost(edges@) > x { rightmost(edges@) - x } else { 0 }),
{
    let n = edges.len();
    if n == 0 {
        return 0;
    }
    let mut right: i64 = edges[0];
    proof {
        assert(edges@.subrange(0, 1).len() == 1);
    }
    let mut i: usize = 1;
    while i < n
        invariant
            1 <= i <= n,
            n == edges@.len(),
            right == rightmost(edges@.subrange(0, i as int)),
        decreases n - i,
    {
        proof {
            let prefix = edges@.subrange(0, i as int + 1);
            assert(prefix.drop_last() =~= edges@.subrange(0, i as int));
            assert(prefix.last() == edges@[i as int]);
        }
        if edges[i] > right {
            right = edges[i];
        }
        i += 1;
    }
    assert(edges@.subrange(0, n as int) =~= edges@);
    if right > x {
        (right as i128 - x as i128) as u64
    } else {
        0
    }
}

} // verus!
