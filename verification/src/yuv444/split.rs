//! Reference (obviously-correct, not fast) encoder side: splits a full 4:4:4
//! picture into the main and auxiliary 4:2:0 streams a real encoder would
//! produce.
use vstd::prelude::*;

use super::{get_pixel, ChromaLayout, Picture, Yuv444Planes};
use crate::decode::Yuv420View;

verus! {

/// An owned planar 4:2:0 picture, mirroring [`Yuv420View`].
pub struct OwnedYuv420 {
    pub width: u32,
    pub height: u32,
    pub y: Vec<u8>,
    pub u: Vec<u8>,
    pub v: Vec<u8>,
}

impl OwnedYuv420 {
    /// A view of the picture, its rows packed without padding.
    pub open spec fn packed_view_is(self, view: Yuv420View) -> bool {
        &&& view.width == self.width
        &&& view.height == self.height
        &&& view.y@ == self.y@
        &&& view.y_stride == self.width
        &&& view.u@ == self.u@
        &&& view.v@ == self.v@
        &&& view.chroma_stride == crate::decode::half_up(self.width as int)
    }

    pub fn view(&self) -> (view: Yuv420View<'_>)
        ensures
            self.packed_view_is(view),
    {
        let width: usize = self.width as usize;
        let chroma_width: usize = (self.width / 2 + self.width % 2) as usize;
        Yuv420View {
            width: self.width,
            height: self.height,
            y: self.y.as_slice(),
            y_stride: width,
            u: self.u.as_slice(),
            v: self.v.as_slice(),
            chroma_stride: chroma_width,
        }
    }
}

/// The row-major plane of `width * height` samples whose sample in column `x` of
/// row `y` is `at(x, y)`.
pub open spec fn raster(width: int, height: int, at: spec_fn(int, int) -> u8) -> Seq<u8> {
    Seq::new((width * height) as nat, |i: int| at(i % width, i / width))
}

/// The height of an AVC444 auxiliary view: whole macroblock rows, at least one.
pub open spec fn macroblock_height(height: int) -> int {
    if height == 0 {
        16
    } else {
        (height + 15) / 16 * 16
    }
}

impl Picture {
    /// The sample of `plane` at `(x, y)`, or the nearest one in the last column
    /// or row where the position lies past it.
    pub open spec fn nearest_sample(self, plane: Seq<u8>, x: int, y: int) -> u8 {
        self.sample(
            plane,
            super::least(x, self.width - 1),
            super::least(y, self.height - 1),
        )
    }

    /// The rounded average of the 2x2 block of `plane` at chroma position
    /// `(cx, cy)`.
    pub open spec fn filtered(self, plane: Seq<u8>, cx: int, cy: int) -> u8 {
        super::color::block_average(
            self.nearest_sample(plane, 2 * cx, 2 * cy),
            self.nearest_sample(plane, 2 * cx + 1, 2 * cy),
            self.nearest_sample(plane, 2 * cx, 2 * cy + 1),
            self.nearest_sample(plane, 2 * cx + 1, 2 * cy + 1),
        )
    }

    /// Luma of the AVC444 auxiliary view at `(x, row)`: in each macroblock row
    /// the odd `U` rows of the picture stand above its odd `V` rows.
    pub open spec fn v1_luma(self, x: int, row: int) -> u8 {
        let slot = row % 16;
        let main_row = row - slot + 2 * (slot % 8) + 1;
        if main_row >= self.height {
            0
        } else if slot < 8 {
            self.sample(self.u, x, main_row)
        } else {
            self.sample(self.v, x, main_row)
        }
    }

    /// Chroma of the AVC444 auxiliary view at `(gx, gy)`: odd columns of the even
    /// rows of `plane`.
    pub open spec fn v1_chroma(self, plane: Seq<u8>, gx: int, gy: int) -> u8 {
        if 2 * gy < self.height && 2 * gx + 1 < self.width {
            self.sample(plane, 2 * gx + 1, 2 * gy)
        } else {
            128
        }
    }

    /// Luma of the AVC444v2 auxiliary view at `(x, row)`: the odd columns of `U`,
    /// then those of `V`.
    pub open spec fn v2_luma(self, x: int, row: int) -> u8 {
        let half = self.width as int / 2;
        if x < half {
            self.sample(self.u, 2 * x + 1, row)
        } else if x < 2 * half {
            self.sample(self.v, 2 * (x - half) + 1, row)
        } else {
            0
        }
    }

    /// Chroma of the AVC444v2 auxiliary view at `(gx, gy)`, on odd rows every
    /// fourth column from `shift` on: those of `U`, then those of `V`.
    pub open spec fn v2_chroma(self, shift: int, gx: int, gy: int) -> u8 {
        let quarter = self.width as int / 4;
        if gy >= self.height as int / 2 {
            128
        } else if gx < quarter {
            self.sample(self.u, 4 * gx + shift, 2 * gy + 1)
        } else if gx < 2 * quarter {
            self.sample(self.v, 4 * (gx - quarter) + shift, 2 * gy + 1)
        } else {
            128
        }
    }

    /// `view` is the main view of the picture.
    pub open spec fn main_view_is(self, view: OwnedYuv420) -> bool {
        let cw = crate::decode::half_up(self.width as int);
        let ch = crate::decode::half_up(self.height as int);
        &&& view.width == u32_or_zero(self.width as int)
        &&& view.height == u32_or_zero(self.height as int)
        &&& view.y@ == self.y
        &&& view.u@ == raster(cw, ch, |cx: int, cy: int| self.filtered(self.u, cx, cy))
        &&& view.v@ == raster(cw, ch, |cx: int, cy: int| self.filtered(self.v, cx, cy))
    }

    /// `view` is the AVC444 auxiliary view of the picture.
    pub open spec fn v1_view_is(self, view: OwnedYuv420) -> bool {
        let w = self.width as int;
        let h = macroblock_height(self.height as int);
        let cw = crate::decode::half_up(w);
        &&& view.width == u32_or_zero(w)
        &&& view.height == u32_or_zero(h)
        &&& view.y@ == raster(w, h, |x: int, row: int| self.v1_luma(x, row))
        &&& view.u@ == raster(cw, h / 2, |gx: int, gy: int| self.v1_chroma(self.u, gx, gy))
        &&& view.v@ == raster(cw, h / 2, |gx: int, gy: int| self.v1_chroma(self.v, gx, gy))
    }

    /// `view` is the AVC444v2 auxiliary view of the picture.
    pub open spec fn v2_view_is(self, view: OwnedYuv420) -> bool {
        let w = self.width as int;
        let h = self.height as int;
        let cw = crate::decode::half_up(w);
        let ch = crate::decode::half_up(h);
        &&& view.width == u32_or_zero(w)
        &&& view.height == u32_or_zero(h)
        &&& view.y@ == raster(w, h, |x: int, row: int| self.v2_luma(x, row))
        &&& view.u@ == raster(cw, ch, |gx: int, gy: int| self.v2_chroma(0, gx, gy))
        &&& view.v@ == raster(cw, ch, |gx: int, gy: int| self.v2_chroma(2, gx, gy))
    }

    /// `view` is the auxiliary view of the picture in the given layout.
    pub open spec fn aux_view_is(self, view: OwnedYuv420, layout: ChromaLayout) -> bool {
        match layout {
            ChromaLayout::V1 => self.v1_view_is(view),
            ChromaLayout::V2 => self.v2_view_is(view),
        }
    }
}

/// A dimension as the wire carries it; zero where it does not fit.
pub open spec fn u32_or_zero(n: int) -> u32 {
    if n <= u32::MAX {
        n as u32
    } else {
        0
    }
}

fn dimension(n: usize) -> (dimension: u32)
    ensures
        dimension == u32_or_zero(n as int),
{
    if n as u64 <= u32::MAX as u64 {
        n as u32
    } else {
        0
    }
}

/// Half of `n`, rounded up.
fn halve_up(n: usize) -> (half: usize)
    ensures
        half == crate::decode::half_up(n as int),
{
    n / 2 + n % 2
}

/// The row-major plane whose samples `at` gives.
fn rasterize<F: Fn(usize, usize) -> u8>(width: usize, height: usize, at: F) -> (plane: Vec<u8>)
    requires
        width * height <= usize::MAX,
        forall|x: usize, y: usize| x < width && y < height ==> #[trigger] call_requires(at, (x, y)),
    ensures
        plane@.len() == width * height,
        forall|i: int|
            0 <= i < width * height ==> call_ensures(
                at,
                ((i % width as int) as usize, (i / width as int) as usize),
                #[trigger] plane@[i],
            ),
{
    let mut plane: Vec<u8> = Vec::new();
    assert(0 * width == 0) by (nonlinear_arith);
    let mut y: usize = 0;
    while y < height
        invariant
            y <= height,
            width * height <= usize::MAX,
            forall|x: usize, y: usize|
                x < width && y < height ==> #[trigger] call_requires(at, (x, y)),
            plane@.len() == y * width,
            forall|i: int|
                0 <= i < plane@.len() ==> call_ensures(
                    at,
                    ((i % width as int) as usize, (i / width as int) as usize),
                    #[trigger] plane@[i],
                ),
        decreases height - y,
    {
        let mut x: usize = 0;
        while x < width
            invariant
                x <= width,
                y < height,
                width * height <= usize::MAX,
                forall|x: usize, y: usize|
                    x < width && y < height ==> #[trigger] call_requires(at, (x, y)),
                plane@.len() == y * width + x,
                forall|i: int|
                    0 <= i < plane@.len() ==> call_ensures(
                        at,
                        ((i % width as int) as usize, (i / width as int) as usize),
                        #[trigger] plane@[i],
                    ),
            decreases width - x,
        {
            proof {
                crate::row_major::lemma_index_of(width as int, height as int, x as int, y as int);
            }
            let sample: u8 = at(x, y);
            plane.push(sample);
            x += 1;
        }
        assert((y + 1) * width == y * width + width) by (nonlinear_arith);
        y += 1;
    }
    assert(height * width == width * height) by (nonlinear_arith);
    plane
}

/// A plane of half the columns and half the rows, rounded up, is no longer than
/// the whole one.
proof fn lemma_quarter_plane_fits(width: int, height: int)
    requires
        0 <= width,
        0 <= height,
    ensures
        0 <= crate::decode::half_up(width) * crate::decode::half_up(height) <= width * height,
{
    let cw = crate::decode::half_up(width);
    let ch = crate::decode::half_up(height);
    assert(0 <= cw * ch <= width * height) by (nonlinear_arith)
        requires
            0 <= cw <= width,
            0 <= ch <= height,
    ;
}

/// Sample `plane` (`w x h`) at `(x, y)`, clamping to the last valid row
/// and column instead of failing at the ragged edge of an odd-sized
/// picture.
fn sample(src: &Yuv444Planes, plane: &[u8], x: usize, y: usize) -> (value: u8)
    requires
        src@.well_formed(),
        plane@.len() == src@.width * src@.height,
        0 < src@.width,
        0 < src@.height,
    ensures
        value == src@.nearest_sample(plane@, x as int, y as int),
{
    let w: usize = src.width();
    let h: usize = src.height();
    let cx: usize = if x < w {
        x
    } else {
        w - 1
    };
    let cy: usize = if y < h {
        y
    } else {
        h - 1
    };
    proof {
        crate::row_major::lemma_index_of(w as int, h as int, cx as int, cy as int);
    }
    match get_pixel(plane, w, cx, cy) {
        Some(value) => value,
        None => 0,
    }
}

/// The rounded average of one 2x2 block of `plane`.
fn filtered(src: &Yuv444Planes, plane: &[u8], cx: usize, cy: usize) -> (value: u8)
    requires
        src@.well_formed(),
        plane@.len() == src@.width * src@.height,
        2 * cx < src@.width,
        2 * cy < src@.height,
    ensures
        value == src@.filtered(plane@, cx as int, cy as int),
{
    let w: usize = src.width();
    let h: usize = src.height();
    let x0: usize = cx * 2;
    let y0: usize = cy * 2;
    let sum: u32 = sample(src, plane, x0, y0) as u32 + sample(src, plane, x0 + 1, y0) as u32
        + sample(src, plane, x0, y0 + 1) as u32 + sample(src, plane, x0 + 1, y0 + 1) as u32;
    ((sum + 2) / 4) as u8
}

/// The averages of the blocks of a plane.
fn filtered_plane(
    src: &Yuv444Planes,
    plane: &[u8],
    width: usize,
    height: usize,
) -> (samples: Vec<u8>)
    requires
        src@.well_formed(),
        plane@.len() == src@.width * src@.height,
        0 < src@.width,
        width == crate::decode::half_up(src@.width as int),
        height == crate::decode::half_up(src@.height as int),
        width * height <= usize::MAX,
    ensures
        samples@ == raster(
            width as int,
            height as int,
            |x: int, row: int| src@.filtered(plane@, x, row),
        ),
{
    let at = |x: usize, row: usize| -> (value: u8)
        requires
            x < width,
            row < height,
        ensures
            value == src@.filtered(plane@, x as int, row as int),
        { filtered(src, plane, x, row) };
    let samples: Vec<u8> = rasterize(width, height, at);
    proof {
        assert forall|i: int| 0 <= i < width * height implies #[trigger] samples@[i] == src@.filtered(
            plane@,
            i % width as int,
            i / width as int,
        ) by {
            crate::row_major::lemma_position_of(width as int, height as int, i);
        }
    }
    assert(samples@ =~= raster(
        width as int,
        height as int,
        |x: int, row: int| src@.filtered(plane@, x, row),
    ));
    samples
}

/// B1-B3: `Y420 = Y444`, `U = (sum of the 2x2 block + 2) / 4` (rounded
/// average), same for `V`.
pub fn main_view(src: &Yuv444Planes) -> (view: OwnedYuv420)
    requires
        src@.well_formed(),
        0 < src@.width,
    ensures
        src@.main_view_is(view),
{
    let w: usize = src.width();
    let h: usize = src.height();
    let cw: usize = halve_up(w);
    let ch: usize = halve_up(h);
    let len: usize = src.y().len();
    proof {
        lemma_quarter_plane_fits(w as int, h as int);
    }
    let y: Vec<u8> = vstd::slice::slice_to_vec(src.y());
    let u: Vec<u8> = filtered_plane(src, src.u(), cw, ch);
    let v: Vec<u8> = filtered_plane(src, src.v(), cw, ch);
    assert(u@ =~= raster(cw as int, ch as int, |cx: int, cy: int| src@.filtered(src@.u, cx, cy)));
    assert(v@ =~= raster(cw as int, ch as int, |cx: int, cy: int| src@.filtered(src@.v, cx, cy)));
    OwnedYuv420 { width: dimension(w), height: dimension(h), y, u, v }
}

/// B4-B7 (`V1`) / B4-B9 (`V2`). For `V1` the aux height is rounded *up*
/// to a multiple of 16 so every odd row has a macroblock slot; positions
/// the layout does not define stay at the [`Yuv420View`] default (`0` for
/// `Y`, `128` for chroma).
pub fn aux_view(src: &Yuv444Planes, layout: ChromaLayout) -> (view: OwnedYuv420)
    requires
        src@.well_formed(),
        layout is V1 ==> macroblock_height(src@.height as int) <= usize::MAX,
        layout is V1 ==> src@.width * macroblock_height(src@.height as int) <= usize::MAX,
    ensures
        src@.aux_view_is(view, layout),
{
    match layout {
        ChromaLayout::V1 => aux_view_v1(src),
        ChromaLayout::V2 => aux_view_v2(src),
    }
}

/// One sample of a plane, at a position inside it.
fn pixel(src: &Yuv444Planes, plane: &[u8], x: usize, y: usize) -> (value: u8)
    requires
        src@.well_formed(),
        plane@.len() == src@.width * src@.height,
        x < src@.width,
        y < src@.height,
    ensures
        value == src@.sample(plane@, x as int, y as int),
{
    proof {
        crate::row_major::lemma_index_of(src@.width as int, src@.height as int, x as int, y as int);
    }
    match get_pixel(plane, src.width(), x, y) {
        Some(value) => value,
        None => 0,
    }
}

fn v1_luma(src: &Yuv444Planes, x: usize, row: usize) -> (value: u8)
    requires
        src@.well_formed(),
        x < src@.width,
    ensures
        value == src@.v1_luma(x as int, row as int),
{
    let slot: usize = row % 16;
    let macroblock_start: usize = row - slot;
    let h: usize = src.height();
    if macroblock_start >= h || h - macroblock_start <= 2 * (slot % 8) + 1 {
        return 0;
    }
    let main_row: usize = macroblock_start + 2 * (slot % 8) + 1;
    if slot < 8 {
        pixel(src, src.u(), x, main_row)
    } else {
        pixel(src, src.v(), x, main_row)
    }
}

fn v1_chroma(src: &Yuv444Planes, plane: &[u8], gx: usize, gy: usize) -> (value: u8)
    requires
        src@.well_formed(),
        plane@.len() == src@.width * src@.height,
    ensures
        value == src@.v1_chroma(plane@, gx as int, gy as int),
{
    if gy < halve_up(src.height()) && gx < src.width() / 2 {
        pixel(src, plane, 2 * gx + 1, 2 * gy)
    } else {
        128
    }
}

/// The luma plane of an AVC444 auxiliary view.
fn v1_luma_plane(src: &Yuv444Planes, width: usize, height: usize) -> (samples: Vec<u8>)
    requires
        src@.well_formed(),
        width == src@.width,
        height == macroblock_height(src@.height as int),
        width * height <= usize::MAX,
    ensures
        samples@ == raster(
            width as int,
            height as int,
            |x: int, row: int| src@.v1_luma(x, row),
        ),
{
    let at = |x: usize, row: usize| -> (value: u8)
        requires
            x < width,
            row < height,
        ensures
            value == src@.v1_luma(x as int, row as int),
        { v1_luma(src, x, row) };
    let samples: Vec<u8> = rasterize(width, height, at);
    proof {
        assert forall|i: int| 0 <= i < width * height implies #[trigger] samples@[i] == src@.v1_luma(
            i % width as int,
            i / width as int,
        ) by {
            crate::row_major::lemma_position_of(width as int, height as int, i);
        }
    }
    assert(samples@ =~= raster(
        width as int,
        height as int,
        |x: int, row: int| src@.v1_luma(x, row),
    ));
    samples
}

/// A chroma plane of an AVC444 auxiliary view.
fn v1_chroma_plane(
    src: &Yuv444Planes,
    plane: &[u8],
    width: usize,
    height: usize,
) -> (samples: Vec<u8>)
    requires
        src@.well_formed(),
        plane@.len() == src@.width * src@.height,
        width * height <= usize::MAX,
    ensures
        samples@ == raster(
            width as int,
            height as int,
            |x: int, row: int| src@.v1_chroma(plane@, x, row),
        ),
{
    let at = |x: usize, row: usize| -> (value: u8)
        requires
            x < width,
            row < height,
        ensures
            value == src@.v1_chroma(plane@, x as int, row as int),
        { v1_chroma(src, plane, x, row) };
    let samples: Vec<u8> = rasterize(width, height, at);
    proof {
        assert forall|i: int| 0 <= i < width * height implies #[trigger] samples@[i] == src@.v1_chroma(
            plane@,
            i % width as int,
            i / width as int,
        ) by {
            crate::row_major::lemma_position_of(width as int, height as int, i);
        }
    }
    assert(samples@ =~= raster(
        width as int,
        height as int,
        |x: int, row: int| src@.v1_chroma(plane@, x, row),
    ));
    samples
}

fn aux_view_v1(src: &Yuv444Planes) -> (view: OwnedYuv420)
    requires
        src@.well_formed(),
        macroblock_height(src@.height as int) <= usize::MAX,
        src@.width * macroblock_height(src@.height as int) <= usize::MAX,
    ensures
        src@.v1_view_is(view),
{
    let w: usize = src.width();
    let h: usize = src.height();
    let aligned_h: usize = if h == 0 {
        16
    } else {
        (h - 1) / 16 * 16 + 16
    };
    let cw: usize = halve_up(w);
    let ch: usize = aligned_h / 2;
    proof {
        lemma_quarter_plane_fits(w as int, aligned_h as int);
    }
    let y: Vec<u8> = v1_luma_plane(src, w, aligned_h);
    let u: Vec<u8> = v1_chroma_plane(src, src.u(), cw, ch);
    let v: Vec<u8> = v1_chroma_plane(src, src.v(), cw, ch);
    assert(y@ =~= raster(w as int, aligned_h as int, |x: int, row: int| src@.v1_luma(x, row)));
    assert(u@ =~= raster(
        cw as int,
        ch as int,
        |gx: int, gy: int| src@.v1_chroma(src@.u, gx, gy),
    ));
    assert(v@ =~= raster(
        cw as int,
        ch as int,
        |gx: int, gy: int| src@.v1_chroma(src@.v, gx, gy),
    ));
    OwnedYuv420 { width: dimension(w), height: dimension(aligned_h), y, u, v }
}

fn v2_luma(src: &Yuv444Planes, x: usize, row: usize) -> (value: u8)
    requires
        src@.well_formed(),
        x < src@.width,
        row < src@.height,
    ensures
        value == src@.v2_luma(x as int, row as int),
{
    let half_w: usize = src.width() / 2;
    if x < half_w {
        pixel(src, src.u(), 2 * x + 1, row)
    } else if x - half_w < half_w {
        pixel(src, src.v(), 2 * (x - half_w) + 1, row)
    } else {
        0
    }
}

fn v2_chroma(src: &Yuv444Planes, shift: usize, gx: usize, gy: usize) -> (value: u8)
    requires
        src@.well_formed(),
        shift == 0 || shift == 2,
    ensures
        value == src@.v2_chroma(shift as int, gx as int, gy as int),
{
    let quarter_w: usize = src.width() / 4;
    if gy >= src.height() / 2 {
        128
    } else if gx < quarter_w {
        pixel(src, src.u(), 4 * gx + shift, 2 * gy + 1)
    } else if gx - quarter_w < quarter_w {
        pixel(src, src.v(), 4 * (gx - quarter_w) + shift, 2 * gy + 1)
    } else {
        128
    }
}

/// The luma plane of an AVC444v2 auxiliary view.
fn v2_luma_plane(src: &Yuv444Planes, width: usize, height: usize) -> (samples: Vec<u8>)
    requires
        src@.well_formed(),
        width == src@.width,
        height == src@.height,
        width * height <= usize::MAX,
    ensures
        samples@ == raster(
            width as int,
            height as int,
            |x: int, row: int| src@.v2_luma(x, row),
        ),
{
    let at = |x: usize, row: usize| -> (value: u8)
        requires
            x < width,
            row < height,
        ensures
            value == src@.v2_luma(x as int, row as int),
        { v2_luma(src, x, row) };
    let samples: Vec<u8> = rasterize(width, height, at);
    proof {
        assert forall|i: int| 0 <= i < width * height implies #[trigger] samples@[i] == src@.v2_luma(
            i % width as int,
            i / width as int,
        ) by {
            crate::row_major::lemma_position_of(width as int, height as int, i);
        }
    }
    assert(samples@ =~= raster(
        width as int,
        height as int,
        |x: int, row: int| src@.v2_luma(x, row),
    ));
    samples
}

/// A chroma plane of an AVC444v2 auxiliary view.
fn v2_chroma_plane(
    src: &Yuv444Planes,
    shift: usize,
    width: usize,
    height: usize,
) -> (samples: Vec<u8>)
    requires
        src@.well_formed(),
        shift == 0 || shift == 2,
        width * height <= usize::MAX,
    ensures
        samples@ == raster(
            width as int,
            height as int,
            |x: int, row: int| src@.v2_chroma(shift as int, x, row),
        ),
{
    let at = |x: usize, row: usize| -> (value: u8)
        requires
            x < width,
            row < height,
        ensures
            value == src@.v2_chroma(shift as int, x as int, row as int),
        { v2_chroma(src, shift, x, row) };
    let samples: Vec<u8> = rasterize(width, height, at);
    proof {
        assert forall|i: int| 0 <= i < width * height implies #[trigger] samples@[i] == src@.v2_chroma(
            shift as int,
            i % width as int,
            i / width as int,
        ) by {
            crate::row_major::lemma_position_of(width as int, height as int, i);
        }
    }
    assert(samples@ =~= raster(
        width as int,
        height as int,
        |x: int, row: int| src@.v2_chroma(shift as int, x, row),
    ));
    samples
}

fn aux_view_v2(src: &Yuv444Planes) -> (view: OwnedYuv420)
    requires
        src@.well_formed(),
    ensures
        src@.v2_view_is(view),
{
    let w: usize = src.width();
    let h: usize = src.height();
    let cw: usize = halve_up(w);
    let ch: usize = halve_up(h);
    let len: usize = src.y().len();
    proof {
        lemma_quarter_plane_fits(w as int, h as int);
    }
    let y: Vec<u8> = v2_luma_plane(src, w, h);
    let u: Vec<u8> = v2_chroma_plane(src, 0, cw, ch);
    let v: Vec<u8> = v2_chroma_plane(src, 2, cw, ch);
    assert(y@ =~= raster(w as int, h as int, |x: int, row: int| src@.v2_luma(x, row)));
    assert(u@ =~= raster(cw as int, ch as int, |gx: int, gy: int| src@.v2_chroma(0, gx, gy)));
    assert(v@ =~= raster(cw as int, ch as int, |gx: int, gy: int| src@.v2_chroma(2, gx, gy)));
    OwnedYuv420 { width: dimension(w), height: dimension(h), y, u, v }
}

} // verus!
