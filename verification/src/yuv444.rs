//! YUV 4:4:4 reconstruction and colour conversion for AVC444 / AVC444v2.
//!
//! MS-RDPEGFX packs a 4:4:4 picture into two 4:2:0 H.264 streams: a *main* view
//! (3.3.8.3.2/3.3.8.3.3, section B1-B3) carrying luma plus a 2x2-averaged
//! ("filtered") chroma, and an *auxiliary* view (B4-B7 for AVC444, B4-B9 for
//! AVC444v2) carrying the chroma detail the average threw away. The decoder
//! reconstructs the true chroma at colour-conversion time with a reverse
//! filter (3.3.8.3.1).
//!
//! This module keeps a persistent [`Yuv444Planes`] per surface: `(2x,2y)`
//! samples hold the filtered average (replicated across the whole 2x2 block by
//! [`apply_main_view`] so the reverse filter degenerates to the identity when
//! only the main view has been painted), everything else holds the
//! aux-carried sample once [`apply_aux_view`] has painted it.
//! [`convert_rect_to_rgba`] applies the reverse filter and the colour matrix
//! on the fly, over exactly the rect being converted.
use vstd::prelude::*;

use crate::decode::Yuv420View;
use crate::geometry::{ExclusiveRectangle, InclusiveRectangle};

pub mod color;
pub mod laws;
pub mod pointwise;
pub mod split;

verus! {

// ---------------------------------------------------------------------------
// PlaneRect
// ---------------------------------------------------------------------------

/// An exclusive rectangle over a [`Yuv444Planes`] (`right`/`bottom` are one
/// past the last included sample), in `usize` plane coordinates.
#[derive(Debug, Clone, Copy, PartialEq, Eq, Default, Structural)]
pub struct PlaneRect {
    pub left: usize,
    pub top: usize,
    pub right: usize,
    pub bottom: usize,
}

/// The lesser of two numbers.
pub open spec fn least(a: int, b: int) -> int {
    if a <= b {
        a
    } else {
        b
    }
}

/// The greater of two numbers.
pub open spec fn greatest(a: int, b: int) -> int {
    if a >= b {
        a
    } else {
        b
    }
}

fn lesser(a: usize, b: usize) -> (n: usize)
    ensures
        n == least(a as int, b as int),
{
    if a <= b {
        a
    } else {
        b
    }
}

fn greater(a: usize, b: usize) -> (n: usize)
    ensures
        n == greatest(a as int, b as int),
{
    if a >= b {
        a
    } else {
        b
    }
}

impl PlaneRect {
    /// The rectangle covers column `x` of row `y`.
    pub open spec fn covers(self, x: int, y: int) -> bool {
        self.left <= x < self.right && self.top <= y < self.bottom
    }

    pub fn width(&self) -> (width: usize)
        ensures
            width == greatest(self.right - self.left, 0),
            self.left <= self.right ==> width == self.right - self.left,
            self.left > self.right ==> width == 0,
    {
        self.right.saturating_sub(self.left)
    }

    pub fn height(&self) -> (height: usize)
        ensures
            height == greatest(self.bottom - self.top, 0),
            self.top <= self.bottom ==> height == self.bottom - self.top,
            self.top > self.bottom ==> height == 0,
    {
        self.bottom.saturating_sub(self.top)
    }

    pub fn is_empty(&self) -> (empty: bool)
        ensures
            empty == (self.right <= self.left || self.bottom <= self.top),
            empty <==> (forall|x: int, y: int| !self.covers(x, y)),
    {
        let empty: bool = self.width() == 0 || self.height() == 0;
        proof {
            if !empty {
                assert(self.covers(self.left as int, self.top as int));
            }
        }
        empty
    }

    /// Clip to `[0, w) x [0, h)`.
    #[must_use]
    pub fn clip(&self, w: usize, h: usize) -> (clipped: Self)
        ensures
            clipped.left == least(self.left as int, w as int),
            clipped.top == least(self.top as int, h as int),
            clipped.right == least(self.right as int, w as int),
            clipped.bottom == least(self.bottom as int, h as int),
            forall|x: int, y: int| #[trigger]
                clipped.covers(x, y) <==> self.covers(x, y) && x < w && y < h,
    {
        Self {
            left: lesser(self.left, w),
            top: lesser(self.top, h),
            right: lesser(self.right, w),
            bottom: lesser(self.bottom, h),
        }
    }

    #[must_use]
    pub fn intersect(&self, other: &Self) -> (common: Self)
        ensures
            common.left == greatest(self.left as int, other.left as int),
            common.top == greatest(self.top as int, other.top as int),
            common.right == least(self.right as int, other.right as int),
            common.bottom == least(self.bottom as int, other.bottom as int),
            forall|x: int, y: int| #[trigger]
                common.covers(x, y) <==> self.covers(x, y) && other.covers(x, y),
    {
        Self {
            left: greater(self.left, other.left),
            top: greater(self.top, other.top),
            right: lesser(self.right, other.right),
            bottom: lesser(self.bottom, other.bottom),
        }
    }
}

impl From<&ExclusiveRectangle> for PlaneRect {
    fn from(rect: &ExclusiveRectangle) -> (plane_rect: Self) {
        Self {
            left: rect.left as usize,
            top: rect.top as usize,
            right: rect.right as usize,
            bottom: rect.bottom as usize,
        }
    }
}

impl vstd::std_specs::convert::FromSpecImpl<&ExclusiveRectangle> for PlaneRect {
    open spec fn obeys_from_spec() -> bool {
        true
    }

    open spec fn from_spec(rect: &ExclusiveRectangle) -> Self {
        PlaneRect {
            left: rect.left as usize,
            top: rect.top as usize,
            right: rect.right as usize,
            bottom: rect.bottom as usize,
        }
    }
}

/// Only for callers that genuinely hold an inclusive rect: `right`/`bottom`
/// are widened by one to become exclusive.
impl From<&InclusiveRectangle> for PlaneRect {
    fn from(rect: &InclusiveRectangle) -> (plane_rect: Self) {
        Self {
            left: rect.left as usize,
            top: rect.top as usize,
            right: rect.right as usize + 1,
            bottom: rect.bottom as usize + 1,
        }
    }
}

impl vstd::std_specs::convert::FromSpecImpl<&InclusiveRectangle> for PlaneRect {
    open spec fn obeys_from_spec() -> bool {
        true
    }

    open spec fn from_spec(rect: &InclusiveRectangle) -> Self {
        PlaneRect {
            left: rect.left as usize,
            top: rect.top as usize,
            right: (rect.right + 1) as usize,
            bottom: (rect.bottom + 1) as usize,
        }
    }
}

// ---------------------------------------------------------------------------
// Yuv444Planes
// ---------------------------------------------------------------------------

/// A 4:4:4 picture: three row-major planes of `width * height` samples.
#[verifier::ext_equal]
pub struct Picture {
    pub width: nat,
    pub height: nat,
    pub y: Seq<u8>,
    pub u: Seq<u8>,
    pub v: Seq<u8>,
}

impl Picture {
    /// Every plane has one sample per position.
    pub open spec fn well_formed(self) -> bool {
        &&& self.y.len() == self.width * self.height
        &&& self.u.len() == self.width * self.height
        &&& self.v.len() == self.width * self.height
    }

    /// An unpainted picture: black luma, neutral chroma.
    pub open spec fn blank(width: nat, height: nat) -> Self {
        Picture {
            width,
            height,
            y: Seq::new(width * height, |i: int| 0u8),
            u: Seq::new(width * height, |i: int| 128u8),
            v: Seq::new(width * height, |i: int| 128u8),
        }
    }

    /// The sample of `plane` in column `x` of row `y`.
    pub open spec fn sample(self, plane: Seq<u8>, x: int, y: int) -> u8 {
        plane[y * self.width + x]
    }

    /// The chroma that conversion uses at `(x, y)`: the reverse-filtered sample
    /// at an even position whose whole 2x2 block lies in the plane, the stored
    /// sample everywhere else.
    pub open spec fn reconstructed(self, plane: Seq<u8>, x: int, y: int) -> u8 {
        if x % 2 == 0 && y % 2 == 0 && x + 1 < self.width && y + 1 < self.height {
            color::reversed(
                self.sample(plane, x, y),
                self.sample(plane, x + 1, y),
                self.sample(plane, x, y + 1),
                self.sample(plane, x + 1, y + 1),
            )
        } else {
            self.sample(plane, x, y)
        }
    }

    /// Channel `k` (red, green, blue, alpha) of the pixel at `(x, y)`.
    pub open spec fn channel(self, x: int, y: int, k: int) -> u8 {
        let luma = self.sample(self.y, x, y);
        let u = self.reconstructed(self.u, x, y);
        let v = self.reconstructed(self.v, x, y);
        if k == 0 {
            color::red(luma, v)
        } else if k == 1 {
            color::green(luma, u, v)
        } else if k == 2 {
            color::blue(luma, u)
        } else {
            0xFF
        }
    }

    /// The RGBA bytes of the `width * height` pixels whose top left is
    /// `(left, top)`, row by row.
    pub open spec fn rgba(self, left: int, top: int, width: int, height: int) -> Seq<u8> {
        Seq::new(
            (width * height * 4) as nat,
            |i: int| self.channel(left + (i / 4) % width, top + (i / 4) / width, i % 4),
        )
    }
}

/// The persistent, not-yet-reverse-filtered 4:4:4 picture for one surface.
///
/// `(2x, 2y)` chroma samples hold the main view's filtered average;
/// [`apply_main_view`] replicates that average across the whole 2x2 block so
/// the reverse filter is the identity until an aux view overwrites the other
/// three positions.
#[derive(Debug)]
pub struct Yuv444Planes {
    width: usize,
    height: usize,
    y: Vec<u8>,
    u: Vec<u8>,
    v: Vec<u8>,
}

impl View for Yuv444Planes {
    type V = Picture;

    closed spec fn view(&self) -> Picture {
        Picture {
            width: self.width as nat,
            height: self.height as nat,
            y: self.y@,
            u: self.u@,
            v: self.v@,
        }
    }
}

impl Clone for Yuv444Planes {
    fn clone(&self) -> (copy: Self)
        ensures
            copy@ == self@,
    {
        Self {
            width: self.width,
            height: self.height,
            y: self.y.clone(),
            u: self.u.clone(),
            v: self.v.clone(),
        }
    }
}

impl Yuv444Planes {
    /// `width x height`, `Y = 0`, `U = V = 128` (mid-grey, matches an
    /// unpainted surface). If `width * height` overflows, both dimensions
    /// are clamped to `0` so `width()`/`height()` never disagree with the
    /// (empty) backing storage.
    pub fn new(width: usize, height: usize) -> (planes: Self)
        ensures
            planes@ == (if width * height <= usize::MAX {
                Picture::blank(width as nat, height as nat)
            } else {
                Picture::blank(0, 0)
            }),
            planes@.well_formed(),
    {
        match width.checked_mul(height) {
            Some(len) => Self {
                width,
                height,
                y: vec![0u8; len],
                u: vec![128u8; len],
                v: vec![128u8; len],
            },
            None => Self { width: 0, height: 0, y: Vec::new(), u: Vec::new(), v: Vec::new() },
        }
    }

    /// A picture made of the given planes.
    pub fn from_planes(width: usize, height: usize, y: Vec<u8>, u: Vec<u8>, v: Vec<u8>) -> (planes:
        Self)
        requires
            y@.len() == width * height,
            u@.len() == width * height,
            v@.len() == width * height,
        ensures
            planes@ == (Picture {
                width: width as nat,
                height: height as nat,
                y: y@,
                u: u@,
                v: v@,
            }),
            planes@.well_formed(),
    {
        Self { width, height, y, u, v }
    }

    pub fn width(&self) -> (width: usize)
        ensures
            width == self@.width,
    {
        self.width
    }

    pub fn height(&self) -> (height: usize)
        ensures
            height == self@.height,
    {
        self.height
    }

    pub fn y(&self) -> (plane: &[u8])
        ensures
            plane@ == self@.y,
    {
        self.y.as_slice()
    }

    pub fn u(&self) -> (plane: &[u8])
        ensures
            plane@ == self@.u,
    {
        self.u.as_slice()
    }

    pub fn v(&self) -> (plane: &[u8])
        ensures
            plane@ == self@.v,
    {
        self.v.as_slice()
    }

    /// Reallocate (and reset to the `new` defaults) if the dimensions
    /// changed. Returns `true` when it did.
    #[must_use]
    pub fn resize_if_needed(&mut self, width: usize, height: usize) -> (changed: bool)
        requires
            old(self)@.well_formed(),
        ensures
            changed == (old(self)@.width != width || old(self)@.height != height),
            !changed ==> *final(self) == *old(self),
            changed && width * height <= usize::MAX ==> final(self)@ == Picture::blank(
                width as nat,
                height as nat,
            ),
            changed && width * height > usize::MAX ==> final(self)@ == Picture::blank(0, 0),
            final(self)@.well_formed(),
    {
        if self.width == width && self.height == height {
            return false;
        }
        *self = Self::new(width, height);
        true
    }
}

/// Which auxiliary-view layout produced a decoded stream: AVC444 (per
/// 16x16 macroblock) or AVC444v2 (whole frame).
#[derive(Debug, Clone, Copy, PartialEq, Eq, Structural)]
pub enum ChromaLayout {
    /// MS-RDPEGFX 3.3.8.3.2.
    V1,
    /// MS-RDPEGFX 3.3.8.3.3.
    V2,
}

// ---------------------------------------------------------------------------
// Main view (B1-B3)
// ---------------------------------------------------------------------------

/// What painting the main view gives at one position: `sample` inside the
/// painted area and the sample that was there outside it.
pub open spec fn laid(inside: bool, sample: u8, kept: u8) -> u8 {
    if inside {
        sample
    } else {
        kept
    }
}

/// The area of a `width` by `height` picture that painting `rect` of a main view
/// touches: `rect` grown outward to even boundaries and cut to the dimensions that
/// the picture and the view share. Nothing where either shared dimension is below
/// two.
pub open spec fn main_view_area(width: int, height: int, main: Yuv420View, rect: PlaneRect) -> (
    int,
    int,
    int,
    int,
) {
    let w = least(width, main.width as int);
    let h = least(height, main.height as int);
    if w < 2 || h < 2 {
        (0, 0, 0, 0)
    } else {
        (
            least(rect.left - rect.left % 2, w),
            least(rect.top - rect.top % 2, h),
            least(rect.right + rect.right % 2, w),
            least(rect.bottom + rect.bottom % 2, h),
        )
    }
}

/// `(left, top, right, bottom)` covers column `x` of row `y`.
pub open spec fn area_covers(area: (int, int, int, int), x: int, y: int) -> bool {
    area.0 <= x < area.2 && area.1 <= y < area.3
}

impl Picture {
    /// The picture after its main view has been painted over `rect`.
    pub open spec fn main_painted(self, main: Yuv420View, rect: PlaneRect) -> Picture {
        let w = self.width as int;
        let area = main_view_area(w, self.height as int, main, rect);
        if main.well_formed() {
            Picture {
                y: Seq::new(
                    self.y.len(),
                    |i: int|
                        laid(
                            area_covers(area, i % w, i / w),
                            main.luma_at(i % w, i / w),
                            self.y[i],
                        ),
                ),
                u: Seq::new(
                    self.u.len(),
                    |i: int|
                        laid(
                            area_covers(area, i % w, i / w),
                            main.u_at((i % w) / 2, (i / w) / 2),
                            self.u[i],
                        ),
                ),
                v: Seq::new(
                    self.v.len(),
                    |i: int|
                        laid(
                            area_covers(area, i % w, i / w),
                            main.v_at((i % w) / 2, (i / w) / 2),
                            self.v[i],
                        ),
                ),
                ..self
            }
        } else {
            self
        }
    }
}

/// `n` rounded up to even, or `limit` where that is more than `limit`.
fn even_up(n: usize, limit: usize) -> (even: usize)
    ensures
        even == least(n + n % 2, limit as int),
{
    if n >= limit {
        limit
    } else {
        lesser(n + n % 2, limit)
    }
}

/// Paint the main (4:2:0) view's luma and filtered chroma into `dst` over
/// `rect`, expanded outward to even boundaries and bounded by
/// `min(dst, main)` dimensions. A no-op if `main` is not
/// [`well formed`](Yuv420View::is_well_formed) or the clipped rect is empty.
///
/// Chroma is replicated across the whole 2x2 block, which makes the reverse
/// filter the identity until an aux view overwrites the other three samples. A
/// last row or column without a partner is painted as far as there is one. Where
/// the shared width or height is below two, nothing is.
pub fn apply_main_view(dst: &mut Yuv444Planes, main: &Yuv420View<'_>, rect: PlaneRect)
    requires
        old(dst)@.well_formed(),
    ensures
        final(dst)@ == old(dst)@.main_painted(*main, rect),
        final(dst)@.well_formed(),
{
    if !main.is_well_formed() {
        return;
    }
    let plane_len: usize = dst.y.len();
    let luma_len: usize = main.y.len();
    let u_len: usize = main.u.len();
    let ghost before = dst@;
    let ghost painted = dst@.main_painted(*main, rect);
    let dst_width: usize = dst.width;
    let dst_height: usize = dst.height;
    let w: usize = lesser(dst_width, main.width as usize);
    let h: usize = lesser(dst_height, main.height as usize);
    if w < 2 || h < 2 {
        assert(dst@ =~= painted);
        return;
    }
    let ghost area = main_view_area(dst_width as int, dst_height as int, *main, rect);
    let left: usize = lesser(rect.left - rect.left % 2, w);
    let top: usize = lesser(rect.top - rect.top % 2, h);
    let right: usize = even_up(rect.right, w);
    let bottom: usize = even_up(rect.bottom, h);
    assert(area == (left as int, top as int, right as int, bottom as int));
    if left >= right || top >= bottom {
        assert(dst@ =~= painted);
        return;
    }
    proof {
        assert forall|i: int| 0 <= i < top * dst_width implies before.y[i] == painted.y[i]
            && before.u[i] == painted.u[i] && before.v[i] == painted.v[i] by {
            assert(top * dst_width <= dst_width * dst_height) by (nonlinear_arith)
                requires
                    top <= dst_height,
            ;
            assert(top * dst_width == dst_width * top) by (nonlinear_arith);
            crate::row_major::lemma_position_of(dst_width as int, top as int, i);
        }
        assert(0 <= top * dst_width) by (nonlinear_arith);
    }
    let mut row: usize = top;
    while row < bottom
        invariant
            main.well_formed(),
            main.y@.len() == luma_len,
            main.u@.len() == u_len,
            before.well_formed(),
            before.y.len() == plane_len,
            painted == before.main_painted(*main, rect),
            before.width == dst_width,
            before.height == dst_height,
            dst.width == dst_width,
            dst.height == dst_height,
            area == main_view_area(dst_width as int, dst_height as int, *main, rect),
            area == (left as int, top as int, right as int, bottom as int),
            left < right <= w,
            top <= row <= bottom,
            bottom <= h,
            w <= dst_width,
            w <= main.width,
            h <= dst_height,
            h <= main.height,
            dst@.well_formed(),
            forall|i: int|
                0 <= i < row * dst_width ==> dst.y@[i] == painted.y[i] && dst.u@[i]
                    == painted.u[i] && dst.v@[i] == painted.v[i],
            forall|i: int|
                row * dst_width <= i < before.y.len() ==> dst.y@[i] == before.y[i]
                    && dst.u@[i] == before.u[i] && dst.v@[i] == before.v[i],
        decreases bottom - row,
    {
        let ghost start = row * dst_width;
        proof {
            crate::row_major::lemma_index_of(dst_width as int, dst_height as int, 0, row as int);
        }
        let row_start: usize = row * dst_width;
        let mut x: usize = left;
        while x < right
            invariant
                main.well_formed(),
                main.y@.len() == luma_len,
                main.u@.len() == u_len,
                before.well_formed(),
                before.y.len() == plane_len,
                painted == before.main_painted(*main, rect),
                before.width == dst_width,
                before.height == dst_height,
                dst.width == dst_width,
                dst.height == dst_height,
                area == main_view_area(dst_width as int, dst_height as int, *main, rect),
                area == (left as int, top as int, right as int, bottom as int),
                left <= x <= right,
                right <= w,
                top <= row < bottom,
                bottom <= h,
                w <= dst_width,
                w <= main.width,
                h <= dst_height,
                h <= main.height,
                start == row_start,
                start == row * dst_width,
                start + dst_width <= before.y.len(),
                dst@.well_formed(),
                forall|i: int|
                    0 <= i < start ==> dst.y@[i] == painted.y[i] && dst.u@[i] == painted.u[i]
                        && dst.v@[i] == painted.v[i],
                forall|i: int|
                    start + left <= i < start + x ==> dst.y@[i] == painted.y[i] && dst.u@[i]
                        == painted.u[i] && dst.v@[i] == painted.v[i],
                forall|i: int|
                    start <= i < start + left || start + x <= i < before.y.len()
                        ==> dst.y@[i] == before.y[i] && dst.u@[i] == before.u[i] && dst.v@[i]
                        == before.v[i],
            decreases right - x,
        {
            proof {
                crate::row_major::lemma_index_of(dst_width as int, dst_height as int, x as int, row as int);
                crate::decode::lemma_plane_index(
                    main.y@.len() as int,
                    main.y_stride as int,
                    main.width as int,
                    main.height as int,
                    x as int,
                    row as int,
                );
                crate::decode::lemma_plane_index(
                    main.u@.len() as int,
                    main.chroma_stride as int,
                    main.chroma_columns(),
                    main.chroma_rows(),
                    x as int / 2,
                    row as int / 2,
                );
                crate::decode::lemma_plane_index(
                    main.v@.len() as int,
                    main.chroma_stride as int,
                    main.chroma_columns(),
                    main.chroma_rows(),
                    x as int / 2,
                    row as int / 2,
                );
            }
            let at: usize = row_start + x;
            let luma: u8 = main.y[row * main.y_stride + x];
            let chroma_at: usize = (row / 2) * main.chroma_stride + x / 2;
            dst.y[at] = luma;
            dst.u[at] = main.u[chroma_at];
            dst.v[at] = main.v[chroma_at];
            x += 1;
        }
        proof {
            assert forall|i: int| start <= i < start + dst_width implies dst.y@[i]
                == painted.y[i] && dst.u@[i] == painted.u[i] && dst.v@[i] == painted.v[i] by {
                crate::row_major::lemma_row_of(dst_width as int, i, row as int);
            }
            assert((row + 1) * dst_width == start + dst_width) by (nonlinear_arith)
                requires
                    start == row * dst_width,
            ;
        }
        row += 1;
    }
    proof {
        assert forall|i: int| bottom * dst_width <= i < before.y.len() implies before.y[i]
            == painted.y[i] && before.u[i] == painted.u[i] && before.v[i] == painted.v[i] by {
            assert(0 <= bottom * dst_width) by (nonlinear_arith);
            crate::row_major::lemma_position_of(dst_width as int, dst_height as int, i);
            let q = i / dst_width as int;
            assert(q >= bottom) by (nonlinear_arith)
                requires
                    bottom * dst_width <= i,
                    i < q * dst_width + dst_width,
                    0 < dst_width,
            ;
        }
        assert(dst@ =~= painted);
    }
}

// ---------------------------------------------------------------------------
// Auxiliary view (B4-B7 / B4-B9)
// ---------------------------------------------------------------------------

/// The `U` sample at `(x, y)` that an AVC444 auxiliary view carries, if it
/// carries one: odd rows stand in the upper half of their macroblock row of the
/// view's luma plane, odd columns of even rows in its `U` plane.
pub open spec fn v1_u(aux: Yuv420View, x: int, y: int) -> Option<u8> {
    if x >= aux.width {
        None
    } else if y % 2 == 1 {
        let row = 16 * (y / 16) + (y % 16) / 2;
        if row < aux.height {
            Some(aux.luma_at(x, row))
        } else {
            None
        }
    } else if x % 2 == 1 && y / 2 < aux.chroma_rows() {
        Some(aux.u_at(x / 2, y / 2))
    } else {
        None
    }
}

/// The `V` sample at `(x, y)` that an AVC444 auxiliary view carries, if it
/// carries one: as for `U`, in the lower half of the macroblock row and in the
/// `V` plane.
pub open spec fn v1_v(aux: Yuv420View, x: int, y: int) -> Option<u8> {
    if x >= aux.width {
        None
    } else if y % 2 == 1 {
        let row = 16 * (y / 16) + 8 + (y % 16) / 2;
        if row < aux.height {
            Some(aux.luma_at(x, row))
        } else {
            None
        }
    } else if x % 2 == 1 && y / 2 < aux.chroma_rows() {
        Some(aux.v_at(x / 2, y / 2))
    } else {
        None
    }
}

/// The sample at `(x, y)` that an AVC444v2 auxiliary view carries, if it carries
/// one, in the left halves of its planes (`U`) or in their right halves (`V`).
/// Odd columns stand in the view's luma plane; on odd rows, columns `4x` stand in
/// its `U` plane and columns `4x + 2` in its `V` plane.
pub open spec fn v2_sample(aux: Yuv420View, right_half: bool, x: int, y: int) -> Option<u8> {
    let luma_shift = if right_half {
        aux.width as int / 2
    } else {
        0
    };
    let chroma_shift = if right_half {
        aux.width as int / 4
    } else {
        0
    };
    if x % 2 == 1 {
        if x / 2 < aux.width as int / 2 && y < aux.height {
            Some(aux.luma_at(luma_shift + x / 2, y))
        } else {
            None
        }
    } else if y % 2 == 1 && y / 2 < aux.chroma_rows() && x / 4 < aux.width as int / 4 {
        if x % 4 == 0 {
            Some(aux.u_at(chroma_shift + x / 4, y / 2))
        } else {
            Some(aux.v_at(chroma_shift + x / 4, y / 2))
        }
    } else {
        None
    }
}

/// The `U` sample at `(x, y)` that an auxiliary view carries, if any.
pub open spec fn aux_u(aux: Yuv420View, layout: ChromaLayout, x: int, y: int) -> Option<u8> {
    match layout {
        ChromaLayout::V1 => v1_u(aux, x, y),
        ChromaLayout::V2 => v2_sample(aux, false, x, y),
    }
}

/// The `V` sample at `(x, y)` that an auxiliary view carries, if any.
pub open spec fn aux_v(aux: Yuv420View, layout: ChromaLayout, x: int, y: int) -> Option<u8> {
    match layout {
        ChromaLayout::V1 => v1_v(aux, x, y),
        ChromaLayout::V2 => v2_sample(aux, true, x, y),
    }
}

/// What painting an auxiliary view gives at one position: the carried sample
/// inside the rectangle, and the sample that was there where the view carries
/// none or the position lies outside.
pub open spec fn detailed(inside: bool, carried: Option<u8>, kept: u8) -> u8 {
    match carried {
        Some(sample) => laid(inside, sample, kept),
        None => kept,
    }
}

impl Picture {
    /// The picture after an auxiliary view's chroma has been painted over `rect`.
    pub open spec fn aux_painted(
        self,
        aux: Yuv420View,
        rect: PlaneRect,
        layout: ChromaLayout,
    ) -> Picture {
        let w = self.width as int;
        if aux.well_formed() {
            Picture {
                u: Seq::new(
                    self.u.len(),
                    |i: int|
                        detailed(
                            rect.covers(i % w, i / w),
                            aux_u(aux, layout, i % w, i / w),
                            self.u[i],
                        ),
                ),
                v: Seq::new(
                    self.v.len(),
                    |i: int|
                        detailed(
                            rect.covers(i % w, i / w),
                            aux_v(aux, layout, i % w, i / w),
                            self.v[i],
                        ),
                ),
                ..self
            }
        } else {
            self
        }
    }
}

/// Paint the auxiliary view's chroma detail into `dst` over `rect` (clipped
/// to `dst`, *not* expanded). Every read is bounded by `aux`'s actual decoded
/// geometry; a sample `aux` cannot source is left untouched.
pub fn apply_aux_view(
    dst: &mut Yuv444Planes,
    aux: &Yuv420View<'_>,
    rect: PlaneRect,
    layout: ChromaLayout,
)
    requires
        old(dst)@.well_formed(),
    ensures
        final(dst)@ == old(dst)@.aux_painted(*aux, rect, layout),
        final(dst)@.well_formed(),
{
    if !aux.is_well_formed() {
        return;
    }
    let ghost before = dst@;
    let clipped: PlaneRect = rect.clip(dst.width, dst.height);
    proof {
        before.lemma_aux_painted_clipped(*aux, rect, clipped, layout);
    }
    if clipped.is_empty() {
        assert(before =~= before.aux_painted(*aux, clipped, layout));
        return;
    }
    match layout {
        ChromaLayout::V1 => apply_aux_view_v1(dst, aux, clipped),
        ChromaLayout::V2 => apply_aux_view_v2(dst, aux, clipped),
    }
}

impl Picture {
    /// Clipping the rectangle to the picture changes nothing of what is painted.
    proof fn lemma_aux_painted_clipped(
        self,
        aux: Yuv420View,
        rect: PlaneRect,
        clipped: PlaneRect,
        layout: ChromaLayout,
    )
        requires
            self.well_formed(),
            forall|x: int, y: int| #[trigger]
                clipped.covers(x, y) <==> rect.covers(x, y) && x < self.width && y < self.height,
        ensures
            self.aux_painted(aux, rect, layout) == self.aux_painted(aux, clipped, layout),
    {
        let w = self.width as int;
        let whole = self.aux_painted(aux, rect, layout);
        let cut = self.aux_painted(aux, clipped, layout);
        assert forall|i: int| 0 <= i < self.u.len() implies #[trigger] whole.u[i] == cut.u[i] by {
            crate::row_major::lemma_position_of(w, self.height as int, i);
            assert(rect.covers(i % w, i / w) == clipped.covers(i % w, i / w));
        }
        assert forall|i: int| 0 <= i < self.v.len() implies #[trigger] whole.v[i] == cut.v[i] by {
            crate::row_major::lemma_position_of(w, self.height as int, i);
            assert(rect.covers(i % w, i / w) == clipped.covers(i % w, i / w));
        }
        assert(whole =~= cut);
    }

    /// Rows above and below the rectangle stay as they are.
    proof fn lemma_aux_painted_outside_rows(
        self,
        aux: Yuv420View,
        rect: PlaneRect,
        layout: ChromaLayout,
    )
        requires
            self.well_formed(),
            aux.well_formed(),
            rect.top <= self.height,
        ensures
            rect.top * self.width <= self.u.len(),
            forall|i: int|
                #![trigger self.aux_painted(aux, rect, layout).u[i]]
                #![trigger self.aux_painted(aux, rect, layout).v[i]]
                0 <= i < self.u.len() && (i < rect.top * self.width || i >= rect.bottom
                    * self.width) ==> self.aux_painted(aux, rect, layout).u[i] == self.u[i]
                    && self.aux_painted(aux, rect, layout).v[i] == self.v[i],
    {
        let w = self.width as int;
        let painted = self.aux_painted(aux, rect, layout);
        assert(rect.top * self.width <= self.width * self.height) by (nonlinear_arith)
            requires
                rect.top <= self.height,
        ;
        assert forall|i: int|
            #![trigger painted.u[i]]
            #![trigger painted.v[i]]
            0 <= i < self.u.len() && (i < rect.top * self.width || i >= rect.bottom
                * self.width) implies painted.u[i] == self.u[i] && painted.v[i] == self.v[i] by {
            crate::row_major::lemma_position_of(w, self.height as int, i);
            let q = i / w;
            assert(q < rect.top || q >= rect.bottom) by (nonlinear_arith)
                requires
                    i < rect.top * w || i >= rect.bottom * w,
                    q * w <= i < q * w + w,
                    0 < w,
            ;
        }
    }
}

/// MS-RDPEGFX 3.3.8.3.2, global macroblock form: for a destination odd row
/// `r`, macroblock row `m = r/16`, local row `l = r%16`, `j = (l-1)/2`;
/// `U444(., r)` comes from aux `Y` row `16m+j` (full width), `V444(., r)`
/// from aux `Y` row `16m+8+j`. Destination even rows `2y` take
/// `U444(2x+1, 2y)` from aux `U(x, y)`, `V444(2x+1, 2y)` from aux `V(x, y)`.
///
/// Rows the aux frame's *actual* decoded height cannot source (below the
/// nominal 16-aligned height) are left untouched.
fn apply_aux_view_v1(dst: &mut Yuv444Planes, aux: &Yuv420View<'_>, rect: PlaneRect)
    requires
        old(dst)@.well_formed(),
        aux.well_formed(),
        rect.left < rect.right <= old(dst)@.width,
        rect.top < rect.bottom <= old(dst)@.height,
    ensures
        final(dst)@ == old(dst)@.aux_painted(*aux, rect, ChromaLayout::V1),
        final(dst)@.well_formed(),
{
    let ghost before = dst@;
    let ghost painted = dst@.aux_painted(*aux, rect, ChromaLayout::V1);
    let dst_width: usize = dst.width;
    let plane_len: usize = dst.u.len();
    let luma_len: usize = aux.y.len();
    let u_len: usize = aux.u.len();
    let aux_w: usize = aux.width as usize;
    let aux_h: usize = aux.height as usize;
    let chroma_h: usize = aux.chroma_height();
    let col_end: usize = lesser(rect.right, aux_w);
    proof {
        before.lemma_aux_painted_outside_rows(*aux, rect, ChromaLayout::V1);
        assert(0 <= rect.top * dst_width) by (nonlinear_arith);
    }

    let mut row: usize = rect.top;
    while row < rect.bottom
        invariant
            aux.well_formed(),
            aux.y@.len() == luma_len,
            aux.u@.len() == u_len,
            aux_w == aux.width,
            aux_h == aux.height,
            chroma_h == aux.chroma_rows(),
            col_end == least(rect.right as int, aux_w as int),
            before.well_formed(),
            before.width == dst_width,
            before.u.len() == plane_len,
            painted == before.aux_painted(*aux, rect, ChromaLayout::V1),
            rect.left < rect.right <= before.width,
            rect.top <= row <= rect.bottom <= before.height,
            dst@.well_formed(),
            dst.width == dst_width,
            dst.height == before.height,
            dst.y@ == before.y,
            forall|i: int|
                0 <= i < row * dst_width ==> dst.u@[i] == painted.u[i] && dst.v@[i]
                    == painted.v[i],
            forall|i: int|
                row * dst_width <= i < plane_len ==> dst.u@[i] == before.u[i] && dst.v@[i]
                    == before.v[i],
        decreases rect.bottom - row,
    {
        proof {
            crate::row_major::lemma_index_of(dst_width as int, before.height as int, 0, row as int);
        }
        let row_start: usize = row * dst_width;
        let odd_row: bool = row % 2 == 1;
        let j: usize = (row % 16) / 2;
        let macroblock_start: usize = row - row % 16;
        let u_row: usize = macroblock_start.saturating_add(j);
        let v_row: usize = macroblock_start.saturating_add(8).saturating_add(j);

        let mut x: usize = rect.left;
        while x < col_end
            invariant
                aux.well_formed(),
                aux.y@.len() == luma_len,
                aux.u@.len() == u_len,
                aux_w == aux.width,
                aux_h == aux.height,
                chroma_h == aux.chroma_rows(),
                rect.left <= x,
                x <= col_end || x == rect.left,
                rect.left < rect.right,
                col_end == least(rect.right as int, aux_w as int),
                before.well_formed(),
                before.width == dst_width,
                before.u.len() == plane_len,
                painted == before.aux_painted(*aux, rect, ChromaLayout::V1),
                rect.right <= before.width,
                rect.top <= row < rect.bottom <= before.height,
                row_start == row * dst_width,
                row_start + dst_width <= plane_len,
                odd_row == (row % 2 == 1),
                j == (row % 16) / 2,
                u_row == least(16 * (row as int / 16) + j, usize::MAX as int),
                v_row == least(16 * (row as int / 16) + 8 + j, usize::MAX as int),
                dst@.well_formed(),
                dst.width == dst_width,
                dst.height == before.height,
                dst.y@ == before.y,
                forall|i: int|
                    0 <= i < row_start ==> dst.u@[i] == painted.u[i] && dst.v@[i]
                        == painted.v[i],
                forall|i: int|
                    row_start + rect.left <= i < row_start + x ==> dst.u@[i] == painted.u[i]
                        && dst.v@[i] == painted.v[i],
                forall|i: int|
                    row_start <= i < row_start + rect.left || row_start + x <= i < plane_len
                        ==> dst.u@[i] == before.u[i] && dst.v@[i] == before.v[i],
            decreases col_end - x,
        {
            proof {
                crate::row_major::lemma_index_of(dst_width as int, before.height as int, x as int, row as int);
            }
            let at: usize = row_start + x;
            if odd_row {
                if u_row < aux_h {
                    proof {
                        crate::decode::lemma_plane_index(
                            luma_len as int,
                            aux.y_stride as int,
                            aux_w as int,
                            aux_h as int,
                            x as int,
                            u_row as int,
                        );
                    }
                    dst.u[at] = aux.y[u_row * aux.y_stride + x];
                }
                if v_row < aux_h {
                    proof {
                        crate::decode::lemma_plane_index(
                            luma_len as int,
                            aux.y_stride as int,
                            aux_w as int,
                            aux_h as int,
                            x as int,
                            v_row as int,
                        );
                    }
                    dst.v[at] = aux.y[v_row * aux.y_stride + x];
                }
            } else if x % 2 == 1 && row / 2 < chroma_h {
                proof {
                    crate::decode::lemma_plane_index(
                        u_len as int,
                        aux.chroma_stride as int,
                        aux.chroma_columns(),
                        aux.chroma_rows(),
                        x as int / 2,
                        row as int / 2,
                    );
                    crate::decode::lemma_plane_index(
                        aux.v@.len() as int,
                        aux.chroma_stride as int,
                        aux.chroma_columns(),
                        aux.chroma_rows(),
                        x as int / 2,
                        row as int / 2,
                    );
                }
                let from: usize = (row / 2) * aux.chroma_stride + x / 2;
                dst.u[at] = aux.u[from];
                dst.v[at] = aux.v[from];
            }
            x += 1;
        }
        proof {
            assert forall|i: int| row_start <= i < row_start + dst_width implies dst.u@[i]
                == painted.u[i] && dst.v@[i] == painted.v[i] by {
                crate::row_major::lemma_row_of(dst_width as int, i, row as int);
            }
            assert((row + 1) * dst_width == row_start + dst_width) by (nonlinear_arith)
                requires
                    row_start == row * dst_width,
            ;
        }
        row += 1;
    }
    assert(dst@ =~= painted);
}

/// MS-RDPEGFX 3.3.8.3.3, whole frame, `W`/`H` = the aux frame's own
/// dimensions. Odd destination columns `2x+1` (any row) come from the aux
/// `Y` plane (`U` at column `x`, `V` at column `W/2+x`). Even columns on odd
/// destination rows `2y+1` come from the aux chroma planes: `4x`/`4x+2` from
/// `Uaux`/`Vaux` respectively, `V` at the `W/4+x` offset within the same
/// plane.
fn apply_aux_view_v2(dst: &mut Yuv444Planes, aux: &Yuv420View<'_>, rect: PlaneRect)
    requires
        old(dst)@.well_formed(),
        aux.well_formed(),
        rect.left < rect.right <= old(dst)@.width,
        rect.top < rect.bottom <= old(dst)@.height,
    ensures
        final(dst)@ == old(dst)@.aux_painted(*aux, rect, ChromaLayout::V2),
        final(dst)@.well_formed(),
{
    let ghost before = dst@;
    let ghost painted = dst@.aux_painted(*aux, rect, ChromaLayout::V2);
    let dst_width: usize = dst.width;
    let plane_len: usize = dst.u.len();
    let luma_len: usize = aux.y.len();
    let u_len: usize = aux.u.len();
    let v_len: usize = aux.v.len();
    let aux_w: usize = aux.width as usize;
    let aux_h: usize = aux.height as usize;
    let chroma_h: usize = aux.chroma_height();
    let half_w: usize = aux_w / 2;
    let quarter_w: usize = aux_w / 4;
    proof {
        before.lemma_aux_painted_outside_rows(*aux, rect, ChromaLayout::V2);
        assert(0 <= rect.top * dst_width) by (nonlinear_arith);
    }

    let mut row: usize = rect.top;
    while row < rect.bottom
        invariant
            aux.well_formed(),
            aux.y@.len() == luma_len,
            aux.u@.len() == u_len,
            aux.v@.len() == v_len,
            aux_w == aux.width,
            aux_h == aux.height,
            chroma_h == aux.chroma_rows(),
            half_w == aux_w / 2,
            quarter_w == aux_w / 4,
            before.well_formed(),
            before.width == dst_width,
            before.u.len() == plane_len,
            painted == before.aux_painted(*aux, rect, ChromaLayout::V2),
            rect.left < rect.right <= before.width,
            rect.top <= row <= rect.bottom <= before.height,
            dst@.well_formed(),
            dst.width == dst_width,
            dst.height == before.height,
            dst.y@ == before.y,
            forall|i: int|
                0 <= i < row * dst_width ==> dst.u@[i] == painted.u[i] && dst.v@[i]
                    == painted.v[i],
            forall|i: int|
                row * dst_width <= i < plane_len ==> dst.u@[i] == before.u[i] && dst.v@[i]
                    == before.v[i],
        decreases rect.bottom - row,
    {
        proof {
            crate::row_major::lemma_index_of(dst_width as int, before.height as int, 0, row as int);
        }
        let row_start: usize = row * dst_width;
        let luma_in_range: bool = row < aux_h;
        let chroma_in_range: bool = row % 2 == 1 && row / 2 < chroma_h;

        let mut x: usize = rect.left;
        while x < rect.right
            invariant
                aux.well_formed(),
                aux.y@.len() == luma_len,
                aux.u@.len() == u_len,
                aux.v@.len() == v_len,
                aux_w == aux.width,
                aux_h == aux.height,
                chroma_h == aux.chroma_rows(),
                half_w == aux_w / 2,
                quarter_w == aux_w / 4,
                rect.left <= x <= rect.right <= before.width,
                before.well_formed(),
                before.width == dst_width,
                before.u.len() == plane_len,
                painted == before.aux_painted(*aux, rect, ChromaLayout::V2),
                rect.top <= row < rect.bottom <= before.height,
                row_start == row * dst_width,
                row_start + dst_width <= plane_len,
                luma_in_range == (row < aux_h),
                chroma_in_range == (row % 2 == 1 && row / 2 < chroma_h),
                dst@.well_formed(),
                dst.width == dst_width,
                dst.height == before.height,
                dst.y@ == before.y,
                forall|i: int|
                    0 <= i < row_start ==> dst.u@[i] == painted.u[i] && dst.v@[i]
                        == painted.v[i],
                forall|i: int|
                    row_start + rect.left <= i < row_start + x ==> dst.u@[i] == painted.u[i]
                        && dst.v@[i] == painted.v[i],
                forall|i: int|
                    row_start <= i < row_start + rect.left || row_start + x <= i < plane_len
                        ==> dst.u@[i] == before.u[i] && dst.v@[i] == before.v[i],
            decreases rect.right - x,
        {
            proof {
                crate::row_major::lemma_index_of(dst_width as int, before.height as int, x as int, row as int);
            }
            let at: usize = row_start + x;
            if x % 2 == 1 {
                let gx: usize = x / 2;
                if luma_in_range && gx < half_w {
                    proof {
                        crate::decode::lemma_plane_index(
                            luma_len as int,
                            aux.y_stride as int,
                            aux_w as int,
                            aux_h as int,
                            half_w + gx,
                            row as int,
                        );
                    }
                    let from: usize = row * aux.y_stride + gx;
                    dst.u[at] = aux.y[from];
                    dst.v[at] = aux.y[from + half_w];
                }
            } else if chroma_in_range {
                let gx: usize = x / 4;
                if gx < quarter_w {
                    proof {
                        crate::decode::lemma_plane_index(
                            u_len as int,
                            aux.chroma_stride as int,
                            aux.chroma_columns(),
                            aux.chroma_rows(),
                            quarter_w + gx,
                            row as int / 2,
                        );
                        crate::decode::lemma_plane_index(
                            v_len as int,
                            aux.chroma_stride as int,
                            aux.chroma_columns(),
                            aux.chroma_rows(),
                            quarter_w + gx,
                            row as int / 2,
                        );
                    }
                    let from: usize = (row / 2) * aux.chroma_stride + gx;
                    if x % 4 == 0 {
                        dst.u[at] = aux.u[from];
                        dst.v[at] = aux.u[from + quarter_w];
                    } else {
                        dst.u[at] = aux.v[from];
                        dst.v[at] = aux.v[from + quarter_w];
                    }
                }
            }
            x += 1;
        }
        proof {
            assert forall|i: int| row_start <= i < row_start + dst_width implies dst.u@[i]
                == painted.u[i] && dst.v@[i] == painted.v[i] by {
                crate::row_major::lemma_row_of(dst_width as int, i, row as int);
            }
            assert((row + 1) * dst_width == row_start + dst_width) by (nonlinear_arith)
                requires
                    row_start == row * dst_width,
            ;
        }
        row += 1;
    }
    assert(dst@ =~= painted);
}

// ---------------------------------------------------------------------------
// Colour conversion of a rect
// ---------------------------------------------------------------------------

/// The index of column `x` of row `y`, or `None` if it does not fit in `usize`.
fn checked_index(width: usize, x: usize, y: usize) -> (index: Option<usize>)
    ensures
        index == (if y * width + x <= usize::MAX {
            Some((y * width + x) as usize)
        } else {
            None::<usize>
        }),
{
    match y.checked_mul(width) {
        Some(row_start) => row_start.checked_add(x),
        None => None,
    }
}

/// The sample in column `x` of row `y` of a `width`-wide plane, or `None` if its
/// index lies past the plane's end.
pub(crate) fn get_pixel(plane: &[u8], width: usize, x: usize, y: usize) -> (sample: Option<u8>)
    ensures
        sample == (if y * width + x < plane@.len() {
            Some(plane@[y * width + x])
        } else {
            None::<u8>
        }),
{
    let len: usize = plane.len();
    match checked_index(width, x, y) {
        Some(index) => if index < len {
            Some(plane[index])
        } else {
            None
        },
        None => None,
    }
}

/// The chroma that conversion uses for one sample of `plane` at `(x, y)`.
fn reconstructed_sample(src: &Yuv444Planes, plane: &Vec<u8>, x: usize, y: usize) -> (sample: u8)
    requires
        src@.well_formed(),
        plane@.len() == src@.width * src@.height,
        y * src@.width + x < plane@.len(),
    ensures
        sample == src@.reconstructed(plane@, x as int, y as int),
{
    let len: usize = plane.len();
    let width: usize = src.width;
    let height: usize = src.height;
    proof {
        assert(0 <= y * width) by (nonlinear_arith);
        assert(y < height) by (nonlinear_arith)
            requires
                y * width < width * height,
        ;
    }
    let at: usize = y * width + x;
    let filtered: u8 = plane[at];
    if x % 2 == 1 || y % 2 == 1 || x + 1 >= width || y + 1 >= height {
        return filtered;
    }
    proof {
        crate::row_major::lemma_index_of(width as int, height as int, x + 1, y as int);
        crate::row_major::lemma_index_of(width as int, height as int, x + 1, y + 1);
    }
    color::reverse_filter(filtered, plane[at + 1], plane[at + width], plane[at + width + 1])
}

/// The chroma that [`convert_rect_to_rgba`] uses at one position: the
/// reverse-filtered value at an even position whose full 2x2 block is inside
/// the plane, the raw sample everywhere else, and neutral chroma where the
/// planes have no sample.
pub fn reconstructed_chroma(src: &Yuv444Planes, x: usize, y: usize) -> (chroma: (u8, u8))
    requires
        src@.well_formed(),
    ensures
        chroma == (if y * src@.width + x < src@.width * src@.height {
            (
                src@.reconstructed(src@.u, x as int, y as int),
                src@.reconstructed(src@.v, x as int, y as int),
            )
        } else {
            (128u8, 128u8)
        }),
{
    if get_pixel(src.u(), src.width, x, y).is_none() {
        return (128, 128);
    }
    (reconstructed_sample(src, &src.u, x, y), reconstructed_sample(src, &src.v, x, y))
}

/// Clip `rect` to `src`, refill `out` with `width*height*4` RGBA (alpha
/// `0xFF`) and return the clipped rect.
///
/// Even positions whose full 2x2 block lies in the plane convert with the
/// reverse-filtered chroma, all others with the chroma stored there. `out` is
/// left empty where `width*height*4` does not fit in `usize`.
pub fn convert_rect_to_rgba(src: &Yuv444Planes, rect: PlaneRect, out: &mut Vec<u8>) -> (clipped:
    PlaneRect)
    requires
        src@.well_formed(),
    ensures
        clipped.left == least(rect.left as int, src@.width as int),
        clipped.top == least(rect.top as int, src@.height as int),
        clipped.right == least(rect.right as int, src@.width as int),
        clipped.bottom == least(rect.bottom as int, src@.height as int),
        forall|x: int, y: int| #[trigger]
            clipped.covers(x, y) <==> rect.covers(x, y) && x < src@.width && y < src@.height,
        ({
            let w = greatest(clipped.right - clipped.left, 0);
            let h = greatest(clipped.bottom - clipped.top, 0);
            final(out)@ == (if w * h * 4 <= usize::MAX {
                src@.rgba(clipped.left as int, clipped.top as int, w, h)
            } else {
                Seq::empty()
            })
        }),
{
    let clipped: PlaneRect = rect.clip(src.width, src.height);
    let w: usize = clipped.width();
    let h: usize = clipped.height();
    out.clear();
    let pixels: usize = match w.checked_mul(h) {
        Some(pixels) => pixels,
        None => {
            return clipped;
        },
    };
    if pixels.checked_mul(4).is_none() {
        return clipped;
    }
    let ghost rgba = src@.rgba(clipped.left as int, clipped.top as int, w as int, h as int);
    let plane_len: usize = src.y.len();
    proof {
        assert(rgba.len() == pixels * 4);
        assert(w * 0 == 0) by (nonlinear_arith);
        assert(0 * w == 0) by (nonlinear_arith);
    }

    let mut row: usize = 0;
    while row < h
        invariant
            src@.well_formed(),
            plane_len == src@.y.len(),
            w == greatest(clipped.right - clipped.left, 0),
            h == greatest(clipped.bottom - clipped.top, 0),
            clipped.right <= src@.width,
            clipped.bottom <= src@.height,
            row <= h,
            w * h * 4 <= usize::MAX,
            rgba == src@.rgba(clipped.left as int, clipped.top as int, w as int, h as int),
            out@.len() == row * w * 4,
            forall|i: int| 0 <= i < out@.len() ==> out@[i] == rgba[i],
        decreases h - row,
    {
        let y: usize = clipped.top + row;
        let mut column: usize = 0;
        while column < w
            invariant
                src@.well_formed(),
                plane_len == src@.y.len(),
                w == greatest(clipped.right - clipped.left, 0),
                h == greatest(clipped.bottom - clipped.top, 0),
                clipped.right <= src@.width,
                clipped.bottom <= src@.height,
                row < h,
                column <= w,
                y == clipped.top + row,
                w * h * 4 <= usize::MAX,
                rgba == src@.rgba(clipped.left as int, clipped.top as int, w as int, h as int),
                out@.len() == (row * w + column) * 4,
                forall|i: int| 0 <= i < out@.len() ==> out@[i] == rgba[i],
            decreases w - column,
        {
            let x: usize = clipped.left + column;
            proof {
                crate::row_major::lemma_index_of(src@.width as int, src@.height as int, x as int, y as int);
                crate::row_major::lemma_index_of(w as int, h as int, column as int, row as int);
            }
            let luma: u8 = src.y[y * src.width + x];
            let u: u8 = reconstructed_sample(src, &src.u, x, y);
            let v: u8 = reconstructed_sample(src, &src.v, x, y);
            let rgb: [u8; 3] = color::yuv_to_rgb(luma, u, v);
            let ghost n = row * w + column;
            assert(rgb@[0] == color::red(luma, v));
            assert(rgb@[1] == color::green(luma, u, v));
            assert(rgb@[2] == color::blue(luma, u));
            proof {
                assert forall|k: int| 0 <= k < 4 implies #[trigger] rgba[n * 4 + k]
                    == src@.channel(x as int, y as int, k) by {
                    assert((n * 4 + k) / 4 == n);
                    assert((n * 4 + k) % 4 == k);
                    assert(0 <= n * 4 + k < rgba.len());
                }
            }
            let ghost start = out@;
            out.push(rgb[0]);
            out.push(rgb[1]);
            out.push(rgb[2]);
            out.push(0xFF);
            proof {
                assert(out@ =~= start + seq![rgb@[0], rgb@[1], rgb@[2], 0xFFu8]);
                assert(rgba[n * 4 + 0] == rgb@[0]);
                assert(rgba[n * 4 + 1] == rgb@[1]);
                assert(rgba[n * 4 + 2] == rgb@[2]);
                assert(rgba[n * 4 + 3] == 0xFF);
            }
            column += 1;
        }
        assert((row + 1) * w == row * w + w) by (nonlinear_arith);
        row += 1;
    }
    assert(h * w == w * h) by (nonlinear_arith);
    assert(out@ =~= rgba);
    clipped
}

} // verus!
