//! Properties of 4:4:4 pictures over many sizes and rectangles, also tiny, empty and
//! inverted ones.
use rdp_client_core::yuv444::split::{self, OwnedYuv420};
use rdp_client_core::yuv444::{
    apply_aux_view, apply_main_view, convert_rect_to_rgba, ChromaLayout, PlaneRect, Yuv444Planes,
};

fn lcg_next(state: &mut u64) -> u64 {
    *state = state
        .wrapping_mul(6_364_136_223_846_793_005)
        .wrapping_add(1_442_695_040_888_963_407);
    *state
}

/// A deterministically-filled `OwnedYuv420` of the given dimensions. Every
/// sample avoids `0` and `128` so those values keep working as unambiguous
/// "untouched" sentinels (`Yuv444Planes::new`'s Y/U/V defaults) in the tests
/// below.
fn filled_yuv420(width: usize, height: usize, seed: u64) -> OwnedYuv420 {
    let chroma_w = width.div_ceil(2);
    let chroma_h = height.div_ceil(2);
    let mut state = seed;
    let mut fill = |len: usize| -> Vec<u8> {
        core::iter::repeat_with(|| {
            loop {
                let val = u8::try_from(lcg_next(&mut state) & 0xFF).unwrap();
                if val != 0 && val != 128 {
                    break val;
                }
            }
        })
        .take(len)
        .collect()
    };

    OwnedYuv420 {
        width: u32::try_from(width).unwrap(),
        height: u32::try_from(height).unwrap(),
        y: fill(width * height),
        u: fill(chroma_w * chroma_h),
        v: fill(chroma_w * chroma_h),
    }
}

fn full_rect(w: usize, h: usize) -> PlaneRect {
    PlaneRect {
        left: 0,
        top: 0,
        right: w,
        bottom: h,
    }
}

/// Mirrors `apply_main_view`'s own even-expansion of `rect`, bounded by
/// `min(dst, main)`. Returns an empty rect where `apply_main_view` would
/// have been a no-op (either dimension below 2).
fn expected_main_touched_rect(rect: PlaneRect, dst_w: usize, dst_h: usize, main_w: usize, main_h: usize) -> PlaneRect {
    let w = dst_w.min(main_w);
    let h = dst_h.min(main_h);
    if w < 2 || h < 2 {
        return PlaneRect::default();
    }
    PlaneRect {
        left: rect.left - rect.left % 2,
        top: rect.top - rect.top % 2,
        right: rect.right.checked_add(rect.right % 2).unwrap_or(w),
        bottom: rect.bottom.checked_add(rect.bottom % 2).unwrap_or(h),
    }
    .clip(w, h)
}

/// Draws sizes, edges and layouts, the same ones on every run.
struct Draw(u64);

impl Draw {
    fn upto(&mut self, low: usize, high: usize) -> usize {
        let drawn = usize::try_from(lcg_next(&mut self.0) >> 33).unwrap();
        low + drawn % (high - low + 1)
    }

    fn dim(&mut self) -> usize {
        self.upto(1, 33)
    }

    fn rect(&mut self) -> PlaneRect {
        PlaneRect {
            left: self.upto(0, 40),
            top: self.upto(0, 40),
            right: self.upto(0, 40),
            bottom: self.upto(0, 40),
        }
    }

    fn layout(&mut self) -> ChromaLayout {
        if self.upto(0, 1) == 0 {
            ChromaLayout::V1
        } else {
            ChromaLayout::V2
        }
    }
}

/// `apply_main_view`, `apply_aux_view` and `convert_rect_to_rgba` never panic.
#[test]
fn applying_and_converting_never_panics() {
    let mut draw = Draw(1);
    for _ in 0..200 {
        let (dst_w, dst_h) = (draw.dim(), draw.dim());
        let main = filled_yuv420(draw.dim(), draw.dim(), 1);
        let aux = filled_yuv420(draw.dim(), draw.dim(), 2);
        let mut dst = Yuv444Planes::new(dst_w, dst_h);
        let rect = draw.rect();

        apply_main_view(&mut dst, &main.view(), rect);
        apply_aux_view(&mut dst, &aux.view(), rect, draw.layout());

        let mut out = Vec::new();
        convert_rect_to_rgba(&dst, rect, &mut out);
    }
}

/// `convert_rect_to_rgba`'s output is always exactly `clipped.w * clipped.h * 4` bytes.
#[test]
fn convert_rect_to_rgba_output_length_matches_the_clipped_rect() {
    let mut draw = Draw(2);
    for _ in 0..200 {
        let dst = Yuv444Planes::new(draw.dim(), draw.dim());
        let rect = draw.rect();

        let mut out = Vec::new();
        let clipped = convert_rect_to_rgba(&dst, rect, &mut out);

        assert_eq!(out.len(), clipped.width() * clipped.height() * 4);
    }
}

/// `apply_main_view` never writes outside its even-expanded, clipped rectangle.
/// The defaults of `Yuv444Planes::new` (`Y = 0`, `U = V = 128`) work as sentinels because
/// `filled_yuv420` never produces those values.
#[test]
fn apply_main_view_never_touches_outside_the_expanded_rect() {
    let mut draw = Draw(3);
    for _ in 0..200 {
        let (dst_w, dst_h) = (draw.dim(), draw.dim());
        let (main_w, main_h) = (draw.dim(), draw.dim());
        let main = filled_yuv420(main_w, main_h, 3);
        let mut dst = Yuv444Planes::new(dst_w, dst_h);
        let rect = draw.rect();

        apply_main_view(&mut dst, &main.view(), rect);

        let touched = expected_main_touched_rect(rect, dst_w, dst_h, main_w, main_h);
        for y in 0..dst_h {
            for x in 0..dst_w {
                let inside = x >= touched.left && x < touched.right && y >= touched.top && y < touched.bottom;
                if !inside {
                    let idx = y * dst_w + x;
                    assert_eq!(dst.y()[idx], 0, "y outside rect at ({x}, {y})");
                    assert_eq!(dst.u()[idx], 128, "u outside rect at ({x}, {y})");
                    assert_eq!(dst.v()[idx], 128, "v outside rect at ({x}, {y})");
                }
            }
        }
    }
}

/// `apply_aux_view` never writes outside the rectangle clipped to the planes.
#[test]
fn apply_aux_view_never_touches_outside_the_rect() {
    let mut draw = Draw(4);
    for _ in 0..200 {
        let (dst_w, dst_h) = (draw.dim(), draw.dim());
        let aux = filled_yuv420(draw.dim(), draw.dim(), 4);
        let mut dst = Yuv444Planes::new(dst_w, dst_h);
        let rect = draw.rect();

        apply_aux_view(&mut dst, &aux.view(), rect, draw.layout());

        let touched = rect.clip(dst_w, dst_h);
        for y in 0..dst_h {
            for x in 0..dst_w {
                let inside = x >= touched.left && x < touched.right && y >= touched.top && y < touched.bottom;
                if !inside {
                    let idx = y * dst_w + x;
                    assert_eq!(dst.u()[idx], 128, "u outside rect at ({x}, {y})");
                    assert_eq!(dst.v()[idx], 128, "v outside rect at ({x}, {y})");
                }
            }
        }
    }
}

/// A picture that is split and put together again has its chroma back at every position
/// that an auxiliary view carries: samples are copied there, so nothing is rounded.
#[test]
fn split_and_apply_round_trip_is_exact_at_odd_positions() {
    let mut draw = Draw(5);
    for _ in 0..100 {
        let (src_w, src_h) = (draw.upto(2, 33), draw.upto(2, 33));
        let main0 = filled_yuv420(draw.dim(), draw.dim(), 5);
        let aux0 = filled_yuv420(draw.dim(), draw.dim(), 6);
        let layout = draw.layout();

        let mut src = Yuv444Planes::new(src_w, src_h);
        apply_main_view(&mut src, &main0.view(), full_rect(src_w, src_h));
        apply_aux_view(&mut src, &aux0.view(), full_rect(src_w, src_h), layout);

        let main1 = split::main_view(&src);
        let aux1 = split::aux_view(&src, layout);

        let mut dst = Yuv444Planes::new(src_w, src_h);
        apply_main_view(&mut dst, &main1.view(), full_rect(src_w, src_h));
        apply_aux_view(&mut dst, &aux1.view(), full_rect(src_w, src_h), layout);

        let min_w = dst.width().min(usize::try_from(aux1.width).unwrap());
        let min_h = dst.height().min(usize::try_from(aux1.height).unwrap());
        // V2 packs the detail of (even x, odd y) positions into groups of four columns, and
        // a width that is no multiple of four has a last group without it.
        let quarter_w = src_w / 4;
        for y in 0..min_h {
            for x in 0..min_w {
                let even_x_odd_y_is_aux_exact = match layout {
                    ChromaLayout::V1 => true,
                    ChromaLayout::V2 => {
                        let gx = if x % 4 == 0 { x / 4 } else { x.saturating_sub(2) / 4 };
                        gx < quarter_w
                    }
                };
                let checked = x % 2 == 1 || (y % 2 == 1 && even_x_odd_y_is_aux_exact);
                if checked {
                    let idx = y * src_w + x;
                    assert_eq!(dst.u()[idx], src.u()[idx], "u mismatch at ({x}, {y})");
                    assert_eq!(dst.v()[idx], src.v()[idx], "v mismatch at ({x}, {y})");
                }
            }
        }
    }
}
