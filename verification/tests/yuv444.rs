//! 4:4:4 pictures put together from two 4:2:0 pictures, and their colours.
use rdp_client_core::decode::Yuv420View;
use rdp_client_core::geometry::{ExclusiveRectangle, InclusiveRectangle};
use rdp_client_core::yuv444::{
    apply_aux_view, apply_main_view, color, convert_rect_to_rgba, reconstructed_chroma, split,
    ChromaLayout, PlaneRect, Yuv444Planes,
};

fn lcg_next(state: &mut u64) -> u64 {
    *state = state
        .wrapping_mul(6_364_136_223_846_793_005)
        .wrapping_add(1_442_695_040_888_963_407);
    *state
}

/// Two-level (40/200) pseudo-random chroma over a `((x+y)*2) & 0xFF`
/// luma gradient.
fn two_level_source(width: usize, height: usize, seed: u64) -> Yuv444Planes {
    let mut planes_y = vec![0; width * height];
    let mut planes_u = vec![128; width * height];
    let mut planes_v = vec![128; width * height];
    let mut state = seed;
    for y in 0..height {
        for x in 0..width {
            let idx = y * width + x;
            planes_y[idx] = u8::try_from(((x + y) * 2) & 0xFF).unwrap_or(0);
            planes_u[idx] = if lcg_next(&mut state) & 1 == 0 { 40 } else { 200 };
            planes_v[idx] = if lcg_next(&mut state) & 1 == 0 { 40 } else { 200 };
        }
    }
    Yuv444Planes::from_planes(width, height, planes_y, planes_u, planes_v)
}

fn gradient_source(width: usize, height: usize) -> Yuv444Planes {
    let mut planes_y = vec![0; width * height];
    let mut planes_u = vec![128; width * height];
    let mut planes_v = vec![128; width * height];
    for y in 0..height {
        for x in 0..width {
            let idx = y * width + x;
            planes_y[idx] = u8::try_from(((x + y) * 2) & 0xFF).unwrap_or(0);
            planes_u[idx] = u8::try_from((x * 4) & 0xFF).unwrap_or(0);
            planes_v[idx] = u8::try_from((y * 4) & 0xFF).unwrap_or(0);
        }
    }
    Yuv444Planes::from_planes(width, height, planes_y, planes_u, planes_v)
}

fn checkerboard_source(width: usize, height: usize) -> Yuv444Planes {
    let mut planes_y = vec![0; width * height];
    let mut planes_u = vec![128; width * height];
    let mut planes_v = vec![128; width * height];
    for y in 0..height {
        for x in 0..width {
            let idx = y * width + x;
            planes_y[idx] = u8::try_from(((x + y) * 2) & 0xFF).unwrap_or(0);
            let level = if (x + y) % 2 == 0 { 40 } else { 200 };
            planes_u[idx] = level;
            planes_v[idx] = level;
        }
    }
    Yuv444Planes::from_planes(width, height, planes_y, planes_u, planes_v)
}

/// Planes with one luma value and one chroma value all over.
fn filled(width: usize, height: usize, luma: u8, chroma: u8) -> Yuv444Planes {
    let len = width * height;
    Yuv444Planes::from_planes(width, height, vec![luma; len], vec![chroma; len], vec![chroma; len])
}

fn full_rect(w: usize, h: usize) -> PlaneRect {
    PlaneRect {
        left: 0,
        top: 0,
        right: w,
        bottom: h,
    }
}

/// Reconstructs `dst` from `src` by splitting into main + aux (per
/// `layout`) and applying both views over the full frame.
fn round_trip(src: &Yuv444Planes, layout: ChromaLayout) -> Yuv444Planes {
    let main = split::main_view(src);
    let aux = split::aux_view(src, layout);

    let mut dst = Yuv444Planes::new(src.width(), src.height());
    apply_main_view(&mut dst, &main.view(), full_rect(src.width(), src.height()));
    apply_aux_view(&mut dst, &aux.view(), full_rect(src.width(), src.height()), layout);
    dst
}

fn direct_rgba(src: &Yuv444Planes) -> Vec<u8> {
    let mut out = Vec::with_capacity(src.width() * src.height() * 4);
    for y in 0..src.height() {
        for x in 0..src.width() {
            let idx = y * src.width() + x;
            let rgb = color::yuv_to_rgb(src.y()[idx], src.u()[idx], src.v()[idx]);
            out.extend_from_slice(&[rgb[0], rgb[1], rgb[2], 0xFF]);
        }
    }
    out
}

// -- 1. colour matrix --------------------------------------------------

#[test]
fn color_matrix_matches_ms_rdpegfx_3_3_8_3_1() {
    assert_eq!(color::yuv_to_rgb(128, 128, 255), [255, 68, 128]);
    assert_eq!(color::yuv_to_rgb(0, 128, 128), [0, 0, 0]);
    assert_eq!(color::yuv_to_rgb(255, 128, 128), [255, 255, 255]);
    // Negative shift behaviour: G with U > 128 must move negative before
    // clamping, not wrap.
    let [_, g, _] = color::yuv_to_rgb(0, 255, 128);
    assert_eq!(g, 0);
}

#[test]
fn forward_and_reverse_transform_round_trip_primaries_and_greys_within_3() {
    // The MS-RDPEGFX forward coefficients (54 + 183 + 18 = 255, not 256) do not
    // exactly invert the reverse matrix at full saturation; a pure red primary
    // measures 3 off (252 vs 255) here. Everything else is within 2.
    const TOLERANCE: u32 = 3;
    let samples = [
        (0, 0, 0),
        (255, 255, 255),
        (128, 128, 128),
        (255, 0, 0),
        (0, 255, 0),
        (0, 0, 255),
        (64, 200, 32),
    ];
    for (r, g, b) in samples {
        let [y, u, v] = color::rgb_to_yuv(r, g, b);
        let [rr, rg, rb] = color::yuv_to_rgb(y, u, v);
        assert!(i32::from(rr).abs_diff(i32::from(r)) <= TOLERANCE, "r: {rr} vs {r}");
        assert!(i32::from(rg).abs_diff(i32::from(g)) <= TOLERANCE, "g: {rg} vs {g}");
        assert!(i32::from(rb).abs_diff(i32::from(b)) <= TOLERANCE, "b: {rb} vs {b}");
    }
}

// -- 2. reverse filter ---------------------------------------------------

#[test]
fn reverse_filter_keeps_the_filtered_value_up_to_30_and_reverses_above() {
    // a=b=c=filtered: reversed == filtered, difference 0, keep Ũ.
    assert_eq!(color::reverse_filter(100, 100, 100, 100), 100);

    // Construct a block whose reversed value differs from filtered by
    // exactly 30 (boundary, kept) and by 31 (reversed, over threshold).
    // filtered = (a0 + a + b + c) / 4 with a=b=c=0, a0=120 -> filtered=30,
    // reversed = 4*30 - 0 - 0 - 0 = 120, |120-30| = 90 > 30 -> reversed.
    assert_eq!(color::reverse_filter(30, 0, 0, 0), 120);

    // filtered=10, a=b=c=10 -> reversed=10, diff=0 -> keep.
    assert_eq!(color::reverse_filter(10, 10, 10, 10), 10);

    // Clamping of an out-of-range reversed value.
    assert_eq!(color::reverse_filter(250, 0, 0, 0), 255);
    assert_eq!(color::reverse_filter(5, 255, 255, 255), 0);
}

// -- 3. two-level chroma round trip --------------------------------------

fn two_level_round_trips_exactly(layout: ChromaLayout, width: usize, height: usize) {
    let src = two_level_source(width, height, 0x1234_5678_9abc_def0);
    let dst = round_trip(&src, layout);

    let mut out = Vec::new();
    let clipped = convert_rect_to_rgba(&dst, full_rect(width, height), &mut out);
    assert_eq!(clipped, full_rect(width, height));
    assert_eq!(out, direct_rgba(&src));

    for y in 0..height {
        for x in 0..width {
            if x % 2 != 0 || y % 2 != 0 {
                let idx = y * width + x;
                assert_eq!(dst.u()[idx], src.u()[idx], "u mismatch at ({x},{y})");
                assert_eq!(dst.v()[idx], src.v()[idx], "v mismatch at ({x},{y})");
            }
        }
    }
}

#[test]
fn two_level_chroma_image_round_trips_exactly_v1() {
    two_level_round_trips_exactly(ChromaLayout::V1, 48, 32);
    two_level_round_trips_exactly(ChromaLayout::V1, 64, 64);
}

#[test]
fn two_level_chroma_image_round_trips_exactly_v2() {
    two_level_round_trips_exactly(ChromaLayout::V2, 48, 32);
    two_level_round_trips_exactly(ChromaLayout::V2, 64, 64);
}

// -- 4. gradient round trip ----------------------------------------------

fn gradient_round_trips(layout: ChromaLayout) {
    let width = 64;
    let height = 32;
    let src = gradient_source(width, height);
    let dst = round_trip(&src, layout);

    for y in 0..height {
        for x in 0..width {
            let (u, v) = reconstructed_chroma(&dst, x, y);
            let src_idx = y * width + x;
            if x % 2 == 0 && y % 2 == 0 {
                assert!(
                    i32::from(u).abs_diff(i32::from(src.u()[src_idx])) <= 3,
                    "u at ({x},{y})"
                );
                assert!(
                    i32::from(v).abs_diff(i32::from(src.v()[src_idx])) <= 3,
                    "v at ({x},{y})"
                );
            } else {
                assert_eq!(u, src.u()[src_idx], "u exact at ({x},{y})");
                assert_eq!(v, src.v()[src_idx], "v exact at ({x},{y})");
            }
        }
    }
}

#[test]
fn gradient_round_trip_is_exact_off_the_even_grid_and_within_3_on_it_v1() {
    gradient_round_trips(ChromaLayout::V1);
}

#[test]
fn gradient_round_trip_is_exact_off_the_even_grid_and_within_3_on_it_v2() {
    gradient_round_trips(ChromaLayout::V2);
}

// -- 5. checkerboard round trip -------------------------------------------

fn checkerboard_round_trips_exactly(layout: ChromaLayout) {
    let width = 48;
    let height = 32;
    let src = checkerboard_source(width, height);
    let dst = round_trip(&src, layout);

    let mut out = Vec::new();
    convert_rect_to_rgba(&dst, full_rect(width, height), &mut out);
    assert_eq!(out, direct_rgba(&src));
}

#[test]
fn checkerboard_1px_chroma_round_trips_exactly_v1() {
    checkerboard_round_trips_exactly(ChromaLayout::V1);
}

#[test]
fn checkerboard_1px_chroma_round_trips_exactly_v2() {
    checkerboard_round_trips_exactly(ChromaLayout::V2);
}

// -- 6. replication makes the reverse filter the identity ----------------

#[test]
fn main_view_replication_makes_the_reverse_filter_the_identity() {
    let width = 16;
    let height = 16;
    let src = gradient_source(width, height);
    let main = split::main_view(&src);

    let mut dst = Yuv444Planes::new(width, height);
    apply_main_view(&mut dst, &main.view(), full_rect(width, height));

    let mut out = Vec::new();
    convert_rect_to_rgba(&dst, full_rect(width, height), &mut out);

    // Plain 4:2:0 upsample: every pixel in a 2x2 block uses that block's Ũ/Ṽ.
    let mut expected = Vec::with_capacity(width * height * 4);
    for y in 0..height {
        for x in 0..width {
            let idx = (y / 2 * (width / 2)) + x / 2;
            let rgb = color::yuv_to_rgb(src.y()[y * width + x], main.u[idx], main.v[idx]);
            expected.extend_from_slice(&[rgb[0], rgb[1], rgb[2], 0xFF]);
        }
    }
    assert_eq!(out, expected);
}

// -- 7. aux reads never go past the actually decoded aux geometry --------

#[test]
fn v1_aux_rows_beyond_the_decoded_height_are_never_read() {
    let width = 32;
    let height = 40;
    let aux_height = 40;

    let sentinel = 7u8;
    let mut dst = filled(width, height, 0, sentinel);

    let aux_y = vec![9u8; width * aux_height];
    let chroma_w = width.div_ceil(2);
    let chroma_h = aux_height.div_ceil(2);
    let aux_u = vec![11u8; chroma_w * chroma_h];
    let aux_v = vec![13u8; chroma_w * chroma_h];
    let aux = Yuv420View {
        width: u32::try_from(width).unwrap(),
        height: u32::try_from(aux_height).unwrap(),
        y: &aux_y,
        y_stride: width,
        u: &aux_u,
        v: &aux_v,
        chroma_stride: chroma_w,
    };

    apply_aux_view(&mut dst, &aux, full_rect(width, height), ChromaLayout::V1);

    // Macroblock row 2 covers dst rows 32..47; only 32..39 exist.
    // row_v for r in {33,35,37,39} is 16*2+8+j = 40..43, all >= aux_height.
    for r in [33, 35, 37, 39] {
        for x in 0..width {
            assert_eq!(
                dst.v()[r * width + x],
                sentinel,
                "v at row {r} col {x} must be untouched"
            );
        }
    }
    // row_u for the same rows is 32..35, all < aux_height: those ARE read.
    for r in [33, 35, 37, 39] {
        for x in 0..width {
            assert_eq!(dst.u()[r * width + x], 9, "u at row {r} col {x} must be read");
        }
    }

    // Aux narrower than dst: columns beyond aux width stay untouched.
    let narrow_width = 24;
    let mut dst2 = filled(width, height, 0, sentinel);
    let narrow_y = vec![9u8; narrow_width * height];
    let narrow_chroma_w = narrow_width.div_ceil(2);
    let narrow_chroma_h = height.div_ceil(2);
    let narrow_u = vec![11u8; narrow_chroma_w * narrow_chroma_h];
    let narrow_v = vec![13u8; narrow_chroma_w * narrow_chroma_h];
    let aux2 = Yuv420View {
        width: u32::try_from(narrow_width).unwrap(),
        height: u32::try_from(height).unwrap(),
        y: &narrow_y,
        y_stride: narrow_width,
        u: &narrow_u,
        v: &narrow_v,
        chroma_stride: narrow_chroma_w,
    };
    apply_aux_view(&mut dst2, &aux2, full_rect(width, height), ChromaLayout::V1);
    for r in 0..height {
        for x in narrow_width..width {
            assert_eq!(dst2.u()[r * width + x], sentinel, "u beyond aux width at ({x},{r})");
            assert_eq!(dst2.v()[r * width + x], sentinel, "v beyond aux width at ({x},{r})");
        }
    }
}

// -- 8. touches nothing outside the rect ----------------------------------

#[test]
fn apply_touches_nothing_outside_the_even_expanded_rect() {
    let width = 32;
    let height = 32;
    let sentinel = 42u8;
    let mut dst = filled(width, height, sentinel, sentinel);

    let main = split::main_view(&gradient_source(width, height));
    let rect = PlaneRect {
        left: 5,
        top: 5,
        right: 11,
        bottom: 11,
    };
    apply_main_view(&mut dst, &main.view(), rect);

    // Expanded to even boundaries: [4,12) x [4,12).
    let expanded = PlaneRect {
        left: 4,
        top: 4,
        right: 12,
        bottom: 12,
    };
    for y in 0..height {
        for x in 0..width {
            let inside = x >= expanded.left && x < expanded.right && y >= expanded.top && y < expanded.bottom;
            if !inside {
                let idx = y * width + x;
                assert_eq!(dst.y()[idx], sentinel, "y outside rect at ({x},{y})");
                assert_eq!(dst.u()[idx], sentinel, "u outside rect at ({x},{y})");
            }
        }
    }
}

#[test]
fn apply_touches_nothing_outside_the_rect_aux() {
    let width = 32;
    let height = 32;
    let sentinel = 42u8;
    let mut dst = filled(width, height, 0, sentinel);

    let src = two_level_source(width, height, 7);
    let aux = split::aux_view(&src, ChromaLayout::V2);
    let rect = PlaneRect {
        left: 5,
        top: 5,
        right: 11,
        bottom: 11,
    };
    apply_aux_view(&mut dst, &aux.view(), rect, ChromaLayout::V2);

    for y in 0..height {
        for x in 0..width {
            let inside = x >= rect.left && x < rect.right && y >= rect.top && y < rect.bottom;
            if !inside {
                let idx = y * width + x;
                assert_eq!(dst.u()[idx], sentinel, "u outside rect at ({x},{y})");
                assert_eq!(dst.v()[idx], sentinel, "v outside rect at ({x},{y})");
            }
        }
    }
}

// -- 9. convert_rect_to_rgba length / clipping ----------------------------

#[test]
fn convert_returns_the_clipped_rect_and_the_exact_length() {
    let planes = Yuv444Planes::new(10, 10);
    let mut out = Vec::new();

    let clipped = convert_rect_to_rgba(&planes, full_rect(20, 20), &mut out);
    assert_eq!(clipped, full_rect(10, 10));
    assert_eq!(out.len(), 10 * 10 * 4);

    let empty = PlaneRect {
        left: 5,
        top: 5,
        right: 5,
        bottom: 8,
    };
    let clipped_empty = convert_rect_to_rgba(&planes, empty, &mut out);
    assert!(clipped_empty.is_empty());
    assert!(out.is_empty());

    let inverted = PlaneRect {
        left: 8,
        top: 8,
        right: 2,
        bottom: 2,
    };
    let clipped_inverted = convert_rect_to_rgba(&planes, inverted, &mut out);
    assert!(clipped_inverted.is_empty());
    assert!(out.is_empty());
}

// -- 10. ill-formed view is ignored ---------------------------------------

#[test]
fn an_ill_formed_view_is_ignored() {
    let width = 16;
    let height = 16;
    let sentinel = 5u8;
    let mut dst = filled(width, height, sentinel, sentinel);

    let short_y = [0u8; 4]; // too short for a 16x16 frame.
    let short_u = [0u8; 4];
    let short_v = [0u8; 4];
    let bad_main = Yuv420View {
        width: 16,
        height: 16,
        y: &short_y,
        y_stride: 16,
        u: &short_u,
        v: &short_v,
        chroma_stride: 8,
    };
    apply_main_view(&mut dst, &bad_main, full_rect(width, height));
    assert!(dst.y().iter().all(|&b| b == sentinel));
    assert!(dst.u().iter().all(|&b| b == sentinel));

    apply_aux_view(&mut dst, &bad_main, full_rect(width, height), ChromaLayout::V1);
    assert!(dst.u().iter().all(|&b| b == sentinel));
    assert!(dst.v().iter().all(|&b| b == sentinel));
}

// -- PlaneRect / Yuv444Planes basics ---------------------------------------

#[test]
fn plane_rect_from_exclusive_and_inclusive_rectangles() {
    let excl = ExclusiveRectangle {
        left: 1,
        top: 2,
        right: 10,
        bottom: 20,
    };
    let from_excl = PlaneRect::from(&excl);
    assert_eq!(
        from_excl,
        PlaneRect {
            left: 1,
            top: 2,
            right: 10,
            bottom: 20
        }
    );

    let incl = InclusiveRectangle {
        left: 1,
        top: 2,
        right: 9,
        bottom: 19,
    };
    let from_incl = PlaneRect::from(&incl);
    assert_eq!(
        from_incl,
        PlaneRect {
            left: 1,
            top: 2,
            right: 10,
            bottom: 20
        }
    );
}

#[test]
fn resize_if_needed_resets_to_defaults_only_on_a_dimension_change() {
    let mut luma = vec![0; 16];
    luma[0] = 200;
    let mut planes = Yuv444Planes::from_planes(4, 4, luma, vec![128; 16], vec![128; 16]);
    assert!(!planes.resize_if_needed(4, 4));
    assert_eq!(planes.y()[0], 200);

    assert!(planes.resize_if_needed(8, 4));
    assert_eq!(planes.y()[0], 0);
    assert_eq!(planes.u()[0], 128);
    assert_eq!(planes.width(), 8);
}

#[test]
fn overflowing_dimensions_yield_empty_planes() {
    let planes = Yuv444Planes::new(usize::MAX, 2);
    assert_eq!(planes.width(), 0);
    assert_eq!(planes.height(), 0);
    assert!(planes.y().is_empty());
    assert!(planes.u().is_empty());
    assert!(planes.v().is_empty());
}

/// A last column without a partner takes luma and its block's chroma like any other.
#[test]
fn an_odd_last_column_is_painted() {
    let mut dst = Yuv444Planes::new(3, 2);
    let main = Yuv420View {
        width: 3,
        height: 2,
        y: &[1, 2, 3, 4, 5, 6],
        y_stride: 3,
        u: &[50, 60],
        v: &[70, 80],
        chroma_stride: 2,
    };
    apply_main_view(&mut dst, &main, PlaneRect { left: 0, top: 0, right: 3, bottom: 2 });
    assert_eq!(dst.y(), [1, 2, 3, 4, 5, 6]);
    assert_eq!(dst.u(), [50, 50, 60, 50, 50, 60]);
    assert_eq!(dst.v(), [70, 70, 80, 70, 70, 80]);
}

/// A last row without a partner does too.
#[test]
fn an_odd_last_row_is_painted() {
    let mut dst = Yuv444Planes::new(2, 3);
    let main = Yuv420View {
        width: 2,
        height: 3,
        y: &[1, 2, 3, 4, 5, 6],
        y_stride: 2,
        u: &[50, 60],
        v: &[70, 80],
        chroma_stride: 1,
    };
    apply_main_view(&mut dst, &main, PlaneRect { left: 0, top: 0, right: 2, bottom: 3 });
    assert_eq!(dst.y(), [1, 2, 3, 4, 5, 6]);
    assert_eq!(dst.u(), [50, 50, 50, 50, 60, 60]);
    assert_eq!(dst.v(), [70, 70, 70, 70, 80, 80]);
}

/// A view or a picture of one column or one row is left alone.
#[test]
fn a_single_column_is_not_painted() {
    let mut dst = Yuv444Planes::new(1, 2);
    let main = Yuv420View {
        width: 2,
        height: 2,
        y: &[1, 2, 3, 4],
        y_stride: 2,
        u: &[50],
        v: &[70],
        chroma_stride: 1,
    };
    apply_main_view(&mut dst, &main, PlaneRect { left: 0, top: 0, right: 1, bottom: 2 });
    assert_eq!(dst.y(), [0, 0]);
    assert_eq!(dst.u(), [128, 128]);
}
