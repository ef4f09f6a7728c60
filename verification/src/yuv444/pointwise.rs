//! What painting, splitting and converting give at each single position, said of the
//! planes' own bytes: the sample in column `x` of row `y` of a `w`-wide plane is the one
//! at `y * w + x`, and nothing else.
use vstd::prelude::*;

use super::split::OwnedYuv420;
use super::{ChromaLayout, Picture, PlaneRect};
use crate::decode::Yuv420View;
use crate::geometry::{ExclusiveRectangle, InclusiveRectangle};

verus! {

/// `byte` is `scaled` divided by 256, rounded down, or the end of the byte range that it
/// lies beyond.
pub open spec fn is_scaled_byte(byte: u8, scaled: int) -> bool {
    &&& byte > 0 ==> 256 * byte <= scaled
    &&& byte < 255 ==> scaled < 256 * byte + 256
}

/// The chroma that belongs to position `(x, y)` of a plane that holds the averages of its
/// 2x2 blocks at the even positions: an average gives way to the sample that it was made
/// of, together with its three neighbours, where the two lie more than thirty apart.
pub open spec fn true_chroma(plane: Seq<u8>, w: int, h: int, x: int, y: int) -> int {
    let stored = plane[y * w + x] as int;
    if x % 2 == 1 || y % 2 == 1 || x == w - 1 || y == h - 1 {
        stored
    } else {
        let undone = 4 * stored - plane[y * w + (x + 1)] - plane[(y + 1) * w + x] - plane[(y + 1)
            * w + (x + 1)];
        if -30 <= undone - stored <= 30 {
            stored
        } else if undone < 0 {
            0
        } else if undone > 255 {
            255
        } else {
            undone
        }
    }
}

/// Neutral chroma leaves grey: every colour is the luma itself. Red follows `V` and blue
/// follows `U`, upwards, and green both, downwards.
pub proof fn law_colours_follow_chroma(y: u8, u: u8, v: u8, more: u8)
    requires
        more >= 1,
    ensures
        super::color::red(y, 128) == y,
        super::color::green(y, 128, 128) == y,
        super::color::blue(y, 128) == y,
        is_scaled_byte(super::color::red(y, v), 256 * y + 403 * (v - 128)),
        is_scaled_byte(super::color::green(y, u, v), 256 * y - 48 * (u - 128) - 120 * (v - 128)),
        is_scaled_byte(super::color::blue(y, u), 256 * y + 475 * (u - 128)),
        v + more <= 255 ==> super::color::red(y, (v + more) as u8) >= super::color::red(y, v),
        v + more <= 255 ==> super::color::green(y, u, (v + more) as u8) <= super::color::green(
            y,
            u,
            v,
        ),
        u + more <= 255 ==> super::color::blue(y, (u + more) as u8) >= super::color::blue(y, u),
        u + more <= 255 ==> super::color::green(y, (u + more) as u8, v) <= super::color::green(
            y,
            u,
            v,
        ),
{
}

/// A grey has neutral chroma, or as near as rounding allows, and the forward transform
/// weighs the colours as the wire has it.
pub proof fn law_forward_transform_weighs(r: u8, g: u8, b: u8)
    ensures
        is_scaled_byte(super::color::luma(r, g, b), 54 * r + 183 * g + 18 * b),
        is_scaled_byte(
            super::color::chroma_u(r, g, b),
            256 * 128 - 29 * r - 99 * g + 128 * b,
        ),
        is_scaled_byte(
            super::color::chroma_v(r, g, b),
            256 * 128 + 128 * r - 116 * g - 12 * b,
        ),
        r == g && g == b ==> super::color::chroma_u(r, g, b) == 128 && super::color::chroma_v(
            r,
            g,
            b,
        ) == 128,
{
}

/// The average of a block lies nearest to a quarter of the sum of its samples, whichever
/// of them is which, and reversing it gives the one sample that makes up the rest.
pub proof fn law_average_and_its_reverse(a0: u8, a: u8, b: u8, c: u8, filtered: u8)
    ensures
        4 * super::color::block_average(a0, a, b, c) - 2 <= a0 + a + b + c <= 4
            * super::color::block_average(a0, a, b, c) + 1,
        ({
            let undone = 4 * filtered - a - b - c;
            let kept = super::color::reversed(filtered, a, b, c) as int;
            &&& -30 <= undone - filtered <= 30 ==> kept == filtered
            &&& !(-30 <= undone - filtered <= 30) && 0 <= undone <= 255 ==> kept == undone
            &&& !(-30 <= undone - filtered <= 30) && undone < 0 ==> kept == 0
            &&& !(-30 <= undone - filtered <= 30) && undone > 255 ==> kept == 255
        }),
{
}

/// What conversion uses at a position is the chroma that belongs there.
proof fn lemma_reconstructed(picture: Picture, plane: Seq<u8>, x: int, y: int)
    requires
        0 <= x < picture.width,
        0 <= y < picture.height,
    ensures
        picture.reconstructed(plane, x, y) == true_chroma(
            plane,
            picture.width as int,
            picture.height as int,
            x,
            y,
        ),
{
    let w = picture.width as int;
    if x % 2 == 0 && y % 2 == 0 && x + 1 < w && y + 1 < picture.height {
        law_average_and_its_reverse(
            0,
            plane[y * w + (x + 1)],
            plane[(y + 1) * w + x],
            plane[(y + 1) * w + (x + 1)],
            plane[y * w + x],
        );
    }
}

/// Converting a rectangle gives four bytes for each of its pixels, row by row. Those of
/// the pixel `dx` to the right of and `dy` below the rectangle's corner are the colours
/// of the picture's own samples there, `left + dx` from its left and `top + dy` from its
/// top, and opaque.
pub proof fn law_converted_pixel(
    picture: Picture,
    left: int,
    top: int,
    width: int,
    height: int,
    dx: int,
    dy: int,
)
    requires
        picture.well_formed(),
        0 <= left,
        0 <= top,
        left + width <= picture.width,
        top + height <= picture.height,
        0 <= dx < width,
        0 <= dy < height,
    ensures
        ({
            let out = picture.rgba(left, top, width, height);
            let at = (dy * width + dx) * 4;
            let w = picture.width as int;
            let h = picture.height as int;
            let x = left + dx;
            let y = top + dy;
            let luma = picture.y[y * w + x];
            let u = true_chroma(picture.u, w, h, x, y);
            let v = true_chroma(picture.v, w, h, x, y);
            &&& out.len() == width * height * 4
            &&& 0 <= at && at + 3 < out.len()
            &&& is_scaled_byte(out[at], 256 * luma + 403 * (v - 128))
            &&& is_scaled_byte(out[at + 1], 256 * luma - 48 * (u - 128) - 120 * (v - 128))
            &&& is_scaled_byte(out[at + 2], 256 * luma + 475 * (u - 128))
            &&& out[at + 3] == 0xFF
        }),
{
    let out = picture.rgba(left, top, width, height);
    let n = dy * width + dx;
    let x = left + dx;
    let y = top + dy;
    crate::row_major::lemma_index_of(width, height, dx, dy);
    lemma_reconstructed(picture, picture.u, x, y);
    lemma_reconstructed(picture, picture.v, x, y);
    let luma = picture.y[y * picture.width + x];
    let u = picture.reconstructed(picture.u, x, y);
    let v = picture.reconstructed(picture.v, x, y);
    law_colours_follow_chroma(luma, u, v, 1);
    assert(out.len() == width * height * 4);
    assert forall|k: int| 0 <= k < 4 implies #[trigger] out[n * 4 + k] == picture.channel(
        x,
        y,
        k,
    ) by {
        assert((n * 4 + k) / 4 == n);
        assert((n * 4 + k) % 4 == k);
    }
    assert(out[n * 4 + 0] == picture.channel(x, y, 0));
    assert(out[n * 4 + 1] == picture.channel(x, y, 1));
    assert(out[n * 4 + 2] == picture.channel(x, y, 2));
    assert(out[n * 4 + 3] == picture.channel(x, y, 3));
}

/// Converting a rectangle gives the same bytes for its pixels as converting the whole
/// picture and cutting the rectangle out.
pub proof fn law_rectangle_is_cut_from_the_whole(
    picture: Picture,
    left: int,
    top: int,
    width: int,
    height: int,
    dx: int,
    dy: int,
    k: int,
)
    requires
        picture.well_formed(),
        0 <= left,
        0 <= top,
        left + width <= picture.width,
        top + height <= picture.height,
        0 <= dx < width,
        0 <= dy < height,
        0 <= k < 4,
    ensures
        picture.rgba(left, top, width, height)[(dy * width + dx) * 4 + k] == picture.rgba(
            0,
            0,
            picture.width as int,
            picture.height as int,
        )[((top + dy) * picture.width + (left + dx)) * 4 + k],
{
    let w = picture.width as int;
    let h = picture.height as int;
    crate::row_major::lemma_index_of(width, height, dx, dy);
    crate::row_major::lemma_index_of(w, h, left + dx, top + dy);
    let n = dy * width + dx;
    let m = (top + dy) * w + (left + dx);
    assert((n * 4 + k) / 4 == n && (n * 4 + k) % 4 == k);
    assert((m * 4 + k) / 4 == m && (m * 4 + k) % 4 == k);
}

/// A new picture is black luma and neutral chroma at every position, and converts to
/// opaque black.
pub proof fn law_blank_picture_is_black(width: nat, height: nat, x: int, y: int)
    requires
        0 <= x < width,
        0 <= y < height,
    ensures
        ({
            let blank = Picture::blank(width, height);
            &&& blank.well_formed()
            &&& blank.width == width
            &&& blank.height == height
            &&& blank.y[y * width + x] == 0
            &&& blank.u[y * width + x] == 128
            &&& blank.v[y * width + x] == 128
            &&& blank.channel(x, y, 0) == 0
            &&& blank.channel(x, y, 1) == 0
            &&& blank.channel(x, y, 2) == 0
            &&& blank.channel(x, y, 3) == 0xFF
        }),
{
    let blank = Picture::blank(width, height);
    let w = width as int;
    let h = height as int;
    crate::row_major::lemma_index_of(w, h, x, y);
    if x + 1 < w && y + 1 < h {
        crate::row_major::lemma_index_of(w, h, x + 1, y);
        crate::row_major::lemma_index_of(w, h, x, y + 1);
        crate::row_major::lemma_index_of(w, h, x + 1, y + 1);
    }
    law_colours_follow_chroma(0, 128, 128, 1);
    super::color::law_reverse_filter_keeps_flat_block(128);
}

/// Painting a main view gives each position of the rectangle, grown outward to even
/// edges, the view's own luma there and the chroma of the 2x2 block that it lies in, as
/// far as both picture and view reach. Every other position keeps what it had.
#[verifier::rlimit(40)]
pub proof fn law_main_view_is_painted_in_place(
    picture: Picture,
    main: Yuv420View,
    rect: PlaneRect,
    x: int,
    y: int,
)
    requires
        picture.well_formed(),
        main.well_formed(),
        0 <= x < picture.width,
        0 <= y < picture.height,
    ensures
        ({
            let painted = picture.main_painted(main, rect);
            let at = y * picture.width + x;
            let reached = picture.width >= 2 && picture.height >= 2 && main.width >= 2
                && main.height >= 2 && x < main.width && y < main.height;
            let asked = rect.left - rect.left % 2 <= x && x < rect.right + rect.right % 2
                && rect.top - rect.top % 2 <= y && y < rect.bottom + rect.bottom % 2;
            &&& painted.width == picture.width
            &&& painted.height == picture.height
            &&& painted.well_formed()
            &&& reached && asked ==> {
                &&& painted.y[at] == main.y@[y * main.y_stride + x]
                &&& painted.u[at] == main.u@[(y / 2) * main.chroma_stride + x / 2]
                &&& painted.v[at] == main.v@[(y / 2) * main.chroma_stride + x / 2]
            }
            &&& !(reached && asked) ==> {
                &&& painted.y[at] == picture.y[at]
                &&& painted.u[at] == picture.u[at]
                &&& painted.v[at] == picture.v[at]
            }
        }),
{
    crate::row_major::lemma_index_of(picture.width as int, picture.height as int, x, y);
}

/// Where an AVC444 auxiliary view keeps the chroma of a position: that of odd rows in the
/// rows of its luma plane, eight of `U` above eight of `V` for every sixteen rows of the
/// picture, and that of the odd columns of even rows in its own chroma planes.
#[verifier::rlimit(40)]
pub proof fn law_aux_view_v1_is_painted_in_place(
    picture: Picture,
    aux: Yuv420View,
    rect: PlaneRect,
    x: int,
    y: int,
)
    requires
        picture.well_formed(),
        aux.well_formed(),
        0 <= x < picture.width,
        0 <= y < picture.height,
    ensures
        ({
            let painted = picture.aux_painted(aux, rect, ChromaLayout::V1);
            let at = y * picture.width + x;
            let inside = rect.left <= x < rect.right && rect.top <= y < rect.bottom && x
                < aux.width;
            let group = y / 16;
            let rank = (y - 16 * group) / 2;
            let u_row = 16 * group + rank;
            let v_row = 16 * group + 8 + rank;
            &&& painted.y == picture.y
            &&& painted.well_formed()
            &&& painted.width == picture.width && painted.height == picture.height
            &&& !inside || (x % 2 == 0 && y % 2 == 0) ==> painted.u[at] == picture.u[at]
                && painted.v[at] == picture.v[at]
            &&& inside && y % 2 == 1 ==> {
                &&& painted.u[at] == if u_row < aux.height {
                    aux.y@[u_row * aux.y_stride + x]
                } else {
                    picture.u[at]
                }
                &&& painted.v[at] == if v_row < aux.height {
                    aux.y@[v_row * aux.y_stride + x]
                } else {
                    picture.v[at]
                }
            }
            &&& inside && y % 2 == 0 && x % 2 == 1 && y < aux.height ==> {
                &&& painted.u[at] == aux.u@[(y / 2) * aux.chroma_stride + x / 2]
                &&& painted.v[at] == aux.v@[(y / 2) * aux.chroma_stride + x / 2]
            }
            &&& inside && y % 2 == 0 && x % 2 == 1 && y >= aux.height ==> painted.u[at]
                == picture.u[at] && painted.v[at] == picture.v[at]
        }),
{
    crate::row_major::lemma_index_of(picture.width as int, picture.height as int, x, y);
}

/// Where an AVC444v2 auxiliary view keeps the chroma of a position: that of odd columns
/// in its luma plane, `U` in the left half and `V` in the right, and on odd rows that of
/// every fourth column in its `U` plane and of the second after it in its `V` plane, `U`
/// in the left half of each and `V` in the right.
#[verifier::rlimit(40)]
pub proof fn law_aux_view_v2_is_painted_in_place(
    picture: Picture,
    aux: Yuv420View,
    rect: PlaneRect,
    x: int,
    y: int,
)
    requires
        picture.well_formed(),
        aux.well_formed(),
        0 <= x < picture.width,
        0 <= y < picture.height,
    ensures
        ({
            let painted = picture.aux_painted(aux, rect, ChromaLayout::V2);
            let at = y * picture.width + x;
            let inside = rect.left <= x < rect.right && rect.top <= y < rect.bottom;
            let half = aux.width as int / 2;
            let quarter = aux.width as int / 4;
            let luma = inside && x % 2 == 1 && x / 2 < half && y < aux.height;
            let chroma = inside && x % 2 == 0 && y % 2 == 1 && x / 4 < quarter && y / 2 < (
            aux.height + 1) / 2;
            &&& painted.y == picture.y
            &&& painted.well_formed()
            &&& painted.width == picture.width && painted.height == picture.height
            &&& luma ==> {
                &&& painted.u[at] == aux.y@[y * aux.y_stride + (x - 1) / 2]
                &&& painted.v[at] == aux.y@[y * aux.y_stride + (half + (x - 1) / 2)]
            }
            &&& chroma && x % 4 == 0 ==> {
                &&& painted.u[at] == aux.u@[(y / 2) * aux.chroma_stride + x / 4]
                &&& painted.v[at] == aux.u@[(y / 2) * aux.chroma_stride + (quarter + x / 4)]
            }
            &&& chroma && x % 4 == 2 ==> {
                &&& painted.u[at] == aux.v@[(y / 2) * aux.chroma_stride + x / 4]
                &&& painted.v[at] == aux.v@[(y / 2) * aux.chroma_stride + (quarter + x / 4)]
            }
            &&& !luma && !chroma ==> painted.u[at] == picture.u[at] && painted.v[at]
                == picture.v[at]
        }),
{
    crate::row_major::lemma_index_of(picture.width as int, picture.height as int, x, y);
}

/// The main view keeps the luma as it is and, for every 2x2 block, the chroma nearest to
/// the average of its samples; a block that runs over the edge counts the samples at the
/// edge twice.
pub proof fn law_main_view_averages_blocks(picture: Picture, view: OwnedYuv420, cx: int, cy: int)
    requires
        picture.well_formed(),
        picture.main_view_is(view),
        0 <= 2 * cx < picture.width,
        0 <= 2 * cy < picture.height,
    ensures
        ({
            let w = picture.width as int;
            let h = picture.height as int;
            let cw = (w + 1) / 2;
            let x1 = if 2 * cx + 1 < w {
                2 * cx + 1
            } else {
                2 * cx
            };
            let y1 = if 2 * cy + 1 < h {
                2 * cy + 1
            } else {
                2 * cy
            };
            let u_sum = picture.u[(2 * cy) * w + 2 * cx] + picture.u[(2 * cy) * w + x1]
                + picture.u[y1 * w + 2 * cx] + picture.u[y1 * w + x1];
            let v_sum = picture.v[(2 * cy) * w + 2 * cx] + picture.v[(2 * cy) * w + x1]
                + picture.v[y1 * w + 2 * cx] + picture.v[y1 * w + x1];
            &&& view.y@ == picture.y
            &&& w <= u32::MAX ==> view.width == w
            &&& h <= u32::MAX ==> view.height == h
            &&& 4 * view.u@[cy * cw + cx] - 2 <= u_sum <= 4 * view.u@[cy * cw + cx] + 1
            &&& 4 * view.v@[cy * cw + cx] - 2 <= v_sum <= 4 * view.v@[cy * cw + cx] + 1
        }),
{
    let w = picture.width as int;
    let h = picture.height as int;
    crate::row_major::lemma_index_of((w + 1) / 2, (h + 1) / 2, cx, cy);
}

/// An odd row of a picture stands in the luma plane of its AVC444 auxiliary view.
#[verifier::spinoff_prover]
#[verifier::rlimit(40)]
proof fn lemma_v1_odd_row_taken(picture: Picture, view: OwnedYuv420, x: int, y: int)
    requires
        picture.v1_view_is(view),
        0 <= x < picture.width,
        0 <= y < picture.height,
        y % 2 == 1,
    ensures
        ({
            let w = picture.width as int;
            let row = 16 * (y / 16) + (y % 16) / 2;
            &&& view.y@[row * w + x] == picture.u[y * w + x]
            &&& view.y@[(row + 8) * w + x] == picture.v[y * w + x]
        }),
{
    let w = picture.width as int;
    let h = picture.height as int;
    let tall = super::split::macroblock_height(h);
    let row = 16 * (y / 16) + (y % 16) / 2;
    let luma = |x: int, row: int| picture.v1_luma(x, row);
    super::laws::lemma_v1_rows(h, y);
    super::laws::lemma_raster_at(w, tall, luma, x, row);
    super::laws::lemma_raster_at(w, tall, luma, x, row + 8);
}

/// An odd column of an even row stands in the chroma planes of the AVC444 auxiliary view.
#[verifier::spinoff_prover]
proof fn lemma_v1_odd_column_taken(picture: Picture, view: OwnedYuv420, x: int, y: int)
    requires
        picture.v1_view_is(view),
        0 <= x < picture.width,
        0 <= y < picture.height,
        y % 2 == 0,
        x % 2 == 1,
    ensures
        ({
            let w = picture.width as int;
            let cw = (w + 1) / 2;
            &&& view.u@[(y / 2) * cw + (x - 1) / 2] == picture.u[y * w + x]
            &&& view.v@[(y / 2) * cw + (x - 1) / 2] == picture.v[y * w + x]
        }),
{
    let cw = (picture.width as int + 1) / 2;
    let half = super::split::macroblock_height(picture.height as int) / 2;
    let u = |gx: int, gy: int| picture.v1_chroma(picture.u, gx, gy);
    let v = |gx: int, gy: int| picture.v1_chroma(picture.v, gx, gy);
    assert(2 * ((x - 1) / 2) + 1 == x);
    assert(2 * (y / 2) == y);
    super::laws::lemma_raster_at(cw, half, u, (x - 1) / 2, y / 2);
    super::laws::lemma_raster_at(cw, half, v, (x - 1) / 2, y / 2);
}

/// An AVC444 auxiliary view takes the chroma that the main view gave up: whole odd rows
/// in its luma plane, and the odd columns of even rows in its chroma planes.
#[verifier::spinoff_prover]
#[verifier::rlimit(40)]
pub proof fn law_aux_view_v1_takes_the_rest(
    picture: Picture,
    view: OwnedYuv420,
    x: int,
    y: int,
)
    requires
        picture.well_formed(),
        picture.v1_view_is(view),
        0 <= x < picture.width,
        0 <= y < picture.height,
    ensures
        ({
            let w = picture.width as int;
            let cw = (w + 1) / 2;
            let group = y / 16;
            let rank = (y - 16 * group) / 2;
            &&& y % 2 == 1 ==> {
                &&& view.y@[(16 * group + rank) * w + x] == picture.u[y * w + x]
                &&& view.y@[(16 * group + 8 + rank) * w + x] == picture.v[y * w + x]
            }
            &&& y % 2 == 0 && x % 2 == 1 ==> {
                &&& view.u@[(y / 2) * cw + (x - 1) / 2] == picture.u[y * w + x]
                &&& view.v@[(y / 2) * cw + (x - 1) / 2] == picture.v[y * w + x]
            }
            &&& w <= u32::MAX ==> view.width == w
        }),
{
    if y % 2 == 1 {
        assert(y - 16 * (y / 16) == y % 16);
        assert(16 * (y / 16) + (y % 16) / 2 + 8 == 16 * (y / 16) + 8 + (y % 16) / 2);
        lemma_v1_odd_row_taken(picture, view, x, y);
    } else if x % 2 == 1 {
        lemma_v1_odd_column_taken(picture, view, x, y);
    }
}

/// An AVC444v2 auxiliary view takes the chroma that the main view gave up: odd columns in
/// its luma plane, `U` left and `V` right, and the even columns of odd rows, four by four,
/// in its chroma planes.
#[verifier::rlimit(40)]
pub proof fn law_aux_view_v2_takes_the_rest(
    picture: Picture,
    view: OwnedYuv420,
    x: int,
    y: int,
)
    requires
        picture.well_formed(),
        picture.v2_view_is(view),
        0 <= x < picture.width,
        0 <= y < picture.height,
    ensures
        ({
            let w = picture.width as int;
            let cw = (w + 1) / 2;
            let half = w / 2;
            let quarter = w / 4;
            &&& x % 2 == 1 ==> {
                &&& view.y@[y * w + (x - 1) / 2] == picture.u[y * w + x]
                &&& view.y@[y * w + (half + (x - 1) / 2)] == picture.v[y * w + x]
            }
            &&& x % 4 == 0 && y % 2 == 1 && x / 4 < quarter ==> {
                &&& view.u@[(y / 2) * cw + x / 4] == picture.u[y * w + x]
                &&& view.u@[(y / 2) * cw + (quarter + x / 4)] == picture.v[y * w + x]
            }
            &&& x % 4 == 2 && y % 2 == 1 && x / 4 < quarter ==> {
                &&& view.v@[(y / 2) * cw + x / 4] == picture.u[y * w + x]
                &&& view.v@[(y / 2) * cw + (quarter + x / 4)] == picture.v[y * w + x]
            }
            &&& w <= u32::MAX ==> view.width == w
            &&& picture.height <= u32::MAX ==> view.height == picture.height
        }),
{
    let w = picture.width as int;
    let h = picture.height as int;
    let cw = (w + 1) / 2;
    let ch = (h + 1) / 2;
    if x % 2 == 1 {
        crate::row_major::lemma_index_of(w, h, (x - 1) / 2, y);
        crate::row_major::lemma_index_of(w, h, w / 2 + (x - 1) / 2, y);
    } else if y % 2 == 1 && x / 4 < w / 4 {
        crate::row_major::lemma_index_of(cw, ch, x / 4, y / 2);
        crate::row_major::lemma_index_of(cw, ch, w / 4 + x / 4, y / 2);
        assert(4 * (x / 4) + x % 4 == x);
        assert(2 * (y / 2) + 1 == y);
    }
}

/// What an AVC444 auxiliary view holds where the picture has nothing for it: black luma
/// and neutral chroma. Its height is the picture's, rounded up to whole macroblocks.
#[verifier::rlimit(40)]
pub proof fn law_aux_view_v1_is_padded(
    picture: Picture,
    view: OwnedYuv420,
    tall: int,
    x: int,
    row: int,
    gx: int,
    gy: int,
)
    requires
        picture.well_formed(),
        picture.v1_view_is(view),
        0 < picture.width,
        tall % 16 == 0,
        0 < tall,
        picture.height <= tall,
        tall < picture.height + 16,
        0 <= x < picture.width,
        0 <= row < tall,
        0 <= gx < (picture.width + 1) / 2,
        0 <= gy < tall / 2,
    ensures
        ({
            let w = picture.width as int;
            let cw = (w + 1) / 2;
            &&& tall <= u32::MAX ==> view.height == tall
            &&& view.y@.len() == w * tall
            &&& view.u@.len() == cw * (tall / 2)
            &&& view.v@.len() == cw * (tall / 2)
            &&& 16 * (row / 16) + 2 * (row % 8) + 1 >= picture.height ==> view.y@[row * w + x] == 0
            &&& 2 * gy >= picture.height || 2 * gx + 1 >= w ==> view.u@[gy * cw + gx] == 128
                && view.v@[gy * cw + gx] == 128
        }),
{
    let w = picture.width as int;
    let cw = (w + 1) / 2;
    assert(super::split::macroblock_height(picture.height as int) == tall);
    super::laws::lemma_raster_at(w, tall, |x: int, row: int| picture.v1_luma(x, row), x, row);
    super::laws::lemma_raster_at(
        cw,
        tall / 2,
        |gx: int, gy: int| picture.v1_chroma(picture.u, gx, gy),
        gx,
        gy,
    );
    super::laws::lemma_raster_at(
        cw,
        tall / 2,
        |gx: int, gy: int| picture.v1_chroma(picture.v, gx, gy),
        gx,
        gy,
    );
    assert(0 <= w * tall && 0 <= cw * (tall / 2)) by (nonlinear_arith)
        requires
            0 < w,
            0 < tall,
            0 < cw,
            0 <= tall / 2,
    ;
    assert(row % 16 % 8 == row % 8);
}

/// What an AVC444v2 auxiliary view holds where the picture has nothing for it: black luma
/// and neutral chroma.
#[verifier::rlimit(40)]
pub proof fn law_aux_view_v2_is_padded(
    picture: Picture,
    view: OwnedYuv420,
    x: int,
    y: int,
    gx: int,
    gy: int,
)
    requires
        picture.well_formed(),
        picture.v2_view_is(view),
        0 <= x < picture.width,
        0 <= y < picture.height,
        0 <= gx < (picture.width + 1) / 2,
        0 <= gy < (picture.height + 1) / 2,
    ensures
        ({
            let w = picture.width as int;
            let h = picture.height as int;
            let cw = (w + 1) / 2;
            &&& view.y@.len() == w * h
            &&& view.u@.len() == cw * ((h + 1) / 2)
            &&& view.v@.len() == cw * ((h + 1) / 2)
            &&& x >= 2 * (w / 2) ==> view.y@[y * w + x] == 0
            &&& gx >= 2 * (w / 4) || 2 * gy + 1 >= h ==> view.u@[gy * cw + gx] == 128
                && view.v@[gy * cw + gx] == 128
        }),
{
    let w = picture.width as int;
    let h = picture.height as int;
    let cw = (w + 1) / 2;
    let ch = (h + 1) / 2;
    super::laws::lemma_raster_at(w, h, |x: int, row: int| picture.v2_luma(x, row), x, y);
    super::laws::lemma_raster_at(cw, ch, |gx: int, gy: int| picture.v2_chroma(0, gx, gy), gx, gy);
    super::laws::lemma_raster_at(cw, ch, |gx: int, gy: int| picture.v2_chroma(2, gx, gy), gx, gy);
    assert(0 <= w * h && 0 <= cw * ch) by (nonlinear_arith)
        requires
            0 < w,
            0 < h,
            0 < cw,
            0 < ch,
    ;
}

/// A view can be read if and only if it has a size and each of its planes, row after row
/// at its stride, reaches to the last sample: half as many columns and rows of chroma as
/// of luma, rounded up.
pub proof fn law_readable_view_holds_its_planes(view: Yuv420View)
    ensures
        ({
            let w = view.width as int;
            let h = view.height as int;
            let cw = (w + 1) / 2;
            let ch = (h + 1) / 2;
            view.well_formed() <==> {
                &&& w > 0
                &&& h > 0
                &&& w <= view.y_stride
                &&& cw <= view.chroma_stride
                &&& (h - 1) * view.y_stride + w <= view.y@.len()
                &&& (ch - 1) * view.chroma_stride + cw <= view.u@.len()
                &&& (ch - 1) * view.chroma_stride + cw <= view.v@.len()
            }
        }),
{
}

/// The view of an owned picture shows the picture's own planes, packed row to row.
pub proof fn law_owned_picture_is_shown_packed(owned: OwnedYuv420, view: Yuv420View)
    requires
        owned.packed_view_is(view),
    ensures
        view.width == owned.width,
        view.height == owned.height,
        view.y@ == owned.y@,
        view.u@ == owned.u@,
        view.v@ == owned.v@,
        view.y_stride == owned.width,
        2 * view.chroma_stride == owned.width || 2 * view.chroma_stride == owned.width + 1,
{
}

/// A rectangle of the wire covers the same positions once it is one of a picture: up to
/// but not including its far edges, or including them, as its kind has it.
pub proof fn law_wire_rectangles_cover_the_same(
    exclusive: ExclusiveRectangle,
    inclusive: InclusiveRectangle,
    x: int,
    y: int,
)
    ensures
        <PlaneRect as vstd::std_specs::convert::FromSpec<&ExclusiveRectangle>>::from_spec(
            &exclusive,
        ).covers(x, y) <==> exclusive.left <= x < exclusive.right && exclusive.top <= y
            < exclusive.bottom,
        <PlaneRect as vstd::std_specs::convert::FromSpec<&InclusiveRectangle>>::from_spec(
            &inclusive,
        ).covers(x, y) <==> inclusive.left <= x <= inclusive.right && inclusive.top <= y
            <= inclusive.bottom,
{
}

/// An auxiliary view is of the layout that is asked for. One of AVC444 is as wide as the
/// picture and as tall as the macroblock rows that hold it, at least one; one of AVC444v2
/// is as large as the picture. A dimension that the wire cannot carry is zero.
pub proof fn law_aux_view_follows_the_layout(
    picture: Picture,
    view: OwnedYuv420,
    layout: ChromaLayout,
)
    requires
        picture.aux_view_is(view, layout),
    ensures
        layout is V1 ==> picture.v1_view_is(view),
        layout is V2 ==> picture.v2_view_is(view),
        picture.width > u32::MAX ==> view.width == 0,
        picture.width <= u32::MAX ==> view.width == picture.width,
        layout is V1 && picture.height == 0 ==> view.height == 16,
        layout is V1 && 0 < picture.height <= u32::MAX - 15 ==> view.height % 16 == 0
            && picture.height <= view.height < picture.height + 16,
        layout is V2 && picture.height <= u32::MAX ==> view.height == picture.height,
        layout is V2 && picture.height > u32::MAX ==> view.height == 0,
{
}

} // verus!
