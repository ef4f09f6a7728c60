//! What the commands do, pixel by pixel.
//!
//! Channel `k` of the pixel at `(x, y)` of a canvas `w` pixels wide is byte
//! `4 * (y * w + x) + k` of its data.
use vstd::prelude::*;

use super::model::{Composition, StagedState, SurfaceState, UpdateState};
use super::{Color, DirtyRegion, OutputMapping};
use crate::geometry::{ExclusiveRectangle, Point};

verus! {

/// The byte of a channel, counted in pixels.
proof fn lemma_channel_at(width: int, x: int, y: int, k: int)
    ensures
        super::pixels::channel_index(width, x, y, k) == 4 * (y * width + x) + k,
{
    assert(y * (4 * width) == 4 * (y * width)) by (nonlinear_arith);
}

/// One pixel of a canvas after a rectangle was written.
proof fn lemma_blitted_at_pixel(
    surface: SurfaceState,
    x: int,
    y: int,
    w: int,
    h: int,
    src: Seq<u8>,
    px: int,
    py: int,
    k: int,
)
    requires
        surface.well_formed(),
        0 <= x,
        0 <= y,
        0 <= px < surface.width,
        0 <= py < surface.height,
        0 <= k < 4,
    ensures
        ({
            let shown = if x + w <= surface.width {
                w
            } else {
                surface.width - x
            };
            surface.blitted(x, y, w, h, src).data[4 * (py * surface.width + px) + k] == if x <= px
                < x + w && y <= py < y + h && 4 * ((py - y) * w + shown) <= src.len() {
                src[4 * ((py - y) * w + (px - x)) + k]
            } else {
                surface.data[4 * (py * surface.width + px) + k]
            }
        }),
{
    lemma_channel_at(surface.width as int, px, py, k);
    lemma_channel_at(w, px - x, py - y, k);
    super::pixels::lemma_channel_index(surface.width as int, surface.height as int, px, py, k);
    assert((py - y) * (4 * w) == 4 * ((py - y) * w)) by (nonlinear_arith);
}

/// What noting a change of a rectangle does: it adds at most one entry to the
/// frame, whose rectangle holds exactly the pixels of the rectangle that lie on the
/// surface, and is not empty. It adds none where the last entry holds them all, and
/// otherwise only the budget refuses it. Nothing else changes.
pub proof fn law_change_is_noted(
    before: Composition,
    id: u16,
    x: int,
    y: int,
    w: int,
    h: int,
    px: int,
    py: int,
)
    requires
        before.well_formed(),
        before.surfaces.contains_key(id),
        0 <= x,
        0 <= y,
        0 <= w,
        0 <= h,
        0 <= px < before.surfaces[id].width,
        0 <= py < before.surfaces[id].height,
    ensures
        ({
            let after = before.marked(id, x, y, w, h);
            let n = before.frame.len() as int;
            let inside = x <= px < x + w && y <= py < y + h;
            &&& after.surfaces == before.surfaces
            &&& after.cache == before.cache
            &&& after.staged == before.staged
            &&& after.ready == before.ready
            &&& after.requested_width == before.requested_width
            &&& after.requested_height == before.requested_height
            &&& after.frame.len() == n || after.frame.len() == n + 1
            &&& after.frame.take(n) == before.frame
            &&& after.allocated == before.allocated + 10 * (after.frame.len() - n)
            &&& after.frame.len() > n ==> {
                let entry = after.frame[n];
                &&& entry.surface_id == id
                &&& entry.rect.left < entry.rect.right
                &&& entry.rect.top < entry.rect.bottom
                &&& entry.rect.right <= before.surfaces[id].width
                &&& entry.rect.bottom <= before.surfaces[id].height
                &&& entry.rect.left <= px < entry.rect.right && entry.rect.top <= py
                    < entry.rect.bottom <==> inside
            }
            &&& inside && before.allocated + 10 <= 268_435_456 ==> {
                let last = after.frame.last();
                &&& after.frame.len() > 0
                &&& last.surface_id == id
                &&& last.rect.left <= px < last.rect.right
                &&& last.rect.top <= py < last.rect.bottom
            }
            &&& n > 0 && before.frame[n - 1].surface_id == id && before.frame[n - 1].rect.left <= x
                && before.frame[n - 1].rect.top <= y && x + w <= before.frame[n - 1].rect.right
                && y + h <= before.frame[n - 1].rect.bottom ==> after.frame == before.frame
        }),
{
    let after = before.marked(id, x, y, w, h);
    let n = before.frame.len() as int;
    assert(after.frame.take(n) =~= before.frame);
}

/// The frame covers a pixel of surface `id`.
pub open spec fn frame_covers(frame: Seq<DirtyRegion>, id: u16, px: int, py: int) -> bool {
    exists|i: int|
        0 <= i < frame.len() && (#[trigger] frame[i]).surface_id == id && frame[i].rect.left <= px
            < frame[i].rect.right && frame[i].rect.top <= py < frame[i].rect.bottom
}

/// Every entry of the frame from the `n`th on is of surface `id`, and covers only
/// pixels that lie inside.
pub open spec fn only_covers(
    frame: Seq<DirtyRegion>,
    n: int,
    id: u16,
    inside: spec_fn(int, int) -> bool,
) -> bool {
    forall|i: int, px: int, py: int|
        #![trigger frame[i], inside(px, py)]
        n <= i < frame.len() && frame[i].rect.left <= px < frame[i].rect.right && frame[i].rect.top
            <= py < frame[i].rect.bottom ==> frame[i].surface_id == id && inside(px, py)
}

/// The two compositions differ in nothing but surface `id`, the frame and what is
/// charged for it; and in that surface, in nothing but its pixels.
pub open spec fn only_pixels_of(before: Composition, after: Composition, id: u16) -> bool {
    &&& after.surfaces.dom() == before.surfaces.dom()
    &&& forall|other: u16|
        other != id && before.surfaces.contains_key(other) ==> #[trigger] after.surfaces[other]
            == before.surfaces[other]
    &&& before.surfaces.contains_key(id) ==> {
        &&& after.surfaces[id].width == before.surfaces[id].width
        &&& after.surfaces[id].height == before.surfaces[id].height
        &&& after.surfaces[id].mapping == before.surfaces[id].mapping
        &&& after.surfaces[id].data.len() == before.surfaces[id].data.len()
    }
    &&& after.cache == before.cache
    &&& after.staged == before.staged
    &&& after.ready == before.ready
    &&& after.requested_width == before.requested_width
    &&& after.requested_height == before.requested_height
    &&& before.frame.len() <= after.frame.len()
    &&& after.frame.take(before.frame.len() as int) == before.frame
    &&& after.allocated == before.allocated + 10 * (after.frame.len() - before.frame.len())
}

/// A bitmap painted into `dest` is found in `dest` row by row: channel `k` of the
/// pixel at `(dest.left + dx, dest.top + dy)` is byte
/// `4 * (dy * (dest.right - dest.left) + dx) + k` of the bitmap. A row whose part on
/// the surface the bitmap does not hold, and every pixel outside `dest`, is what it
/// was.
#[verifier::rlimit(40)]
pub proof fn law_bitmap_is_painted_in_place(
    before: Composition,
    id: u16,
    dest: ExclusiveRectangle,
    rgba: Seq<u8>,
    px: int,
    py: int,
    k: int,
)
    requires
        before.well_formed(),
        before.surfaces.contains_key(id),
        0 <= px < before.surfaces[id].width,
        0 <= py < before.surfaces[id].height,
        0 <= k < 4,
    ensures
        ({
            let after = before.painted(id, dest, rgba);
            let width = before.surfaces[id].width;
            let at = 4 * (py * width + px) + k;
            let dx = px - dest.left;
            let dy = py - dest.top;
            let w = dest.right - dest.left;
            let shown = if dest.right <= width {
                w
            } else {
                width - dest.left
            };
            let inside = dest.left <= px < dest.right && dest.top <= py < dest.bottom;
            &&& only_pixels_of(before, after, id)
            &&& inside && 4 * (dy * w + shown) <= rgba.len() ==> after.surfaces[id].data[at]
                == rgba[4 * (dy * w + dx) + k]
            &&& inside && 4 * (dy * w + shown) > rgba.len() ==> after.surfaces[id].data[at]
                == before.surfaces[id].data[at]
            &&& !inside ==> after.surfaces[id].data[at] == before.surfaces[id].data[at]
            &&& inside && rgba.len() == 4 * (w * (dest.bottom - dest.top))
                ==> after.surfaces[id].data[at] == rgba[4 * (dy * w + dx) + k]
            &&& inside && before.allocated + 10 <= 268_435_456 ==> frame_covers(
                after.frame,
                id,
                px,
                py,
            )
            &&& after.frame.len() <= before.frame.len() + 1
            &&& only_covers(
                after.frame,
                before.frame.len() as int,
                id,
                |x: int, y: int|
                    dest.left <= x < dest.right && dest.top <= y < dest.bottom && x
                        < before.surfaces[id].width && y < before.surfaces[id].height,
            )
        }),
{
    let surface = before.surfaces[id];
    let left = dest.left as int;
    let top = dest.top as int;
    let w = super::model::span(left, dest.right as int);
    let h = super::model::span(top, dest.bottom as int);
    let blitted = surface.blitted(left, top, w, h, rgba);
    let written = before.with_surface_state(id, blitted);
    before.law_with_surface_state(id, blitted);
    lemma_blitted_at_pixel(surface, left, top, w, h, rgba, px, py, k);
    law_change_is_noted(written, id, left, top, w, h, px, py);
    let after = before.painted(id, dest, rgba);
    assert(after == written.marked(id, left, top, w, h));
    assert(after.surfaces.dom() =~= before.surfaces.dom());
    if left <= px < left + w && top <= py < top + h {
        let dy = py - top;
        assert(rgba.len() == 4 * (w * h) ==> 4 * (dy * w + w) <= rgba.len()) by {
            assert(dy * w + w <= w * h) by (nonlinear_arith)
                requires
                    0 <= dy < h,
                    0 <= w,
            ;
        }
        if before.allocated + 10 <= 268_435_456 {
            assert(after.frame[after.frame.len() - 1] == after.frame.last());
        }
    }
}

/// One pixel of a surface after a rectangle was filled, and what was noted.
proof fn lemma_filled_pixel(
    before: Composition,
    id: u16,
    color: Color,
    rect: ExclusiveRectangle,
    px: int,
    py: int,
    k: int,
)
    requires
        before.well_formed(),
        before.surfaces.contains_key(id),
        0 <= px < before.surfaces[id].width,
        0 <= py < before.surfaces[id].height,
        0 <= k < 4,
    ensures
        ({
            let after = before.filled(id, color, rect);
            let at = 4 * (py * before.surfaces[id].width + px) + k;
            let inside = rect.left <= px < rect.right && rect.top <= py < rect.bottom;
            &&& only_pixels_of(before, after, id)
            &&& after.well_formed()
            &&& after.frame.len() <= before.frame.len() + 1
            &&& inside ==> after.surfaces[id].data[at] == seq![
                color.r,
                color.g,
                color.b,
                0xFFu8,
            ][k]
            &&& !inside ==> after.surfaces[id].data[at] == before.surfaces[id].data[at]
            &&& inside && before.allocated + 10 <= 268_435_456 ==> frame_covers(
                after.frame,
                id,
                px,
                py,
            )
        }),
{
    let surface = before.surfaces[id];
    let left = rect.left as int;
    let top = rect.top as int;
    let w = super::model::span(left, rect.right as int);
    let h = super::model::span(top, rect.bottom as int);
    let pixel = seq![color.r, color.g, color.b, 0xFFu8];
    let data = super::pixels::filled(surface.data, surface.width as int, left, top, w, h, pixel);
    let written = before.with_surface_state(id, SurfaceState { data, ..surface });
    before.law_with_surface_state(id, SurfaceState { data, ..surface });
    before.law_filled(id, color, rect);
    super::pixels::law_fill_writes(
        surface.data,
        surface.width as int,
        surface.height as int,
        left,
        top,
        w,
        h,
        pixel,
        px,
        py,
        k,
    );
    lemma_channel_at(surface.width as int, px, py, k);
    law_change_is_noted(written, id, left, top, w, h, px, py);
    let after = before.filled(id, color, rect);
    assert(after == written.marked(id, left, top, w, h));
    assert(after.surfaces.dom() =~= before.surfaces.dom());
    if left <= px < left + w && top <= py < top + h && before.allocated + 10 <= 268_435_456 {
        assert(after.frame[after.frame.len() - 1] == after.frame.last());
    }
}

/// A pixel of the surface lies in one of the rectangles.
pub open spec fn any_holds(rects: Seq<ExclusiveRectangle>, px: int, py: int) -> bool {
    exists|i: int|
        0 <= i < rects.len() && (#[trigger] rects[i]).left <= px < rects[i].right && rects[i].top
            <= py < rects[i].bottom
}

/// A solid fill gives every pixel in one of its rectangles the colour's red, green
/// and blue and full opacity, and leaves every other pixel as it was. What it fills
/// is noted as changed, as far as the budget allows an entry for each rectangle.
#[verifier::rlimit(40)]
pub proof fn law_solid_fill_colours_its_rectangles(
    before: Composition,
    id: u16,
    color: Color,
    rects: Seq<ExclusiveRectangle>,
    px: int,
    py: int,
)
    requires
        before.well_formed(),
        before.surfaces.contains_key(id),
        0 <= px < before.surfaces[id].width,
        0 <= py < before.surfaces[id].height,
    ensures
        ({
            let after = before.filled_all(id, color, rects);
            let at = 4 * (py * before.surfaces[id].width + px);
            let data = after.surfaces[id].data;
            &&& only_pixels_of(before, after, id)
            &&& after.frame.len() <= before.frame.len() + rects.len()
            &&& any_holds(rects, px, py) ==> data[at] == color.r && data[at + 1] == color.g
                && data[at + 2] == color.b && data[at + 3] == 0xFF
            &&& !any_holds(rects, px, py) ==> forall|k: int|
                0 <= k < 4 ==> #[trigger] data[at + k] == before.surfaces[id].data[at + k]
            &&& any_holds(rects, px, py) && before.allocated + 10 * rects.len() <= 268_435_456
                ==> frame_covers(after.frame, id, px, py)
        }),
    decreases rects.len(),
{
    let at = 4 * (py * before.surfaces[id].width + px);
    let after = before.filled_all(id, color, rects);
    if rects.len() == 0 {
        assert(after == before);
        assert(after.frame.take(before.frame.len() as int) =~= before.frame);
    } else {
        let rest = rects.drop_last();
        let rect = rects.last();
        let middle = before.filled_all(id, color, rest);
        law_solid_fill_colours_its_rectangles(before, id, color, rest, px, py);
        before.law_filled_all(id, color, rest);
        lemma_filled_pixel(middle, id, color, rect, px, py, 0);
        lemma_filled_pixel(middle, id, color, rect, px, py, 1);
        lemma_filled_pixel(middle, id, color, rect, px, py, 2);
        lemma_filled_pixel(middle, id, color, rect, px, py, 3);
        assert(after == middle.filled(id, color, rect));
        assert(after.frame.take(before.frame.len() as int) =~= before.frame) by {
            assert(after.frame.take(middle.frame.len() as int).take(before.frame.len() as int)
                =~= after.frame.take(before.frame.len() as int));
        }
        let here = rect.left <= px < rect.right && rect.top <= py < rect.bottom;
        if any_holds(rects, px, py) && !here {
            let i = choose|i: int|
                0 <= i < rects.len() && (#[trigger] rects[i]).left <= px < rects[i].right
                    && rects[i].top <= py < rects[i].bottom;
            assert(rest[i] == rects[i]);
            assert(any_holds(rest, px, py));
        }
        if any_holds(rest, px, py) {
            let i = choose|i: int|
                0 <= i < rest.len() && (#[trigger] rest[i]).left <= px < rest[i].right
                    && rest[i].top <= py < rest[i].bottom;
            assert(rects[i] == rest[i]);
        }
        if here {
            assert(rects[rects.len() - 1] == rect);
        }
        if frame_covers(middle.frame, id, px, py) {
            let i = choose|i: int|
                0 <= i < middle.frame.len() && (#[trigger] middle.frame[i]).surface_id == id
                    && middle.frame[i].rect.left <= px < middle.frame[i].rect.right
                    && middle.frame[i].rect.top <= py < middle.frame[i].rect.bottom;
            assert(after.frame.take(middle.frame.len() as int)[i] == middle.frame[i]);
            assert(after.frame[i] == middle.frame[i]);
        }
        if !any_holds(rects, px, py) {
            assert(!any_holds(rest, px, py));
            assert forall|k: int| 0 <= k < 4 implies #[trigger] after.surfaces[id].data[at + k]
                == before.surfaces[id].data[at + k] by {
                assert(middle.surfaces[id].data[at + k] == before.surfaces[id].data[at + k]);
            }
        }
    }
}

/// Of the tiles of `w` by `h` at the points, the one at `points[j]` is the last that
/// holds the pixel; none does if `j` is -1.
pub open spec fn last_to_hold(points: Seq<Point>, w: int, h: int, px: int, py: int, j: int) -> bool {
    &&& -1 <= j < points.len()
    &&& 0 <= j ==> points[j].x <= px < points[j].x + w && points[j].y <= py < points[j].y + h
    &&& forall|i: int|
        j < i < points.len() ==> !((#[trigger] points[i]).x <= px < points[i].x + w && points[i].y
            <= py < points[i].y + h)
}

/// One pixel of a surface after a tile was written at each point in turn.
proof fn lemma_tiles_pixel(
    surface: SurfaceState,
    points: Seq<Point>,
    w: int,
    h: int,
    tile: Seq<u8>,
    px: int,
    py: int,
    k: int,
    j: int,
)
    requires
        surface.well_formed(),
        tile.len() == 4 * w * h,
        0 <= w,
        0 <= h,
        0 <= px < surface.width,
        0 <= py < surface.height,
        0 <= k < 4,
        last_to_hold(points, w, h, px, py, j),
    ensures
        surface.blitted_at(points, w, h, tile).data[4 * (py * surface.width + px) + k] == if j >= 0 {
            tile[4 * ((py - points[j].y) * w + (px - points[j].x)) + k]
        } else {
            surface.data[4 * (py * surface.width + px) + k]
        },
    decreases points.len(),
{
    if points.len() > 0 {
        let rest = points.drop_last();
        let point = points.last();
        let middle = surface.blitted_at(rest, w, h, tile);
        surface.lemma_blitted_at(rest, w, h, tile);
        lemma_blitted_at_pixel(middle, point.x as int, point.y as int, w, h, tile, px, py, k);
        if j == points.len() - 1 {
            let dy = py - point.y;
            assert(dy * w + w <= w * h) by (nonlinear_arith)
                requires
                    0 <= dy < h,
                    0 <= w,
            ;
            assert(4 * w * h == 4 * (w * h)) by (nonlinear_arith);
        } else {
            assert(points[points.len() - 1] == point);
            assert(last_to_hold(rest, w, h, px, py, j)) by {
                assert forall|i: int| j < i < rest.len() implies !((#[trigger] rest[i]).x <= px
                    < rest[i].x + w && rest[i].y <= py < rest[i].y + h) by {
                    assert(points[i] == rest[i]);
                }
            }
            lemma_tiles_pixel(surface, rest, w, h, tile, px, py, k, j);
        }
    }
}

/// What noting a change at each point in turn leaves as it was, and what it covers.
#[verifier::rlimit(40)]
proof fn lemma_changes_are_noted(
    before: Composition,
    id: u16,
    points: Seq<Point>,
    w: int,
    h: int,
    px: int,
    py: int,
    j: int,
)
    requires
        before.well_formed(),
        before.surfaces.contains_key(id),
        0 <= w,
        0 <= h,
        0 <= px < before.surfaces[id].width,
        0 <= py < before.surfaces[id].height,
        last_to_hold(points, w, h, px, py, j),
    ensures
        ({
            let after = before.marked_at(id, points, w, h);
            &&& after.surfaces == before.surfaces
            &&& after.cache == before.cache
            &&& after.staged == before.staged
            &&& after.ready == before.ready
            &&& after.requested_width == before.requested_width
            &&& after.requested_height == before.requested_height
            &&& before.frame.len() <= after.frame.len() <= before.frame.len() + points.len()
            &&& after.frame.take(before.frame.len() as int) == before.frame
            &&& after.allocated == before.allocated + 10 * (after.frame.len() - before.frame.len())
            &&& j >= 0 && before.allocated + 10 * points.len() <= 268_435_456 ==> frame_covers(
                after.frame,
                id,
                px,
                py,
            )
            &&& j < 0 ==> forall|i: int|
                before.frame.len() <= i < after.frame.len() ==> {
                    &&& (#[trigger] after.frame[i]).surface_id == id
                    &&& !(after.frame[i].rect.left <= px < after.frame[i].rect.right
                        && after.frame[i].rect.top <= py < after.frame[i].rect.bottom)
                }
        }),
    decreases points.len(),
{
    let after = before.marked_at(id, points, w, h);
    if points.len() == 0 {
        assert(after == before);
        assert(after.frame.take(before.frame.len() as int) =~= before.frame);
    } else {
        let rest = points.drop_last();
        let point = points.last();
        let middle = before.marked_at(id, rest, w, h);
        before.law_marked_at(id, rest, w, h);
        let held = if j == points.len() - 1 {
            lemma_last_exists(rest, w, h, px, py)
        } else {
            j
        };
        assert(last_to_hold(rest, w, h, px, py, held)) by {
            if j < points.len() - 1 {
                assert forall|i: int| j < i < rest.len() implies !((#[trigger] rest[i]).x <= px
                    < rest[i].x + w && rest[i].y <= py < rest[i].y + h) by {
                    assert(points[i] == rest[i]);
                }
            }
        }
        lemma_changes_are_noted(before, id, rest, w, h, px, py, held);
        law_change_is_noted(middle, id, point.x as int, point.y as int, w, h, px, py);
        assert(after == middle.marked(id, point.x as int, point.y as int, w, h));
        let n = before.frame.len() as int;
        let m = middle.frame.len() as int;
        assert(after.frame.take(n) =~= before.frame) by {
            assert(after.frame.take(m).take(n) =~= after.frame.take(n));
        }
        assert(points[points.len() - 1] == point);
        assert forall|i: int| 0 <= i < m implies #[trigger] after.frame[i] == middle.frame[i] by {
            assert(after.frame.take(m)[i] == middle.frame[i]);
        }
        if frame_covers(middle.frame, id, px, py) {
            let i = choose|i: int|
                0 <= i < middle.frame.len() && (#[trigger] middle.frame[i]).surface_id == id
                    && middle.frame[i].rect.left <= px < middle.frame[i].rect.right
                    && middle.frame[i].rect.top <= py < middle.frame[i].rect.bottom;
            assert(after.frame[i] == middle.frame[i]);
        }
        if j == points.len() - 1 && before.allocated + 10 * points.len() <= 268_435_456 {
            assert(after.frame[after.frame.len() - 1] == after.frame.last());
        }
    }
}

/// Some tile is the last to hold a pixel, unless none does.
proof fn lemma_last_exists(points: Seq<Point>, w: int, h: int, px: int, py: int) -> (j: int)
    ensures
        last_to_hold(points, w, h, px, py, j),
    decreases points.len(),
{
    if points.len() == 0 {
        -1
    } else {
        let rest = points.drop_last();
        let point = points.last();
        if point.x <= px < point.x + w && point.y <= py < point.y + h {
            points.len() - 1
        } else {
            let j = lemma_last_exists(rest, w, h, px, py);
            assert forall|i: int| j < i < points.len() implies !((#[trigger] points[i]).x <= px
                < points[i].x + w && points[i].y <= py < points[i].y + h) by {
                if i < rest.len() {
                    assert(rest[i] == points[i]);
                }
            }
            j
        }
    }
}

/// One pixel of a surface after a tile was written at points, and what else a tile
/// leaves as it was.
#[verifier::rlimit(40)]
proof fn lemma_tiled(
    before: Composition,
    id: u16,
    points: Seq<Point>,
    w: int,
    h: int,
    tile: Seq<u8>,
    px: int,
    py: int,
    k: int,
    j: int,
)
    requires
        before.well_formed(),
        before.surfaces.contains_key(id),
        tile.len() == 4 * w * h,
        0 <= w,
        0 <= h,
        0 <= px < before.surfaces[id].width,
        0 <= py < before.surfaces[id].height,
        0 <= k < 4,
        last_to_hold(points, w, h, px, py, j),
    ensures
        ({
            let after = before.tiled(id, points, w, h, tile);
            let at = 4 * (py * before.surfaces[id].width + px) + k;
            &&& only_pixels_of(before, after, id)
            &&& after.frame.len() <= before.frame.len() + points.len()
            &&& j >= 0 ==> after.surfaces[id].data[at] == tile[4 * ((py - points[j].y) * w + (px
                - points[j].x)) + k]
            &&& j < 0 ==> after.surfaces[id].data[at] == before.surfaces[id].data[at]
            &&& j >= 0 && before.allocated + 10 * points.len() <= 268_435_456 ==> frame_covers(
                after.frame,
                id,
                px,
                py,
            )
            &&& j < 0 ==> forall|i: int|
                before.frame.len() <= i < after.frame.len() ==> {
                    &&& (#[trigger] after.frame[i]).surface_id == id
                    &&& !(after.frame[i].rect.left <= px < after.frame[i].rect.right
                        && after.frame[i].rect.top <= py < after.frame[i].rect.bottom)
                }
        }),
{
    let surface = before.surfaces[id];
    let tiled = surface.blitted_at(points, w, h, tile);
    surface.lemma_blitted_at(points, w, h, tile);
    before.law_with_surface_state(id, tiled);
    lemma_tiles_pixel(surface, points, w, h, tile, px, py, k, j);
    let written = before.with_surface_state(id, tiled);
    lemma_changes_are_noted(written, id, points, w, h, px, py, j);
    let after = before.tiled(id, points, w, h, tile);
    assert(after == written.marked_at(id, points, w, h));
    assert(after.surfaces.dom() =~= before.surfaces.dom());
}

/// `n` of the positions from `start` on lie before both `end` and `limit`.
pub open spec fn counts_from(start: u16, end: u16, limit: u16, n: int) -> bool {
    &&& 0 <= n
    &&& 0 < n ==> start + n <= end && start + n <= limit
    &&& start + n >= end || start + n >= limit
}

/// A pixel of the surface after the part of a rectangle that lies on surface `src`
/// was copied to points of surface `dst` is the source's pixel, from before the
/// copy, as far from the rectangle's top left as it is from the last point whose
/// copy holds it; it is what it was where no copy does.
pub proof fn law_copy_moves_pixels(
    before: Composition,
    src: u16,
    dst: u16,
    rect: ExclusiveRectangle,
    points: Seq<Point>,
    w: int,
    h: int,
    px: int,
    py: int,
    k: int,
    j: int,
)
    requires
        before.well_formed(),
        before.surfaces.contains_key(src),
        before.surfaces.contains_key(dst),
        counts_from(rect.left, rect.right, before.surfaces[src].width, w),
        counts_from(rect.top, rect.bottom, before.surfaces[src].height, h),
        0 <= px < before.surfaces[dst].width,
        0 <= py < before.surfaces[dst].height,
        0 <= k < 4,
        last_to_hold(points, w, h, px, py, j),
    ensures
        ({
            let after = before.copied(src, dst, rect, points);
            let at = 4 * (py * before.surfaces[dst].width + px) + k;
            &&& only_pixels_of(before, after, dst)
            &&& after.frame.len() <= before.frame.len() + points.len()
            &&& j >= 0 ==> {
                let sx = rect.left + (px - points[j].x);
                let sy = rect.top + (py - points[j].y);
                after.surfaces[dst].data[at] == before.surfaces[src].data[4 * (sy
                    * before.surfaces[src].width + sx) + k]
            }
            &&& j < 0 ==> after.surfaces[dst].data[at] == before.surfaces[dst].data[at]
            &&& j >= 0 && before.allocated + 10 * points.len() <= 268_435_456 ==> frame_covers(
                after.frame,
                dst,
                px,
                py,
            )
            &&& j < 0 ==> forall|i: int|
                before.frame.len() <= i < after.frame.len() ==> {
                    &&& (#[trigger] after.frame[i]).surface_id == dst
                    &&& !(after.frame[i].rect.left <= px < after.frame[i].rect.right
                        && after.frame[i].rect.top <= py < after.frame[i].rect.bottom)
                }
        }),
{
    let surface = before.surfaces[src];
    assert(w == surface.clamped_width(rect) && h == surface.clamped_height(rect));
    let tile = surface.clamped_region(rect);
    assert(0 <= 4 * w * h) by (nonlinear_arith)
        requires
            0 <= w,
            0 <= h,
    ;
    lemma_tiled(before, dst, points, w, h, tile, px, py, k, j);
    if j >= 0 {
        let dx = px - points[j].x;
        let dy = py - points[j].y;
        surface.lemma_clamped_region_reads(rect, dx, dy, k);
        lemma_channel_at(w, dx, dy, k);
        lemma_channel_at(surface.width as int, rect.left + dx, rect.top + dy, k);
    }
}

/// Copying from a surface that is not there, or to one, changes nothing; nor does
/// painting or filling one that is not there, or mapping it.
pub proof fn law_commands_to_no_surface_change_nothing(
    before: Composition,
    absent: u16,
    other: u16,
    rect: ExclusiveRectangle,
    points: Seq<Point>,
    rects: Seq<ExclusiveRectangle>,
    color: Color,
    rgba: Seq<u8>,
    mapping: OutputMapping,
)
    requires
        !before.surfaces.contains_key(absent),
    ensures
        before.copied(absent, other, rect, points) == before,
        before.copied(other, absent, rect, points) == before,
        before.recalled(other, absent, points) == before,
        before.painted(absent, rect, rgba) == before,
        before.filled_all(absent, color, rects) == before,
        before.mapped(absent, mapping) == before,
        before.cached(absent, other, rect) == before,
        before.without_surface(absent) == before,
    decreases rects.len(),
{
    if rects.len() > 0 {
        law_commands_to_no_surface_change_nothing(
            before,
            absent,
            other,
            rect,
            points,
            rects.drop_last(),
            color,
            rgba,
            mapping,
        );
    }
}

/// A pixel of the surface after a cached tile was written at points is the tile's
/// pixel as far from its top left as it is from the last point whose tile holds it;
/// it is what it was where none does. The cache keeps the tile.
pub proof fn law_recall_paints_the_tile(
    before: Composition,
    slot: u16,
    id: u16,
    points: Seq<Point>,
    px: int,
    py: int,
    k: int,
    j: int,
)
    requires
        before.well_formed(),
        before.cache.contains_key(slot),
        before.surfaces.contains_key(id),
        0 <= px < before.surfaces[id].width,
        0 <= py < before.surfaces[id].height,
        0 <= k < 4,
        last_to_hold(
            points,
            before.cache[slot].width as int,
            before.cache[slot].height as int,
            px,
            py,
            j,
        ),
    ensures
        ({
            let after = before.recalled(slot, id, points);
            let tile = before.cache[slot];
            let at = 4 * (py * before.surfaces[id].width + px) + k;
            &&& only_pixels_of(before, after, id)
            &&& after.frame.len() <= before.frame.len() + points.len()
            &&& j >= 0 ==> after.surfaces[id].data[at] == tile.data[4 * ((py - points[j].y)
                * tile.width + (px - points[j].x)) + k]
            &&& j < 0 ==> after.surfaces[id].data[at] == before.surfaces[id].data[at]
            &&& j >= 0 && before.allocated + 10 * points.len() <= 268_435_456 ==> frame_covers(
                after.frame,
                id,
                px,
                py,
            )
            &&& j < 0 ==> forall|i: int|
                before.frame.len() <= i < after.frame.len() ==> {
                    &&& (#[trigger] after.frame[i]).surface_id == id
                    &&& !(after.frame[i].rect.left <= px < after.frame[i].rect.right
                        && after.frame[i].rect.top <= py < after.frame[i].rect.bottom)
                }
        }),
{
    let tile = before.cache[slot];
    lemma_tiled(
        before,
        id,
        points,
        tile.width as int,
        tile.height as int,
        tile.data,
        px,
        py,
        k,
        j,
    );
}

/// An empty slot paints nothing.
pub proof fn law_empty_slot_paints_nothing(
    before: Composition,
    slot: u16,
    id: u16,
    points: Seq<Point>,
)
    requires
        !before.cache.contains_key(slot),
    ensures
        before.recalled(slot, id, points) == before,
        before.without_tile(slot) == before,
{
}

/// The tile that a slot holds after part of a surface was cached in it is as large
/// as the part of the rectangle that lies on the surface, and has its pixels. The
/// budget alone refuses it, and then the slot is empty. Nothing else changes.
pub proof fn law_cached_tile_has_the_pixels(
    before: Composition,
    id: u16,
    slot: u16,
    rect: ExclusiveRectangle,
    w: int,
    h: int,
    dx: int,
    dy: int,
    k: int,
)
    requires
        before.well_formed(),
        before.surfaces.contains_key(id),
        counts_from(rect.left, rect.right, before.surfaces[id].width, w),
        counts_from(rect.top, rect.bottom, before.surfaces[id].height, h),
    ensures
        ({
            let after = before.cached(id, slot, rect);
            let tile = after.cache[slot];
            let surface = before.surfaces[id];
            let freed = if before.cache.contains_key(slot) {
                before.cache[slot].data.len() as int
            } else {
                0
            };
            &&& after.cache.contains_key(slot) <==> before.allocated - freed + 4 * (w * h)
                <= 268_435_456
            &&& after.cache.contains_key(slot) ==> {
                &&& tile.width == w
                &&& tile.height == h
                &&& tile.data.len() == 4 * (w * h)
                &&& 0 <= dx < w && 0 <= dy < h && 0 <= k < 4 ==> tile.data[4 * (dy * w + dx) + k]
                    == surface.data[4 * ((rect.top + dy) * surface.width + (rect.left + dx)) + k]
                &&& after.allocated == before.allocated - freed + 4 * (w * h)
            }
            &&& !after.cache.contains_key(slot) ==> after.allocated == before.allocated - freed
            &&& forall|other: u16|
                other != slot ==> (#[trigger] after.cache.contains_key(other)
                    <==> before.cache.contains_key(other)) && (before.cache.contains_key(other)
                    ==> after.cache[other] == before.cache[other])
            &&& after.surfaces == before.surfaces
            &&& after.staged == before.staged
            &&& after.frame == before.frame
            &&& after.ready == before.ready
            &&& after.requested_width == before.requested_width
            &&& after.requested_height == before.requested_height
        }),
{
    let surface = before.surfaces[id];
    assert(w == surface.clamped_width(rect) && h == surface.clamped_height(rect));
    assert(4 * w * h == 4 * (w * h)) by (nonlinear_arith);
    assert(0 <= w * h) by (nonlinear_arith)
        requires
            0 <= w,
            0 <= h,
    ;
    if 0 <= dx < w && 0 <= dy < h && 0 <= k < 4 {
        surface.lemma_clamped_region_reads(rect, dx, dy, k);
        lemma_channel_at(w, dx, dy, k);
        lemma_channel_at(surface.width as int, rect.left + dx, rect.top + dy, k);
    }
}

/// Evicting a slot empties it, releases its bytes and changes nothing else.
pub proof fn law_eviction_empties_one_slot(before: Composition, slot: u16, other: u16)
    requires
        before.cache.contains_key(slot),
        other != slot,
    ensures
        ({
            let after = before.without_tile(slot);
            &&& !after.cache.contains_key(slot)
            &&& after.cache.contains_key(other) <==> before.cache.contains_key(other)
            &&& before.cache.contains_key(other) ==> after.cache[other] == before.cache[other]
            &&& after.allocated == before.allocated - before.cache[slot].data.len()
            &&& after.surfaces == before.surfaces
            &&& after.staged == before.staged
            &&& after.frame == before.frame
            &&& after.ready == before.ready
            &&& after.requested_width == before.requested_width
            &&& after.requested_height == before.requested_height
        }),
{
}

/// A surface that was created is there unless the budget refuses it, of the size
/// asked for, all of its bytes zero, and not shown; a surface that bore its number
/// is gone either way. A size of nothing, or over the limit on an edge, changes
/// nothing. Nothing but that surface and its bytes' charge changes.
pub proof fn law_created_surface_is_blank(
    before: Composition,
    id: u16,
    width: u16,
    height: u16,
    other: u16,
)
    requires
        other != id,
    ensures
        ({
            let after = before.with_surface(id, width, height);
            let surface = after.surfaces[id];
            let freed = if before.surfaces.contains_key(id) {
                before.surfaces[id].data.len() as int
            } else {
                0
            };
            let sized = 1 <= width <= 16384 && 1 <= height <= 16384;
            &&& !sized ==> after == before
            &&& sized ==> (after.surfaces.contains_key(id) <==> before.allocated - freed + 4 * (width
                * height) <= 268_435_456)
            &&& sized && after.surfaces.contains_key(id) ==> {
                &&& surface.width == width
                &&& surface.height == height
                &&& surface.data.len() == 4 * (width * height)
                &&& forall|i: int| 0 <= i < surface.data.len() ==> #[trigger] surface.data[i] == 0
                &&& surface.mapping is None
                &&& after.allocated == before.allocated - freed + 4 * (width * height)
            }
            &&& sized && !after.surfaces.contains_key(id) ==> after.allocated == before.allocated
                - freed
            &&& after.surfaces.contains_key(other) <==> before.surfaces.contains_key(other)
            &&& before.surfaces.contains_key(other) ==> after.surfaces[other]
                == before.surfaces[other]
            &&& after.cache == before.cache
            &&& after.staged == before.staged
            &&& after.frame == before.frame
            &&& after.ready == before.ready
            &&& after.requested_width == before.requested_width
            &&& after.requested_height == before.requested_height
        }),
{
    assert(4 * width * height == 4 * (width * height)) by (nonlinear_arith);
    assert(0 <= width * height) by (nonlinear_arith);
}

/// A surface that was deleted is gone, its bytes are released, and nothing else
/// changes.
pub proof fn law_deleted_surface_is_gone(before: Composition, id: u16, other: u16)
    requires
        before.surfaces.contains_key(id),
        other != id,
    ensures
        ({
            let after = before.without_surface(id);
            &&& !after.surfaces.contains_key(id)
            &&& after.surfaces.contains_key(other) <==> before.surfaces.contains_key(other)
            &&& before.surfaces.contains_key(other) ==> after.surfaces[other]
                == before.surfaces[other]
            &&& after.allocated == before.allocated - before.surfaces[id].data.len()
            &&& after.cache == before.cache
            &&& after.staged == before.staged
            &&& after.frame == before.frame
            &&& after.ready == before.ready
            &&& after.requested_width == before.requested_width
            &&& after.requested_height == before.requested_height
        }),
{
}

/// A surface that was mapped is shown as the mapping says, whatever showed it
/// before, with the pixels that it had; and every pixel of it is noted as changed,
/// unless the budget refuses the entry. Nothing else changes.
pub proof fn law_mapped_surface_is_shown(
    before: Composition,
    id: u16,
    mapping: OutputMapping,
    px: int,
    py: int,
    other: u16,
)
    requires
        before.well_formed(),
        before.surfaces.contains_key(id),
        0 <= px < before.surfaces[id].width,
        0 <= py < before.surfaces[id].height,
        other != id,
    ensures
        ({
            let after = before.mapped(id, mapping);
            &&& after.surfaces.contains_key(id)
            &&& after.surfaces[id].mapping == Some(mapping)
            &&& after.surfaces[id].width == before.surfaces[id].width
            &&& after.surfaces[id].height == before.surfaces[id].height
            &&& after.surfaces[id].data == before.surfaces[id].data
            &&& after.surfaces.contains_key(other) <==> before.surfaces.contains_key(other)
            &&& before.surfaces.contains_key(other) ==> after.surfaces[other]
                == before.surfaces[other]
            &&& before.allocated + 10 <= 268_435_456 ==> frame_covers(after.frame, id, px, py)
            &&& before.frame.len() <= after.frame.len() <= before.frame.len() + 1
            &&& after.frame.take(before.frame.len() as int) == before.frame
            &&& after.allocated == before.allocated + 10 * (after.frame.len() - before.frame.len())
            &&& after.cache == before.cache
            &&& after.staged == before.staged
            &&& after.ready == before.ready
            &&& after.requested_width == before.requested_width
            &&& after.requested_height == before.requested_height
        }),
{
    let surface = before.surfaces[id];
    let shown = SurfaceState { mapping: Some(mapping), ..surface };
    let written = before.with_surface_state(id, shown);
    before.law_with_surface_state(id, shown);
    law_change_is_noted(written, id, 0, 0, surface.width as int, surface.height as int, px, py);
    let after = before.mapped(id, mapping);
    assert(after == written.marked(id, 0, 0, surface.width as int, surface.height as int));
    if before.allocated + 10 <= 268_435_456 {
        assert(after.frame[after.frame.len() - 1] == after.frame.last());
    }
}

/// A reset to the size asked for last changes nothing. Any other drops the frame
/// being built and the updates that wait, releases what they were charged, and
/// changes nothing else but the output's size, which is the size asked for, as far
/// as a coordinate reaches.
pub proof fn law_reset_drops_output_of_another_size(before: Composition, width: u32, height: u32)
    ensures
        ({
            let after = before.reset(width, height);
            let same = width == before.requested_width && height == before.requested_height;
            &&& after.requested_width == width
            &&& after.requested_height == height
            &&& width <= 65535 ==> after.output_width() == width
            &&& width > 65535 ==> after.output_width() == 65535
            &&& height <= 65535 ==> after.output_height() == height
            &&& height > 65535 ==> after.output_height() == 65535
            &&& same ==> after == before
            &&& !same ==> {
                &&& after.frame.len() == 0
                &&& after.ready.len() == 0
                &&& after.allocated == before.allocated - before.ready_bytes() - 10
                    * before.frame.len()
            }
            &&& after.surfaces == before.surfaces
            &&& after.cache == before.cache
            &&& after.staged == before.staged
        }),
{
}

/// Draining leaves no update waiting and changes nothing else but their charge.
pub proof fn law_drained_output_is_gone(before: Composition)
    ensures
        ({
            let after = before.drained();
            &&& after.ready.len() == 0
            &&& after.allocated == before.allocated - before.ready_bytes()
            &&& after.surfaces == before.surfaces
            &&& after.cache == before.cache
            &&& after.staged == before.staged
            &&& after.frame == before.frame
            &&& after.requested_width == before.requested_width
            &&& after.requested_height == before.requested_height
        }),
{
}

/// What is held adds up: nothing waits or is staged in no bytes, and one more update
/// that waits, or tile that is staged, adds its own.
pub proof fn law_held_bytes_add_up(
    before: Composition,
    update: UpdateState,
    staged: StagedState,
)
    ensures
        before.ready.len() == 0 ==> before.ready_bytes() == 0,
        before.staged.len() == 0 ==> before.staged_bytes() == 0,
        (Composition { ready: before.ready.push(update), ..before }).ready_bytes()
            == before.ready_bytes() + update.data.len(),
        (Composition { staged: before.staged.push(Some(staged)), ..before }).staged_bytes()
            == before.staged_bytes() + staged.tile.data.len(),
        (Composition { staged: before.staged.push(None), ..before }).staged_bytes()
            == before.staged_bytes(),
{
    let lens = before.ready.map_values(|u: UpdateState| u.data.len());
    assert(before.ready.push(update).map_values(|u: UpdateState| u.data.len()) =~= lens.push(
        update.data.len(),
    ));
    super::accounts::lemma_seq_total_push(lens, update.data.len());
    before.lemma_staged_pushed(Some(staged));
    before.lemma_staged_pushed(None);
    if before.staged.len() == 0 {
        assert(before.staged.map_values(
            |e: Option<StagedState>| super::model::staged_len(e),
        ).len() == 0);
    }
}

} // verus!
