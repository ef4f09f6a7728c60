//! What the output shows of the surfaces, pixel by pixel.
//!
//! Output column `ox` of a surface `w` pixels wide that is shown `t` columns wide
//! from column `o` on shows the surface's column `(ox - o) * w / t`, rounded down;
//! rows alike.
use vstd::prelude::*;

use super::model::{Composition, SurfaceState, UpdateState};
use super::DirtyRegion;
use crate::geometry::ExclusiveRectangle;

verus! {

/// Output position `at` shows a position in `low..high` of a length that is shown
/// `target` long from `origin` on.
pub open spec fn samples(
    at: int,
    origin: int,
    target: int,
    length: int,
    low: int,
    high: int,
) -> bool {
    origin <= at < origin + target && low <= (at - origin) * length / target < high
}

/// The pixel at `(x, y)` lies in the rectangle.
pub open spec fn holds(rect: ExclusiveRectangle, x: int, y: int) -> bool {
    rect.left <= x < rect.right && rect.top <= y < rect.bottom
}

/// The surface of the dirty region is there and shown, and the region lies on it.
pub open spec fn lies_on_shown(c: Composition, dirty: DirtyRegion) -> bool {
    &&& c.surfaces.contains_key(dirty.surface_id)
    &&& c.surfaces[dirty.surface_id].mapping is Some
    &&& dirty.rect.left < dirty.rect.right <= c.surfaces[dirty.surface_id].width
    &&& dirty.rect.top < dirty.rect.bottom <= c.surfaces[dirty.surface_id].height
}

/// `(ox, oy)` is a pixel of the output.
pub open spec fn in_output(c: Composition, ox: int, oy: int) -> bool {
    0 <= ox < c.requested_width && ox < 65535 && 0 <= oy < c.requested_height && oy < 65535
}

/// The output's pixel at `(ox, oy)` shows a pixel of the dirty region.
pub open spec fn shows(c: Composition, dirty: DirtyRegion, ox: int, oy: int) -> bool {
    let surface = c.surfaces[dirty.surface_id];
    let mapping = surface.mapping->0;
    &&& samples(
        ox,
        mapping.origin.0 as int,
        mapping.target_width as int,
        surface.width as int,
        dirty.rect.left as int,
        dirty.rect.right as int,
    )
    &&& samples(
        oy,
        mapping.origin.1 as int,
        mapping.target_height as int,
        surface.height as int,
        dirty.rect.top as int,
        dirty.rect.bottom as int,
    )
}

/// Channel `k` of the surface's pixel that the output shows at `(ox, oy)`.
pub open spec fn shown_byte(surface: SurfaceState, ox: int, oy: int, k: int) -> u8 {
    let mapping = surface.mapping->0;
    let sx = (ox - mapping.origin.0) * surface.width / (mapping.target_width as int);
    let sy = (oy - mapping.origin.1) * surface.height / (mapping.target_height as int);
    surface.data[4 * (sy * surface.width + sx) + k]
}

/// The edges of a region, as the output shows them, bound the output positions that
/// show it.
proof fn lemma_shown_edges(
    at: int,
    origin: int,
    target: int,
    length: int,
    low: int,
    high: int,
    limit: int,
)
    requires
        0 <= at < limit <= u16::MAX,
        0 <= origin,
        0 <= target <= u32::MAX,
        0 < length <= u16::MAX,
        0 <= low <= high <= length,
    ensures
        super::model::shown_edge(low, length, target, origin, limit) <= at
            < super::model::shown_edge(high, length, target, origin, limit) <==> samples(
            at,
            origin,
            target,
            length,
            low,
            high,
        ),
        super::model::shown_edge(low, length, target, origin, limit) <= at ==> origin
            + super::pixels::edge_scaled(low, length, target) == super::model::shown_edge(
            low,
            length,
            target,
            origin,
            limit,
        ),
        super::model::shown_edge(high, length, target, origin, limit) <= origin
            + super::pixels::edge_scaled(high, length, target),
        samples(at, origin, target, length, low, high) ==> super::pixels::source_position(
            at - origin,
            length,
            target,
        ) == (at - origin) * length / target,
{
    lemma_edge_in_target(low, length, target);
    lemma_edge_in_target(high, length, target);
    if origin <= at < origin + target {
        super::pixels::law_scaled_edges_cover_samples(at - origin, low, high, length, target);
        let product = (at - origin) * length;
        vstd::arithmetic::div_mod::lemma_fundamental_div_mod(product, target);
        assert(product / target < length) by (nonlinear_arith)
            requires
                product == (at - origin) * length,
                at - origin < target,
                product == target * (product / target) + product % target,
                0 <= product % target,
                0 < length,
                0 < target,
        ;
    }
}

/// A scaled edge lies inside the target.
proof fn lemma_edge_in_target(edge: int, length: int, target: int)
    requires
        0 < length,
        0 <= edge <= length,
        0 <= target <= u32::MAX,
    ensures
        0 <= super::pixels::edge_scaled(edge, length, target) <= target,
{
    let raised = edge * target + length - 1;
    vstd::arithmetic::div_mod::lemma_fundamental_div_mod(raised, length);
    assert(0 <= raised / length <= target) by (nonlinear_arith)
        requires
            raised == edge * target + length - 1,
            raised == length * (raised / length) + raised % length,
            0 <= raised % length < length,
            0 <= edge <= length,
            0 <= target,
            0 < length,
    ;
}

/// A surface shown in its own size has every edge where it was.
proof fn lemma_edge_unscaled(edge: int, length: int)
    requires
        0 < length <= u16::MAX,
        0 <= edge <= length,
    ensures
        super::pixels::edge_scaled(edge, length, length) == edge,
{
    let raised = edge * length + length - 1;
    vstd::arithmetic::div_mod::lemma_fundamental_div_mod_converse(raised, length, edge, length - 1);
}

/// The rectangle of the output that shows a dirty region holds exactly the pixels
/// that show a pixel of it, and lies inside the output.
proof fn lemma_shown_region(c: Composition, dirty: DirtyRegion, ox: int, oy: int)
    requires
        c.well_formed(),
        lies_on_shown(c, dirty),
        in_output(c, ox, oy),
    ensures
        ({
            let mapping = c.surfaces[dirty.surface_id].mapping->0;
            let region = c.shown_region(dirty, mapping);
            &&& holds(region, ox, oy) <==> shows(c, dirty, ox, oy)
            &&& region.right <= c.requested_width
            &&& region.bottom <= c.requested_height
        }),
{
    let surface = c.surfaces[dirty.surface_id];
    let mapping = surface.mapping->0;
    lemma_shown_edges(
        ox,
        mapping.origin.0 as int,
        mapping.target_width as int,
        surface.width as int,
        dirty.rect.left as int,
        dirty.rect.right as int,
        c.output_width() as int,
    );
    lemma_shown_edges(
        oy,
        mapping.origin.1 as int,
        mapping.target_height as int,
        surface.height as int,
        dirty.rect.top as int,
        dirty.rect.bottom as int,
        c.output_height() as int,
    );
}

/// The bytes of an update at a pixel that shows a pixel of the dirty region.
#[verifier::spinoff_prover]
proof fn lemma_shown_pixels(c: Composition, dirty: DirtyRegion, ox: int, oy: int, k: int)
    requires
        c.well_formed(),
        lies_on_shown(c, dirty),
        in_output(c, ox, oy),
        shows(c, dirty, ox, oy),
        0 <= k < 4,
        ({
            let region = c.shown_region(dirty, c.surfaces[dirty.surface_id].mapping->0);
            4 * (region.right - region.left) * (region.bottom - region.top) <= usize::MAX
        }),
    ensures
        ({
            let mapping = c.surfaces[dirty.surface_id].mapping->0;
            let region = c.shown_region(dirty, mapping);
            let at = 4 * ((oy - region.top) * (region.right - region.left) + (ox - region.left))
                + k;
            let data = c.shown_pixels(dirty, mapping, region);
            &&& data.len() == 4 * (region.right - region.left) * (region.bottom - region.top)
            &&& data[at] == shown_byte(c.surfaces[dirty.surface_id], ox, oy, k)
        }),
{
    let surface = c.surfaces[dirty.surface_id];
    let mapping = surface.mapping->0;
    let region = c.shown_region(dirty, mapping);
    let width = surface.width as int;
    let height = surface.height as int;
    let tw = mapping.target_width as int;
    let th = mapping.target_height as int;
    let o0 = mapping.origin.0 as int;
    let o1 = mapping.origin.1 as int;
    let w = region.right - region.left;
    let h = region.bottom - region.top;
    lemma_shown_region(c, dirty, ox, oy);
    lemma_shown_edges(
        ox,
        o0,
        tw,
        width,
        dirty.rect.left as int,
        dirty.rect.right as int,
        c.output_width() as int,
    );
    lemma_shown_edges(
        oy,
        o1,
        th,
        height,
        dirty.rect.top as int,
        dirty.rect.bottom as int,
        c.output_height() as int,
    );
    let dx = ox - region.left;
    let dy = oy - region.top;
    let sx = (ox - o0) * width / tw;
    let sy = (oy - o1) * height / th;
    super::pixels::lemma_channel_index(w, h, dx, dy, k);
    assert(dy * (4 * w) + (4 * dx + k) == 4 * (dy * w + dx) + k) by (nonlinear_arith);
    assert(sy * (4 * width) + (4 * sx + k) == 4 * (sy * width + sx) + k) by (nonlinear_arith);
    assert(0 <= 4 * w * h) by (nonlinear_arith)
        requires
            0 <= w,
            0 <= h,
    ;
    if tw == width && th == height {
        lemma_edge_unscaled(dirty.rect.left as int, width);
        lemma_edge_unscaled(dirty.rect.right as int, width);
        lemma_edge_unscaled(dirty.rect.top as int, height);
        lemma_edge_unscaled(dirty.rect.bottom as int, height);
        vstd::arithmetic::div_mod::lemma_div_multiples_vanish(ox - o0, width);
        vstd::arithmetic::div_mod::lemma_div_multiples_vanish(oy - o1, height);
        assert((ox - o0) * width == width * (ox - o0)) by (nonlinear_arith);
        assert((oy - o1) * height == height * (oy - o1)) by (nonlinear_arith);
        super::pixels::law_region_reads(
            surface.data,
            width,
            height,
            dirty.rect.left as int,
            dirty.rect.top as int,
            w,
            h,
            dx,
            dy,
            k,
        );
    } else {
        lemma_edge_in_target(dirty.rect.left as int, width, tw);
        lemma_edge_in_target(dirty.rect.top as int, height, th);
        super::pixels::lemma_channel_index(width, height, sx, sy, 3);
        super::pixels::lemma_channel_index(width, height, sx, sy, k);
        let i = dy * (4 * w) + (4 * dx + k);
        assert(i / (4 * w) == dy);
        assert(i % (4 * w) == 4 * dx + k);
        assert((4 * dx + k) / 4 == dx);
        assert((4 * dx + k) % 4 == k);
    }
}

/// What the end of a frame makes of one dirty region that lies on a shown surface:
/// an update whose rectangle holds exactly the output's pixels that show a pixel of
/// the region, and whose bytes there are that pixel's. No update is queued only
/// where none shows or the budget refuses its bytes. Nothing else changes.
pub proof fn law_update_shows_the_surface(
    before: Composition,
    dirty: DirtyRegion,
    ox: int,
    oy: int,
    k: int,
)
    requires
        before.well_formed(),
        lies_on_shown(before, dirty),
        in_output(before, ox, oy),
        0 <= k < 4,
    ensures
        ({
            let after = before.materialized(dirty);
            let n = before.ready.len() as int;
            let mapping = before.surfaces[dirty.surface_id].mapping->0;
            let region = before.shown_region(dirty, mapping);
            let w = region.right - region.left;
            let h = region.bottom - region.top;
            let update = after.ready[n];
            &&& holds(region, ox, oy) <==> shows(before, dirty, ox, oy)
            &&& shows(before, dirty, ox, oy) && before.allocated + 4 * (w * h) <= 268_435_456
                ==> after.ready.len() == n + 1
            &&& before.allocated + 4 * (w * h) > 268_435_456 ==> after == before
            &&& after.ready.len() == n + 1 || after == before
            &&& after.ready.len() == n + 1 ==> {
                &&& after.ready.take(n) == before.ready
                &&& update.region == region
                &&& region.left < region.right <= before.requested_width
                &&& region.top < region.bottom <= before.requested_height
                &&& update.data.len() == 4 * (w * h)
                &&& shows(before, dirty, ox, oy) ==> update.data[4 * ((oy - region.top) * w + (ox
                    - region.left)) + k] == shown_byte(
                    before.surfaces[dirty.surface_id],
                    ox,
                    oy,
                    k,
                )
                &&& after.allocated == before.allocated + 4 * (w * h)
            }
            &&& after.surfaces == before.surfaces
            &&& after.cache == before.cache
            &&& after.staged == before.staged
            &&& after.frame == before.frame
            &&& after.requested_width == before.requested_width
            &&& after.requested_height == before.requested_height
        }),
{
    let after = before.materialized(dirty);
    let n = before.ready.len() as int;
    let mapping = before.surfaces[dirty.surface_id].mapping->0;
    let region = before.shown_region(dirty, mapping);
    let w = region.right - region.left;
    let h = region.bottom - region.top;
    assert(4 * w * h == 4 * (w * h)) by (nonlinear_arith);
    lemma_shown_region(before, dirty, ox, oy);
    before.law_materialized(dirty);
    if after.ready.len() == n + 1 {
        assert(after.ready.take(n) =~= before.ready);
        assert(after.ready[n].well_formed());
        if shows(before, dirty, ox, oy) {
            lemma_shown_pixels(before, dirty, ox, oy, k);
        }
    }
}

/// A surface that is gone or not shown adds nothing to the output.
pub proof fn law_hidden_surface_is_not_output(before: Composition, dirty: DirtyRegion)
    requires
        !before.surfaces.contains_key(dirty.surface_id)
            || before.surfaces[dirty.surface_id].mapping is None,
    ensures
        before.materialized(dirty) == before,
{
}

/// The update shows the dirty region: its rectangle holds exactly the output's
/// pixels that show a pixel of it, and its bytes there are that pixel's.
pub open spec fn update_shows(c: Composition, dirty: DirtyRegion, update: UpdateState) -> bool {
    let surface = c.surfaces[dirty.surface_id];
    let region = update.region;
    &&& c.surfaces.contains_key(dirty.surface_id)
    &&& surface.mapping is Some
    &&& forall|ox: int, oy: int|
        in_output(c, ox, oy) ==> (holds(region, ox, oy) <==> #[trigger] shows(c, dirty, ox, oy))
    &&& forall|ox: int, oy: int, k: int|
        in_output(c, ox, oy) && 0 <= k < 4 && shows(c, dirty, ox, oy) ==> update.data[4 * ((oy
            - region.top) * (region.right - region.left) + (ox - region.left)) + k]
            == #[trigger] shown_byte(surface, ox, oy, k)
}

/// The entries that the updates queued by the end of a frame come from, and what
/// holds of the composition meanwhile.
#[verifier::rlimit(40)]
proof fn lemma_updates_in_order(c: Composition, frame: Seq<DirtyRegion>) -> (from: Seq<int>)
    requires
        c.well_formed(),
    ensures
        ({
            let after = c.materialized_all(frame);
            let n = c.ready.len() as int;
            &&& after.ready.len() == n + from.len()
            &&& after.ready.take(n) == c.ready
            &&& after.requested_width == c.requested_width
            &&& after.requested_height == c.requested_height
            &&& c.allocated <= after.allocated
            &&& forall|j: int| 0 <= j < from.len() ==> 0 <= #[trigger] from[j] < frame.len()
            &&& forall|j: int, l: int| 0 <= j < l < from.len() ==> from[j] < from[l]
            &&& forall|j: int|
                0 <= j < from.len() && lies_on_shown(c, frame[from[j]]) ==> #[trigger] update_shows(
                    c,
                    frame[from[j]],
                    after.ready[n + j],
                )
            &&& forall|i: int, ox: int, oy: int|
                #![trigger shows(c, frame[i], ox, oy)]
                0 <= i < frame.len() && lies_on_shown(c, frame[i]) && in_output(c, ox, oy) && shows(
                    c,
                    frame[i],
                    ox,
                    oy,
                ) && !from.contains(i) ==> {
                    let region = c.shown_region(
                        frame[i],
                        c.surfaces[frame[i].surface_id].mapping->0,
                    );
                    after.allocated + 4 * ((region.right - region.left) * (region.bottom
                        - region.top)) > 268_435_456
                }
        }),
    decreases frame.len(),
{
    let after = c.materialized_all(frame);
    let n = c.ready.len() as int;
    if frame.len() == 0 {
        assert(after.ready.take(n) =~= c.ready);
        Seq::empty()
    } else {
        let rest = frame.drop_last();
        let dirty = frame.last();
        let at = frame.len() - 1;
        let middle = c.materialized_all(rest);
        c.law_materialized_all(rest);
        middle.law_materialized(dirty);
        let earlier = lemma_updates_in_order(c, rest);
        assert(after == middle.materialized(dirty));
        let queued = after.ready.len() > middle.ready.len();
        let from = if queued {
            earlier.push(at)
        } else {
            earlier
        };
        let m = middle.ready.len() as int;
        assert(after.ready.take(m) =~= middle.ready);
        assert(after.ready.take(n) =~= c.ready) by {
            assert(after.ready.take(m).take(n) =~= after.ready.take(n));
        }
        assert(c.allocated <= after.allocated) by {
            if queued {
                let mapping = middle.surfaces[dirty.surface_id].mapping->0;
                let region = middle.shown_region(dirty, mapping);
                assert(0 <= 4 * (region.right - region.left) * (region.bottom - region.top))
                    by (nonlinear_arith)
                    requires
                        region.left <= region.right,
                        region.top <= region.bottom,
                ;
            }
        }
        assert(middle.allocated <= after.allocated) by {
            if queued {
                let mapping = middle.surfaces[dirty.surface_id].mapping->0;
                let region = middle.shown_region(dirty, mapping);
                assert(0 <= 4 * (region.right - region.left) * (region.bottom - region.top))
                    by (nonlinear_arith)
                    requires
                        region.left <= region.right,
                        region.top <= region.bottom,
                ;
            }
        }
        assert forall|j: int| 0 <= j < from.len() implies 0 <= #[trigger] from[j] < frame.len() by {
            if j < earlier.len() {
                assert(from[j] == earlier[j]);
            }
        }
        assert forall|j: int, l: int| 0 <= j < l < from.len() implies from[j] < from[l] by {
            assert(from[j] == earlier[j]);
            if l < earlier.len() {
                assert(from[l] == earlier[l]);
            }
        }
        assert forall|j: int|
            0 <= j < from.len() && lies_on_shown(c, frame[from[j]]) implies #[trigger] update_shows(
            c,
            frame[from[j]],
            after.ready[n + j],
        ) by {
            if j < earlier.len() {
                assert(from[j] == earlier[j]);
                assert(frame[from[j]] == rest[earlier[j]]);
                assert(after.ready.take(m)[n + j] == middle.ready[n + j]);
                assert(update_shows(c, rest[earlier[j]], middle.ready[n + j]));
            } else {
                lemma_one_update(c, middle, dirty);
            }
        }
        assert forall|i: int, ox: int, oy: int|
            #![trigger shows(c, frame[i], ox, oy)]
            0 <= i < frame.len() && lies_on_shown(c, frame[i]) && in_output(c, ox, oy) && shows(
                c,
                frame[i],
                ox,
                oy,
            ) && !from.contains(i) implies {
            let region = c.shown_region(frame[i], c.surfaces[frame[i].surface_id].mapping->0);
            after.allocated + 4 * ((region.right - region.left) * (region.bottom - region.top))
                > 268_435_456
        } by {
            if i < at {
                assert(frame[i] == rest[i]);
                assert(!earlier.contains(i)) by {
                    if earlier.contains(i) {
                        let j = choose|j: int| 0 <= j < earlier.len() && earlier[j] == i;
                        assert(from[j] == i);
                    }
                }
                assert(shows(c, rest[i], ox, oy));
            } else {
                assert(!queued) by {
                    if queued {
                        assert(from[earlier.len() as int] == at);
                    }
                }
                law_update_shows_the_surface(middle, dirty, ox, oy, 0);
                let region = c.shown_region(dirty, c.surfaces[dirty.surface_id].mapping->0);
                assert(region == middle.shown_region(
                    dirty,
                    middle.surfaces[dirty.surface_id].mapping->0,
                ));
                assert(shows(middle, dirty, ox, oy));
            }
        }
        from
    }
}

/// An update queued while a frame ends shows its dirty region of the surfaces as
/// they were when it began to end.
proof fn lemma_one_update(c: Composition, middle: Composition, dirty: DirtyRegion)
    requires
        middle.well_formed(),
        middle.surfaces == c.surfaces,
        middle.requested_width == c.requested_width,
        middle.requested_height == c.requested_height,
        lies_on_shown(c, dirty),
        middle.materialized(dirty).ready.len() > middle.ready.len(),
    ensures
        update_shows(c, dirty, middle.materialized(dirty).ready[middle.ready.len() as int]),
{
    let update = middle.materialized(dirty).ready[middle.ready.len() as int];
    let region = update.region;
    let surface = c.surfaces[dirty.surface_id];
    assert forall|ox: int, oy: int| in_output(c, ox, oy) implies (holds(region, ox, oy)
        <==> #[trigger] shows(c, dirty, ox, oy)) by {
        law_update_shows_the_surface(middle, dirty, ox, oy, 0);
        assert(shows(middle, dirty, ox, oy) == shows(c, dirty, ox, oy));
    }
    assert forall|ox: int, oy: int, k: int|
        in_output(c, ox, oy) && 0 <= k < 4 && shows(c, dirty, ox, oy) implies update.data[4 * ((oy
        - region.top) * (region.right - region.left) + (ox - region.left)) + k]
        == #[trigger] shown_byte(surface, ox, oy, k) by {
        assert(shows(middle, dirty, ox, oy) == shows(c, dirty, ox, oy));
        law_update_shows_the_surface(middle, dirty, ox, oy, k);
    }
}

/// The end of a frame empties it and leaves surfaces, cache, staged tiles and the
/// updates that already waited as they were. Behind those it queues updates in the
/// order of the frame's entries: the `j`th comes from entry `from[j]`, and shows it
/// where the entry lies on a shown surface. Such an entry of which the output shows
/// a pixel is passed over only if what is then held leaves no room for its bytes.
#[verifier::rlimit(40)]
pub proof fn law_frame_end_shows_every_entry(before: Composition) -> (from: Seq<int>)
    requires
        before.well_formed(),
    ensures
        ({
            let after = before.frame_ended();
            let frame = before.frame;
            let n = before.ready.len() as int;
            &&& after.frame.len() == 0
            &&& after.surfaces == before.surfaces
            &&& after.cache == before.cache
            &&& after.staged == before.staged
            &&& after.requested_width == before.requested_width
            &&& after.requested_height == before.requested_height
            &&& after.ready.len() == n + from.len()
            &&& after.ready.take(n) == before.ready
            &&& forall|j: int| 0 <= j < from.len() ==> 0 <= #[trigger] from[j] < frame.len()
            &&& forall|j: int, l: int| 0 <= j < l < from.len() ==> from[j] < from[l]
            &&& forall|j: int|
                0 <= j < from.len() && lies_on_shown(before, frame[from[j]])
                    ==> #[trigger] update_shows(before, frame[from[j]], after.ready[n + j])
            &&& forall|i: int, ox: int, oy: int|
                #![trigger shows(before, frame[i], ox, oy)]
                0 <= i < frame.len() && lies_on_shown(before, frame[i]) && in_output(before, ox, oy)
                    && shows(before, frame[i], ox, oy) && !from.contains(i) ==> {
                    let region = before.shown_region(
                        frame[i],
                        before.surfaces[frame[i].surface_id].mapping->0,
                    );
                    after.allocated + 4 * ((region.right - region.left) * (region.bottom
                        - region.top)) > 268_435_456
                }
        }),
{
    let given_up = Composition {
        frame: Seq::empty(),
        allocated: before.allocated - before.frame.len() * super::DIRTY_REGION_BYTES,
        ..before
    };
    let frame = before.frame;
    let n = before.ready.len() as int;
    before.lemma_frame_given_up();
    before.law_frame_ended();
    let from = lemma_updates_in_order(given_up, frame);
    let after = before.frame_ended();
    assert(after == given_up.materialized_all(frame));
    assert forall|j: int| 0 <= j < from.len() && lies_on_shown(before, frame[from[j]]) implies
    #[trigger] update_shows(before, frame[from[j]], after.ready[n + j]) by {
        assert(lies_on_shown(given_up, frame[from[j]]));
        let update = after.ready[n + j];
        let dirty = frame[from[j]];
        assert(update_shows(given_up, dirty, update));
        assert forall|ox: int, oy: int| in_output(before, ox, oy) implies (holds(
            update.region,
            ox,
            oy,
        ) <==> #[trigger] shows(before, dirty, ox, oy)) by {
            assert(in_output(given_up, ox, oy));
            assert(shows(given_up, dirty, ox, oy) == shows(before, dirty, ox, oy));
        }
        assert forall|ox: int, oy: int, k: int|
            in_output(before, ox, oy) && 0 <= k < 4 && shows(before, dirty, ox, oy) implies
        update.data[4 * ((oy - update.region.top) * (update.region.right - update.region.left) + (ox
            - update.region.left)) + k] == #[trigger] shown_byte(
            before.surfaces[dirty.surface_id],
            ox,
            oy,
            k,
        ) by {
            assert(in_output(given_up, ox, oy));
            assert(shows(given_up, dirty, ox, oy) == shows(before, dirty, ox, oy));
            assert(shown_byte(given_up.surfaces[dirty.surface_id], ox, oy, k) == shown_byte(
                before.surfaces[dirty.surface_id],
                ox,
                oy,
                k,
            ));
        }
    }
    assert forall|i: int, ox: int, oy: int|
        #![trigger shows(before, frame[i], ox, oy)]
        0 <= i < frame.len() && lies_on_shown(before, frame[i]) && in_output(before, ox, oy)
            && shows(before, frame[i], ox, oy) && !from.contains(i) implies {
        let region = before.shown_region(frame[i], before.surfaces[frame[i].surface_id].mapping->0);
        after.allocated + 4 * ((region.right - region.left) * (region.bottom - region.top))
            > 268_435_456
    } by {
        assert(lies_on_shown(given_up, frame[i]));
        assert(in_output(given_up, ox, oy));
        assert(shows(given_up, frame[i], ox, oy) == shows(before, frame[i], ox, oy));
    }
    from
}

/// Byte by byte, what is read of a rectangle of a canvas: where the canvas holds the
/// whole row, the pixel as far from the rectangle's top left; zero elsewhere.
pub proof fn law_rectangle_is_read_row_by_row(
    src: Seq<u8>,
    width: int,
    x: int,
    y: int,
    w: int,
    h: int,
    dx: int,
    dy: int,
    k: int,
)
    requires
        0 <= dx < w,
        0 <= dy < h,
        0 <= k < 4,
    ensures
        super::pixels::region(src, width, x, y, w, h)[4 * (dy * w + dx) + k] == if 4 * ((y + dy)
            * width + (x + w)) <= src.len() {
            src[4 * ((y + dy) * width + (x + dx)) + k]
        } else {
            0
        },
        super::pixels::region(src, width, x, y, w, h).len() == 4 * (w * h),
{
    super::pixels::lemma_channel_index(w, h, dx, dy, k);
    assert(dy * (4 * w) + (4 * dx + k) == 4 * (dy * w + dx) + k) by (nonlinear_arith);
    assert((y + dy) * (4 * width) == 4 * ((y + dy) * width)) by (nonlinear_arith);
    assert(4 * w * h == 4 * (w * h)) by (nonlinear_arith);
    assert(0 <= w * h) by (nonlinear_arith)
        requires
            0 <= w,
            0 <= h,
    ;
}

} // verus!
