//! Every command keeps the compositor well formed and its byte accounts exact:
//! what is charged rises and falls with what is held, and never passes the
//! budget. Only the end of a frame queues output, only draining and a reset to
//! other dimensions take any away, and what is queued lies inside the output.
use vstd::prelude::*;

use super::model::{
    Composition, Import, Offer, OfferedState, StagedState, SurfaceState, TileState, UpdateState,
};
use super::{Color, DirtyRegion, OutputMapping};
use crate::geometry::{ExclusiveRectangle, Point};

verus! {

impl Composition {
    /// Writing a surface under a key counts its bytes in place of those that the
    /// key held.
    proof fn lemma_surface_written(self, id: u16, surface: SurfaceState)
        requires
            self.surfaces.dom().finite(),
        ensures
            self.with_surface_state(id, surface).surface_bytes() == self.surface_bytes() + surface.data.len()
                - (if self.surfaces.contains_key(id) {
                self.surfaces[id].data.len()
            } else {
                0
            }),
            self.with_surface_state(id, surface).surfaces.dom().finite(),
    {
        let lens = self.surfaces.map_values(|s: SurfaceState| s.data.len());
        let written = self.surfaces.insert(id, surface).map_values(|s: SurfaceState| s.data.len());
        assert(lens.dom() =~= self.surfaces.dom());
        assert(written =~= lens.insert(id, surface.data.len()));
        super::accounts::lemma_map_total_insert(lens, id, surface.data.len());
        if self.surfaces.contains_key(id) {
            super::accounts::lemma_map_total_remove(lens, id);
        } else {
            super::accounts::lemma_map_total_absent(lens, id);
        }
    }

    /// Removing a surface counts its bytes no more.
    proof fn lemma_surface_removed(self, id: u16)
        requires
            self.surfaces.dom().finite(),
            self.surfaces.contains_key(id),
        ensures
            (Composition { surfaces: self.surfaces.remove(id), ..self }).surface_bytes()
                == self.surface_bytes() - self.surfaces[id].data.len(),
            self.surfaces.remove(id).dom().finite(),
    {
        let lens = self.surfaces.map_values(|s: SurfaceState| s.data.len());
        assert(lens.dom() =~= self.surfaces.dom());
        assert(self.surfaces.remove(id).map_values(|s: SurfaceState| s.data.len()) =~= lens.remove(
            id,
        ));
        super::accounts::lemma_map_total_remove(lens, id);
    }

    /// Writing a tile into a slot counts its bytes in place of those that the slot
    /// held.
    proof fn lemma_tile_written(self, slot: u16, tile: TileState)
        requires
            self.cache.dom().finite(),
        ensures
            (Composition { cache: self.cache.insert(slot, tile), ..self }).cache_bytes()
                == self.cache_bytes() + tile.data.len() - (if self.cache.contains_key(slot) {
                self.cache[slot].data.len()
            } else {
                0
            }),
            self.cache.insert(slot, tile).dom().finite(),
    {
        let lens = self.cache.map_values(|t: TileState| t.data.len());
        let written = self.cache.insert(slot, tile).map_values(|t: TileState| t.data.len());
        assert(lens.dom() =~= self.cache.dom());
        assert(written =~= lens.insert(slot, tile.data.len()));
        super::accounts::lemma_map_total_insert(lens, slot, tile.data.len());
        if self.cache.contains_key(slot) {
            super::accounts::lemma_map_total_remove(lens, slot);
        } else {
            super::accounts::lemma_map_total_absent(lens, slot);
        }
    }

    /// Removing a tile counts its bytes no more.
    proof fn lemma_tile_removed(self, slot: u16)
        requires
            self.cache.dom().finite(),
            self.cache.contains_key(slot),
        ensures
            (Composition { cache: self.cache.remove(slot), ..self }).cache_bytes()
                == self.cache_bytes() - self.cache[slot].data.len(),
            self.cache.remove(slot).dom().finite(),
    {
        let lens = self.cache.map_values(|t: TileState| t.data.len());
        assert(lens.dom() =~= self.cache.dom());
        assert(self.cache.remove(slot).map_values(|t: TileState| t.data.len()) =~= lens.remove(
            slot,
        ));
        super::accounts::lemma_map_total_remove(lens, slot);
    }

    /// Queueing an update counts its bytes.
    proof fn lemma_update_queued(self, update: UpdateState)
        ensures
            (Composition { ready: self.ready.push(update), ..self }).ready_bytes()
                == self.ready_bytes() + update.data.len(),
    {
        let lens = self.ready.map_values(|u: UpdateState| u.data.len());
        assert(self.ready.push(update).map_values(|u: UpdateState| u.data.len()) =~= lens.push(
            update.data.len(),
        ));
        super::accounts::lemma_seq_total_push(lens, update.data.len());
    }

    /// An empty queue holds no bytes.
    proof fn lemma_nothing_ready(self)
        ensures
            (Composition { ready: Seq::empty(), ..self }).ready_bytes() == 0,
    {
        let drained = Composition { ready: Seq::empty(), ..self };
        assert(drained.ready.map_values(|u: UpdateState| u.data.len()).len() == 0);
    }

    /// Nothing staged holds no bytes.
    pub proof fn lemma_nothing_staged(self)
        ensures
            (Composition { staged: Seq::empty(), ..self }).staged_bytes() == 0,
    {
        let cleared = Composition { staged: Seq::empty(), ..self };
        assert(cleared.staged.map_values(
            |e: Option<StagedState>| super::model::staged_len(e),
        ).len() == 0);
    }

    /// Resetting the output keeps surfaces, cache and staged tiles, drops waiting
    /// output only where the dimensions change, and releases exactly what it drops.
    /// Resetting to the same dimensions once more changes nothing, also where they
    /// are beyond what a coordinate reaches.
    pub proof fn law_reset(self, width: u32, height: u32)
        requires
            self.well_formed(),
        ensures
            self.reset(width, height).keeps_accounts_of(self),
            self.updates_fit_output() ==> self.reset(width, height).updates_fit_output(),
            self.reset(width, height).surfaces == self.surfaces,
            self.reset(width, height).cache == self.cache,
            self.reset(width, height).staged == self.staged,
            self.reset(width, height).requested_width == width,
            self.reset(width, height).requested_height == height,
            self.reset(width, height).reset(width, height) == self.reset(width, height),
            width == self.requested_width && height == self.requested_height ==> self.reset(
                width,
                height,
            ) == self,
            width != self.requested_width || height != self.requested_height ==> self.reset(
                width,
                height,
            ).ready.len() == 0 && self.reset(width, height).frame.len() == 0,
    {
        let reset = self.reset(width, height);
        self.lemma_nothing_ready();
        assert(reset.surface_bytes() == self.surface_bytes());
        assert(reset.cache_bytes() == self.cache_bytes());
        assert(reset.staged_bytes() == self.staged_bytes());
        assert(reset == self || reset.ready_bytes() == 0) by {
            if reset != self {
                assert(reset.ready.map_values(|u: UpdateState| u.data.len()).len() == 0);
            }
        }
    }

    /// Deleting a surface releases its bytes.
    pub proof fn law_without_surface(self, id: u16)
        requires
            self.well_formed(),
        ensures
            self.without_surface(id).keeps_accounts_of(self),
            self.without_surface(id).keeps_output_of(self),
            !self.without_surface(id).surfaces.contains_key(id),
    {
        if self.surfaces.contains_key(id) {
            self.lemma_surface_removed(id);
            let after = self.without_surface(id);
            assert(after.surface_bytes() == self.surface_bytes() - self.surfaces[id].data.len());
            assert(after.cache_bytes() == self.cache_bytes());
            assert(after.staged_bytes() == self.staged_bytes());
            assert(after.ready_bytes() == self.ready_bytes());
        }
    }

    /// Creating a surface charges its bytes once, also where it replaces another.
    pub proof fn law_with_surface(self, id: u16, width: u16, height: u16)
        requires
            self.well_formed(),
        ensures
            self.with_surface(id, width, height).keeps_accounts_of(self),
            self.with_surface(id, width, height).keeps_output_of(self),
    {
        if !(width == 0 || height == 0 || width > super::MAX_SURFACE_DIM || height
            > super::MAX_SURFACE_DIM) {
            self.law_without_surface(id);
            let cleared = self.without_surface(id);
            let surface = SurfaceState::blank(width, height);
            assert(0 <= 4 * width * height) by (nonlinear_arith)
                requires
                    0 <= width,
                    0 <= height,
            ;
            cleared.lemma_surface_written(id, surface);
            let after = self.with_surface(id, width, height);
            if cleared.affords(4 * width * height) {
                assert(after.surface_bytes() == cleared.surface_bytes() + surface.data.len());
                assert(after.cache_bytes() == cleared.cache_bytes());
                assert(after.staged_bytes() == cleared.staged_bytes());
                assert(after.ready_bytes() == cleared.ready_bytes());
            }
        }
    }

    /// Replacing a surface by one of the same size changes no account.
    pub proof fn law_with_surface_state(self, id: u16, surface: SurfaceState)
        requires
            self.well_formed(),
            self.surfaces.contains_key(id),
            surface.well_formed(),
            surface.data.len() == self.surfaces[id].data.len(),
        ensures
            self.with_surface_state(id, surface).keeps_accounts_of(self),
            self.with_surface_state(id, surface).keeps_output_of(self),
    {
        self.lemma_surface_written(id, surface);
        let after = self.with_surface_state(id, surface);
        assert(after.cache_bytes() == self.cache_bytes());
        assert(after.staged_bytes() == self.staged_bytes());
        assert(after.ready_bytes() == self.ready_bytes());
    }

    /// Noting a change charges one entry, or nothing where none is noted.
    pub proof fn law_marked(self, id: u16, x: int, y: int, w: int, h: int)
        requires
            self.well_formed(),
        ensures
            self.marked(id, x, y, w, h).keeps_accounts_of(self),
            self.marked(id, x, y, w, h).keeps_output_of(self),
            self.marked(id, x, y, w, h).surfaces == self.surfaces,
            self.marked(id, x, y, w, h).cache == self.cache,
            self.marked(id, x, y, w, h).staged == self.staged,
    {
        let after = self.marked(id, x, y, w, h);
        assert(after.surface_bytes() == self.surface_bytes());
        assert(after.cache_bytes() == self.cache_bytes());
        assert(after.staged_bytes() == self.staged_bytes());
        assert(after.ready_bytes() == self.ready_bytes());
        assert((self.frame.len() + 1) * super::DIRTY_REGION_BYTES == self.frame.len()
            * super::DIRTY_REGION_BYTES + super::DIRTY_REGION_BYTES) by (nonlinear_arith);
    }

    /// Noting changes at several points.
    pub proof fn law_marked_at(self, id: u16, points: Seq<Point>, w: int, h: int)
        requires
            self.well_formed(),
        ensures
            self.marked_at(id, points, w, h).keeps_accounts_of(self),
            self.marked_at(id, points, w, h).keeps_output_of(self),
            self.marked_at(id, points, w, h).surfaces == self.surfaces,
            self.marked_at(id, points, w, h).cache == self.cache,
            self.marked_at(id, points, w, h).staged == self.staged,
        decreases points.len(),
    {
        if points.len() > 0 {
            let point = points.last();
            self.law_marked_at(id, points.drop_last(), w, h);
            self.marked_at(id, points.drop_last(), w, h).law_marked(
                id,
                point.x as int,
                point.y as int,
                w,
                h,
            );
        }
    }

    /// Mapping a surface to the output.
    pub proof fn law_mapped(self, id: u16, mapping: OutputMapping)
        requires
            self.well_formed(),
        ensures
            self.mapped(id, mapping).keeps_accounts_of(self),
            self.mapped(id, mapping).keeps_output_of(self),
    {
        if self.surfaces.contains_key(id) {
            let surface = self.surfaces[id];
            let shown = SurfaceState { mapping: Some(mapping), ..surface };
            self.law_with_surface_state(id, shown);
            self.with_surface_state(id, shown).law_marked(
                id,
                0,
                0,
                surface.width as int,
                surface.height as int,
            );
        }
    }

    /// Painting a bitmap.
    pub proof fn law_painted(self, id: u16, dest: ExclusiveRectangle, rgba: Seq<u8>)
        requires
            self.well_formed(),
        ensures
            self.painted(id, dest, rgba).keeps_accounts_of(self),
            self.painted(id, dest, rgba).keeps_output_of(self),
    {
        if self.surfaces.contains_key(id) {
            let w = super::model::span(dest.left as int, dest.right as int);
            let h = super::model::span(dest.top as int, dest.bottom as int);
            let painted = self.surfaces[id].blitted(dest.left as int, dest.top as int, w, h, rgba);
            self.law_with_surface_state(id, painted);
            self.with_surface_state(id, painted).law_marked(
                id,
                dest.left as int,
                dest.top as int,
                w,
                h,
            );
        }
    }

    /// Filling one rectangle.
    pub proof fn law_filled(self, id: u16, color: Color, rect: ExclusiveRectangle)
        requires
            self.well_formed(),
        ensures
            self.filled(id, color, rect).keeps_accounts_of(self),
            self.filled(id, color, rect).keeps_output_of(self),
    {
        if self.surfaces.contains_key(id) {
            let w = super::model::span(rect.left as int, rect.right as int);
            let h = super::model::span(rect.top as int, rect.bottom as int);
            let surface = self.surfaces[id];
            let data = super::pixels::filled(
                surface.data,
                surface.width as int,
                rect.left as int,
                rect.top as int,
                w,
                h,
                seq![color.r, color.g, color.b, 0xFFu8],
            );
            let filled = SurfaceState { data, ..surface };
            self.law_with_surface_state(id, filled);
            self.with_surface_state(id, filled).law_marked(
                id,
                rect.left as int,
                rect.top as int,
                w,
                h,
            );
        }
    }

    /// Filling several rectangles.
    pub proof fn law_filled_all(self, id: u16, color: Color, rects: Seq<ExclusiveRectangle>)
        requires
            self.well_formed(),
        ensures
            self.filled_all(id, color, rects).keeps_accounts_of(self),
            self.filled_all(id, color, rects).keeps_output_of(self),
        decreases rects.len(),
    {
        if rects.len() > 0 {
            self.law_filled_all(id, color, rects.drop_last());
            self.filled_all(id, color, rects.drop_last()).law_filled(id, color, rects.last());
        }
    }

    /// Writing a tile at several points.
    pub proof fn law_tiled(self, id: u16, points: Seq<Point>, w: int, h: int, tile: Seq<u8>)
        requires
            self.well_formed(),
        ensures
            self.tiled(id, points, w, h, tile).keeps_accounts_of(self),
            self.tiled(id, points, w, h, tile).keeps_output_of(self),
    {
        if self.surfaces.contains_key(id) {
            let surface = self.surfaces[id];
            surface.lemma_blitted_at(points, w, h, tile);
            let tiled = surface.blitted_at(points, w, h, tile);
            self.law_with_surface_state(id, tiled);
            self.with_surface_state(id, tiled).law_marked_at(id, points, w, h);
        }
    }

    /// Copying from one surface to another.
    pub proof fn law_copied(self, src: u16, dst: u16, rect: ExclusiveRectangle, points: Seq<Point>)
        requires
            self.well_formed(),
        ensures
            self.copied(src, dst, rect, points).keeps_accounts_of(self),
            self.copied(src, dst, rect, points).keeps_output_of(self),
    {
        if self.surfaces.contains_key(src) {
            let surface = self.surfaces[src];
            self.law_tiled(
                dst,
                points,
                surface.clamped_width(rect),
                surface.clamped_height(rect),
                surface.clamped_region(rect),
            );
        }
    }

    /// Evicting a cache slot releases its bytes.
    pub proof fn law_without_tile(self, slot: u16)
        requires
            self.well_formed(),
        ensures
            self.without_tile(slot).keeps_accounts_of(self),
            self.without_tile(slot).keeps_output_of(self),
            !self.without_tile(slot).cache.contains_key(slot),
    {
        if self.cache.contains_key(slot) {
            self.lemma_tile_removed(slot);
            let after = self.without_tile(slot);
            assert(after.surface_bytes() == self.surface_bytes());
            assert(after.cache_bytes() == self.cache_bytes() - self.cache[slot].data.len());
            assert(after.staged_bytes() == self.staged_bytes());
            assert(after.ready_bytes() == self.ready_bytes());
        }
    }

    /// Filling a cache slot from a surface charges the tile once, also where it
    /// replaces another.
    pub proof fn law_cached(self, id: u16, slot: u16, rect: ExclusiveRectangle)
        requires
            self.well_formed(),
        ensures
            self.cached(id, slot, rect).keeps_accounts_of(self),
            self.cached(id, slot, rect).keeps_output_of(self),
    {
        if self.surfaces.contains_key(id) {
            let surface = self.surfaces[id];
            let w = surface.clamped_width(rect);
            let h = surface.clamped_height(rect);
            let cleared = self.without_tile(slot);
            self.law_without_tile(slot);
            assert(0 <= 4 * w * h) by (nonlinear_arith)
                requires
                    0 <= w,
                    0 <= h,
            ;
            let tile = TileState {
                width: w as u16,
                height: h as u16,
                data: surface.clamped_region(rect),
            };
            cleared.lemma_tile_written(slot, tile);
            let after = self.cached(id, slot, rect);
            if cleared.affords(4 * w * h) {
                assert(after.surface_bytes() == cleared.surface_bytes());
                assert(after.cache_bytes() == cleared.cache_bytes() + tile.data.len());
                assert(after.staged_bytes() == cleared.staged_bytes());
                assert(after.ready_bytes() == cleared.ready_bytes());
            }
        }
    }

    /// Painting from a cache slot.
    pub proof fn law_recalled(self, slot: u16, id: u16, points: Seq<Point>)
        requires
            self.well_formed(),
        ensures
            self.recalled(slot, id, points).keeps_accounts_of(self),
            self.recalled(slot, id, points).keeps_output_of(self),
    {
        if self.cache.contains_key(slot) {
            let tile = self.cache[slot];
            self.law_tiled(id, points, tile.width as int, tile.height as int, tile.data);
        }
    }

    /// Dropping what is staged releases its bytes.
    pub proof fn law_without_staged(self)
        requires
            self.well_formed(),
        ensures
            self.without_staged().keeps_accounts_of(self),
            self.without_staged().keeps_output_of(self),
    {
        self.lemma_nothing_staged();
        let after = self.without_staged();
        assert(after.surface_bytes() == self.surface_bytes());
        assert(after.cache_bytes() == self.cache_bytes());
        assert(after.ready_bytes() == self.ready_bytes());
        assert(after.staged_bytes() == 0) by {
            assert(after.staged.map_values(
                |e: Option<StagedState>| super::model::staged_len(e),
            ).len() == 0);
        }
    }

    /// Queueing the output of a dirty region charges its pixels, which are as many
    /// as its region has.
    pub proof fn law_materialized(self, dirty: DirtyRegion)
        requires
            self.well_formed(),
        ensures
            self.materialized(dirty).keeps_accounts_of(self),
            self.updates_fit_output() ==> self.materialized(dirty).updates_fit_output(),
            self.materialized(dirty).surfaces == self.surfaces,
            self.materialized(dirty).frame == self.frame,
    {
        let after = self.materialized(dirty);
        if after != self {
            let update = after.ready.last();
            assert(after.ready == self.ready.push(update));
            assert(update.well_formed()) by {
                let mapping = self.surfaces[dirty.surface_id].mapping->0;
                let w = update.region.right - update.region.left;
                let h = update.region.bottom - update.region.top;
                assert(0 <= 4 * w * h) by (nonlinear_arith)
                    requires
                        0 <= w,
                        0 <= h,
                ;
            }
            self.lemma_update_queued(update);
            assert(after.surface_bytes() == self.surface_bytes());
            assert(after.cache_bytes() == self.cache_bytes());
            assert(after.staged_bytes() == self.staged_bytes());
            assert(after.ready_bytes() == self.ready_bytes() + update.data.len());
        }
    }

    /// Queueing the output of several dirty regions.
    pub proof fn law_materialized_all(self, frame: Seq<DirtyRegion>)
        requires
            self.well_formed(),
        ensures
            self.materialized_all(frame).keeps_accounts_of(self),
            self.updates_fit_output() ==> self.materialized_all(frame).updates_fit_output(),
            self.materialized_all(frame).surfaces == self.surfaces,
            self.materialized_all(frame).cache == self.cache,
            self.materialized_all(frame).staged == self.staged,
            self.materialized_all(frame).frame == self.frame,
        decreases frame.len(),
    {
        if frame.len() > 0 {
            self.law_materialized_all(frame.drop_last());
            self.materialized_all(frame.drop_last()).law_materialized(frame.last());
        }
    }

    /// Giving up the entries of the frame releases their bytes.
    pub proof fn lemma_frame_given_up(self)
        requires
            self.well_formed(),
        ensures
            (Composition {
                frame: Seq::empty(),
                allocated: self.allocated - self.frame.len() * super::DIRTY_REGION_BYTES,
                ..self
            }).keeps_accounts_of(self),
    {
        let given_up = Composition {
            frame: Seq::empty(),
            allocated: self.allocated - self.frame.len() * super::DIRTY_REGION_BYTES,
            ..self
        };
        assert(given_up.surface_bytes() == self.surface_bytes());
        assert(given_up.cache_bytes() == self.cache_bytes());
        assert(given_up.staged_bytes() == self.staged_bytes());
        assert(given_up.ready_bytes() == self.ready_bytes());
        assert(0 <= self.frame.len() * super::DIRTY_REGION_BYTES) by (nonlinear_arith);
    }

    /// Ending a frame gives its entries up before it charges for their pixels, and
    /// leaves surfaces, cache and staged tiles as they are.
    pub proof fn law_frame_ended(self)
        requires
            self.well_formed(),
        ensures
            self.frame_ended().keeps_accounts_of(self),
            self.updates_fit_output() ==> self.frame_ended().updates_fit_output(),
            self.frame_ended().frame.len() == 0,
            self.frame_ended().surfaces == self.surfaces,
            self.frame_ended().cache == self.cache,
            self.frame_ended().staged == self.staged,
    {
        let given_up = Composition {
            frame: Seq::empty(),
            allocated: self.allocated - self.frame.len() * super::DIRTY_REGION_BYTES,
            ..self
        };
        self.lemma_frame_given_up();
        given_up.law_materialized_all(self.frame);
    }

    /// Draining releases exactly the bytes of the updates it hands out.
    pub proof fn law_drained(self)
        requires
            self.well_formed(),
        ensures
            self.drained().keeps_accounts_of(self),
    {
        let after = self.drained();
        self.lemma_nothing_ready();
        assert(after.surface_bytes() == self.surface_bytes());
        assert(after.cache_bytes() == self.cache_bytes());
        assert(after.staged_bytes() == self.staged_bytes());
        assert(after.ready_bytes() == 0) by {
            assert(after.ready.map_values(|u: UpdateState| u.data.len()).len() == 0);
        }
    }
}

impl Composition {
    /// A tile that has left its slot for a while leaves the composition well
    /// formed, its bytes counting as reserved meanwhile.
    pub proof fn lemma_tile_lent(self, slot: u16)
        requires
            self.well_formed(),
            self.cache.contains_key(slot),
        ensures
            (Composition { cache: self.cache.remove(slot), ..self }).well_formed(),
    {
        self.lemma_tile_removed(slot);
        let lent = Composition { cache: self.cache.remove(slot), ..self };
        assert(lent.surface_bytes() == self.surface_bytes());
        assert(lent.staged_bytes() == self.staged_bytes());
        assert(lent.ready_bytes() == self.ready_bytes());
    }

    /// Writing a tile at points changes neither the cache nor what is staged or
    /// waits to be drained.
    pub proof fn lemma_tiled_keeps_rest(
        self,
        id: u16,
        points: Seq<Point>,
        w: int,
        h: int,
        tile: Seq<u8>,
    )
        requires
            self.well_formed(),
        ensures
            self.tiled(id, points, w, h, tile).cache == self.cache,
            self.tiled(id, points, w, h, tile).staged == self.staged,
            self.tiled(id, points, w, h, tile).ready == self.ready,
    {
        if self.surfaces.contains_key(id) {
            let surface = self.surfaces[id];
            surface.lemma_blitted_at(points, w, h, tile);
            let tiled = surface.blitted_at(points, w, h, tile);
            self.law_with_surface_state(id, tiled);
            self.with_surface_state(id, tiled).law_marked_at(id, points, w, h);
        }
    }

    /// What the cache holds has no part in noting changes.
    proof fn lemma_marked_at_ignores_cache(
        self,
        cache: Map<u16, TileState>,
        id: u16,
        points: Seq<Point>,
        w: int,
        h: int,
    )
        ensures
            (Composition { cache, ..self }).marked_at(id, points, w, h) == (Composition {
                cache,
                ..self.marked_at(id, points, w, h)
            }),
        decreases points.len(),
    {
        if points.len() > 0 {
            self.lemma_marked_at_ignores_cache(cache, id, points.drop_last(), w, h);
        }
    }

    /// What the cache holds has no part in writing a tile.
    pub proof fn lemma_tiled_ignores_cache(
        self,
        cache: Map<u16, TileState>,
        id: u16,
        points: Seq<Point>,
        w: int,
        h: int,
        tile: Seq<u8>,
    )
        ensures
            (Composition { cache, ..self }).tiled(id, points, w, h, tile) == (Composition {
                cache,
                ..self.tiled(id, points, w, h, tile)
            }),
    {
        if self.surfaces.contains_key(id) {
            let tiled = self.surfaces[id].blitted_at(points, w, h, tile);
            self.with_surface_state(id, tiled).lemma_marked_at_ignores_cache(
                cache,
                id,
                points,
                w,
                h,
            );
        }
    }
}

impl SurfaceState {
    /// Writing pixels changes neither a surface's size nor its mapping.
    pub proof fn lemma_blitted_at(self, points: Seq<Point>, w: int, h: int, src: Seq<u8>)
        ensures
            self.blitted_at(points, w, h, src).width == self.width,
            self.blitted_at(points, w, h, src).height == self.height,
            self.blitted_at(points, w, h, src).mapping == self.mapping,
            self.blitted_at(points, w, h, src).data.len() == self.data.len(),
        decreases points.len(),
    {
        if points.len() > 0 {
            self.lemma_blitted_at(points.drop_last(), w, h, src);
        }
    }
}

impl Composition {
    /// Staging an entry counts its bytes.
    pub proof fn lemma_staged_pushed(self, entry: Option<StagedState>)
        ensures
            (Composition { staged: self.staged.push(entry), ..self }).staged_bytes()
                == self.staged_bytes() + super::model::staged_len(entry),
    {
        let lens = self.staged.map_values(|e: Option<StagedState>| super::model::staged_len(e));
        assert(self.staged.push(entry).map_values(
            |e: Option<StagedState>| super::model::staged_len(e),
        ) =~= lens.push(super::model::staged_len(entry)));
        super::accounts::lemma_seq_total_push(lens, super::model::staged_len(entry));
    }

    /// Taking a staged tile counts its bytes no more.
    pub proof fn lemma_staged_taken(self, index: int)
        requires
            0 <= index < self.staged.len(),
        ensures
            (Composition { staged: self.staged.update(index, None), ..self }).staged_bytes()
                == self.staged_bytes() - super::model::staged_len(self.staged[index]),
    {
        let lens = self.staged.map_values(|e: Option<StagedState>| super::model::staged_len(e));
        assert(self.staged.update(index, None).map_values(
            |e: Option<StagedState>| super::model::staged_len(e),
        ) =~= lens.update(index, 0));
        super::accounts::lemma_seq_total_update(lens, index, 0);
    }

    /// A staged tile that is on its way to a slot leaves the composition well
    /// formed, its bytes counting as reserved meanwhile.
    pub proof fn lemma_staged_lent(self, index: int)
        requires
            self.well_formed(),
            0 <= index < self.staged.len(),
        ensures
            (Composition { staged: self.staged.update(index, None), ..self }).well_formed(),
    {
        self.lemma_staged_taken(index);
        let lent = Composition { staged: self.staged.update(index, None), ..self };
        assert(lent.surface_bytes() == self.surface_bytes());
        assert(lent.cache_bytes() == self.cache_bytes());
        assert(lent.ready_bytes() == self.ready_bytes());
    }

    /// Once a tile has ended an offer, no later one changes it.
    pub proof fn lemma_offer_stays_ended(self, tiles: Seq<OfferedState>, n: int)
        requires
            0 <= n <= tiles.len(),
        ensures
            self.offer(tiles.take(n)).ended ==> self.offer(tiles) == self.offer(tiles.take(n)),
        decreases tiles.len(),
    {
        if n == tiles.len() {
            assert(tiles.take(n) =~= tiles);
        } else {
            assert(tiles.drop_last().take(n) =~= tiles.take(n));
            self.lemma_offer_stays_ended(tiles.drop_last(), n);
        }
    }

    /// What holds of every offer: it keeps the accounts and the two caps, names no
    /// key twice, and each entry announces the tile staged at its index.
    pub proof fn law_offer(self, tiles: Seq<OfferedState>)
        requires
            self.well_formed(),
        ensures
            ({
                let offer = self.offer(tiles);
                &&& offer.composition.keeps_accounts_of(self)
                &&& offer.composition.keeps_output_of(self)
                &&& offer.composition.surfaces == self.surfaces
                &&& offer.composition.cache == self.cache
                &&& offer.entries.len() <= super::MAX_CACHE_IMPORT_ENTRIES
                &&& offer.composition.staged_bytes() <= super::MAX_CACHE_IMPORT_BYTES
                &&& offer.composition.staged.len() == offer.entries.len()
                &&& forall|i: int|
                    #![trigger offer.entries[i]]
                    #![trigger offer.composition.staged[i]]
                    0 <= i < offer.entries.len() ==> {
                        &&& offer.composition.staged[i] is Some
                        &&& offer.composition.staged[i]->0.cache_key == offer.entries[i].cache_key
                        &&& offer.composition.staged[i]->0.tile.data.len()
                            == offer.entries[i].bitmap_len
                    }
                &&& forall|i: int, j: int|
                    0 <= i < j < offer.entries.len() ==> (#[trigger] offer.entries[i]).cache_key
                        != (#[trigger] offer.entries[j]).cache_key
            }),
        decreases tiles.len(),
    {
        if tiles.len() == 0 {
            self.law_without_staged();
            self.lemma_nothing_staged();
            let cleared = self.without_staged();
            assert(cleared.staged_bytes() == 0) by {
                assert(cleared.staged.map_values(
                    |e: Option<StagedState>| super::model::staged_len(e),
                ).len() == 0);
            }
        } else {
            self.law_offer(tiles.drop_last());
            self.offer(tiles.drop_last()).lemma_considered(tiles.last());
        }
    }

    /// An offer that no tile ended carries every well-formed tile's key.
    pub proof fn law_unended_offer_carries_every_tile(self, tiles: Seq<OfferedState>, i: int)
        requires
            !self.offer(tiles).ended,
            0 <= i < tiles.len(),
            tiles[i].well_formed(),
        ensures
            self.offer(tiles).offers(tiles[i].cache_key),
        decreases tiles.len(),
    {
        let before = self.offer(tiles.drop_last());
        let after = self.offer(tiles);
        let tile = tiles.last();
        assert(after == before.considered(tile));
        assert(!before.ended);
        if i < tiles.len() - 1 {
            self.law_unended_offer_carries_every_tile(tiles.drop_last(), i);
            let k = choose|k: int|
                0 <= k < before.entries.len() && #[trigger] before.entries[k].cache_key
                    == tiles[i].cache_key;
            assert(after.entries[k] == before.entries[k]);
        } else if !before.offers(tile.cache_key) {
            assert(after.entries[before.entries.len() as int].cache_key == tile.cache_key);
        }
    }

    /// What holds after any answers of a reply: the accounts are kept, and the cache
    /// differs from before only in the slots that took a tile.
    pub proof fn law_import(self, slots: Seq<u16>)
        requires
            self.well_formed(),
        ensures
            ({
                let import = self.import(slots);
                &&& import.composition.keeps_accounts_of(self)
                &&& import.composition.keeps_output_of(self)
                &&& import.composition.surfaces == self.surfaces
                &&& import.composition.staged.len() == self.staged.len()
                &&& forall|i: int|
                    slots.len() <= i < self.staged.len() ==> #[trigger] import.composition.staged[i]
                        == self.staged[i]
                &&& forall|slot: u16|
                    !import.assigned(slot) ==> {
                        &&& #[trigger] import.composition.cache.contains_key(slot)
                            <==> self.cache.contains_key(slot)
                        &&& self.cache.contains_key(slot) ==> import.composition.cache[slot]
                            == self.cache[slot]
                    }
            }),
        decreases slots.len(),
    {
        if slots.len() > 0 {
            self.law_import(slots.drop_last());
            let before = self.import(slots.drop_last());
            before.lemma_answered(slots.len() - 1, slots.last());
            let after = self.import(slots);
            assert(after == before.answered(slots.len() - 1, slots.last()));
            assert forall|i: int|
                slots.len() <= i < self.staged.len() implies #[trigger] after.composition.staged[i]
                == self.staged[i] by {
                assert(before.composition.staged[i] == self.staged[i]);
            }
            assert forall|slot: u16| !after.assigned(slot) implies {
                &&& #[trigger] after.composition.cache.contains_key(slot)
                    <==> self.cache.contains_key(slot)
                &&& self.cache.contains_key(slot) ==> after.composition.cache[slot]
                    == self.cache[slot]
            } by {
                if before.assigned(slot) {
                    let k = choose|k: int|
                        0 <= k < before.imported.len() && #[trigger] before.imported[k].1 == slot;
                    assert(after.imported[k] == before.imported[k]);
                    assert(after.assigned(slot));
                }
                if after.imported.len() > before.imported.len() {
                    let last = after.imported[before.imported.len() as int];
                    assert(last.1 == slots.last());
                    assert(slot != slots.last());
                }
                assert(before.composition.cache.contains_key(slot) <==> self.cache.contains_key(
                    slot,
                ));
            }
        }
    }

    /// Each tile that a reply imported stood behind the offer entry whose slot the
    /// reply named, and is what that slot now holds.
    pub proof fn law_import_fills_named_slots(self, slots: Seq<u16>, j: int)
        requires
            self.well_formed(),
            0 <= j < self.import(slots).imported.len(),
        ensures
            ({
                let import = self.import(slots);
                let (cache_key, slot) = import.imported[j];
                &&& slot != 0
                &&& import.composition.cache.contains_key(slot)
                &&& exists|index: int|
                    0 <= index < slots.len() && index < self.staged.len() && slots[index] == slot
                        && #[trigger] self.staged[index] is Some && self.staged[index]->0.cache_key
                        == cache_key && import.composition.cache[slot]
                        == self.staged[index]->0.tile
            }),
        decreases slots.len(),
    {
        let rest = slots.drop_last();
        if slots.len() > 0 {
            self.law_import(rest);
            let before = self.import(rest);
            let after = self.import(slots);
            let at = slots.len() - 1;
            assert(after == before.answered(at, slots.last()));
            let (cache_key, slot) = after.imported[j];
            if j < before.imported.len() {
                self.law_import_fills_named_slots(rest, j);
                assert(before.imported[j] == after.imported[j]);
                assert(before.assigned(slot));
                let index = choose|index: int|
                    0 <= index < rest.len() && index < self.staged.len() && rest[index] == slot
                        && #[trigger] self.staged[index] is Some && self.staged[index]->0.cache_key
                        == cache_key && before.composition.cache[slot]
                        == self.staged[index]->0.tile;
                assert(slots[index] == slot);
                assert(after.composition.cache[slot] == before.composition.cache[slot]);
                assert(self.staged[index] is Some);
            } else {
                assert(before.composition.staged[at] == self.staged[at]);
                assert(self.staged[at] is Some);
            }
        }
    }

    /// Every slot that a reply names either took a tile or is reported unfilled.
    pub proof fn law_import_answers_every_slot(self, slots: Seq<u16>, i: int)
        requires
            0 <= i < slots.len(),
            slots[i] != 0,
        ensures
            self.import(slots).assigned(slots[i]) || self.import(slots).unfilled.contains(slots[i]),
        decreases slots.len(),
    {
        let rest = slots.drop_last();
        let before = self.import(rest);
        let after = self.import(slots);
        let slot = slots[i];
        assert(after == before.answered(slots.len() - 1, slots.last()));
        if i < slots.len() - 1 {
            self.law_import_answers_every_slot(rest, i);
            if before.assigned(slot) {
                let k = choose|k: int|
                    0 <= k < before.imported.len() && #[trigger] before.imported[k].1 == slot;
                assert(after.imported[k] == before.imported[k]);
            } else {
                let k = choose|k: int|
                    0 <= k < before.unfilled.len() && before.unfilled[k] == slot;
                assert(after.unfilled[k] == slot);
            }
        } else if after.imported.len() > before.imported.len() {
            assert(after.imported[before.imported.len() as int].1 == slot);
        } else {
            assert(after.unfilled[before.unfilled.len() as int] == slot);
        }
    }

    /// After a reply nothing stays staged, and what found no slot is released.
    pub proof fn law_imported(self, slots: Seq<u16>)
        requires
            self.well_formed(),
        ensures
            self.imported(slots).keeps_accounts_of(self),
            self.imported(slots).keeps_output_of(self),
            self.imported(slots).staged.len() == 0,
            self.imported(slots).cache == self.import(slots).composition.cache,
    {
        self.law_import(slots);
        self.import(slots).composition.law_without_staged();
    }
}

impl Offer {
    /// Considering one more tile keeps what holds of the offer.
    proof fn lemma_considered(self, tile: OfferedState)
        requires
            self.composition.well_formed(),
            self.entries.len() <= super::MAX_CACHE_IMPORT_ENTRIES,
            self.composition.staged_bytes() <= super::MAX_CACHE_IMPORT_BYTES,
            self.composition.staged.len() == self.entries.len(),
            forall|i: int, j: int|
                0 <= i < j < self.entries.len() ==> (#[trigger] self.entries[i]).cache_key != (
                #[trigger] self.entries[j]).cache_key,
        ensures
            ({
                let after = self.considered(tile);
                &&& after.composition.keeps_accounts_of(self.composition)
                &&& after.entries.len() <= super::MAX_CACHE_IMPORT_ENTRIES
                &&& after.composition.staged_bytes() <= super::MAX_CACHE_IMPORT_BYTES
                &&& after.composition.staged.len() == after.entries.len()
                &&& forall|i: int, j: int|
                    0 <= i < j < after.entries.len() ==> (#[trigger] after.entries[i]).cache_key
                        != (#[trigger] after.entries[j]).cache_key
            }),
    {
        let after = self.considered(tile);
        if after.entries.len() > self.entries.len() {
            let entry = after.composition.staged.last();
            self.composition.lemma_staged_pushed(entry);
            assert(after.composition.staged_bytes() == self.composition.staged_bytes()
                + tile.len());
            assert(after.composition.surface_bytes() == self.composition.surface_bytes());
            assert(after.composition.cache_bytes() == self.composition.cache_bytes());
            assert(after.composition.ready_bytes() == self.composition.ready_bytes());
            assert forall|i: int, j: int| 0 <= i < j < after.entries.len() implies (
            #[trigger] after.entries[i]).cache_key != (#[trigger] after.entries[j]).cache_key by {
                assert(after.entries[i] == self.entries[i]);
                if j == self.entries.len() {
                    assert(!self.offers(tile.cache_key));
                }
            }
        }
    }
}

impl Import {
    /// Applying one answer keeps the accounts.
    proof fn lemma_answered(self, index: int, slot: u16)
        requires
            self.composition.well_formed(),
        ensures
            self.answered(index, slot).composition.keeps_accounts_of(self.composition),
    {
        let before = self.composition;
        let after = self.answered(index, slot).composition;
        if slot != 0 && 0 <= index < before.staged.len() && before.staged[index] is Some {
            let entry = before.staged[index]->0;
            before.lemma_staged_taken(index);
            if self.assigned(slot) {
                assert(after.staged_bytes() == before.staged_bytes() - entry.tile.data.len());
                assert(after.surface_bytes() == before.surface_bytes());
                assert(after.cache_bytes() == before.cache_bytes());
                assert(after.ready_bytes() == before.ready_bytes());
            } else {
                before.law_without_tile(slot);
                let cleared = before.without_tile(slot);
                cleared.lemma_tile_written(slot, entry.tile);
                assert(after.staged_bytes() == before.staged_bytes() - entry.tile.data.len());
                assert(after.surface_bytes() == cleared.surface_bytes());
                assert(cleared.staged_bytes() == before.staged_bytes());
                assert(after.cache_bytes() == cleared.cache_bytes() + entry.tile.data.len());
                assert(after.ready_bytes() == cleared.ready_bytes());
            }
        }
    }
}

impl SurfaceState {
    /// Channel `k` of the pixel at `(x, y)`.
    pub open spec fn channel(self, x: int, y: int, k: int) -> u8 {
        self.data[super::pixels::channel_index(self.width as int, x, y, k)]
    }

    /// The part of a rectangle that lies on a surface is read pixel by pixel.
    pub(crate) proof fn lemma_clamped_region_reads(self, rect: ExclusiveRectangle, dx: int, dy: int, k: int)
        requires
            self.well_formed(),
            0 <= dx < self.clamped_width(rect),
            0 <= dy < self.clamped_height(rect),
            0 <= k < 4,
        ensures
            self.clamped_region(rect).len() == 4 * self.clamped_width(rect) * self.clamped_height(
                rect,
            ),
            self.clamped_region(rect)[super::pixels::channel_index(
                self.clamped_width(rect),
                dx,
                dy,
                k,
            )] == self.channel(rect.left + dx, rect.top + dy, k),
    {
        let w = self.clamped_width(rect);
        let h = self.clamped_height(rect);
        assert(0 <= 4 * w * h) by (nonlinear_arith)
            requires
                0 <= w,
                0 <= h,
        ;
        super::pixels::law_region_reads(
            self.data,
            self.width as int,
            self.height as int,
            rect.left as int,
            rect.top as int,
            w,
            h,
            dx,
            dy,
            k,
        );
    }
}

impl Composition {
    /// Copying part of a surface to one point shows, at each position of the copy
    /// that lies on the destination, the source's pixel from before the copy: also
    /// where the destination is the source itself, as in a scroll.
    pub proof fn law_copied_pixels(
        self,
        src: u16,
        dst: u16,
        rect: ExclusiveRectangle,
        point: Point,
        dx: int,
        dy: int,
        k: int,
    )
        requires
            self.well_formed(),
            self.surfaces.contains_key(src),
            self.surfaces.contains_key(dst),
            0 <= dx < self.surfaces[src].clamped_width(rect),
            0 <= dy < self.surfaces[src].clamped_height(rect),
            point.x + dx < self.surfaces[dst].width,
            point.y + dy < self.surfaces[dst].height,
            0 <= k < 4,
        ensures
            self.copied(src, dst, rect, seq![point]).surfaces[dst].channel(
                point.x + dx,
                point.y + dy,
                k,
            ) == self.surfaces[src].channel(rect.left + dx, rect.top + dy, k),
    {
        let surface = self.surfaces[src];
        surface.lemma_clamped_region_reads(rect, dx, dy, k);
        self.lemma_tiled_pixel(
            dst,
            point,
            surface.clamped_width(rect),
            surface.clamped_height(rect),
            surface.clamped_region(rect),
            dx,
            dy,
            k,
        );
    }

    /// A tile that was cached from a surface and then painted at one point shows the
    /// pixels that it was cached from.
    pub proof fn law_cache_gives_back(
        self,
        id: u16,
        slot: u16,
        rect: ExclusiveRectangle,
        dst: u16,
        point: Point,
        dx: int,
        dy: int,
        k: int,
    )
        requires
            self.well_formed(),
            self.surfaces.contains_key(id),
            self.surfaces.contains_key(dst),
            self.cached(id, slot, rect).cache.contains_key(slot),
            0 <= dx < self.surfaces[id].clamped_width(rect),
            0 <= dy < self.surfaces[id].clamped_height(rect),
            point.x + dx < self.surfaces[dst].width,
            point.y + dy < self.surfaces[dst].height,
            0 <= k < 4,
        ensures
            self.cached(id, slot, rect).recalled(slot, dst, seq![point]).surfaces[dst].channel(
                point.x + dx,
                point.y + dy,
                k,
            ) == self.surfaces[id].channel(rect.left + dx, rect.top + dy, k),
    {
        let surface = self.surfaces[id];
        let cached = self.cached(id, slot, rect);
        self.law_cached(id, slot, rect);
        surface.lemma_clamped_region_reads(rect, dx, dy, k);
        cached.lemma_tiled_pixel(
            dst,
            point,
            surface.clamped_width(rect),
            surface.clamped_height(rect),
            surface.clamped_region(rect),
            dx,
            dy,
            k,
        );
    }

    /// A tile written at one point shows its pixels there.
    proof fn lemma_tiled_pixel(
        self,
        dst: u16,
        point: Point,
        w: int,
        h: int,
        tile: Seq<u8>,
        dx: int,
        dy: int,
        k: int,
    )
        requires
            self.well_formed(),
            self.surfaces.contains_key(dst),
            tile.len() == 4 * w * h,
            0 <= dx < w,
            0 <= dy < h,
            point.x + dx < self.surfaces[dst].width,
            point.y + dy < self.surfaces[dst].height,
            0 <= k < 4,
        ensures
            self.tiled(dst, seq![point], w, h, tile).surfaces[dst].channel(
                point.x + dx,
                point.y + dy,
                k,
            ) == tile[super::pixels::channel_index(w, dx, dy, k)],
    {
        let surface = self.surfaces[dst];
        let points = seq![point];
        assert(points.drop_last() =~= Seq::empty());
        assert(surface.blitted_at(points.drop_last(), w, h, tile) == surface);
        let tiled = surface.blitted_at(points, w, h, tile);
        assert(tiled == surface.blitted(point.x as int, point.y as int, w, h, tile));
        super::pixels::law_blit_writes(
            surface.data,
            surface.width as int,
            surface.height as int,
            point.x as int,
            point.y as int,
            w,
            h,
            tile,
            point.x + dx,
            point.y + dy,
            k,
        );
        self.law_with_surface_state(dst, tiled);
        self.with_surface_state(dst, tiled).law_marked_at(dst, points, w, h);
    }
}

} // verus!
