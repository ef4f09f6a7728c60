//! What a compositor holds, and what each command makes of it.
use vstd::prelude::*;

use super::{CacheEntryMetadata, Color, DirtyRegion, OutputMapping};
use crate::geometry::{ExclusiveRectangle, Point};

verus! {

/// A surface: its canvas and where, if anywhere, the output shows it.
#[verifier::ext_equal]
pub struct SurfaceState {
    pub width: u16,
    pub height: u16,
    pub data: Seq<u8>,
    pub mapping: Option<OutputMapping>,
}

/// A bitmap tile.
#[verifier::ext_equal]
pub struct TileState {
    pub width: u16,
    pub height: u16,
    pub data: Seq<u8>,
}

/// A tile that stands behind an entry of a cache import offer.
#[verifier::ext_equal]
pub struct StagedState {
    pub cache_key: u64,
    pub tile: TileState,
}

/// Pixels of the output that changed.
#[verifier::ext_equal]
pub struct UpdateState {
    pub region: ExclusiveRectangle,
    pub data: Seq<u8>,
}

/// Everything a compositor holds.
#[verifier::ext_equal]
pub struct Composition {
    pub surfaces: Map<u16, SurfaceState>,
    pub cache: Map<u16, TileState>,
    pub staged: Seq<Option<StagedState>>,
    pub allocated: int,
    /// The output's size as the last reset asked for it.
    pub requested_width: u32,
    pub requested_height: u32,
    pub frame: Seq<DirtyRegion>,
    pub ready: Seq<UpdateState>,
}

/// A dimension of the output, no greater than the greatest coordinate.
pub open spec fn clamped(requested: u32) -> u16 {
    if requested <= u16::MAX {
        requested as u16
    } else {
        u16::MAX
    }
}

/// `b - a`, or zero where `a` is the greater.
pub open spec fn span(a: int, b: int) -> int {
    if b <= a {
        0
    } else {
        b - a
    }
}

impl SurfaceState {
    /// The canvas has four bytes for each of its pixels, of which there is at
    /// least one and at most the limit on each edge.
    pub open spec fn well_formed(self) -> bool {
        &&& 1 <= self.width <= super::MAX_SURFACE_DIM
        &&& 1 <= self.height <= super::MAX_SURFACE_DIM
        &&& self.data.len() == 4 * self.width * self.height
    }

    /// A new surface: zeroed and not shown.
    pub open spec fn blank(width: u16, height: u16) -> Self {
        SurfaceState {
            width,
            height,
            data: Seq::new((4 * width * height) as nat, |i: int| 0u8),
            mapping: None,
        }
    }

    /// How much of `rect` from its left edge on lies on the surface.
    pub open spec fn clamped_width(self, rect: ExclusiveRectangle) -> int {
        super::pixels::least(
            span(rect.left as int, rect.right as int),
            span(rect.left as int, self.width as int),
        )
    }

    /// How much of `rect` from its top edge on lies on the surface.
    pub open spec fn clamped_height(self, rect: ExclusiveRectangle) -> int {
        super::pixels::least(
            span(rect.top as int, rect.bottom as int),
            span(rect.top as int, self.height as int),
        )
    }

    /// The pixels of the part of `rect` that lies on the surface.
    pub open spec fn clamped_region(self, rect: ExclusiveRectangle) -> Seq<u8> {
        super::pixels::region(
            self.data,
            self.width as int,
            rect.left as int,
            rect.top as int,
            self.clamped_width(rect),
            self.clamped_height(rect),
        )
    }

    /// The surface after `src`, `w` by `h` pixels, was written at `(x, y)`.
    pub open spec fn blitted(self, x: int, y: int, w: int, h: int, src: Seq<u8>) -> Self {
        SurfaceState {
            data: super::pixels::blitted(self.data, self.width as int, x, y, w, h, src),
            ..self
        }
    }

    /// The surface after `src`, `w` by `h` pixels, was written at each point in
    /// turn.
    pub open spec fn blitted_at(self, points: Seq<Point>, w: int, h: int, src: Seq<u8>) -> Self
        decreases points.len(),
    {
        if points.len() == 0 {
            self
        } else {
            let point = points.last();
            self.blitted_at(points.drop_last(), w, h, src).blitted(
                point.x as int,
                point.y as int,
                w,
                h,
                src,
            )
        }
    }
}

impl TileState {
    /// The tile has four bytes for each of its pixels.
    pub open spec fn well_formed(self) -> bool {
        self.data.len() == 4 * self.width * self.height
    }
}

impl UpdateState {
    /// The region is not empty and has four bytes for each of its pixels.
    pub open spec fn well_formed(self) -> bool {
        &&& self.region.left < self.region.right
        &&& self.region.top < self.region.bottom
        &&& self.data.len() == 4 * (self.region.right - self.region.left) * (self.region.bottom
            - self.region.top)
    }
}

/// The bytes that a staged entry holds; none once its tile has left.
pub open spec fn staged_len(entry: Option<StagedState>) -> nat {
    match entry {
        Some(staged) => staged.tile.data.len(),
        None => 0,
    }
}

impl Composition {
    /// A compositor that nothing has been sent to.
    pub open spec fn empty() -> Self {
        Composition {
            surfaces: Map::empty(),
            cache: Map::empty(),
            staged: Seq::empty(),
            allocated: 0,
            requested_width: 0,
            requested_height: 0,
            frame: Seq::empty(),
            ready: Seq::empty(),
        }
    }

    /// The width of the output: as asked for, as far as a coordinate reaches.
    pub open spec fn output_width(self) -> u16 {
        clamped(self.requested_width)
    }

    /// The height of the output: as asked for, as far as a coordinate reaches.
    pub open spec fn output_height(self) -> u16 {
        clamped(self.requested_height)
    }

    /// The bytes of all surfaces.
    pub open spec fn surface_bytes(self) -> nat {
        super::accounts::map_total(self.surfaces.map_values(|s: SurfaceState| s.data.len()))
    }

    /// The bytes of all cache slots.
    pub open spec fn cache_bytes(self) -> nat {
        super::accounts::map_total(self.cache.map_values(|t: TileState| t.data.len()))
    }

    /// The bytes of all staged tiles.
    pub open spec fn staged_bytes(self) -> nat {
        super::accounts::seq_total(self.staged.map_values(|e: Option<StagedState>| staged_len(e)))
    }

    /// The bytes of all updates that wait to be drained.
    pub open spec fn ready_bytes(self) -> nat {
        super::accounts::seq_total(self.ready.map_values(|u: UpdateState| u.data.len()))
    }

    /// Every byte held: pixels of surfaces, cache slots, staged tiles and waiting
    /// updates, and the entries of the frame being built.
    pub open spec fn held(self) -> int {
        self.surface_bytes() + self.cache_bytes() + self.staged_bytes() + self.ready_bytes()
            + self.frame.len() * super::DIRTY_REGION_BYTES
    }

    /// What is charged beyond what is held.
    pub open spec fn reserved(self) -> int {
        self.allocated - self.held()
    }

    /// Every canvas fits its dimensions, everything held is charged for, and the
    /// charge is within the budget.
    pub open spec fn well_formed(self) -> bool {
        &&& self.surfaces.dom().finite()
        &&& self.cache.dom().finite()
        &&& forall|id: u16| #[trigger]
            self.surfaces.contains_key(id) ==> self.surfaces[id].well_formed()
        &&& forall|slot: u16| #[trigger]
            self.cache.contains_key(slot) ==> self.cache[slot].well_formed()
        &&& forall|i: int|
            0 <= i < self.staged.len() ==> (#[trigger] self.staged[i] matches Some(staged)
                ==> staged.tile.well_formed())
        &&& forall|i: int| 0 <= i < self.ready.len() ==> (#[trigger] self.ready[i]).well_formed()
        &&& 0 <= self.reserved()
        &&& self.allocated <= super::MAX_COMPOSITOR_BYTES
    }

    /// The composition is well formed, and what is charged beyond what is held is
    /// what it was: every byte taken or given up since `before` has been charged
    /// or released.
    pub open spec fn keeps_accounts_of(self, before: Self) -> bool {
        self.well_formed() && self.reserved() == before.reserved()
    }

    /// What waits to be drained, and the output's size, are what they were.
    pub open spec fn keeps_output_of(self, before: Self) -> bool {
        &&& self.ready == before.ready
        &&& self.requested_width == before.requested_width
        &&& self.requested_height == before.requested_height
    }

    /// Every update that waits to be drained lies inside the output.
    pub open spec fn updates_fit_output(self) -> bool {
        forall|i: int|
            0 <= i < self.ready.len() ==> (#[trigger] self.ready[i]).region.right
                <= self.output_width() && self.ready[i].region.bottom <= self.output_height()
    }

    /// Whether the budget allows `len` more bytes.
    pub open spec fn affords(self, len: int) -> bool {
        self.allocated + len <= super::MAX_COMPOSITOR_BYTES
    }

    /// After a reset of the output to `width` by `height`: output that waits or is
    /// being built is dropped if and only if the dimensions asked for change.
    pub open spec fn reset(self, width: u32, height: u32) -> Self {
        if width == self.requested_width && height == self.requested_height {
            self
        } else {
            Composition {
                requested_width: width,
                requested_height: height,
                frame: Seq::empty(),
                ready: Seq::empty(),
                allocated: self.allocated - self.ready_bytes() - self.frame.len()
                    * super::DIRTY_REGION_BYTES,
                ..self
            }
        }
    }

    /// Without surface `id`.
    pub open spec fn without_surface(self, id: u16) -> Self {
        if self.surfaces.contains_key(id) {
            Composition {
                surfaces: self.surfaces.remove(id),
                allocated: self.allocated - self.surfaces[id].data.len(),
                ..self
            }
        } else {
            self
        }
    }

    /// With a new surface under `id`, in place of any that was there. Dimensions
    /// out of range change nothing; a surface that the budget refuses leaves none
    /// under `id`.
    pub open spec fn with_surface(self, id: u16, width: u16, height: u16) -> Self {
        if width == 0 || height == 0 || width > super::MAX_SURFACE_DIM || height
            > super::MAX_SURFACE_DIM {
            self
        } else {
            let cleared = self.without_surface(id);
            let len = 4 * width * height;
            if cleared.affords(len) {
                Composition {
                    surfaces: cleared.surfaces.insert(id, SurfaceState::blank(width, height)),
                    allocated: cleared.allocated + len,
                    ..cleared
                }
            } else {
                cleared
            }
        }
    }

    /// With surface `id` in the given state.
    pub open spec fn with_surface_state(self, id: u16, surface: SurfaceState) -> Self {
        Composition { surfaces: self.surfaces.insert(id, surface), ..self }
    }

    /// The part of a rectangle of `w` by `h` at `(x, y)` that lies on surface `id`.
    pub open spec fn clipped(self, id: u16, x: int, y: int, w: int, h: int) -> ExclusiveRectangle {
        let surface = self.surfaces[id];
        ExclusiveRectangle {
            left: super::pixels::least(x, surface.width as int) as u16,
            top: super::pixels::least(y, surface.height as int) as u16,
            right: super::pixels::least(x + w, surface.width as int) as u16,
            bottom: super::pixels::least(y + h, surface.height as int) as u16,
        }
    }

    /// With a change of surface `id` noted for the end of the frame: clipped to
    /// the surface, unless nothing of it lies there, the previous entry covers it
    /// already or the budget refuses the entry.
    pub open spec fn marked(self, id: u16, x: int, y: int, w: int, h: int) -> Self {
        let rect = self.clipped(id, x, y, w, h);
        let repeated = self.frame.len() > 0 && self.frame.last().surface_id == id
            && super::pixels::contains(self.frame.last().rect, rect);
        if !self.surfaces.contains_key(id) || rect.right <= rect.left || rect.bottom <= rect.top
            || repeated || !self.affords(super::DIRTY_REGION_BYTES as int) {
            self
        } else {
            Composition {
                frame: self.frame.push(DirtyRegion { surface_id: id, rect }),
                allocated: self.allocated + super::DIRTY_REGION_BYTES,
                ..self
            }
        }
    }

    /// With a change noted at each point in turn.
    pub open spec fn marked_at(self, id: u16, points: Seq<Point>, w: int, h: int) -> Self
        decreases points.len(),
    {
        if points.len() == 0 {
            self
        } else {
            let point = points.last();
            self.marked_at(id, points.drop_last(), w, h).marked(
                id,
                point.x as int,
                point.y as int,
                w,
                h,
            )
        }
    }

    /// With surface `id` shown at an origin of the output, scaled to a target size,
    /// and the whole of it noted as changed.
    pub open spec fn mapped(self, id: u16, mapping: OutputMapping) -> Self {
        if self.surfaces.contains_key(id) {
            let surface = self.surfaces[id];
            self.with_surface_state(id, SurfaceState { mapping: Some(mapping), ..surface }).marked(
                id,
                0,
                0,
                surface.width as int,
                surface.height as int,
            )
        } else {
            self
        }
    }

    /// With `rgba` written into `dest` of surface `id`.
    pub open spec fn painted(self, id: u16, dest: ExclusiveRectangle, rgba: Seq<u8>) -> Self {
        let w = span(dest.left as int, dest.right as int);
        let h = span(dest.top as int, dest.bottom as int);
        if self.surfaces.contains_key(id) {
            self.with_surface_state(
                id,
                self.surfaces[id].blitted(dest.left as int, dest.top as int, w, h, rgba),
            ).marked(id, dest.left as int, dest.top as int, w, h)
        } else {
            self
        }
    }

    /// With one rectangle of surface `id` filled with an opaque colour.
    pub open spec fn filled(self, id: u16, color: Color, rect: ExclusiveRectangle) -> Self {
        let w = span(rect.left as int, rect.right as int);
        let h = span(rect.top as int, rect.bottom as int);
        if self.surfaces.contains_key(id) {
            let surface = self.surfaces[id];
            let data = super::pixels::filled(
                surface.data,
                surface.width as int,
                rect.left as int,
                rect.top as int,
                w,
                h,
                seq![color.r, color.g, color.b, 0xFFu8],
            );
            self.with_surface_state(id, SurfaceState { data, ..surface }).marked(
                id,
                rect.left as int,
                rect.top as int,
                w,
                h,
            )
        } else {
            self
        }
    }

    /// With each rectangle of surface `id` filled in turn.
    pub open spec fn filled_all(
        self,
        id: u16,
        color: Color,
        rects: Seq<ExclusiveRectangle>,
    ) -> Self
        decreases rects.len(),
    {
        if rects.len() == 0 {
            self
        } else {
            self.filled_all(id, color, rects.drop_last()).filled(id, color, rects.last())
        }
    }

    /// With a tile written at points of surface `id`.
    pub open spec fn tiled(self, id: u16, points: Seq<Point>, w: int, h: int, tile: Seq<u8>) -> Self {
        if self.surfaces.contains_key(id) {
            self.with_surface_state(
                id,
                self.surfaces[id].blitted_at(points, w, h, tile),
            ).marked_at(id, points, w, h)
        } else {
            self
        }
    }

    /// With the part of `rect` that lies on surface `src` copied to points of
    /// surface `dst`. The pixels are those from before the copy, also where both
    /// are one surface.
    pub open spec fn copied(
        self,
        src: u16,
        dst: u16,
        rect: ExclusiveRectangle,
        points: Seq<Point>,
    ) -> Self {
        if self.surfaces.contains_key(src) {
            let surface = self.surfaces[src];
            self.tiled(
                dst,
                points,
                surface.clamped_width(rect),
                surface.clamped_height(rect),
                surface.clamped_region(rect),
            )
        } else {
            self
        }
    }

    /// Without what cache slot `slot` held.
    pub open spec fn without_tile(self, slot: u16) -> Self {
        if self.cache.contains_key(slot) {
            Composition {
                cache: self.cache.remove(slot),
                allocated: self.allocated - self.cache[slot].data.len(),
                ..self
            }
        } else {
            self
        }
    }

    /// With the part of `rect` that lies on surface `id` cached in `slot`, in place
    /// of what the slot held. A tile that the budget refuses leaves the slot empty.
    pub open spec fn cached(self, id: u16, slot: u16, rect: ExclusiveRectangle) -> Self {
        if self.surfaces.contains_key(id) {
            let surface = self.surfaces[id];
            let w = surface.clamped_width(rect);
            let h = surface.clamped_height(rect);
            let cleared = self.without_tile(slot);
            if cleared.affords(4 * w * h) {
                let tile = TileState {
                    width: w as u16,
                    height: h as u16,
                    data: surface.clamped_region(rect),
                };
                Composition {
                    cache: cleared.cache.insert(slot, tile),
                    allocated: cleared.allocated + 4 * w * h,
                    ..cleared
                }
            } else {
                cleared
            }
        } else {
            self
        }
    }

    /// With the tile of cache slot `slot` written at points of surface `id`.
    pub open spec fn recalled(self, slot: u16, id: u16, points: Seq<Point>) -> Self {
        if self.cache.contains_key(slot) {
            let tile = self.cache[slot];
            self.tiled(id, points, tile.width as int, tile.height as int, tile.data)
        } else {
            self
        }
    }

    /// Without any staged tile.
    pub open spec fn without_staged(self) -> Self {
        Composition {
            staged: Seq::empty(),
            allocated: self.allocated - self.staged_bytes(),
            ..self
        }
    }

    /// The output region that a dirty region of a surface shown by `mapping`
    /// covers now: each edge scaled (rounding up), moved to the origin and cut to
    /// the output.
    pub open spec fn shown_region(self, dirty: DirtyRegion, mapping: OutputMapping) -> ExclusiveRectangle {
        let surface = self.surfaces[dirty.surface_id];
        ExclusiveRectangle {
            left: shown_edge(
                dirty.rect.left as int,
                surface.width as int,
                mapping.target_width as int,
                mapping.origin.0 as int,
                self.output_width() as int,
            ),
            top: shown_edge(
                dirty.rect.top as int,
                surface.height as int,
                mapping.target_height as int,
                mapping.origin.1 as int,
                self.output_height() as int,
            ),
            right: shown_edge(
                dirty.rect.right as int,
                surface.width as int,
                mapping.target_width as int,
                mapping.origin.0 as int,
                self.output_width() as int,
            ),
            bottom: shown_edge(
                dirty.rect.bottom as int,
                surface.height as int,
                mapping.target_height as int,
                mapping.origin.1 as int,
                self.output_height() as int,
            ),
        }
    }

    /// The pixels that the output shows in `region` for a dirty region.
    pub open spec fn shown_pixels(
        self,
        dirty: DirtyRegion,
        mapping: OutputMapping,
        region: ExclusiveRectangle,
    ) -> Seq<u8> {
        let surface = self.surfaces[dirty.surface_id];
        if mapping.target_width == surface.width && mapping.target_height == surface.height {
            super::pixels::region(
                surface.data,
                surface.width as int,
                dirty.rect.left as int,
                dirty.rect.top as int,
                region.right - region.left,
                region.bottom - region.top,
            )
        } else {
            mapping.scaled_pixels(
                surface.data,
                surface.width as int,
                surface.height as int,
                region,
            )
        }
    }

    /// With the output of one dirty region queued: nothing where its surface is
    /// gone or not shown, where the region lies outside the output, or where the
    /// budget refuses its pixels.
    pub open spec fn materialized(self, dirty: DirtyRegion) -> Self {
        if self.surfaces.contains_key(dirty.surface_id) {
            match self.surfaces[dirty.surface_id].mapping {
                Some(mapping) => {
                    let region = self.shown_region(dirty, mapping);
                    let len = 4 * (region.right - region.left) * (region.bottom - region.top);
                    if mapping.target_width == 0 || mapping.target_height == 0 || region.right
                        <= region.left || region.bottom <= region.top || !self.affords(len) {
                        self
                    } else {
                        Composition {
                            ready: self.ready.push(
                                UpdateState {
                                    region,
                                    data: self.shown_pixels(dirty, mapping, region),
                                },
                            ),
                            allocated: self.allocated + len,
                            ..self
                        }
                    }
                },
                None => self,
            }
        } else {
            self
        }
    }

    /// With the output of each dirty region queued in turn.
    pub open spec fn materialized_all(self, frame: Seq<DirtyRegion>) -> Self
        decreases frame.len(),
    {
        if frame.len() == 0 {
            self
        } else {
            self.materialized_all(frame.drop_last()).materialized(frame.last())
        }
    }

    /// After the frame has ended: its entries are given up, then the output of each
    /// is queued in order.
    pub open spec fn frame_ended(self) -> Self {
        let given_up = Composition {
            frame: Seq::empty(),
            allocated: self.allocated - self.frame.len() * super::DIRTY_REGION_BYTES,
            ..self
        };
        given_up.materialized_all(self.frame)
    }

    /// After the waiting updates were taken.
    pub open spec fn drained(self) -> Self {
        Composition {
            ready: Seq::empty(),
            allocated: self.allocated - self.ready_bytes(),
            ..self
        }
    }
}

/// An edge of a dirty region as the output shows it.
pub open spec fn shown_edge(
    edge: int,
    source_length: int,
    target_length: int,
    origin: int,
    limit: int,
) -> u16 {
    super::pixels::least(
        super::pixels::least(
            origin + super::pixels::edge_scaled(edge, source_length, target_length),
            u32::MAX as int,
        ),
        limit,
    ) as u16
}

/// A tile as the client offers it.
#[verifier::ext_equal]
pub struct OfferedState {
    pub cache_key: u64,
    pub width: u16,
    pub height: u16,
    pub data: Seq<u8>,
}

impl OfferedState {
    /// The bytes that its dimensions call for.
    pub open spec fn len(self) -> int {
        4 * self.width * self.height
    }

    /// The tile is not empty and has four bytes for each of its pixels.
    pub open spec fn well_formed(self) -> bool {
        self.len() != 0 && self.data.len() == self.len()
    }
}

/// An offer in the making: the composition that holds its tiles, its entries in
/// order, and whether a tile has ended it.
#[verifier::ext_equal]
pub struct Offer {
    pub composition: Composition,
    pub entries: Seq<CacheEntryMetadata>,
    pub ended: bool,
}

impl Offer {
    /// An entry with this key is part of the offer.
    pub open spec fn offers(self, cache_key: u64) -> bool {
        exists|i: int| 0 <= i < self.entries.len() && #[trigger] self.entries[i].cache_key == cache_key
    }

    /// With one more tile considered. A tile ends the offer if the offer is full,
    /// if it would carry more bytes than an offer may or if the budget refuses it;
    /// one that is malformed or repeats a key is passed over.
    pub open spec fn considered(self, tile: OfferedState) -> Self {
        if self.ended {
            self
        } else if self.entries.len() == super::MAX_CACHE_IMPORT_ENTRIES {
            Offer { ended: true, ..self }
        } else if !tile.well_formed() || self.offers(tile.cache_key) {
            self
        } else if self.composition.staged_bytes() + tile.len() > super::MAX_CACHE_IMPORT_BYTES
            || !self.composition.affords(tile.len()) {
            Offer { ended: true, ..self }
        } else {
            let staged = StagedState {
                cache_key: tile.cache_key,
                tile: TileState { width: tile.width, height: tile.height, data: tile.data },
            };
            Offer {
                composition: Composition {
                    staged: self.composition.staged.push(Some(staged)),
                    allocated: self.composition.allocated + tile.len(),
                    ..self.composition
                },
                entries: self.entries.push(
                    CacheEntryMetadata {
                        cache_key: tile.cache_key,
                        bitmap_len: tile.len() as u32,
                    },
                ),
                ended: false,
            }
        }
    }
}

/// The result of a cache import reply in the making: the composition, the tiles
/// that found a slot, and the slots that found no tile.
#[verifier::ext_equal]
pub struct Import {
    pub composition: Composition,
    pub imported: Seq<(u64, u16)>,
    pub unfilled: Seq<u16>,
}

impl Import {
    /// A tile has been moved into this slot.
    pub open spec fn assigned(self, slot: u16) -> bool {
        exists|i: int| 0 <= i < self.imported.len() && #[trigger] self.imported[i].1 == slot
    }

    /// With the reply's answer for offer entry `index` applied: zero leaves the
    /// tile staged; a slot takes the tile of the entry, in place of what it held,
    /// unless the reply has named it before; a slot without a tile stays unfilled.
    pub open spec fn answered(self, index: int, slot: u16) -> Self {
        let staged = self.composition.staged;
        if slot == 0 {
            self
        } else if 0 <= index < staged.len() && staged[index] is Some {
            let entry = staged[index]->0;
            if self.assigned(slot) {
                Import {
                    composition: Composition {
                        staged: staged.update(index, None),
                        allocated: self.composition.allocated - entry.tile.data.len(),
                        ..self.composition
                    },
                    unfilled: self.unfilled.push(slot),
                    ..self
                }
            } else {
                let cleared = self.composition.without_tile(slot);
                Import {
                    composition: Composition {
                        staged: staged.update(index, None),
                        cache: cleared.cache.insert(slot, entry.tile),
                        ..cleared
                    },
                    imported: self.imported.push((entry.cache_key, slot)),
                    ..self
                }
            }
        } else {
            Import { unfilled: self.unfilled.push(slot), ..self }
        }
    }
}

impl Composition {
    /// The offer made of `tiles`, in place of anything staged before.
    pub open spec fn offer(self, tiles: Seq<OfferedState>) -> Offer
        decreases tiles.len(),
    {
        if tiles.len() == 0 {
            Offer { composition: self.without_staged(), entries: Seq::empty(), ended: false }
        } else {
            self.offer(tiles.drop_last()).considered(tiles.last())
        }
    }

    /// The reply's answers applied in order.
    pub open spec fn import(self, slots: Seq<u16>) -> Import
        decreases slots.len(),
    {
        if slots.len() == 0 {
            Import { composition: self, imported: Seq::empty(), unfilled: Seq::empty() }
        } else {
            self.import(slots.drop_last()).answered(slots.len() - 1, slots.last())
        }
    }

    /// After a cache import reply: its answers applied, and every tile that it did
    /// not name given up.
    pub open spec fn imported(self, slots: Seq<u16>) -> Self {
        self.import(slots).composition.without_staged()
    }
}

} // verus!
