//! Client-side surface compositor for the Graphics Pipeline (EGFX).
//!
//! MS-RDPEGFX surfaces are persistent pixel canvases: the server creates them,
//! writes decoded bitmaps into sub-rectangles, fills and scrolls regions, caches
//! tiles, and maps surfaces onto the graphics output. A client that only decodes
//! `WireToSurface1` or `WireToSurface2` bitmaps and forwards the remaining surface commands renders
//! incorrectly against any server that uses them (GNOME Remote Desktop and
//! Windows both do).
//!
//! [`Compositor`] holds the surface and cache pixel state, applies each command
//! into it, and accumulates the regions of the *output* that changed. Updates are
//! committed per logical frame (`EndFrame`) and drained by the consumer, so a
//! partially-built frame is never observed.
//!
//! All canvases are stored as tightly-packed RGBA8888, so a drained region is
//! ready to blit without conversion.
//!
//! The contracts speak of a [`Composition`](model::Composition), the view of a
//! compositor: each command takes it to what the command's specification in
//! [`model`] says, and keeps the byte accounts.
use std::collections::{BTreeMap, BTreeSet};

use vstd::prelude::*;

use crate::geometry::{ExclusiveRectangle, Point};
use model::{
    Composition, Import, Offer, OfferedState, StagedState, SurfaceState, TileState, UpdateState,
};
use pixels::{
    blit_region, copy_region, copy_scaled_region, covers, fill_region, pixel_data_len, scaled_edge,
};

pub mod accounts;
pub mod exchange;
pub mod laws;
pub mod model;
pub mod pixels;
pub mod pointwise;
pub mod shown;

verus! {

/// Upper bound on a surface edge, in pixels.
///
/// Larger than any real display dimension (8K is 7680x4320); its purpose is to
/// bound the per-surface allocation so a malformed or hostile `CreateSurface`
/// cannot request an unbounded buffer.
pub const MAX_SURFACE_DIM: u16 = 16384;

/// Upper bound on the pixel bytes the compositor will hold at once, across every
/// surface and every cache slot: 256 MiB.
///
/// [`MAX_SURFACE_DIM`] bounds one allocation, which is not the property that
/// matters: surfaces are keyed by `u16` and cache slots likewise, so a peer that
/// stays under the per-edge limit can still ask for tens of thousands of them.
/// This bounds the total instead.
pub const MAX_COMPOSITOR_BYTES: usize = 268_435_456;

/// What one entry of the frame being built is charged: the resident size of a
/// [`DirtyRegion`], five fields of two bytes.
pub const DIRTY_REGION_BYTES: usize = 10;

/// Most entries that a cache import offer may carry (MS-RDPEGFX 2.2.2.16: fewer
/// than 5462).
pub const MAX_CACHE_IMPORT_ENTRIES: usize = 5461;

/// Most pixel bytes that a cache import offer may announce: 100 MiB, the size of
/// the bitmap cache.
pub const MAX_CACHE_IMPORT_BYTES: usize = 104_857_600;

/// A colour as a solid fill carries it.
#[derive(Debug, Clone, Copy, PartialEq, Eq, Structural)]
pub struct Color {
    pub b: u8,
    pub g: u8,
    pub r: u8,
    pub xa: u8,
}

/// One entry of a cache import offer.
#[derive(Debug, Clone, Copy, PartialEq, Eq, Structural)]
pub struct CacheEntryMetadata {
    pub cache_key: u64,
    pub bitmap_len: u32,
}

/// A tile that the client kept from an earlier session and offers to the server.
#[derive(Debug, Clone)]
pub struct CacheImportTile {
    pub cache_key: u64,
    pub width: u16,
    pub height: u16,
    /// RGBA8888, `width * height * 4` bytes.
    pub data: Vec<u8>,
}

/// What became of an offer once the server has replied.
#[derive(Debug, Clone)]
pub struct CacheImportOutcome {
    /// How many entries the offer held.
    pub offered: usize,
    /// Key and slot of each tile that the reply moved into the cache.
    pub imported: Vec<(u64, u16)>,
    /// Slots that the reply named without a tile to fill them.
    pub unfilled_slots: Vec<u16>,
}

/// A rectangular region of the graphics output whose pixels changed within a frame.
///
/// `region` is in output space (after a surface-to-output mapping), using the
/// egfx exclusive-rectangle convention (`right`/`bottom` are one past the edge).
/// `data` is tightly-packed RGBA8888, row-major, exactly
/// `region.width() * region.height() * 4` bytes.
#[derive(Debug, Clone)]
#[non_exhaustive]
pub struct OutputUpdate {
    /// Changed region, in output-buffer coordinates.
    pub region: ExclusiveRectangle,
    /// RGBA8888 pixels for `region`, row-major.
    pub data: Vec<u8>,
}

/// A surface-space rectangle that changed within the frame being built.
///
/// Regions rather than pixels: one PDU may carry 65,535 rectangles or destination
/// points, so copying eagerly at each command lets a small wire payload amplify
/// into an unbounded queue of full-surface buffers. Reading the pixels once at
/// `EndFrame` also means the consumer receives the frame's final state instead of
/// intermediate states it would immediately paint over.
#[derive(Debug, Clone, Copy, PartialEq, Eq, Structural)]
pub struct DirtyRegion {
    pub surface_id: u16,
    /// Clipped to the surface as it was when the change was noted.
    pub rect: ExclusiveRectangle,
}

/// A persistent client surface: a pixel canvas and its optional output mapping.
#[derive(Debug)]
pub struct Surface {
    pub width: u16,
    pub height: u16,
    /// RGBA8888, `width * height * 4` bytes.
    pub data: Vec<u8>,
    /// Output mapping if this surface is visible, else `None`.
    pub mapping: Option<OutputMapping>,
}

/// A surface-to-output mapping, including the scaled output dimensions.
#[derive(Debug, Clone, Copy, PartialEq, Eq)]
pub struct OutputMapping {
    pub origin: (u32, u32),
    pub target_width: u32,
    pub target_height: u32,
}

/// A cached bitmap tile (MS-RDPEGFX bitmap cache, 2.2.2.10 / 2.2.2.11).
#[derive(Debug)]
pub struct CachedTile {
    pub width: u16,
    pub height: u16,
    /// RGBA8888, `width * height * 4` bytes.
    pub data: Vec<u8>,
}

/// A tile held for a pending `CacheImportOffer`, already charged against the budget.
#[derive(Debug)]
pub struct StagedTile {
    pub cache_key: u64,
    pub tile: CachedTile,
}

impl View for Surface {
    type V = SurfaceState;

    open spec fn view(&self) -> SurfaceState {
        SurfaceState {
            width: self.width,
            height: self.height,
            data: self.data@,
            mapping: self.mapping,
        }
    }
}

impl View for CachedTile {
    type V = TileState;

    open spec fn view(&self) -> TileState {
        TileState { width: self.width, height: self.height, data: self.data@ }
    }
}

impl View for StagedTile {
    type V = StagedState;

    open spec fn view(&self) -> StagedState {
        StagedState { cache_key: self.cache_key, tile: self.tile@ }
    }
}

impl View for CacheImportTile {
    type V = OfferedState;

    open spec fn view(&self) -> OfferedState {
        OfferedState {
            cache_key: self.cache_key,
            width: self.width,
            height: self.height,
            data: self.data@,
        }
    }
}

/// The tiles of an offer, in order.
pub open spec fn offered_view(tiles: Seq<CacheImportTile>) -> Seq<OfferedState> {
    tiles.map_values(|t: CacheImportTile| t@)
}

impl View for OutputUpdate {
    type V = UpdateState;

    open spec fn view(&self) -> UpdateState {
        UpdateState { region: self.region, data: self.data@ }
    }
}

/// What an entry of the staged import holds.
pub open spec fn staged_view(entry: Option<StagedTile>) -> Option<StagedState> {
    match entry {
        Some(staged) => Some(staged@),
        None => None,
    }
}

/// Client-side EGFX surface compositor.
///
/// Applies surface commands into persistent RGBA8888 buffers and accumulates the
/// output regions that change. Its user feeds it each command and drains completed
/// frames via [`drain_output`](Self::drain_output).
#[derive(Debug)]
pub struct Compositor {
    pub surfaces: BTreeMap<u16, Surface>,
    pub cache: BTreeMap<u16, CachedTile>,
    /// Tiles offered in `CacheImportOffer`, in offer order, awaiting the reply.
    /// `None` once the reply has moved the tile into a slot.
    pub staged_import: Vec<Option<StagedTile>>,
    /// Bytes currently held across `surfaces`, `cache`, `staged_import`, `ready`
    /// and `frame`, charged against [`MAX_COMPOSITOR_BYTES`]. Kept as a running
    /// total rather than recomputed so the check before an allocation stays O(1).
    pub allocated_bytes: usize,
    /// The output's size as the last `ResetGraphics` asked for it. Kept unclamped:
    /// two different oversized dimensions both clamp to `u16::MAX`, and only the
    /// ones asked for tell whether a reset changes them.
    pub requested_width: u32,
    pub requested_height: u32,
    /// Regions dirtied by the frame currently being built (between
    /// `StartFrame`/`EndFrame`), materialized into `ready` at commit.
    pub frame: Vec<DirtyRegion>,
    /// Deltas from completed frames, awaiting drain.
    pub ready: Vec<OutputUpdate>,
}

impl View for Compositor {
    type V = Composition;

    open spec fn view(&self) -> Composition {
        Composition {
            surfaces: self.surfaces@.map_values(|s: Surface| s@),
            cache: self.cache@.map_values(|t: CachedTile| t@),
            staged: self.staged_import@.map_values(|e: Option<StagedTile>| staged_view(e)),
            allocated: self.allocated_bytes as int,
            requested_width: self.requested_width,
            requested_height: self.requested_height,
            frame: self.frame@,
            ready: self.ready@.map_values(|u: OutputUpdate| u@),
        }
    }
}

impl Default for Compositor {
    fn default() -> (compositor: Self)
        ensures
            compositor@ == Composition::empty(),
            compositor@.well_formed(),
            compositor@.reserved() == 0,
    {
        let compositor = Compositor {
            surfaces: BTreeMap::new(),
            cache: BTreeMap::new(),
            staged_import: Vec::new(),
            allocated_bytes: 0,
            requested_width: 0,
            requested_height: 0,
            frame: Vec::new(),
            ready: Vec::new(),
        };
        proof {
            assert(compositor@ =~= Composition::empty());
            assert(compositor@.surfaces.map_values(|s: SurfaceState| s.data.len()).dom()
                =~= Set::empty());
            assert(compositor@.cache.map_values(|t: TileState| t.data.len()).dom() =~= Set::empty());
        }
        compositor
    }
}

impl Compositor {
    /// Reserve `len` pixel bytes, or refuse if that would exceed the budget.
    ///
    /// Refusing rather than erroring keeps the existing contract for allocations
    /// the compositor declines: the surface or slot simply does not exist, and
    /// commands targeting it become no-ops.
    pub fn charge(&mut self, len: usize) -> (granted: bool)
        ensures
            granted == old(self)@.affords(len as int),
            granted ==> final(self)@ == (Composition {
                allocated: old(self)@.allocated + len,
                ..old(self)@
            }),
            !granted ==> *final(self) == *old(self),
            old(self)@.well_formed() ==> final(self)@.well_formed(),
    {
        match self.allocated_bytes.checked_add(len) {
            Some(total) => {
                if total <= MAX_COMPOSITOR_BYTES {
                    self.allocated_bytes = total;
                    true
                } else {
                    false
                }
            },
            None => false,
        }
    }

    /// Release a charge taken by [`Self::charge`].
    fn release(&mut self, len: usize)
        ensures
            final(self)@ == (Composition {
                allocated: model::span(len as int, old(self)@.allocated),
                ..old(self)@
            }),
            final(self).surfaces == old(self).surfaces,
            final(self).cache == old(self).cache,
            final(self).staged_import == old(self).staged_import,
            final(self).frame == old(self).frame,
            final(self).ready == old(self).ready,
    {
        // Saturating rather than wrapping: an accounting slip must not underflow
        // into a huge budget that disables the limit entirely.
        self.allocated_bytes = self.allocated_bytes.saturating_sub(len);
    }

    /// The width of the output: as asked for, as far as a coordinate reaches.
    pub fn output_width(&self) -> (width: u16)
        ensures
            width == self@.output_width(),
    {
        if self.requested_width <= u16::MAX as u32 {
            self.requested_width as u16
        } else {
            u16::MAX
        }
    }

    /// The height of the output: as asked for, as far as a coordinate reaches.
    pub fn output_height(&self) -> (height: u16)
        ensures
            height == self@.output_height(),
    {
        if self.requested_height <= u16::MAX as u32 {
            self.requested_height as u16
        } else {
            u16::MAX
        }
    }

    /// Bytes of the updates that wait to be drained.
    fn ready_len(&self) -> (len: usize)
        requires
            self@.well_formed(),
        ensures
            len == self@.ready_bytes(),
    {
        let ghost lens = self@.ready.map_values(|u: UpdateState| u.data.len());
        let mut len: usize = 0;
        let mut i: usize = 0;
        assert(lens.take(0) =~= Seq::empty());
        while i < self.ready.len()
            invariant
                i <= self.ready@.len(),
                self@.well_formed(),
                lens == self@.ready.map_values(|u: UpdateState| u.data.len()),
                len == accounts::seq_total(lens.take(i as int)),
            decreases self.ready@.len() - i,
        {
            proof {
                accounts::lemma_seq_total_take(lens, i as int);
                accounts::lemma_seq_total_take(lens, i + 1);
                assert(lens[i as int] == self.ready@[i as int].data@.len());
            }
            len += self.ready[i].data.len();
            i += 1;
        }
        assert(lens.take(i as int) =~= lens);
        len
    }

    /// Handle `ResetGraphics`: resize the graphics output and discard pending output.
    ///
    /// Per MS-RDPEGFX 3.3.5.14, the only client requirement on receiving
    /// `RDPGFX_RESET_GRAPHICS_PDU` is to "resize the Graphics Output Buffer ...
    /// ADM element"; 2.2.2.14 likewise describes it only as changing the output
    /// buffer's dimensions and monitor layout. Neither mentions surfaces or the
    /// bitmap cache, and cache slots are removed only by
    /// `RDPGFX_EVICT_CACHE_ENTRY_PDU` (3.3.5.8). A Windows server relies on this:
    /// after a resize it sends `ResetGraphics` + `CreateSurface` + `StartFrame` and
    /// then keeps painting through `CacheToSurface` with slots it filled before the
    /// reset, without re-sending them, so dropping the cache (or the surfaces) here
    /// breaks rendering until reconnect.
    ///
    /// `frame` and `ready` are discarded ONLY when the output dimensions actually
    /// change. The reason for discarding them is that those deltas were clipped
    /// against the previous output, so painting them into the new one repaints
    /// stale pixels and, after a shrink, addresses a region the new output no
    /// longer contains. A same-size reset is not a different output: Windows sends
    /// one whenever it rebuilds its own surfaces, and clearing the queue there
    /// would lose every delta of the payload that carried the reset.
    pub fn reset(&mut self, width: u32, height: u32)
        requires
            old(self)@.well_formed(),
        ensures
            final(self)@ == old(self)@.reset(width, height),
            final(self)@.keeps_accounts_of(old(self)@),
            final(self)@.reset(width, height) == final(self)@,
    {
        proof {
            self@.law_reset(width, height);
        }
        // Compared before clamping: two different oversized dimensions can both
        // clamp to `u16::MAX`, and comparing the clamped values would then wrongly
        // treat that as a same-size reset.
        let resized: bool = width != self.requested_width || height != self.requested_height;
        if !resized {
            return;
        }
        self.requested_width = width;
        self.requested_height = height;
        let ghost resized_view = self@;
        assert(resized_view.surfaces == old(self)@.surfaces);
        assert(resized_view.cache == old(self)@.cache);
        let ready_len: usize = self.ready_len();
        let released: usize = ready_len + self.frame.len() * DIRTY_REGION_BYTES;
        self.frame.clear();
        self.ready.clear();
        // Release only what was discarded: surfaces and the cache survive, so
        // their pixel bytes stay charged.
        self.release(released);
        assert(self@ =~= old(self)@.reset(width, height));
    }

    /// Handle `CreateSurface`: allocate a zeroed RGBA8888 canvas.
    ///
    /// Surfaces beyond [`MAX_SURFACE_DIM`] on either edge are skipped rather than
    /// allocated; subsequent commands targeting them become no-ops.
    pub fn create_surface(&mut self, id: u16, width: u16, height: u16)
        requires
            old(self)@.well_formed(),
        ensures
            final(self)@ == old(self)@.with_surface(id, width, height),
            final(self)@.keeps_accounts_of(old(self)@),
    {
        proof {
            self@.law_with_surface(id, width, height);
        }
        if width == 0 || height == 0 || width > MAX_SURFACE_DIM || height > MAX_SURFACE_DIM {
            return;
        }
        proof {
            assert(0 <= 4 * width * height <= 4 * 16384 * 16384) by (nonlinear_arith)
                requires
                    0 <= width <= 16384,
                    0 <= height <= 16384,
            ;
            assert(width as int * height * 4 == 4 * width * height) by (nonlinear_arith);
            assert(0 <= width as int * height) by (nonlinear_arith)
                requires
                    0 <= width,
                    0 <= height,
            ;
        }
        let len: usize = width as usize * height as usize * pixels::BYTES_PER_PIXEL;

        // Release first: inserting drops any surface already under this id, so
        // re-creating one must not charge twice for the same slot.
        self.delete_surface(id);
        let ghost cleared = self@;

        if !self.charge(len) {
            return;
        }
        let ghost charged = self.surfaces@;
        let surface = Surface { width, height, data: vec![0u8; len], mapping: None };
        assert(surface@ =~= SurfaceState::blank(width, height));
        self.surfaces.insert(id, surface);
        assert(self@.surfaces =~= cleared.surfaces.insert(id, surface@));
        assert(self@ =~= old(self)@.with_surface(id, width, height));
    }

    /// Handle `DeleteSurface`.
    pub fn delete_surface(&mut self, id: u16)
        requires
            old(self)@.well_formed(),
        ensures
            final(self)@ == old(self)@.without_surface(id),
            final(self)@.keeps_accounts_of(old(self)@),
    {
        proof {
            self@.law_without_surface(id);
        }
        if let Some(surface) = self.surfaces.remove(&id) {
            proof {
                assert(old(self)@.surfaces.contains_key(id));
                assert(old(self)@.surfaces[id] == surface@);
                assert(self@.surfaces =~= old(self)@.surfaces.remove(id));
            }
            self.release(surface.data.len());
        } else {
            assert(self@.surfaces =~= old(self)@.surfaces);
        }
        assert(self@ =~= old(self)@.without_surface(id));
    }

    /// Record that a surface-space rectangle changed, for materialization at
    /// `EndFrame`.
    ///
    /// A no-op if the surface is gone. The rectangle is clipped to the surface here,
    /// while the surface is already in hand, so a malformed server rectangle can
    /// shrink the update to empty but never reads out of range.
    fn record_dirty(&mut self, surface_id: u16, sx: u16, sy: u16, sw: u16, sh: u16)
        requires
            old(self)@.well_formed(),
        ensures
            final(self)@ == old(self)@.marked(
                surface_id,
                sx as int,
                sy as int,
                sw as int,
                sh as int,
            ),
            final(self)@.keeps_accounts_of(old(self)@),
    {
        proof {
            self@.law_marked(surface_id, sx as int, sy as int, sw as int, sh as int);
        }
        let (width, height): (u16, u16) = match self.surfaces.get(&surface_id) {
            Some(surface) => {
                assert(self@.surfaces[surface_id] == surface@);
                (surface.width, surface.height)
            },
            None => {
                return;
            },
        };
        assert(self@.surfaces.contains_key(surface_id));
        assert(self@.surfaces[surface_id].well_formed());
        let left: u16 = clamp_edge(sx, 0, width);
        let top: u16 = clamp_edge(sy, 0, height);
        let right: u16 = clamp_edge(sx, sw, width);
        let bottom: u16 = clamp_edge(sy, sh, height);
        let rect = ExclusiveRectangle { left, top, right, bottom };
        assert(rect == self@.clipped(surface_id, sx as int, sy as int, sw as int, sh as int));
        if right <= left || bottom <= top {
            return;
        }

        // Repeated paints of one region are the cheap half of the amplification
        // deferral addresses: a PDU naming the same rectangle 65,535 times collapses
        // to a single entry. Comparing against only the previous entry keeps this
        // O(1); it is a repeat filter, not region coalescing.
        let count: usize = self.frame.len();
        if count > 0 {
            let last: DirtyRegion = self.frame[count - 1];
            if last.surface_id == surface_id && covers(&last.rect, &rect) {
                return;
            }
        }

        // The filter above only collapses consecutive repeats, so alternating
        // rectangles still land one entry each and the frame stays open until the
        // peer sends `EndFrame`. Charging the entry puts that growth under the same
        // ceiling as the pixel buffers: `RDPGFX_POINT16` is four bytes on the wire
        // against ten resident here, so an uncharged queue would let a peer trade
        // its own bandwidth for 2.5 times as much of the client's memory.
        if !self.charge(DIRTY_REGION_BYTES) {
            return;
        }
        self.frame.push(DirtyRegion { surface_id, rect });
        assert(self@ =~= old(self)@.marked(
            surface_id,
            sx as int,
            sy as int,
            sw as int,
            sh as int,
        ));
    }

    /// Record that a rectangle of `w` by `h` changed at each point.
    fn record_dirty_at(&mut self, surface_id: u16, points: &[Point], w: u16, h: u16)
        requires
            old(self)@.well_formed(),
        ensures
            final(self)@ == old(self)@.marked_at(surface_id, points@, w as int, h as int),
            final(self)@.keeps_accounts_of(old(self)@),
    {
        let ghost before = self@;
        let mut i: usize = 0;
        assert(points@.take(0) =~= Seq::empty());
        while i < points.len()
            invariant
                i <= points@.len(),
                self@ == before.marked_at(surface_id, points@.take(i as int), w as int, h as int),
                self@.keeps_accounts_of(before),
            decreases points@.len() - i,
        {
            assert(points@.take(i + 1).drop_last() =~= points@.take(i as int));
            assert(points@.take(i + 1).last() == points@[i as int]);
            self.record_dirty(surface_id, points[i].x, points[i].y, w, h);
            i += 1;
        }
        assert(points@.take(i as int) =~= points@);
    }

    /// Handle `MapSurfaceToOutput`: record the mapping and make the surface's
    /// current contents visible at `(origin_x, origin_y)`.
    pub fn map_surface(&mut self, id: u16, origin_x: u32, origin_y: u32)
        requires
            old(self)@.well_formed(),
        ensures
            final(self)@ == (if old(self)@.surfaces.contains_key(id) {
                old(self)@.mapped(
                    id,
                    OutputMapping {
                        origin: (origin_x, origin_y),
                        target_width: old(self)@.surfaces[id].width as u32,
                        target_height: old(self)@.surfaces[id].height as u32,
                    },
                )
            } else {
                old(self)@
            }),
            final(self)@.keeps_accounts_of(old(self)@),
    {
        let (width, height): (u16, u16) = match self.surfaces.get(&id) {
            Some(surface) => {
                assert(self@.surfaces[id] == surface@);
                (surface.width, surface.height)
            },
            None => {
                return;
            },
        };
        self.map_surface_scaled(id, origin_x, origin_y, width as u32, height as u32);
    }

    /// Handle `MapSurfaceToScaledOutput`: record the scaled mapping and make the
    /// surface's current contents visible at `(origin_x, origin_y)`.
    pub fn map_surface_scaled(
        &mut self,
        id: u16,
        origin_x: u32,
        origin_y: u32,
        target_width: u32,
        target_height: u32,
    )
        requires
            old(self)@.well_formed(),
        ensures
            final(self)@ == old(self)@.mapped(
                id,
                OutputMapping { origin: (origin_x, origin_y), target_width, target_height },
            ),
            final(self)@.keeps_accounts_of(old(self)@),
    {
        let mapping = OutputMapping { origin: (origin_x, origin_y), target_width, target_height };
        let ghost before = self@;
        proof {
            before.law_mapped(id, mapping);
        }
        let mut surface: Surface = match self.surfaces.remove(&id) {
            Some(surface) => surface,
            None => {
                assert(self@.surfaces =~= before.surfaces);
                assert(self@ =~= before);
                return;
            },
        };
        assert(before.surfaces.contains_key(id));
        assert(before.surfaces[id] == surface@);
        surface.mapping = Some(mapping);
        let (w, h): (u16, u16) = (surface.width, surface.height);
        let ghost shown = surface@;
        self.surfaces.insert(id, surface);
        assert(self@.surfaces =~= before.surfaces.insert(id, shown));
        assert(self@ =~= before.with_surface_state(id, shown));
        proof {
            before.law_with_surface_state(id, shown);
        }
        // The whole surface becomes visible at its new origin.
        self.record_dirty(id, 0, 0, w, h);
    }

    /// Write a decoded RGBA8888 bitmap into a surface sub-rectangle (the output of
    /// a `WireToSurface1` or `WireToSurface2` decode) and record the resulting output delta.
    ///
    /// `rgba` is expected to be `dest.width() * dest.height() * 4` bytes; short or
    /// long buffers are handled defensively by the row-wise blit.
    pub fn apply_bitmap(&mut self, surface_id: u16, dest: &ExclusiveRectangle, rgba: &[u8])
        requires
            old(self)@.well_formed(),
        ensures
            final(self)@ == old(self)@.painted(surface_id, *dest, rgba@),
            final(self)@.keeps_accounts_of(old(self)@),
    {
        let x: u16 = dest.left;
        let y: u16 = dest.top;
        let w: u16 = dest.right.saturating_sub(dest.left);
        let h: u16 = dest.bottom.saturating_sub(dest.top);
        let ghost before = self@;
        proof {
            before.law_painted(surface_id, *dest, rgba@);
        }
        let mut surface: Surface = match self.surfaces.remove(&surface_id) {
            Some(surface) => surface,
            None => {
                assert(self@.surfaces =~= before.surfaces);
                assert(self@ =~= before);
                return;
            },
        };
        assert(before.surfaces.contains_key(surface_id));
        assert(before.surfaces[surface_id] == surface@);
        assert(before.surfaces[surface_id].well_formed());
        blit_region(&mut surface.data, surface.width, surface.height, x, y, w, h, rgba);
        let ghost painted = surface@;
        self.surfaces.insert(surface_id, surface);
        assert(self@.surfaces =~= before.surfaces.insert(surface_id, painted));
        assert(self@ =~= before.with_surface_state(surface_id, painted));
        proof {
            before.law_with_surface_state(surface_id, painted);
        }
        self.record_dirty(surface_id, x, y, w, h);
    }

    /// Fill each rectangle of a surface with a solid, opaque color (`SolidFill`).
    pub fn solid_fill(&mut self, surface_id: u16, color: &Color, rects: &[ExclusiveRectangle])
        requires
            old(self)@.well_formed(),
        ensures
            final(self)@ == old(self)@.filled_all(surface_id, *color, rects@),
            final(self)@.keeps_accounts_of(old(self)@),
    {
        let ghost before = self@;
        let mut i: usize = 0;
        assert(rects@.take(0) =~= Seq::empty());
        while i < rects.len()
            invariant
                i <= rects@.len(),
                self@ == before.filled_all(surface_id, *color, rects@.take(i as int)),
                self@.keeps_accounts_of(before),
            decreases rects@.len() - i,
        {
            assert(rects@.take(i + 1).drop_last() =~= rects@.take(i as int));
            assert(rects@.take(i + 1).last() == rects@[i as int]);
            self.fill_one(surface_id, color, &rects[i]);
            i += 1;
        }
        assert(rects@.take(i as int) =~= rects@);
    }

    /// Fill one rectangle of a surface.
    fn fill_one(&mut self, surface_id: u16, color: &Color, rect: &ExclusiveRectangle)
        requires
            old(self)@.well_formed(),
        ensures
            final(self)@ == old(self)@.filled(surface_id, *color, *rect),
            final(self)@.keeps_accounts_of(old(self)@),
    {
        let px: [u8; 4] = [color.r, color.g, color.b, 0xFF];
        assert(px@ =~= seq![color.r, color.g, color.b, 0xFFu8]);
        let x: u16 = rect.left;
        let y: u16 = rect.top;
        let w: u16 = rect.right.saturating_sub(rect.left);
        let h: u16 = rect.bottom.saturating_sub(rect.top);
        let ghost before = self@;
        proof {
            before.law_filled(surface_id, *color, *rect);
        }
        let mut surface: Surface = match self.surfaces.remove(&surface_id) {
            Some(surface) => surface,
            None => {
                assert(self@.surfaces =~= before.surfaces);
                assert(self@ =~= before);
                return;
            },
        };
        assert(before.surfaces.contains_key(surface_id));
        assert(before.surfaces[surface_id] == surface@);
        assert(before.surfaces[surface_id].well_formed());
        fill_region(&mut surface.data, surface.width, surface.height, x, y, w, h, px);
        let ghost filled = surface@;
        self.surfaces.insert(surface_id, surface);
        assert(self@.surfaces =~= before.surfaces.insert(surface_id, filled));
        assert(self@ =~= before.with_surface_state(surface_id, filled));
        proof {
            before.law_with_surface_state(surface_id, filled);
        }
        self.record_dirty(surface_id, x, y, w, h);
    }

    /// Write a tile at each point of a surface, then record the changes.
    fn tile_surface(&mut self, surface_id: u16, points: &[Point], w: u16, h: u16, tile: &[u8])
        requires
            old(self)@.well_formed(),
        ensures
            final(self)@ == old(self)@.tiled(surface_id, points@, w as int, h as int, tile@),
            final(self)@.keeps_accounts_of(old(self)@),
    {
        let ghost before = self@;
        let mut surface: Surface = match self.surfaces.remove(&surface_id) {
            Some(surface) => surface,
            None => {
                assert(self@.surfaces =~= before.surfaces);
                assert(self@ =~= before);
                return;
            },
        };
        let ghost start = surface@;
        assert(before.surfaces.contains_key(surface_id));
        assert(before.surfaces[surface_id] == start);
        assert(before.surfaces[surface_id].well_formed());
        let mut i: usize = 0;
        assert(points@.take(0) =~= Seq::empty());
        while i < points.len()
            invariant
                i <= points@.len(),
                start.well_formed(),
                surface@ == start.blitted_at(points@.take(i as int), w as int, h as int, tile@),
                surface@.well_formed(),
                surface@.data.len() == start.data.len(),
            decreases points@.len() - i,
        {
            assert(points@.take(i + 1).drop_last() =~= points@.take(i as int));
            assert(points@.take(i + 1).last() == points@[i as int]);
            blit_region(
                &mut surface.data,
                surface.width,
                surface.height,
                points[i].x,
                points[i].y,
                w,
                h,
                tile,
            );
            i += 1;
        }
        assert(points@.take(i as int) =~= points@);
        let ghost tiled = surface@;
        self.surfaces.insert(surface_id, surface);
        assert(self@.surfaces =~= before.surfaces.insert(surface_id, tiled));
        assert(self@ =~= before.with_surface_state(surface_id, tiled));
        proof {
            before.law_with_surface_state(surface_id, tiled);
        }
        self.record_dirty_at(surface_id, points, w, h);
    }

    /// The size of the part of `rect` that lies on a surface, if there is one.
    fn clamp_to_surface(&self, surface_id: u16, rect: &ExclusiveRectangle) -> (size: Option<
        (u16, u16),
    >)
        ensures
            size is Some <==> self@.surfaces.contains_key(surface_id),
            size matches Some(size) ==> size.0 == self@.surfaces[surface_id].clamped_width(*rect)
                && size.1 == self@.surfaces[surface_id].clamped_height(*rect),
    {
        match self.surfaces.get(&surface_id) {
            Some(surface) => {
                assert(self@.surfaces[surface_id] == surface@);
                let w: u16 = lesser(
                    rect.right.saturating_sub(rect.left),
                    surface.width.saturating_sub(rect.left),
                );
                let h: u16 = lesser(
                    rect.bottom.saturating_sub(rect.top),
                    surface.height.saturating_sub(rect.top),
                );
                Some((w, h))
            },
            None => None,
        }
    }

    /// A copy of the part of `rect` that lies on a surface, `w` by `h` pixels.
    fn copy_from_surface(&self, surface_id: u16, rect: &ExclusiveRectangle, w: u16, h: u16) -> (data:
        Vec<u8>)
        requires
            self@.well_formed(),
            self@.surfaces.contains_key(surface_id),
            w == self@.surfaces[surface_id].clamped_width(*rect),
            h == self@.surfaces[surface_id].clamped_height(*rect),
        ensures
            data@ == self@.surfaces[surface_id].clamped_region(*rect),
    {
        match self.surfaces.get(&surface_id) {
            Some(surface) => {
                assert(self@.surfaces[surface_id] == surface@);
                assert(self@.surfaces[surface_id].well_formed());
                assert(4 * w * h <= 4 * 16384 * 16384) by (nonlinear_arith)
                    requires
                        0 <= w <= 16384,
                        0 <= h <= 16384,
                ;
                copy_region(surface.data.as_slice(), surface.width, rect.left, rect.top, w, h)
            },
            None => Vec::new(),
        }
    }

    /// Copy a rectangle from one surface to points on another (`SurfaceToSurface`;
    /// a copy or an on-screen scroll when source and destination are the same
    /// surface). The source region is read once; each destination point receives a
    /// copy.
    pub fn surface_to_surface(
        &mut self,
        src_id: u16,
        dst_id: u16,
        src_rect: &ExclusiveRectangle,
        dst_points: &[Point],
    )
        requires
            old(self)@.well_formed(),
        ensures
            final(self)@ == old(self)@.copied(src_id, dst_id, *src_rect, dst_points@),
            final(self)@.keeps_accounts_of(old(self)@),
    {
        // Clamp the copy to the source surface: the tile is exactly the valid
        // source pixels, so a malformed rectangle can't drive an oversized
        // allocation. It is deliberately not charged against the budget, since it
        // can be no larger than the source surface, which is, bounding the peak at
        // two surfaces rather than leaving it open.
        let (w, h): (u16, u16) = match self.clamp_to_surface(src_id, src_rect) {
            Some(size) => size,
            None => {
                return;
            },
        };
        // Read the source region into an owned tile first, so a scroll within one
        // surface (src_id == dst_id) reads pre-move pixels and never aliases.
        let tile: Vec<u8> = self.copy_from_surface(src_id, src_rect, w, h);
        self.tile_surface(dst_id, dst_points, w, h, tile.as_slice());
    }

    /// Copy a surface rectangle into a cache slot (`SurfaceToCache`). The cache is
    /// off-screen, so this produces no output delta.
    pub fn surface_to_cache(
        &mut self,
        surface_id: u16,
        cache_slot: u16,
        src_rect: &ExclusiveRectangle,
    )
        requires
            old(self)@.well_formed(),
        ensures
            final(self)@ == old(self)@.cached(surface_id, cache_slot, *src_rect),
            final(self)@.keeps_accounts_of(old(self)@),
    {
        let ghost before = self@;
        proof {
            before.law_cached(surface_id, cache_slot, *src_rect);
        }
        // Clamp to the source surface so a malformed rectangle can't drive an
        // oversized allocation. The clamp can collapse the tile to nothing when the
        // source rectangle starts outside the surface: the slot then paints nothing.
        let (w, h): (u16, u16) = match self.clamp_to_surface(surface_id, src_rect) {
            Some(size) => size,
            None => {
                return;
            },
        };
        proof {
            assert(before.surfaces.contains_key(surface_id));
            assert(before.surfaces[surface_id].well_formed());
            assert(0 <= 4 * w * h <= 4 * 16384 * 16384) by (nonlinear_arith)
                requires
                    0 <= w <= 16384,
                    0 <= h <= 16384,
            ;
            assert(w as int * h * 4 == 4 * w * h) by (nonlinear_arith);
            assert(0 <= w as int * h) by (nonlinear_arith)
                requires
                    0 <= w,
                    0 <= h,
            ;
        }
        let len: usize = w as usize * h as usize * pixels::BYTES_PER_PIXEL;

        // Release first, for the same reason as `create_surface`: inserting drops
        // whatever occupied the slot, so caching repeatedly into one slot must not
        // accumulate charge.
        self.evict_cache_entry(cache_slot);
        let ghost cleared = self@;
        assert(cleared.surfaces == before.surfaces);

        // Charged before the copy, not around the insert: the copy is the
        // allocation, so checking afterwards would still let a peer drive the
        // transient the budget exists to prevent. The cache shares the surfaces'
        // budget because both draw on the same process memory.
        if !self.charge(len) {
            return;
        }
        let data: Vec<u8> = self.copy_from_surface(surface_id, src_rect, w, h);
        let tile = CachedTile { width: w, height: h, data };
        let ghost copied = tile@;
        self.cache.insert(cache_slot, tile);
        assert(self@.cache =~= cleared.cache.insert(cache_slot, copied));
        assert(self@ =~= before.cached(surface_id, cache_slot, *src_rect));
    }

    /// Render a cached tile onto a surface at each destination point
    /// (`CacheToSurface`).
    pub fn cache_to_surface(&mut self, cache_slot: u16, surface_id: u16, dst_points: &[Point])
        requires
            old(self)@.well_formed(),
        ensures
            final(self)@ == old(self)@.recalled(cache_slot, surface_id, dst_points@),
            final(self)@.keeps_accounts_of(old(self)@),
    {
        let ghost before = self@;
        // The tile leaves its slot while it is painted, so that it need not be
        // copied, and returns to it unchanged.
        let tile: CachedTile = match self.cache.remove(&cache_slot) {
            Some(tile) => tile,
            None => {
                assert(self@.cache =~= before.cache);
                assert(self@ =~= before);
                return;
            },
        };
        assert(before.cache[cache_slot] == tile@);
        let ghost held = tile@;
        let ghost lent = self@;
        assert(lent.cache =~= before.cache.remove(cache_slot));
        assert(lent == (Composition { cache: before.cache.remove(cache_slot), ..before }));
        proof {
            before.lemma_tile_lent(cache_slot);
            before.lemma_tiled_keeps_rest(
                surface_id,
                dst_points@,
                tile.width as int,
                tile.height as int,
                held.data,
            );
            lent.lemma_tiled_keeps_rest(
                surface_id,
                dst_points@,
                tile.width as int,
                tile.height as int,
                held.data,
            );
            before.law_recalled(cache_slot, surface_id, dst_points@);
            before.lemma_tiled_ignores_cache(
                lent.cache,
                surface_id,
                dst_points@,
                tile.width as int,
                tile.height as int,
                held.data,
            );
        }
        self.tile_surface(surface_id, dst_points, tile.width, tile.height, tile.data.as_slice());
        let ghost tiled = self@;
        self.cache.insert(cache_slot, tile);
        assert(self@.cache =~= tiled.cache.insert(cache_slot, held));
        assert(self@.cache =~= before.cache);
        assert(self@ =~= before.recalled(cache_slot, surface_id, dst_points@));
    }

    /// Evict a cache slot (`EvictCacheEntry`).
    pub fn evict_cache_entry(&mut self, cache_slot: u16)
        requires
            old(self)@.well_formed(),
        ensures
            final(self)@ == old(self)@.without_tile(cache_slot),
            final(self)@.keeps_accounts_of(old(self)@),
    {
        proof {
            self@.law_without_tile(cache_slot);
        }
        if let Some(tile) = self.cache.remove(&cache_slot) {
            proof {
                assert(old(self)@.cache.contains_key(cache_slot));
                assert(old(self)@.cache[cache_slot] == tile@);
                assert(self@.cache =~= old(self)@.cache.remove(cache_slot));
            }
            self.release(tile.data.len());
        } else {
            assert(self@.cache =~= old(self)@.cache);
        }
        assert(self@ =~= old(self)@.without_tile(cache_slot));
    }

    /// Release every staged import tile (channel closed, or a new offer replaces it).
    pub fn discard_import(&mut self)
        requires
            old(self)@.well_formed(),
        ensures
            final(self)@ == old(self)@.without_staged(),
            final(self)@.keeps_accounts_of(old(self)@),
    {
        let ghost before = self@;
        proof {
            before.law_without_staged();
        }
        let ghost lens = before.staged.map_values(|e: Option<StagedState>| model::staged_len(e));
        let mut released: usize = 0;
        let mut i: usize = 0;
        assert(lens.take(0) =~= Seq::empty());
        while i < self.staged_import.len()
            invariant
                i <= self.staged_import@.len(),
                self@ == before,
                before.well_formed(),
                lens == before.staged.map_values(|e: Option<StagedState>| model::staged_len(e)),
                released == accounts::seq_total(lens.take(i as int)),
            decreases self.staged_import@.len() - i,
        {
            proof {
                accounts::lemma_seq_total_take(lens, i as int);
                accounts::lemma_seq_total_take(lens, i + 1);
                assert(lens[i as int] == model::staged_len(before.staged[i as int]));
                assert(before.staged[i as int] == staged_view(self.staged_import@[i as int]));
            }
            match &self.staged_import[i] {
                Some(staged) => {
                    released += staged.tile.data.len();
                },
                None => {},
            }
            i += 1;
        }
        assert(lens.take(i as int) =~= lens);
        self.staged_import.clear();
        self.release(released);
        assert(self@ =~= before.without_staged());
    }

    /// Hold `tiles` for a `CacheImportOffer` and return the offer's entries, in order.
    ///
    /// Every staged tile is charged here, before the offer exists. A slot the server
    /// believes filled but the client left empty paints nothing on every later
    /// `CacheToSurface` (the stale-mosaic class), and no PDU lets the client withdraw an
    /// entry the server accepted — so the budget must say no now, while saying no only
    /// shortens the offer. Staging stops at the first tile the entry cap, the byte cap or
    /// the budget refuses, keeping the offer a prefix of `tiles` (the reply answers a
    /// prefix too, MS-RDPEGFX 2.2.2.17). Malformed tiles (zero-sized, or `data` not
    /// `width * height * 4` bytes) and repeated keys are skipped. Anything staged
    /// earlier is released first.
    pub fn stage_import(&mut self, tiles: Vec<CacheImportTile>) -> (entries: Vec<
        CacheEntryMetadata,
    >)
        requires
            old(self)@.well_formed(),
        ensures
            entries@ == old(self)@.offer(offered_view(tiles@)).entries,
            final(self)@ == old(self)@.offer(offered_view(tiles@)).composition,
            final(self)@.keeps_accounts_of(old(self)@),
    {
        let ghost before = self@;
        let ghost offered = offered_view(tiles@);
        let mut tiles: Vec<CacheImportTile> = tiles;
        self.discard_import();
        let mut entries: Vec<CacheEntryMetadata> = Vec::new();
        let mut keys: BTreeSet<u64> = BTreeSet::new();
        let mut total: u64 = 0;
        let mut ended: bool = false;
        let mut i: usize = 0;
        assert(offered.take(0) =~= Seq::empty());
        proof {
            before.law_offer(offered.take(0));
            before.lemma_nothing_staged();
            assert(self@.staged_bytes() == 0) by {
                assert(self@.staged.map_values(
                    |e: Option<StagedState>| model::staged_len(e),
                ).len() == 0);
            }
        }
        while i < tiles.len() && !ended
            invariant
                i <= tiles@.len(),
                tiles@.len() == offered.len(),
                before.well_formed(),
                forall|j: int| i <= j < tiles@.len() ==> (#[trigger] tiles@[j])@ == offered[j],
                before.offer(offered.take(i as int)) == (Offer {
                    composition: self@,
                    entries: entries@,
                    ended,
                }),
                self@.well_formed(),
                entries@.len() <= MAX_CACHE_IMPORT_ENTRIES,
                !ended ==> total == self@.staged_bytes(),
                total <= MAX_CACHE_IMPORT_BYTES,
                forall|key: u64|
                    !ended ==> (#[trigger] keys@.contains(key) <==> exists|k: int|
                        0 <= k < entries@.len() && #[trigger] entries@[k].cache_key == key),
            decreases tiles@.len() - i, !ended as int,
        {
            let ghost so_far = before.offer(offered.take(i as int));
            let ghost tile = offered[i as int];
            proof {
                assert(offered.take(i + 1).drop_last() =~= offered.take(i as int));
                assert(offered.take(i + 1).last() == tile);
                before.law_offer(offered.take(i as int));
                before.law_offer(offered.take(i + 1));
                assert(tiles@[i as int]@ == tile);
                assert(0 <= 4 * tile.width * tile.height <= 4 * 0xFFFF * 0xFFFF) by (
                    nonlinear_arith)
                    requires
                        0 <= tile.width <= 0xFFFF,
                        0 <= tile.height <= 0xFFFF,
                ;
                assert(tile.width as int * tile.height * 4 == 4 * tile.width * tile.height) by (
                    nonlinear_arith);
                assert(0 <= tile.width as int * tile.height) by (nonlinear_arith)
                    requires
                        0 <= tile.width,
                        0 <= tile.height,
                ;
            }
            let cache_key: u64 = tiles[i].cache_key;
            let width: u16 = tiles[i].width;
            let height: u16 = tiles[i].height;
            let len: u64 = width as u64 * height as u64 * 4;
            if entries.len() == MAX_CACHE_IMPORT_ENTRIES {
                ended = true;
            } else if len == 0 || tiles[i].data.len() as u64 != len || keys.contains(&cache_key) {
                // Malformed or repeated: skipped.
            } else if total + len > MAX_CACHE_IMPORT_BYTES as u64 || !self.charge(len as usize) {
                ended = true;
            } else {
                let ghost charged = self@;
                let mut data: Vec<u8> = Vec::new();
                core::mem::swap(&mut data, &mut tiles[i].data);
                let staged = StagedTile { cache_key, tile: CachedTile { width, height, data } };
                let ghost entry = Some(staged@);
                keys.insert(cache_key);
                total = total + len;
                let ghost entries_before = entries@;
                entries.push(CacheEntryMetadata { cache_key, bitmap_len: len as u32 });
                self.staged_import.push(Some(staged));
                proof {
                    assert(self@.staged =~= charged.staged.push(entry));
                    assert(self@ =~= so_far.considered(tile).composition);
                    assert(entries@ =~= so_far.considered(tile).entries);
                    so_far.composition.lemma_staged_pushed(entry);
                    assert(self@.staged_bytes() == so_far.composition.staged_bytes() + len);
                    assert forall|key: u64| #[trigger] keys@.contains(key) <==> exists|k: int|
                        0 <= k < entries@.len() && #[trigger] entries@[k].cache_key == key by {
                        if keys@.contains(key) && key != cache_key {
                            let k = choose|k: int|
                                0 <= k < entries_before.len() && #[trigger] entries_before[k].cache_key
                                    == key;
                            assert(entries@[k] == entries_before[k]);
                        }
                        if key == cache_key {
                            assert(entries@[entries_before.len() as int].cache_key == key);
                        }
                        if exists|k: int|
                            0 <= k < entries@.len() && #[trigger] entries@[k].cache_key == key {
                            let k = choose|k: int|
                                0 <= k < entries@.len() && #[trigger] entries@[k].cache_key == key;
                            if k < entries_before.len() {
                                assert(entries_before[k].cache_key == key);
                            }
                        }
                    }
                }
            }
            assert(before.offer(offered.take(i + 1)) == so_far.considered(tile));
            i += 1;
        }
        proof {
            before.law_offer(offered);
            before.lemma_offer_stays_ended(offered, i as int);
            if i == offered.len() {
                assert(offered.take(i as int) =~= offered);
            }
        }
        entries
    }

    /// Apply a `CacheImportReply`: `cache_slots[i]` is the slot the server assigned to
    /// offer entry `i`, and `0` means "not imported".
    ///
    /// A named tile moves into its slot carrying the charge taken at staging, so
    /// filling cannot be refused here. A slot named with no staged tile behind it — an
    /// index past the offer, a reply with nothing staged, a slot named twice — cannot be
    /// filled by anything the client holds and is reported in `unfilled_slots`. Every
    /// staged tile the reply does not name is released.
    pub fn commit_import(&mut self, cache_slots: &[u16]) -> (outcome: CacheImportOutcome)
        requires
            old(self)@.well_formed(),
        ensures
            outcome.offered == old(self)@.staged.len(),
            outcome.imported@ == old(self)@.import(cache_slots@).imported,
            outcome.unfilled_slots@ == old(self)@.import(cache_slots@).unfilled,
            final(self)@ == old(self)@.imported(cache_slots@),
            final(self)@.keeps_accounts_of(old(self)@),
    {
        let ghost before = self@;
        let offered: usize = self.staged_import.len();
        let mut imported: Vec<(u64, u16)> = Vec::new();
        let mut unfilled_slots: Vec<u16> = Vec::new();
        let mut assigned: BTreeSet<u16> = BTreeSet::new();
        let mut index: usize = 0;
        assert(cache_slots@.take(0) =~= Seq::empty());
        while index < cache_slots.len()
            invariant
                index <= cache_slots@.len(),
                before.well_formed(),
                offered == before.staged.len(),
                self@.staged.len() == offered,
                self@.keeps_accounts_of(before),
                before.import(cache_slots@.take(index as int)) == (Import {
                    composition: self@,
                    imported: imported@,
                    unfilled: unfilled_slots@,
                }),
                forall|slot: u16| #[trigger]
                    assigned@.contains(slot) <==> exists|k: int|
                        0 <= k < imported@.len() && #[trigger] imported@[k].1 == slot,
            decreases cache_slots@.len() - index,
        {
            let slot: u16 = cache_slots[index];
            let ghost so_far = before.import(cache_slots@.take(index as int));
            proof {
                assert(cache_slots@.take(index + 1).drop_last() =~= cache_slots@.take(
                    index as int,
                ));
                assert(cache_slots@.take(index + 1).last() == slot);
                before.law_import(cache_slots@.take(index + 1));
            }
            if slot != 0 {
                let mut entry: Option<StagedTile> = None;
                if index < offered {
                    core::mem::swap(&mut entry, &mut self.staged_import[index]);
                }
                match entry {
                    Some(staged) => {
                        let ghost taken = staged@;
                        proof {
                            assert(so_far.composition.staged[index as int] == Some(taken));
                            assert(self@.staged =~= so_far.composition.staged.update(
                                index as int,
                                None,
                            ));
                            so_far.composition.lemma_staged_taken(index as int);
                        }
                        if assigned.contains(&slot) {
                            // Two entries claim one slot; which one the server believes it
                            // holds is unknowable, so the slot counts as unfilled.
                            assert(so_far.assigned(slot));
                            self.release(staged.tile.data.len());
                            unfilled_slots.push(slot);
                            assert(self@ =~= so_far.answered(index as int, slot).composition);
                        } else {
                            assert(!so_far.assigned(slot));
                            let ghost imported_before = imported@;
                            assigned.insert(slot);
                            let ghost loose = self@;
                            proof {
                                so_far.composition.lemma_staged_lent(index as int);
                                assert(loose =~= (Composition {
                                    staged: so_far.composition.staged.update(index as int, None),
                                    ..so_far.composition
                                }));
                            }
                            self.evict_cache_entry(slot);
                            let ghost cleared = self@;
                            let StagedTile { cache_key, tile } = staged;
                            self.cache.insert(slot, tile);
                            imported.push((cache_key, slot));
                            proof {
                                assert(self@.cache =~= cleared.cache.insert(slot, taken.tile));
                                assert(self@ =~= so_far.answered(index as int, slot).composition);
                                assert forall|s: u16| #[trigger]
                                    assigned@.contains(s) <==> exists|k: int|
                                    0 <= k < imported@.len() && #[trigger] imported@[k].1 == s by {
                                    if assigned@.contains(s) && s != slot {
                                        let k = choose|k: int|
                                            0 <= k < imported_before.len()
                                                && #[trigger] imported_before[k].1 == s;
                                        assert(imported@[k] == imported_before[k]);
                                    }
                                    if s == slot {
                                        assert(imported@[imported_before.len() as int].1 == s);
                                    }
                                    if exists|k: int|
                                        0 <= k < imported@.len() && #[trigger] imported@[k].1 == s {
                                        let k = choose|k: int|
                                            0 <= k < imported@.len() && #[trigger] imported@[k].1
                                                == s;
                                        if k < imported_before.len() {
                                            assert(imported_before[k].1 == s);
                                        }
                                    }
                                }
                            }
                        }
                    },
                    None => {
                        proof {
                            if index < offered {
                                assert(self@.staged =~= so_far.composition.staged);
                            }
                            assert(self@ =~= so_far.composition);
                        }
                        unfilled_slots.push(slot);
                    },
                }
            }
            assert(before.import(cache_slots@.take(index + 1)) == so_far.answered(
                index as int,
                slot,
            ));
            index += 1;
        }
        assert(cache_slots@.take(index as int) =~= cache_slots@);
        self.discard_import();
        CacheImportOutcome { offered, imported, unfilled_slots }
    }

    /// Commit the current frame's deltas (`EndFrame`), making them drainable.
    ///
    /// The pixels are read here rather than when each command ran, so a surface
    /// deleted or remapped mid-frame contributes nothing: its output region is
    /// repainted by whatever maps there next.
    pub fn end_frame(&mut self)
        requires
            old(self)@.well_formed(),
        ensures
            final(self)@ == old(self)@.frame_ended(),
            final(self)@.keeps_accounts_of(old(self)@),
    {
        let ghost before = self@;
        proof {
            before.law_frame_ended();
        }
        let mut frame: Vec<DirtyRegion> = Vec::new();
        core::mem::swap(&mut frame, &mut self.frame);
        // Released before materializing so the pixel copies can spend the budget the
        // metadata was holding.
        proof {
            assert(frame@.len() * DIRTY_REGION_BYTES <= MAX_COMPOSITOR_BYTES);
        }
        self.release(frame.len() * DIRTY_REGION_BYTES);
        let ghost given_up = self@;
        assert(given_up =~= (Composition {
            frame: Seq::empty(),
            allocated: before.allocated - before.frame.len() * DIRTY_REGION_BYTES,
            ..before
        }));
        proof {
            before.lemma_frame_given_up();
        }
        let mut i: usize = 0;
        assert(frame@.take(0) =~= Seq::empty());
        while i < frame.len()
            invariant
                i <= frame@.len(),
                given_up.well_formed(),
                self@ == given_up.materialized_all(frame@.take(i as int)),
                self@.well_formed(),
            decreases frame@.len() - i,
        {
            assert(frame@.take(i + 1).drop_last() =~= frame@.take(i as int));
            assert(frame@.take(i + 1).last() == frame@[i as int]);
            let dirty: DirtyRegion = frame[i];
            self.materialize(&dirty);
            i += 1;
        }
        assert(frame@.take(i as int) =~= frame@);
    }

    /// Take all committed output updates, leaving the pending set empty.
    pub fn drain_output(&mut self) -> (drained: Vec<OutputUpdate>)
        requires
            old(self)@.well_formed(),
        ensures
            drained@.map_values(|u: OutputUpdate| u@) == old(self)@.ready,
            final(self)@ == old(self)@.drained(),
            final(self)@.keeps_accounts_of(old(self)@),
    {
        let ghost before = self@;
        proof {
            before.law_drained();
        }
        let released: usize = self.ready_len();
        let mut drained: Vec<OutputUpdate> = Vec::new();
        core::mem::swap(&mut drained, &mut self.ready);
        self.release(released);
        assert(self@ =~= before.drained());
        drained
    }

    /// Copy the pixels for one dirty region into the drainable queue.
    ///
    /// The region arrives clipped to its surface and is mapped against the output
    /// mapping in force now rather than the one active when it was drawn.
    fn materialize(&mut self, dirty: &DirtyRegion)
        requires
            old(self)@.well_formed(),
        ensures
            final(self)@ == old(self)@.materialized(*dirty),
            final(self)@.keeps_accounts_of(old(self)@),
    {
        let ghost before = self@;
        proof {
            before.law_materialized(*dirty);
        }
        let (mapping, source_width, source_height): (OutputMapping, u16, u16) =
            match self.surfaces.get(&dirty.surface_id) {
            Some(surface) => {
                assert(before.surfaces[dirty.surface_id] == surface@);
                match surface.mapping {
                    Some(mapping) => (mapping, surface.width, surface.height),
                    None => {
                        return;
                    },
                }
            },
            None => {
                return;
            },
        };
        if mapping.target_width == 0 || mapping.target_height == 0 {
            return;
        }
        // Saturating adds and output clipping bound the output rectangle before
        // allocating its RGBA8888 pixels.
        let left: u16 = output_edge(
            dirty.rect.left,
            source_width,
            mapping.target_width,
            mapping.origin.0,
            self.output_width(),
        );
        let top: u16 = output_edge(
            dirty.rect.top,
            source_height,
            mapping.target_height,
            mapping.origin.1,
            self.output_height(),
        );
        let right: u16 = output_edge(
            dirty.rect.right,
            source_width,
            mapping.target_width,
            mapping.origin.0,
            self.output_width(),
        );
        let bottom: u16 = output_edge(
            dirty.rect.bottom,
            source_height,
            mapping.target_height,
            mapping.origin.1,
            self.output_height(),
        );
        let region = ExclusiveRectangle { left, top, right, bottom };
        assert(region == before.shown_region(*dirty, mapping));
        if right <= left || bottom <= top {
            return;
        }
        let w: u16 = right - left;
        let h: u16 = bottom - top;
        let len: usize = match pixel_data_len(w, h) {
            Some(len) => len,
            None => {
                return;
            },
        };
        if !self.charge(len) {
            return;
        }
        let ghost charged = self@;
        assert(charged.surfaces == before.surfaces);
        let data: Vec<u8> = match self.surfaces.get(&dirty.surface_id) {
            Some(surface) => {
                assert(before.surfaces[dirty.surface_id] == surface@);
                if mapping.target_width == source_width as u32 && mapping.target_height
                    == source_height as u32 {
                    copy_region(
                        surface.data.as_slice(),
                        source_width,
                        dirty.rect.left,
                        dirty.rect.top,
                        w,
                        h,
                    )
                } else {
                    copy_scaled_region(
                        surface.data.as_slice(),
                        source_width,
                        source_height,
                        mapping,
                        &region,
                    )
                }
            },
            None => Vec::new(),
        };
        assert(data@ == before.shown_pixels(*dirty, mapping, region));
        let update = OutputUpdate { region, data };
        let ghost queued = update@;
        self.ready.push(update);
        assert(self@.ready =~= charged.ready.push(queued));
        assert(self@ =~= before.materialized(*dirty));
    }

    /// The tile in `cache_slot`, as `(width, height, rgba)`.
    pub fn cache_tile(&self, cache_slot: u16) -> (tile: Option<(u16, u16, &[u8])>)
        ensures
            tile is Some <==> self@.cache.contains_key(cache_slot),
            tile matches Some(tile) ==> self@.cache[cache_slot] == (TileState {
                width: tile.0,
                height: tile.1,
                data: tile.2@,
            }),
    {
        match self.cache.get(&cache_slot) {
            Some(tile) => {
                assert(self@.cache[cache_slot] == tile@);
                Some((tile.width, tile.height, tile.data.as_slice()))
            },
            None => None,
        }
    }
}

/// An edge of a dirty region as the output shows it: scaled, moved to the
/// mapping's origin and cut to the output.
fn output_edge(edge: u16, source_length: u16, target_length: u32, origin: u32, limit: u16) -> (shown:
    u16)
    ensures
        shown == model::shown_edge(
            edge as int,
            source_length as int,
            target_length as int,
            origin as int,
            limit as int,
        ),
{
    let moved: u32 = origin.saturating_add(scaled_edge(edge, source_length, target_length));
    if moved <= limit as u32 {
        moved as u16
    } else {
        limit
    }
}

/// `at + length`, at most `limit`.
fn clamp_edge(at: u16, length: u16, limit: u16) -> (edge: u16)
    ensures
        edge == pixels::least(at + length, limit as int),
{
    if at >= limit || length >= limit - at {
        limit
    } else {
        at + length
    }
}

fn lesser(a: u16, b: u16) -> (n: u16)
    ensures
        n == pixels::least(a as int, b as int),
{
    if a <= b {
        a
    } else {
        b
    }
}

} // verus!
