//! Surface commands and what becomes of the graphics output.
use rdp_client_core::compositor::pixels::BYTES_PER_PIXEL;
use rdp_client_core::compositor::{
    CacheImportTile, Color, Compositor, DirtyRegion, MAX_CACHE_IMPORT_BYTES,
    MAX_CACHE_IMPORT_ENTRIES, MAX_COMPOSITOR_BYTES, MAX_SURFACE_DIM,
};
use rdp_client_core::geometry::{ExclusiveRectangle, Point};

fn rect(left: u16, top: u16, right: u16, bottom: u16) -> ExclusiveRectangle {
    ExclusiveRectangle {
        left,
        top,
        right,
        bottom,
    }
}

/// A mapped surface filled with a solid color drains one output update, in
/// output coordinates, with the expected pixels.
#[test]
fn solid_fill_on_mapped_surface_drains_output() {
    let mut c = Compositor::default();
    c.reset(200, 100);
    c.create_surface(1, 64, 64);
    c.map_surface(1, 10, 20);
    // map made the (zeroed) surface visible; commit and discard that delta.
    c.end_frame();
    let _ = c.drain_output();

    c.solid_fill(
        1,
        &Color {
            b: 0x33,
            g: 0x22,
            r: 0x11,
            xa: 0,
        },
        &[rect(0, 0, 4, 2)],
    );
    c.end_frame();
    let updates = c.drain_output();

    assert_eq!(updates.len(), 1);
    let u = &updates[0];
    assert_eq!(
        (u.region.left, u.region.top, u.region.right, u.region.bottom),
        (10, 20, 14, 22)
    );
    assert_eq!(u.data.len(), 4 * 2 * BYTES_PER_PIXEL);
    assert_eq!(&u.data[0..4], &[0x11, 0x22, 0x33, 0xFF]);
}

#[test]
fn scaled_surface_materializes_nearest_neighbor_pixels_and_dirty_bounds() {
    let mut c = Compositor::default();
    c.reset(10, 10);
    c.create_surface(1, 2, 2);
    c.apply_bitmap(
        1,
        &rect(0, 0, 2, 2),
        &[
            0x10, 0x11, 0x12, 0xFF, 0x20, 0x21, 0x22, 0xFF, 0x30, 0x31, 0x32, 0xFF, 0x40, 0x41, 0x42, 0xFF,
        ],
    );
    c.end_frame();

    c.map_surface_scaled(1, 4, 3, 3, 3);
    c.end_frame();
    let updates = c.drain_output();
    assert_eq!(updates.len(), 1);
    assert_eq!(updates[0].region, rect(4, 3, 7, 6));
    assert_eq!(
        updates[0].data,
        [
            0x10, 0x11, 0x12, 0xFF, 0x10, 0x11, 0x12, 0xFF, 0x20, 0x21, 0x22, 0xFF, 0x10, 0x11, 0x12, 0xFF, 0x10,
            0x11, 0x12, 0xFF, 0x20, 0x21, 0x22, 0xFF, 0x30, 0x31, 0x32, 0xFF, 0x30, 0x31, 0x32, 0xFF, 0x40, 0x41,
            0x42, 0xFF,
        ]
    );

    c.solid_fill(
        1,
        &Color {
            b: 0x53,
            g: 0x52,
            r: 0x51,
            xa: 0,
        },
        &[rect(1, 1, 2, 2)],
    );
    c.end_frame();
    let updates = c.drain_output();
    assert_eq!(updates.len(), 1);
    assert_eq!(updates[0].region, rect(6, 5, 7, 6));
    assert_eq!(updates[0].data, [0x51, 0x52, 0x53, 0xFF]);
}

#[test]
fn scaled_mapping_clips_without_discarding_other_output() {
    let mut c = Compositor::default();
    c.reset(8, 8);
    c.create_surface(1, 2, 2);
    c.create_surface(2, 1, 1);
    c.map_surface(2, 0, 0);
    c.end_frame();
    c.map_surface_scaled(1, 6, 5, 3, 3);
    c.end_frame();

    let updates = c.drain_output();
    assert_eq!(updates.len(), 2);
    assert_eq!(updates[0].region, rect(0, 0, 1, 1));
    assert_eq!(updates[1].region, rect(6, 5, 8, 8));
}

#[test]
fn oversized_scaled_mapping_preserves_the_wire_scale_factor() {
    let mut c = Compositor::default();
    c.reset(u32::from(u16::MAX), 1);
    c.create_surface(1, 2, 1);
    c.apply_bitmap(1, &rect(0, 0, 2, 1), &[0x10, 0x11, 0x12, 0xFF, 0x20, 0x21, 0x22, 0xFF]);
    c.end_frame();

    c.map_surface_scaled(1, 0, 0, u32::MAX, 1);
    c.end_frame();
    let updates = c.drain_output();

    assert_eq!(updates.len(), 1);
    assert_eq!(updates[0].region, rect(0, 0, u16::MAX, 1));
    assert_eq!(&updates[0].data[0..4], &[0x10, 0x11, 0x12, 0xFF]);
    assert_eq!(
        &updates[0].data[updates[0].data.len() - BYTES_PER_PIXEL..],
        &[0x10, 0x11, 0x12, 0xFF]
    );
}

#[test]
fn zero_scale_mapping_produces_no_output() {
    let mut c = Compositor::default();
    c.reset(8, 8);
    c.create_surface(1, 2, 2);
    c.map_surface_scaled(1, 0, 0, 0, 2);
    c.end_frame();

    assert!(c.drain_output().is_empty());
}

/// Deltas only become drainable after `EndFrame`.
#[test]
fn frame_is_atomic() {
    let mut c = Compositor::default();
    c.reset(200, 100);
    c.create_surface(1, 16, 16);
    c.map_surface(1, 0, 0);
    c.end_frame();
    let _ = c.drain_output();

    c.solid_fill(
        1,
        &Color {
            b: 1,
            g: 2,
            r: 3,
            xa: 0,
        },
        &[rect(0, 0, 8, 8)],
    );
    // Not committed yet.
    assert!(c.drain_output().is_empty());
    c.end_frame();
    assert_eq!(c.drain_output().len(), 1);
}

/// An unmapped surface produces no output.
#[test]
fn unmapped_surface_produces_no_output() {
    let mut c = Compositor::default();
    c.reset(200, 100);
    c.create_surface(1, 16, 16);
    c.solid_fill(
        1,
        &Color {
            b: 1,
            g: 2,
            r: 3,
            xa: 0,
        },
        &[rect(0, 0, 8, 8)],
    );
    c.end_frame();
    assert!(c.drain_output().is_empty());
}

/// `apply_bitmap` writes into the surface and drains the mapped region.
#[test]
fn apply_bitmap_composites_and_drains() {
    let mut c = Compositor::default();
    c.reset(64, 64);
    c.create_surface(1, 32, 32);
    c.map_surface(1, 0, 0);
    c.end_frame();
    let _ = c.drain_output();

    let px = vec![0xAAu8; 2 * 2 * BYTES_PER_PIXEL];
    c.apply_bitmap(1, &rect(4, 4, 6, 6), &px);
    c.end_frame();
    let updates = c.drain_output();
    assert_eq!(updates.len(), 1);
    assert_eq!(
        (
            updates[0].region.left,
            updates[0].region.top,
            updates[0].region.right,
            updates[0].region.bottom
        ),
        (4, 4, 6, 6)
    );
    assert_eq!(&updates[0].data[0..4], &[0xAA, 0xAA, 0xAA, 0xAA]);
}

/// A cache round-trip (surface -> cache -> other surface) reproduces the pixels.
#[test]
fn cache_round_trip() {
    let mut c = Compositor::default();
    c.reset(128, 128);
    c.create_surface(1, 16, 16);
    c.create_surface(2, 16, 16);
    c.map_surface(2, 0, 0);
    c.end_frame();
    let _ = c.drain_output();

    c.solid_fill(
        1,
        &Color {
            b: 0x10,
            g: 0x20,
            r: 0x30,
            xa: 0,
        },
        &[rect(0, 0, 8, 8)],
    );
    c.surface_to_cache(1, 7, &rect(0, 0, 8, 8));
    c.cache_to_surface(7, 2, &[Point { x: 2, y: 2 }]);
    c.end_frame();

    let updates = c.drain_output();
    // One update on surface 2 (surface 1 is unmapped, so its fill drained nothing).
    assert_eq!(updates.len(), 1);
    let u = &updates[0];
    assert_eq!(
        (u.region.left, u.region.top, u.region.right, u.region.bottom),
        (2, 2, 10, 10)
    );
    assert_eq!(&u.data[0..4], &[0x30, 0x20, 0x10, 0xFF]);
}

/// A destination rectangle larger than the surface is clipped, not panicked.
#[test]
fn oversized_rect_is_clipped() {
    let mut c = Compositor::default();
    c.reset(64, 64);
    c.create_surface(1, 8, 8);
    c.map_surface(1, 0, 0);
    c.end_frame();
    let _ = c.drain_output();

    c.solid_fill(
        1,
        &Color {
            b: 1,
            g: 2,
            r: 3,
            xa: 0,
        },
        &[rect(0, 0, 1000, 1000)],
    );
    c.end_frame();
    let updates = c.drain_output();
    assert_eq!(updates.len(), 1);
    // Clipped to the 8x8 surface.
    assert_eq!((updates[0].region.right, updates[0].region.bottom), (8, 8));
}

/// `ResetGraphics` only resizes the output (MS-RDPEGFX 3.3.5.14); surfaces
/// survive it, so commands issued against a surface created before the reset
/// still paint once the surface is remapped in the new output.
#[test]
fn surfaces_survive_a_reset() {
    let mut c = Compositor::default();
    c.reset(128, 128);
    c.create_surface(1, 16, 16);
    c.map_surface(1, 0, 0);
    c.end_frame();
    let _ = c.drain_output();

    // Different size than before: a server resize commonly changes it.
    c.reset(64, 64);

    c.solid_fill(
        1,
        &Color {
            b: 1,
            g: 2,
            r: 3,
            xa: 0,
        },
        &[rect(0, 0, 8, 8)],
    );
    c.end_frame();
    let updates = c.drain_output();
    assert_eq!(updates.len(), 1, "the surface must still be mapped after the reset");
    assert_eq!(&updates[0].data[0..4], &[3, 2, 1, 0xFF]);
}

/// Cache slots are removed only by `EvictCacheEntry` (MS-RDPEGFX 3.3.5.8), never
/// by `ResetGraphics`. A Windows server relies on this: after a resize it sends
/// ResetGraphics + CreateSurface + StartFrame and then paints through
/// `CacheToSurface` with slots filled before the reset, without re-sending them.
#[test]
fn cache_slots_survive_a_reset() {
    let mut c = Compositor::default();
    c.reset(128, 128);
    c.create_surface(1, 16, 16);
    c.solid_fill(
        1,
        &Color {
            b: 0x10,
            g: 0x20,
            r: 0x30,
            xa: 0,
        },
        &[rect(0, 0, 8, 8)],
    );
    c.surface_to_cache(1, 7, &rect(0, 0, 8, 8));

    c.reset(256, 256);
    c.create_surface(2, 16, 16);
    c.map_surface(2, 0, 0);
    c.end_frame();
    let _ = c.drain_output(); // discard the mapping delta

    c.cache_to_surface(7, 2, &[Point { x: 2, y: 2 }]);
    c.end_frame();
    let updates = c.drain_output();

    assert_eq!(updates.len(), 1, "the cache slot must still exist after the reset");
    let u = &updates[0];
    assert_eq!(
        (u.region.left, u.region.top, u.region.right, u.region.bottom),
        (2, 2, 10, 10)
    );
    assert_eq!(&u.data[0..4], &[0x30, 0x20, 0x10, 0xFF]);
}

/// A `SurfaceToSurface` source rectangle larger than the source surface is
/// clamped to it, so the copied tile is bounded (no oversized allocation).
#[test]
fn oversized_source_rect_is_clamped_to_source() {
    let mut c = Compositor::default();
    c.reset(128, 128);
    c.create_surface(1, 8, 8);
    c.create_surface(2, 64, 64);
    c.map_surface(2, 0, 0);
    c.end_frame();
    let _ = c.drain_output();

    // Source rectangle wildly exceeds surface 1 (8x8); it must clamp to 8x8.
    c.surface_to_surface(1, 2, &rect(0, 0, 60000, 60000), &[Point { x: 0, y: 0 }]);
    c.end_frame();
    let updates = c.drain_output();
    assert_eq!(updates.len(), 1);
    assert_eq!((updates[0].region.right, updates[0].region.bottom), (8, 8));
    assert_eq!(updates[0].data.len(), 8 * 8 * BYTES_PER_PIXEL);
}

/// A single surface at the per-edge limit is 1 GiB, which the aggregate budget
/// must refuse outright. The edge limit alone never did.
#[test]
fn a_surface_larger_than_the_budget_is_refused() {
    let mut c = Compositor::default();
    c.reset(1920, 1080);
    c.create_surface(1, MAX_SURFACE_DIM, MAX_SURFACE_DIM);

    assert!(c.surfaces.is_empty(), "a 1 GiB surface must not be allocated");
    assert_eq!(c.allocated_bytes, 0);
}

/// Surfaces that each fit are still refused once their total would not.
/// Bounding one allocation is not the property that matters when the peer
/// chooses how many to ask for.
#[test]
fn surfaces_are_refused_once_the_total_would_exceed_the_budget() {
    const EDGE: u16 = 4096; // 4096 * 4096 * 4 == 64 MiB
    let per_surface = usize::from(EDGE) * usize::from(EDGE) * BYTES_PER_PIXEL;
    let fit = MAX_COMPOSITOR_BYTES / per_surface;

    let mut c = Compositor::default();
    c.reset(1920, 1080);

    for id in 0..u16::try_from(fit).unwrap() {
        c.create_surface(id, EDGE, EDGE);
    }
    assert_eq!(c.surfaces.len(), fit, "every surface within budget must be allocated");

    c.create_surface(u16::try_from(fit).unwrap(), EDGE, EDGE);
    assert_eq!(c.surfaces.len(), fit, "the surface crossing the budget must be refused");
    assert!(c.allocated_bytes <= MAX_COMPOSITOR_BYTES);
}

/// Deleting a surface returns its bytes, so the budget is a live figure rather
/// than a high-water mark that permanently poisons the session.
#[test]
fn deleting_a_surface_releases_its_charge() {
    const EDGE: u16 = 4096;
    let mut c = Compositor::default();
    c.reset(1920, 1080);

    c.create_surface(1, EDGE, EDGE);
    let charged = c.allocated_bytes;
    assert!(charged > 0);

    c.delete_surface(1);
    assert_eq!(c.allocated_bytes, 0, "the charge must be released on delete");

    // And the freed budget is usable again.
    c.create_surface(2, EDGE, EDGE);
    assert_eq!(c.allocated_bytes, charged);
}

/// `BTreeMap::insert` drops whatever was under the id, so re-creating a surface
/// must not charge twice for one slot. Without the release this leaks budget
/// until the compositor refuses everything.
#[test]
fn recreating_a_surface_does_not_double_charge() {
    const EDGE: u16 = 4096;
    let mut c = Compositor::default();
    c.reset(1920, 1080);

    c.create_surface(1, EDGE, EDGE);
    let once = c.allocated_bytes;

    for _ in 0..8 {
        c.create_surface(1, EDGE, EDGE);
    }

    assert_eq!(c.allocated_bytes, once, "re-creating one id must not accumulate charge");
    assert_eq!(c.surfaces.len(), 1);
}

/// `ResetGraphics` keeps surfaces and the cache, so the charge after a reset
/// must equal exactly their pixel bytes, not zero; only the queued (not yet
/// drained) deltas in `ready` are discarded, since they were clipped against
/// the output size that no longer applies.
#[test]
fn reset_releases_only_the_queued_deltas() {
    const EDGE: u16 = 4096;
    let mut c = Compositor::default();
    c.reset(1920, 1080);
    c.create_surface(1, EDGE, EDGE);
    c.create_surface(2, EDGE, EDGE);
    c.surface_to_cache(1, 7, &rect(0, 0, 8, 8));
    c.map_surface(1, 0, 0);
    c.end_frame(); // commits a delta into `ready`
    assert!(!c.ready.is_empty(), "the mapped surface must have committed a delta");

    let surfaces_and_cache_bytes = c.allocated_bytes - c.ready.iter().map(|u| u.data.len()).sum::<usize>();

    c.reset(1280, 720);

    assert_eq!(
        c.allocated_bytes, surfaces_and_cache_bytes,
        "reset must keep the surfaces' and cache's charge, discarding only the queued deltas"
    );
    assert!(c.ready.is_empty(), "queued deltas must not survive a resizing reset");
}

/// The other half of the pair: a reset that does NOT change the output is not a
/// different output, so the deltas clipped against it are still valid and must
/// survive. Windows sends same-size `ResetGraphics` whenever it rebuilds its own
/// surfaces, and the session leaves the consumer's image untouched in that case,
/// so a cleared queue is a frame lost with nothing to repaint it.
#[test]
fn a_same_size_reset_keeps_the_queued_deltas() {
    let mut c = Compositor::default();
    c.reset(1920, 1080);
    c.create_surface(1, 64, 64);
    c.map_surface(1, 0, 0);
    c.end_frame();
    assert!(!c.ready.is_empty(), "the mapped surface must have committed a delta");
    let charged = c.allocated_bytes;

    c.reset(1920, 1080);

    assert!(
        !c.ready.is_empty(),
        "a same-size reset must not discard committed deltas"
    );
    assert_eq!(
        c.allocated_bytes, charged,
        "a same-size reset releases nothing, because it discards nothing"
    );
    assert_eq!(
        c.drain_output().len(),
        1,
        "the delta must still be drainable after a same-size reset"
    );
}

/// Strengthens `reset_releases_only_the_queued_deltas` by also exercising the
/// `frame` term: a payload can carry `ResetGraphics` while a frame is still
/// open (before `EndFrame`), and the uncommitted dirty metadata queued in
/// `frame` must be released too, not just the committed deltas in `ready`.
#[test]
fn reset_mid_frame_releases_the_dirty_metadata_too() {
    const EDGE: u16 = 4096;
    const TILE: u16 = 8;
    const OUTPUT_W: u16 = 1920;
    const OUTPUT_H: u16 = 1080;
    const DELTA_W: u16 = 8;
    const DELTA_H: u16 = 8;

    let mut c = Compositor::default();
    c.reset(u32::from(OUTPUT_W), u32::from(OUTPUT_H));
    c.create_surface(1, EDGE, EDGE);
    c.create_surface(2, EDGE, EDGE);
    c.surface_to_cache(1, 7, &rect(0, 0, TILE, TILE));

    // Mapping itself dirties the whole surface (it just became visible), clipped
    // to the output. Commit that delta first so it is the test's one known
    // `ready` entry, sized by the output rather than the surface.
    c.map_surface(1, 0, 0);
    c.end_frame();
    assert_eq!(c.ready.len(), 1, "mapping the surface must have committed one delta");

    let color = Color {
        r: 0,
        g: 0,
        b: 0,
        xa: 0xFF,
    };

    // An uncommitted dirty entry left in `frame` (no following `end_frame`).
    c.solid_fill(1, &color, &[rect(10, 10, 10 + DELTA_W, 10 + DELTA_H)]);
    assert_eq!(
        c.frame.len(),
        1,
        "the fill must have queued one uncommitted dirty entry"
    );

    let surfaces_bytes = 2 * usize::from(EDGE) * usize::from(EDGE) * BYTES_PER_PIXEL;
    let cache_bytes = usize::from(TILE) * usize::from(TILE) * BYTES_PER_PIXEL;
    // The mapping delta is clipped to the output, which is smaller than the surface.
    let ready_bytes = usize::from(OUTPUT_W) * usize::from(OUTPUT_H) * BYTES_PER_PIXEL;
    let frame_bytes = core::mem::size_of::<DirtyRegion>(); // one uncommitted dirty entry

    assert_eq!(
        c.allocated_bytes,
        surfaces_bytes + cache_bytes + ready_bytes + frame_bytes,
        "allocated_bytes must equal the explicit sum of surfaces, cache, ready and frame charges"
    );

    c.reset(u32::from(OUTPUT_W) / 2, u32::from(OUTPUT_H) / 2);

    assert!(c.ready.is_empty(), "queued deltas must not survive a resizing reset");
    assert!(
        c.frame.is_empty(),
        "uncommitted dirty metadata must not survive a resizing reset"
    );
    assert_eq!(
        c.allocated_bytes,
        surfaces_bytes + cache_bytes,
        "reset must release both the ready deltas and the uncommitted frame metadata"
    );
}

/// Sibling of `a_same_size_reset_keeps_the_queued_deltas`, but for the `frame`
/// term instead of `ready`: a same-size `ResetGraphics` can also arrive mid-frame
/// (before `EndFrame`), and the uncommitted dirty metadata queued in `frame` must
/// survive it too, exactly as the committed deltas in `ready` do — a reset that
/// changes nothing invalidates nothing (MS-RDPEGFX 3.3.5.14: reset resizes the
/// Graphics Output Buffer).
#[test]
fn a_same_size_reset_mid_frame_keeps_the_dirty_metadata_too() {
    let mut c = Compositor::default();
    c.reset(1920, 1080);
    c.create_surface(1, 64, 64);
    c.map_surface(1, 0, 0);
    c.end_frame();
    let _ = c.drain_output(); // discard the mapping delta

    let color = Color {
        r: 1,
        g: 2,
        b: 3,
        xa: 0,
    };
    c.solid_fill(1, &color, &[rect(0, 0, 8, 8)]);
    assert_eq!(
        c.frame.len(),
        1,
        "the fill must have queued one uncommitted dirty entry"
    );

    c.reset(1920, 1080);

    assert!(
        !c.frame.is_empty(),
        "a same-size reset must not discard uncommitted dirty metadata"
    );

    c.end_frame();
    assert_eq!(
        c.drain_output().len(),
        1,
        "the uncommitted delta must still be drainable after a same-size reset"
    );
}

/// Cache slots are a second allocation pool keyed by `u16`. Charging them against
/// the same budget is what stops a peer from bypassing the surface limit by
/// parking the same pixels in tens of thousands of slots instead.
#[test]
fn cache_entries_are_refused_once_the_total_would_exceed_the_budget() {
    const EDGE: u16 = 4096; // 64 MiB per surface, and per full-surface tile
    let mut c = Compositor::default();
    c.reset(1920, 1080);
    c.create_surface(1, EDGE, EDGE);

    let after_surface = c.allocated_bytes;
    let slots_that_fit = (MAX_COMPOSITOR_BYTES - after_surface) / after_surface;

    for slot in 0..u16::try_from(slots_that_fit).unwrap() {
        c.surface_to_cache(1, slot, &rect(0, 0, EDGE, EDGE));
    }
    assert_eq!(c.cache.len(), slots_that_fit);

    c.surface_to_cache(1, u16::try_from(slots_that_fit).unwrap(), &rect(0, 0, EDGE, EDGE));
    assert_eq!(
        c.cache.len(),
        slots_that_fit,
        "the tile crossing the shared budget must be refused"
    );
    assert!(c.allocated_bytes <= MAX_COMPOSITOR_BYTES);
}

/// The cache twin of the surface double-charge: repeatedly caching into one slot
/// replaces the tile, so it must not accumulate charge.
#[test]
fn recaching_into_one_slot_does_not_double_charge() {
    const EDGE: u16 = 2048;
    let mut c = Compositor::default();
    c.reset(1920, 1080);
    c.create_surface(1, EDGE, EDGE);

    c.surface_to_cache(1, 7, &rect(0, 0, EDGE, EDGE));
    let once = c.allocated_bytes;

    for _ in 0..8 {
        c.surface_to_cache(1, 7, &rect(0, 0, EDGE, EDGE));
    }

    assert_eq!(c.allocated_bytes, once, "one slot must hold one charge");
    assert_eq!(c.cache.len(), 1);
}

/// Evicting a slot returns its bytes, so a session that cycles the cache does not
/// ratchet the budget upward.
#[test]
fn evicting_a_cache_entry_releases_its_charge() {
    const EDGE: u16 = 2048;
    let mut c = Compositor::default();
    c.reset(1920, 1080);
    c.create_surface(1, EDGE, EDGE);
    let surface_only = c.allocated_bytes;

    c.surface_to_cache(1, 7, &rect(0, 0, EDGE, EDGE));
    assert!(c.allocated_bytes > surface_only);

    c.evict_cache_entry(7);
    assert_eq!(
        c.allocated_bytes, surface_only,
        "eviction must return the tile's bytes to the budget"
    );
}

/// Every destination point receives the cached pixels. The blits share one
/// borrow of the tile and one surface lookup, so this pins that the loop still
/// paints each point rather than only the first.
#[test]
fn cache_to_surface_paints_every_destination_point() {
    let mut c = Compositor::default();
    c.reset(128, 128);
    c.create_surface(1, 16, 16);
    c.create_surface(2, 16, 16);
    c.map_surface(2, 0, 0);
    c.end_frame();
    let _ = c.drain_output();

    c.solid_fill(
        1,
        &Color {
            b: 0x10,
            g: 0x20,
            r: 0x30,
            xa: 0,
        },
        &[rect(0, 0, 8, 8)],
    );
    c.surface_to_cache(1, 7, &rect(0, 0, 8, 8));
    c.cache_to_surface(7, 2, &[Point { x: 0, y: 0 }, Point { x: 8, y: 8 }]);
    c.end_frame();

    let updates = c.drain_output();
    assert_eq!(updates.len(), 2, "each destination point produces its own delta");
    for update in &updates {
        assert_eq!(&update.data[0..4], &[0x30, 0x20, 0x10, 0xFF]);
    }
    assert_eq!(
        (updates[1].region.left, updates[1].region.top),
        (8, 8),
        "the second point must be painted, not skipped"
    );
}

/// A PDU that names one rectangle repeatedly queues one delta, not one per
/// entry: `rectCount` is a `u16`, so eager copies would amplify a small
/// payload into 65,535 full-region buffers.
#[test]
fn repeated_paints_of_one_region_queue_a_single_delta() {
    let mut c = Compositor::default();
    c.reset(1920, 1080);
    c.create_surface(1, 512, 512);
    c.map_surface(1, 0, 0);
    c.end_frame();
    let _ = c.drain_output();

    let color = Color {
        b: 0x11,
        g: 0x22,
        r: 0x33,
        xa: 0,
    };
    let repeated = vec![rect(0, 0, 512, 512); 4096];
    c.solid_fill(1, &color, &repeated);
    c.end_frame();

    let updates = c.drain_output();
    assert_eq!(updates.len(), 1, "identical rectangles must collapse to one delta");
}

/// Pixels are read at `EndFrame`, so a region painted twice within a frame
/// yields one delta carrying the second color rather than two the consumer
/// would paint over each other.
#[test]
fn deferred_pixels_carry_the_frames_final_state() {
    let mut c = Compositor::default();
    c.reset(1920, 1080);
    c.create_surface(1, 16, 16);
    c.map_surface(1, 0, 0);
    c.end_frame();
    let _ = c.drain_output();

    let first = Color {
        b: 0x01,
        g: 0x02,
        r: 0x03,
        xa: 0,
    };
    let second = Color {
        b: 0xF1,
        g: 0xF2,
        r: 0xF3,
        xa: 0,
    };
    c.solid_fill(1, &first, &[rect(0, 0, 8, 8)]);
    c.solid_fill(1, &second, &[rect(0, 0, 8, 8)]);
    c.end_frame();

    let updates = c.drain_output();
    assert_eq!(updates.len(), 1);
    assert_eq!(&updates[0].data[0..4], &[0xF3, 0xF2, 0xF1, 0xFF]);
}

/// Deferral reads the surface as it stands at commit, so a surface deleted
/// mid-frame contributes nothing: its output region is repainted by whatever
/// maps there next.
#[test]
fn a_surface_deleted_mid_frame_contributes_no_delta() {
    let mut c = Compositor::default();
    c.reset(1920, 1080);
    c.create_surface(1, 16, 16);
    c.map_surface(1, 0, 0);
    c.end_frame();
    let _ = c.drain_output();

    c.solid_fill(
        1,
        &Color {
            b: 0x11,
            g: 0x22,
            r: 0x33,
            xa: 0,
        },
        &[rect(0, 0, 8, 8)],
    );
    c.delete_surface(1);
    c.end_frame();

    assert!(c.drain_output().is_empty());
}

/// Distinct rectangles still materialize one copy each, so the queue is
/// charged against the same budget as the surfaces and refuses past it.
#[test]
fn queued_deltas_are_refused_once_they_would_exceed_the_budget() {
    const EDGE: u16 = 4096; // 4096 * 4096 * 4 == 64 MiB
    let mut c = Compositor::default();
    c.reset(u32::from(EDGE), u32::from(EDGE));
    c.create_surface(1, EDGE, EDGE);
    c.map_surface(1, 0, 0);
    c.end_frame();
    let _ = c.drain_output();

    // Neither rectangle contains the other, so the repeat filter keeps all four
    // as distinct dirty regions. Each is one pixel row short of the surface.
    c.solid_fill(
        1,
        &Color {
            b: 0,
            g: 0,
            r: 0,
            xa: 0,
        },
        &[
            rect(0, 0, EDGE, EDGE - 1),
            rect(0, 1, EDGE, EDGE),
            rect(0, 0, EDGE, EDGE - 1),
            rect(0, 1, EDGE, EDGE),
        ],
    );
    c.end_frame();

    // 64 MiB of surface leaves room for three of the four deltas, each one row
    // short of 64 MiB. An exact count also proves the repeat filter left all
    // four regions distinct rather than collapsing them.
    let updates = c.drain_output();
    assert_eq!(
        updates.len(),
        3,
        "the queue must refuse deltas once the shared budget is exhausted"
    );
    assert!(c.allocated_bytes <= MAX_COMPOSITOR_BYTES);
}

/// The repeat filter only collapses consecutive repeats, so a peer that never
/// sends `EndFrame` can alternate two rectangles and add a dirty entry per
/// rectangle indefinitely. The entries are charged, so that growth stops at the
/// budget instead of running to exhaustion.
#[test]
fn alternating_dirty_rectangles_stop_at_the_budget() {
    const ENTRY: usize = core::mem::size_of::<DirtyRegion>();
    const FIT: usize = 64;
    let mut c = Compositor::default();
    c.reset(64, 64);
    c.create_surface(1, 64, 64);

    // Spend the budget down to a known headroom rather than allocating 256 MiB
    // of surfaces to reach it, so the loop below stays short.
    let reserve = MAX_COMPOSITOR_BYTES - c.allocated_bytes - FIT * ENTRY;
    assert!(c.charge(reserve));

    // Neither rectangle contains the other, so every one of these survives the
    // repeat filter and reaches the push. No `EndFrame` in between: this is the
    // single unbounded frame the filter cannot collapse.
    let black = Color {
        b: 0,
        g: 0,
        r: 0,
        xa: 0,
    };
    for _ in 0..FIT {
        c.solid_fill(1, &black, &[rect(0, 0, 64, 63), rect(0, 1, 64, 64)]);
    }

    assert_eq!(c.frame.len(), FIT, "the frame must stop growing at the budget");
    assert_eq!(c.allocated_bytes, MAX_COMPOSITOR_BYTES);
}

/// Draining hands the pixels to the consumer, so the queue's charge returns to
/// the budget rather than ratcheting it upward frame after frame.
#[test]
fn draining_releases_the_queue_charge() {
    let mut c = Compositor::default();
    c.reset(1920, 1080);
    c.create_surface(1, 512, 512);
    let surface_only = c.allocated_bytes;

    c.map_surface(1, 0, 0);
    c.end_frame();
    assert!(c.allocated_bytes > surface_only, "the queued delta must be charged");

    let _ = c.drain_output();
    assert_eq!(
        c.allocated_bytes, surface_only,
        "draining must return the delta's bytes to the budget"
    );
}

/// A payload may carry `EndFrame` and `ResetGraphics` together, since `process`
/// handles every PDU in it before the consumer can drain. Deltas committed
/// before the reset were clipped against the previous output, so they must not
/// survive into the new one.
#[test]
fn reset_discards_deltas_committed_before_it() {
    let mut c = Compositor::default();
    c.reset(4096, 4096);
    c.create_surface(1, 2048, 2048);
    let surface_only = c.allocated_bytes;
    c.map_surface(1, 2048, 2048);
    c.end_frame();
    assert!(!c.ready.is_empty(), "the mapped surface must have committed a delta");
    assert!(c.allocated_bytes > surface_only, "the queued delta must be charged");

    // Shrinking the output is the case that matters: the queued region sits
    // outside the new bounds entirely.
    c.reset(1920, 1080);
    assert!(c.drain_output().is_empty(), "pre-reset deltas must not be drainable");
    // The surface itself survives the reset (MS-RDPEGFX 3.3.5.14), so its charge
    // remains; only the discarded queued delta's charge is released.
    assert_eq!(c.allocated_bytes, surface_only);
}

fn tile(cache_key: u64, width: u16, height: u16, fill: u8) -> CacheImportTile {
    CacheImportTile {
        cache_key,
        width,
        height,
        data: vec![fill; usize::from(width) * usize::from(height) * BYTES_PER_PIXEL],
    }
}

/// Staging charges every staged tile and offers them in the order given, with
/// `bitmap_len = width * height * 4`.
#[test]
fn staged_import_is_charged_and_offered_in_order() {
    let mut c = Compositor::default();
    let entries = c.stage_import(vec![tile(10, 2, 2, 1), tile(20, 3, 1, 2), tile(30, 1, 1, 3)]);
    let offered: Vec<(u64, u32)> = entries.iter().map(|e| (e.cache_key, e.bitmap_len)).collect();
    assert_eq!(offered, vec![(10, 16), (20, 12), (30, 4)]);
    assert_eq!(c.allocated_bytes, 16 + 12 + 4);
}

#[test]
fn staging_skips_malformed_and_repeated_tiles() {
    let mut c = Compositor::default();
    let mut short = tile(11, 2, 2, 1);
    short.data.pop();
    let entries = c.stage_import(vec![
        short,
        tile(12, 0, 4, 1),
        tile(13, 1, 1, 1),
        tile(13, 1, 1, 9),
        tile(14, 1, 1, 1),
    ]);
    let keys: Vec<u64> = entries.iter().map(|e| e.cache_key).collect();
    assert_eq!(keys, vec![13, 14]);
    assert_eq!(c.allocated_bytes, 4 + 4);
}

#[test]
fn staging_stops_at_the_entry_cap() {
    let mut c = Compositor::default();
    let tiles = (0..u64::try_from(MAX_CACHE_IMPORT_ENTRIES + 3).unwrap())
        .map(|k| tile(k + 1, 1, 1, 1))
        .collect();
    assert_eq!(c.stage_import(tiles).len(), MAX_CACHE_IMPORT_ENTRIES);
}

#[test]
fn staging_stops_at_the_byte_cap() {
    const EDGE: u16 = 2048; // 16 MiB per tile
    let per_tile = usize::from(EDGE) * usize::from(EDGE) * BYTES_PER_PIXEL;
    let fit = MAX_CACHE_IMPORT_BYTES / per_tile; // 6
    let mut c = Compositor::default();
    let tiles = (0..u64::try_from(fit + 1).unwrap())
        .map(|k| tile(k + 1, EDGE, EDGE, 1))
        .collect();
    assert_eq!(c.stage_import(tiles).len(), fit);
    assert_eq!(c.allocated_bytes, fit * per_tile);
}

/// The budget is checked before the offer exists: a tile the budget refuses is
/// never offered, so the reply can never name a slot the compositor then refuses.
#[test]
fn staging_stops_where_the_budget_refuses() {
    const SURFACE_EDGE: u16 = 4096; // 64 MiB per surface
    const TILE_EDGE: u16 = 2048; // 16 MiB per tile
    let mut c = Compositor::default();
    for id in 1..=3 {
        c.create_surface(id, SURFACE_EDGE, SURFACE_EDGE);
    }
    let surfaces = 3 * usize::from(SURFACE_EDGE) * usize::from(SURFACE_EDGE) * BYTES_PER_PIXEL;
    let per_tile = usize::from(TILE_EDGE) * usize::from(TILE_EDGE) * BYTES_PER_PIXEL;
    let fit = (MAX_COMPOSITOR_BYTES - surfaces) / per_tile; // 4, below the byte cap's 6
    let tiles = (0..6).map(|k| tile(k + 1, TILE_EDGE, TILE_EDGE, 1)).collect();
    assert_eq!(c.stage_import(tiles).len(), fit);
    assert_eq!(c.allocated_bytes, surfaces + fit * per_tile);
}

/// The reply fills exactly the slots it names, with the tile at the same offer
/// index, and releases every tile it does not name.
#[test]
fn commit_fills_exactly_the_named_slots() {
    let mut c = Compositor::default();
    c.stage_import(vec![tile(10, 2, 2, 0xA1), tile(20, 2, 2, 0xB2), tile(30, 1, 1, 0xC3)]);
    let outcome = c.commit_import(&[5, 0, 9]);
    assert_eq!(outcome.offered, 3);
    assert_eq!(outcome.imported, vec![(10, 5), (30, 9)]);
    assert!(outcome.unfilled_slots.is_empty());
    assert_eq!(c.cache.keys().copied().collect::<Vec<_>>(), vec![5, 9]);
    assert_eq!(c.cache_tile(5), Some((2, 2, &[0xA1; 16][..])));
    assert_eq!(c.cache_tile(9), Some((1, 1, &[0xC3; 4][..])));
    assert_eq!(c.allocated_bytes, 16 + 4, "the unnamed tile's charge must be released");
}

/// An imported tile paints through `CacheToSurface` like a tile the server cached
/// in this session.
#[test]
fn imported_tile_paints_through_cache_to_surface() {
    let mut c = Compositor::default();
    c.reset(16, 16);
    c.create_surface(1, 16, 16);
    c.map_surface(1, 0, 0);
    c.end_frame();
    let _ = c.drain_output();
    c.stage_import(vec![tile(10, 2, 2, 0x7F)]);
    c.commit_import(&[7]);
    c.cache_to_surface(7, 1, &[Point { x: 4, y: 4 }]);
    c.end_frame();
    let updates = c.drain_output();
    assert_eq!(updates.len(), 1);
    assert_eq!((updates[0].region.left, updates[0].region.top), (4, 4));
    assert_eq!(updates[0].data, vec![0x7F; 16]);
}

#[test]
fn commit_reports_slots_it_cannot_fill() {
    let mut c = Compositor::default();
    c.stage_import(vec![tile(10, 1, 1, 1)]);
    let outcome = c.commit_import(&[4, 7]);
    assert_eq!(outcome.imported, vec![(10, 4)]);
    assert_eq!(outcome.unfilled_slots, vec![7]);
    // A second reply has nothing staged behind it.
    let again = c.commit_import(&[3]);
    assert_eq!(again.offered, 0);
    assert!(again.imported.is_empty());
    assert_eq!(again.unfilled_slots, vec![3]);
    assert_eq!(c.cache.keys().copied().collect::<Vec<_>>(), vec![4]);
}

#[test]
fn commit_reports_a_slot_named_twice() {
    let mut c = Compositor::default();
    c.stage_import(vec![tile(10, 1, 1, 1), tile(20, 1, 1, 2)]);
    let outcome = c.commit_import(&[4, 4]);
    assert_eq!(outcome.imported, vec![(10, 4)]);
    assert_eq!(outcome.unfilled_slots, vec![4]);
    assert_eq!(c.allocated_bytes, 4);
}

/// Importing into an occupied slot replaces the occupant and releases its charge.
#[test]
fn commit_replaces_an_occupied_slot() {
    let mut c = Compositor::default();
    c.create_surface(1, 8, 8);
    c.surface_to_cache(1, 5, &rect(0, 0, 8, 8));
    c.stage_import(vec![tile(10, 1, 1, 1)]);
    c.commit_import(&[5]);
    assert_eq!(c.allocated_bytes, 8 * 8 * BYTES_PER_PIXEL + 4);
    assert_eq!(c.cache_tile(5), Some((1, 1, &[1u8; 4][..])));
}

#[test]
fn staged_import_survives_a_reset() {
    let mut c = Compositor::default();
    c.reset(100, 100);
    c.stage_import(vec![tile(10, 1, 1, 1)]);
    c.reset(200, 150);
    assert_eq!(c.commit_import(&[3]).imported, vec![(10, 3)]);
}

#[test]
fn discard_releases_the_staged_charge() {
    let mut c = Compositor::default();
    c.stage_import(vec![tile(10, 2, 2, 1), tile(20, 1, 1, 1)]);
    c.discard_import();
    assert_eq!(c.allocated_bytes, 0);
    let outcome = c.commit_import(&[1, 2]);
    assert!(outcome.imported.is_empty());
    assert_eq!(outcome.unfilled_slots, vec![1, 2]);
}

/// A tile the budget refuses leaves no tile behind for `cache_tile` to report.
#[test]
fn a_refused_surface_to_cache_leaves_no_tile() {
    let mut c = Compositor::default();
    c.surface_to_cache(99, 5, &rect(0, 0, 8, 8)); // no such surface
    assert_eq!(c.cache_tile(5), None);
}

/// Dimensions beyond what a coordinate reaches are told apart as they were asked for: the
/// same ones again keep the queue, and others drop it.
#[test]
fn a_repeated_oversized_reset_keeps_the_queue() {
    let mut c = Compositor::default();
    c.reset(70_000, 100);
    assert_eq!((c.output_width(), c.output_height()), (u16::MAX, 100));
    c.create_surface(1, 8, 8);
    c.map_surface(1, 0, 0);
    c.end_frame();
    c.reset(70_000, 100);
    assert_eq!(c.drain_output().len(), 1);

    c.map_surface(1, 0, 0);
    c.end_frame();
    c.reset(80_000, 100);
    assert!(c.drain_output().is_empty());
}
