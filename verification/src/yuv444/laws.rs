//! What holds of painting, splitting and converting together.
use vstd::prelude::*;

use super::split::OwnedYuv420;
use super::{ChromaLayout, Picture, PlaneRect};
use crate::decode::Yuv420View;

verus! {

/// Painting a main view touches nothing outside `rect` grown outward to even
/// boundaries, nor anything past the view's own dimensions.
pub proof fn law_main_view_stays_inside(
    picture: Picture,
    main: Yuv420View,
    rect: PlaneRect,
    x: int,
    y: int,
)
    requires
        picture.well_formed(),
        0 <= x < picture.width,
        0 <= y < picture.height,
        x < rect.left - rect.left % 2 || x >= rect.right + rect.right % 2 || y < rect.top
            - rect.top % 2 || y >= rect.bottom + rect.bottom % 2 || x >= main.width || y
            >= main.height,
    ensures
        ({
            let painted = picture.main_painted(main, rect);
            &&& painted.sample(painted.y, x, y) == picture.sample(picture.y, x, y)
            &&& painted.sample(painted.u, x, y) == picture.sample(picture.u, x, y)
            &&& painted.sample(painted.v, x, y) == picture.sample(picture.v, x, y)
        }),
{
    crate::row_major::lemma_index_of(picture.width as int, picture.height as int, x, y);
}

/// Painting an auxiliary view touches no luma at all, and no chroma outside
/// `rect`.
pub proof fn law_aux_view_stays_inside(
    picture: Picture,
    aux: Yuv420View,
    rect: PlaneRect,
    layout: ChromaLayout,
    x: int,
    y: int,
)
    requires
        picture.well_formed(),
        0 <= x < picture.width,
        0 <= y < picture.height,
    ensures
        ({
            let painted = picture.aux_painted(aux, rect, layout);
            &&& painted.y == picture.y
            &&& !rect.covers(x, y) ==> painted.sample(painted.u, x, y) == picture.sample(
                picture.u,
                x,
                y,
            )
            &&& !rect.covers(x, y) ==> painted.sample(painted.v, x, y) == picture.sample(
                picture.v,
                x,
                y,
            )
        }),
{
    crate::row_major::lemma_index_of(picture.width as int, picture.height as int, x, y);
}

/// A view that is not well formed changes nothing.
pub proof fn law_ill_formed_view_is_ignored(
    picture: Picture,
    view: Yuv420View,
    rect: PlaneRect,
    layout: ChromaLayout,
)
    requires
        !view.well_formed(),
    ensures
        picture.main_painted(view, rect) == picture,
        picture.aux_painted(view, rect, layout) == picture,
{
}

/// Every sample that only the main view has painted converts with its own block's
/// chroma: replication makes the reverse filter the identity. Where the filter
/// reads the rest of a 2x2 block, that is painted too.
pub proof fn law_main_view_alone_converts_as_sent(
    picture: Picture,
    main: Yuv420View,
    rect: PlaneRect,
    x: int,
    y: int,
)
    requires
        picture.well_formed(),
        main.well_formed(),
        0 <= x < picture.width,
        0 <= y < picture.height,
        super::area_covers(
            super::main_view_area(picture.width as int, picture.height as int, main, rect),
            x,
            y,
        ),
        x % 2 == 0 && y % 2 == 0 && x + 1 < picture.width && y + 1 < picture.height
            ==> super::area_covers(
            super::main_view_area(picture.width as int, picture.height as int, main, rect),
            x + 1,
            y + 1,
        ),
    ensures
        ({
            let painted = picture.main_painted(main, rect);
            &&& painted.sample(painted.y, x, y) == main.luma_at(x, y)
            &&& painted.reconstructed(painted.u, x, y) == main.u_at(x / 2, y / 2)
            &&& painted.reconstructed(painted.v, x, y) == main.v_at(x / 2, y / 2)
        }),
{
    let w = picture.width as int;
    let h = picture.height as int;
    crate::row_major::lemma_index_of(w, h, x, y);
    if x % 2 == 0 && y % 2 == 0 && x + 1 < w && y + 1 < h {
        crate::row_major::lemma_index_of(w, h, x + 1, y);
        crate::row_major::lemma_index_of(w, h, x, y + 1);
        crate::row_major::lemma_index_of(w, h, x + 1, y + 1);
        super::color::law_reverse_filter_keeps_flat_block(main.u_at(x / 2, y / 2));
        super::color::law_reverse_filter_keeps_flat_block(main.v_at(x / 2, y / 2));
    }
}

/// How many rows the auxiliary view of a picture of `height` rows has.
pub open spec fn aux_height(height: int, layout: ChromaLayout) -> int {
    match layout {
        ChromaLayout::V1 => super::split::macroblock_height(height),
        ChromaLayout::V2 => height,
    }
}

/// `main` and `aux` are packed views of what `src` splits into, and `src` is of a
/// size that the wire can carry.
pub open spec fn split_into(
    src: Picture,
    layout: ChromaLayout,
    owned_main: OwnedYuv420,
    owned_aux: OwnedYuv420,
    main: Yuv420View,
    aux: Yuv420View,
) -> bool {
    &&& src.well_formed()
    &&& 0 < src.width <= u32::MAX
    &&& 0 < src.height
    &&& aux_height(src.height as int, layout) <= u32::MAX
    &&& src.main_view_is(owned_main)
    &&& owned_main.packed_view_is(main)
    &&& src.aux_view_is(owned_aux, layout)
    &&& owned_aux.packed_view_is(aux)
}

/// A packed plane holds its rows.
proof fn lemma_packed_plane(width: int, height: int)
    requires
        0 < width,
        0 < height,
    ensures
        crate::decode::plane_holds(width * height, width, width, height),
{
    assert((height - 1) * width + width == width * height) by (nonlinear_arith);
}

/// What `src` splits into is well formed.
pub proof fn law_split_views_are_well_formed(
    src: Picture,
    layout: ChromaLayout,
    owned_main: OwnedYuv420,
    owned_aux: OwnedYuv420,
    main: Yuv420View,
    aux: Yuv420View,
)
    requires
        split_into(src, layout, owned_main, owned_aux, main, aux),
    ensures
        main.well_formed(),
        aux.well_formed(),
        main.width == src.width,
        main.height == src.height,
        aux.width == src.width,
        aux.height == aux_height(src.height as int, layout),
{
    let w = src.width as int;
    let h = src.height as int;
    let cw = crate::decode::half_up(w);
    let tall = super::split::macroblock_height(h);
    lemma_packed_plane(w, h);
    lemma_packed_plane(cw, crate::decode::half_up(h));
    lemma_packed_plane(w, tall);
    lemma_packed_plane(cw, tall / 2);
    assert(0 <= w * h) by (nonlinear_arith)
        requires
            0 < w,
            0 < h,
    ;
    assert(0 <= cw * crate::decode::half_up(h)) by (nonlinear_arith)
        requires
            0 < cw,
            0 < crate::decode::half_up(h),
    ;
    assert(0 <= w * tall) by (nonlinear_arith)
        requires
            0 < w,
            0 < tall,
    ;
    assert(0 <= cw * (tall / 2)) by (nonlinear_arith)
        requires
            0 < cw,
            0 < tall / 2,
    ;
}

/// A position whose chroma the auxiliary view of a `width`-wide picture carries
/// exactly: every odd column, and on odd rows every even column too, which
/// AVC444v2 carries in whole groups of four only.
pub open spec fn carried_by_aux(width: int, layout: ChromaLayout, x: int, y: int) -> bool {
    x % 2 == 1 || (y % 2 == 1 && (layout is V1 || x / 4 < width / 4))
}

/// A raster's element at a position is the sample at that position.
pub(crate) proof fn lemma_raster_at(width: int, height: int, at: spec_fn(int, int) -> u8, x: int, y: int)
    requires
        0 <= x < width,
        0 <= y < height,
    ensures
        super::split::raster(width, height, at)[y * width + x] == at(x, y),
{
    crate::row_major::lemma_index_of(width, height, x, y);
}

/// Where an odd row `y` of a picture stands in its AVC444 auxiliary view: one row
/// in the upper half of its macroblock row and one eight below.
pub(crate) proof fn lemma_v1_rows(height: int, y: int)
    requires
        0 <= y < height,
        y % 2 == 1,
    ensures
        ({
            let row = 16 * (y / 16) + (y % 16) / 2;
            &&& 0 <= row
            &&& row + 8 < super::split::macroblock_height(height)
            &&& row % 16 == (y % 16) / 2
            &&& (row + 8) % 16 == row % 16 + 8
            &&& row - row % 16 + 2 * (row % 16) + 1 == y
        }),
{
}

/// The luma plane of an AVC444 auxiliary view, sample by sample.
proof fn lemma_v1_luma_at(src: Picture, owned: OwnedYuv420, aux: Yuv420View, x: int, row: int)
    requires
        0 < src.width <= u32::MAX,
        src.v1_view_is(owned),
        owned.packed_view_is(aux),
        0 <= x < src.width,
        0 <= row < super::split::macroblock_height(src.height as int),
    ensures
        aux.luma_at(x, row) == src.v1_luma(x, row),
{
    lemma_raster_at(
        src.width as int,
        super::split::macroblock_height(src.height as int),
        |x: int, row: int| src.v1_luma(x, row),
        x,
        row,
    );
}

/// The odd rows of `src` stand in the luma plane of its AVC444 auxiliary view.
proof fn lemma_v1_odd_row(src: Picture, owned: OwnedYuv420, aux: Yuv420View, x: int, y: int)
    requires
        0 < src.width <= u32::MAX,
        super::split::macroblock_height(src.height as int) <= u32::MAX,
        src.v1_view_is(owned),
        owned.packed_view_is(aux),
        0 <= x < src.width,
        0 <= y < src.height,
        y % 2 == 1,
    ensures
        super::v1_u(aux, x, y) == Some(src.sample(src.u, x, y)),
        super::v1_v(aux, x, y) == Some(src.sample(src.v, x, y)),
{
    let row = 16 * (y / 16) + (y % 16) / 2;
    lemma_v1_rows(src.height as int, y);
    lemma_v1_luma_at(src, owned, aux, x, row);
    lemma_v1_luma_at(src, owned, aux, x, row + 8);
}

/// The odd columns of the even rows of `src` stand in the chroma planes of its
/// AVC444 auxiliary view.
proof fn lemma_v1_even_row(src: Picture, owned: OwnedYuv420, aux: Yuv420View, x: int, y: int)
    requires
        0 < src.width <= u32::MAX,
        super::split::macroblock_height(src.height as int) <= u32::MAX,
        src.v1_view_is(owned),
        owned.packed_view_is(aux),
        0 <= x < src.width,
        0 <= y < src.height,
        x % 2 == 1,
        y % 2 == 0,
    ensures
        super::v1_u(aux, x, y) == Some(src.sample(src.u, x, y)),
        super::v1_v(aux, x, y) == Some(src.sample(src.v, x, y)),
{
    let cw = crate::decode::half_up(src.width as int);
    let half = super::split::macroblock_height(src.height as int) / 2;
    lemma_raster_at(cw, half, |gx: int, gy: int| src.v1_chroma(src.u, gx, gy), x / 2, y / 2);
    lemma_raster_at(cw, half, |gx: int, gy: int| src.v1_chroma(src.v, gx, gy), x / 2, y / 2);
    assert(aux.u_at(x / 2, y / 2) == src.v1_chroma(src.u, x / 2, y / 2));
    assert(aux.v_at(x / 2, y / 2) == src.v1_chroma(src.v, x / 2, y / 2));
}

/// What an AVC444 auxiliary view of `src` carries is the sample itself.
proof fn lemma_v1_carries_source(src: Picture, owned: OwnedYuv420, aux: Yuv420View, x: int, y: int)
    requires
        0 < src.width <= u32::MAX,
        super::split::macroblock_height(src.height as int) <= u32::MAX,
        src.v1_view_is(owned),
        owned.packed_view_is(aux),
        0 <= x < src.width,
        0 <= y < src.height,
    ensures
        x % 2 == 1 || y % 2 == 1 ==> super::v1_u(aux, x, y) == Some(src.sample(src.u, x, y))
            && super::v1_v(aux, x, y) == Some(src.sample(src.v, x, y)),
        x % 2 == 0 && y % 2 == 0 ==> super::v1_u(aux, x, y) is None && super::v1_v(aux, x, y) is None,
{
    if y % 2 == 1 {
        lemma_v1_odd_row(src, owned, aux, x, y);
    } else if x % 2 == 1 {
        lemma_v1_even_row(src, owned, aux, x, y);
    }
}

/// What an AVC444v2 auxiliary view of `src` carries is the sample itself.
proof fn lemma_v2_carries_source(src: Picture, owned: OwnedYuv420, aux: Yuv420View, x: int, y: int)
    requires
        0 < src.width <= u32::MAX,
        src.height <= u32::MAX,
        src.v2_view_is(owned),
        owned.packed_view_is(aux),
        0 <= x < src.width,
        0 <= y < src.height,
    ensures
        carried_by_aux(src.width as int, ChromaLayout::V2, x, y) ==> super::v2_sample(
            aux,
            false,
            x,
            y,
        ) == Some(src.sample(src.u, x, y)) && super::v2_sample(aux, true, x, y) == Some(
            src.sample(src.v, x, y),
        ),
        !carried_by_aux(src.width as int, ChromaLayout::V2, x, y) ==> super::v2_sample(
            aux,
            false,
            x,
            y,
        ) is None && super::v2_sample(aux, true, x, y) is None,
{
    let w = src.width as int;
    let h = src.height as int;
    let cw = crate::decode::half_up(w);
    let ch = crate::decode::half_up(h);
    if x % 2 == 1 {
        let luma = |x: int, row: int| src.v2_luma(x, row);
        lemma_raster_at(w, h, luma, x / 2, y);
        lemma_raster_at(w, h, luma, w / 2 + x / 2, y);
        assert(aux.luma_at(x / 2, y) == src.v2_luma(x / 2, y));
        assert(aux.luma_at(w / 2 + x / 2, y) == src.v2_luma(w / 2 + x / 2, y));
    } else if y % 2 == 1 && x / 4 < w / 4 {
        let u = |gx: int, gy: int| src.v2_chroma(0, gx, gy);
        let v = |gx: int, gy: int| src.v2_chroma(2, gx, gy);
        lemma_raster_at(cw, ch, u, x / 4, y / 2);
        lemma_raster_at(cw, ch, u, w / 4 + x / 4, y / 2);
        lemma_raster_at(cw, ch, v, x / 4, y / 2);
        lemma_raster_at(cw, ch, v, w / 4 + x / 4, y / 2);
        assert(aux.u_at(x / 4, y / 2) == src.v2_chroma(0, x / 4, y / 2));
        assert(aux.u_at(w / 4 + x / 4, y / 2) == src.v2_chroma(0, w / 4 + x / 4, y / 2));
        assert(aux.v_at(x / 4, y / 2) == src.v2_chroma(2, x / 4, y / 2));
        assert(aux.v_at(w / 4 + x / 4, y / 2) == src.v2_chroma(2, w / 4 + x / 4, y / 2));
    }
}

/// What an auxiliary view carries of `src` is the sample itself.
proof fn lemma_aux_carries_source(
    src: Picture,
    layout: ChromaLayout,
    owned: OwnedYuv420,
    aux: Yuv420View,
    x: int,
    y: int,
)
    requires
        0 < src.width <= u32::MAX,
        aux_height(src.height as int, layout) <= u32::MAX,
        src.aux_view_is(owned, layout),
        owned.packed_view_is(aux),
        0 <= x < src.width,
        0 <= y < src.height,
    ensures
        carried_by_aux(src.width as int, layout, x, y) ==> super::aux_u(aux, layout, x, y) == Some(
            src.sample(src.u, x, y),
        ) && super::aux_v(aux, layout, x, y) == Some(src.sample(src.v, x, y)),
        !carried_by_aux(src.width as int, layout, x, y) ==> super::aux_u(aux, layout, x, y) is None
            && super::aux_v(aux, layout, x, y) is None,
{
    match layout {
        ChromaLayout::V1 => lemma_v1_carries_source(src, owned, aux, x, y),
        ChromaLayout::V2 => lemma_v2_carries_source(src, owned, aux, x, y),
    }
}

/// Splitting a picture and painting both views over the whole of another of the
/// same size gives the source's chroma back exactly at every position that the
/// auxiliary view carries, whatever the other picture held. From two rows and two
/// columns on it gives the source's luma back everywhere, and at every position
/// that the auxiliary view does not carry the average of the position's 2x2 block.
pub proof fn law_split_then_paint_restores(
    src: Picture,
    dst: Picture,
    layout: ChromaLayout,
    owned_main: OwnedYuv420,
    owned_aux: OwnedYuv420,
    main: Yuv420View,
    aux: Yuv420View,
    rect: PlaneRect,
    x: int,
    y: int,
)
    requires
        split_into(src, layout, owned_main, owned_aux, main, aux),
        dst.well_formed(),
        dst.width == src.width,
        dst.height == src.height,
        rect.left == 0,
        rect.top == 0,
        rect.right == src.width,
        rect.bottom == src.height,
        0 <= x < src.width,
        0 <= y < src.height,
    ensures
        ({
            let painted = dst.main_painted(main, rect).aux_painted(aux, rect, layout);
            &&& carried_by_aux(src.width as int, layout, x, y) ==> {
                &&& painted.sample(painted.u, x, y) == src.sample(src.u, x, y)
                &&& painted.sample(painted.v, x, y) == src.sample(src.v, x, y)
            }
            &&& src.width >= 2 && src.height >= 2 ==> painted.sample(painted.y, x, y)
                == src.sample(src.y, x, y)
            &&& src.width >= 2 && src.height >= 2 && !carried_by_aux(
                src.width as int,
                layout,
                x,
                y,
            ) ==> {
                &&& painted.sample(painted.u, x, y) == src.filtered(src.u, x / 2, y / 2)
                &&& painted.sample(painted.v, x, y) == src.filtered(src.v, x / 2, y / 2)
            }
        }),
{
    law_split_views_are_well_formed(src, layout, owned_main, owned_aux, main, aux);
    lemma_aux_carries_source(src, layout, owned_aux, aux, x, y);
    let w = src.width as int;
    let h = src.height as int;
    let cw = crate::decode::half_up(w);
    let ch = crate::decode::half_up(h);
    crate::row_major::lemma_index_of(w, h, x, y);
    crate::row_major::lemma_index_of(cw, ch, x / 2, y / 2);
    assert(main.u_at(x / 2, y / 2) == src.filtered(src.u, x / 2, y / 2));
    assert(main.v_at(x / 2, y / 2) == src.filtered(src.v, x / 2, y / 2));
}

/// The reverse filter of a restored block works on the source's own samples: at
/// an even position whose three neighbours the auxiliary view carries, the
/// chroma used for conversion is the filter applied to the average of the
/// source's block and to the source's neighbours.
proof fn lemma_block_restored(
    src: Picture,
    dst: Picture,
    layout: ChromaLayout,
    owned_main: OwnedYuv420,
    owned_aux: OwnedYuv420,
    main: Yuv420View,
    aux: Yuv420View,
    rect: PlaneRect,
    x: int,
    y: int,
)
    requires
        split_into(src, layout, owned_main, owned_aux, main, aux),
        dst.well_formed(),
        dst.width == src.width,
        dst.height == src.height,
        rect.left == 0,
        rect.top == 0,
        rect.right == src.width,
        rect.bottom == src.height,
        0 <= x < src.width,
        0 <= y < src.height,
        x % 2 == 0,
        y % 2 == 0,
        x + 1 < src.width,
        y + 1 < src.height,
        carried_by_aux(src.width as int, layout, x, y + 1),
    ensures
        ({
            let painted = dst.main_painted(main, rect).aux_painted(aux, rect, layout);
            &&& painted.reconstructed(painted.u, x, y) == super::color::reversed(
                super::color::block_average(
                    src.sample(src.u, x, y),
                    src.sample(src.u, x + 1, y),
                    src.sample(src.u, x, y + 1),
                    src.sample(src.u, x + 1, y + 1),
                ),
                src.sample(src.u, x + 1, y),
                src.sample(src.u, x, y + 1),
                src.sample(src.u, x + 1, y + 1),
            )
            &&& painted.reconstructed(painted.v, x, y) == super::color::reversed(
                super::color::block_average(
                    src.sample(src.v, x, y),
                    src.sample(src.v, x + 1, y),
                    src.sample(src.v, x, y + 1),
                    src.sample(src.v, x + 1, y + 1),
                ),
                src.sample(src.v, x + 1, y),
                src.sample(src.v, x, y + 1),
                src.sample(src.v, x + 1, y + 1),
            )
        }),
{
    law_split_then_paint_restores(
        src, dst, layout, owned_main, owned_aux, main, aux, rect, x, y,
    );
    law_split_then_paint_restores(
        src, dst, layout, owned_main, owned_aux, main, aux, rect, x + 1, y,
    );
    law_split_then_paint_restores(
        src, dst, layout, owned_main, owned_aux, main, aux, rect, x, y + 1,
    );
    law_split_then_paint_restores(
        src, dst, layout, owned_main, owned_aux, main, aux, rect, x + 1, y + 1,
    );
    assert(2 * (x / 2) == x && 2 * (y / 2) == y);
}

/// How near the chroma used for conversion comes to a picture that was split and
/// painted again: exact wherever the auxiliary view carries the sample, and at an
/// even position whose neighbours it carries within 32, the filter's threshold
/// plus the rounding of the average.
pub proof fn law_restored_chroma_is_near(
    src: Picture,
    dst: Picture,
    layout: ChromaLayout,
    owned_main: OwnedYuv420,
    owned_aux: OwnedYuv420,
    main: Yuv420View,
    aux: Yuv420View,
    rect: PlaneRect,
    x: int,
    y: int,
)
    requires
        split_into(src, layout, owned_main, owned_aux, main, aux),
        dst.well_formed(),
        dst.width == src.width,
        dst.height == src.height,
        rect.left == 0,
        rect.top == 0,
        rect.right == src.width,
        rect.bottom == src.height,
        0 <= x < src.width,
        0 <= y < src.height,
    ensures
        ({
            let painted = dst.main_painted(main, rect).aux_painted(aux, rect, layout);
            let u_error = painted.reconstructed(painted.u, x, y) - src.sample(src.u, x, y);
            let v_error = painted.reconstructed(painted.v, x, y) - src.sample(src.v, x, y);
            &&& carried_by_aux(src.width as int, layout, x, y) ==> u_error == 0 && v_error == 0
            &&& x % 2 == 0 && y % 2 == 0 && x + 1 < src.width && y + 1 < src.height
                && carried_by_aux(src.width as int, layout, x, y + 1) ==> -32 <= u_error <= 32
                && -32 <= v_error <= 32
        }),
{
    if carried_by_aux(src.width as int, layout, x, y) {
        law_split_then_paint_restores(
            src, dst, layout, owned_main, owned_aux, main, aux, rect, x, y,
        );
    } else if x + 1 < src.width && y + 1 < src.height && carried_by_aux(
        src.width as int,
        layout,
        x,
        y + 1,
    ) {
        lemma_block_restored(src, dst, layout, owned_main, owned_aux, main, aux, rect, x, y);
        super::color::law_reverse_filter_error(
            src.sample(src.u, x, y),
            src.sample(src.u, x + 1, y),
            src.sample(src.u, x, y + 1),
            src.sample(src.u, x + 1, y + 1),
        );
        super::color::law_reverse_filter_error(
            src.sample(src.v, x, y),
            src.sample(src.v, x + 1, y),
            src.sample(src.v, x, y + 1),
            src.sample(src.v, x + 1, y + 1),
        );
    }
}

/// Every chroma sample of `plane` is one of two levels, more than four thresholds
/// apart, whose difference is a multiple of four.
pub open spec fn two_levels(plane: Seq<u8>, low: u8, high: u8) -> bool {
    &&& high - low > 4 * super::color::REVERSE_FILTER_THRESHOLD
    &&& (high - low) % 4 == 0
    &&& forall|i: int| 0 <= i < plane.len() ==> #[trigger] plane[i] == low || plane[i] == high
}

/// A picture of even dimensions (and, for AVC444v2, of a width that is a multiple
/// of four) whose chroma has two levels far apart converts, after splitting and
/// painting, exactly as if it had never been subsampled.
pub proof fn law_two_level_picture_converts_exactly(
    src: Picture,
    dst: Picture,
    layout: ChromaLayout,
    owned_main: OwnedYuv420,
    owned_aux: OwnedYuv420,
    main: Yuv420View,
    aux: Yuv420View,
    rect: PlaneRect,
    x: int,
    y: int,
    low: u8,
    high: u8,
)
    requires
        split_into(src, layout, owned_main, owned_aux, main, aux),
        dst.well_formed(),
        dst.width == src.width,
        dst.height == src.height,
        rect.left == 0,
        rect.top == 0,
        rect.right == src.width,
        rect.bottom == src.height,
        0 <= x < src.width,
        0 <= y < src.height,
        src.width % 2 == 0,
        src.height % 2 == 0,
        layout is V2 ==> src.width % 4 == 0,
        two_levels(src.u, low, high),
        two_levels(src.v, low, high),
    ensures
        ({
            let painted = dst.main_painted(main, rect).aux_painted(aux, rect, layout);
            let luma = src.sample(src.y, x, y);
            let u = src.sample(src.u, x, y);
            let v = src.sample(src.v, x, y);
            &&& painted.channel(x, y, 0) == super::color::red(luma, v)
            &&& painted.channel(x, y, 1) == super::color::green(luma, u, v)
            &&& painted.channel(x, y, 2) == super::color::blue(luma, u)
            &&& painted.channel(x, y, 3) == 0xFF
        }),
{
    let w = src.width as int;
    let h = src.height as int;
    law_split_then_paint_restores(
        src, dst, layout, owned_main, owned_aux, main, aux, rect, x, y,
    );
    if x % 2 == 0 && y % 2 == 0 {
        lemma_block_restored(src, dst, layout, owned_main, owned_aux, main, aux, rect, x, y);
        crate::row_major::lemma_index_of(w, h, x, y);
        crate::row_major::lemma_index_of(w, h, x + 1, y);
        crate::row_major::lemma_index_of(w, h, x, y + 1);
        crate::row_major::lemma_index_of(w, h, x + 1, y + 1);
        super::color::law_reverse_filter_recovers_two_levels(
            low,
            high,
            src.sample(src.u, x, y),
            src.sample(src.u, x + 1, y),
            src.sample(src.u, x, y + 1),
            src.sample(src.u, x + 1, y + 1),
        );
        super::color::law_reverse_filter_recovers_two_levels(
            low,
            high,
            src.sample(src.v, x, y),
            src.sample(src.v, x + 1, y),
            src.sample(src.v, x, y + 1),
            src.sample(src.v, x + 1, y + 1),
        );
    }
}

} // verus!
