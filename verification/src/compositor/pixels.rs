//! Reading and writing rectangles of tightly-packed RGBA8888 canvases.
//!
//! A canvas of `width` by `height` pixels is a row-major plane of bytes whose rows
//! are `4 * width` bytes long; a rectangle of it is described byte by byte, by the
//! row and the byte column that an index stands for.
use vstd::prelude::*;

use super::OutputMapping;
use crate::geometry::ExclusiveRectangle;

verus! {

/// Bytes of one RGBA8888 pixel.
pub const BYTES_PER_PIXEL: usize = 4;

/// The lesser of two numbers.
pub open spec fn least(a: int, b: int) -> int {
    if a <= b {
        a
    } else {
        b
    }
}

/// The pixels of the rectangle of `w` by `h` at `(x, y)` of a `src_width`-wide
/// canvas. A row of which `src` does not hold every byte is zero.
pub open spec fn region(src: Seq<u8>, src_width: int, x: int, y: int, w: int, h: int) -> Seq<u8> {
    Seq::new(
        (4 * w * h) as nat,
        |i: int|
            {
                let row = i / (4 * w);
                let column = i % (4 * w);
                let start = (y + row) * (4 * src_width) + 4 * x;
                if start + 4 * w <= src.len() {
                    src[start + column]
                } else {
                    0
                }
            },
    )
}

/// A `width`-wide canvas after `src`, the pixels of a rectangle of `w` by `h`, was
/// written at `(x, y)`: clipped to the canvas, and leaving out each row whose
/// visible part `src` does not hold.
pub open spec fn blitted(
    dst: Seq<u8>,
    width: int,
    x: int,
    y: int,
    w: int,
    h: int,
    src: Seq<u8>,
) -> Seq<u8> {
    Seq::new(
        dst.len(),
        |i: int|
            {
                let row = i / (4 * width);
                let column = i % (4 * width);
                if 4 * x <= column < 4 * (x + w) && y <= row < y + h && (row - y) * (4 * w) + 4
                    * least(w, width - x) <= src.len() {
                    src[(row - y) * (4 * w) + (column - 4 * x)]
                } else {
                    dst[i]
                }
            },
    )
}

/// A `width`-wide canvas after the rectangle of `w` by `h` at `(x, y)`, clipped to
/// the canvas, was filled with one pixel.
pub open spec fn filled(
    dst: Seq<u8>,
    width: int,
    x: int,
    y: int,
    w: int,
    h: int,
    pixel: Seq<u8>,
) -> Seq<u8> {
    Seq::new(
        dst.len(),
        |i: int|
            {
                let row = i / (4 * width);
                let column = i % (4 * width);
                if 4 * x <= column < 4 * (x + w) && y <= row < y + h {
                    pixel[column % 4]
                } else {
                    dst[i]
                }
            },
    )
}

/// The source column or row that output position `at` of a scaled mapping shows:
/// nearest neighbour, rounded down.
pub open spec fn source_position(at: int, source_length: int, target_length: int) -> int {
    least(at * source_length / target_length, u16::MAX as int)
}

/// The pixels of an output rectangle of `w` by `h` whose top left lies at
/// `(target_left, target_top)` of a scaled surface. A pixel that `src` does not
/// hold is zero.
pub open spec fn scaled_region(
    src: Seq<u8>,
    src_width: int,
    src_height: int,
    target_width: int,
    target_height: int,
    target_left: int,
    target_top: int,
    w: int,
    h: int,
) -> Seq<u8> {
    Seq::new(
        (4 * w * h) as nat,
        |i: int|
            {
                let row = i / (4 * w);
                let column = i % (4 * w);
                let sx = source_position(target_left + column / 4, src_width, target_width);
                let sy = source_position(target_top + row, src_height, target_height);
                let at = sy * (4 * src_width) + 4 * sx;
                if at + 4 <= src.len() {
                    src[at + column % 4]
                } else {
                    0
                }
            },
    )
}

/// The target-space edge of a source-space edge: scaled and rounded up, at most
/// `u32::MAX`.
pub open spec fn edge_scaled(source_edge: int, source_length: int, target_length: int) -> int {
    if source_length == 0 {
        0
    } else {
        least(
            (source_edge * target_length + source_length - 1) / source_length,
            u32::MAX as int,
        )
    }
}

/// Whether `outer` fully contains `inner`, both in the exclusive convention.
pub open spec fn contains(outer: ExclusiveRectangle, inner: ExclusiveRectangle) -> bool {
    outer.left <= inner.left && outer.top <= inner.top && outer.right >= inner.right
        && outer.bottom >= inner.bottom
}

/// Whether `outer` fully contains `inner`, both in the exclusive convention.
pub fn covers(outer: &ExclusiveRectangle, inner: &ExclusiveRectangle) -> (yes: bool)
    ensures
        yes == contains(*outer, *inner),
{
    outer.left <= inner.left && outer.top <= inner.top && outer.right >= inner.right
        && outer.bottom >= inner.bottom
}

/// Return the target-space edge for a source-space edge with nearest-neighbor
/// scaling. Rounding up means a dirty source rectangle covers every output pixel
/// that samples from it.
pub fn scaled_edge(source_edge: u16, source_length: u16, target_length: u32) -> (edge: u32)
    ensures
        edge == edge_scaled(source_edge as int, source_length as int, target_length as int),
{
    if source_length == 0 {
        return 0;
    }
    proof {
        assert(0 <= source_edge * target_length <= 0xFFFF * 0xFFFF_FFFF) by (nonlinear_arith)
            requires
                0 <= source_edge <= 0xFFFF,
                0 <= target_length <= 0xFFFF_FFFF,
        ;
    }
    let product: u64 = source_edge as u64 * target_length as u64;
    let scaled: u64 = (product + (source_length as u64 - 1)) / source_length as u64;
    if scaled <= u32::MAX as u64 {
        scaled as u32
    } else {
        u32::MAX
    }
}

/// Return the byte length of a tightly-packed RGBA8888 rectangle.
pub fn pixel_data_len(width: u16, height: u16) -> (len: Option<usize>)
    ensures
        len == (if 4 * width * height <= usize::MAX {
            Some((4 * width * height) as usize)
        } else {
            None::<usize>
        }),
{
    proof {
        assert(width * height * 4 == 4 * width * height) by (nonlinear_arith);
        assert(0 <= width * height) by (nonlinear_arith)
            requires
                0 <= width,
                0 <= height,
        ;
    }
    match (width as usize).checked_mul(height as usize) {
        Some(pixels) => pixels.checked_mul(BYTES_PER_PIXEL),
        None => None,
    }
}

/// Copy a sub-rectangle out of an RGBA8888 canvas into a tightly-packed buffer.
///
/// Rows that fall outside the source (short buffer, out-of-range rect) are padded
/// with zeroes so the result is always `w * h * 4` bytes. Callers must bound
/// `w`/`h` to the source surface, since the returned buffer is allocated at that
/// size regardless of how much source actually exists.
pub fn copy_region(src: &[u8], src_width: u16, x: u16, y: u16, w: u16, h: u16) -> (out: Vec<u8>)
    requires
        4 * w * h <= usize::MAX,
    ensures
        out@ == region(src@, src_width as int, x as int, y as int, w as int, h as int),
{
    let src_len: usize = src.len();
    let row_bytes: usize = w as usize * BYTES_PER_PIXEL;
    let src_stride: u64 = src_width as u64 * 4;
    let ghost pixels = region(src@, src_width as int, x as int, y as int, w as int, h as int);
    let mut out: Vec<u8> = Vec::new();
    let mut row: u16 = 0;
    assert(0 * row_bytes == 0) by (nonlinear_arith);
    assert(row_bytes * h == 4 * w * h) by (nonlinear_arith)
        requires
            row_bytes == 4 * w,
    ;
    while row < h
        invariant
            row <= h,
            src_len == src@.len(),
            row_bytes == 4 * w,
            row_bytes * h == 4 * w * h,
            4 * w * h <= usize::MAX,
            src_stride == 4 * src_width,
            pixels == region(src@, src_width as int, x as int, y as int, w as int, h as int),
            out@.len() == row * row_bytes,
            forall|i: int| 0 <= i < out@.len() ==> out@[i] == pixels[i],
        decreases h - row,
    {
        proof {
            assert((y + row) * src_stride <= 0x1FFFE * 0x3FFFC) by (nonlinear_arith)
                requires
                    0 <= y + row <= 0x1FFFE,
                    0 <= src_stride <= 0x3FFFC,
            ;
            assert(0 <= (y + row) * src_stride) by (nonlinear_arith)
                requires
                    0 <= y + row,
                    0 <= src_stride,
            ;
            assert((row + 1) * row_bytes == row * row_bytes + row_bytes) by (nonlinear_arith);
            assert((row + 1) * row_bytes <= row_bytes * h) by (nonlinear_arith)
                requires
                    row + 1 <= h,
                    0 <= row_bytes,
            ;
        }
        let start: u64 = (y as u64 + row as u64) * src_stride + x as u64 * 4;
        let end: u64 = start + row_bytes as u64;
        let ghost before = out@;
        if end <= src_len as u64 {
            out.extend_from_slice(vstd::slice::slice_subrange(src, start as usize, end as usize));
        } else {
            let padded: usize = out.len() + row_bytes;
            out.resize(padded, 0);
        }
        proof {
            assert forall|i: int| before.len() <= i < out@.len() implies out@[i] == pixels[i] by {
                crate::row_major::lemma_row_of(row_bytes as int, i, row as int);
            }
        }
        row += 1;
    }
    assert(h * row_bytes == row_bytes * h) by (nonlinear_arith);
    assert(out@ =~= pixels);
    out
}

/// How much of `length` from position `at` on lies below `limit`.
fn visible(at: u16, length: u16, limit: u16) -> (n: usize)
    ensures
        n == if at >= limit {
            0
        } else {
            least(length as int, limit - at)
        },
{
    if at >= limit {
        0
    } else if length <= limit - at {
        length as usize
    } else {
        (limit - at) as usize
    }
}

/// Write a tightly-packed RGBA8888 buffer into a sub-rectangle of a canvas,
/// clipping to the canvas bounds.
pub fn blit_region(
    dst: &mut Vec<u8>,
    dst_width: u16,
    dst_height: u16,
    x: u16,
    y: u16,
    w: u16,
    h: u16,
    src: &[u8],
)
    requires
        old(dst)@.len() == 4 * dst_width * dst_height,
    ensures
        final(dst)@ == blitted(
            old(dst)@,
            dst_width as int,
            x as int,
            y as int,
            w as int,
            h as int,
            src@,
        ),
{
    let dst_len: usize = dst.len();
    let src_len: usize = src.len();
    let ghost before = dst@;
    let ghost after = blitted(
        dst@,
        dst_width as int,
        x as int,
        y as int,
        w as int,
        h as int,
        src@,
    );
    let dst_stride: usize = dst_width as usize * BYTES_PER_PIXEL;
    let src_stride: u64 = w as u64 * 4;
    let copy_cols: usize = visible(x, w, dst_width);
    let copy_rows: usize = visible(y, h, dst_height);
    let copy_bytes: usize = copy_cols * BYTES_PER_PIXEL;
    proof {
        assert(dst_stride * dst_height == 4 * dst_width * dst_height) by (nonlinear_arith)
            requires
                dst_stride == 4 * dst_width,
        ;
        assert forall|i: int| 0 <= i < before.len() implies {
            let row = i / (dst_stride as int);
            let column = i % (dst_stride as int);
            #[trigger] after[i] == if 4 * x <= column < 4 * x + copy_bytes && y <= row < y
                + copy_rows && (row - y) * src_stride + copy_bytes <= src@.len() {
                src@[(row - y) * src_stride + (column - 4 * x)]
            } else {
                before[i]
            }
        } by {
            crate::row_major::lemma_position_of(dst_stride as int, dst_height as int, i);
        }
    }
    let first_row: usize = if copy_cols == 0 || copy_rows == 0 {
        0
    } else {
        y as usize
    };
    let end_row: usize = if copy_cols == 0 || copy_rows == 0 {
        0
    } else {
        y as usize + copy_rows
    };
    let mut row: usize = first_row;
    while row < end_row
        invariant
            first_row <= row,
            row <= end_row,
            end_row == first_row || (first_row == y && end_row == y + copy_rows && end_row
                <= dst_height && 1 <= copy_cols && x as int + copy_cols <= dst_width && copy_rows
                <= h),
            dst_len == before.len(),
            src_len == src@.len(),
            dst@.len() == before.len(),
            after.len() == before.len(),
            dst_stride == 4 * dst_width,
            src_stride == 4 * w,
            copy_bytes == 4 * copy_cols,
            copy_cols <= w,
            before.len() == dst_stride * dst_height,
            forall|i: int|
                0 <= i < before.len() ==> #[trigger] after[i] == ({
                    let row = i / (dst_stride as int);
                    let column = i % (dst_stride as int);
                    if 4 * x <= column < 4 * x + copy_bytes && y <= row < y + copy_rows && (row
                        - y) * src_stride + copy_bytes <= src@.len() {
                        src@[(row - y) * src_stride + (column - 4 * x)]
                    } else {
                        before[i]
                    }
                }),
            forall|i: int|
                0 <= i < before.len() ==> #[trigger] dst@[i] == if first_row * dst_stride <= i
                    < row * dst_stride {
                    after[i]
                } else {
                    before[i]
                },
        decreases end_row - row,
    {
        proof {
            crate::row_major::lemma_index_of(
                dst_stride as int,
                dst_height as int,
                4 * x as int,
                row as int,
            );
            assert(first_row * dst_stride <= row * dst_stride) by (nonlinear_arith)
                requires
                    first_row <= row,
                    0 <= dst_stride,
            ;
            assert(0 <= (row - y) * src_stride <= 0xFFFF * 0x3FFFC) by (nonlinear_arith)
                requires
                    0 <= row - y <= 0xFFFF,
                    0 <= src_stride <= 0x3FFFC,
            ;
        }
        let row_start: usize = row * dst_stride;
        let dstart: usize = row_start + x as usize * BYTES_PER_PIXEL;
        let sstart: u64 = (row - y as usize) as u64 * src_stride;
        if sstart + copy_bytes as u64 <= src_len as u64 {
            let from: usize = sstart as usize;
            let ghost row_before = dst@;
            let mut k: usize = 0;
            while k < copy_bytes
                invariant
                    k <= copy_bytes,
                    from + copy_bytes <= src@.len(),
                    src_len == src@.len(),
                    dstart + copy_bytes <= before.len(),
                    dst_len == before.len(),
                    dst@.len() == before.len(),
                    row_before.len() == before.len(),
                    forall|i: int|
                        0 <= i < before.len() ==> #[trigger] dst@[i] == if dstart <= i < dstart
                            + k {
                            src@[from + i - dstart]
                        } else {
                            row_before[i]
                        },
                decreases copy_bytes - k,
            {
                dst[dstart + k] = src[from + k];
                k += 1;
            }
        }
        proof {
            assert forall|i: int| row_start <= i < row_start + dst_stride implies #[trigger] dst@[i]
                == after[i] by {
                crate::row_major::lemma_row_of(dst_stride as int, i, row as int);
            }
        }
        row += 1;
    }
    proof {
        assert forall|i: int| 0 <= i < before.len() implies #[trigger] dst@[i] == after[i] by {
            crate::row_major::lemma_position_of(dst_stride as int, dst_height as int, i);
            let q = i / (dst_stride as int);
            if q < first_row {
                assert(i < first_row * dst_stride) by (nonlinear_arith)
                    requires
                        i < q * dst_stride + dst_stride,
                        q + 1 <= first_row,
                ;
            } else if q >= end_row {
                assert(i >= end_row * dst_stride) by (nonlinear_arith)
                    requires
                        i >= q * dst_stride,
                        q >= end_row,
                        0 <= dst_stride,
                ;
            } else {
                assert(first_row * dst_stride <= i < end_row * dst_stride) by (nonlinear_arith)
                    requires
                        q * dst_stride <= i < q * dst_stride + dst_stride,
                        first_row <= q,
                        q + 1 <= end_row,
                        0 <= dst_stride,
                ;
            }
        }
        assert(dst@ =~= after);
    }
}

/// Fill a sub-rectangle of a canvas with a single RGBA8888 pixel, clipping to the
/// canvas bounds.
pub fn fill_region(
    dst: &mut Vec<u8>,
    dst_width: u16,
    dst_height: u16,
    x: u16,
    y: u16,
    w: u16,
    h: u16,
    px: [u8; 4],
)
    requires
        old(dst)@.len() == 4 * dst_width * dst_height,
    ensures
        final(dst)@ == filled(
            old(dst)@,
            dst_width as int,
            x as int,
            y as int,
            w as int,
            h as int,
            px@,
        ),
{
    let dst_len: usize = dst.len();
    let ghost before = dst@;
    let ghost after = filled(
        dst@,
        dst_width as int,
        x as int,
        y as int,
        w as int,
        h as int,
        px@,
    );
    let dst_stride: usize = dst_width as usize * BYTES_PER_PIXEL;
    let copy_cols: usize = visible(x, w, dst_width);
    let copy_rows: usize = visible(y, h, dst_height);
    let copy_bytes: usize = copy_cols * BYTES_PER_PIXEL;
    proof {
        assert(dst_stride * dst_height == 4 * dst_width * dst_height) by (nonlinear_arith)
            requires
                dst_stride == 4 * dst_width,
        ;
        assert forall|i: int| 0 <= i < before.len() implies {
            let row = i / (dst_stride as int);
            let column = i % (dst_stride as int);
            #[trigger] after[i] == if 4 * x <= column < 4 * x + copy_bytes && y <= row < y
                + copy_rows {
                px@[column % 4]
            } else {
                before[i]
            }
        } by {
            crate::row_major::lemma_position_of(dst_stride as int, dst_height as int, i);
        }
    }
    let first_row: usize = if copy_cols == 0 || copy_rows == 0 {
        0
    } else {
        y as usize
    };
    let end_row: usize = if copy_cols == 0 || copy_rows == 0 {
        0
    } else {
        y as usize + copy_rows
    };
    let mut row: usize = first_row;
    while row < end_row
        invariant
            first_row <= row,
            row <= end_row,
            end_row == first_row || (first_row == y && end_row == y + copy_rows && end_row
                <= dst_height && 1 <= copy_cols && x as int + copy_cols <= dst_width),
            dst_len == before.len(),
            dst@.len() == before.len(),
            after.len() == before.len(),
            dst_stride == 4 * dst_width,
            copy_bytes == 4 * copy_cols,
            before.len() == dst_stride * dst_height,
            forall|i: int|
                0 <= i < before.len() ==> #[trigger] after[i] == ({
                    let row = i / (dst_stride as int);
                    let column = i % (dst_stride as int);
                    if 4 * x <= column < 4 * x + copy_bytes && y <= row < y + copy_rows {
                        px@[column % 4]
                    } else {
                        before[i]
                    }
                }),
            forall|i: int|
                0 <= i < before.len() ==> #[trigger] dst@[i] == if first_row * dst_stride <= i
                    < row * dst_stride {
                    after[i]
                } else {
                    before[i]
                },
        decreases end_row - row,
    {
        proof {
            crate::row_major::lemma_index_of(
                dst_stride as int,
                dst_height as int,
                4 * x as int,
                row as int,
            );
            assert(first_row * dst_stride <= row * dst_stride) by (nonlinear_arith)
                requires
                    first_row <= row,
                    0 <= dst_stride,
            ;
        }
        let row_start: usize = row * dst_stride;
        let dstart: usize = row_start + x as usize * BYTES_PER_PIXEL;
        let ghost row_before = dst@;
        let mut col: usize = 0;
        while col < copy_cols
            invariant
                col <= copy_cols,
                dstart + 4 * copy_cols <= before.len(),
                dst_len == before.len(),
                dst@.len() == before.len(),
                row_before.len() == before.len(),
                forall|i: int|
                    0 <= i < before.len() ==> #[trigger] dst@[i] == if dstart <= i < dstart + 4
                        * col {
                        px@[(i - dstart) % 4]
                    } else {
                        row_before[i]
                    },
            decreases copy_cols - col,
        {
            let offset: usize = dstart + col * BYTES_PER_PIXEL;
            dst[offset] = px[0];
            dst[offset + 1] = px[1];
            dst[offset + 2] = px[2];
            dst[offset + 3] = px[3];
            col += 1;
        }
        proof {
            assert forall|i: int| row_start <= i < row_start + dst_stride implies #[trigger] dst@[i]
                == after[i] by {
                crate::row_major::lemma_row_of(dst_stride as int, i, row as int);
            }
        }
        row += 1;
    }
    proof {
        assert forall|i: int| 0 <= i < before.len() implies #[trigger] dst@[i] == after[i] by {
            crate::row_major::lemma_position_of(dst_stride as int, dst_height as int, i);
            let q = i / (dst_stride as int);
            if q < first_row {
                assert(i < first_row * dst_stride) by (nonlinear_arith)
                    requires
                        i < q * dst_stride + dst_stride,
                        q + 1 <= first_row,
                ;
            } else if q >= end_row {
                assert(i >= end_row * dst_stride) by (nonlinear_arith)
                    requires
                        i >= q * dst_stride,
                        q >= end_row,
                        0 <= dst_stride,
                ;
            } else {
                assert(first_row * dst_stride <= i < end_row * dst_stride) by (nonlinear_arith)
                    requires
                        q * dst_stride <= i < q * dst_stride + dst_stride,
                        first_row <= q,
                        q + 1 <= end_row,
                        0 <= dst_stride,
                ;
            }
        }
        assert(dst@ =~= after);
    }
}

/// The source column or row that output position `at` shows.
fn sampled_position(at: u32, source_length: u16, target_length: u32) -> (position: u16)
    requires
        0 < target_length,
        at <= 0x1_FFFE,
    ensures
        position == source_position(at as int, source_length as int, target_length as int),
{
    proof {
        assert(0 <= at * source_length <= 0x1_FFFE * 0xFFFF) by (nonlinear_arith)
            requires
                0 <= at <= 0x1_FFFE,
                0 <= source_length <= 0xFFFF,
        ;
    }
    let scaled: u64 = at as u64 * source_length as u64 / target_length as u64;
    if scaled <= u16::MAX as u64 {
        scaled as u16
    } else {
        u16::MAX
    }
}

/// Scale a target-space rectangle from a source RGBA8888 canvas using nearest
/// neighbor sampling. Empty where its length does not fit in `usize`.
pub fn copy_scaled_region(
    src: &[u8],
    src_width: u16,
    src_height: u16,
    mapping: OutputMapping,
    output_rect: &ExclusiveRectangle,
) -> (out: Vec<u8>)
    requires
        0 < mapping.target_width,
        0 < mapping.target_height,
    ensures
        out@ == mapping.scaled_pixels(src@, src_width as int, src_height as int, *output_rect),
{
    let width: u16 = output_rect.right.saturating_sub(output_rect.left);
    let height: u16 = output_rect.bottom.saturating_sub(output_rect.top);
    if pixel_data_len(width, height).is_none() {
        return Vec::new();
    }
    let src_len: usize = src.len();
    let target_left: u32 = (output_rect.left as u32).saturating_sub(mapping.origin.0);
    let target_top: u32 = (output_rect.top as u32).saturating_sub(mapping.origin.1);
    let row_bytes: usize = width as usize * BYTES_PER_PIXEL;
    let ghost pixels = scaled_region(
        src@,
        src_width as int,
        src_height as int,
        mapping.target_width as int,
        mapping.target_height as int,
        target_left as int,
        target_top as int,
        width as int,
        height as int,
    );
    let mut out: Vec<u8> = Vec::new();
    proof {
        assert(0 * row_bytes == 0) by (nonlinear_arith);
        assert(row_bytes * height == 4 * width * height) by (nonlinear_arith)
            requires
                row_bytes == 4 * width,
        ;
    }
    let mut row: u16 = 0;
    while row < height
        invariant
            row <= height,
            src_len == src@.len(),
            row_bytes == 4 * width,
            4 * width * height <= usize::MAX,
            row_bytes * height == 4 * width * height,
            0 < mapping.target_width,
            0 < mapping.target_height,
            target_left <= 0xFFFF,
            target_top <= 0xFFFF,
            pixels == scaled_region(
                src@,
                src_width as int,
                src_height as int,
                mapping.target_width as int,
                mapping.target_height as int,
                target_left as int,
                target_top as int,
                width as int,
                height as int,
            ),
            out@.len() == row * row_bytes,
            forall|i: int| 0 <= i < out@.len() ==> out@[i] == pixels[i],
        decreases height - row,
    {
        let source_y: u16 = sampled_position(
            target_top + row as u32,
            src_height,
            mapping.target_height,
        );
        proof {
            assert(0 <= source_y * (4 * src_width) <= 0xFFFF * 0x3_FFFC) by (nonlinear_arith)
                requires
                    0 <= source_y <= 0xFFFF,
                    0 <= src_width <= 0xFFFF,
            ;
            assert((row + 1) * row_bytes == row * row_bytes + row_bytes) by (nonlinear_arith);
            assert((row + 1) * row_bytes <= row_bytes * height) by (nonlinear_arith)
                requires
                    row + 1 <= height,
                    0 <= row_bytes,
            ;
        }
        let source_row: u64 = source_y as u64 * (4 * src_width as u64);
        let ghost row_start = out@.len();
        let mut column: u16 = 0;
        while column < width
            invariant
                column <= width,
                row < height,
                src_len == src@.len(),
                row_bytes == 4 * width,
                (row + 1) * row_bytes <= usize::MAX,
                (row + 1) * row_bytes == row * row_bytes + row_bytes,
                (row + 1) * row_bytes <= row_bytes * height,
                row_bytes * height == 4 * width * height,
                0 < mapping.target_width,
                0 < mapping.target_height,
                target_left <= 0xFFFF,
                target_top <= 0xFFFF,
                source_y == source_position(
                    target_top + row,
                    src_height as int,
                    mapping.target_height as int,
                ),
                source_row == source_y * (4 * src_width),
                source_row <= 0xFFFF * 0x3_FFFC,
                pixels == scaled_region(
                    src@,
                    src_width as int,
                    src_height as int,
                    mapping.target_width as int,
                    mapping.target_height as int,
                    target_left as int,
                    target_top as int,
                    width as int,
                    height as int,
                ),
                row_start == row * row_bytes,
                out@.len() == row_start + 4 * column,
                forall|i: int| 0 <= i < out@.len() ==> out@[i] == pixels[i],
            decreases width - column,
        {
            let source_x: u16 = sampled_position(
                target_left + column as u32,
                src_width,
                mapping.target_width,
            );
            let at: u64 = source_row + source_x as u64 * 4;
            let ghost before = out@;
            if at + 4 <= src_len as u64 {
                let from: usize = at as usize;
                out.push(src[from]);
                out.push(src[from + 1]);
                out.push(src[from + 2]);
                out.push(src[from + 3]);
            } else {
                out.push(0);
                out.push(0);
                out.push(0);
                out.push(0);
            }
            proof {
                assert forall|i: int| before.len() <= i < out@.len() implies out@[i]
                    == pixels[i] by {
                    crate::row_major::lemma_row_of(row_bytes as int, i, row as int);
                    let k = i - before.len();
                    assert(i % (row_bytes as int) == 4 * column + k);
                    assert((4 * column + k) / 4 == column);
                    assert((4 * column + k) % 4 == k);
                }
            }
            column += 1;
        }
        row += 1;
    }
    assert(height * row_bytes == row_bytes * height) by (nonlinear_arith);
    assert(out@ =~= pixels);
    out
}

impl OutputMapping {
    /// The pixels that a scaled mapping shows in a rectangle of the output, read
    /// from the mapped surface's canvas.
    pub open spec fn scaled_pixels(
        self,
        src: Seq<u8>,
        src_width: int,
        src_height: int,
        output_rect: ExclusiveRectangle,
    ) -> Seq<u8> {
        let w = if output_rect.right <= output_rect.left {
            0
        } else {
            output_rect.right - output_rect.left
        };
        let h = if output_rect.bottom <= output_rect.top {
            0
        } else {
            output_rect.bottom - output_rect.top
        };
        let target_left = if output_rect.left <= self.origin.0 {
            0
        } else {
            output_rect.left - self.origin.0
        };
        let target_top = if output_rect.top <= self.origin.1 {
            0
        } else {
            output_rect.top - self.origin.1
        };
        if 4 * w * h <= usize::MAX {
            scaled_region(
                src,
                src_width,
                src_height,
                self.target_width as int,
                self.target_height as int,
                target_left,
                target_top,
                w,
                h,
            )
        } else {
            Seq::empty()
        }
    }
}

/// The index of channel `k` of the pixel at `(x, y)` of a `width`-wide canvas.
pub open spec fn channel_index(width: int, x: int, y: int, k: int) -> int {
    y * (4 * width) + (4 * x + k)
}

/// A channel of a pixel of a canvas stands in the pixel's row, at its byte column.
pub(crate) proof fn lemma_channel_index(width: int, height: int, x: int, y: int, k: int)
    requires
        0 <= x < width,
        0 <= y < height,
        0 <= k < 4,
    ensures
        0 <= channel_index(width, x, y, k) < 4 * width * height,
        channel_index(width, x, y, k) / (4 * width) == y,
        channel_index(width, x, y, k) % (4 * width) == 4 * x + k,
{
    crate::row_major::lemma_index_of(4 * width, height, 4 * x + k, y);
}

/// A rectangle that lies on its canvas is read pixel by pixel.
pub proof fn law_region_reads(
    src: Seq<u8>,
    src_width: int,
    src_height: int,
    x: int,
    y: int,
    w: int,
    h: int,
    dx: int,
    dy: int,
    k: int,
)
    requires
        src.len() == 4 * src_width * src_height,
        0 <= x,
        0 <= y,
        x + w <= src_width,
        y + h <= src_height,
        0 <= dx < w,
        0 <= dy < h,
        0 <= k < 4,
    ensures
        region(src, src_width, x, y, w, h)[channel_index(w, dx, dy, k)] == src[channel_index(
            src_width,
            x + dx,
            y + dy,
            k,
        )],
{
    lemma_channel_index(w, h, dx, dy, k);
    lemma_channel_index(src_width, src_height, x + w - 1, y + dy, 3);
}

/// Writing a rectangle changes a pixel of the canvas if and only if the rectangle
/// covers it, and then to the rectangle's own pixel there.
pub proof fn law_blit_writes(
    dst: Seq<u8>,
    width: int,
    height: int,
    x: int,
    y: int,
    w: int,
    h: int,
    src: Seq<u8>,
    px: int,
    py: int,
    k: int,
)
    requires
        dst.len() == 4 * width * height,
        src.len() == 4 * w * h,
        0 <= x,
        0 <= y,
        0 <= px < width,
        0 <= py < height,
        0 <= k < 4,
    ensures
        blitted(dst, width, x, y, w, h, src)[channel_index(width, px, py, k)] == if x <= px < x
            + w && y <= py < y + h {
            src[channel_index(w, px - x, py - y, k)]
        } else {
            dst[channel_index(width, px, py, k)]
        },
{
    lemma_channel_index(width, height, px, py, k);
    if x <= px < x + w && y <= py < y + h {
        lemma_channel_index(w, h, px - x, py - y, k);
        lemma_channel_index(w, h, w - 1, py - y, 3);
    }
}

/// Filling a rectangle changes a pixel of the canvas if and only if the rectangle
/// covers it, and then to the given pixel.
pub proof fn law_fill_writes(
    dst: Seq<u8>,
    width: int,
    height: int,
    x: int,
    y: int,
    w: int,
    h: int,
    pixel: Seq<u8>,
    px: int,
    py: int,
    k: int,
)
    requires
        dst.len() == 4 * width * height,
        0 <= x,
        0 <= y,
        0 <= px < width,
        0 <= py < height,
        0 <= k < 4,
    ensures
        filled(dst, width, x, y, w, h, pixel)[channel_index(width, px, py, k)] == if x <= px < x
            + w && y <= py < y + h {
            pixel[k]
        } else {
            dst[channel_index(width, px, py, k)]
        },
{
    lemma_channel_index(width, height, px, py, k);
    assert((4 * px + k) % 4 == k);
}

/// A source edge lies at or before the source position that output position `at`
/// shows if and only if its scaled edge lies at or before `at`.
proof fn lemma_scaled_edge_bounds_sample(
    at: int,
    edge: int,
    source_length: int,
    target_length: int,
)
    requires
        0 <= at < target_length <= u32::MAX,
        0 < source_length <= u16::MAX,
        0 <= edge,
    ensures
        edge_scaled(edge, source_length, target_length) <= at <==> edge <= source_position(
            at,
            source_length,
            target_length,
        ),
{
    let product = at * source_length;
    let position = product / target_length;
    let product_rest = product % target_length;
    let raised = edge * target_length + source_length - 1;
    let scaled = raised / source_length;
    let raised_rest = raised % source_length;
    vstd::arithmetic::div_mod::lemma_fundamental_div_mod(product, target_length);
    vstd::arithmetic::div_mod::lemma_fundamental_div_mod(raised, source_length);
    assert(position < source_length) by (nonlinear_arith)
        requires
            product == at * source_length,
            at < target_length,
            product == target_length * position + product_rest,
            0 <= product_rest,
            0 < source_length,
            0 < target_length,
    ;
    assert(source_position(at, source_length, target_length) == position);
    assert(edge <= position <==> edge * target_length <= product) by (nonlinear_arith)
        requires
            product == target_length * position + product_rest,
            0 <= product_rest < target_length,
    ;
    assert(scaled <= at <==> edge * target_length <= product) by (nonlinear_arith)
        requires
            product == at * source_length,
            raised == edge * target_length + source_length - 1,
            raised == source_length * scaled + raised_rest,
            0 <= raised_rest < source_length,
    ;
}

/// A dirty source rectangle covers exactly the output pixels that sample from it:
/// output position `at` shows a source position in `left..right` if and only if it
/// lies between the two scaled edges.
pub proof fn law_scaled_edges_cover_samples(
    at: int,
    left: int,
    right: int,
    source_length: int,
    target_length: int,
)
    requires
        0 <= at < target_length <= u32::MAX,
        0 < source_length <= u16::MAX,
        0 <= left,
        0 <= right,
    ensures
        left <= source_position(at, source_length, target_length) < right <==> edge_scaled(
            left,
            source_length,
            target_length,
        ) <= at < edge_scaled(right, source_length, target_length),
{
    lemma_scaled_edge_bounds_sample(at, left, source_length, target_length);
    lemma_scaled_edge_bounds_sample(at, right, source_length, target_length);
}

} // verus!
