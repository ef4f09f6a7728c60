//! Full-range BT.709 integer colour matrix (MS-RDPEGFX 3.3.8.3.1) and the
//! reverse of the main view's chroma average.
use vstd::prelude::*;

verus! {

/// `Y` multiplier.
pub const Y_SCALE: i32 = 256;

/// `R` contribution from `V`.
pub const R_V: i32 = 403;

/// `G` contribution from `U`.
pub const G_U: i32 = -48;

/// `G` contribution from `V`.
pub const G_V: i32 = -120;

/// `B` contribution from `U`.
pub const B_U: i32 = 475;

/// Arithmetic right shift applied to every channel.
pub const SHIFT: i32 = 8;

/// Above this absolute difference (in the reverse filter), the reversed
/// sample is trusted over the filtered one.
pub const REVERSE_FILTER_THRESHOLD: i32 = 30;

/// The byte nearest to `value`.
pub open spec fn nearest_byte(value: int) -> u8 {
    if value < 0 {
        0
    } else if value > 255 {
        255
    } else {
        value as u8
    }
}

/// Red: `(256*Y + 403*(V-128)) / 256`, rounded down.
pub open spec fn red(y: u8, v: u8) -> u8 {
    nearest_byte((256 * y + 403 * (v - 128)) / 256)
}

/// Green: `(256*Y - 48*(U-128) - 120*(V-128)) / 256`, rounded down.
pub open spec fn green(y: u8, u: u8, v: u8) -> u8 {
    nearest_byte((256 * y - 48 * (u - 128) - 120 * (v - 128)) / 256)
}

/// Blue: `(256*Y + 475*(U-128)) / 256`, rounded down.
pub open spec fn blue(y: u8, u: u8) -> u8 {
    nearest_byte((256 * y + 475 * (u - 128)) / 256)
}

/// Luma: `(54R + 183G + 18B) / 256`, rounded down.
pub open spec fn luma(r: u8, g: u8, b: u8) -> u8 {
    nearest_byte((54 * r + 183 * g + 18 * b) as int / 256)
}

/// `U`: `(-29R - 99G + 128B) / 256 + 128`, rounded down.
pub open spec fn chroma_u(r: u8, g: u8, b: u8) -> u8 {
    nearest_byte((128 * b - 29 * r - 99 * g) / 256 + 128)
}

/// `V`: `(128R - 116G - 12B) / 256 + 128`, rounded down.
pub open spec fn chroma_v(r: u8, g: u8, b: u8) -> u8 {
    nearest_byte((128 * r - 116 * g - 12 * b) / 256 + 128)
}

/// The sample that, averaged with `a`, `b` and `c`, gives `filtered`: outside
/// `0..=255` when no byte does.
pub open spec fn unfiltered(filtered: u8, a: u8, b: u8, c: u8) -> int {
    4 * filtered - a - b - c
}

/// What [`reverse_filter`] keeps: the reversed sample where it lies further
/// than the threshold from the filtered one, and the filtered one otherwise.
pub open spec fn reversed(filtered: u8, a: u8, b: u8, c: u8) -> u8 {
    let sample = unfiltered(filtered, a, b, c);
    if sample - filtered > REVERSE_FILTER_THRESHOLD || filtered - sample > REVERSE_FILTER_THRESHOLD {
        nearest_byte(sample)
    } else {
        filtered
    }
}

/// An arithmetic shift right by eight divides by 256, rounding down.
proof fn lemma_shift_divides(value: i32)
    ensures
        value >> SHIFT == value as int / 256,
{
    assert((value >> 8) * 256 <= value && value < (value >> 8) * 256 + 256) by (bit_vector);
}

/// Clamp to `0..=255`.
fn clamp_u8(value: i32) -> (byte: u8)
    ensures
        byte == nearest_byte(value as int),
{
    if value < 0 {
        0
    } else if value > 255 {
        255
    } else {
        value as u8
    }
}

/// `R = (256*Y + 403*(V-128)) >> 8`, `G = (256*Y - 48*(U-128) - 120*(V-128)) >> 8`,
/// `B = (256*Y + 475*(U-128)) >> 8`, each clamped to `0..=255`.
pub fn yuv_to_rgb(y: u8, u: u8, v: u8) -> (rgb: [u8; 3])
    ensures
        rgb@ == seq![red(y, v), green(y, u, v), blue(y, u)],
{
    let luma_term: i32 = Y_SCALE * (y as i32);
    let du: i32 = u as i32 - 128;
    let dv: i32 = v as i32 - 128;

    let r: i32 = luma_term + R_V * dv;
    let g: i32 = luma_term + G_U * du + G_V * dv;
    let b: i32 = luma_term + B_U * du;
    proof {
        lemma_shift_divides(r);
        lemma_shift_divides(g);
        lemma_shift_divides(b);
    }
    [clamp_u8(r >> SHIFT), clamp_u8(g >> SHIFT), clamp_u8(b >> SHIFT)]
}

/// Encoder-side forward transform: `Y = (54R + 183G + 18B) >> 8`,
/// `U = ((-29R - 99G + 128B) >> 8) + 128`,
/// `V = ((128R - 116G - 12B) >> 8) + 128`, each clamped to `0..=255`.
pub fn rgb_to_yuv(r: u8, g: u8, b: u8) -> (yuv: [u8; 3])
    ensures
        yuv@ == seq![luma(r, g, b), chroma_u(r, g, b), chroma_v(r, g, b)],
{
    let r: i32 = r as i32;
    let g: i32 = g as i32;
    let b: i32 = b as i32;

    let y: i32 = 54 * r + 183 * g + 18 * b;
    let u: i32 = 128 * b - 29 * r - 99 * g;
    let v: i32 = 128 * r - 116 * g - 12 * b;
    proof {
        lemma_shift_divides(y);
        lemma_shift_divides(u);
        lemma_shift_divides(v);
    }
    [clamp_u8(y >> SHIFT), clamp_u8((u >> SHIFT) + 128), clamp_u8((v >> SHIFT) + 128)]
}

/// Reverse the main view's 2x2 average: `filtered = (a0 + a + b + c) / 4`
/// where `a0` is the value being recovered, so
/// `a0_rev = 4*filtered - a - b - c`. The comparison against
/// [`REVERSE_FILTER_THRESHOLD`] uses the *unclamped* `a0_rev`; only the
/// chosen value is clamped to `0..=255`.
pub fn reverse_filter(filtered: u8, a: u8, b: u8, c: u8) -> (sample: u8)
    ensures
        sample == reversed(filtered, a, b, c),
{
    let filtered_i: i32 = filtered as i32;
    let a0_rev: i32 = 4 * filtered_i - a as i32 - b as i32 - c as i32;
    let difference: i32 = a0_rev - filtered_i;

    if difference > REVERSE_FILTER_THRESHOLD || difference < -REVERSE_FILTER_THRESHOLD {
        clamp_u8(a0_rev)
    } else {
        filtered
    }
}

/// The average that the main view keeps of a 2x2 block, rounded to nearest.
pub open spec fn block_average(a0: u8, a: u8, b: u8, c: u8) -> u8 {
    ((a0 + a + b + c + 2) / 4) as u8
}

/// Where all four samples of a block are equal the reverse filter is the
/// identity: a picture that only the main view has painted converts as it was
/// sent.
pub proof fn law_reverse_filter_keeps_flat_block(filtered: u8)
    ensures
        reversed(filtered, filtered, filtered, filtered) == filtered,
{
}

/// What the reverse filter recovers of an averaged sample: where it replaces the
/// average it is within two of the sample, and otherwise the average itself lies
/// within the threshold plus two.
pub proof fn law_reverse_filter_error(a0: u8, a: u8, b: u8, c: u8)
    ensures
        ({
            let filtered = block_average(a0, a, b, c);
            let recovered = reversed(filtered, a, b, c);
            &&& -32 <= recovered - a0 <= 32
            &&& recovered != filtered ==> -2 <= recovered - a0 <= 2
        }),
{
}

/// A block of two chroma levels comes back exactly, whichever of its samples
/// are the high ones, once the levels lie more than four thresholds apart and
/// their difference is a multiple of four.
pub proof fn law_reverse_filter_recovers_two_levels(low: u8, high: u8, a0: u8, a: u8, b: u8, c: u8)
    requires
        high - low > 4 * REVERSE_FILTER_THRESHOLD,
        (high - low) % 4 == 0,
        a0 == low || a0 == high,
        a == low || a == high,
        b == low || b == high,
        c == low || c == high,
    ensures
        reversed(block_average(a0, a, b, c), a, b, c) == a0,
{
}

/// The forward transform's results, without their rounding.
proof fn lemma_forward_bounds(r: u8, g: u8, b: u8)
    ensures
        256 * luma(r, g, b) <= 54 * r + 183 * g + 18 * b < 256 * luma(r, g, b) + 256,
        256 * (chroma_u(r, g, b) - 128) <= 128 * b - 29 * r - 99 * g < 256 * (chroma_u(r, g, b)
            - 128) + 256,
        256 * (chroma_v(r, g, b) - 128) <= 128 * r - 116 * g - 12 * b < 256 * (chroma_v(r, g, b)
            - 128) + 256,
{
}

proof fn lemma_red_is_near(r: u8, g: u8, b: u8, y: u8, v: u8)
    requires
        256 * y <= 54 * r + 183 * g + 18 * b < 256 * y + 256,
        256 * (v - 128) <= 128 * r - 116 * g - 12 * b < 256 * (v - 128) + 256,
    ensures
        -4 <= red(y, v) - r <= 4,
{
    let n = (256 * y + 403 * (v - 128)) / 256;
    assert(256 * n <= 256 * y + 403 * (v - 128) < 256 * n + 256);
    assert(-4 <= n - r <= 4);
}

proof fn lemma_green_is_near(r: u8, g: u8, b: u8, y: u8, u: u8, v: u8)
    requires
        256 * y <= 54 * r + 183 * g + 18 * b < 256 * y + 256,
        256 * (u - 128) <= 128 * b - 29 * r - 99 * g < 256 * (u - 128) + 256,
        256 * (v - 128) <= 128 * r - 116 * g - 12 * b < 256 * (v - 128) + 256,
    ensures
        -2 <= green(y, u, v) - g <= 2,
{
    let n = (256 * y - 48 * (u - 128) - 120 * (v - 128)) / 256;
    assert(256 * n <= 256 * y - 48 * (u - 128) - 120 * (v - 128) < 256 * n + 256);
    assert(-2 <= n - g <= 2);
}

proof fn lemma_blue_is_near(r: u8, g: u8, b: u8, y: u8, u: u8)
    requires
        256 * y <= 54 * r + 183 * g + 18 * b < 256 * y + 256,
        256 * (u - 128) <= 128 * b - 29 * r - 99 * g < 256 * (u - 128) + 256,
    ensures
        -4 <= blue(y, u) - b <= 4,
{
    let n = (256 * y + 475 * (u - 128)) / 256;
    assert(256 * n <= 256 * y + 475 * (u - 128) < 256 * n + 256);
    assert(-4 <= n - b <= 4);
}

/// The forward transform followed by the reverse one stays within four of every
/// red and blue and within two of every green.
pub proof fn law_colour_round_trip_is_near(r: u8, g: u8, b: u8)
    ensures
        ({
            let y = luma(r, g, b);
            let u = chroma_u(r, g, b);
            let v = chroma_v(r, g, b);
            &&& -4 <= red(y, v) - r <= 4
            &&& -2 <= green(y, u, v) - g <= 2
            &&& -4 <= blue(y, u) - b <= 4
        }),
{
    let y = luma(r, g, b);
    let u = chroma_u(r, g, b);
    let v = chroma_v(r, g, b);
    lemma_forward_bounds(r, g, b);
    lemma_red_is_near(r, g, b, y, v);
    lemma_green_is_near(r, g, b, y, u, v);
    lemma_blue_is_near(r, g, b, y, u);
}

} // verus!
