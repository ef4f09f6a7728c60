//! What passes between a video decoder and the graphics pipeline.
//!
//! H.264 data arrives inside `RFX_AVC420_BITMAP_STREAM` payloads of
//! `RDPGFX_WIRE_TO_SURFACE_PDU_1` messages. The NAL units are in AVC format
//! (a big-endian length of four bytes before each unit), not Annex B (start
//! codes). The decoder is a type that implements [`H264Decoder`] or
//! [`H264YuvDecoder`]: one of the caller's, or [`OpenH264Decoder`].
use vstd::prelude::*;
use vstd::string::*;

pub mod open_h264;

pub use self::open_h264::OpenH264Decoder;

verus! {

/// Decoded bitmap frame from an H.264 decoder
///
/// Contains RGBA pixel data for a decoded H.264 frame.
/// The pixel data is in RGBA format (4 bytes per pixel),
/// row-major, top-to-bottom, left-to-right.
#[non_exhaustive]
pub struct DecodedFrame {
    data: Vec<u8>,
    width: u32,
    height: u32,
}

/// The pixels of a decoded frame and its size.
#[verifier::ext_equal]
pub struct FrameState {
    pub data: Seq<u8>,
    pub width: u32,
    pub height: u32,
}

impl FrameState {
    /// The frame has four bytes for each of its pixels.
    pub open spec fn well_formed(self) -> bool {
        self.data.len() == self.width * self.height * 4
    }
}

impl View for DecodedFrame {
    type V = FrameState;

    closed spec fn view(&self) -> FrameState {
        FrameState { data: self.data@, width: self.width, height: self.height }
    }
}

impl Clone for DecodedFrame {
    fn clone(&self) -> (copy: Self)
        ensures
            copy@ == self@,
    {
        Self { data: self.data.clone(), width: self.width, height: self.height }
    }
}

/// Every pixel of an RGBA image is opaque.
pub open spec fn is_opaque(data: Seq<u8>) -> bool {
    forall|i: int| 0 <= i < data.len() && i % 4 == 3 ==> #[trigger] data[i] == 0xFF
}

impl DecodedFrame {
    /// A frame of `width` by `height` pixels, four bytes each.
    pub fn new(data: Vec<u8>, width: u32, height: u32) -> (frame: Self)
        requires
            data@.len() == width * height * 4,
        ensures
            frame@ == (FrameState { data: data@, width, height }),
            frame@.well_formed(),
    {
        Self { data, width, height }
    }

    /// RGBA pixel data (4 bytes per pixel).
    pub fn data(&self) -> (data: &[u8])
        ensures
            data@ == self@.data,
    {
        self.data.as_slice()
    }

    /// Frame width in pixels.
    pub fn width(&self) -> (width: u32)
        ensures
            width == self@.width,
    {
        self.width
    }

    /// Frame height in pixels.
    pub fn height(&self) -> (height: u32)
        ensures
            height == self@.height,
    {
        self.height
    }

    /// Consume the frame and return the owned RGBA buffer.
    pub fn into_data(self) -> (data: Vec<u8>)
        ensures
            data@ == self@.data,
    {
        self.data
    }
}

/// Error type for decoder operations
#[derive(Debug)]
#[non_exhaustive]
pub struct DecoderError {
    context: String,
    source: Option<String>,
}

/// What a decoder error says: what was being done, and what the decoder itself
/// reported of it, if anything.
#[verifier::ext_equal]
pub struct DecoderReport {
    pub context: Seq<char>,
    pub source: Option<Seq<char>>,
}

impl View for DecoderError {
    type V = DecoderReport;

    closed spec fn view(&self) -> DecoderReport {
        DecoderReport {
            context: self.context@,
            source: match self.source {
                Some(source) => Some(source@),
                None => None,
            },
        }
    }
}

impl DecoderReport {
    /// The report as one line of text.
    pub open spec fn text(self) -> Seq<char> {
        let head = "decoder error: "@ + self.context;
        match self.source {
            Some(source) => head + ": "@ + source,
            None => head,
        }
    }
}

/// A report reads as what it is about, after a fixed beginning, and what the decoder said
/// follows where it said something.
pub proof fn law_report_reads_in_order(context: Seq<char>, source: Seq<char>)
    ensures
        (DecoderReport { context, source: None }).text() == "decoder error: "@ + context,
        (DecoderReport { context, source: Some(source) }).text() == (DecoderReport {
            context,
            source: None,
        }).text() + ": "@ + source,
{
}

impl DecoderError {
    /// Create a decoder error with the text of a source error
    pub fn new(context: String, source: String) -> (error: Self)
        ensures
            error@ == (DecoderReport { context: context@, source: Some(source@) }),
    {
        Self { context, source: Some(source) }
    }

    /// Create a decoder error with only a message
    pub fn msg(context: String) -> (error: Self)
        ensures
            error@ == (DecoderReport { context: context@, source: None }),
    {
        Self { context, source: None }
    }

    /// What the decoder itself reported, if anything.
    pub fn source_text(&self) -> (text: Option<String>)
        ensures
            match text {
                Some(text) => self@.source == Some(text@),
                None => self@.source is None,
            },
    {
        match &self.source {
            Some(source) => Some(source.clone()),
            None => None,
        }
    }

    /// The error as text: the context, followed by the source where there is one.
    pub fn message(&self) -> (text: String)
        ensures
            text@ == self@.text(),
    {
        let mut text: String = "decoder error: ".to_owned();
        text.append(self.context.as_str());
        match &self.source {
            Some(source) => {
                text.append(": ");
                text.append(source.as_str());
            },
            None => {},
        }
        text
    }
}

/// Result type for decoder operations
pub type DecoderResult<T> = Result<T, DecoderError>;

/// Trait for H.264 (AVC) decoders
///
/// Implement this trait to provide H.264 decode capability to the
/// EGFX client. The decoder receives AVC-format NAL units (length-prefixed,
/// not Annex B) from `RFX_AVC420_BITMAP_STREAM` payloads.
///
/// # Thread Safety
///
/// Implementations must be `Send` to work with the DVC framework.
pub trait H264Decoder: Send {
    /// Decode AVC-format H.264 NAL units (4-byte BE length prefix, not Annex B)
    /// into an RGBA bitmap.
    ///
    /// Frame dimensions may exceed the destination rectangle due to
    /// macroblock alignment (16x16). The caller crops to fit.
    fn decode(&mut self, data: &[u8]) -> DecoderResult<DecodedFrame>;

    /// Reset the decoder state
    ///
    /// Called when surfaces are reset (e.g., on `ResetGraphics`).
    /// The decoder should drop any internal state and prepare for
    /// a new stream. The default does nothing.
    fn reset(&mut self) {
    }
}

/// Decoder that returns planar YUV instead of RGBA — used for the two AVC444 streams.
pub trait H264YuvDecoder: Send {
    /// Decode AVC-format H.264 NAL units (4-byte BE length prefix, not Annex B)
    /// into a borrowed planar 4:2:0 picture. Frame dimensions may exceed the
    /// surface because of macroblock alignment; the caller clips.
    fn decode_yuv(&mut self, data: &[u8]) -> DecoderResult<Yuv420View<'_>>;

    /// Reset decoder state (ResetGraphics / resync after a failure). The default
    /// does nothing.
    fn reset(&mut self) {
    }
}

/// A borrowed planar 4:2:0 picture (I420) as a decoder hands it back.
///
/// `y` holds `height` rows of `y_stride` bytes (at least `width` used per row);
/// `u` and `v` each hold half as many rows, rounded up, of `chroma_stride` bytes
/// (at least half of `width`, rounded up, used per row). The view is valid until
/// the decoder's next `decode_yuv` call.
#[derive(Clone, Copy)]
pub struct Yuv420View<'a> {
    pub width: u32,
    pub height: u32,
    pub y: &'a [u8],
    pub y_stride: usize,
    pub u: &'a [u8],
    pub v: &'a [u8],
    pub chroma_stride: usize,
}

/// Half of `n`, rounded up.
pub open spec fn half_up(n: int) -> int {
    (n + 1) / 2
}

/// A plane of `len` bytes holds `rows` rows of `used` bytes, `stride` apart; the
/// last row need not be padded to the stride.
pub open spec fn plane_holds(len: int, stride: int, used: int, rows: int) -> bool {
    &&& used <= stride
    &&& 1 <= rows
    &&& (rows - 1) * stride + used <= len
}

/// Every used sample of a plane lies inside it.
pub proof fn lemma_plane_index(len: int, stride: int, used: int, rows: int, x: int, y: int)
    requires
        plane_holds(len, stride, used, rows),
        0 <= x < used,
        0 <= y < rows,
    ensures
        0 <= y * stride + x < len,
        0 <= y * stride <= len,
{
    assert(0 <= y * stride <= (rows - 1) * stride) by (nonlinear_arith)
        requires
            0 <= y <= rows - 1,
            0 <= stride,
    ;
}

impl<'a> Yuv420View<'a> {
    /// Number of chroma columns.
    pub open spec fn chroma_columns(self) -> int {
        half_up(self.width as int)
    }

    /// Number of chroma rows.
    pub open spec fn chroma_rows(self) -> int {
        half_up(self.height as int)
    }

    /// Every plane is long enough for the declared geometry, no dimension is
    /// zero and no stride is less than the width its plane uses.
    pub open spec fn well_formed(self) -> bool {
        &&& self.width > 0
        &&& self.height > 0
        &&& plane_holds(
            self.y@.len() as int,
            self.y_stride as int,
            self.width as int,
            self.height as int,
        )
        &&& plane_holds(
            self.u@.len() as int,
            self.chroma_stride as int,
            self.chroma_columns(),
            self.chroma_rows(),
        )
        &&& plane_holds(
            self.v@.len() as int,
            self.chroma_stride as int,
            self.chroma_columns(),
            self.chroma_rows(),
        )
    }

    /// The luma sample in column `x` of row `y`.
    pub open spec fn luma_at(self, x: int, y: int) -> u8 {
        self.y@[y * self.y_stride + x]
    }

    /// The `U` sample in chroma column `x` of chroma row `y`.
    pub open spec fn u_at(self, x: int, y: int) -> u8 {
        self.u@[y * self.chroma_stride + x]
    }

    /// The `V` sample in chroma column `x` of chroma row `y`.
    pub open spec fn v_at(self, x: int, y: int) -> u8 {
        self.v@[y * self.chroma_stride + x]
    }

    /// Number of chroma columns: half of `width`, rounded up.
    pub(crate) fn chroma_width(&self) -> (columns: usize)
        ensures
            columns == self.chroma_columns(),
    {
        (self.width / 2 + self.width % 2) as usize
    }

    /// Number of chroma rows: half of `height`, rounded up.
    pub(crate) fn chroma_height(&self) -> (rows: usize)
        ensures
            rows == self.chroma_rows(),
    {
        (self.height / 2 + self.height % 2) as usize
    }

    /// `true` when every plane is long enough for the declared geometry and
    /// every stride is at least the plane's used width. Geometry that does not
    /// fit in `usize` is simply not well formed.
    pub fn is_well_formed(&self) -> (yes: bool)
        ensures
            yes == self.well_formed(),
    {
        if self.width == 0 || self.height == 0 {
            return false;
        }
        let chroma_width: usize = self.chroma_width();
        let chroma_height: usize = self.chroma_height();

        Self::plane_is_well_formed(
            self.y.len(),
            self.y_stride,
            self.width as usize,
            self.height as usize,
        ) && Self::plane_is_well_formed(
            self.u.len(),
            self.chroma_stride,
            chroma_width,
            chroma_height,
        ) && Self::plane_is_well_formed(
            self.v.len(),
            self.chroma_stride,
            chroma_width,
            chroma_height,
        )
    }

    /// Required length is `(rows - 1) * stride + used_width` (the last row need
    /// not be padded to the stride); `stride` must be at least `used_width`.
    fn plane_is_well_formed(
        plane_len: usize,
        stride: usize,
        used_width: usize,
        rows: usize,
    ) -> (yes: bool)
        ensures
            yes == plane_holds(plane_len as int, stride as int, used_width as int, rows as int),
    {
        if stride < used_width {
            return false;
        }
        if rows == 0 {
            return false;
        }
        match (rows - 1).checked_mul(stride) {
            None => false,
            Some(leading_rows_len) => match leading_rows_len.checked_add(used_width) {
                None => false,
                Some(required_len) => plane_len >= required_len,
            },
        }
    }
}

} // verus!
