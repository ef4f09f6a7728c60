//! An H.264 decoder backed by the OpenH264 library.
use vstd::prelude::*;
use vstd::string::*;

use openh264::decoder::{DecodedYUV, Decoder};

use super::{DecodedFrame, DecoderError, DecoderReport, DecoderResult, H264Decoder};

verus! {

/// `openh264`'s decoder, with what it keeps of the stream so far.
#[verifier::external_type_specification]
#[verifier::external_body]
pub struct ExDecoder(Decoder);

/// `openh264`'s decoded picture, which borrows from the decoder.
#[verifier::external_type_specification]
#[verifier::external_body]
pub struct ExDecodedYUV<'a>(DecodedYUV<'a>);

/// Calls `openh264::decoder::Decoder::new`. Whether the library can be set up depends on
/// the machine, so nothing is said of the result; an error is given as its text.
#[verifier::external_body]
fn new_decoder() -> (result: Result<Decoder, String>) {
    Decoder::new().map_err(|error| error.to_string())
}

/// Calls `openh264::decoder::Decoder::decode`. What comes of the bytes depends on the
/// stream before them, so nothing is said of the result; an error is given as its text.
#[verifier::external_body]
fn decode_annex_b<'a>(decoder: &'a mut Decoder, packet: &[u8]) -> (result: Result<
    Option<DecodedYUV<'a>>,
    String,
>) {
    decoder.decode(packet).map_err(|error| error.to_string())
}

/// The width and the height of a decoded picture.
pub uninterp spec fn picture_size(picture: DecodedYUV<'_>) -> (usize, usize);

/// Calls `openh264::formats::YUVSource::dimensions`: the size of the picture. No bound is
/// claimed of it: the library holds both as signed numbers and widens them as they are.
#[verifier::external_body]
fn picture_dimensions(picture: &DecodedYUV<'_>) -> (size: (usize, usize))
    ensures
        size == picture_size(*picture),
{
    openh264::formats::YUVSource::dimensions(picture)
}

/// Calls `openh264::decoder::DecodedYUV::write_rgba8`: it fills a new buffer with the pixels
/// and panics unless there are four bytes for each of them. Every pixel is opaque.
/// Nothing is said of the colours: their last bit depends on the machine's instructions.
#[verifier::external_body]
fn write_picture(picture: &DecodedYUV<'_>, len: usize) -> (target: Vec<u8>)
    requires
        len == picture_size(*picture).0 * picture_size(*picture).1 * 4,
    ensures
        target@.len() == len,
        super::is_opaque(target@),
{
    let mut target = vec![0u8; len];
    picture.write_rgba8(&mut target);
    target
}

/// The start code of a unit in an Annex B stream.
pub open spec fn start_code() -> Seq<u8> {
    seq![0u8, 0u8, 0u8, 1u8]
}

/// The length in front of a unit of an AVC stream.
pub open spec fn unit_len(data: Seq<u8>) -> int {
    data[0] * 0x1000000 + data[1] * 0x10000 + data[2] * 0x100 + data[3]
}

/// The units of an AVC stream, each behind a start code in place of its length, as far
/// as they are whole.
pub open spec fn annex_b(data: Seq<u8>) -> Seq<u8>
    decreases data.len(),
{
    if data.len() < 4 || data.len() - 4 < unit_len(data) {
        Seq::empty()
    } else {
        start_code() + data.subrange(4, 4 + unit_len(data)) + annex_b(
            data.skip(4 + unit_len(data)),
        )
    }
}

/// Every whole unit of an AVC stream comes out as it is, behind a start code, and the
/// rest of the stream after it: no unit is lost, and none changes place. A unit is as
/// long as the four bytes before it say, the highest first.
pub proof fn law_units_come_out_in_order(length: Seq<u8>, unit: Seq<u8>, rest: Seq<u8>)
    requires
        length.len() == 4,
        ((length[0] * 256 + length[1]) * 256 + length[2]) * 256 + length[3] == unit.len(),
    ensures
        annex_b(length + unit + rest) == seq![0u8, 0u8, 0u8, 1u8] + unit + annex_b(rest),
{
    let data = length + unit + rest;
    assert(unit_len(data) == unit.len());
    assert(data.subrange(4, 4 + unit.len() as int) =~= unit);
    assert(data.skip(4 + unit.len() as int) =~= rest);
}

/// A stream that ends inside a length or inside the unit that a length announces gives
/// nothing from there on.
pub proof fn law_broken_unit_gives_nothing(data: Seq<u8>)
    requires
        data.len() < 4 || data.len() < 4 + ((data[0] * 256 + data[1]) * 256 + data[2]) * 256
            + data[3],
    ensures
        annex_b(data).len() == 0,
{
}

/// Turns an AVC stream (a big-endian length of four bytes before each unit) into an
/// Annex B stream (a start code before each unit). A unit that is not whole ends it.
pub fn avc_to_annex_b_into(data: &[u8], output: &mut Vec<u8>)
    ensures
        final(output)@ == annex_b(data@),
{
    output.clear();
    let len: usize = data.len();
    let mut offset: usize = 0;
    assert(data@.skip(0) =~= data@);
    assert(output@ + annex_b(data@.skip(0)) =~= annex_b(data@));
    while len - offset >= 4
        invariant_except_break
            output@ + annex_b(data@.skip(offset as int)) == annex_b(data@),
        invariant
            len == data@.len(),
            offset <= len,
        ensures
            output@ == annex_b(data@),
        decreases len - offset,
    {
        let ghost rest = data@.skip(offset as int);
        let unit: u64 = data[offset] as u64 * 0x1000000 + data[offset + 1] as u64 * 0x10000
            + data[offset + 2] as u64 * 0x100 + data[offset + 3] as u64;
        assert(unit == unit_len(rest));
        if unit > (len - offset - 4) as u64 {
            assert(output@ =~= output@ + annex_b(rest));
            break;
        }
        let end: usize = offset + 4 + unit as usize;
        output.push(0);
        output.push(0);
        output.push(0);
        output.push(1);
        output.extend_from_slice(vstd::slice::slice_subrange(data, offset + 4, end));
        proof {
            assert(data@.subrange(offset + 4, end as int) =~= rest.subrange(4, 4 + unit));
            assert(data@.skip(end as int) =~= rest.skip(4 + unit));
            assert(output@ + annex_b(data@.skip(end as int)) =~= annex_b(data@));
        }
        offset = end;
    }
}

/// A frame can hold a picture of this size: a frame counts its columns and rows in 32
/// bits, and its bytes must be countable.
pub open spec fn fits_frame(size: (usize, usize)) -> bool {
    &&& size.0 <= u32::MAX
    &&& size.1 <= u32::MAX
    &&& size.0 * size.1 * 4 <= usize::MAX
}

/// Making a new decoder may come to this.
pub closed spec fn may_be_made(made: Result<Decoder, String>) -> bool {
    call_ensures(new_decoder, (), made)
}

/// Handing a packet to a decoder may come to this.
pub closed spec fn may_be_decoded(
    library: Decoder,
    packet: Seq<u8>,
    decoded: Result<Option<DecodedYUV<'_>>, String>,
) -> bool {
    exists|decoder: &mut Decoder, bytes: &[u8]|
        *decoder == library && bytes@ == packet && #[trigger] call_ensures(
            decode_annex_b,
            (decoder, bytes),
            decoded,
        )
}

/// Writing a decoded picture out may leave these bytes.
pub closed spec fn may_be_written(picture: DecodedYUV<'_>, rgba: Seq<u8>) -> bool {
    exists|len: usize, target: Vec<u8>|
        target@ == rgba && #[trigger] call_ensures(write_picture, (&picture, len), target)
}

/// The bytes of a written picture are, one for one, those that the library leaves in a
/// target of that length.
proof fn law_written_bytes_are_the_librarys(picture: DecodedYUV<'_>, rgba: Seq<u8>)
    requires
        may_be_written(picture, rgba),
    ensures
        exists|len: usize, target: Vec<u8>| #[trigger]
            call_ensures(write_picture, (&picture, len), target) && len == rgba.len()
                && target@.len() == rgba.len() && forall|i: int|
                0 <= i < rgba.len() ==> #[trigger] target@[i] == rgba[i],
{
}

/// `result` is the frame that a decoded picture becomes, or says why there is none: the
/// decoder failed, it has no picture yet, or the picture is too large to be held.
pub open spec fn is_frame_of(
    decoded: Result<Option<DecodedYUV<'_>>, String>,
    result: DecoderResult<DecodedFrame>,
) -> bool {
    match decoded {
        Err(text) => result matches Err(error) && error@ == (DecoderReport {
            context: "OpenH264 decode failed"@,
            source: Some(text@),
        }),
        Ok(None) => result matches Err(error) && error@ == (DecoderReport {
            context: "OpenH264 returned no picture"@,
            source: None,
        }),
        Ok(Some(picture)) => if !fits_frame(picture_size(picture)) {
            result matches Err(error) && error@ == (DecoderReport {
                context: "frame dimensions too large for RGBA allocation"@,
                source: None,
            })
        } else {
            result matches Ok(frame) && frame@.well_formed() && super::is_opaque(frame@.data)
                && may_be_written(picture, frame@.data) && frame@.width == picture_size(picture).0
                && frame@.height == picture_size(picture).1
        },
    }
}

/// A frame is the decoded picture as the library writes it out: of its size, and byte for
/// byte. There is one if and only if the library gave a picture that a frame can hold.
pub proof fn law_frame_is_the_picture(
    decoded: Result<Option<DecodedYUV<'_>>, String>,
    result: DecoderResult<DecodedFrame>,
)
    requires
        is_frame_of(decoded, result),
    ensures
        result matches Ok(frame) ==> decoded matches Ok(Some(picture)) && {
            &&& may_be_written(picture, frame@.data)
            &&& frame@.width == picture_size(picture).0
            &&& frame@.height == picture_size(picture).1
            &&& frame@.data.len() == frame@.width * frame@.height * 4
            &&& forall|i: int|
                0 <= i < frame@.data.len() && i % 4 == 3 ==> #[trigger] frame@.data[i] == 0xFF
        },
        decoded matches Ok(Some(picture)) ==> (result is Ok <==> picture_size(picture).0
            <= u32::MAX && picture_size(picture).1 <= u32::MAX && picture_size(picture).0
            * picture_size(picture).1 * 4 <= usize::MAX),
        decoded matches Err(text) ==> result matches Err(error) && error@.source == Some(text@)
            && error@.context == "OpenH264 decode failed"@,
        !(decoded is Err) ==> (result matches Err(error) ==> error@.source is None),
        decoded matches Ok(None) ==> result matches Err(error) && error@.context
            == "OpenH264 returned no picture"@,
        decoded matches Ok(Some(_)) ==> (result matches Err(error) ==> error@.context
            == "frame dimensions too large for RGBA allocation"@),
{
    if result is Ok {
        law_written_bytes_are_the_librarys(decoded->Ok_0->0, result->Ok_0@.data);
    }
}

/// The frame that a decoded picture becomes, or why there is none: the decoder failed,
/// it has no picture yet, or the picture is too large to be held.
pub fn frame_of(decoded: Result<Option<DecodedYUV<'_>>, String>) -> (result: DecoderResult<
    DecodedFrame,
>)
    ensures
        is_frame_of(decoded, result),
{
    let picture: DecodedYUV<'_> = match decoded {
        Err(text) => {
            return Err(DecoderError::new("OpenH264 decode failed".to_owned(), text));
        },
        Ok(None) => {
            return Err(DecoderError::msg("OpenH264 returned no picture".to_owned()));
        },
        Ok(Some(picture)) => picture,
    };
    let (width, height): (usize, usize) = picture_dimensions(&picture);
    let in_range: bool = width as u64 <= u32::MAX as u64 && height as u64 <= u32::MAX as u64;
    let pixels: Option<usize> = if in_range {
        width.checked_mul(height)
    } else {
        None
    };
    let rgba_size: Option<usize> = match pixels {
        Some(pixels) => pixels.checked_mul(4),
        None => None,
    };
    match rgba_size {
        None => Err(
            DecoderError::msg("frame dimensions too large for RGBA allocation".to_owned()),
        ),
        Some(rgba_size) => {
            let rgba: Vec<u8> = write_picture(&picture, rgba_size);
            assert(may_be_written(picture, rgba@));
            Ok(DecodedFrame::new(rgba, width as u32, height as u32))
        },
    }
}

/// H.264 decoder backed by Cisco's OpenH264 library
///
/// This decoder converts AVC-format NAL units to Annex B format
/// (as required by OpenH264), decodes to YUV420p, then converts
/// to RGBA for the client pipeline.
pub struct OpenH264Decoder {
    decoder: Decoder,
    annex_b_buffer: Vec<u8>,
}

impl OpenH264Decoder {
    /// The buffer in which a stream is made ready for the library.
    pub closed spec fn fed(&self) -> Seq<u8> {
        self.annex_b_buffer@
    }

    /// The library's decoder.
    pub closed spec fn library(&self) -> Decoder {
        self.decoder
    }

    /// A decoder on top of one that the library gave, however it was loaded.
    pub fn from_decoder(decoder: Decoder) -> (result: Self)
        ensures
            result.library() == decoder,
            result.fed().len() == 0,
    {
        Self { decoder, annex_b_buffer: Vec::new() }
    }

    /// Create a decoder using the bundled (source-compiled) OpenH264 library
    pub fn new() -> (result: DecoderResult<Self>)
        ensures
            exists|made: Result<Decoder, String>| #[trigger]
                may_be_made(made) && match made {
                    Ok(library) => result matches Ok(decoder) && decoder.library() == library
                        && decoder.fed().len() == 0,
                    Err(text) => result matches Err(error) && error@ == (DecoderReport {
                        context: "failed to create OpenH264 decoder"@,
                        source: Some(text@),
                    }),
                },
    {
        let made: Result<Decoder, String> = new_decoder();
        assert(may_be_made(made));
        match made {
            Ok(decoder) => Ok(Self::from_decoder(decoder)),
            Err(text) => Err(
                DecoderError::new("failed to create OpenH264 decoder".to_owned(), text),
            ),
        }
    }

    /// Starts over with a fresh decoder. If none can be had, the one that is there is
    /// kept, and the text of the failure comes back.
    pub fn restarted(&mut self, fresh: Result<Decoder, String>) -> (failure: Option<String>)
        ensures
            final(self).fed() == old(self).fed(),
            match fresh {
                Ok(decoder) => final(self).library() == decoder && failure is None,
                Err(text) => final(self).library() == old(self).library() && failure == Some(text),
            },
    {
        match fresh {
            Ok(decoder) => {
                self.decoder = decoder;
                None
            },
            Err(text) => Some(text),
        }
    }
}

impl H264Decoder for OpenH264Decoder {
    fn decode(&mut self, data: &[u8]) -> (result: DecoderResult<DecodedFrame>)
        ensures
            final(self).fed() == annex_b(data@),
            exists|decoded: Result<Option<DecodedYUV<'_>>, String>| #[trigger]
                may_be_decoded(old(self).library(), annex_b(data@), decoded) && is_frame_of(
                    decoded,
                    result,
                ),
    {
        avc_to_annex_b_into(data, &mut self.annex_b_buffer);
        let ghost library = self.decoder;
        let decoded: Result<Option<DecodedYUV<'_>>, String> = decode_annex_b(
            &mut self.decoder,
            self.annex_b_buffer.as_slice(),
        );
        assert(may_be_decoded(library, annex_b(data@), decoded));
        let ghost outcome = decoded;
        let result: DecoderResult<DecodedFrame> = frame_of(decoded);
        assert(may_be_decoded(old(self).library(), annex_b(data@), outcome));
        result
    }

    /// Starts over with a fresh decoder, or keeps the one that is there if none can be
    /// had.
    fn reset(&mut self)
        ensures
            final(self).fed() == old(self).fed(),
            exists|fresh: Result<Decoder, String>| #[trigger]
                may_be_made(fresh) && final(self).library() == (match fresh {
                    Ok(decoder) => decoder,
                    Err(_) => old(self).library(),
                }),
    {
        let fresh: Result<Decoder, String> = new_decoder();
        assert(may_be_made(fresh));
        let _ = self.restarted(fresh);
    }
}

} // verus!
