//! Decoded pictures.
use rdp_client_core::decode::open_h264::avc_to_annex_b_into;
use rdp_client_core::decode::{
    DecodedFrame, DecoderError, H264Decoder, OpenH264Decoder, Yuv420View,
};

#[test]
fn well_formed_accepts_an_exact_i420_buffer() {
    let y = [0u8; 24]; // 6x4, stride 6
    let u = [0u8; 6]; // 3x2, stride 3
    let v = [0u8; 6];
    let view = Yuv420View {
        width: 6,
        height: 4,
        y: &y,
        y_stride: 6,
        u: &u,
        v: &v,
        chroma_stride: 3,
    };
    assert!(view.is_well_formed());
}

#[test]
fn well_formed_accepts_an_unpadded_last_row() {
    // width 6, height 4, y_stride 10: buffer sized (rows-1)*stride + width.
    let y = vec![0u8; 3 * 10 + 6];
    let u = vec![0u8; 5 + 3];
    let v = vec![0u8; 5 + 3];
    let view = Yuv420View {
        width: 6,
        height: 4,
        y: &y,
        y_stride: 10,
        u: &u,
        v: &v,
        chroma_stride: 5,
    };
    assert!(view.is_well_formed());
}

#[test]
fn well_formed_rejects_a_short_chroma_plane() {
    let y = [0u8; 24];
    let u = [0u8; 5]; // one byte short of the required 6.
    let v = [0u8; 6];
    let view = Yuv420View {
        width: 6,
        height: 4,
        y: &y,
        y_stride: 6,
        u: &u,
        v: &v,
        chroma_stride: 3,
    };
    assert!(!view.is_well_formed());
}

#[test]
fn well_formed_rejects_a_stride_below_the_width() {
    let y = [0u8; 24];
    let u = [0u8; 6];
    let v = [0u8; 6];
    let view = Yuv420View {
        width: 6,
        height: 4,
        y: &y,
        y_stride: 5, // less than width 6.
        u: &u,
        v: &v,
        chroma_stride: 3,
    };
    assert!(!view.is_well_formed());
}

#[test]
fn well_formed_rejects_zero_dimensions() {
    let y = [0u8; 24];
    let u = [0u8; 6];
    let v = [0u8; 6];

    let zero_width = Yuv420View {
        width: 0,
        height: 4,
        y: &y,
        y_stride: 6,
        u: &u,
        v: &v,
        chroma_stride: 3,
    };
    assert!(!zero_width.is_well_formed());

    let zero_height = Yuv420View {
        width: 6,
        height: 0,
        y: &y,
        y_stride: 6,
        u: &u,
        v: &v,
        chroma_stride: 3,
    };
    assert!(!zero_height.is_well_formed());
}

#[test]
fn well_formed_rejects_u32_max_geometry_without_panicking() {
    let y = [0u8; 4];
    let u = [0u8; 4];
    let v = [0u8; 4];
    let view = Yuv420View {
        width: u32::MAX,
        height: u32::MAX,
        y: &y,
        y_stride: usize::MAX,
        u: &u,
        v: &v,
        chroma_stride: usize::MAX,
    };
    assert!(!view.is_well_formed());
}

#[test]
fn a_frame_gives_back_what_it_was_made_of() {
    let data: Vec<u8> = (0..24).collect();
    let frame = DecodedFrame::new(data.clone(), 3, 2);
    assert_eq!((frame.width(), frame.height()), (3, 2));
    assert_eq!(frame.data(), data);
    assert_eq!(frame.clone().into_data(), data);
}

#[test]
fn a_decoder_error_reads_as_one_line() {
    assert_eq!(DecoderError::msg("no picture".to_owned()).message(), "decoder error: no picture");
    assert_eq!(
        DecoderError::new("decode failed".to_owned(), "bad stream".to_owned()).message(),
        "decoder error: decode failed: bad stream"
    );
}

#[test]
fn units_get_start_codes_in_place_of_lengths() {
    let mut output = vec![0xEE; 3];
    avc_to_annex_b_into(&[], &mut output);
    assert!(output.is_empty());

    avc_to_annex_b_into(&[0, 0, 0, 2, 0x67, 0x42, 0, 0, 0, 0, 0, 0, 0, 1, 0x65], &mut output);
    assert_eq!(output, [0, 0, 0, 1, 0x67, 0x42, 0, 0, 0, 1, 0, 0, 0, 1, 0x65]);

    // What is not whole at the end is left out.
    avc_to_annex_b_into(&[0, 0, 0, 1, 0x67, 0, 0, 0, 9, 0x65], &mut output);
    assert_eq!(output, [0, 0, 0, 1, 0x67]);
    avc_to_annex_b_into(&[0xFF, 0xFF, 0xFF, 0xFF, 1, 2, 3], &mut output);
    assert!(output.is_empty());
}

/// One picture of a size, in units with lengths in front of them.
fn encoded_picture(width: usize, height: usize, luma: u8) -> Vec<u8> {
    let mut planes = vec![luma; width * height];
    planes.resize(width * height * 3 / 2, 128);
    let picture = openh264::formats::YUVBuffer::from_vec(planes, width, height);
    let mut encoder = openh264::encoder::Encoder::new().unwrap();
    let stream = encoder.encode(&picture).unwrap().to_vec();

    let mut starts = Vec::new();
    for i in 0..stream.len() - 3 {
        if stream[i..i + 4] == [0, 0, 0, 1] {
            starts.push(i);
        }
    }
    let mut units = Vec::new();
    for (n, start) in starts.iter().enumerate() {
        let end = starts.get(n + 1).copied().unwrap_or(stream.len());
        let unit = &stream[start + 4..end];
        units.extend_from_slice(&u32::try_from(unit.len()).unwrap().to_be_bytes());
        units.extend_from_slice(unit);
    }
    units
}

/// The library's decoder is fed and its picture comes out, in RGBA and in its size.
#[test]
fn a_picture_is_decoded() {
    let mut decoder = OpenH264Decoder::new().unwrap();
    let units = encoded_picture(32, 16, 235);
    let frame = decoder.decode(&units).unwrap();
    assert_eq!((frame.width(), frame.height()), (32, 16));
    assert_eq!(frame.data().len(), 32 * 16 * 4);
    assert!(frame.data().chunks_exact(4).all(|pixel| {
        pixel[0] > 240 && pixel[1] > 240 && pixel[2] > 240 && pixel[3] == 0xFF
    }));

    // A fresh start takes another stream.
    decoder.reset();
    let frame = decoder.decode(&encoded_picture(48, 32, 16)).unwrap();
    assert_eq!((frame.width(), frame.height()), (48, 32));
    assert!(frame.data().chunks_exact(4).all(|pixel| pixel[0] < 16 && pixel[3] == 0xFF));
}

/// A decoder that could not start over goes on with the stream that it knows; one that
/// did has forgotten it.
#[test]
fn a_restart_forgets_the_stream_unless_it_fails() {
    let mut decoder = OpenH264Decoder::new().unwrap();
    let units = encoded_picture(32, 16, 100);
    assert!(decoder.decode(&units).is_ok());
    assert_eq!(decoder.restarted(Err("none left".to_owned())), Some("none left".to_owned()));
    assert!(decoder.decode(&units).is_ok());

    // The slice alone names parameters that only a decoder that kept them knows.
    let parameters = 4 + usize::try_from(u32::from_be_bytes([units[0], units[1], units[2], units[3]])).unwrap();
    let fresh = openh264::decoder::Decoder::new().map_err(|error| error.to_string());
    assert_eq!(decoder.restarted(fresh), None);
    assert!(decoder.decode(&units[parameters..]).is_err());
}

#[test]
fn a_decoder_without_a_picture_says_so() {
    let mut decoder = OpenH264Decoder::new().unwrap();
    let error = match decoder.decode(&[]) {
        Ok(_) => panic!("there is no picture"),
        Err(error) => error,
    };
    assert_eq!(error.message(), "decoder error: OpenH264 returned no picture");
}

#[test]
fn a_broken_stream_is_an_error_of_the_library() {
    let mut decoder = OpenH264Decoder::new().unwrap();
    let mut units = encoded_picture(32, 16, 100);
    // The slice names parameters that the library was never given.
    let parameters = 4 + usize::try_from(u32::from_be_bytes([units[0], units[1], units[2], units[3]])).unwrap();
    units.drain(..parameters);
    let error = match decoder.decode(&units) {
        Ok(_) => panic!("the parameters are missing"),
        Err(error) => error,
    };
    assert!(error.message().starts_with("decoder error: OpenH264 decode failed: "));
}

#[test]
fn a_decoder_error_keeps_what_the_decoder_said() {
    let error = DecoderError::new("decode".to_owned(), "bad slice".to_owned());
    assert_eq!(error.source_text(), Some("bad slice".to_owned()));
    assert_eq!(DecoderError::msg("decode".to_owned()).source_text(), None);
}
