//! Tests of the header reader: the marker scan, fill-byte absorption, the
//! section state machine, and Start-Of-Frame decoding.

use jpegls_reader::decoder::Decoder;
use jpegls_reader::decoding_error::DecodingError;
use jpegls_reader::jpeg_marker_code::JpegMarkerCode;
use jpegls_reader::jpeg_stream_reader::FrameInfo;
use jpegls_reader::jpeg_stream_reader::JpegStreamReader;
use jpegls_reader::jpeg_stream_reader::ReaderState;

/// Builds JPEG-LS streams byte by byte, as T.87 C.2.2/C.2.3 and T.81
/// B.2.2/B.2.3 lay them out.
struct JpegTestStreamWriter {
    buffer: Vec<u8>,
}

impl JpegTestStreamWriter {
    fn new() -> JpegTestStreamWriter {
        JpegTestStreamWriter { buffer: Vec::new() }
    }

    fn write_byte(&mut self, value: u8) {
        self.buffer.push(value);
    }

    fn write_u16(&mut self, value: u16) {
        self.buffer.push((value >> 8) as u8);
        self.buffer.push(value as u8);
    }

    fn write_marker(&mut self, code: u8) {
        self.write_byte(0xFF);
        self.write_byte(code);
    }

    fn write_start_of_image(&mut self) {
        self.write_marker(0xD8);
    }

    fn write_start_of_frame_segment(
        &mut self,
        width: u16,
        height: u16,
        bits_per_sample: u8,
        component_count: u16,
    ) {
        let mut segment = Vec::new();
        segment.push(bits_per_sample); // P = Sample precision
        segment.extend_from_slice(&height.to_be_bytes()); // Y = Number of lines
        segment.extend_from_slice(&width.to_be_bytes()); // X = Samples per line
        segment.push(component_count as u8); // Nf = Number of components
        for component_id in 0..component_count as u8 {
            segment.push(component_id); // Ci = Component identifier
            segment.push(0x11); // Hi + Vi = Sampling factors
            segment.push(0); // Tqi = Table selector, reserved as 0
        }
        self.write_segment(0xF7, &segment);
    }

    fn write_start_of_scan_segment(
        &mut self,
        component_id: u8,
        component_count: u8,
        near_lossless: u8,
        interleave_mode: u8,
    ) {
        let mut segment = Vec::new();
        segment.push(component_count);
        for i in 0..component_count {
            segment.push(component_id + i);
            segment.push(0); // Mapping table selector (0 = no table)
        }
        segment.push(near_lossless); // NEAR parameter
        segment.push(interleave_mode); // ILV parameter
        segment.push(0); // Point transformation
        self.write_segment(0xDA, &segment);
    }

    fn write_segment(&mut self, code: u8, segment_data: &[u8]) {
        self.write_marker(code);
        self.write_u16((segment_data.len() + 2) as u16);
        self.buffer.extend_from_slice(segment_data);
    }

    fn write_segment_raw_length(&mut self, code: u8, declared_length: u16, segment_data: &[u8]) {
        self.write_marker(code);
        self.write_u16(declared_length);
        self.buffer.extend_from_slice(segment_data);
    }

    fn data(&self) -> Vec<u8> {
        self.buffer.clone()
    }
}

fn minimal_valid_stream() -> Vec<u8> {
    let mut writer = JpegTestStreamWriter::new();
    writer.write_start_of_image();
    writer.write_start_of_frame_segment(1, 1, 2, 1);
    writer.write_start_of_scan_segment(0, 1, 1, 0);
    writer.data()
}

#[test]
fn read_header_from_too_small_input_buffer_fails() {
    let buffer = vec![1u8];
    let mut reader = JpegStreamReader::new(buffer);
    assert!(reader.read_header().is_err());
}

#[test]
fn read_header_from_buffer_preceded_with_fill_bytes() {
    let extra_start_byte = 0xFFu8;

    let mut writer = JpegTestStreamWriter::new();

    writer.write_byte(extra_start_byte);
    writer.write_start_of_image();

    writer.write_byte(extra_start_byte);
    writer.write_start_of_frame_segment(1, 1, 2, 1);

    writer.write_byte(extra_start_byte);
    writer.write_start_of_scan_segment(0, 1, 1, 0);

    let mut reader = JpegStreamReader::new(writer.data());
    assert!(reader.read_header().is_ok());
}

#[test]
fn read_header_from_buffer_not_starting_with_ff_throws() {
    let buffer = vec![0x0Fu8, 0xFF, 0xD8, 0xFF, 0xFF, 0xDA];

    let mut reader = JpegStreamReader::new(buffer);

    let error = reader.read_header().unwrap_err();
    assert_eq!(error, DecodingError::MarkerPrefixNotFound);
}

fn read_header_with_application_data_for(data_number: u8) {
    let mut writer = JpegTestStreamWriter::new();

    writer.write_start_of_image();
    writer.write_byte(0xFF);
    writer.write_byte(0xE0 + data_number);
    writer.write_byte(0);
    writer.write_byte(0x02);
    writer.write_start_of_frame_segment(1, 1, 2, 1);
    writer.write_start_of_scan_segment(0, 1, 1, 0);

    let mut reader = JpegStreamReader::new(writer.data());
    assert!(reader.read_header().is_ok());
}

#[test]
fn read_header_with_application_data() {
    for i in 0..16 {
        read_header_with_application_data_for(i);
    }
}

#[test]
fn read_header_with_jpegls_extended_frame_throws() {
    // 0xF9 = SOF_57: marks the start of a JPEG-LS extended (ISO/IEC 14495-2)
    // encoded frame, outside this profile's supported set.
    let buffer = vec![0xFFu8, 0xD8, 0xFF, 0xF9, 0xDA];

    let mut reader = JpegStreamReader::new(buffer);

    let error = reader.read_header().unwrap_err();
    assert_eq!(error, DecodingError::UnrecognizedMarker(0xF9));
}

#[test]
fn read_header_decodes_frame_info() {
    let mut reader = JpegStreamReader::new(minimal_valid_stream());
    assert!(reader.read_header().is_ok());
    let info = reader.frame_info();
    assert_eq!(
        info,
        FrameInfo { width: 1, height: 1, bits_per_sample: 2, component_count: 1 }
    );
}

#[test]
fn read_header_round_trips_frame_fields() {
    let cases: [(u16, u16, u8, u16); 4] =
        [(1, 1, 2, 1), (640, 480, 8, 3), (65535, 65535, 16, 1), (320, 200, 12, 4)];
    for (width, height, bits, components) in cases {
        let mut writer = JpegTestStreamWriter::new();
        writer.write_start_of_image();
        writer.write_start_of_frame_segment(width, height, bits, components);
        writer.write_start_of_scan_segment(0, components as u8, 0, 0);
        let mut reader = JpegStreamReader::new(writer.data());
        assert!(reader.read_header().is_ok());
        let info = reader.frame_info();
        assert_eq!(info.width, width as u32);
        assert_eq!(info.height, height as u32);
        assert_eq!(info.bits_per_sample, bits);
        assert_eq!(info.component_count, components as u8);
    }
}

#[test]
fn read_header_of_header_only_stream_succeeds() {
    // Start-Of-Image directly followed by End-Of-Image: valid, no frame.
    let mut reader = JpegStreamReader::new(vec![0xFFu8, 0xD8, 0xFF, 0xD9]);
    assert!(reader.read_header().is_ok());
    let info = reader.frame_info();
    assert_eq!(info.width, 0);
    assert_eq!(info.component_count, 0);
}

#[test]
fn read_header_skips_application_data_payload() {
    let mut writer = JpegTestStreamWriter::new();
    writer.write_start_of_image();
    writer.write_segment(0xE3, &[0xAB, 0xCD, 0xEF]);
    writer.write_segment(0xFE, &[b'h', b'i']);
    writer.write_start_of_frame_segment(7, 9, 8, 1);
    writer.write_start_of_scan_segment(0, 1, 0, 0);
    let mut reader = JpegStreamReader::new(writer.data());
    assert!(reader.read_header().is_ok());
    assert_eq!(reader.frame_info().width, 7);
    assert_eq!(reader.frame_info().height, 9);
}

#[test]
fn read_header_of_empty_input_fails_with_end_of_stream() {
    let mut reader = JpegStreamReader::new(Vec::new());
    assert_eq!(reader.read_header().unwrap_err(), DecodingError::UnexpectedEndOfStream);
}

#[test]
fn read_header_without_start_of_image_marker_throws() {
    // End-Of-Image where Start-Of-Image is required.
    let mut reader = JpegStreamReader::new(vec![0xFFu8, 0xD9]);
    assert_eq!(reader.read_header().unwrap_err(), DecodingError::StartOfImageMarkerNotFound);
}

#[test]
fn read_header_rejects_scan_before_frame() {
    let mut writer = JpegTestStreamWriter::new();
    writer.write_start_of_image();
    writer.write_start_of_scan_segment(0, 1, 0, 0);
    let mut reader = JpegStreamReader::new(writer.data());
    assert_eq!(
        reader.read_header().unwrap_err(),
        DecodingError::UnexpectedMarker {
            context: ReaderState::HeaderSection,
            found: JpegMarkerCode::StartOfScan,
        }
    );
}

#[test]
fn read_header_rejects_second_start_of_image() {
    let mut reader = JpegStreamReader::new(vec![0xFFu8, 0xD8, 0xFF, 0xD8]);
    assert_eq!(
        reader.read_header().unwrap_err(),
        DecodingError::UnexpectedMarker {
            context: ReaderState::HeaderSection,
            found: JpegMarkerCode::StartOfImage,
        }
    );
}

#[test]
fn read_header_rejects_short_declared_frame_length() {
    // Declared length 7 is under the 8 bytes the fixed frame fields need.
    let mut reader =
        JpegStreamReader::new(vec![0xFFu8, 0xD8, 0xFF, 0xF7, 0x00, 0x07, 2, 0, 1, 0, 1]);
    assert_eq!(reader.read_header().unwrap_err(), DecodingError::InvalidSegmentLength);
}

#[test]
fn read_header_rejects_short_declared_application_data_length() {
    // Declared length 1 cannot even count its own two bytes.
    let mut reader = JpegStreamReader::new(vec![0xFFu8, 0xD8, 0xFF, 0xE0, 0x00, 0x01]);
    assert_eq!(reader.read_header().unwrap_err(), DecodingError::InvalidSegmentLength);
}

#[test]
fn read_header_rejects_component_count_not_matching_length() {
    // Payload of 9 bytes but a declared component count of 2, which would
    // need 12: structurally inconsistent.
    let mut reader = JpegStreamReader::new(vec![
        0xFFu8, 0xD8, 0xFF, 0xF7, 0x00, 0x0B, 2, 0, 1, 0, 1, 2, 0, 0x11, 0,
    ]);
    assert_eq!(reader.read_header().unwrap_err(), DecodingError::InvalidSegmentLength);
}

#[test]
fn read_header_rejects_zero_component_count() {
    let mut reader =
        JpegStreamReader::new(vec![0xFFu8, 0xD8, 0xFF, 0xF7, 0x00, 0x08, 2, 0, 1, 0, 1, 0]);
    assert_eq!(reader.read_header().unwrap_err(), DecodingError::InvalidFrameHeader);
}

#[test]
fn read_header_rejects_precision_out_of_range() {
    for bits in [0u8, 1, 17, 255] {
        let mut writer = JpegTestStreamWriter::new();
        writer.write_start_of_image();
        writer.write_start_of_frame_segment(1, 1, bits, 1);
        let mut reader = JpegStreamReader::new(writer.data());
        assert_eq!(reader.read_header().unwrap_err(), DecodingError::InvalidFrameHeader);
    }
}

#[test]
fn read_header_rejects_short_declared_scan_length() {
    let mut writer = JpegTestStreamWriter::new();
    writer.write_start_of_image();
    writer.write_start_of_frame_segment(1, 1, 2, 1);
    // Declared length 5 is under the 6 bytes the fixed scan fields need.
    writer.write_segment_raw_length(0xDA, 5, &[1, 0, 0]);
    let mut reader = JpegStreamReader::new(writer.data());
    assert_eq!(reader.read_header().unwrap_err(), DecodingError::InvalidSegmentLength);
}

#[test]
fn read_header_rejects_inconsistent_scan_component_count() {
    let mut writer = JpegTestStreamWriter::new();
    writer.write_start_of_image();
    writer.write_start_of_frame_segment(1, 1, 2, 1);
    // Payload of 6 bytes but a declared component count of 2, which would
    // need 8: structurally inconsistent.
    writer.write_segment(0xDA, &[2, 0, 0, 1, 0, 0]);
    let mut reader = JpegStreamReader::new(writer.data());
    assert_eq!(reader.read_header().unwrap_err(), DecodingError::InvalidSegmentLength);
}

#[test]
fn read_header_rejects_zero_scan_components() {
    let mut writer = JpegTestStreamWriter::new();
    writer.write_start_of_image();
    writer.write_start_of_frame_segment(1, 1, 2, 1);
    writer.write_segment(0xDA, &[0, 1, 0, 0]);
    let mut reader = JpegStreamReader::new(writer.data());
    assert_eq!(reader.read_header().unwrap_err(), DecodingError::InvalidFrameHeader);
}

#[test]
fn read_header_rejects_zero_width() {
    let mut writer = JpegTestStreamWriter::new();
    writer.write_start_of_image();
    writer.write_start_of_frame_segment(0, 1, 8, 1);
    let mut reader = JpegStreamReader::new(writer.data());
    assert_eq!(reader.read_header().unwrap_err(), DecodingError::InvalidFrameHeader);
}

#[test]
fn read_header_rejects_nonzero_table_selector() {
    // Component bytes with the reserved selector set to 1.
    let mut reader = JpegStreamReader::new(vec![
        0xFFu8, 0xD8, 0xFF, 0xF7, 0x00, 0x0B, 2, 0, 1, 0, 1, 1, 0, 0x11, 1,
    ]);
    assert_eq!(reader.read_header().unwrap_err(), DecodingError::InvalidFrameHeader);
}

#[test]
fn read_header_of_any_truncated_valid_stream_fails_with_end_of_stream() {
    let stream = minimal_valid_stream();
    for cut in 0..stream.len() {
        let mut reader = JpegStreamReader::new(stream[..cut].to_vec());
        assert_eq!(reader.read_header().unwrap_err(), DecodingError::UnexpectedEndOfStream);
    }
}

#[test]
fn next_marker_absorbs_any_number_of_fill_bytes() {
    for fills in 0..4 {
        let mut buffer = vec![0xFFu8; fills];
        buffer.extend_from_slice(&[0xFF, 0xD8]);
        let mut reader = JpegStreamReader::new(buffer);
        assert_eq!(reader.read_next_marker_code().unwrap(), JpegMarkerCode::StartOfImage);
    }
}

#[test]
fn read_header_result_is_insensitive_to_fill_bytes() {
    let plain = minimal_valid_stream();
    let mut padded = vec![0xFFu8, 0xFF, 0xFF];
    padded.extend_from_slice(&plain);
    let mut plain_reader = JpegStreamReader::new(plain);
    let mut padded_reader = JpegStreamReader::new(padded);
    assert_eq!(plain_reader.read_header(), padded_reader.read_header());
    assert_eq!(plain_reader.frame_info(), padded_reader.frame_info());
}

#[test]
fn next_marker_without_prefix_fails() {
    let mut reader = JpegStreamReader::new(vec![0xD8u8]);
    assert_eq!(reader.read_next_marker_code().unwrap_err(), DecodingError::MarkerPrefixNotFound);
}

#[test]
fn next_marker_on_exhausted_source_fails() {
    let mut reader = JpegStreamReader::new(Vec::new());
    assert_eq!(reader.read_next_marker_code().unwrap_err(), DecodingError::UnexpectedEndOfStream);
    let mut only_fills = JpegStreamReader::new(vec![0xFFu8, 0xFF]);
    assert_eq!(
        only_fills.read_next_marker_code().unwrap_err(),
        DecodingError::UnexpectedEndOfStream
    );
}

#[test]
fn next_marker_with_undefined_code_fails() {
    let mut reader = JpegStreamReader::new(vec![0xFFu8, 0x01]);
    assert_eq!(reader.read_next_marker_code().unwrap_err(), DecodingError::UnrecognizedMarker(0x01));
}

#[test]
fn decoder_owns_its_source() {
    let _decoder = Decoder::new(minimal_valid_stream());
}

#[test]
fn read_header_is_idempotent_once_scan_is_reached() {
    let mut reader = JpegStreamReader::new(minimal_valid_stream());
    assert!(reader.read_header().is_ok());
    let info = reader.frame_info();
    // A second call finds the header phase over and consumes nothing.
    assert!(reader.read_header().is_ok());
    assert_eq!(reader.frame_info(), info);
}
