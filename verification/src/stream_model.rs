//! The mathematical model of the parse: spec functions that say, byte for
//! byte, what each reader operation consumes and returns, and what
//! `read_header` leaves behind. The reader's contracts are stated against
//! these functions.

use vstd::prelude::*;

use crate::decoding_error::DecodingError;
use crate::jpeg_marker_code::JpegMarkerCode;
use crate::jpeg_marker_code::spec_lookup;
use crate::jpeg_stream_reader::FrameInfo;
use crate::jpeg_stream_reader::ReaderState;

verus! {

/// The index of the first byte at or after `pos` that is not a `0xFF` fill
/// byte, or the length of the data when every remaining byte is `0xFF`.
pub open spec fn first_non_fill(data: Seq<u8>, pos: int) -> int
    decreases data.len() - pos,
    when 0 <= pos <= data.len()
{
    if pos >= data.len() {
        data.len() as int
    } else if data[pos] != 0xFF {
        pos
    } else {
        first_non_fill(data, pos + 1)
    }
}

/// Bounds of `first_non_fill`: it lies between `pos` and the end, every byte
/// before it is a fill byte, and the byte at it (when in range) is not.
pub proof fn lemma_first_non_fill_bounds(data: Seq<u8>, pos: int)
    requires
        0 <= pos <= data.len(),
    ensures
        pos <= first_non_fill(data, pos) <= data.len(),
        first_non_fill(data, pos) < data.len() ==> data[first_non_fill(data, pos)] != 0xFF,
        forall|k: int| pos <= k < first_non_fill(data, pos) ==> data[k] == 0xFF,
    decreases data.len() - pos,
{
    if pos < data.len() && data[pos] == 0xFF {
        lemma_first_non_fill_bounds(data, pos + 1);
    }
}

/// `first_non_fill` is pinned down by a witness: if every byte of
/// `[pos, stop)` is a fill byte and `stop` is the end or holds a non-fill
/// byte, then `stop` is the first non-fill index.
pub proof fn lemma_first_non_fill_is(data: Seq<u8>, pos: int, stop: int)
    requires
        0 <= pos <= stop <= data.len(),
        forall|k: int| pos <= k < stop ==> data[k] == 0xFF,
        stop == data.len() || data[stop] != 0xFF,
    ensures
        first_non_fill(data, pos) == stop,
    decreases stop - pos,
{
    if pos < stop {
        lemma_first_non_fill_is(data, pos + 1, stop);
    }
}

/// Fill bytes do not move `first_non_fill`: when every byte of
/// `[pos, stop)` is `0xFF`, scanning from `pos` and from `stop` find the
/// same first non-fill index.
pub proof fn lemma_first_non_fill_skips_fill(data: Seq<u8>, pos: int, stop: int)
    requires
        0 <= pos <= stop <= data.len(),
        forall|k: int| pos <= k < stop ==> data[k] == 0xFF,
    ensures
        first_non_fill(data, pos) == first_non_fill(data, stop),
    decreases stop - pos,
{
    if pos < stop {
        lemma_first_non_fill_skips_fill(data, pos + 1, stop);
    }
}

/// Scanning a concatenation from inside its back part sees only the back
/// part: the first non-fill index shifts by the front part's length.
pub proof fn lemma_first_non_fill_concat(front: Seq<u8>, back: Seq<u8>, pos: int)
    requires
        0 <= pos <= back.len(),
    ensures
        first_non_fill(front + back, front.len() + pos) == front.len() + first_non_fill(
            back,
            pos,
        ),
    decreases back.len() - pos,
{
    if pos < back.len() && back[pos] == 0xFF {
        lemma_first_non_fill_concat(front, back, pos + 1);
    }
}

/// What one marker read consumes and returns, from `pos`: the position after
/// the call and the marker code or the failure. A read consumes the `0xFF`
/// prefix, every further `0xFF` fill byte, and one code byte; a first byte
/// that is not `0xFF` is consumed and reported as a missing prefix.
pub open spec fn spec_next_marker(data: Seq<u8>, pos: int) -> (
    int,
    Result<JpegMarkerCode, DecodingError>,
) {
    if pos >= data.len() {
        (pos, Err(DecodingError::UnexpectedEndOfStream))
    } else if data[pos] != 0xFF {
        (pos + 1, Err(DecodingError::MarkerPrefixNotFound))
    } else {
        let code_at = first_non_fill(data, pos);
        if code_at >= data.len() {
            (data.len() as int, Err(DecodingError::UnexpectedEndOfStream))
        } else {
            (code_at + 1, spec_lookup(data[code_at]))
        }
    }
}

/// A marker read never moves the position backwards or past the end, and a
/// successful read consumes at least the prefix and the code byte.
pub proof fn lemma_next_marker_bounds(data: Seq<u8>, pos: int)
    requires
        0 <= pos <= data.len(),
    ensures
        pos <= spec_next_marker(data, pos).0 <= data.len(),
        spec_next_marker(data, pos).1 is Ok ==> spec_next_marker(data, pos).0 >= pos + 2,
{
    if pos < data.len() && data[pos] == 0xFF {
        lemma_first_non_fill_bounds(data, pos);
    }
}

/// The big-endian value of two bytes.
pub open spec fn spec_u16_be(hi: u8, lo: u8) -> u16 {
    ((hi as int) * 256 + (lo as int)) as u16
}

/// What reading one length-prefixed segment consumes and returns, from
/// `pos`: the 2-byte big-endian declared length counts itself, so the
/// payload is the declared length minus 2 further bytes. A declared length
/// under `min` (the fixed fields of the marker kind, plus 2) is an
/// `InvalidSegmentLength`; a source exhausted before the declared bytes
/// arrive is an `UnexpectedEndOfStream`.
pub open spec fn spec_read_segment(data: Seq<u8>, pos: int, min: int) -> (
    int,
    Result<Seq<u8>, DecodingError>,
) {
    if pos + 2 > data.len() {
        (data.len() as int, Err(DecodingError::UnexpectedEndOfStream))
    } else {
        let declared = spec_u16_be(data[pos], data[pos + 1]) as int;
        if declared < min {
            (pos + 2, Err(DecodingError::InvalidSegmentLength))
        } else if pos + declared > data.len() {
            (data.len() as int, Err(DecodingError::UnexpectedEndOfStream))
        } else {
            (pos + declared, Ok(data.subrange(pos + 2, pos + declared)))
        }
    }
}

/// A segment read never moves the position backwards or past the end, and a
/// successful read consumes at least `min` bytes.
pub proof fn lemma_read_segment_bounds(data: Seq<u8>, pos: int, min: int)
    requires
        0 <= pos <= data.len(),
        min >= 2,
    ensures
        pos <= spec_read_segment(data, pos, min).0 <= data.len(),
        spec_read_segment(data, pos, min).1 is Ok ==> spec_read_segment(data, pos, min).0 >= pos
            + min,
{
}

/// The smallest declared length of a Start-Of-Frame segment: 2 for the
/// length field, then precision (1), height (2), width (2) and component
/// count (1).
pub open spec fn sof_min_declared_length() -> int {
    8
}

/// The smallest declared length of a Start-Of-Scan segment: 2 for the length
/// field, then component count (1), near-lossless tolerance (1), interleave
/// mode (1) and point transformation (1).
pub open spec fn sos_min_declared_length() -> int {
    6
}

/// Whether the reserved table selector of each of the first `count`
/// components of a Start-Of-Frame payload is 0, as this profile requires.
pub open spec fn spec_sof_selectors_zero(payload: Seq<u8>, count: int) -> bool {
    forall|i: int| 0 <= i < count ==> #[trigger] payload[6 + 3 * i + 2] == 0
}

/// What decoding a Start-Of-Frame payload (its declared length minus 2
/// bytes, fully read) yields. Fixed fields in big-endian order: 1 byte
/// sample precision, 2 bytes height, 2 bytes width, 1 byte component count,
/// then 3 bytes per component (identifier, sampling factors, table
/// selector). A payload that does not hold exactly its components is an
/// `InvalidSegmentLength`; a field value outside the format's constraints is
/// an `InvalidFrameHeader`.
pub open spec fn spec_sof_frame(payload: Seq<u8>) -> Result<FrameInfo, DecodingError>
    recommends
        payload.len() >= 6,
{
    let precision = payload[0];
    let height = spec_u16_be(payload[1], payload[2]);
    let width = spec_u16_be(payload[3], payload[4]);
    let count = payload[5];
    if payload.len() != 6 + 3 * (count as int) {
        Err(DecodingError::InvalidSegmentLength)
    } else if count == 0 {
        Err(DecodingError::InvalidFrameHeader)
    } else if precision < 2 || precision > 16 {
        Err(DecodingError::InvalidFrameHeader)
    } else if width == 0 || height == 0 {
        Err(DecodingError::InvalidFrameHeader)
    } else if !spec_sof_selectors_zero(payload, count as int) {
        Err(DecodingError::InvalidFrameHeader)
    } else {
        Ok(
            FrameInfo {
                width: width as u32,
                height: height as u32,
                bits_per_sample: precision,
                component_count: count,
            },
        )
    }
}

/// The more significant byte of a 16-bit value in big-endian order.
pub open spec fn spec_be_hi(value: u16) -> u8 {
    (value / 256) as u8
}

/// The less significant byte of a 16-bit value in big-endian order.
pub open spec fn spec_be_lo(value: u16) -> u8 {
    (value % 256) as u8
}

/// The component bytes of a canonical Start-Of-Frame payload: for each
/// component in order, its identifier, sampling factors `0x11`, and the
/// reserved table selector 0.
pub open spec fn spec_sof_components(count: int) -> Seq<u8>
    decreases count,
{
    if count <= 0 {
        Seq::empty()
    } else {
        spec_sof_components(count - 1) + seq![(count - 1) as u8, 0x11u8, 0u8]
    }
}

/// The canonical encoding of a Start-Of-Frame payload with the given frame
/// metadata: the fixed fields in big-endian order, then 3 bytes for each
/// component.
pub open spec fn spec_sof_payload(width: u16, height: u16, precision: u8, count: u8) -> Seq<u8> {
    seq![
        precision,
        spec_be_hi(height),
        spec_be_lo(height),
        spec_be_hi(width),
        spec_be_lo(width),
        count,
    ] + spec_sof_components(count as int)
}

/// What checking a Start-Of-Scan payload yields: the payload must hold
/// exactly its component count byte, 2 bytes per component, and the 3
/// trailing coding parameters, and must name at least one component.
pub open spec fn spec_sos_check(payload: Seq<u8>) -> Result<(), DecodingError>
    recommends
        payload.len() >= 4,
{
    let count = payload[0];
    if payload.len() != 4 + 2 * (count as int) {
        Err(DecodingError::InvalidSegmentLength)
    } else if count == 0 {
        Err(DecodingError::InvalidFrameHeader)
    } else {
        Ok(())
    }
}

/// The ranges the format allows of frame metadata once a Start-Of-Frame
/// segment has set it: dimensions are 16-bit and positive, the sample
/// precision lies in `[2, 16]`, and at least one component is declared.
pub open spec fn frame_info_valid(frame: FrameInfo) -> bool {
    &&& 1 <= frame.width <= 0xFFFF
    &&& 1 <= frame.height <= 0xFFFF
    &&& 2 <= frame.bits_per_sample <= 16
    &&& 1 <= frame.component_count
}

/// The position of a section state in the reader's one-way sequence.
pub open spec fn state_rank(state: ReaderState) -> int {
    match state {
        ReaderState::BeforeStartOfImage => 0,
        ReaderState::HeaderSection => 1,
        ReaderState::SpiffHeaderSection => 2,
        ReaderState::ImageSection => 3,
        ReaderState::FrameSection => 4,
        ReaderState::ScanSection => 5,
        ReaderState::BitStreamSection => 6,
        ReaderState::AfterEndOfImage => 7,
    }
}

/// Whether `read_header` still has markers to consume in this state. In the
/// other states the header phase is over (or was never entered at this
/// profile's transitions) and `read_header` returns at once.
pub open spec fn header_phase_active(state: ReaderState) -> bool {
    match state {
        ReaderState::BeforeStartOfImage => true,
        ReaderState::HeaderSection => true,
        ReaderState::FrameSection => true,
        _ => false,
    }
}

/// Whether a marker opens a segment that `read_header` skips by its declared
/// length inside the header and frame sections.
pub open spec fn skippable_in_header(marker: JpegMarkerCode) -> bool {
    match marker {
        JpegMarkerCode::ApplicationData(_) => true,
        JpegMarkerCode::Comment => true,
        JpegMarkerCode::JpeglsPresetParameters => true,
        JpegMarkerCode::DefineRestartInterval => true,
        _ => false,
    }
}

/// What `read_header` consumes, decides and returns, from a reader at `pos`
/// in `state` holding `frame`: the position after the call, the state after
/// the call, the frame metadata after the call, and the result. The state
/// changes only on a successful transition, so on an error it is the state
/// last reached; the frame changes only when a Start-Of-Frame segment is
/// decoded.
pub open spec fn spec_read_header(data: Seq<u8>, pos: int, state: ReaderState, frame: FrameInfo)
    -> (int, ReaderState, FrameInfo, Result<(), DecodingError>)
    decreases data.len() - pos,
    when 0 <= pos <= data.len()
{
    if !header_phase_active(state) {
        (pos, state, frame, Ok(()))
    } else {
        let marker_read = spec_next_marker(data, pos);
        let after_marker = marker_read.0;
        match marker_read.1 {
            Err(e) => (after_marker, state, frame, Err(e)),
            Ok(marker) => match state {
                ReaderState::BeforeStartOfImage => {
                    if marker != JpegMarkerCode::StartOfImage {
                        (after_marker, state, frame, Err(DecodingError::StartOfImageMarkerNotFound))
                    } else {
                        proof {
                            lemma_next_marker_bounds(data, pos);
                        }
                        spec_read_header(data, after_marker, ReaderState::HeaderSection, frame)
                    }
                },
                ReaderState::HeaderSection => {
                    if marker == JpegMarkerCode::EndOfImage {
                        (after_marker, ReaderState::AfterEndOfImage, frame, Ok(()))
                    } else if marker == JpegMarkerCode::StartOfFrameJpegls {
                        let segment_read = spec_read_segment(
                            data,
                            after_marker,
                            sof_min_declared_length(),
                        );
                        let after_segment = segment_read.0;
                        match segment_read.1 {
                            Err(e) => (after_segment, state, frame, Err(e)),
                            Ok(payload) => match spec_sof_frame(payload) {
                                Err(e) => (after_segment, state, frame, Err(e)),
                                Ok(decoded) => {
                                    proof {
                                        lemma_next_marker_bounds(data, pos);
                                        lemma_read_segment_bounds(
                                            data,
                                            after_marker,
                                            sof_min_declared_length(),
                                        );
                                    }
                                    spec_read_header(
                                        data,
                                        after_segment,
                                        ReaderState::FrameSection,
                                        decoded,
                                    )
                                },
                            },
                        }
                    } else if skippable_in_header(marker) {
                        let segment_read = spec_read_segment(data, after_marker, 2);
                        let after_segment = segment_read.0;
                        match segment_read.1 {
                            Err(e) => (after_segment, state, frame, Err(e)),
                            Ok(_) => {
                                proof {
                                    lemma_next_marker_bounds(data, pos);
                                    lemma_read_segment_bounds(data, after_marker, 2);
                                }
                                spec_read_header(data, after_segment, state, frame)
                            },
                        }
                    } else {
                        (
                            after_marker,
                            state,
                            frame,
                            Err(DecodingError::UnexpectedMarker { context: state, found: marker }),
                        )
                    }
                },
                ReaderState::FrameSection => {
                    if marker == JpegMarkerCode::EndOfImage {
                        (after_marker, ReaderState::AfterEndOfImage, frame, Ok(()))
                    } else if marker == JpegMarkerCode::StartOfScan {
                        let segment_read = spec_read_segment(
                            data,
                            after_marker,
                            sos_min_declared_length(),
                        );
                        let after_segment = segment_read.0;
                        match segment_read.1 {
                            Err(e) => (after_segment, state, frame, Err(e)),
                            Ok(payload) => match spec_sos_check(payload) {
                                Err(e) => (after_segment, state, frame, Err(e)),
                                Ok(_) => (after_segment, ReaderState::ScanSection, frame, Ok(())),
                            },
                        }
                    } else if skippable_in_header(marker) {
                        let segment_read = spec_read_segment(data, after_marker, 2);
                        let after_segment = segment_read.0;
                        match segment_read.1 {
                            Err(e) => (after_segment, state, frame, Err(e)),
                            Ok(_) => {
                                proof {
                                    lemma_next_marker_bounds(data, pos);
                                    lemma_read_segment_bounds(data, after_marker, 2);
                                }
                                spec_read_header(data, after_segment, state, frame)
                            },
                        }
                    } else {
                        (
                            after_marker,
                            state,
                            frame,
                            Err(DecodingError::UnexpectedMarker { context: state, found: marker }),
                        )
                    }
                },
                _ => (pos, state, frame, Ok(())),
            },
        }
    }
}

/// `read_header` never moves the position backwards or past the end.
pub proof fn lemma_read_header_pos_bounds(
    data: Seq<u8>,
    pos: int,
    state: ReaderState,
    frame: FrameInfo,
)
    requires
        0 <= pos <= data.len(),
    ensures
        pos <= spec_read_header(data, pos, state, frame).0 <= data.len(),
    decreases data.len() - pos,
{
    if header_phase_active(state) {
        lemma_next_marker_bounds(data, pos);
        let marker_read = spec_next_marker(data, pos);
        let after_marker = marker_read.0;
        if marker_read.1 is Ok {
            let marker = marker_read.1->Ok_0;
            match state {
                ReaderState::BeforeStartOfImage => {
                    if marker == JpegMarkerCode::StartOfImage {
                        lemma_read_header_pos_bounds(
                            data,
                            after_marker,
                            ReaderState::HeaderSection,
                            frame,
                        );
                    }
                },
                ReaderState::HeaderSection => {
                    if marker == JpegMarkerCode::StartOfFrameJpegls {
                        lemma_read_segment_bounds(data, after_marker, sof_min_declared_length());
                        let segment_read = spec_read_segment(
                            data,
                            after_marker,
                            sof_min_declared_length(),
                        );
                        if segment_read.1 is Ok {
                            let payload = segment_read.1->Ok_0;
                            if spec_sof_frame(payload) is Ok {
                                lemma_read_header_pos_bounds(
                                    data,
                                    segment_read.0,
                                    ReaderState::FrameSection,
                                    spec_sof_frame(payload)->Ok_0,
                                );
                            }
                        }
                    } else if skippable_in_header(marker) {
                        lemma_read_segment_bounds(data, after_marker, 2);
                        let segment_read = spec_read_segment(data, after_marker, 2);
                        if segment_read.1 is Ok {
                            lemma_read_header_pos_bounds(data, segment_read.0, state, frame);
                        }
                    }
                },
                ReaderState::FrameSection => {
                    if marker == JpegMarkerCode::StartOfScan {
                        lemma_read_segment_bounds(data, after_marker, sos_min_declared_length());
                    } else if skippable_in_header(marker) {
                        lemma_read_segment_bounds(data, after_marker, 2);
                        let segment_read = spec_read_segment(data, after_marker, 2);
                        if segment_read.1 is Ok {
                            lemma_read_header_pos_bounds(data, segment_read.0, state, frame);
                        }
                    }
                },
                _ => {},
            }
        }
    }
}

} // verus!
