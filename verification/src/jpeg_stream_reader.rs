//! The stream reader: sequential, byte-exact parsing of the marker-segment
//! prefix of a JPEG-LS stream, producing a validated `FrameInfo` and exposing
//! marker-by-marker iteration for callers that drive the state machine
//! themselves.

use vstd::prelude::*;

use crate::decoding_error::DecodingError;
use crate::jpeg_marker_code::JpegMarkerCode;
use crate::stream_model::frame_info_valid;
use crate::stream_model::lemma_first_non_fill_is;
use crate::stream_model::lemma_next_marker_bounds;
use crate::stream_model::lemma_read_segment_bounds;
use crate::stream_model::spec_next_marker;
use crate::stream_model::spec_read_header;
use crate::stream_model::spec_read_segment;
use crate::stream_model::spec_sof_frame;
use crate::stream_model::spec_sos_check;
use crate::stream_model::spec_u16_be;
use crate::stream_model::state_rank;

verus! {

/// The frame metadata a Start-Of-Frame segment declares. Zeroed at reader
/// construction; written exactly once, when a Start-Of-Frame segment is
/// successfully decoded, and immutable afterwards.
#[derive(Clone, Copy, Debug, PartialEq, Eq, Structural)]
pub struct FrameInfo {
    /// Samples per line, in pixels; positive once set.
    pub width: u32,
    /// Number of lines, in pixels; positive once set.
    pub height: u32,
    /// Bits per sample; in `[2, 16]` once set.
    pub bits_per_sample: u8,
    /// Number of image components in the frame; at least 1 once set.
    pub component_count: u8,
}

/// The section of the stream the reader is positioned in. A reader's state
/// only ever advances through this sequence, never backwards.
#[derive(Clone, Copy, Debug, PartialEq, Eq, Structural)]
pub enum ReaderState {
    /// Nothing consumed yet; the stream must open with Start-Of-Image.
    BeforeStartOfImage,
    /// Past Start-Of-Image, before the frame header.
    HeaderSection,
    /// Inside a SPIFF header; its fields are outside this profile.
    SpiffHeaderSection,
    /// Past a SPIFF header, before the frame header.
    ImageSection,
    /// Past a decoded Start-Of-Frame segment.
    FrameSection,
    /// Past the scan header; entropy-coded data follows.
    ScanSection,
    /// Inside the entropy-coded data.
    BitStreamSection,
    /// Past End-Of-Image; nothing more may follow.
    AfterEndOfImage,
}

/// Sole owner of the byte source, the current read position, the section
/// state and the decoded frame metadata.
#[derive(Debug)]
pub struct JpegStreamReader {
    data: Vec<u8>,
    position: usize,
    frame_info: FrameInfo,
    state: ReaderState,
}

impl JpegStreamReader {
    /// The bytes of the owned source.
    pub closed spec fn bytes(&self) -> Seq<u8> {
        self.data@
    }

    /// The read position: bytes before it have been consumed.
    pub closed spec fn pos(&self) -> int {
        self.position as int
    }

    /// The section of the stream the reader is positioned in.
    pub closed spec fn reader_state(&self) -> ReaderState {
        self.state
    }

    /// The decoded frame metadata; zeroed until a Start-Of-Frame segment has
    /// been decoded.
    pub closed spec fn frame(&self) -> FrameInfo {
        self.frame_info
    }

    /// The read position never passes the end of the source.
    pub open spec fn wf(&self) -> bool {
        self.pos() <= self.bytes().len()
    }

    /// Builds a reader over the given bytes, positioned at their start,
    /// before Start-Of-Image, with zeroed frame metadata.
    pub fn new(data: Vec<u8>) -> (r: JpegStreamReader)
        ensures
            r.wf(),
            r.bytes() == data@,
            r.pos() == 0,
            r.reader_state() == ReaderState::BeforeStartOfImage,
            r.frame() == (FrameInfo {
                width: 0,
                height: 0,
                bits_per_sample: 0,
                component_count: 0,
            }),
    {
        let width: u32 = 0;
        let height: u32 = 0;
        let bits_per_sample: u8 = 0;
        let component_count: u8 = 0;
        JpegStreamReader {
            data,
            position: 0,
            frame_info: FrameInfo { width, height, bits_per_sample, component_count },
            state: ReaderState::BeforeStartOfImage,
        }
    }

    /// Reads exactly one byte, or fails with `UnexpectedEndOfStream` when the
    /// source is exhausted, leaving the position unchanged.
    pub fn read_u8(&mut self) -> (r: Result<u8, DecodingError>)
        requires
            old(self).wf(),
        ensures
            final(self).wf(),
            final(self).bytes() == old(self).bytes(),
            final(self).reader_state() == old(self).reader_state(),
            final(self).frame() == old(self).frame(),
            old(self).pos() < old(self).bytes().len() ==> r == Ok::<u8, DecodingError>(
                old(self).bytes()[old(self).pos()],
            ) && final(self).pos() == old(self).pos() + 1,
            old(self).pos() >= old(self).bytes().len() ==> r == Err::<u8, DecodingError>(
                DecodingError::UnexpectedEndOfStream,
            ) && final(self).pos() == old(self).pos(),
    {
        if self.position < self.data.len() {
            let value = self.data[self.position];
            self.position = self.position + 1;
            Ok(value)
        } else {
            Err(DecodingError::UnexpectedEndOfStream)
        }
    }

    /// Reads a 2-byte big-endian value, or fails with
    /// `UnexpectedEndOfStream` at the end of the source.
    fn read_u16_be(&mut self) -> (r: Result<u16, DecodingError>)
        requires
            old(self).wf(),
        ensures
            final(self).wf(),
            final(self).bytes() == old(self).bytes(),
            final(self).reader_state() == old(self).reader_state(),
            final(self).frame() == old(self).frame(),
            old(self).pos() + 2 <= old(self).bytes().len() ==> r == Ok::<u16, DecodingError>(
                spec_u16_be(
                    old(self).bytes()[old(self).pos()],
                    old(self).bytes()[old(self).pos() + 1],
                ),
            ) && final(self).pos() == old(self).pos() + 2,
            old(self).pos() + 2 > old(self).bytes().len() ==> r == Err::<u16, DecodingError>(
                DecodingError::UnexpectedEndOfStream,
            ) && final(self).pos() == old(self).bytes().len(),
    {
        let hi = match self.read_u8() {
            Ok(b) => b,
            Err(e) => {
                return Err(e);
            },
        };
        let lo = match self.read_u8() {
            Ok(b) => b,
            Err(e) => {
                return Err(e);
            },
        };
        Ok((hi as u16) * 256 + (lo as u16))
    }

    /// Reads one length-prefixed segment: the 2-byte big-endian declared
    /// length (which counts itself), then the declared payload. Fails with
    /// `InvalidSegmentLength` when the declared length is under
    /// `min_declared`, and with `UnexpectedEndOfStream` when the source ends
    /// before the declared bytes arrive.
    fn read_segment_payload(&mut self, min_declared: u16) -> (r: Result<Vec<u8>, DecodingError>)
        requires
            old(self).wf(),
            min_declared >= 2,
        ensures
            final(self).wf(),
            final(self).bytes() == old(self).bytes(),
            final(self).reader_state() == old(self).reader_state(),
            final(self).frame() == old(self).frame(),
            final(self).pos() == spec_read_segment(
                old(self).bytes(),
                old(self).pos(),
                min_declared as int,
            ).0,
            (match spec_read_segment(old(self).bytes(), old(self).pos(), min_declared as int).1 {
                Ok(payload) => r matches Ok(v) && v@ == payload,
                Err(e) => r == Err::<Vec<u8>, DecodingError>(e),
            }),
    {
        let ghost gdata: Seq<u8> = self.bytes();
        let declared = match self.read_u16_be() {
            Ok(l) => l,
            Err(e) => {
                return Err(e);
            },
        };
        if declared < min_declared {
            return Err(DecodingError::InvalidSegmentLength);
        }
        let body_len = (declared - 2) as usize;
        if body_len > self.data.len() - self.position {
            self.position = self.data.len();
            return Err(DecodingError::UnexpectedEndOfStream);
        }
        let start = self.position;
        let total = self.data.len();
        let mut payload: Vec<u8> = Vec::new();
        let mut i: usize = 0;
        while i < body_len
            invariant
                self.wf(),
                self.bytes() == gdata,
                self.bytes() == old(self).bytes(),
                self.reader_state() == old(self).reader_state(),
                self.frame() == old(self).frame(),
                i <= body_len,
                start == self.pos(),
                total == gdata.len(),
                start + body_len <= gdata.len(),
                payload@.len() == i,
                forall|j: int| 0 <= j < i ==> payload@[j] == gdata[start + j],
            decreases body_len - i,
        {
            payload.push(self.data[start + i]);
            i = i + 1;
        }
        self.position = self.position + body_len;
        proof {
            assert(payload@ =~= gdata.subrange(start as int, start + body_len));
        }
        Ok(payload)
    }

    /// Decodes a fully read Start-Of-Frame payload into frame metadata,
    /// validating the component structure and the field ranges.
    fn decode_sof_payload(payload: &Vec<u8>) -> (r: Result<FrameInfo, DecodingError>)
        requires
            payload@.len() >= 6,
        ensures
            r == spec_sof_frame(payload@),
    {
        let count = payload[5];
        if payload.len() != 6 + 3 * (count as usize) {
            return Err(DecodingError::InvalidSegmentLength);
        }
        if count == 0 {
            return Err(DecodingError::InvalidFrameHeader);
        }
        let precision = payload[0];
        if precision < 2 || precision > 16 {
            return Err(DecodingError::InvalidFrameHeader);
        }
        let height = (payload[1] as u16) * 256 + (payload[2] as u16);
        let width = (payload[3] as u16) * 256 + (payload[4] as u16);
        if width == 0 || height == 0 {
            return Err(DecodingError::InvalidFrameHeader);
        }
        let mut i: usize = 0;
        while i < count as usize
            invariant
                payload@.len() == 6 + 3 * (count as int),
                count != 0,
                2 <= precision <= 16,
                precision == payload@[0],
                height == spec_u16_be(payload@[1], payload@[2]),
                width == spec_u16_be(payload@[3], payload@[4]),
                count == payload@[5],
                width != 0,
                height != 0,
                i <= count as usize,
                forall|j: int| 0 <= j < i ==> #[trigger] payload@[6 + 3 * j + 2] == 0,
            decreases count as usize - i,
        {
            if payload[6 + 3 * i + 2] != 0 {
                proof {
                    assert(!crate::stream_model::spec_sof_selectors_zero(
                        payload@,
                        count as int,
                    )) by {
                        assert(payload@[6 + 3 * (i as int) + 2] != 0);
                    }
                }
                return Err(DecodingError::InvalidFrameHeader);
            }
            i = i + 1;
        }
        Ok(
            FrameInfo {
                width: width as u32,
                height: height as u32,
                bits_per_sample: precision,
                component_count: count,
            },
        )
    }

    /// Checks the structure of a fully read Start-Of-Scan payload.
    fn check_sos_payload(payload: &Vec<u8>) -> (r: Result<(), DecodingError>)
        requires
            payload@.len() >= 4,
        ensures
            r == spec_sos_check(payload@),
    {
        let count = payload[0];
        if payload.len() != 4 + 2 * (count as usize) {
            return Err(DecodingError::InvalidSegmentLength);
        }
        if count == 0 {
            return Err(DecodingError::InvalidFrameHeader);
        }
        Ok(())
    }

    /// Reads exactly one marker: one byte that must be the `0xFF` prefix
    /// (else the call fails with `MarkerPrefixNotFound`), then every further
    /// `0xFF` fill byte is silently absorbed, and the first other byte is
    /// resolved through the marker catalog. The position advances by every
    /// byte consumed; the call is not repeatable for the same bytes.
    pub fn read_next_marker_code(&mut self) -> (r: Result<JpegMarkerCode, DecodingError>)
        requires
            old(self).wf(),
        ensures
            final(self).wf(),
            final(self).bytes() == old(self).bytes(),
            final(self).reader_state() == old(self).reader_state(),
            final(self).frame() == old(self).frame(),
            final(self).pos() == spec_next_marker(old(self).bytes(), old(self).pos()).0,
            r == spec_next_marker(old(self).bytes(), old(self).pos()).1,
    {
        let ghost gdata: Seq<u8> = self.bytes();
        let ghost gpos: int = self.pos();
        let ghost gstate: ReaderState = self.reader_state();
        let ghost gframe: FrameInfo = self.frame();
        let first = match self.read_u8() {
            Ok(b) => b,
            Err(e) => {
                return Err(e);
            },
        };
        if first != 0xFF {
            return Err(DecodingError::MarkerPrefixNotFound);
        }
        let mut value: u8 = first;
        while value == 0xFF
            invariant
                self.wf(),
                self.bytes() == gdata,
                self.bytes() == old(self).bytes(),
                self.reader_state() == old(self).reader_state(),
                self.frame() == old(self).frame(),
                gpos == old(self).pos(),
                self.reader_state() == gstate,
                self.frame() == gframe,
                0 <= gpos < gdata.len(),
                gpos + 1 <= self.pos() <= gdata.len(),
                gdata[gpos] == 0xFF,
                value == gdata[self.pos() - 1],
                forall|k: int| gpos <= k < self.pos() - 1 ==> gdata[k] == 0xFF,
            decreases gdata.len() - self.pos(),
        {
            value = match self.read_u8() {
                Ok(b) => b,
                Err(e) => {
                    proof {
                        lemma_first_non_fill_is(gdata, gpos, gdata.len() as int);
                    }
                    return Err(e);
                },
            };
        }
        proof {
            lemma_first_non_fill_is(gdata, gpos, self.pos() - 1);
        }
        JpegMarkerCode::lookup(value)
    }

    /// Parses the marker-segment prefix of the stream, as far as the current
    /// state still asks for it: demands Start-Of-Image first, skips the
    /// segments that are legal padding of the header, decodes Start-Of-Frame
    /// into the frame metadata, and stops once the scan header or
    /// End-Of-Image has been consumed. On an error the section state is left
    /// at the last state successfully reached. The state never moves
    /// backwards, and the frame metadata changes only by a decoded
    /// Start-Of-Frame segment, to values the format allows.
    pub fn read_header(&mut self) -> (r: Result<(), DecodingError>)
        requires
            old(self).wf(),
        ensures
            final(self).wf(),
            final(self).bytes() == old(self).bytes(),
            ({
                let t = spec_read_header(
                    old(self).bytes(),
                    old(self).pos(),
                    old(self).reader_state(),
                    old(self).frame(),
                );
                final(self).pos() == t.0 && final(self).reader_state() == t.1
                    && final(self).frame() == t.2 && r == t.3
            }),
            state_rank(final(self).reader_state()) >= state_rank(old(self).reader_state()),
            final(self).frame() != old(self).frame() ==> state_rank(final(self).reader_state())
                >= state_rank(ReaderState::FrameSection) && frame_info_valid(final(self).frame()),
    {
        let ghost gdata: Seq<u8> = self.bytes();
        let ghost gpos: int = self.pos();
        let ghost gstate: ReaderState = self.reader_state();
        let ghost gframe: FrameInfo = self.frame();
        loop
            invariant
                self.wf(),
                self.bytes() == gdata,
                gdata == old(self).bytes(),
                gpos == old(self).pos(),
                gstate == old(self).reader_state(),
                gframe == old(self).frame(),
                0 <= gpos <= gdata.len(),
                spec_read_header(gdata, self.pos(), self.reader_state(), self.frame())
                    == spec_read_header(gdata, gpos, gstate, gframe),
                state_rank(self.reader_state()) >= state_rank(gstate),
                self.frame() != gframe ==> state_rank(self.reader_state()) >= state_rank(
                    ReaderState::FrameSection,
                ) && frame_info_valid(self.frame()),
            decreases gdata.len() - self.pos(),
        {
            let ghost ipos: int = self.pos();
            let ghost istate: ReaderState = self.reader_state();
            let ghost iframe: FrameInfo = self.frame();
            let current = self.state;
            match current {
                ReaderState::BeforeStartOfImage => {
                    let marker = match self.read_next_marker_code() {
                        Ok(m) => m,
                        Err(e) => {
                            return Err(e);
                        },
                    };
                    if marker != JpegMarkerCode::StartOfImage {
                        return Err(DecodingError::StartOfImageMarkerNotFound);
                    }
                    self.state = ReaderState::HeaderSection;
                    proof {
                        lemma_next_marker_bounds(gdata, ipos);
                    }
                },
                ReaderState::HeaderSection => {
                    let marker = match self.read_next_marker_code() {
                        Ok(m) => m,
                        Err(e) => {
                            return Err(e);
                        },
                    };
                    match marker {
                        JpegMarkerCode::EndOfImage => {
                            self.state = ReaderState::AfterEndOfImage;
                            return Ok(());
                        },
                        JpegMarkerCode::StartOfFrameJpegls => {
                            let ghost mpos: int = self.pos();
                            let payload = match self.read_segment_payload(8) {
                                Ok(p) => p,
                                Err(e) => {
                                    return Err(e);
                                },
                            };
                            let decoded = match Self::decode_sof_payload(&payload) {
                                Ok(f) => f,
                                Err(e) => {
                                    return Err(e);
                                },
                            };
                            self.frame_info = decoded;
                            self.state = ReaderState::FrameSection;
                            proof {
                                lemma_next_marker_bounds(gdata, ipos);
                                lemma_read_segment_bounds(gdata, mpos, 8);
                            }
                        },
                        JpegMarkerCode::ApplicationData(_) | JpegMarkerCode::Comment
                        | JpegMarkerCode::JpeglsPresetParameters
                        | JpegMarkerCode::DefineRestartInterval => {
                            let ghost mpos: int = self.pos();
                            match self.read_segment_payload(2) {
                                Ok(_) => {},
                                Err(e) => {
                                    return Err(e);
                                },
                            }
                            proof {
                                lemma_next_marker_bounds(gdata, ipos);
                                lemma_read_segment_bounds(gdata, mpos, 2);
                            }
                        },
                        _ => {
                            return Err(
                                DecodingError::UnexpectedMarker {
                                    context: ReaderState::HeaderSection,
                                    found: marker,
                                },
                            );
                        },
                    }
                },
                ReaderState::FrameSection => {
                    let marker = match self.read_next_marker_code() {
                        Ok(m) => m,
                        Err(e) => {
                            return Err(e);
                        },
                    };
                    match marker {
                        JpegMarkerCode::EndOfImage => {
                            self.state = ReaderState::AfterEndOfImage;
                            return Ok(());
                        },
                        JpegMarkerCode::StartOfScan => {
                            let payload = match self.read_segment_payload(6) {
                                Ok(p) => p,
                                Err(e) => {
                                    return Err(e);
                                },
                            };
                            match Self::check_sos_payload(&payload) {
                                Ok(_) => {},
                                Err(e) => {
                                    return Err(e);
                                },
                            }
                            self.state = ReaderState::ScanSection;
                            return Ok(());
                        },
                        JpegMarkerCode::ApplicationData(_) | JpegMarkerCode::Comment
                        | JpegMarkerCode::JpeglsPresetParameters
                        | JpegMarkerCode::DefineRestartInterval => {
                            let ghost mpos: int = self.pos();
                            match self.read_segment_payload(2) {
                                Ok(_) => {},
                                Err(e) => {
                                    return Err(e);
                                },
                            }
                            proof {
                                lemma_next_marker_bounds(gdata, ipos);
                                lemma_read_segment_bounds(gdata, mpos, 2);
                            }
                        },
                        _ => {
                            return Err(
                                DecodingError::UnexpectedMarker {
                                    context: ReaderState::FrameSection,
                                    found: marker,
                                },
                            );
                        },
                    }
                },
                _ => {
                    return Ok(());
                },
            }
        }
    }

    /// Read-only access to the decoded frame metadata; meaningful only once
    /// the state has reached `FrameSection` or later.
    pub fn frame_info(&self) -> (r: FrameInfo)
        ensures
            r == self.frame(),
    {
        self.frame_info
    }
}

} // verus!
