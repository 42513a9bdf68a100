//! Laws of the parse model: properties that hold of every stream, proved
//! against the spec functions the reader's contracts are stated over.

use vstd::prelude::*;

use crate::decoding_error::DecodingError;
use crate::jpeg_marker_code::JpegMarkerCode;
use crate::jpeg_stream_reader::FrameInfo;
use crate::jpeg_stream_reader::ReaderState;
use crate::stream_model::first_non_fill;
use crate::stream_model::header_phase_active;
use crate::stream_model::lemma_first_non_fill_bounds;
use crate::stream_model::lemma_first_non_fill_concat;
use crate::stream_model::lemma_first_non_fill_is;
use crate::stream_model::lemma_first_non_fill_skips_fill;
use crate::stream_model::lemma_next_marker_bounds;
use crate::stream_model::lemma_read_segment_bounds;
use crate::stream_model::skippable_in_header;
use crate::stream_model::sof_min_declared_length;
use crate::stream_model::sos_min_declared_length;
use crate::stream_model::spec_be_hi;
use crate::stream_model::spec_be_lo;
use crate::stream_model::spec_next_marker;
use crate::stream_model::spec_read_header;
use crate::stream_model::spec_read_segment;
use crate::stream_model::spec_sof_components;
use crate::stream_model::spec_sof_frame;
use crate::stream_model::spec_sof_payload;
use crate::stream_model::spec_sof_selectors_zero;
use crate::stream_model::spec_u16_be;
use crate::stream_model::state_rank;

verus! {

/// The section state only ever advances: whatever `read_header` consumes,
/// the state it leaves is at or past the state it started from.
pub proof fn lemma_read_header_monotonic(
    data: Seq<u8>,
    pos: int,
    state: ReaderState,
    frame: FrameInfo,
)
    requires
        0 <= pos <= data.len(),
    ensures
        state_rank(spec_read_header(data, pos, state, frame).1) >= state_rank(state),
    decreases data.len() - pos,
{
    if header_phase_active(state) {
        lemma_next_marker_bounds(data, pos);
        let nm = spec_next_marker(data, pos);
        if nm.1 is Ok {
            let marker = nm.1->Ok_0;
            match state {
                ReaderState::BeforeStartOfImage => {
                    if marker == JpegMarkerCode::StartOfImage {
                        lemma_read_header_monotonic(data, nm.0, ReaderState::HeaderSection, frame);
                    }
                },
                ReaderState::HeaderSection => {
                    if marker == JpegMarkerCode::StartOfFrameJpegls {
                        lemma_read_segment_bounds(data, nm.0, sof_min_declared_length());
                        let seg = spec_read_segment(data, nm.0, sof_min_declared_length());
                        if seg.1 is Ok && spec_sof_frame(seg.1->Ok_0) is Ok {
                            lemma_read_header_monotonic(
                                data,
                                seg.0,
                                ReaderState::FrameSection,
                                spec_sof_frame(seg.1->Ok_0)->Ok_0,
                            );
                        }
                    } else if skippable_in_header(marker) {
                        lemma_read_segment_bounds(data, nm.0, 2);
                        let seg = spec_read_segment(data, nm.0, 2);
                        if seg.1 is Ok {
                            lemma_read_header_monotonic(data, seg.0, state, frame);
                        }
                    }
                },
                ReaderState::FrameSection => {
                    if marker == JpegMarkerCode::StartOfScan {
                        lemma_read_segment_bounds(data, nm.0, sos_min_declared_length());
                    } else if skippable_in_header(marker) {
                        lemma_read_segment_bounds(data, nm.0, 2);
                        let seg = spec_read_segment(data, nm.0, 2);
                        if seg.1 is Ok {
                            lemma_read_header_monotonic(data, seg.0, state, frame);
                        }
                    }
                },
                _ => {},
            }
        }
    }
}

/// Once the header phase is over — the scan header or End-Of-Image has been
/// consumed — `read_header` is idempotent: it consumes nothing, changes
/// nothing and succeeds.
pub proof fn lemma_read_header_idempotent_when_done(
    data: Seq<u8>,
    pos: int,
    state: ReaderState,
    frame: FrameInfo,
)
    requires
        0 <= pos <= data.len(),
        !header_phase_active(state),
    ensures
        spec_read_header(data, pos, state, frame).0 == pos,
        spec_read_header(data, pos, state, frame).1 == state,
        spec_read_header(data, pos, state, frame).2 == frame,
        spec_read_header(data, pos, state, frame).3 == Ok::<(), DecodingError>(()),
{
}

/// A stream that opens with exactly one `0xFF` then the Start-Of-Image code
/// parses exactly as the rest of the stream does from `HeaderSection`: when
/// that parse succeeds, `read_header` succeeds and leaves the state at or
/// beyond `HeaderSection`.
pub proof fn lemma_start_of_image_opens_header(data: Seq<u8>, frame: FrameInfo)
    requires
        data.len() >= 2,
        data[0] == 0xFF,
        data[1] == 0xD8,
    ensures
        spec_read_header(data, 0, ReaderState::BeforeStartOfImage, frame) == spec_read_header(
            data,
            2,
            ReaderState::HeaderSection,
            frame,
        ),
        spec_read_header(data, 0, ReaderState::BeforeStartOfImage, frame).3 is Ok ==> state_rank(
            spec_read_header(data, 0, ReaderState::BeforeStartOfImage, frame).1,
        ) >= state_rank(ReaderState::HeaderSection),
{
    lemma_first_non_fill_is(data, 0, 1);
    assert(spec_next_marker(data, 0).1 == Ok::<JpegMarkerCode, DecodingError>(
        JpegMarkerCode::StartOfImage,
    ));
    lemma_read_header_monotonic(data, 2, ReaderState::HeaderSection, frame);
}

/// A stream whose first byte is not `0xFF` is rejected outright: the first
/// marker read fails with `MarkerPrefixNotFound`, one byte is consumed, and
/// the reader's state and frame metadata are left unchanged.
pub proof fn lemma_missing_prefix_rejected(data: Seq<u8>, frame: FrameInfo)
    requires
        data.len() > 0,
        data[0] != 0xFF,
    ensures
        spec_read_header(data, 0, ReaderState::BeforeStartOfImage, frame).0 == 1,
        spec_read_header(data, 0, ReaderState::BeforeStartOfImage, frame).1
            == ReaderState::BeforeStartOfImage,
        spec_read_header(data, 0, ReaderState::BeforeStartOfImage, frame).2 == frame,
        spec_read_header(data, 0, ReaderState::BeforeStartOfImage, frame).3 == Err::<
            (),
            DecodingError,
        >(DecodingError::MarkerPrefixNotFound),
{
}

/// Fill-byte absorption is transparent: any number of extra `0xFF` fill
/// bytes in front of a legitimate marker's own bytes leave the marker read's
/// result identical to the case without them, with exactly the fill bytes
/// consumed in addition, so parsing continues at the same suffix.
pub proof fn lemma_fill_bytes_transparent(extra: nat, rest: Seq<u8>)
    requires
        rest.len() > 0,
        rest[0] == 0xFF,
    ensures
        ({
            let padded = Seq::new(extra, |i: int| 0xFFu8) + rest;
            spec_next_marker(padded, 0).1 == spec_next_marker(rest, 0).1 && spec_next_marker(
                padded,
                0,
            ).0 == spec_next_marker(rest, 0).0 + extra
        }),
{
    let pad = Seq::new(extra, |i: int| 0xFFu8);
    let padded = pad + rest;
    if extra == 0 {
        assert(padded =~= rest);
    } else {
        assert(padded[0] == 0xFF);
        lemma_first_non_fill_skips_fill(padded, 0, extra as int);
        lemma_first_non_fill_concat(pad, rest, 0);
        lemma_first_non_fill_bounds(rest, 0);
        let code_at = first_non_fill(rest, 0);
        assert(first_non_fill(padded, 0) == extra + code_at);
        if code_at < rest.len() {
            assert(padded[extra + code_at] == rest[code_at]);
        }
    }
}

/// A segment whose declared length is smaller than the fixed fields of its
/// marker kind require fails with `InvalidSegmentLength`, consuming only the
/// two length bytes and reading nothing further.
pub proof fn lemma_short_declared_length(data: Seq<u8>, pos: int, min: int)
    requires
        0 <= pos,
        pos + 2 <= data.len(),
        min >= 2,
        spec_u16_be(data[pos], data[pos + 1]) < min,
    ensures
        spec_read_segment(data, pos, min).0 == pos + 2,
        spec_read_segment(data, pos, min).1 == Err::<Seq<u8>, DecodingError>(
            DecodingError::InvalidSegmentLength,
        ),
{
}

/// The shape of the canonical component bytes: three bytes per component,
/// holding the component's index, the sampling factors `0x11`, and a zero
/// table selector.
pub proof fn lemma_sof_components_shape(count: int)
    requires
        count >= 0,
    ensures
        spec_sof_components(count).len() == 3 * count,
        forall|i: int|
            0 <= i < count ==> #[trigger] spec_sof_components(count)[3 * i] == i as u8
                && spec_sof_components(count)[3 * i + 1] == 0x11 && spec_sof_components(count)[3 * i
                + 2] == 0,
    decreases count,
{
    if count > 0 {
        lemma_sof_components_shape(count - 1);
        let shorter = spec_sof_components(count - 1);
        let whole = spec_sof_components(count);
        assert forall|i: int| 0 <= i < count implies #[trigger] whole[3 * i] == i as u8 && whole[3
            * i + 1] == 0x11 && whole[3 * i + 2] == 0 by {
            if i < count - 1 {
                assert(shorter[3 * i] == i as u8);
                assert(shorter[3 * i + 1] == 0x11);
                assert(shorter[3 * i + 2] == 0);
            }
        }
    }
}

/// The two big-endian bytes of a 16-bit value recover it exactly.
pub proof fn lemma_be_bytes_round_trip(value: u16)
    ensures
        spec_u16_be(spec_be_hi(value), spec_be_lo(value)) == value,
{
    vstd::arithmetic::div_mod::lemma_fundamental_div_mod(value as int, 256);
}

/// Round trip: the canonical Start-Of-Frame payload encoding a frame's
/// width, height, sample precision and component count (each in its valid
/// range) decodes back to exactly those values.
pub proof fn lemma_sof_round_trip(width: u16, height: u16, precision: u8, count: u8)
    requires
        width >= 1,
        height >= 1,
        2 <= precision <= 16,
        count >= 1,
    ensures
        spec_sof_frame(spec_sof_payload(width, height, precision, count)) == Ok::<
            FrameInfo,
            DecodingError,
        >(
            FrameInfo {
                width: width as u32,
                height: height as u32,
                bits_per_sample: precision,
                component_count: count,
            },
        ),
{
    let payload = spec_sof_payload(width, height, precision, count);
    lemma_sof_components_shape(count as int);
    assert(payload.len() == 6 + 3 * (count as int));
    lemma_be_bytes_round_trip(height);
    lemma_be_bytes_round_trip(width);
    assert(payload[1] == spec_be_hi(height) && payload[2] == spec_be_lo(height));
    assert(payload[3] == spec_be_hi(width) && payload[4] == spec_be_lo(width));
    assert(spec_sof_selectors_zero(payload, count as int)) by {
        assert forall|i: int| 0 <= i < count as int implies #[trigger] payload[6 + 3 * i + 2]
            == 0 by {
            assert(payload[6 + 3 * i + 2] == spec_sof_components(count as int)[3 * i + 2]);
            assert(spec_sof_components(count as int)[3 * i] == i as u8);
        }
    }
}

/// Whether two streams hold the same bytes from the given positions to
/// their ends.
pub open spec fn suffixes_match(d1: Seq<u8>, p1: int, d2: Seq<u8>, p2: int) -> bool {
    &&& d1.len() - p1 == d2.len() - p2
    &&& forall|k: int| 0 <= k < d1.len() - p1 ==> #[trigger] d1[p1 + k] == d2[p2 + k]
}

/// On matching suffixes, `first_non_fill` finds its byte at the same
/// distance from the start position.
pub proof fn lemma_first_non_fill_on_suffix(d1: Seq<u8>, p1: int, d2: Seq<u8>, p2: int)
    requires
        0 <= p1 <= d1.len(),
        0 <= p2 <= d2.len(),
        suffixes_match(d1, p1, d2, p2),
    ensures
        first_non_fill(d1, p1) - p1 == first_non_fill(d2, p2) - p2,
    decreases d1.len() - p1,
{
    if p1 < d1.len() {
        assert(d1[p1] == d2[p2]) by {
            assert(d1[p1 + 0] == d2[p2 + 0]);
        }
        if d1[p1] == 0xFF {
            assert(suffixes_match(d1, p1 + 1, d2, p2 + 1)) by {
                assert forall|k: int| 0 <= k < d1.len() - (p1 + 1) implies #[trigger] d1[p1 + 1 + k]
                    == d2[p2 + 1 + k] by {
                    assert(d1[p1 + (k + 1)] == d2[p2 + (k + 1)]);
                }
            }
            lemma_first_non_fill_on_suffix(d1, p1 + 1, d2, p2 + 1);
        }
    }
}

/// On matching suffixes, a marker read returns the same result and consumes
/// the same number of bytes.
pub proof fn lemma_next_marker_on_suffix(d1: Seq<u8>, p1: int, d2: Seq<u8>, p2: int)
    requires
        0 <= p1 <= d1.len(),
        0 <= p2 <= d2.len(),
        suffixes_match(d1, p1, d2, p2),
    ensures
        spec_next_marker(d1, p1).0 - p1 == spec_next_marker(d2, p2).0 - p2,
        spec_next_marker(d1, p1).1 == spec_next_marker(d2, p2).1,
{
    if p1 < d1.len() {
        assert(d1[p1] == d2[p2]) by {
            assert(d1[p1 + 0] == d2[p2 + 0]);
        }
        if d1[p1] == 0xFF {
            lemma_first_non_fill_on_suffix(d1, p1, d2, p2);
            lemma_first_non_fill_bounds(d1, p1);
            lemma_first_non_fill_bounds(d2, p2);
            let c1 = first_non_fill(d1, p1);
            let c2 = first_non_fill(d2, p2);
            if c1 < d1.len() {
                assert(d1[c1] == d2[c2]) by {
                    assert(d1[p1 + (c1 - p1)] == d2[p2 + (c1 - p1)]);
                }
            }
        }
    }
}

/// On matching suffixes, a segment read returns the same result and
/// consumes the same number of bytes.
pub proof fn lemma_read_segment_on_suffix(d1: Seq<u8>, p1: int, d2: Seq<u8>, p2: int, min: int)
    requires
        0 <= p1 <= d1.len(),
        0 <= p2 <= d2.len(),
        min >= 2,
        suffixes_match(d1, p1, d2, p2),
    ensures
        spec_read_segment(d1, p1, min).0 - p1 == spec_read_segment(d2, p2, min).0 - p2,
        spec_read_segment(d1, p1, min).1 == spec_read_segment(d2, p2, min).1,
{
    if p1 + 2 <= d1.len() {
        assert(d1[p1] == d2[p2] && d1[p1 + 1] == d2[p2 + 1]) by {
            assert(d1[p1 + 0] == d2[p2 + 0]);
            assert(d1[p1 + 1] == d2[p2 + 1]);
        }
        let declared = spec_u16_be(d1[p1], d1[p1 + 1]) as int;
        if min <= declared && p1 + declared <= d1.len() {
            assert(d1.subrange(p1 + 2, p1 + declared) =~= d2.subrange(p2 + 2, p2 + declared)) by {
                assert forall|j: int| 0 <= j < declared - 2 implies #[trigger] d1.subrange(
                    p1 + 2,
                    p1 + declared,
                )[j] == d2.subrange(p2 + 2, p2 + declared)[j] by {
                    assert(d1[p1 + (j + 2)] == d2[p2 + (j + 2)]);
                }
            }
        }
    }
}

/// The parse never looks back: on matching suffixes, `read_header` reaches
/// the same state, the same frame metadata and the same result, consuming
/// the same number of bytes.
pub proof fn lemma_read_header_on_suffix(
    d1: Seq<u8>,
    p1: int,
    d2: Seq<u8>,
    p2: int,
    state: ReaderState,
    frame: FrameInfo,
)
    requires
        0 <= p1 <= d1.len(),
        0 <= p2 <= d2.len(),
        suffixes_match(d1, p1, d2, p2),
    ensures
        spec_read_header(d1, p1, state, frame).0 - p1 == spec_read_header(d2, p2, state, frame).0
            - p2,
        spec_read_header(d1, p1, state, frame).1 == spec_read_header(d2, p2, state, frame).1,
        spec_read_header(d1, p1, state, frame).2 == spec_read_header(d2, p2, state, frame).2,
        spec_read_header(d1, p1, state, frame).3 == spec_read_header(d2, p2, state, frame).3,
    decreases d1.len() - p1,
{
    if header_phase_active(state) {
        lemma_next_marker_on_suffix(d1, p1, d2, p2);
        lemma_next_marker_bounds(d1, p1);
        lemma_next_marker_bounds(d2, p2);
        let nm1 = spec_next_marker(d1, p1);
        let nm2 = spec_next_marker(d2, p2);
        if nm1.1 is Ok {
            let marker = nm1.1->Ok_0;
            assert(suffixes_match(d1, nm1.0, d2, nm2.0)) by {
                assert forall|k: int| 0 <= k < d1.len() - nm1.0 implies #[trigger] d1[nm1.0 + k]
                    == d2[nm2.0 + k] by {
                    assert(d1[p1 + (nm1.0 - p1 + k)] == d2[p2 + (nm1.0 - p1 + k)]);
                }
            }
            match state {
                ReaderState::BeforeStartOfImage => {
                    if marker == JpegMarkerCode::StartOfImage {
                        lemma_read_header_on_suffix(
                            d1,
                            nm1.0,
                            d2,
                            nm2.0,
                            ReaderState::HeaderSection,
                            frame,
                        );
                    }
                },
                ReaderState::HeaderSection => {
                    if marker == JpegMarkerCode::StartOfFrameJpegls {
                        lemma_read_segment_on_suffix(
                            d1,
                            nm1.0,
                            d2,
                            nm2.0,
                            sof_min_declared_length(),
                        );
                        lemma_read_segment_bounds(d1, nm1.0, sof_min_declared_length());
                        lemma_read_segment_bounds(d2, nm2.0, sof_min_declared_length());
                        let seg1 = spec_read_segment(d1, nm1.0, sof_min_declared_length());
                        let seg2 = spec_read_segment(d2, nm2.0, sof_min_declared_length());
                        if seg1.1 is Ok && spec_sof_frame(seg1.1->Ok_0) is Ok {
                            assert(suffixes_match(d1, seg1.0, d2, seg2.0)) by {
                                assert forall|k: int| 0 <= k < d1.len() - seg1.0 implies #[trigger]
                                    d1[seg1.0 + k] == d2[seg2.0 + k] by {
                                    assert(d1[p1 + (seg1.0 - p1 + k)] == d2[p2 + (seg1.0 - p1
                                        + k)]);
                                }
                            }
                            lemma_read_header_on_suffix(
                                d1,
                                seg1.0,
                                d2,
                                seg2.0,
                                ReaderState::FrameSection,
                                spec_sof_frame(seg1.1->Ok_0)->Ok_0,
                            );
                        }
                    } else if skippable_in_header(marker) {
                        lemma_read_segment_on_suffix(d1, nm1.0, d2, nm2.0, 2);
                        lemma_read_segment_bounds(d1, nm1.0, 2);
                        lemma_read_segment_bounds(d2, nm2.0, 2);
                        let seg1 = spec_read_segment(d1, nm1.0, 2);
                        let seg2 = spec_read_segment(d2, nm2.0, 2);
                        if seg1.1 is Ok {
                            assert(suffixes_match(d1, seg1.0, d2, seg2.0)) by {
                                assert forall|k: int| 0 <= k < d1.len() - seg1.0 implies #[trigger]
                                    d1[seg1.0 + k] == d2[seg2.0 + k] by {
                                    assert(d1[p1 + (seg1.0 - p1 + k)] == d2[p2 + (seg1.0 - p1
                                        + k)]);
                                }
                            }
                            lemma_read_header_on_suffix(d1, seg1.0, d2, seg2.0, state, frame);
                        }
                    }
                },
                ReaderState::FrameSection => {
                    if marker == JpegMarkerCode::StartOfScan {
                        lemma_read_segment_on_suffix(
                            d1,
                            nm1.0,
                            d2,
                            nm2.0,
                            sos_min_declared_length(),
                        );
                    } else if skippable_in_header(marker) {
                        lemma_read_segment_on_suffix(d1, nm1.0, d2, nm2.0, 2);
                        lemma_read_segment_bounds(d1, nm1.0, 2);
                        lemma_read_segment_bounds(d2, nm2.0, 2);
                        let seg1 = spec_read_segment(d1, nm1.0, 2);
                        let seg2 = spec_read_segment(d2, nm2.0, 2);
                        if seg1.1 is Ok {
                            assert(suffixes_match(d1, seg1.0, d2, seg2.0)) by {
                                assert forall|k: int| 0 <= k < d1.len() - seg1.0 implies #[trigger]
                                    d1[seg1.0 + k] == d2[seg2.0 + k] by {
                                    assert(d1[p1 + (seg1.0 - p1 + k)] == d2[p2 + (seg1.0 - p1
                                        + k)]);
                                }
                            }
                            lemma_read_header_on_suffix(d1, seg1.0, d2, seg2.0, state, frame);
                        }
                    }
                },
                _ => {},
            }
        }
    }
}

/// A marker read behaves identically whether it starts at a run of fill
/// bytes in front of a marker prefix or at the prefix itself.
pub proof fn lemma_next_marker_ignores_leading_fills(data: Seq<u8>, pos: int, skip: int)
    requires
        0 <= pos,
        0 <= skip,
        pos + skip <= data.len(),
        forall|k: int| pos <= k < pos + skip ==> data[k] == 0xFF,
        pos + skip == data.len() || data[pos + skip] == 0xFF,
    ensures
        spec_next_marker(data, pos) == spec_next_marker(data, pos + skip),
{
    if skip > 0 {
        if pos + skip == data.len() {
            lemma_first_non_fill_is(data, pos, data.len() as int);
        } else {
            lemma_first_non_fill_skips_fill(data, pos, pos + skip);
        }
    }
}

/// The whole header parse behaves identically whether it starts at a run of
/// fill bytes in front of a marker prefix or at the prefix itself: the fill
/// bytes are absorbed by the first marker read.
pub proof fn lemma_read_header_ignores_leading_fills(
    data: Seq<u8>,
    pos: int,
    skip: int,
    state: ReaderState,
    frame: FrameInfo,
)
    requires
        0 <= pos,
        0 <= skip,
        pos + skip <= data.len(),
        header_phase_active(state),
        forall|k: int| pos <= k < pos + skip ==> data[k] == 0xFF,
        pos + skip == data.len() || data[pos + skip] == 0xFF,
    ensures
        spec_read_header(data, pos, state, frame) == spec_read_header(
            data,
            pos + skip,
            state,
            frame,
        ),
{
    lemma_next_marker_ignores_leading_fills(data, pos, skip);
}

/// Fill-byte insertion is transparent: insert any number of extra `0xFF`
/// fill bytes at a position where the parse is about to read a marker whose
/// prefix stands there, and the parse returns the same result, reaches the
/// same state and the same frame metadata, ending exactly the inserted
/// number of bytes further on.
pub proof fn lemma_read_header_fill_insertion(
    data: Seq<u8>,
    pos: int,
    state: ReaderState,
    frame: FrameInfo,
    extra: nat,
)
    requires
        0 <= pos < data.len(),
        data[pos] == 0xFF,
        header_phase_active(state),
    ensures
        ({
            let padded = data.subrange(0, pos) + Seq::new(extra, |i: int| 0xFFu8) + data.subrange(
                pos,
                data.len() as int,
            );
            &&& spec_read_header(padded, pos, state, frame).0 == spec_read_header(
                data,
                pos,
                state,
                frame,
            ).0 + extra
            &&& spec_read_header(padded, pos, state, frame).1 == spec_read_header(
                data,
                pos,
                state,
                frame,
            ).1
            &&& spec_read_header(padded, pos, state, frame).2 == spec_read_header(
                data,
                pos,
                state,
                frame,
            ).2
            &&& spec_read_header(padded, pos, state, frame).3 == spec_read_header(
                data,
                pos,
                state,
                frame,
            ).3
        }),
{
    let padded = data.subrange(0, pos) + Seq::new(extra, |i: int| 0xFFu8) + data.subrange(
        pos,
        data.len() as int,
    );
    assert(padded.len() == data.len() + extra);
    assert(forall|k: int| pos <= k < pos + extra ==> padded[k] == 0xFF);
    assert(suffixes_match(padded, pos + extra, data, pos)) by {
        assert forall|k: int| 0 <= k < padded.len() - (pos + extra) implies #[trigger] padded[pos
            + extra + k] == data[pos + k] by {
            assert(padded[pos + extra + k] == data.subrange(pos, data.len() as int)[k]);
        }
    }
    assert(padded[pos + extra] == data[pos]) by {
        assert(padded[pos + extra + 0] == data[pos + 0]);
    }
    lemma_read_header_ignores_leading_fills(padded, pos, extra as int, state, frame);
    lemma_read_header_on_suffix(padded, pos + extra, data, pos, state, frame);
}

/// A marker read that succeeds on the whole stream behaves, on a truncated
/// copy, identically when the cut lies at or past the bytes it consumes,
/// and fails with `UnexpectedEndOfStream` when the cut lands inside them.
pub proof fn lemma_next_marker_truncated(data: Seq<u8>, pos: int, cut: int)
    requires
        0 <= pos <= cut <= data.len(),
        spec_next_marker(data, pos).1 is Ok,
    ensures
        cut >= spec_next_marker(data, pos).0 ==> spec_next_marker(data.subrange(0, cut), pos)
            == spec_next_marker(data, pos),
        cut < spec_next_marker(data, pos).0 ==> spec_next_marker(data.subrange(0, cut), pos).1
            == Err::<JpegMarkerCode, DecodingError>(DecodingError::UnexpectedEndOfStream),
{
    let trunc = data.subrange(0, cut);
    lemma_first_non_fill_bounds(data, pos);
    let code_at = first_non_fill(data, pos);
    if cut >= code_at + 1 {
        lemma_first_non_fill_is(trunc, pos, code_at);
    } else if pos < cut {
        lemma_first_non_fill_is(trunc, pos, cut);
    }
}

/// A segment read that succeeds on the whole stream behaves, on a truncated
/// copy, identically when the cut lies at or past the bytes it consumes,
/// and fails with `UnexpectedEndOfStream` when the cut lands inside them.
pub proof fn lemma_read_segment_truncated(data: Seq<u8>, pos: int, min: int, cut: int)
    requires
        0 <= pos <= cut <= data.len(),
        min >= 2,
        spec_read_segment(data, pos, min).1 is Ok,
    ensures
        cut >= spec_read_segment(data, pos, min).0 ==> spec_read_segment(
            data.subrange(0, cut),
            pos,
            min,
        ).0 == spec_read_segment(data, pos, min).0 && spec_read_segment(
            data.subrange(0, cut),
            pos,
            min,
        ).1 == spec_read_segment(data, pos, min).1,
        cut < spec_read_segment(data, pos, min).0 ==> spec_read_segment(
            data.subrange(0, cut),
            pos,
            min,
        ).1 == Err::<Seq<u8>, DecodingError>(DecodingError::UnexpectedEndOfStream),
{
    let trunc = data.subrange(0, cut);
    let declared = spec_u16_be(data[pos], data[pos + 1]) as int;
    if cut >= pos + declared {
        assert(trunc.subrange(pos + 2, pos + declared) =~= data.subrange(pos + 2, pos + declared));
    }
}

/// Truncation is always caught: cutting a stream whose header parse
/// succeeds, at any byte before the position that parse ends at, makes the
/// parse of the truncated stream fail with `UnexpectedEndOfStream` — it
/// never succeeds, never reports another kind of error, and never reads
/// past the cut.
pub proof fn lemma_truncated_stream_fails(
    data: Seq<u8>,
    pos: int,
    state: ReaderState,
    frame: FrameInfo,
    cut: int,
)
    requires
        0 <= pos <= cut <= data.len(),
        spec_read_header(data, pos, state, frame).3 is Ok,
        cut < spec_read_header(data, pos, state, frame).0,
    ensures
        spec_read_header(data.subrange(0, cut), pos, state, frame).3 == Err::<(), DecodingError>(
            DecodingError::UnexpectedEndOfStream,
        ),
    decreases data.len() - pos,
{
    let trunc = data.subrange(0, cut);
    let t = spec_read_header(data, pos, state, frame);
    lemma_next_marker_bounds(data, pos);
    let nm = spec_next_marker(data, pos);
    let p1 = nm.0;
    let marker = nm.1->Ok_0;
    lemma_next_marker_truncated(data, pos, cut);
    if cut >= p1 {
        match state {
            ReaderState::BeforeStartOfImage => {
                lemma_truncated_stream_fails(data, p1, ReaderState::HeaderSection, frame, cut);
            },
            ReaderState::HeaderSection => {
                if marker == JpegMarkerCode::StartOfFrameJpegls {
                    lemma_read_segment_bounds(data, p1, sof_min_declared_length());
                    lemma_read_segment_truncated(data, p1, sof_min_declared_length(), cut);
                    let seg = spec_read_segment(data, p1, sof_min_declared_length());
                    if cut >= seg.0 {
                        lemma_truncated_stream_fails(
                            data,
                            seg.0,
                            ReaderState::FrameSection,
                            spec_sof_frame(seg.1->Ok_0)->Ok_0,
                            cut,
                        );
                    }
                } else if skippable_in_header(marker) {
                    lemma_read_segment_bounds(data, p1, 2);
                    lemma_read_segment_truncated(data, p1, 2, cut);
                    let seg = spec_read_segment(data, p1, 2);
                    if cut >= seg.0 {
                        lemma_truncated_stream_fails(data, seg.0, state, frame, cut);
                    }
                }
            },
            ReaderState::FrameSection => {
                if marker == JpegMarkerCode::StartOfScan {
                    lemma_read_segment_bounds(data, p1, sos_min_declared_length());
                    lemma_read_segment_truncated(data, p1, sos_min_declared_length(), cut);
                } else if skippable_in_header(marker) {
                    lemma_read_segment_bounds(data, p1, 2);
                    lemma_read_segment_truncated(data, p1, 2, cut);
                    let seg = spec_read_segment(data, p1, 2);
                    if cut >= seg.0 {
                        lemma_truncated_stream_fails(data, seg.0, state, frame, cut);
                    }
                }
            },
            _ => {},
        }
    }
}

} // verus!
