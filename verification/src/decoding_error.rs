//! The error taxonomy of the stream reader: every parse failure is returned
//! to the caller as one of these kinds, none is retried or swallowed.

use vstd::prelude::*;

use crate::jpeg_marker_code::JpegMarkerCode;
use crate::jpeg_stream_reader::ReaderState;

verus! {

/// A failure while parsing the marker-segment prefix of a JPEG-LS stream.
#[derive(Clone, Copy, Debug, PartialEq, Eq, Structural)]
pub enum DecodingError {
    /// The byte at an expected marker position was not `0xFF`: the stream is
    /// desynchronised and the parse cannot recover by skipping.
    MarkerPrefixNotFound,
    /// A marker prefix was found, but the code byte that followed has no
    /// defined meaning in scope. Carries the offending code byte.
    UnrecognizedMarker(u8),
    /// The first marker of the stream was not Start-Of-Image.
    StartOfImageMarkerNotFound,
    /// A structurally valid marker appeared in a section of the stream where
    /// it is not legal, e.g. a second Start-Of-Image, or a Start-Of-Scan
    /// before any Start-Of-Frame.
    UnexpectedMarker { context: ReaderState, found: JpegMarkerCode },
    /// A segment's declared length is smaller than the fixed fields of its
    /// marker kind require, or does not match the structure of its payload.
    InvalidSegmentLength,
    /// A decoded frame-header field violates the format's constraints, e.g.
    /// a zero component count or a sample precision outside `[2, 16]`.
    InvalidFrameHeader,
    /// The source was exhausted before a required byte count was delivered.
    UnexpectedEndOfStream,
    /// Any other failure surfaced by a byte source outside the library.
    Io,
}

} // verus!
