//! The marker catalog: a closed enumeration of the JPEG marker codes this
//! profile handles, with a fallible, pure lookup from a raw code byte.

use vstd::prelude::*;

use crate::decoding_error::DecodingError;

verus! {

/// A named JPEG marker kind, one for each single-byte code this profile
/// assigns a meaning to. The catalog itself has no policy: whether an
/// unrecognised marker is fatal is decided by the caller.
#[derive(Clone, Copy, Debug, PartialEq, Eq, Structural)]
pub enum JpegMarkerCode {
    /// Code `0xD8`: opens a stream.
    StartOfImage,
    /// Code `0xD9`: closes a stream.
    EndOfImage,
    /// Code `0xDA`: opens the scan header; entropy-coded data follows it.
    StartOfScan,
    /// Code `0xDC`: the Define-Number-Of-Lines segment.
    DefineNumberOfLines,
    /// Code `0xDD`: the Define-Restart-Interval segment.
    DefineRestartInterval,
    /// Code `0xF7`: opens the frame header of a JPEG-LS encoded frame.
    StartOfFrameJpegls,
    /// Code `0xF8`: the JPEG-LS preset-parameters segment.
    JpeglsPresetParameters,
    /// Codes `0xE0` through `0xEF`: an application-data segment; the payload
    /// of the variant is the offset from `0xE0`, in `[0, 15]`.
    ApplicationData(u8),
    /// Code `0xFE`: a comment segment.
    Comment,
}

/// The marker kind a code byte stands for, or `None` when the byte has no
/// defined meaning in scope.
pub open spec fn spec_marker_of_byte(value: u8) -> Option<JpegMarkerCode> {
    if value == 0xD8 {
        Some(JpegMarkerCode::StartOfImage)
    } else if value == 0xD9 {
        Some(JpegMarkerCode::EndOfImage)
    } else if value == 0xDA {
        Some(JpegMarkerCode::StartOfScan)
    } else if value == 0xDC {
        Some(JpegMarkerCode::DefineNumberOfLines)
    } else if value == 0xDD {
        Some(JpegMarkerCode::DefineRestartInterval)
    } else if value == 0xF7 {
        Some(JpegMarkerCode::StartOfFrameJpegls)
    } else if value == 0xF8 {
        Some(JpegMarkerCode::JpeglsPresetParameters)
    } else if 0xE0 <= value && value <= 0xEF {
        Some(JpegMarkerCode::ApplicationData((value - 0xE0) as u8))
    } else if value == 0xFE {
        Some(JpegMarkerCode::Comment)
    } else {
        None
    }
}

/// The code byte of a marker kind; inverse of `spec_marker_of_byte` on the
/// codes the catalog recognises.
pub open spec fn spec_byte_of_marker(marker: JpegMarkerCode) -> u8 {
    match marker {
        JpegMarkerCode::StartOfImage => 0xD8,
        JpegMarkerCode::EndOfImage => 0xD9,
        JpegMarkerCode::StartOfScan => 0xDA,
        JpegMarkerCode::DefineNumberOfLines => 0xDC,
        JpegMarkerCode::DefineRestartInterval => 0xDD,
        JpegMarkerCode::StartOfFrameJpegls => 0xF7,
        JpegMarkerCode::JpeglsPresetParameters => 0xF8,
        JpegMarkerCode::ApplicationData(n) => (0xE0 + n) as u8,
        JpegMarkerCode::Comment => 0xFE,
    }
}

/// What `lookup` returns for a code byte: the marker kind, or the byte
/// wrapped in `UnrecognizedMarker`.
pub open spec fn spec_lookup(value: u8) -> Result<JpegMarkerCode, DecodingError> {
    match spec_marker_of_byte(value) {
        Some(marker) => Ok(marker),
        None => Err(DecodingError::UnrecognizedMarker(value)),
    }
}

impl JpegMarkerCode {
    /// Total, pure mapping from a raw code byte to a marker kind. Succeeds
    /// for every byte the catalog assigns a meaning to and fails with
    /// `UnrecognizedMarker` for the rest.
    pub fn lookup(value: u8) -> (r: Result<JpegMarkerCode, DecodingError>)
        ensures
            r == spec_lookup(value),
    {
        if value == 0xD8 {
            Ok(JpegMarkerCode::StartOfImage)
        } else if value == 0xD9 {
            Ok(JpegMarkerCode::EndOfImage)
        } else if value == 0xDA {
            Ok(JpegMarkerCode::StartOfScan)
        } else if value == 0xDC {
            Ok(JpegMarkerCode::DefineNumberOfLines)
        } else if value == 0xDD {
            Ok(JpegMarkerCode::DefineRestartInterval)
        } else if value == 0xF7 {
            Ok(JpegMarkerCode::StartOfFrameJpegls)
        } else if value == 0xF8 {
            Ok(JpegMarkerCode::JpeglsPresetParameters)
        } else if 0xE0 <= value && value <= 0xEF {
            Ok(JpegMarkerCode::ApplicationData(value - 0xE0))
        } else if value == 0xFE {
            Ok(JpegMarkerCode::Comment)
        } else {
            Err(DecodingError::UnrecognizedMarker(value))
        }
    }
}

/// A recognised code byte is recovered exactly by `spec_byte_of_marker`:
/// the catalog maps each byte it knows to a distinct marker kind.
pub proof fn lemma_marker_byte_round_trip(value: u8)
    ensures
        spec_marker_of_byte(value) matches Some(marker) ==> spec_byte_of_marker(marker)
            == value,
{
}

} // verus!
