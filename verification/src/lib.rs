//! Marker-driven parsing of the header section of a JPEG-LS stream.
//!
//! The library recognises JPEG marker codes (including `0xFF` fill-byte
//! absorption), drives the section state machine that says which markers are
//! legal at each point of the stream, and decodes the Start-Of-Frame segment
//! into the frame's dimensions, sample precision and component count.

pub mod decoder;
pub mod decoding_error;
pub mod jpeg_marker_code;
pub mod jpeg_stream_reader;
pub mod stream_laws;
pub mod stream_model;
