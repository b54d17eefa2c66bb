//! Decoder library for the DELTA-2 rotary lidar's binary wire protocol.
//!
//! The heart of the library is a resynchronising frame assembler
//! ([`protocol::PartialFrame`]) that reconstructs discrete, checksummed
//! frames from an unstructured byte stream, and a pure decoder
//! ([`protocol::MeasurementFrame`]) that turns a completed raw frame into
//! typed range samples. Transport I/O and the worker thread that feeds the
//! assembler live outside the library.

pub mod laws;
pub mod protocol;
