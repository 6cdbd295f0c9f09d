//! Decoders for the tagged binary payloads of an ICC color-profile
//! container: byte-level primitives (big-endian integers, 16.16 fixed-point
//! numbers, UTF-16 text), and one decoder per tag type (descriptive text,
//! tristimulus values, key/value dictionaries, fixed-point arrays, and
//! video-card gamma tables), all bounds-checked against malformed input.

pub mod bytes_utils;
pub mod icc_utils;
pub mod read_icc_types;
pub mod rs_types;
