//! Scream Tracker 3 Module (S3M) decoding.
//!
//! A module goes through four steps: [`header::parse_header`] reads the
//! header and instruments, [`samples::extract_samples`] the sample bodies,
//! [`pattern::unpack_all`] the patterns, and [`player::PlayerState`] plays
//! them. [`decoder::S3mDecoder`] ties the steps together. [`opl2`] holds the
//! integer side of the FM chip that AdLib instruments are written for.

pub mod bytes;
pub mod decoder;
pub mod error;
pub mod header;
pub mod opl2;
pub mod pattern;
pub mod player;
pub mod samples;
