//! Decoder and loader for a flat binary catalog of astronomical bodies.
//!
//! A catalog is a stream of fixed-size binary records, each describing one
//! star or planet.  The library decodes single records ([`codec`]), walks a
//! whole stream with a skip-and-continue recovery policy ([`loader`]), and
//! selects the star subset for rendering ([`filter`]).  All I/O belongs to
//! the surrounding program; the library works on byte slices.

pub mod codec;
pub mod entity;
pub mod filter;
pub mod loader;
pub mod text;
