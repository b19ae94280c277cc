//! Readers for OpenType font tables, with the outline interpreter for
//! CFF (Compact Font Format) glyphs at the centre.
//!
//! Everything here works on untrusted bytes. Each reader states, as a
//! function of the bytes alone, what it returns and which error it
//! reports; no length or offset found in the data is used before it has
//! been checked against the bytes that are actually there.
//!
//! `model` says what the bytes of a CFF table mean; `tables` holds the
//! readers, each proved to compute what `model` says.

pub mod error;
pub mod font;
pub mod model;
pub mod outline;
pub mod tables;
pub mod util;
