//! The meaning of the bytes of a CFF table, as mathematics: how integers
//! are spelled, how an INDEX and a DICT are laid out, and what outline a
//! CharString draws.

pub mod charstring;
pub mod dict;
pub mod index;
pub mod operand;
pub mod table;
