//! Helpers shared by the rest of the library: byte strings and text,
//! decimal notation, identifiers, points in time and the byte-wise ordering
//! of text.

pub mod bytes;
pub mod decimal;
pub mod docker;
pub mod ident;
pub mod order;
pub mod path;
pub mod size;
pub mod text;
pub mod time;
pub mod utf8;
