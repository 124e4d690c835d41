//! Text as sequences of characters: the string operations that the rest of the
//! library is written in, each with the exact result it gives.
//!
//! Functions take slices of characters where they work inside a text and
//! `&str` at the edges. A text of type `&str` or `String` is described by its
//! view, a `Seq<char>`.

pub mod chars;
pub mod find;
pub mod number;
pub mod order;
pub mod split;
pub mod text_laws;
pub mod trim;
