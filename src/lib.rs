//! A fixed-capacity ring buffer whose two cursors alone tell "full" from "empty".
//!
//! The buffer keeps two slots beyond the capacity that its user asks for: the
//! read cursor stands on the slot before the oldest element, the write cursor on
//! the slot that the next element goes to, so that the buffer is empty exactly
//! when the read cursor is one step behind the write cursor, and full exactly
//! when the write cursor is one step behind the read cursor.
pub mod cursor;
pub mod laws;
pub mod model;
pub mod ring;

pub use cursor::Errors;
pub use ring::Anellus;
