//! Thread-safe reference-counted null-terminated strings.
//!
//! An [`ArcCStr`] is a handle on an immutable, null-terminated byte string
//! that is kept, with the counter of its handles, in a block that the
//! handles share. Cloning a handle bumps the counter and copies no byte;
//! dropping the last handle gives the block back.
//!
//! The modules, leaves first:
//!
//! * [`content`]: what a block's bytes mean (the payload up to the first
//!   zero byte) and the scan that finds the terminator;
//! * [`layout`]: how many bytes a block takes;
//! * [`refcount`]: the protocol on the shared counter;
//! * [`order`]: byte-wise equality and lexicographic order;
//! * [`text`]: a byte string read as text, and shown between quotes;
//! * [`handle`]: the handle type itself;
//! * [`laws`]: what holds of every use of a handle.

pub mod content;
pub mod handle;
pub mod laws;
pub mod layout;
pub mod order;
pub mod refcount;
pub mod text;

pub use handle::ArcCStr;
