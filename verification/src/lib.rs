//! Lexicographically sortable, globally unique identifiers: a 48-bit
//! millisecond timestamp concatenated with 80 random bits, rendered as a
//! fixed 26-character string over a radix-ordered 32-symbol alphabet.
//!
//! The library resolves the caller's declared arguments (none, a null, or
//! a date/time string) to a single instant, seeds one identifier from it,
//! and returns the same encoding on every production call. Encoding,
//! decoding, argument interpretation and the exact failure messages are
//! verified; the date parser and the source of time and randomness are
//! the two outside collaborators, taken on trust behind narrow contracts.

use vstd::prelude::*;

pub mod args;
pub mod codec;
pub mod handle;
pub mod trusted;

verus! {

/// Number of characters in the textual encoding of an identifier.
pub const ENCODED_LEN: usize = 26;

} // verus!
