//! Ergonomic pattern matching as a library.
//!
//! A pattern is matched against a value; on success the match hands back the
//! values of the pattern's binding identifiers — the lone value when one name
//! is bound, the unit output when none is, and otherwise a tuple ordered
//! lexicographically by name, whatever the names' positions in the pattern.
//! Alternation patterns are rejected when a pattern is translated, since
//! their branches could bind different names.

pub mod ast;
pub mod order;
pub mod semantics;
pub mod extract;
pub mod matching;
pub mod laws;
