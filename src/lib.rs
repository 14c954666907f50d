//! An immutable byte-sequence object for a dynamically typed runtime:
//! the raw payload with its construction, ordering, hashing and
//! representation rules, the object that exposes it, a cursor-based
//! iterator over it, and the registration of its named operations.
pub mod byteinner;
pub mod bytes;
pub mod object;
