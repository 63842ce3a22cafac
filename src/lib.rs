//! Cartesian products of several sequences, enumerated like nested loops.
//!
//! The pairwise product of two sequences pairs every element of the left
//! sequence with every element of the right one, the right one varying
//! fastest. Products of more sequences are folded from the right: the first
//! sequence is paired with the product of the rest, and each pair is
//! flattened by [`prepend::TuplePrepend`].
//!
//! Sequences are held in vectors, which can be walked again for each element
//! of an outer sequence. Elements are copied into the tuples; to combine
//! elements that are not `Copy`, combine references to them.
pub mod prepend;
pub mod product;
pub mod cartesian;

pub use prepend::TuplePrepend;
