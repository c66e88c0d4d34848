//! A growable array: contiguous, resizable storage for a sequence of values,
//! kept as a block of slots of which only a live prefix holds values.
//!
//! The backing block is a sequence of slots, each of which may or may not
//! hold a live value. The invariant maintained everywhere is that slots
//! `[0, len)` are live and slots `[len, capacity)` are spare. Growth goes
//! through a single reallocation routine and sizes the new block to a power
//! of two, which keeps appending amortized constant time.

pub mod array;
pub mod growth;
pub mod laws;
pub mod producer;

pub use array::Vec;
pub use producer::Producer;
pub use producer::VecProducer;
