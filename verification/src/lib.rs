//! A sparse, growable random-access byte store.
//!
//! One store instance holds a single logical byte stream. Backing memory is
//! allocated lazily, in fixed-size quantum buffers hung off a chain of
//! fixed-capacity segment tables, so the stream may be written at arbitrary
//! offsets while only the regions actually touched consume memory. A reset
//! releases every table and buffer in one call.
//!
//! The `model` module gives the mathematical model that every contract is
//! stated over; `chain` holds the segment-table chain, `store` the byte store
//! built on it, `control` the numeric configuration-query codes, and `laws`
//! the proved properties that relate the operations to one another.

pub mod chain;
pub mod control;
pub mod laws;
pub mod model;
pub mod store;
