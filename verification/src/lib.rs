//! Generation and serialization of synthetic FWON text records.
//!
//! A FWON record is a block of `Key=Value` lines framed by a header comment
//! line and a trailing blank line. This crate builds such records from a
//! caller-supplied random source, fans the work out across parallel workers
//! while keeping the results in identifier order, and times the generation
//! and persistence phases of a benchmark run.
//!
//! The exact text of every record is pinned down by the model in [`model`]:
//! each generated byte sequence is proved to be the encoding of a record
//! whose drawn values lie in their documented ranges. The laws in [`laws`]
//! state what follows for every such record: the unique field lines, the
//! fixed two-decimal balance text, and that a block decodes back to the
//! identifier it was generated for.

pub mod bench;
pub mod digits;
pub mod generator;
pub mod laws;
pub mod model;
pub mod random;
