//! Entropy-driven generation of boundary-stressing sample values for a
//! schema-driven codec: every draw is deterministic in the bytes it reads and
//! fails, rather than pads, when the bytes run out.
pub mod entropy;
pub mod float_bits;
pub mod generate;
pub mod input;
pub mod numbers;
pub mod schema;
pub mod driver;
pub mod compare;
