//! Arithmetic circuits over the Goldilocks field, for zero-knowledge proofs.
//!
//! A [`circuit::CircuitBuilder`] accumulates wires, gates, public inputs and
//! checks of embedded proofs, and compiles into a [`circuit::CompiledCircuit`].
//! A [`witness::Witness`] assigns values to wires and proofs to slots. The
//! prover's witness check ([`circuit::CompiledCircuit::prove`]) completes the
//! witness along the gates and refuses it when a value is missing or a
//! constraint fails; a commitment backend proves what it accepts. The
//! verifier's decision ([`circuit::CompiledCircuit::verify`]) takes the
//! backend's verdict on a proof's openings. [`laws`] states and proves the
//! soundness and completeness of the witness check.
pub mod circuit;
pub mod examples;
pub mod field;
pub mod identity;
pub mod laws;
pub mod prover;
pub mod verification;
pub mod witness;
