//! Multi-party computation of Groth16 parameters over BLS12-381.
//!
//! Parameters for a zk-SNARK can be made by anyone who picks the secret
//! numbers behind them, and whoever keeps those numbers can forge proofs.
//! In a multi-party computation every participant contributes a secret, and
//! the parameters are secure as long as one participant destroys theirs.
//!
//! # The ceremony
//!
//! * A circuit leaves its constraint system in a
//!   [`KeypairAssembly`](assembly::KeypairAssembly).
//!   [`phase1_exponent`](mpc::phase1_exponent) tells which powers-of-tau
//!   transcript the constraint system needs, and [`MPCParameters::new`] makes
//!   the initial parameters from the two. These are not safe to use.
//! * Every participant calls [`MPCParameters::contribute`] and keeps the hash
//!   it returns. The state travels from one to the next in serialized form
//!   ([`MPCParameters::write`], [`MPCParameters::read`]).
//! * Anyone can check one step with [`verify_contribution`], or the whole
//!   chain against the circuit with [`MPCParameters::verify`], which returns
//!   the hashes of all contributions; [`contains_contribution`] looks for
//!   one's own among them.
//! * [`MPCParameters::get_params`] gives the Groth16 parameters, which are
//!   written as bellman reads them.
//!
//! # What is proved, and what is believed
//!
//! Scalars and group elements are held by the bytes that `bls12_381` writes
//! for them ([`curve`]). All arithmetic on them, the pairing and the hash are
//! done by the crates that provide them; the result of such a call is known
//! here only by name, as a function of the bytes that went in. Everything
//! around those calls is proved: what is read and written byte by byte, which
//! checks an audit makes and in which case it passes, and what a contribution
//! changes and what it leaves alone. The module [`laws`] states what follows
//! for the ceremony as a whole.

pub mod assembly;
pub mod audit;
pub mod bytes;
pub mod curve;
pub mod groth16;
pub mod hasher;
pub mod keys;
pub mod laws;
pub mod mpc;
pub mod setup;
pub mod wire;

pub use crate::audit::{contains_contribution, verify_contribution};
pub use crate::hasher::HashWriter;
pub use crate::mpc::MPCParameters;
