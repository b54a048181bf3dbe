//! Verified core of the Proofbound evidence adapters.
pub mod aeneas;
pub mod artifact;
pub mod audit;
pub mod bounded;
pub mod cargo;
pub mod digest;
pub mod files;
pub mod generated;
pub mod generator_changes;
pub mod inventory;
pub mod json;
pub mod lean;
pub mod kani;
pub mod lean_scan;
pub mod mutation;
pub mod names;
pub mod node;
pub mod normalize;
pub mod npm;
pub mod observation;
pub mod paths;
pub mod process;
pub mod protocol;
pub mod pytest;
pub mod pytest_session;
pub mod runner;
pub mod rust_session;
pub mod session;
pub mod test_unit;
pub mod testing;
pub mod text;
pub mod transcription_session;
pub mod translation;
pub mod vitest;
pub mod warnings;
pub mod wire;
