//! Core of a structure-aware fuzzing engine: the mutator framework.
//!
//! A mutator generates values of a typed shape and incrementally mutates
//! them. Every value travels with a complexity score (a size-like measure,
//! counted here in whole units) and a cache of precomputed information, and
//! every mutation yields a reversible unmutate token so that the mutation can
//! be undone in place once the test has run. Pools select which previously
//! seen value to mutate next, guided by the observations a sensor reports.

pub mod traits;
pub mod rng;
pub mod mutators;
pub mod grammar;
pub mod sensors_and_pools;
pub mod project;
