//! Discrete core of a thermodynamically budgeted agent: its lifecycle state
//! machine, its self-model of composed theorems, its reproduction bookkeeping,
//! its deterministic pseudo-random source and its bounded histories.

pub mod lifecycle;
pub mod rng;
pub mod history;
pub mod self_model;
pub mod reproduce;
pub mod organism;
pub mod conserve;
