//! Runtimes that run extension scripts.

pub mod python;
