//! Backends that requests are translated for.

pub mod triton;
