//! Concrete commands shipped with the core.

pub mod help;
