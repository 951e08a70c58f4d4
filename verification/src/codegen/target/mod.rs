//! The supported targets.

pub mod x86_64;
