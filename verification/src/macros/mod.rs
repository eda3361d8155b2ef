//! The source text that the attribute and derive macros expand to.

pub mod actor;
pub mod stm32;
