//! A translator from a stack-machine instruction language to Hack assembly.

pub mod command;
pub mod decimal;
pub mod laws;
pub mod template;
pub mod token;
pub mod vm;
