//! The descriptor model and the parsers that build it.

pub mod descriptor;
pub mod grammar;
pub mod lemmas;
pub mod parser;
pub mod scan;
pub mod theorems;
pub mod token;
