//! The core of a small interactive command shell: the grammar of a command
//! line, the variable store, command resolution, the two built-ins and the
//! decisions of the execution engine.
//!
//! The library never creates a process, changes directory or ends the
//! process itself. It says what has to happen next and takes the outcome
//! back, so every decision it makes is covered by a contract.

pub mod build_in;
pub mod cmd;
pub mod env;
pub mod grammar;
pub mod number;
pub mod parser;
pub mod text;
