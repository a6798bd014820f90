//! A CHIP-8 virtual machine: the interpreter, the surfaces it shares with a
//! front end, and the scheduler that paces it.

pub mod display;
pub mod fault;
pub mod frequency;
pub mod frontend;
pub mod fuse;
pub mod instruction;
pub mod interpreter;
pub mod keypad;
pub mod laws;
pub mod machine;
pub mod scheduler;
