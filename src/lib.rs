//! A CHIP-8 virtual machine: instruction decoding and execution, a wrapping
//! XOR framebuffer, and the key latches read by the key-skip instructions.

pub mod display;
pub mod keypad;
pub mod machine;
pub mod laws;
