//! A CHIP-8 virtual machine whose instruction semantics are stated as
//! specifications over an abstract machine and proved of the executable
//! interpreter.
#![allow(non_snake_case)]
#![allow(non_camel_case_types)]

pub mod machine;
pub mod chip8;
pub mod opcodes;
mod rng;
pub mod cpu;
pub mod frontend;
pub mod laws;
pub mod instruction_laws;

pub use crate::chip8::{load, start, Chip8, FONT_SET};
pub use crate::cpu::{cycle, decode, execute, try_cycle};
pub use crate::frontend::{render, update_keys, KEYPAD, SCALE, WIDTH, HEIGHT, HZ};
pub use crate::machine::STATE;
