//! A CHIP-8 virtual machine: opcode decoding, instruction execution and the
//! machine's registers, stack, timers, keypad and display, each with a
//! specification that the implementation is proved against.

pub mod chip8;
pub mod decode;
pub mod display;
pub mod font;
pub mod input;
pub mod instruction;
pub mod keypad;
pub mod pacing;
pub mod registers;
pub mod render;
pub mod semantics;
pub mod stack;
pub mod timer;
