//! An Intel 8080 emulator core for the Space Invaders arcade machine:
//! arithmetic primitives, the flag register, 64 KiB memory, I/O ports,
//! an opcode-table decoder, the CPU state machine, and the arcade
//! wrapper with its 16-bit shift-register peripheral.

pub mod cpu;
pub mod disassembler;
pub mod flags;
pub mod laws;
pub mod machine;
pub mod math;
pub mod memory;
pub mod opcode_decoder;
pub mod port;
pub mod render;
pub mod text;
