//! An emulator for the *Minirechner 2i*, an 8 bit teaching computer that is
//! programmed in horizontal microcode.
//!
//! Every 25 bit microinstruction drives the ALU, the register file, the flag
//! register, the bus and the choice of the next instruction at once. The
//! modules follow the machine: [`alu`], [`instruction`] with its
//! [`mnemonic`], [`bus`] and [`cpu`]. [`parse`] reads microprograms and
//! [`reach`] finds the instructions that a program can reach. [`cli`] and
//! [`command`] hold what a session at a prompt needs; [`text`] and
//! [`pattern`] serve them all.
//!
//! Each module states what its functions compute as spec functions over
//! plain values, and the functions are verified against them.

pub mod alu;
pub mod bus;
pub mod cli;
pub mod command;
pub mod cpu;
pub mod error;
pub mod instruction;
pub mod mnemonic;
pub mod parse;
pub mod pattern;
pub mod reach;
pub mod text;

pub use crate::alu::Flags;
pub use crate::bus::{Bus, Device, IoRegisters, Ram};
pub use crate::cpu::Cpu;
pub use crate::error::Error;
pub use crate::instruction::Instruction;
