//! An interpreter for a MIPS-I style 32-bit integer instruction set, running a
//! program image in a simulated little-endian memory window.
//!
//! Choices where the architecture and this interpreter part ways:
//! - there are no delay slots: `JAL` and `JALR` link the address of the
//!   instruction right after the jump, and the next fetch is at the target;
//! - with `PC` already advanced past the instruction, a taken branch goes to
//!   `PC + 4` plus the offset, and `J`/`JAL` take their top four bits from
//!   `PC + 4`;
//! - writes to register 0 take effect like writes to any other register;
//! - `ADDI` wraps and `ADDIU` traps on signed overflow;
//! - `SLTIU` compares against the zero-extended immediate;
//! - `DIV` and `DIVU` by zero raise `DIVZERO`.
pub mod arch;
pub mod bus;
pub mod cpu;
pub mod dram;
pub mod interrupt;
pub mod sys;
pub mod text;
pub mod theorems;
pub mod virt;
