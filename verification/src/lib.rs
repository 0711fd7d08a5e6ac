//! A verified interpreter for a small 16-bit virtual machine.
//!
//! The machine has 32768 words of addressable memory shared by code and
//! data, eight registers, an unbounded stack, and a 22-opcode instruction
//! set with character-oriented input and output. Words in `[0, 32767]` are
//! literals; words in `[32768, 32775]` name the eight registers.
//!
//! The crate is split into three modules:
//! - [`machine`] holds the machine state, the instruction set, the
//!   mathematical semantics (`spec_step`, `run_n`) and the verified
//!   interpreter [`machine::Vm`], whose contracts pin every state
//!   transition to the semantics;
//! - [`image`] decodes a little-endian byte stream into the program words
//!   that become the machine's initial memory;
//! - [`laws`] proves machine-level theorems: register values stay below
//!   32768, arithmetic is reduced modulo 32768, `Call` and `Ret` restore
//!   the program counter, and the two ways a run can stop (graceful halt
//!   and fatal fault) never coincide.
//!
//! Terminal input and output are not performed here: the interpreter reads
//! from an internal input queue and appends to an internal output queue,
//! and reports [`machine::State::NeedInput`] when the queue runs dry, so a
//! caller can attach any line-oriented channel.

pub mod image;
pub mod laws;
pub mod machine;
