//! A register-machine interpreter: eight 32-bit registers, a memory of
//! segments, and fourteen instructions.
//!
//! `machine` holds the machine as a mathematical value and says what every
//! instruction does to it. `um` holds the machine that runs, the instruction
//! decoder and the fetch-and-execute loop; `instructions` holds one function
//! per instruction; each is proved to do what `machine` says. `laws` holds
//! what follows for every machine and every program. `image` turns the bytes
//! of a program image into words.
//!
//! The machine does no input or output itself. `Um::step` and
//! `Um::run_program` hand back an `Event`: the host prints the character of
//! an `Event::Output`, reads a byte for an `Event::Input` and gives it to
//! `instructions::input`, and ends the process at `Event::Halt` and
//! `Event::Fault`.

pub mod image;
pub mod instructions;
pub mod laws;
pub mod machine;
pub mod um;
