//! The host side of a RISC-V debug module, version 0.13 of the debug
//! specification: attaching to the module, running abstract commands, placing
//! programs in the program buffer, and reading and writing the registers and the
//! memory of the target, through the system bus or the program buffer.
//!
//! The debug module is reached through a debug transport module, which the
//! user of the library supplies as an implementation of [`dtm::Dtm`]. The
//! library assumes nothing of what the transport answers. Instead the interface
//! keeps a record of every access it makes, with the answer, and the contract of
//! each operation says which accesses the operation adds to the record, in
//! which order, and what it makes of each answer. The module [`run`] holds the
//! vocabulary of these contracts, and [`laws`] what follows from them whatever
//! the debug module answers. The module [`model`] describes a debug module
//! with a hart and memory behind it, and shows what the operations achieve where
//! the answers are those of such a module.

pub mod abstract_command;
pub mod assembly;
pub mod attach;
pub mod bits;
pub mod breakpoints;
pub mod clock;
pub mod communication_interface;
pub mod cores;
pub mod dtm;
pub mod error;
pub mod laws;
pub mod memory;
pub mod memory_progbuf;
pub mod model;
pub mod program_buffer;
pub mod registers;
pub mod run;
pub mod state;
pub mod system_bus;
pub mod value;
