//! A debug module as the debug specification describes it, as far as the
//! interface drives it: a system bus and one hart with a program buffer,
//! plain memory behind both, and CSRs that hold what is written to them. Its
//! commands and programs never fail.
//!
//! Nothing in the library relies on the model. It serves to say what the
//! interface achieves where the transport answers as such a module does: that
//! what was written to memory is what is read from it, and that the scratch
//! registers of the hart are as they were after an access.

pub mod program_buffer;
pub mod programs;
pub mod steps;
pub mod system_bus;
pub mod words;

use crate::assembly::EBREAK;
use crate::bits::{field, flag};
use crate::dtm::{CommandResult, DmiOperation, Event};
use crate::registers::{Sbcs, COMMAND, DATA0, PROGBUF0, SBADDRESS0, SBCS, SBDATA0};
use vstd::prelude::*;

verus! {

/// The state of the debug module and of what is behind it. What is `None`
/// is left open: the model says nothing of it.
pub struct Module {
    /// What the next access brings back: the value of the register that was
    /// read last.
    pub pending: Option<u32>,
    /// What the accesses of the open batch have brought back, in the order in
    /// which they were scheduled.
    pub results: Seq<Option<u32>>,
    /// `sbcs`, as it was written last
    pub sbcs: u32,
    /// `sbaddress0`
    pub sbaddress: u32,
    /// `sbdata0`
    pub sbdata0: u32,
    /// The 32-bit word at each address of the memory
    pub memory: Map<u32, u32>,
    /// `data0`
    pub data0: u32,
    /// The words of the program buffer: 16 of them
    pub progbuf: Seq<u32>,
    /// The number of words of the program buffer that the hart executes
    /// before it stops by itself
    pub size: int,
    /// The registers `x0` to `x31` of the hart
    pub x: Seq<u32>,
    /// The CSRs of the hart, by their numbers
    pub csrs: Map<u16, u32>,
}

impl Module {
    /// What holds of every module: it has 16 words of program buffer and 32
    /// registers.
    pub open spec fn wf(self) -> bool {
        &&& self.progbuf.len() == 16
        &&& self.x.len() == 32
        &&& 0 <= self.size <= 16
    }

    /// The hart executes one instruction, if it is one that the model knows:
    /// a load or a store of a word or an addition of an immediate, each with
    /// an immediate below 2048, the read of a CSR into a register, or the
    /// write of a CSR from a register.
    pub open spec fn execute(self, word: u32) -> Option<Module> {
        let opcode = field(word, 6, 0);
        let rd = field(word, 11, 7) as int;
        let funct3 = field(word, 14, 12);
        let rs1 = field(word, 19, 15) as int;
        let rs2 = field(word, 24, 20) as int;
        let imm = field(word, 31, 20);
        let imm_store = (field(word, 31, 25) * 32 + field(word, 11, 7)) as u32;
        if opcode == crate::assembly::OPCODE_LOAD && funct3 == 2 && imm < 2048 {
            Some(Module { x: self.x.update(rd, self.memory[(self.x[rs1] + imm) as u32]), ..self })
        } else if opcode == crate::assembly::OPCODE_STORE && funct3 == 2 && imm_store < 2048 {
            Some(
                Module {
                    memory: self.memory.insert((self.x[rs1] + imm_store) as u32, self.x[rs2]),
                    ..self
                },
            )
        } else if opcode == crate::assembly::OPCODE_OP_IMM && funct3 == 0 && imm < 2048 {
            Some(Module { x: self.x.update(rd, (self.x[rs1] + imm) as u32), ..self })
        } else if opcode == crate::assembly::OPCODE_SYSTEM && funct3
            == crate::assembly::FUNCT3_CSRRS && rs1 == 0 {
            Some(Module { x: self.x.update(rd, self.csrs[imm as u16]), ..self })
        } else if opcode == crate::assembly::OPCODE_SYSTEM && funct3
            == crate::assembly::FUNCT3_CSRRW && rd == 0 {
            Some(Module { csrs: self.csrs.insert(imm as u16, self.x[rs1]), ..self })
        } else {
            None
        }
    }

    /// The hart executes the program buffer from the word `pc` on, until it
    /// comes to an `ebreak`, to the end of the buffer, or to an instruction
    /// that the model does not know.
    pub open spec fn run_program(self, pc: int) -> Module
        decreases 16 - pc,
    {
        if pc < 0 || pc >= 16 || pc >= self.size || self.progbuf[pc] == EBREAK {
            self
        } else {
            match self.execute(self.progbuf[pc]) {
                Some(next) => next.run_program(pc + 1),
                None => self,
            }
        }
    }

    /// An abstract command is written: a command that accesses one of the
    /// registers `x0` to `x31` in 32 bits moves the register to `data0` or
    /// `data0` to the register, and a command that asks for it runs the
    /// program buffer then.
    pub open spec fn command(self, command: u32) -> Module {
        let regno = field(command, 15, 0);
        let moved = if field(command, 31, 24) == 0 && flag(command, 17) && field(command, 22, 20)
            == 2 && 0x1000 <= regno < 0x1020 {
            if flag(command, 16) {
                Module { x: self.x.update(regno - 0x1000, self.data0), ..self }
            } else {
                Module { data0: self.x[regno - 0x1000], ..self }
            }
        } else {
            self
        };
        if field(command, 31, 24) == 0 && flag(command, 18) {
            moved.run_program(0)
        } else {
            moved
        }
    }

    /// The system bus reads the word at its address, where it is set up for
    /// 32-bit accesses, and moves the address on if it is set up so.
    pub open spec fn bus_read(self) -> Module {
        if Sbcs(self.sbcs).spec_sbaccess() == 2 {
            Module {
                sbdata0: self.memory[self.sbaddress],
                sbaddress: if Sbcs(self.sbcs).spec_sbautoincrement() {
                    (self.sbaddress + 4) as u32
                } else {
                    self.sbaddress
                },
                ..self
            }
        } else {
            self
        }
    }

    /// The system bus writes the word at its address, where it is set up for
    /// 32-bit accesses, and moves the address on if it is set up so.
    pub open spec fn bus_write(self) -> Module {
        if Sbcs(self.sbcs).spec_sbaccess() == 2 {
            Module {
                memory: self.memory.insert(self.sbaddress, self.sbdata0),
                sbaddress: if Sbcs(self.sbcs).spec_sbautoincrement() {
                    (self.sbaddress + 4) as u32
                } else {
                    self.sbaddress
                },
                ..self
            }
        } else {
            self
        }
    }

    /// A register is read: its value, where the model has one, and what the
    /// read does to the module.
    pub open spec fn read(self, address: u64) -> (Module, Option<u32>) {
        if address == SBDATA0 {
            (
                if Sbcs(self.sbcs).spec_sbreadondata() {
                    self.bus_read()
                } else {
                    self
                },
                Some(self.sbdata0),
            )
        } else if address == SBADDRESS0 {
            (self, Some(self.sbaddress))
        } else if address == DATA0 {
            (self, Some(self.data0))
        } else {
            (self, None)
        }
    }

    /// A register is written.
    pub open spec fn write(self, address: u64, value: u32) -> Module {
        if address == SBCS {
            Module { sbcs: value, ..self }
        } else if address == SBADDRESS0 {
            if Sbcs(self.sbcs).spec_sbreadonaddr() {
                Module { sbaddress: value, ..self }.bus_read()
            } else {
                Module { sbaddress: value, ..self }
            }
        } else if address == SBDATA0 {
            Module { sbdata0: value, ..self }.bus_write()
        } else if address == DATA0 {
            Module { data0: value, ..self }
        } else if PROGBUF0 <= address < PROGBUF0 + 16 {
            Module { progbuf: self.progbuf.update(address - PROGBUF0, value), ..self }
        } else if address == COMMAND {
            self.command(value)
        } else {
            self
        }
    }

    /// One DMI access: what it does to the module, and what it brings back
    /// where the model says so. A read brings its value back with the next
    /// access.
    pub open spec fn access(self, address: u64, value: u32, op: DmiOperation) -> (
        Module,
        Option<u32>,
    ) {
        match op {
            DmiOperation::NoOp => (self, self.pending),
            DmiOperation::Read => (
                Module { pending: self.read(address).1, ..self.read(address).0 },
                None,
            ),
            DmiOperation::Write => (self.write(address, value), None),
        }
    }

    /// The module after an event of the record, if the event is one that the
    /// module can have answered so. An access of a batch is taken to act when
    /// it is scheduled; the interface makes no other access while a batch is
    /// open.
    pub open spec fn after(self, event: Event) -> Option<Module> {
        match event {
            Event::Access { address, value, op, timeout_ms, outcome } => match outcome {
                Ok(answer) => {
                    let (next, expected) = self.access(address, value, op);
                    if expected is Some && expected != Some(answer) {
                        None
                    } else {
                        Some(next)
                    }
                },
                Err(_) => None,
            },
            Event::Schedule { address, value, op, outcome } => match outcome {
                Ok(index) => {
                    let (next, expected) = self.access(address, value, op);
                    if index == self.results.len() {
                        Some(Module { results: self.results.push(expected), ..next })
                    } else {
                        None
                    }
                },
                Err(_) => None,
            },
            Event::Execute { outcome } => match outcome {
                Ok(results) => {
                    if results@.len() == self.results.len() && (forall|i: int|
                        0 <= i < self.results.len() && (#[trigger] self.results[i]) is Some
                            ==> results@[i] == CommandResult::U32(self.results[i]->0)) {
                        Some(Module { results: Seq::empty(), ..self })
                    } else {
                        None
                    }
                },
                Err(_) => None,
            },
            _ => Some(self),
        }
    }

    /// The module after the events of the record from `from` up to `to`, if
    /// each of them is one that the module can have answered so.
    pub open spec fn after_all(self, log: Seq<Event>, from: int, to: int) -> Option<Module>
        decreases to - from,
    {
        if from >= to {
            Some(self)
        } else if from < 0 || from >= log.len() {
            None
        } else {
            match self.after(log[from]) {
                Some(next) => next.after_all(log, from + 1, to),
                None => None,
            }
        }
    }
}

/// The address of the word of an index among words that follow each other
/// in memory from `address` on.
pub open spec fn word_at(address: u32, index: int) -> u32 {
    (address + 4 * index) as u32
}

} // verus!
