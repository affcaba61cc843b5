//! The program buffer: how a short program is placed in it, and the accesses
//! to CSRs that run such a program.

use crate::assembly::EBREAK;
use crate::communication_interface::RiscvCommunicationInterface;
use crate::cores::RegisterId;
use crate::dtm::{Dtm, Event};
use crate::error::RiscvError;
use crate::registers::{progbuf_address, AccessRegisterCommand};
use crate::run::{Done, Run};
use vstd::prelude::*;

verus! {

/// The number of the register `s0`, which is `x8`, for abstract commands.
pub const S0: u16 = 0x1008;

/// The number of the register `s1`, which is `x9`, for abstract commands.
pub const S1: u16 = 0x1009;

impl Run {
    /// The operation goes on after a failure, to put back what it changed.
    pub open spec fn resume(self) -> Run {
        Run { fault: None, ..self }
    }

    /// The failure of an earlier part of the operation counts before a later one.
    pub open spec fn blame(self, earlier: Run) -> Run {
        if earlier.fault is Some {
            Run { fault: earlier.fault, ..self }
        } else {
            self
        }
    }

    /// One word of the program buffer is written, if the register map has a
    /// register for it.
    pub open spec fn write_progbuf(self, log: Seq<Event>, index: usize, value: u32) -> Run {
        match crate::registers::spec_progbuf_address(index) {
            Some(address) => self.write_register(log, address as u64, value),
            None => self.fail(RiscvError::UnsupportedProgramBufferRegister(index)),
        }
    }

    /// The words of `program` from the index `from` on are written to the
    /// program buffer, in order.
    pub open spec fn write_program(self, log: Seq<Event>, program: Seq<u32>, from: int) -> Run
        decreases program.len() - from,
    {
        if !self.live() || from < 0 || from >= program.len() {
            self
        } else {
            self.write_progbuf(log, from as usize, program[from]).write_program(
                log,
                program,
                from + 1,
            )
        }
    }

    /// A program is placed in the program buffer.
    ///
    /// It fails with `ProgramBufferTooSmall` where the buffer has no room for
    /// the program and, unless the module adds one, for the `ebreak` that ends
    /// it. Where the buffer is known to start with the program, nothing is
    /// written. Else the words are written, then an `ebreak` unless the program
    /// fills the buffer and the module adds one, and the state remembers the
    /// program.
    #[verifier::opaque]
    pub open spec fn setup_program_buffer(self, log: Seq<Event>, program: Seq<u32>) -> Run {
        let required = if self.state.implicit_ebreak {
            program.len()
        } else {
            program.len() + 1
        };
        if !self.live() {
            self
        } else if required > self.state.progbuf_size {
            self.fail(RiscvError::ProgramBufferTooSmall)
        } else if self.state.cache_holds(program) {
            self
        } else {
            let written = self.write_program(log, program, 0);
            let ended = if !self.state.implicit_ebreak || program.len() < self.state.progbuf_size {
                written.write_progbuf(log, program.len() as usize, EBREAK)
            } else {
                written
            };
            ended.with_state(ended.state.with_cached(program))
        }
    }

    /// A CSR is read: `s0` is saved, `csrr s0, csr` is placed in the program
    /// buffer and run, `s0` is read, and `s0` is put back, also where one of
    /// the steps between failed.
    #[verifier::opaque]
    pub open spec fn read_csr_progbuf(self, log: Seq<Event>, address: u16) -> Done<u32> {
        let saved = self.abstract_cmd_register_read(log, S0);
        let work = saved.run.setup_program_buffer(
            log,
            seq![crate::assembly::spec_csrr(8, address)],
        ).execute_abstract_command(
            log,
            AccessRegisterCommand::spec_postexec_only(),
        ).abstract_cmd_register_read(log, S0);
        if saved.run.live() {
            Done {
                run: work.run.resume().abstract_cmd_register_write(log, S0, saved.value).blame(
                    work.run,
                ),
                value: work.value,
            }
        } else {
            saved
        }
    }

    /// A CSR is written: `s0` is saved, the value is put in `s0`, `csrw csr,
    /// s0` is placed in the program buffer and run, and `s0` is put back, also
    /// where one of the steps between failed.
    #[verifier::opaque]
    pub open spec fn write_csr_progbuf(self, log: Seq<Event>, address: u16, value: u32) -> Run {
        let saved = self.abstract_cmd_register_read(log, S0);
        let work = saved.run.abstract_cmd_register_write(log, S0, value).setup_program_buffer(
            log,
            seq![crate::assembly::spec_csrw(address, 8)],
        ).execute_abstract_command(log, AccessRegisterCommand::spec_postexec_only());
        if saved.run.live() {
            work.resume().abstract_cmd_register_write(log, S0, saved.value).blame(work)
        } else {
            saved.run
        }
    }
}

/// What the step makes of the record does not change when the record grows.
pub broadcast proof fn lemma_write_program_stable(
    run: Run,
    log: Seq<Event>,
    new: Seq<Event>,
    program: Seq<u32>,
    from: int,
)
    requires
        #[trigger] crate::dtm::extends(new, log),
        (#[trigger] run.write_program(log, program, from)).valid,
    ensures
        run.write_program(new, program, from) == run.write_program(log, program, from),
        run.at <= log.len() ==> run.write_program(log, program, from).at <= log.len(),
    decreases program.len() - from,
{
    broadcast use crate::run::group_run;
    if run.live() && 0 <= from < program.len() {
        lemma_write_program_stable(
            run.write_progbuf(log, from as usize, program[from]),
            log,
            new,
            program,
            from + 1,
        );
    }
}

/// Nothing follows a failure.
pub broadcast proof fn lemma_write_program_dead(
    run: Run,
    log: Seq<Event>,
    program: Seq<u32>,
    from: int,
)
    requires
        !run.live(),
    ensures
        (#[trigger] run.write_program(log, program, from)) == run,
{
}

/// A program that was written whole has a register for each of its words.
pub proof fn lemma_write_program_fits(run: Run, log: Seq<Event>, program: Seq<u32>, from: int)
    requires
        0 <= from <= program.len(),
        from <= 16,
        run.write_program(log, program, from).live(),
    ensures
        program.len() <= 16,
    decreases program.len() - from,
{
    broadcast use crate::run::group_run;
    if run.live() && from < program.len() {
        lemma_write_program_fits(
            run.write_progbuf(log, from as usize, program[from]),
            log,
            program,
            from + 1,
        );
    }
}

/// What the step makes of the record does not change when the record grows.
pub broadcast proof fn lemma_setup_program_buffer_stable(
    run: Run,
    log: Seq<Event>,
    new: Seq<Event>,
    program: Seq<u32>,
)
    requires
        #[trigger] crate::dtm::extends(new, log),
        (#[trigger] run.setup_program_buffer(log, program)).valid,
    ensures
        run.setup_program_buffer(new, program) == run.setup_program_buffer(log, program),
        run.at <= log.len() ==> run.setup_program_buffer(log, program).at <= log.len(),
{
    broadcast use {
        crate::run::group_run,
        lemma_write_program_stable,
        lemma_write_program_dead,
    };
    reveal(Run::setup_program_buffer);
}

/// Nothing follows a failure.
pub broadcast proof fn lemma_setup_program_buffer_dead(run: Run, log: Seq<Event>, program: Seq<u32>)
    requires
        !run.live(),
    ensures
        (#[trigger] run.setup_program_buffer(log, program)) == run,
{
    broadcast use {
        crate::run::group_run,
        lemma_write_program_stable,
        lemma_write_program_dead,
    };
    reveal(Run::setup_program_buffer);
}

/// What the step makes of the record does not change when the record grows.
pub broadcast proof fn lemma_read_csr_progbuf_stable(
    run: Run,
    log: Seq<Event>,
    new: Seq<Event>,
    address: u16,
)
    requires
        #[trigger] crate::dtm::extends(new, log),
        (#[trigger] run.read_csr_progbuf(log, address)).run.valid,
    ensures
        run.read_csr_progbuf(new, address) == run.read_csr_progbuf(log, address),
        run.at <= log.len() ==> run.read_csr_progbuf(log, address).run.at <= log.len(),
{
    broadcast use {
        crate::abstract_command::group_abstract_command,
        lemma_setup_program_buffer_stable,
        lemma_setup_program_buffer_dead,
    };
    reveal(Run::read_csr_progbuf);
}

/// Nothing follows a failure.
pub broadcast proof fn lemma_read_csr_progbuf_dead(run: Run, log: Seq<Event>, address: u16)
    requires
        !run.live(),
    ensures
        (#[trigger] run.read_csr_progbuf(log, address)).run == run,
{
    broadcast use {
        crate::abstract_command::group_abstract_command,
        lemma_setup_program_buffer_stable,
        lemma_setup_program_buffer_dead,
    };
    reveal(Run::read_csr_progbuf);
}

/// What the step makes of the record does not change when the record grows.
pub broadcast proof fn lemma_write_csr_progbuf_stable(
    run: Run,
    log: Seq<Event>,
    new: Seq<Event>,
    address: u16,
    value: u32,
)
    requires
        #[trigger] crate::dtm::extends(new, log),
        (#[trigger] run.write_csr_progbuf(log, address, value)).valid,
    ensures
        run.write_csr_progbuf(new, address, value) == run.write_csr_progbuf(log, address, value),
        run.at <= log.len() ==> run.write_csr_progbuf(log, address, value).at <= log.len(),
{
    broadcast use {
        crate::abstract_command::group_abstract_command,
        lemma_setup_program_buffer_stable,
        lemma_setup_program_buffer_dead,
    };
    reveal(Run::write_csr_progbuf);
}

/// Nothing follows a failure.
pub broadcast proof fn lemma_write_csr_progbuf_dead(
    run: Run,
    log: Seq<Event>,
    address: u16,
    value: u32,
)
    requires
        !run.live(),
    ensures
        (#[trigger] run.write_csr_progbuf(log, address, value)) == run,
{
    broadcast use {
        crate::abstract_command::group_abstract_command,
        lemma_setup_program_buffer_stable,
        lemma_setup_program_buffer_dead,
    };
    reveal(Run::write_csr_progbuf);
}

/// What holds of every step with the program buffer: a longer record changes
/// nothing of it, and nothing follows a failure.
pub broadcast group group_program_buffer {
    crate::abstract_command::group_abstract_command,
    lemma_write_program_stable,
    lemma_write_program_dead,
    lemma_setup_program_buffer_stable,
    lemma_setup_program_buffer_dead,
    lemma_read_csr_progbuf_stable,
    lemma_read_csr_progbuf_dead,
    lemma_write_csr_progbuf_stable,
    lemma_write_csr_progbuf_dead,
}

impl<D: Dtm> RiscvCommunicationInterface<D> {
    /// Writes one word of the program buffer.
    pub fn write_progbuf(&mut self, index: usize, value: u32) -> (r: Result<(), RiscvError>)
        ensures
            final(self).went(
                old(self),
                old(self).run().write_progbuf(final(self).log(), index, value),
                r,
            ),
    {
        match progbuf_address(index) {
            Some(address) => self.write_dm_register_untyped(address as u64, value),
            None => Err(RiscvError::UnsupportedProgramBufferRegister(index)),
        }
    }

    /// Places a program in the program buffer, unless the buffer is known to
    /// hold it.
    #[verifier::loop_isolation(false)]
    pub fn setup_program_buffer(&mut self, data: &[u32]) -> (r: Result<(), RiscvError>)
        ensures
            final(self).went(
                old(self),
                old(self).run().setup_program_buffer(final(self).log(), data@),
                r,
            ),
    {
        broadcast use group_program_buffer;
        reveal(Run::setup_program_buffer);
        let size = self.state.progbuf_size() as usize;
        let implicit_ebreak = self.state.implicit_ebreak();
        let too_small = if implicit_ebreak {
            data.len() > size
        } else {
            data.len() >= size
        };
        if too_small {
            return Err(RiscvError::ProgramBufferTooSmall);
        }
        if self.state.cache_holds(data) {
            // The buffer holds the program already.
            return Ok(());
        }
        let mut index: usize = 0;
        while index < data.len()
            invariant
                index <= data.len(),
                index <= 16,
                crate::dtm::extends(self.log(), old(self).log()),
                forall|new: Seq<Event>| #[trigger]
                    crate::dtm::extends(new, self.log()) ==> old(self).run().write_program(
                        new,
                        data@,
                        0,
                    ) == self.run().write_program(new, data@, index as int),
            decreases data.len() - index,
        {
            let ghost before = self.run();
            let ghost log0 = self.log();
            assert(crate::dtm::extends(log0, log0));
            match self.write_progbuf(index, data[index]) {
                Ok(_) => {},
                Err(e) => {
                    assert(crate::dtm::extends(self.log(), log0));
                    let ghost failed = before.write_progbuf(self.log(), index, data@[index as int]);
                    assert(failed.write_program(self.log(), data@, index + 1) == failed);
                    return Err(e);
                },
            }
            let ghost log1 = self.log();
            index = index + 1;
            proof {
                assert forall|new: Seq<Event>| #[trigger]
                    crate::dtm::extends(new, self.log()) implies old(self).run().write_program(
                    new,
                    data@,
                    0,
                ) == self.run().write_program(new, data@, index as int) by {
                    broadcast use group_program_buffer;
                    assert(crate::dtm::extends(new, log0));
                    assert(before.write_progbuf(new, (index - 1) as usize, data@[index - 1])
                        == before.write_progbuf(log1, (index - 1) as usize, data@[index - 1]));
                }
            }
        }
        let ghost log2 = self.log();
        assert(crate::dtm::extends(log2, log2));
        // The program ends with an ebreak, unless it fills the buffer and the
        // module adds the ebreak.
        if !implicit_ebreak || data.len() < size {
            match self.write_progbuf(data.len(), EBREAK) {
                Ok(_) => {},
                Err(e) => {
                    assert(crate::dtm::extends(self.log(), log2));
                    return Err(e);
                },
            }
        }
        assert(crate::dtm::extends(self.log(), log2));
        self.state.cache_program(data);
        Ok(())
    }

    /// Reads a CSR through the program buffer.
    pub fn read_csr_progbuf(&mut self, address: u16) -> (r: Result<u32, RiscvError>)
        ensures
            final(self).did(
                old(self),
                old(self).run().read_csr_progbuf(final(self).log(), address),
                r,
            ),
    {
        broadcast use group_program_buffer;
        reveal(Run::read_csr_progbuf);
        let s0 = self.abstract_cmd_register_read(RegisterId(S0))?;
        let work = self.run_csr_read(address);
        // s0 gets its value back, whatever came of the read.
        let restored = self.abstract_cmd_register_write(RegisterId(S0), s0);
        let reg_value = work?;
        restored?;
        Ok(reg_value)
    }

    /// Reads a CSR into `s0` and `s0` from there.
    fn run_csr_read(&mut self, address: u16) -> (r: Result<u32, RiscvError>)
        ensures
            final(self).did(
                old(self),
                old(self).run().setup_program_buffer(
                    final(self).log(),
                    seq![crate::assembly::spec_csrr(8, address)],
                ).execute_abstract_command(
                    final(self).log(),
                    AccessRegisterCommand::spec_postexec_only(),
                ).abstract_cmd_register_read(final(self).log(), S0),
                r,
            ),
    {
        broadcast use group_program_buffer;
        // csrr s0, csr
        let program = [crate::assembly::csrr(8, address)];
        assert(program@ =~= seq![program@[0]]);
        self.setup_program_buffer(program.as_slice())?;
        self.execute_abstract_command(AccessRegisterCommand::postexec_only().0)?;
        self.abstract_cmd_register_read(RegisterId(S0))
    }

    /// Writes a CSR through the program buffer.
    pub fn write_csr_progbuf(&mut self, address: u16, value: u32) -> (r: Result<(), RiscvError>)
        ensures
            final(self).went(
                old(self),
                old(self).run().write_csr_progbuf(final(self).log(), address, value),
                r,
            ),
    {
        broadcast use group_program_buffer;
        reveal(Run::write_csr_progbuf);
        let s0 = self.abstract_cmd_register_read(RegisterId(S0))?;
        let work = self.run_csr_write(address, value);
        // s0 gets its value back, whatever came of the write.
        let restored = self.abstract_cmd_register_write(RegisterId(S0), s0);
        work?;
        restored
    }

    /// Puts a value in `s0` and writes a CSR from there.
    fn run_csr_write(&mut self, address: u16, value: u32) -> (r: Result<(), RiscvError>)
        ensures
            final(self).went(
                old(self),
                old(self).run().abstract_cmd_register_write(
                    final(self).log(),
                    S0,
                    value,
                ).setup_program_buffer(
                    final(self).log(),
                    seq![crate::assembly::spec_csrw(address, 8)],
                ).execute_abstract_command(
                    final(self).log(),
                    AccessRegisterCommand::spec_postexec_only(),
                ),
                r,
            ),
    {
        broadcast use group_program_buffer;
        self.abstract_cmd_register_write(RegisterId(S0), value)?;
        // csrw csr, s0
        let program = [crate::assembly::csrw(address, 8)];
        assert(program@ =~= seq![program@[0]]);
        self.setup_program_buffer(program.as_slice())?;
        self.execute_abstract_command(AccessRegisterCommand::postexec_only().0)
    }
}

} // verus!
