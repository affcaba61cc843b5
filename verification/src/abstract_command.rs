//! Abstract commands: how they are issued and waited for, and how core
//! registers are read and written with them.

use crate::communication_interface::RiscvCommunicationInterface;
use crate::cores::RegisterId;
use crate::dtm::{Dtm, Event, RISCV_TIMEOUT_NS};
use crate::error::{AbstractCommandErrorKind, RiscvBusAccess, RiscvError};
use crate::registers::{
    Abstractcs, AccessRegisterCommand, Command, Data0, Dmcontrol, LargeRegister, ABSTRACTCS,
    COMMAND, DATA0, DMCONTROL,
};
use crate::run::{Done, Run};
use crate::state::CoreRegisterAbstractCmdSupport;
use crate::value::RiscvValue;
use std::time::Instant;
use vstd::prelude::*;

verus! {

/// How often `abstractcs` is read at most while a command is busy. The clock
/// ends the wait long before.
pub const MAX_BUSY_POLLS: u64 = 0xffff_ffff_ffff_ffff;

impl Run {
    /// The wait for an abstract command: `abstractcs` is read until `busy` is
    /// clear, and the value is the word that showed it clear. After each word
    /// that shows `busy` set the clock is read, and the wait ends with
    /// `Timeout` once more than five seconds have passed, or when `budget`
    /// reads are used up.
    pub open spec fn poll_busy(self, log: Seq<Event>, budget: nat) -> Done<u32>
        decreases budget,
    {
        if !self.live() {
            self.done(0u32)
        } else if budget == 0 {
            self.fail(RiscvError::Timeout).done(0u32)
        } else {
            let status = self.read_register(log, ABSTRACTCS as u64);
            if !status.run.live() {
                status.run.done(0u32)
            } else if !Abstractcs(status.value).spec_busy() {
                status
            } else {
                let clock = status.run.elapsed(log);
                if !clock.run.live() {
                    clock.run.done(0u32)
                } else if clock.value > RISCV_TIMEOUT_NS {
                    clock.run.fail(RiscvError::Timeout).done(0u32)
                } else {
                    clock.run.poll_busy(log, (budget - 1) as nat)
                }
            }
        }
    }

    /// An abstract command: `dmcontrol` is written so that no halt or resume
    /// is pending, `cmderr` is cleared if `abstractcs` shows one, the command
    /// is written, and `abstractcs` is polled until `busy` is clear. A `cmderr`
    /// that the last word shows is the failure of the command.
    #[verifier::opaque]
    pub open spec fn execute_abstract_command(self, log: Seq<Event>, command: u32) -> Run {
        let prepared = self.write_register(
            log,
            DMCONTROL as u64,
            Dmcontrol::spec_for_abstract_command(),
        );
        let before = prepared.read_register(log, ABSTRACTCS as u64);
        let cleared = if before.run.live() && Abstractcs(before.value).spec_cmderr() != 0 {
            before.run.write_register(log, ABSTRACTCS as u64, Abstractcs::spec_clear_cmderr())
        } else {
            before.run
        };
        let issued = cleared.write_register(log, COMMAND as u64, command);
        let status = issued.poll_busy(log, MAX_BUSY_POLLS as nat);
        if status.run.live() && Abstractcs(status.value).spec_cmderr() != 0 {
            status.run.fail(
                RiscvError::AbstractCommand(
                    AbstractCommandErrorKind::of_code(Abstractcs(status.value).spec_cmderr() as u8),
                ),
            )
        } else {
            status.run
        }
    }

    /// The state learns that `regno` does not support `rw`, where the run has
    /// just failed because a command is not supported.
    pub open spec fn note_unsupported(self, regno: u16, rw: CoreRegisterAbstractCmdSupport) -> Run {
        if self.valid && self.fault == Some(
            RiscvError::AbstractCommand(AbstractCommandErrorKind::NotSupported),
        ) {
            Run { state: self.state.with_unsupported(regno, rw), ..self }
        } else {
            self
        }
    }

    /// A core register is read with an abstract command, unless an earlier
    /// command has shown that it cannot be: then the read fails at once with
    /// `NotSupported`. A command that fails with `NotSupported` is remembered.
    #[verifier::opaque]
    pub open spec fn abstract_cmd_register_read(self, log: Seq<Event>, regno: u16) -> Done<u32> {
        if !self.live() {
            self.done(0u32)
        } else if !self.state.supports(regno, CoreRegisterAbstractCmdSupport::spec_read()) {
            self.fail(RiscvError::AbstractCommand(AbstractCommandErrorKind::NotSupported)).done(
                0u32,
            )
        } else {
            self.execute_abstract_command(
                log,
                AccessRegisterCommand::spec_transfer(regno, RiscvBusAccess::A32, false, false),
            ).note_unsupported(regno, CoreRegisterAbstractCmdSupport::spec_read()).read_register(
                log,
                DATA0 as u64,
            )
        }
    }

    /// A core register is written with an abstract command, unless an earlier
    /// command has shown that it cannot be: then the write fails at once with
    /// `NotSupported`. The value goes to the data registers first. A command
    /// that fails with `NotSupported` is remembered.
    #[verifier::opaque]
    pub open spec fn abstract_cmd_register_write<V: RiscvValue>(
        self,
        log: Seq<Event>,
        regno: u16,
        value: V,
    ) -> Run {
        if !self.live() {
            self
        } else if !self.state.supports(regno, CoreRegisterAbstractCmdSupport::spec_write()) {
            self.fail(RiscvError::AbstractCommand(AbstractCommandErrorKind::NotSupported))
        } else {
            let placed = self.write_large(log, LargeRegister::Arg0, value);
            if placed.live() {
                placed.execute_abstract_command(
                    log,
                    AccessRegisterCommand::spec_transfer(regno, V::spec_width(), true, false),
                ).note_unsupported(regno, CoreRegisterAbstractCmdSupport::spec_write())
            } else {
                placed
            }
        }
    }
}

/// What the step makes of the record does not change when the record grows.
pub broadcast proof fn lemma_poll_busy_stable(
    run: Run,
    log: Seq<Event>,
    new: Seq<Event>,
    budget: nat,
)
    requires
        #[trigger] crate::dtm::extends(new, log),
        (#[trigger] run.poll_busy(log, budget)).run.valid,
    ensures
        run.poll_busy(new, budget) == run.poll_busy(log, budget),
        run.at <= log.len() ==> run.poll_busy(log, budget).run.at <= log.len(),
    decreases budget,
{
    broadcast use crate::run::group_run;
    if run.live() && budget > 0 {
        let status = run.read_register(log, ABSTRACTCS as u64);
        if status.run.live() && Abstractcs(status.value).spec_busy() {
            let clock = status.run.elapsed(log);
            if clock.run.live() && clock.value <= RISCV_TIMEOUT_NS {
                lemma_poll_busy_stable(clock.run, log, new, (budget - 1) as nat);
            }
        }
    }
}

/// Nothing follows a failure.
pub broadcast proof fn lemma_poll_busy_dead(run: Run, log: Seq<Event>, budget: nat)
    requires
        !run.live(),
    ensures
        (#[trigger] run.poll_busy(log, budget)).run == run,
{
}

/// What the step makes of the record does not change when the record grows.
pub broadcast proof fn lemma_execute_abstract_command_stable(
    run: Run,
    log: Seq<Event>,
    new: Seq<Event>,
    command: u32,
)
    requires
        #[trigger] crate::dtm::extends(new, log),
        (#[trigger] run.execute_abstract_command(log, command)).valid,
    ensures
        run.execute_abstract_command(new, command) == run.execute_abstract_command(log, command),
        run.at <= log.len() ==> run.execute_abstract_command(log, command).at <= log.len(),
{
    broadcast use {
        crate::communication_interface::group_registers,
        lemma_poll_busy_stable,
        lemma_poll_busy_dead,
    };
    reveal(Run::execute_abstract_command);
}

/// Nothing follows a failure.
pub broadcast proof fn lemma_execute_abstract_command_dead(run: Run, log: Seq<Event>, command: u32)
    requires
        !run.live(),
    ensures
        (#[trigger] run.execute_abstract_command(log, command)) == run,
{
    broadcast use {
        crate::communication_interface::group_registers,
        lemma_poll_busy_stable,
        lemma_poll_busy_dead,
    };
    reveal(Run::execute_abstract_command);
}

/// What the step makes of the record does not change when the record grows.
pub broadcast proof fn lemma_abstract_cmd_register_read_stable(
    run: Run,
    log: Seq<Event>,
    new: Seq<Event>,
    regno: u16,
)
    requires
        #[trigger] crate::dtm::extends(new, log),
        (#[trigger] run.abstract_cmd_register_read(log, regno)).run.valid,
    ensures
        run.abstract_cmd_register_read(new, regno) == run.abstract_cmd_register_read(log, regno),
        run.at <= log.len() ==> run.abstract_cmd_register_read(log, regno).run.at <= log.len(),
{
    broadcast use {
        crate::communication_interface::group_registers,
        lemma_execute_abstract_command_stable,
        lemma_execute_abstract_command_dead,
    };
    reveal(Run::abstract_cmd_register_read);
}

/// Nothing follows a failure.
pub broadcast proof fn lemma_abstract_cmd_register_read_dead(run: Run, log: Seq<Event>, regno: u16)
    requires
        !run.live(),
    ensures
        (#[trigger] run.abstract_cmd_register_read(log, regno)).run == run,
{
    broadcast use {
        crate::communication_interface::group_registers,
        lemma_execute_abstract_command_stable,
        lemma_execute_abstract_command_dead,
    };
    reveal(Run::abstract_cmd_register_read);
}

/// What the step makes of the record does not change when the record grows.
pub broadcast proof fn lemma_abstract_cmd_register_write_stable<V: RiscvValue>(
    run: Run,
    log: Seq<Event>,
    new: Seq<Event>,
    regno: u16,
    value: V,
)
    requires
        #[trigger] crate::dtm::extends(new, log),
        (#[trigger] run.abstract_cmd_register_write::<V>(log, regno, value)).valid,
    ensures
        run.abstract_cmd_register_write::<V>(new, regno, value)
            == run.abstract_cmd_register_write::<V>(log, regno, value),
        run.at <= log.len() ==>
            run.abstract_cmd_register_write::<V>(log, regno, value).at <= log.len(),
{
    broadcast use {
        crate::communication_interface::group_registers,
        lemma_execute_abstract_command_stable,
        lemma_execute_abstract_command_dead,
    };
    reveal(Run::abstract_cmd_register_write);
}

/// Nothing follows a failure.
pub broadcast proof fn lemma_abstract_cmd_register_write_dead<V: RiscvValue>(
    run: Run,
    log: Seq<Event>,
    regno: u16,
    value: V,
)
    requires
        !run.live(),
    ensures
        (#[trigger] run.abstract_cmd_register_write::<V>(log, regno, value)) == run,
{
    broadcast use {
        crate::communication_interface::group_registers,
        lemma_execute_abstract_command_stable,
        lemma_execute_abstract_command_dead,
    };
    reveal(Run::abstract_cmd_register_write);
}

/// What holds of every step with abstract commands: a longer record changes
/// nothing of it, and nothing follows a failure.
pub broadcast group group_abstract_command {
    crate::communication_interface::group_registers,
    lemma_poll_busy_stable,
    lemma_poll_busy_dead,
    lemma_execute_abstract_command_stable,
    lemma_execute_abstract_command_dead,
    lemma_abstract_cmd_register_read_stable,
    lemma_abstract_cmd_register_read_dead,
    lemma_abstract_cmd_register_write_stable,
    lemma_abstract_cmd_register_write_dead,
}

impl<D: Dtm> RiscvCommunicationInterface<D> {
    /// Waits until no abstract command is busy, and returns the word of
    /// `abstractcs` that showed it.
    fn poll_busy(&mut self) -> (r: Result<Abstractcs, RiscvError>)
        ensures
            final(self).did(
                old(self),
                old(self).run().poll_busy(final(self).log(), MAX_BUSY_POLLS as nat).typed::<
                    Abstractcs,
                >(),
                r,
            ),
    {
        broadcast use group_abstract_command;
        let start_time = Instant::now();
        let mut polls: u64 = 0;
        loop
            invariant
                crate::dtm::extends(self.log(), old(self).log()),
                self.model() == old(self).model(),
                forall|new: Seq<Event>| #[trigger]
                    crate::dtm::extends(new, self.log()) ==> old(self).run().poll_busy(
                        new,
                        MAX_BUSY_POLLS as nat,
                    ) == self.run().poll_busy(new, (MAX_BUSY_POLLS - polls) as nat),
            decreases MAX_BUSY_POLLS - polls,
        {
            broadcast use group_abstract_command;
            let ghost before = self.run();
            let ghost log0 = self.log();
            assert(crate::dtm::extends(log0, log0));
            if polls == MAX_BUSY_POLLS {
                return Err(RiscvError::Timeout);
            }
            let abstractcs: Abstractcs = match self.read_dm_register() {
                Ok(abstractcs) => abstractcs,
                Err(e) => {
                    assert(crate::dtm::extends(self.log(), log0));
                    return Err(e);
                },
            };
            let ghost log1 = self.log();
            assert(crate::dtm::extends(log1, log0));
            if !abstractcs.busy() {
                return Ok(abstractcs);
            }
            let nanos = self.elapsed_nanos(&start_time);
            let ghost log2 = self.log();
            assert(crate::dtm::extends(log2, log1));
            assert(crate::dtm::extends(log2, log0));
            assert(before.read_register(log1, ABSTRACTCS as u64).run.elapsed(log2).value == nanos);
            if nanos > RISCV_TIMEOUT_NS {
                return Err(RiscvError::Timeout);
            }
            polls = polls + 1;
            proof {
                assert forall|new: Seq<Event>| #[trigger]
                    crate::dtm::extends(new, self.log()) implies old(self).run().poll_busy(
                    new,
                    MAX_BUSY_POLLS as nat,
                ) == self.run().poll_busy(new, (MAX_BUSY_POLLS - polls) as nat) by {
                    broadcast use group_abstract_command;
                    assert(crate::dtm::extends(new, log1));
                    assert(crate::dtm::extends(new, log0));
                    assert(before.read_register(new, ABSTRACTCS as u64) == before.read_register(
                        log1,
                        ABSTRACTCS as u64,
                    ));
                    assert(before.read_register(log1, ABSTRACTCS as u64).run.elapsed(new)
                        == before.read_register(log1, ABSTRACTCS as u64).run.elapsed(log2));
                }
            }
        }
    }

    /// Executes an abstract command and waits for it.
    pub fn execute_abstract_command(&mut self, command: u32) -> (r: Result<(), RiscvError>)
        ensures
            final(self).went(
                old(self),
                old(self).run().execute_abstract_command(final(self).log(), command),
                r,
            ),
    {
        broadcast use group_abstract_command;
        reveal(Run::execute_abstract_command);
        // No halt or resume request may be pending while a command runs.
        self.write_dm_register(Dmcontrol::for_abstract_command())?;
        let abstractcs_prev: Abstractcs = self.read_dm_register()?;
        if abstractcs_prev.cmderr() != 0 {
            // An error of an earlier command would make this one fail.
            self.write_dm_register(Abstractcs::clear_cmderr())?;
        }
        self.write_dm_register(Command(command))?;
        let abstractcs = self.poll_busy()?;
        let cmderr = abstractcs.cmderr();
        if cmderr != 0 {
            proof {
                abstractcs.lemma_cmderr_range();
            }
            return Err(RiscvError::AbstractCommand(AbstractCommandErrorKind::parse(cmderr as u8)));
        }
        Ok(())
    }

    /// Whether a register may still be accessible with abstract commands.
    pub fn check_abstract_cmd_register_support(
        &self,
        regno: RegisterId,
        rw: CoreRegisterAbstractCmdSupport,
    ) -> (r: bool)
        ensures
            r == self.model().supports(regno.0, rw),
    {
        self.state.supports(regno.0, rw)
    }

    /// Remembers that a register is not accessible with abstract commands.
    pub fn set_abstract_cmd_register_unsupported(
        &mut self,
        regno: RegisterId,
        rw: CoreRegisterAbstractCmdSupport,
    )
        ensures
            final(self).model() == old(self).model().with_unsupported(regno.0, rw),
            final(self).log() == old(self).log(),
    {
        self.state.set_unsupported(regno.0, rw);
    }

    /// Reads a core register with an abstract command.
    pub fn abstract_cmd_register_read(&mut self, regno: RegisterId) -> (r: Result<u32, RiscvError>)
        ensures
            final(self).did(
                old(self),
                old(self).run().abstract_cmd_register_read(final(self).log(), regno.0),
                r,
            ),
    {
        broadcast use group_abstract_command;
        reveal(Run::abstract_cmd_register_read);
        // An earlier command may have shown that the register cannot be read so.
        if !self.check_abstract_cmd_register_support(
            regno,
            CoreRegisterAbstractCmdSupport::read(),
        ) {
            return Err(RiscvError::AbstractCommand(AbstractCommandErrorKind::NotSupported));
        }
        let command = AccessRegisterCommand::transfer(regno.0, RiscvBusAccess::A32, false, false);
        match self.execute_abstract_command(command.0) {
            Ok(_) => (),
            Err(RiscvError::AbstractCommand(AbstractCommandErrorKind::NotSupported)) => {
                self.set_abstract_cmd_register_unsupported(
                    regno,
                    CoreRegisterAbstractCmdSupport::read(),
                );
                return Err(RiscvError::AbstractCommand(AbstractCommandErrorKind::NotSupported));
            },
            Err(e) => return Err(e),
        }
        let register_value: Data0 = self.read_dm_register()?;
        Ok(register_value.0)
    }

    /// Writes a core register with an abstract command.
    pub fn abstract_cmd_register_write<V: RiscvValue>(&mut self, regno: RegisterId, value: V) -> (r:
        Result<(), RiscvError>)
        ensures
            final(self).went(
                old(self),
                old(self).run().abstract_cmd_register_write(final(self).log(), regno.0, value),
                r,
            ),
    {
        broadcast use group_abstract_command;
        reveal(Run::abstract_cmd_register_write);
        // An earlier command may have shown that the register cannot be written so.
        if !self.check_abstract_cmd_register_support(
            regno,
            CoreRegisterAbstractCmdSupport::write(),
        ) {
            return Err(RiscvError::AbstractCommand(AbstractCommandErrorKind::NotSupported));
        }
        let command = AccessRegisterCommand::transfer(regno.0, V::width(), true, false);
        self.write_large_dtm_register(LargeRegister::Arg0, value)?;
        match self.execute_abstract_command(command.0) {
            Ok(_) => Ok(()),
            Err(RiscvError::AbstractCommand(AbstractCommandErrorKind::NotSupported)) => {
                self.set_abstract_cmd_register_unsupported(
                    regno,
                    CoreRegisterAbstractCmdSupport::write(),
                );
                Err(RiscvError::AbstractCommand(AbstractCommandErrorKind::NotSupported))
            },
            Err(e) => Err(e),
        }
    }
}

} // verus!
