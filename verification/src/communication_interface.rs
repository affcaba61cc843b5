//! Communication with a debug module, as the RISC-V debug specification 0.13
//! describes it.

use crate::dtm::{CommandResult, DeferredResultIndex, DmiOperation, Dtm, Event, RISCV_TIMEOUT_MS};
use crate::error::{DebugProbeError, RiscvError};
use crate::registers::{DebugRegister, LargeRegister};
use crate::run::{Done, Run};
use crate::state::{Model, RiscvCommunicationInterfaceState};
use crate::value::RiscvValue;
use std::time::Instant;
use vstd::prelude::*;

verus! {

/// An interface to the debug module of a RISC-V target.
pub struct RiscvCommunicationInterface<D: Dtm> {
    /// The debug transport module, through which the debug module is reached
    pub dtm: D,
    /// What is known of the debug module
    pub state: RiscvCommunicationInterfaceState,
    /// Every access that was made, with its answer, in order
    pub log: Ghost<Seq<Event>>,
}

impl Done<u32> {
    /// The word that was read, seen as the register `R`.
    pub open spec fn typed<R: DebugRegister>(self) -> Done<R> {
        Done { run: self.run, value: R::spec_from_raw(self.value) }
    }
}

impl<D: Dtm> RiscvCommunicationInterface<D> {
    /// Every access that the interface has made, with its answer, in order.
    pub open spec fn log(&self) -> Seq<Event> {
        self.log@
    }

    /// What the interface knows of the debug module.
    pub open spec fn model(&self) -> Model {
        self.state@
    }

    /// Where an operation that is called now starts.
    pub open spec fn run(&self) -> Run {
        Run::start(self.log().len() as int, self.model())
    }

    /// The interface `self` is what an operation left that was called on `pre`
    /// and went as `run` says.
    pub open spec fn after(&self, pre: &Self, run: Run) -> bool {
        &&& crate::dtm::extends(self.log(), pre.log())
        &&& run.valid
        &&& run.at == self.log().len()
        &&& run.state == self.model()
    }

    /// As `after`, for an operation that returned `r`.
    pub open spec fn did<T>(&self, pre: &Self, done: Done<T>, r: Result<T, RiscvError>) -> bool {
        &&& self.after(pre, done.run)
        &&& r == done.result()
    }

    /// As `did`, for an operation that returns nothing.
    pub open spec fn went(&self, pre: &Self, run: Run, r: Result<(), RiscvError>) -> bool {
        &&& self.after(pre, run)
        &&& r == run.done(()).result()
    }

    /// One immediate access to a DMI register.
    pub(crate) fn access(&mut self, address: u64, value: u32, op: DmiOperation) -> (r: Result<
        u32,
        RiscvError,
    >)
        ensures
            final(self).did(
                old(self),
                old(self).run().access(final(self).log(), address, value, op),
                r,
            ),
    {
        reveal(Run::access);
        let r = self.dtm.dmi_register_access_with_timeout(address, value, op, RISCV_TIMEOUT_MS);
        proof {
            self.log@ = self.log@.push(
                Event::Access { address, value, op, timeout_ms: RISCV_TIMEOUT_MS, outcome: r },
            );
        }
        r
    }

    /// Clears the error state of the transport.
    pub(crate) fn reset_transport(&mut self) -> (r: Result<(), RiscvError>)
        ensures
            final(self).went(old(self), old(self).run().reset(final(self).log()), r),
    {
        reveal(Run::reset);
        let outcome = self.dtm.reset();
        proof {
            self.log@ = self.log@.push(Event::Reset { outcome });
        }
        match outcome {
            Ok(_) => Ok(()),
            Err(e) => Err(e),
        }
    }

    /// Releases the reset line of the target.
    pub fn target_reset_deassert(&mut self) -> (r: Result<(), DebugProbeError>)
        ensures
            final(self).log() == old(self).log().push(Event::ResetDeassert { outcome: r }),
            final(self).model() == old(self).model(),
    {
        let outcome = self.dtm.target_reset_deassert();
        proof {
            self.log@ = self.log@.push(Event::ResetDeassert { outcome });
        }
        outcome
    }

    /// Reads the IDCODE of the target.
    pub fn read_idcode(&mut self) -> (r: Result<u32, DebugProbeError>)
        ensures
            final(self).log() == old(self).log().push(Event::Idcode { outcome: r }),
            final(self).model() == old(self).model(),
    {
        let outcome = self.dtm.read_idcode();
        proof {
            self.log@ = self.log@.push(Event::Idcode { outcome });
        }
        outcome
    }

    /// Reads the clock: the time since `start`, in nanoseconds.
    pub(crate) fn elapsed_nanos(&mut self, start: &Instant) -> (nanos: u128)
        ensures
            final(self).did(old(self), old(self).run().elapsed(final(self).log()), Ok(nanos)),
    {
        reveal(Run::elapsed);
        let nanos = start.elapsed().as_nanos();
        proof {
            self.log@ = self.log@.push(Event::Elapsed { nanos });
        }
        nanos
    }

    /// Reads the register of the debug module at `address`.
    pub fn read_dm_register_untyped(&mut self, address: u64) -> (r: Result<u32, RiscvError>)
        ensures
            final(self).did(
                old(self),
                old(self).run().read_register(final(self).log(), address),
                r,
            ),
    {
        reveal(Run::read_register);
        broadcast use group_registers;
        // Ask for the register.
        self.access(address, 0, DmiOperation::Read)?;
        // The answer comes with the next access.
        self.access(0, 0, DmiOperation::NoOp)
    }

    /// Writes `value` to the register of the debug module at `address`.
    pub fn write_dm_register_untyped(&mut self, address: u64, value: u32) -> (r: Result<
        (),
        RiscvError,
    >)
        ensures
            final(self).went(
                old(self),
                old(self).run().write_register(final(self).log(), address, value),
                r,
            ),
    {
        self.access(address, value, DmiOperation::Write)?;
        Ok(())
    }

    /// Reads the register `R` of the debug module.
    pub fn read_dm_register<R: DebugRegister>(&mut self) -> (r: Result<R, RiscvError>)
        ensures
            final(self).did(
                old(self),
                old(self).run().read_register(
                    final(self).log(),
                    R::spec_address() as u64,
                ).typed::<R>(),
                r,
            ),
    {
        let raw = self.read_dm_register_untyped(R::address() as u64)?;
        Ok(R::from_raw(raw))
    }

    /// Writes the register `R` of the debug module.
    pub fn write_dm_register<R: DebugRegister>(
        &mut self,
        register: R,
    ) -> (r: Result<(), RiscvError>)
        ensures
            final(self).went(
                old(self),
                old(self).run().write_register(
                    final(self).log(),
                    R::spec_address() as u64,
                    register.spec_raw(),
                ),
                r,
            ),
    {
        self.write_dm_register_untyped(R::address() as u64, register.raw())
    }
}

impl Run {
    /// A value of the width of `V` is read from a large register: its slots
    /// from the highest down, slot 0 last.
    #[verifier::opaque]
    pub open spec fn read_large<V: RiscvValue>(
        self,
        log: Seq<Event>,
        register: LargeRegister,
    ) -> Done<
        V,
    > {
        let n = V::spec_width().spec_slots();
        let r3 = if n > 2 {
            self.read_register(log, register.spec_slot_address(3) as u64)
        } else {
            self.done(0u32)
        };
        let r2 = if n > 2 {
            r3.run.read_register(log, register.spec_slot_address(2) as u64)
        } else {
            r3.run.done(0u32)
        };
        let r1 = if n > 1 {
            r2.run.read_register(log, register.spec_slot_address(1) as u64)
        } else {
            r2.run.done(0u32)
        };
        let r0 = r1.run.read_register(log, register.spec_slot_address(0) as u64);
        Done { run: r0.run, value: V::spec_from_slots(r0.value, r1.value, r2.value, r3.value) }
    }

    /// A value is written to a large register: its slots from the highest
    /// down, slot 0 last.
    #[verifier::opaque]
    pub open spec fn write_large<V: RiscvValue>(
        self,
        log: Seq<Event>,
        register: LargeRegister,
        value: V,
    ) -> Run {
        let n = V::spec_width().spec_slots();
        let r3 = if n > 2 {
            self.write_register(log, register.spec_slot_address(3) as u64, value.spec_slot(3))
        } else {
            self
        };
        let r2 = if n > 2 {
            r3.write_register(log, register.spec_slot_address(2) as u64, value.spec_slot(2))
        } else {
            r3
        };
        let r1 = if n > 1 {
            r2.write_register(log, register.spec_slot_address(1) as u64, value.spec_slot(1))
        } else {
            r2
        };
        r1.write_register(log, register.spec_slot_address(0) as u64, value.spec_slot(0))
    }

    /// The read of a large register is added to the batch: its slots from the
    /// highest down. The value is the place of slot 0 among the results.
    #[verifier::opaque]
    pub open spec fn schedule_read_large<V: RiscvValue>(
        self,
        log: Seq<Event>,
        register: LargeRegister,
    ) -> Done<usize> {
        let n = V::spec_width().spec_slots();
        let r3 = if n > 2 {
            self.schedule_read(log, register.spec_slot_address(3) as u64).run
        } else {
            self
        };
        let r2 = if n > 2 {
            r3.schedule_read(log, register.spec_slot_address(2) as u64).run
        } else {
            r3
        };
        let r1 = if n > 1 {
            r2.schedule_read(log, register.spec_slot_address(1) as u64).run
        } else {
            r2
        };
        r1.schedule_read(log, register.spec_slot_address(0) as u64)
    }

    /// The write of a large register is added to the batch: its slots from the
    /// highest down. The value is the place of slot 0 among the results.
    #[verifier::opaque]
    pub open spec fn schedule_write_large<V: RiscvValue>(
        self,
        log: Seq<Event>,
        register: LargeRegister,
        value: V,
    ) -> Done<usize> {
        let n = V::spec_width().spec_slots();
        let r3 = if n > 2 {
            self.schedule_write(log, register.spec_slot_address(3) as u64, value.spec_slot(3)).run
        } else {
            self
        };
        let r2 = if n > 2 {
            r3.schedule_write(log, register.spec_slot_address(2) as u64, value.spec_slot(2)).run
        } else {
            r3
        };
        let r1 = if n > 1 {
            r2.schedule_write(log, register.spec_slot_address(1) as u64, value.spec_slot(1)).run
        } else {
            r2
        };
        r1.schedule_write(log, register.spec_slot_address(0) as u64, value.spec_slot(0))
    }
}

/// What the step makes of the record does not change when the record grows.
pub broadcast proof fn lemma_read_large_stable<V: RiscvValue>(
    run: Run,
    log: Seq<Event>,
    new: Seq<Event>,
    register: LargeRegister,
)
    requires
        #[trigger] crate::dtm::extends(new, log),
        (#[trigger] run.read_large::<V>(log, register)).run.valid,
    ensures
        run.read_large::<V>(new, register) == run.read_large::<V>(log, register),
        run.at <= log.len() ==> run.read_large::<V>(log, register).run.at <= log.len(),
{
    broadcast use crate::run::group_run;
    reveal(Run::read_large);
}

/// Nothing follows a failure.
pub broadcast proof fn lemma_read_large_dead<V: RiscvValue>(
    run: Run,
    log: Seq<Event>,
    register: LargeRegister,
)
    requires
        !run.live(),
    ensures
        (#[trigger] run.read_large::<V>(log, register)).run == run,
{
    broadcast use crate::run::group_run;
    reveal(Run::read_large);
}

/// The step leaves the state of the interface as it is.
pub broadcast proof fn lemma_read_large_keeps_state<V: RiscvValue>(
    run: Run,
    log: Seq<Event>,
    register: LargeRegister,
)
    ensures
        (#[trigger] run.read_large::<V>(log, register)).run.state == run.state,
{
    broadcast use crate::run::group_run;
    reveal(Run::read_large);
}

/// What the step makes of the record does not change when the record grows.
pub broadcast proof fn lemma_write_large_stable<V: RiscvValue>(
    run: Run,
    log: Seq<Event>,
    new: Seq<Event>,
    register: LargeRegister,
    value: V,
)
    requires
        #[trigger] crate::dtm::extends(new, log),
        (#[trigger] run.write_large::<V>(log, register, value)).valid,
    ensures
        run.write_large::<V>(new, register, value) == run.write_large::<V>(log, register, value),
        run.at <= log.len() ==> run.write_large::<V>(log, register, value).at <= log.len(),
{
    broadcast use crate::run::group_run;
    reveal(Run::write_large);
}

/// Nothing follows a failure.
pub broadcast proof fn lemma_write_large_dead<V: RiscvValue>(
    run: Run,
    log: Seq<Event>,
    register: LargeRegister,
    value: V,
)
    requires
        !run.live(),
    ensures
        (#[trigger] run.write_large::<V>(log, register, value)) == run,
{
    broadcast use crate::run::group_run;
    reveal(Run::write_large);
}

/// The step leaves the state of the interface as it is.
pub broadcast proof fn lemma_write_large_keeps_state<V: RiscvValue>(
    run: Run,
    log: Seq<Event>,
    register: LargeRegister,
    value: V,
)
    ensures
        (#[trigger] run.write_large::<V>(log, register, value)).state == run.state,
{
    broadcast use crate::run::group_run;
    reveal(Run::write_large);
}

/// What the step makes of the record does not change when the record grows.
pub broadcast proof fn lemma_schedule_read_large_stable<V: RiscvValue>(
    run: Run,
    log: Seq<Event>,
    new: Seq<Event>,
    register: LargeRegister,
)
    requires
        #[trigger] crate::dtm::extends(new, log),
        (#[trigger] run.schedule_read_large::<V>(log, register)).run.valid,
    ensures
        run.schedule_read_large::<V>(new, register) == run.schedule_read_large::<V>(log, register),
        run.at <= log.len() ==> run.schedule_read_large::<V>(log, register).run.at <= log.len(),
{
    broadcast use crate::run::group_run;
    reveal(Run::schedule_read_large);
}

/// Nothing follows a failure.
pub broadcast proof fn lemma_schedule_read_large_dead<V: RiscvValue>(
    run: Run,
    log: Seq<Event>,
    register: LargeRegister,
)
    requires
        !run.live(),
    ensures
        (#[trigger] run.schedule_read_large::<V>(log, register)).run == run,
{
    broadcast use crate::run::group_run;
    reveal(Run::schedule_read_large);
}

/// The step leaves the state of the interface as it is.
pub broadcast proof fn lemma_schedule_read_large_keeps_state<V: RiscvValue>(
    run: Run,
    log: Seq<Event>,
    register: LargeRegister,
)
    ensures
        (#[trigger] run.schedule_read_large::<V>(log, register)).run.state == run.state,
{
    broadcast use crate::run::group_run;
    reveal(Run::schedule_read_large);
}

/// What the step makes of the record does not change when the record grows.
pub broadcast proof fn lemma_schedule_write_large_stable<V: RiscvValue>(
    run: Run,
    log: Seq<Event>,
    new: Seq<Event>,
    register: LargeRegister,
    value: V,
)
    requires
        #[trigger] crate::dtm::extends(new, log),
        (#[trigger] run.schedule_write_large::<V>(log, register, value)).run.valid,
    ensures
        run.schedule_write_large::<V>(new, register, value)
            == run.schedule_write_large::<V>(log, register, value),
        run.at <= log.len() ==>
            run.schedule_write_large::<V>(log, register, value).run.at <= log.len(),
{
    broadcast use crate::run::group_run;
    reveal(Run::schedule_write_large);
}

/// Nothing follows a failure.
pub broadcast proof fn lemma_schedule_write_large_dead<V: RiscvValue>(
    run: Run,
    log: Seq<Event>,
    register: LargeRegister,
    value: V,
)
    requires
        !run.live(),
    ensures
        (#[trigger] run.schedule_write_large::<V>(log, register, value)).run == run,
{
    broadcast use crate::run::group_run;
    reveal(Run::schedule_write_large);
}

/// The step leaves the state of the interface as it is.
pub broadcast proof fn lemma_schedule_write_large_keeps_state<V: RiscvValue>(
    run: Run,
    log: Seq<Event>,
    register: LargeRegister,
    value: V,
)
    ensures
        (#[trigger] run.schedule_write_large::<V>(log, register, value)).run.state == run.state,
{
    broadcast use crate::run::group_run;
    reveal(Run::schedule_write_large);
}

/// What holds of every step on registers: a longer record changes nothing of it,
/// nothing follows a failure, and the state stays as it is.
pub broadcast group group_registers {
    crate::run::group_run,
    lemma_read_large_stable,
    lemma_read_large_dead,
    lemma_read_large_keeps_state,
    lemma_write_large_stable,
    lemma_write_large_dead,
    lemma_write_large_keeps_state,
    lemma_schedule_read_large_stable,
    lemma_schedule_read_large_dead,
    lemma_schedule_read_large_keeps_state,
    lemma_schedule_write_large_stable,
    lemma_schedule_write_large_dead,
    lemma_schedule_write_large_keeps_state,
}

impl<D: Dtm> RiscvCommunicationInterface<D> {
    /// Adds one DMI access to the batch.
    pub(crate) fn schedule(&mut self, address: u64, value: u32, op: DmiOperation) -> (r: Result<
        DeferredResultIndex,
        RiscvError,
    >)
        ensures
            final(self).did(
                old(self),
                old(self).run().schedule(final(self).log(), address, value, op),
                r,
            ),
    {
        reveal(Run::schedule);
        let outcome = self.dtm.schedule_dmi_register_access(address, value, op);
        proof {
            self.log@ = self.log@.push(Event::Schedule { address, value, op, outcome });
        }
        match outcome {
            Ok(index) => Ok(index),
            Err(e) => Err(RiscvError::DebugProbe(e)),
        }
    }

    /// Performs the accesses of the batch and returns what they brought back.
    pub fn execute(&mut self) -> (r: Result<Vec<CommandResult>, RiscvError>)
        ensures
            final(self).after(old(self), old(self).run().execute(final(self).log()).run),
            match r {
                Ok(results) => old(self).run().execute(final(self).log()).result() == Ok::<
                    Seq<CommandResult>,
                    RiscvError,
                >(results@),
                Err(e) => old(self).run().execute(final(self).log()).result() == Err::<
                    Seq<CommandResult>,
                    RiscvError,
                >(e),
            },
    {
        reveal(Run::execute);
        let outcome = self.dtm.execute();
        proof {
            self.log@ = self.log@.push(Event::Execute { outcome });
        }
        match outcome {
            Ok(results) => Ok(results),
            Err(e) => Err(RiscvError::DebugProbe(e)),
        }
    }

    /// Adds the write of the register at `address` to the batch.
    pub fn schedule_write_dm_register_untyped(&mut self, address: u64, value: u32) -> (r: Result<
        DeferredResultIndex,
        RiscvError,
    >)
        ensures
            final(self).did(
                old(self),
                old(self).run().schedule_write(final(self).log(), address, value),
                r,
            ),
    {
        self.schedule(address, value, DmiOperation::Write)
    }

    /// Adds the read of the register at `address` to the batch.
    pub fn schedule_read_dm_register_untyped(&mut self, address: u64) -> (r: Result<
        DeferredResultIndex,
        RiscvError,
    >)
        ensures
            final(self).did(
                old(self),
                old(self).run().schedule_read(final(self).log(), address),
                r,
            ),
    {
        reveal(Run::schedule_read);
        broadcast use group_registers;
        // Ask for the register.
        self.schedule(address, 0, DmiOperation::Read)?;
        // The answer comes with the next access.
        self.schedule(0, 0, DmiOperation::NoOp)
    }

    /// Adds the write of the register `R` to the batch.
    pub fn schedule_write_dm_register<R: DebugRegister>(&mut self, register: R) -> (r: Result<
        (),
        RiscvError,
    >)
        ensures
            final(self).went(
                old(self),
                old(self).run().schedule_write(
                    final(self).log(),
                    R::spec_address() as u64,
                    register.spec_raw(),
                ).run,
                r,
            ),
    {
        self.schedule_write_dm_register_untyped(R::address() as u64, register.raw())?;
        Ok(())
    }

    /// Adds the read of the register `R` to the batch.
    pub fn schedule_read_dm_register<R: DebugRegister>(&mut self) -> (r: Result<
        DeferredResultIndex,
        RiscvError,
    >)
        ensures
            final(self).did(
                old(self),
                old(self).run().schedule_read(final(self).log(), R::spec_address() as u64),
                r,
            ),
    {
        self.schedule_read_dm_register_untyped(R::address() as u64)
    }

    /// Reads a value of the width of `V` from a large register.
    pub fn read_large_dtm_register<V: RiscvValue>(&mut self, register: LargeRegister) -> (r: Result<
        V,
        RiscvError,
    >)
        ensures
            final(self).did(
                old(self),
                old(self).run().read_large::<V>(final(self).log(), register),
                r,
            ),
    {
        reveal(Run::read_large);
        broadcast use group_registers;
        let slots = V::width().slots();
        // Slot 0 is read last: reading it is what has side effects.
        let s3 = if slots > 2 {
            self.read_dm_register_untyped(register.slot_address(3) as u64)?
        } else {
            0
        };
        let s2 = if slots > 2 {
            self.read_dm_register_untyped(register.slot_address(2) as u64)?
        } else {
            0
        };
        let s1 = if slots > 1 {
            self.read_dm_register_untyped(register.slot_address(1) as u64)?
        } else {
            0
        };
        let s0 = self.read_dm_register_untyped(register.slot_address(0) as u64)?;
        Ok(V::from_slots(s0, s1, s2, s3))
    }

    /// Writes a value to a large register.
    pub fn write_large_dtm_register<V: RiscvValue>(
        &mut self,
        register: LargeRegister,
        value: V,
    ) -> (r:
        Result<(), RiscvError>)
        ensures
            final(self).went(
                old(self),
                old(self).run().write_large(final(self).log(), register, value),
                r,
            ),
    {
        reveal(Run::write_large);
        broadcast use group_registers;
        let slots = V::width().slots();
        // Slot 0 is written last: writing it is what has side effects.
        if slots > 2 {
            self.write_dm_register_untyped(register.slot_address(3) as u64, value.slot(3))?;
            self.write_dm_register_untyped(register.slot_address(2) as u64, value.slot(2))?;
        }
        if slots > 1 {
            self.write_dm_register_untyped(register.slot_address(1) as u64, value.slot(1))?;
        }
        self.write_dm_register_untyped(register.slot_address(0) as u64, value.slot(0))
    }

    /// Adds the read of a large register to the batch.
    pub fn schedule_read_large_dtm_register<V: RiscvValue>(
        &mut self,
        register: LargeRegister,
    ) -> (r:
        Result<DeferredResultIndex, RiscvError>)
        ensures
            final(self).did(
                old(self),
                old(self).run().schedule_read_large::<V>(final(self).log(), register),
                r,
            ),
    {
        reveal(Run::schedule_read_large);
        broadcast use group_registers;
        let slots = V::width().slots();
        if slots > 2 {
            self.schedule_read_dm_register_untyped(register.slot_address(3) as u64)?;
            self.schedule_read_dm_register_untyped(register.slot_address(2) as u64)?;
        }
        if slots > 1 {
            self.schedule_read_dm_register_untyped(register.slot_address(1) as u64)?;
        }
        self.schedule_read_dm_register_untyped(register.slot_address(0) as u64)
    }

    /// Adds the write of a large register to the batch.
    pub fn schedule_write_large_dtm_register<V: RiscvValue>(
        &mut self,
        register: LargeRegister,
        value: V,
    ) -> (r: Result<DeferredResultIndex, RiscvError>)
        ensures
            final(self).did(
                old(self),
                old(self).run().schedule_write_large(final(self).log(), register, value),
                r,
            ),
    {
        reveal(Run::schedule_write_large);
        broadcast use group_registers;
        let slots = V::width().slots();
        if slots > 2 {
            self.schedule_write_dm_register_untyped(
                register.slot_address(3) as u64,
                value.slot(3),
            )?;
            self.schedule_write_dm_register_untyped(
                register.slot_address(2) as u64,
                value.slot(2),
            )?;
        }
        if slots > 1 {
            self.schedule_write_dm_register_untyped(
                register.slot_address(1) as u64,
                value.slot(1),
            )?;
        }
        self.schedule_write_dm_register_untyped(register.slot_address(0) as u64, value.slot(0))
    }
}

} // verus!
