//! How the contracts of the interface speak of its dealings with the outside.
//!
//! The interface keeps a record of every access it made and of what came back.
//! A contract follows an operation through that record: it starts where the
//! record ended before the call, names the accesses that the operation makes in
//! their order, and says what the operation makes of each answer.

use crate::dtm::{DmiOperation, Event, RISCV_TIMEOUT_MS};
use crate::error::RiscvError;
use crate::state::Model;
use vstd::prelude::*;

verus! {

/// A place in the record, with what the operation has come to so far.
pub struct Run {
    /// The index of the next event that the operation accounts for.
    pub at: int,
    /// Every event so far was the one that the operation makes at that point.
    pub valid: bool,
    /// The failure that ended the operation, if one did. Nothing follows it.
    pub fault: Option<RiscvError>,
    /// The state of the interface.
    pub state: Model,
}

/// How an operation ended, with the value it computed.
pub struct Done<T> {
    pub run: Run,
    pub value: T,
}

impl<T> Done<T> {
    /// What the operation returns.
    pub open spec fn result(self) -> Result<T, RiscvError> {
        match self.run.fault {
            Some(e) => Err(e),
            None => Ok(self.value),
        }
    }
}

impl Run {
    /// An operation that starts at the event `at` of the record, with the
    /// state `state`.
    pub open spec fn start(at: int, state: Model) -> Run {
        Run { at, valid: true, fault: None, state }
    }

    /// The operation goes on: nothing has failed.
    pub open spec fn live(self) -> bool {
        self.valid && self.fault is None
    }

    /// The operation ends with `e`, unless it has ended before.
    pub open spec fn fail(self, e: RiscvError) -> Run {
        if self.live() {
            Run { fault: Some(e), ..self }
        } else {
            self
        }
    }

    /// The record holds something else than what the operation does here.
    pub open spec fn stray(self) -> Run {
        Run { valid: false, ..self }
    }

    /// The state is `state` from here on, unless the operation has ended.
    pub open spec fn with_state(self, state: Model) -> Run {
        if self.live() {
            Run { state, ..self }
        } else {
            self
        }
    }

    /// The operation has come to `value`.
    pub open spec fn done<T>(self, value: T) -> Done<T> {
        Done { run: self, value }
    }

    /// One immediate DMI access, with the timeout of five seconds.
    #[verifier::opaque]
    pub open spec fn access(
        self,
        log: Seq<Event>,
        address: u64,
        value: u32,
        op: DmiOperation,
    ) -> Done<
        u32,
    > {
        if !self.live() {
            self.done(0u32)
        } else if 0 <= self.at < log.len() {
            match log[self.at] {
                Event::Access { address: a, value: v, op: o, timeout_ms, outcome } => {
                    if a == address && v == value && o == op && timeout_ms == RISCV_TIMEOUT_MS {
                        match outcome {
                            Ok(x) => Run { at: self.at + 1, ..self }.done(x),
                            Err(e) => Run { at: self.at + 1, fault: Some(e), ..self }.done(0u32),
                        }
                    } else {
                        self.stray().done(0u32)
                    }
                },
                _ => self.stray().done(0u32),
            }
        } else {
            self.stray().done(0u32)
        }
    }

    /// A register is read: a `Read` of its address, whose answer is dropped,
    /// then a `NoOp`, whose answer is the value.
    #[verifier::opaque]
    pub open spec fn read_register(self, log: Seq<Event>, address: u64) -> Done<u32> {
        self.access(log, address, 0, DmiOperation::Read).run.access(log, 0, 0, DmiOperation::NoOp)
    }

    /// A register is written: one `Write`.
    pub open spec fn write_register(self, log: Seq<Event>, address: u64, value: u32) -> Run {
        self.access(log, address, value, DmiOperation::Write).run
    }

    /// One access is added to the batch. The value is its place among the results.
    #[verifier::opaque]
    pub open spec fn schedule(
        self,
        log: Seq<Event>,
        address: u64,
        value: u32,
        op: DmiOperation,
    ) -> Done<
        usize,
    > {
        if !self.live() {
            self.done(0usize)
        } else if 0 <= self.at < log.len() {
            match log[self.at] {
                Event::Schedule { address: a, value: v, op: o, outcome } => {
                    if a == address && v == value && o == op {
                        match outcome {
                            Ok(x) => Run { at: self.at + 1, ..self }.done(x),
                            Err(e) => Run {
                                at: self.at + 1,
                                fault: Some(RiscvError::DebugProbe(e)),
                                ..self
                            }.done(0usize),
                        }
                    } else {
                        self.stray().done(0usize)
                    }
                },
                _ => self.stray().done(0usize),
            }
        } else {
            self.stray().done(0usize)
        }
    }

    /// A read of a register is added to the batch: a `Read`, then a `NoOp`
    /// whose place is the place of the value.
    #[verifier::opaque]
    pub open spec fn schedule_read(self, log: Seq<Event>, address: u64) -> Done<usize> {
        self.schedule(log, address, 0, DmiOperation::Read).run.schedule(
            log,
            0,
            0,
            DmiOperation::NoOp,
        )
    }

    /// A write of a register is added to the batch.
    pub open spec fn schedule_write(
        self,
        log: Seq<Event>,
        address: u64,
        value: u32,
    ) -> Done<usize> {
        self.schedule(log, address, value, DmiOperation::Write)
    }

    /// The batch is executed. The value is what its commands brought back.
    #[verifier::opaque]
    pub open spec fn execute(self, log: Seq<Event>) -> Done<Seq<crate::dtm::CommandResult>> {
        if !self.live() {
            self.done(Seq::empty())
        } else if 0 <= self.at < log.len() {
            match log[self.at] {
                Event::Execute { outcome } => {
                    match outcome {
                        Ok(results) => Run { at: self.at + 1, ..self }.done(results@),
                        Err(e) => Run {
                            at: self.at + 1,
                            fault: Some(RiscvError::DebugProbe(e)),
                            ..self
                        }.done(Seq::empty()),
                    }
                },
                _ => self.stray().done(Seq::empty()),
            }
        } else {
            self.stray().done(Seq::empty())
        }
    }

    /// The error state of the transport is reset.
    #[verifier::opaque]
    pub open spec fn reset(self, log: Seq<Event>) -> Run {
        if !self.live() {
            self
        } else if 0 <= self.at < log.len() {
            match log[self.at] {
                Event::Reset { outcome } => {
                    match outcome {
                        Ok(_) => Run { at: self.at + 1, ..self },
                        Err(e) => Run { at: self.at + 1, fault: Some(e), ..self },
                    }
                },
                _ => self.stray(),
            }
        } else {
            self.stray()
        }
    }

    /// The clock is read. The value is the time since polling began, in nanoseconds.
    #[verifier::opaque]
    pub open spec fn elapsed(self, log: Seq<Event>) -> Done<u128> {
        if !self.live() {
            self.done(0u128)
        } else if 0 <= self.at < log.len() {
            match log[self.at] {
                Event::Elapsed { nanos } => Run { at: self.at + 1, ..self }.done(nanos),
                _ => self.stray().done(0u128),
            }
        } else {
            self.stray().done(0u128)
        }
    }
}

/// What the step makes of the record does not change when the record grows.
pub broadcast proof fn lemma_access_stable(
    run: Run,
    log: Seq<Event>,
    new: Seq<Event>,
    address: u64,
    value: u32,
    op: DmiOperation,
)
    requires
        #[trigger] crate::dtm::extends(new, log),
        (#[trigger] run.access(log, address, value, op)).run.valid,
    ensures
        run.access(new, address, value, op) == run.access(log, address, value, op),
        run.at <= log.len() ==> run.access(log, address, value, op).run.at <= log.len(),
{
    reveal(Run::access);
}

/// Nothing follows a failure.
pub broadcast proof fn lemma_access_dead(
    run: Run,
    log: Seq<Event>,
    address: u64,
    value: u32,
    op: DmiOperation,
)
    requires
        !run.live(),
    ensures
        (#[trigger] run.access(log, address, value, op)).run == run,
{
    reveal(Run::access);
}

/// The step leaves the state of the interface as it is.
pub broadcast proof fn lemma_access_keeps_state(
    run: Run,
    log: Seq<Event>,
    address: u64,
    value: u32,
    op: DmiOperation,
)
    ensures
        (#[trigger] run.access(log, address, value, op)).run.state == run.state,
{
    reveal(Run::access);
}

/// What the step makes of the record does not change when the record grows.
pub broadcast proof fn lemma_schedule_stable(
    run: Run,
    log: Seq<Event>,
    new: Seq<Event>,
    address: u64,
    value: u32,
    op: DmiOperation,
)
    requires
        #[trigger] crate::dtm::extends(new, log),
        (#[trigger] run.schedule(log, address, value, op)).run.valid,
    ensures
        run.schedule(new, address, value, op) == run.schedule(log, address, value, op),
        run.at <= log.len() ==> run.schedule(log, address, value, op).run.at <= log.len(),
{
    reveal(Run::schedule);
}

/// Nothing follows a failure.
pub broadcast proof fn lemma_schedule_dead(
    run: Run,
    log: Seq<Event>,
    address: u64,
    value: u32,
    op: DmiOperation,
)
    requires
        !run.live(),
    ensures
        (#[trigger] run.schedule(log, address, value, op)).run == run,
{
    reveal(Run::schedule);
}

/// The step leaves the state of the interface as it is.
pub broadcast proof fn lemma_schedule_keeps_state(
    run: Run,
    log: Seq<Event>,
    address: u64,
    value: u32,
    op: DmiOperation,
)
    ensures
        (#[trigger] run.schedule(log, address, value, op)).run.state == run.state,
{
    reveal(Run::schedule);
}

/// What the step makes of the record does not change when the record grows.
pub broadcast proof fn lemma_execute_stable(
    run: Run,
    log: Seq<Event>,
    new: Seq<Event>,
)
    requires
        #[trigger] crate::dtm::extends(new, log),
        (#[trigger] run.execute(log)).run.valid,
    ensures
        run.execute(new) == run.execute(log),
        run.at <= log.len() ==> run.execute(log).run.at <= log.len(),
{
    reveal(Run::execute);
}

/// Nothing follows a failure.
pub broadcast proof fn lemma_execute_dead(run: Run, log: Seq<Event>)
    requires
        !run.live(),
    ensures
        (#[trigger] run.execute(log)).run == run,
{
    reveal(Run::execute);
}

/// The step leaves the state of the interface as it is.
pub broadcast proof fn lemma_execute_keeps_state(run: Run, log: Seq<Event>)
    ensures
        (#[trigger] run.execute(log)).run.state == run.state,
{
    reveal(Run::execute);
}

/// What the step makes of the record does not change when the record grows.
pub broadcast proof fn lemma_reset_stable(
    run: Run,
    log: Seq<Event>,
    new: Seq<Event>,
)
    requires
        #[trigger] crate::dtm::extends(new, log),
        (#[trigger] run.reset(log)).valid,
    ensures
        run.reset(new) == run.reset(log),
        run.at <= log.len() ==> run.reset(log).at <= log.len(),
{
    reveal(Run::reset);
}

/// Nothing follows a failure.
pub broadcast proof fn lemma_reset_dead(run: Run, log: Seq<Event>)
    requires
        !run.live(),
    ensures
        (#[trigger] run.reset(log)) == run,
{
    reveal(Run::reset);
}

/// The step leaves the state of the interface as it is.
pub broadcast proof fn lemma_reset_keeps_state(run: Run, log: Seq<Event>)
    ensures
        (#[trigger] run.reset(log)).state == run.state,
{
    reveal(Run::reset);
}

/// What the step makes of the record does not change when the record grows.
pub broadcast proof fn lemma_elapsed_stable(
    run: Run,
    log: Seq<Event>,
    new: Seq<Event>,
)
    requires
        #[trigger] crate::dtm::extends(new, log),
        (#[trigger] run.elapsed(log)).run.valid,
    ensures
        run.elapsed(new) == run.elapsed(log),
        run.at <= log.len() ==> run.elapsed(log).run.at <= log.len(),
{
    reveal(Run::elapsed);
}

/// Nothing follows a failure.
pub broadcast proof fn lemma_elapsed_dead(run: Run, log: Seq<Event>)
    requires
        !run.live(),
    ensures
        (#[trigger] run.elapsed(log)).run == run,
{
    reveal(Run::elapsed);
}

/// The step leaves the state of the interface as it is.
pub broadcast proof fn lemma_elapsed_keeps_state(run: Run, log: Seq<Event>)
    ensures
        (#[trigger] run.elapsed(log)).run.state == run.state,
{
    reveal(Run::elapsed);
}

/// What the step makes of the record does not change when the record grows.
pub broadcast proof fn lemma_read_register_stable(
    run: Run,
    log: Seq<Event>,
    new: Seq<Event>,
    address: u64,
)
    requires
        #[trigger] crate::dtm::extends(new, log),
        (#[trigger] run.read_register(log, address)).run.valid,
    ensures
        run.read_register(new, address) == run.read_register(log, address),
        run.at <= log.len() ==> run.read_register(log, address).run.at <= log.len(),
{
    broadcast use {
        lemma_access_stable,
        lemma_access_dead,
        lemma_access_keeps_state,
    };
    reveal(Run::read_register);
}

/// Nothing follows a failure.
pub broadcast proof fn lemma_read_register_dead(run: Run, log: Seq<Event>, address: u64)
    requires
        !run.live(),
    ensures
        (#[trigger] run.read_register(log, address)).run == run,
{
    broadcast use {
        lemma_access_stable,
        lemma_access_dead,
        lemma_access_keeps_state,
    };
    reveal(Run::read_register);
}

/// The step leaves the state of the interface as it is.
pub broadcast proof fn lemma_read_register_keeps_state(run: Run, log: Seq<Event>, address: u64)
    ensures
        (#[trigger] run.read_register(log, address)).run.state == run.state,
{
    broadcast use {
        lemma_access_stable,
        lemma_access_dead,
        lemma_access_keeps_state,
    };
    reveal(Run::read_register);
}

/// What the step makes of the record does not change when the record grows.
pub broadcast proof fn lemma_schedule_read_stable(
    run: Run,
    log: Seq<Event>,
    new: Seq<Event>,
    address: u64,
)
    requires
        #[trigger] crate::dtm::extends(new, log),
        (#[trigger] run.schedule_read(log, address)).run.valid,
    ensures
        run.schedule_read(new, address) == run.schedule_read(log, address),
        run.at <= log.len() ==> run.schedule_read(log, address).run.at <= log.len(),
{
    broadcast use {
        lemma_schedule_stable,
        lemma_schedule_dead,
        lemma_schedule_keeps_state,
    };
    reveal(Run::schedule_read);
}

/// Nothing follows a failure.
pub broadcast proof fn lemma_schedule_read_dead(run: Run, log: Seq<Event>, address: u64)
    requires
        !run.live(),
    ensures
        (#[trigger] run.schedule_read(log, address)).run == run,
{
    broadcast use {
        lemma_schedule_stable,
        lemma_schedule_dead,
        lemma_schedule_keeps_state,
    };
    reveal(Run::schedule_read);
}

/// The step leaves the state of the interface as it is.
pub broadcast proof fn lemma_schedule_read_keeps_state(run: Run, log: Seq<Event>, address: u64)
    ensures
        (#[trigger] run.schedule_read(log, address)).run.state == run.state,
{
    broadcast use {
        lemma_schedule_stable,
        lemma_schedule_dead,
        lemma_schedule_keeps_state,
    };
    reveal(Run::schedule_read);
}

/// What holds of every step: a longer record changes nothing of it, nothing
/// follows a failure, and the state stays as it is.
pub broadcast group group_run {
    crate::dtm::lemma_extends_chain,
    lemma_access_stable,
    lemma_access_dead,
    lemma_access_keeps_state,
    lemma_schedule_stable,
    lemma_schedule_dead,
    lemma_schedule_keeps_state,
    lemma_execute_stable,
    lemma_execute_dead,
    lemma_execute_keeps_state,
    lemma_reset_stable,
    lemma_reset_dead,
    lemma_reset_keeps_state,
    lemma_elapsed_stable,
    lemma_elapsed_dead,
    lemma_elapsed_keeps_state,
    lemma_read_register_stable,
    lemma_read_register_dead,
    lemma_read_register_keeps_state,
    lemma_schedule_read_stable,
    lemma_schedule_read_dead,
    lemma_schedule_read_keeps_state,
}

} // verus!
