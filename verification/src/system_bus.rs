//! Memory accesses through the system bus of the debug module.

use crate::communication_interface::RiscvCommunicationInterface;
use crate::dtm::{CommandResult, DeferredResultIndex, Dtm, Event};
use crate::error::{DebugProbeError, RiscvError};
use crate::registers::{LargeRegister, Sbaddress0, Sbcs, SBADDRESS0, SBCS};
use crate::run::{Done, Run};
use crate::value::{RiscvValue, RiscvValue32};
use vstd::prelude::*;

verus! {

/// The 32-bit word at a place among the results of a batch, if there is one.
pub open spec fn spec_result_word(results: Seq<CommandResult>, index: usize) -> Option<u32> {
    if index < results.len() {
        match results[index as int] {
            CommandResult::U32(word) => Some(word),
            _ => None,
        }
    } else {
        None
    }
}

/// The 32-bit word at a place among the results of a batch, if there is one.
pub fn result_word(results: &Vec<CommandResult>, index: DeferredResultIndex) -> (word: Option<u32>)
    ensures
        word == spec_result_word(results@, index),
{
    if index < results.len() {
        match &results[index] {
            CommandResult::U32(word) => Some(*word),
            _ => None,
        }
    } else {
        None
    }
}

/// The failure that stands for a batch without the result that was waited for.
pub open spec fn batch_error() -> RiscvError {
    RiscvError::DebugProbe(DebugProbeError::BatchError)
}

/// The values that are taken from the results of a batch, one for each place
/// of `indices` from `from` on, into `data` at the same index. It stops at the
/// first place that holds no 32-bit word; the flag says whether none did.
pub open spec fn store_words<V: RiscvValue32>(
    data: Seq<V>,
    indices: Seq<usize>,
    results: Seq<CommandResult>,
    from: int,
) -> (Seq<V>, bool)
    decreases indices.len() - from,
{
    if from < 0 || from >= indices.len() || from >= data.len() {
        (data, true)
    } else {
        match spec_result_word(results, indices[from]) {
            Some(word) => store_words(
                data.update(from, V::spec_from_slots(word, 0, 0, 0)),
                indices,
                results,
                from + 1,
            ),
            None => (data, false),
        }
    }
}

impl Run {
    /// What the status of the system bus makes of an access: a `sberror` is
    /// the failure `SystemBusAccess`.
    pub open spec fn check_sberror(self, sbcs: u32) -> Run {
        if Sbcs(sbcs).spec_sberror() != 0 {
            self.fail(RiscvError::SystemBusAccess)
        } else {
            self
        }
    }

    /// One value is read through the system bus: `sbcs` is set up for reads on
    /// a write of the address, the address is written, the data is read, and
    /// `sbcs` is read for an error.
    #[verifier::opaque]
    pub open spec fn read_sysbus<V: RiscvValue>(self, log: Seq<Event>, address: u32) -> Done<V> {
        let data = self.write_register(
            log,
            SBCS as u64,
            Sbcs::spec_for_access(V::spec_width(), true, false, false),
        ).write_register(log, SBADDRESS0 as u64, address).read_large::<V>(
            log,
            LargeRegister::Sbdata,
        );
        let status = data.run.read_register(log, SBCS as u64);
        Done { run: status.run.check_sberror(status.value), value: data.value }
    }

    /// The writes of the values of `data` from `from` on are added to the batch.
    pub open spec fn schedule_writes<V: RiscvValue>(
        self,
        log: Seq<Event>,
        data: Seq<V>,
        from: int,
    ) -> Run
        decreases data.len() - from,
    {
        if !self.live() || from < 0 || from >= data.len() {
            self
        } else {
            self.schedule_write_large(log, LargeRegister::Sbdata, data[from]).run.schedule_writes(
                log,
                data,
                from + 1,
            )
        }
    }

    /// Values are written through the system bus, to consecutive addresses:
    /// one batch sets `sbcs` up for an address that grows with each access,
    /// writes the address and each value, and reads `sbcs`. The word it
    /// brings back shows whether an access failed.
    #[verifier::opaque]
    pub open spec fn write_sysbus<V: RiscvValue>(
        self,
        log: Seq<Event>,
        address: u32,
        data: Seq<V>,
    ) -> Run {
        let status = self.schedule_write(
            log,
            SBCS as u64,
            Sbcs::spec_for_access(V::spec_width(), false, false, true),
        ).run.schedule_write(log, SBADDRESS0 as u64, address).run.schedule_writes(
            log,
            data,
            0,
        ).schedule_read(log, SBCS as u64);
        let batch = status.run.execute(log);
        match spec_result_word(batch.value, status.value) {
            Some(sbcs) => batch.run.check_sberror(sbcs),
            None => batch.run.fail(batch_error()),
        }
    }

    /// `count` reads of a value through the system bus are added to the
    /// batch. The value is `indices` with the place of each read's result added.
    pub open spec fn schedule_reads<V: RiscvValue>(
        self,
        log: Seq<Event>,
        count: nat,
        indices: Seq<usize>,
    ) -> Done<Seq<usize>>
        decreases count,
    {
        if !self.live() || count == 0 {
            self.done(indices)
        } else {
            let one = self.schedule_read_large::<V>(log, LargeRegister::Sbdata);
            one.run.schedule_reads::<V>(log, (count - 1) as nat, indices.push(one.value))
        }
    }

    /// Values are read through the system bus, from consecutive addresses,
    /// into all of `data`; nothing is done for an empty `data`.
    ///
    /// One batch sets `sbcs` up so that the write of the address and each read
    /// of the data start the next read at an address that grows, reads all
    /// values but the last, sets `sbcs` up anew so that the address stays, reads
    /// the last value and reads `sbcs`. The values are taken from what the batch
    /// brings back, and the word of `sbcs` shows whether an access failed.
    #[verifier::opaque]
    pub open spec fn read_multiple_sysbus<V: RiscvValue32>(
        self,
        log: Seq<Event>,
        address: u32,
        data: Seq<V>,
    ) -> Done<Seq<V>> {
        if data.len() == 0 {
            self.done(data)
        } else {
            let first = self.schedule_write(
                log,
                SBCS as u64,
                Sbcs::spec_for_access(V::spec_width(), true, true, true),
            ).run.schedule_write(log, SBADDRESS0 as u64, address).run.schedule_reads::<V>(
                log,
                (data.len() - 1) as nat,
                Seq::empty(),
            );
            let last = first.run.schedule_write(
                log,
                SBCS as u64,
                Sbcs::spec_for_access(V::spec_width(), true, true, false),
            ).run.schedule_read_large::<V>(log, LargeRegister::Sbdata);
            let status = last.run.schedule_read(log, SBCS as u64);
            let batch = status.run.execute(log);
            let stored = store_words(data, first.value.push(last.value), batch.value, 0);
            if !batch.run.live() {
                batch.run.done(data)
            } else if !stored.1 {
                batch.run.fail(batch_error()).done(stored.0)
            } else {
                match spec_result_word(batch.value, status.value) {
                    Some(sbcs) => batch.run.check_sberror(sbcs).done(stored.0),
                    None => batch.run.fail(batch_error()).done(stored.0),
                }
            }
        }
    }
}

/// What the step makes of the record does not change when the record grows.
pub broadcast proof fn lemma_read_sysbus_stable<V: RiscvValue>(
    run: Run,
    log: Seq<Event>,
    new: Seq<Event>,
    address: u32,
)
    requires
        #[trigger] crate::dtm::extends(new, log),
        (#[trigger] run.read_sysbus::<V>(log, address)).run.valid,
    ensures
        run.read_sysbus::<V>(new, address) == run.read_sysbus::<V>(log, address),
        run.at <= log.len() ==> run.read_sysbus::<V>(log, address).run.at <= log.len(),
{
    broadcast use crate::communication_interface::group_registers;
    reveal(Run::read_sysbus);
}

/// Nothing follows a failure.
pub broadcast proof fn lemma_read_sysbus_dead<V: RiscvValue>(
    run: Run,
    log: Seq<Event>,
    address: u32,
)
    requires
        !run.live(),
    ensures
        (#[trigger] run.read_sysbus::<V>(log, address)).run == run,
{
    broadcast use crate::communication_interface::group_registers;
    reveal(Run::read_sysbus);
}

/// What the step makes of the record does not change when the record grows.
pub broadcast proof fn lemma_schedule_writes_stable<V: RiscvValue>(
    run: Run,
    log: Seq<Event>,
    new: Seq<Event>,
    data: Seq<V>,
    from: int,
)
    requires
        #[trigger] crate::dtm::extends(new, log),
        (#[trigger] run.schedule_writes(log, data, from)).valid,
    ensures
        run.schedule_writes(new, data, from) == run.schedule_writes(log, data, from),
        run.at <= log.len() ==> run.schedule_writes(log, data, from).at <= log.len(),
    decreases data.len() - from,
{
    broadcast use crate::communication_interface::group_registers;
    if run.live() && 0 <= from < data.len() {
        lemma_schedule_writes_stable(
            run.schedule_write_large(log, LargeRegister::Sbdata, data[from]).run,
            log,
            new,
            data,
            from + 1,
        );
    }
}

/// Nothing follows a failure.
pub broadcast proof fn lemma_schedule_writes_dead<V: RiscvValue>(
    run: Run,
    log: Seq<Event>,
    data: Seq<V>,
    from: int,
)
    requires
        !run.live(),
    ensures
        (#[trigger] run.schedule_writes::<V>(log, data, from)) == run,
{
}

/// What the step makes of the record does not change when the record grows.
pub broadcast proof fn lemma_schedule_reads_stable<V: RiscvValue>(
    run: Run,
    log: Seq<Event>,
    new: Seq<Event>,
    count: nat,
    indices: Seq<usize>,
)
    requires
        #[trigger] crate::dtm::extends(new, log),
        (#[trigger] run.schedule_reads::<V>(log, count, indices)).run.valid,
    ensures
        run.schedule_reads::<V>(new, count, indices)
            == run.schedule_reads::<V>(log, count, indices),
        run.at <= log.len() ==> run.schedule_reads::<V>(log, count, indices).run.at <= log.len(),
    decreases count,
{
    broadcast use crate::communication_interface::group_registers;
    if run.live() && count > 0 {
        let one = run.schedule_read_large::<V>(log, LargeRegister::Sbdata);
        lemma_schedule_reads_stable::<V>(
            one.run,
            log,
            new,
            (count - 1) as nat,
            indices.push(one.value),
        );
    }
}

/// Nothing follows a failure.
pub broadcast proof fn lemma_schedule_reads_dead<V: RiscvValue>(
    run: Run,
    log: Seq<Event>,
    count: nat,
    indices: Seq<usize>,
)
    requires
        !run.live(),
    ensures
        (#[trigger] run.schedule_reads::<V>(log, count, indices)).run == run,
{
}

/// What the step makes of the record does not change when the record grows.
pub broadcast proof fn lemma_write_sysbus_stable<V: RiscvValue>(
    run: Run,
    log: Seq<Event>,
    new: Seq<Event>,
    address: u32,
    data: Seq<V>,
)
    requires
        #[trigger] crate::dtm::extends(new, log),
        (#[trigger] run.write_sysbus::<V>(log, address, data)).valid,
    ensures
        run.write_sysbus::<V>(new, address, data) == run.write_sysbus::<V>(log, address, data),
        run.at <= log.len() ==> run.write_sysbus::<V>(log, address, data).at <= log.len(),
{
    broadcast use {
        crate::communication_interface::group_registers,
        lemma_schedule_writes_stable,
        lemma_schedule_writes_dead,
    };
    reveal(Run::write_sysbus);
}

/// Nothing follows a failure.
pub broadcast proof fn lemma_write_sysbus_dead<V: RiscvValue>(
    run: Run,
    log: Seq<Event>,
    address: u32,
    data: Seq<V>,
)
    requires
        !run.live(),
    ensures
        (#[trigger] run.write_sysbus::<V>(log, address, data)) == run,
{
    broadcast use {
        crate::communication_interface::group_registers,
        lemma_schedule_writes_stable,
        lemma_schedule_writes_dead,
    };
    reveal(Run::write_sysbus);
}

/// What holds of every step on the system bus: a longer record changes nothing of
/// it, and nothing follows a failure.
pub broadcast group group_system_bus {
    crate::communication_interface::group_registers,
    lemma_read_sysbus_stable,
    lemma_read_sysbus_dead,
    lemma_schedule_writes_stable,
    lemma_schedule_writes_dead,
    lemma_schedule_reads_stable,
    lemma_schedule_reads_dead,
    lemma_write_sysbus_stable,
    lemma_write_sysbus_dead,
}

impl<D: Dtm> RiscvCommunicationInterface<D> {
    /// Reads one value from memory through the system bus.
    pub fn perform_memory_read_sysbus<V: RiscvValue>(&mut self, address: u32) -> (r: Result<
        V,
        RiscvError,
    >)
        ensures
            final(self).did(
                old(self),
                old(self).run().read_sysbus::<V>(final(self).log(), address),
                r,
            ),
    {
        broadcast use group_system_bus;
        reveal(Run::read_sysbus);
        let sbcs = Sbcs::for_access(V::width(), true, false, false);
        self.write_dm_register(sbcs)?;
        self.write_dm_register(Sbaddress0(address))?;
        let data: V = self.read_large_dtm_register(LargeRegister::Sbdata)?;
        // The status shows whether the read went well.
        let sbcs: Sbcs = self.read_dm_register()?;
        if sbcs.sberror() != 0 {
            Err(RiscvError::SystemBusAccess)
        } else {
            Ok(data)
        }
    }

    /// Writes values to consecutive places in memory through the system bus.
    #[verifier::loop_isolation(false)]
    pub fn perform_memory_write_sysbus<V: RiscvValue>(&mut self, address: u32, data: &[V]) -> (r:
        Result<(), RiscvError>)
        ensures
            final(self).went(
                old(self),
                old(self).run().write_sysbus(final(self).log(), address, data@),
                r,
            ),
    {
        broadcast use group_system_bus;
        reveal(Run::write_sysbus);
        let sbcs = Sbcs::for_access(V::width(), false, false, true);
        self.schedule_write_dm_register(sbcs)?;
        self.schedule_write_dm_register(Sbaddress0(address))?;
        let ghost start = self.run();
        let ghost log_s = self.log();
        assert(crate::dtm::extends(log_s, log_s));
        let mut i: usize = 0;
        while i < data.len()
            invariant
                i <= data.len(),
                crate::dtm::extends(self.log(), log_s),
                self.model() == old(self).model(),
                forall|new: Seq<Event>| #[trigger]
                    crate::dtm::extends(new, self.log()) ==> start.schedule_writes(new, data@, 0)
                        == self.run().schedule_writes(new, data@, i as int),
            decreases data.len() - i,
        {
            broadcast use group_system_bus;
            let ghost before = self.run();
            let ghost log0 = self.log();
            assert(crate::dtm::extends(log0, log0));
            match self.schedule_write_large_dtm_register(LargeRegister::Sbdata, data[i]) {
                Ok(_) => {},
                Err(e) => {
                    assert(crate::dtm::extends(self.log(), log0));
                    let ghost failed = before.schedule_write_large(
                        self.log(),
                        LargeRegister::Sbdata,
                        data@[i as int],
                    ).run;
                    assert(failed.schedule_writes(self.log(), data@, i + 1) == failed);
                    return Err(e);
                },
            }
            let ghost log1 = self.log();
            i = i + 1;
            proof {
                assert forall|new: Seq<Event>| #[trigger]
                    crate::dtm::extends(new, self.log()) implies start.schedule_writes(
                    new,
                    data@,
                    0,
                ) == self.run().schedule_writes(new, data@, i as int) by {
                    broadcast use group_system_bus;
                    assert(crate::dtm::extends(new, log0));
                    assert(before.schedule_write_large(
                        new,
                        LargeRegister::Sbdata,
                        data@[i - 1],
                    ) == before.schedule_write_large(log1, LargeRegister::Sbdata, data@[i - 1]));
                }
            }
        }
        let ghost log2 = self.log();
        assert(crate::dtm::extends(log2, log2));
        // The status shows whether the writes went well.
        let ok_index = match self.schedule_read_dm_register::<Sbcs>() {
            Ok(index) => index,
            Err(e) => {
                assert(crate::dtm::extends(self.log(), log2));
                return Err(e);
            },
        };
        assert(crate::dtm::extends(self.log(), log2));
        let ghost log3 = self.log();
        let result = match self.execute() {
            Ok(result) => result,
            Err(e) => {
                assert(crate::dtm::extends(self.log(), log3));
                return Err(e);
            },
        };
        assert(crate::dtm::extends(self.log(), log3));
        match result_word(&result, ok_index) {
            Some(sbcs) => if Sbcs(sbcs).sberror() != 0 {
                Err(RiscvError::SystemBusAccess)
            } else {
                Ok(())
            },
            None => Err(RiscvError::DebugProbe(DebugProbeError::BatchError)),
        }
    }

    /// Adds `count` reads of a value through the system bus to the batch, and
    /// returns where their results will stand.
    #[verifier::loop_isolation(false)]
    fn schedule_reads<V: RiscvValue>(&mut self, count: usize) -> (r: Result<Vec<usize>, RiscvError>)
        ensures
            final(self).after(
                old(self),
                old(self).run().schedule_reads::<V>(
                    final(self).log(),
                    count as nat,
                    Seq::empty(),
                ).run,
            ),
            match r {
                Ok(indices) => old(self).run().schedule_reads::<V>(
                    final(self).log(),
                    count as nat,
                    Seq::empty(),
                ).result() == Ok::<Seq<usize>, RiscvError>(indices@),
                Err(e) => old(self).run().schedule_reads::<V>(
                    final(self).log(),
                    count as nat,
                    Seq::empty(),
                ).run.fault == Some(e),
            },
    {
        broadcast use group_system_bus;
        let ghost start = self.run();
        let mut read_results: Vec<usize> = Vec::new();
        let mut i: usize = 0;
        assert(crate::dtm::extends(self.log(), self.log()));
        while i < count
            invariant
                i <= count,
                crate::dtm::extends(self.log(), old(self).log()),
                self.model() == old(self).model(),
                forall|new: Seq<Event>| #[trigger]
                    crate::dtm::extends(new, self.log()) ==> start.schedule_reads::<V>(
                        new,
                        count as nat,
                        Seq::empty(),
                    ) == self.run().schedule_reads::<V>(new, (count - i) as nat, read_results@),
            decreases count - i,
        {
            broadcast use group_system_bus;
            let ghost before = self.run();
            let ghost log0 = self.log();
            assert(crate::dtm::extends(log0, log0));
            match self.schedule_read_large_dtm_register::<V>(LargeRegister::Sbdata) {
                Ok(index) => {
                    read_results.push(index);
                },
                Err(e) => {
                    assert(crate::dtm::extends(self.log(), log0));
                    let ghost failed = before.schedule_read_large::<V>(
                        self.log(),
                        LargeRegister::Sbdata,
                    );
                    assert(failed.run.schedule_reads::<V>(
                        self.log(),
                        (count - i - 1) as nat,
                        read_results@.push(failed.value),
                    ).run == failed.run);
                    return Err(e);
                },
            }
            let ghost log1 = self.log();
            i = i + 1;
            proof {
                assert forall|new: Seq<Event>| #[trigger]
                    crate::dtm::extends(new, self.log()) implies start.schedule_reads::<V>(
                    new,
                    count as nat,
                    Seq::empty(),
                ) == self.run().schedule_reads::<V>(new, (count - i) as nat, read_results@) by {
                    broadcast use group_system_bus;
                    assert(crate::dtm::extends(new, log0));
                    assert(before.schedule_read_large::<V>(new, LargeRegister::Sbdata)
                        == before.schedule_read_large::<V>(log1, LargeRegister::Sbdata));
                }
            }
        }
        assert(crate::dtm::extends(self.log(), self.log()));
        Ok(read_results)
    }

    /// Reads values from consecutive places in memory through the system bus.
    pub fn perform_memory_read_multiple_sysbus<V: RiscvValue32>(
        &mut self,
        address: u32,
        data: &mut [V],
    ) -> (r: Result<(), RiscvError>)
        ensures
            final(self).went(
                old(self),
                old(self).run().read_multiple_sysbus::<V>(
                    final(self).log(),
                    address,
                    old(data)@,
                ).run,
                r,
            ),
            final(data)@ == old(self).run().read_multiple_sysbus::<V>(
                final(self).log(),
                address,
                old(data)@,
            ).value,
    {
        broadcast use group_system_bus;
        reveal(Run::read_multiple_sysbus);
        if data.len() == 0 {
            return Ok(());
        }
        let mut sbcs = Sbcs::for_access(V::width(), true, true, true);
        self.schedule_write_dm_register(sbcs)?;
        self.schedule_write_dm_register(Sbaddress0(address))?;
        let mut read_results = self.schedule_reads::<V>(data.len() - 1)?;
        // The last read must not move the address on any further.
        sbcs.set_sbautoincrement(false);
        proof {
            lemma_autoincrement_off(V::spec_width());
        }
        self.schedule_write_dm_register(sbcs)?;
        let last = self.schedule_read_large_dtm_register::<V>(LargeRegister::Sbdata)?;
        read_results.push(last);
        let sbcs_result = self.schedule_read_dm_register::<Sbcs>()?;
        let result = self.execute()?;
        if !store_result_words(data, &read_results, &result) {
            return Err(RiscvError::DebugProbe(DebugProbeError::BatchError));
        }
        // The status shows whether the reads went well.
        match result_word(&result, sbcs_result) {
            Some(sbcs) => if Sbcs(sbcs).sberror() != 0 {
                Err(RiscvError::SystemBusAccess)
            } else {
                Ok(())
            },
            None => Err(RiscvError::DebugProbe(DebugProbeError::BatchError)),
        }
    }
}

/// Takes the values of `data` from the results of a batch, by their places,
/// up to the first place that holds no 32-bit word; returns whether none did.
pub fn store_result_words<V: RiscvValue32>(
    data: &mut [V],
    indices: &Vec<usize>,
    results: &Vec<CommandResult>,
) -> (ok: bool)
    ensures
        (final(data)@, ok) == store_words(old(data)@, indices@, results@, 0),
{
    let mut k: usize = 0;
    while k < indices.len() && k < data.len()
        invariant
            data@.len() == old(data)@.len(),
            store_words(old(data)@, indices@, results@, 0) == store_words(
                data@,
                indices@,
                results@,
                k as int,
            ),
        decreases indices.len() - k,
    {
        match result_word(results, indices[k]) {
            Some(word) => {
                data[k] = V::from_register_value(word);
            },
            None => {
                return false;
            },
        }
        k = k + 1;
    }
    true
}

/// Switching `sbautoincrement` off in the word for reads that grow the
/// address gives the word for reads that keep it.
pub proof fn lemma_autoincrement_off(width: crate::error::RiscvBusAccess)
    ensures
        crate::bits::with_flag(Sbcs::spec_for_access(width, true, true, true), 16, false)
            == Sbcs::spec_for_access(width, true, true, false),
{
    let code: u32 = width.spec_code() as u32;
    assert(((((code << 17u32) | 0x10_0000u32 | 0x1_0000u32 | 0x8000u32) & !((0xffff_ffffu32
        >> 31u32) << 16u32)) | ((0u32 & (0xffff_ffffu32 >> 31u32)) << 16u32)) == ((code << 17u32)
        | 0x10_0000u32 | 0u32 | 0x8000u32)) by (bit_vector)
        requires
            code <= 4,
    ;
}

} // verus!
