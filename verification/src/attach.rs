//! Attaching to a debug module: what is found out about it, in which order.

use crate::communication_interface::RiscvCommunicationInterface;
use crate::dtm::{Dtm, Event};
use crate::error::{DebugModuleVersion, DebugProbeError, RiscvBusAccess, RiscvError};
use crate::registers::{
    Abstractauto, Abstractcs, Confstrptr0, Confstrptr1, Confstrptr2, Confstrptr3, Dmcontrol,
    Dmstatus, Hartinfo, Sbcs, ABSTRACTAUTO, ABSTRACTCS, CONFSTRPTR0, CONFSTRPTR1, CONFSTRPTR2,
    CONFSTRPTR3, DMCONTROL, DMSTATUS, HARTINFO, SBCS,
};
use crate::run::{Done, Run};
use crate::state::{MemoryAccessMethod, Model, RiscvCommunicationInterfaceState};
use vstd::prelude::*;

verus! {

/// The address of the configuration string, put together from the four
/// registers that hold it.
pub open spec fn spec_confstrptr(word0: u32, word1: u32, word2: u32, word3: u32) -> u128 {
    (word0 as u128) | ((word1 as u128) << 8u128) | ((word2 as u128) << 16u128) | ((word3 as u128)
        << 32u128)
}

/// The address of the configuration string, put together from the four
/// registers that hold it.
#[verifier::when_used_as_spec(spec_confstrptr)]
pub fn confstrptr(word0: u32, word1: u32, word2: u32, word3: u32) -> (pointer: u128)
    ensures
        pointer == spec_confstrptr(word0, word1, word2, word3),
{
    (word0 as u128) | ((word1 as u128) << 8u128) | ((word2 as u128) << 16u128) | ((word3 as u128)
        << 32u128)
}

impl Model {
    /// The state once `sbcs` was read: the system bus is the access method for
    /// each width that the word shows as supported, if the system bus is of
    /// version 1; else nothing changes.
    pub open spec fn with_system_bus(self, sbcs: u32) -> Model {
        let sbcs = Sbcs(sbcs);
        let m8 = if sbcs.spec_sbaccess8() {
            self.with_method(RiscvBusAccess::A8, MemoryAccessMethod::SystemBus)
        } else {
            self
        };
        let m16 = if sbcs.spec_sbaccess16() {
            m8.with_method(RiscvBusAccess::A16, MemoryAccessMethod::SystemBus)
        } else {
            m8
        };
        let m32 = if sbcs.spec_sbaccess32() {
            m16.with_method(RiscvBusAccess::A32, MemoryAccessMethod::SystemBus)
        } else {
            m16
        };
        let m64 = if sbcs.spec_sbaccess64() {
            m32.with_method(RiscvBusAccess::A64, MemoryAccessMethod::SystemBus)
        } else {
            m32
        };
        let m128 = if sbcs.spec_sbaccess128() {
            m64.with_method(RiscvBusAccess::A128, MemoryAccessMethod::SystemBus)
        } else {
            m64
        };
        if sbcs.spec_sbversion() == 1 {
            m128
        } else {
            self
        }
    }
}

impl Run {
    /// The transport is reset and `dmstatus` is read. The version of the
    /// module is recorded, and any but 0.13 is the failure
    /// `UnsupportedDebugModuleVersion`. Then the implicit `ebreak` is recorded,
    /// and the address of the configuration string, which is read from the
    /// four registers `confstrptr0` to `confstrptr3` if `dmstatus` shows it valid.
    #[verifier::opaque]
    pub open spec fn probe_status(self, log: Seq<Event>) -> Run {
        let status = self.reset(log).read_register(log, DMSTATUS as u64);
        let dmstatus = Dmstatus(status.value);
        let version = DebugModuleVersion::of_raw(dmstatus.spec_version() as u8);
        let recorded = status.run.with_state(
            Model { debug_version: version, ..status.run.state },
        );
        let checked = if version.is_supported() {
            recorded
        } else {
            recorded.fail(RiscvError::UnsupportedDebugModuleVersion(version))
        };
        let noted = checked.with_state(
            Model { implicit_ebreak: dmstatus.spec_impebreak(), ..checked.state },
        );
        if dmstatus.spec_confstrptrvalid() {
            let word0 = noted.read_register(log, CONFSTRPTR0 as u64);
            let word1 = word0.run.read_register(log, CONFSTRPTR1 as u64);
            let word2 = word1.run.read_register(log, CONFSTRPTR2 as u64);
            let word3 = word2.run.read_register(log, CONFSTRPTR3 as u64);
            word3.run.with_state(
                Model {
                    confstrptr: Some(
                        spec_confstrptr(word0.value, word1.value, word2.value, word3.value),
                    ),
                    ..word3.run.state
                },
            )
        } else {
            noted.with_state(Model { confstrptr: None, ..noted.state })
        }
    }

    /// The harts from `index` on are selected one after another, below
    /// `limit`, and `dmstatus` is read for each. The value is the index of the
    /// first hart that does not exist, or `limit`: the number of harts.
    pub open spec fn count_harts(self, log: Seq<Event>, index: u32, limit: u32) -> Done<u32>
        decreases limit - index,
    {
        if !self.live() || index >= limit {
            self.done(index)
        } else {
            let status = self.write_register(
                log,
                DMCONTROL as u64,
                Dmcontrol::spec_select_hart(index),
            ).read_register(log, DMSTATUS as u64);
            if !status.run.live() || Dmstatus(status.value).spec_anynonexistent() {
                status.run.done(index)
            } else {
                status.run.count_harts(log, (index + 1) as u32, limit)
            }
        }
    }

    /// The module is switched on. All bits of the hart selection are written
    /// with ones and read back: the number of ones that stay is the width of
    /// the selection. The harts are counted from hart 1 on, which gives the
    /// number of harts, and hart 0 is selected again.
    #[verifier::opaque]
    pub open spec fn probe_harts(self, log: Seq<Event>) -> Run {
        let control = self.write_register(
            log,
            DMCONTROL as u64,
            Dmcontrol::spec_select_hart(0),
        ).write_register(
            log,
            DMCONTROL as u64,
            Dmcontrol::spec_select_hart(0xffff_ffff),
        ).read_register(log, DMCONTROL as u64);
        let hartsellen = crate::bits::ones(Dmcontrol(control.value).spec_hartsel()) as u8;
        let sized = control.run.with_state(Model { hartsellen, ..control.run.state });
        let harts = sized.count_harts(log, 1, 1u32 << (hartsellen as u32));
        let counted = harts.run.with_state(Model { num_harts: harts.value, ..harts.run.state });
        counted.write_register(log, DMCONTROL as u64, Dmcontrol::spec_select_hart(0))
    }

    /// `abstractcs` gives the size of the program buffer and the number of
    /// data registers, `hartinfo` the number of scratch registers. Then
    /// `abstractauto` is written with a one for each word of the program buffer
    /// and each data register, and read back: autoexec is supported if the
    /// word stays as it was written. At the end `abstractauto` is cleared.
    #[verifier::opaque]
    pub open spec fn probe_abstract(self, log: Seq<Event>) -> Run {
        let abstractcs = self.read_register(log, ABSTRACTCS as u64);
        let progbuf_size = Abstractcs(abstractcs.value).spec_progbufsize() as u8;
        let data_register_count = Abstractcs(abstractcs.value).spec_datacount() as u8;
        let sized = abstractcs.run.with_state(
            Model { progbuf_size, data_register_count, ..abstractcs.run.state },
        );
        let hartinfo = sized.read_register(log, HARTINFO as u64);
        let informed = hartinfo.run.with_state(
            Model { nscratch: Hartinfo(hartinfo.value).spec_nscratch() as u8, ..hartinfo.run.state },
        );
        let all = Abstractauto::spec_all(progbuf_size, data_register_count);
        let readback = informed.write_register(log, ABSTRACTAUTO as u64, all).read_register(
            log,
            ABSTRACTAUTO as u64,
        );
        readback.run.with_state(
            Model { supports_autoexec: readback.value == all, ..readback.run.state },
        ).write_register(log, ABSTRACTAUTO as u64, 0)
    }

    /// `sbcs` is read, and the system bus becomes the access method for the
    /// widths that it supports.
    #[verifier::opaque]
    pub open spec fn probe_system_bus(self, log: Seq<Event>) -> Run {
        let sbcs = self.read_register(log, SBCS as u64);
        sbcs.run.with_state(sbcs.run.state.with_system_bus(sbcs.value))
    }

    /// Attaching: the status and version of the module, its harts, its
    /// abstract commands, and its system bus, in this order.
    #[verifier::opaque]
    pub open spec fn enter_debug_mode(self, log: Seq<Event>) -> Run {
        self.probe_status(log).probe_harts(log).probe_abstract(log).probe_system_bus(log)
    }
}

/// What the step makes of the record does not change when the record grows.
pub broadcast proof fn lemma_probe_status_stable(
    run: Run,
    log: Seq<Event>,
    new: Seq<Event>,
)
    requires
        #[trigger] crate::dtm::extends(new, log),
        (#[trigger] run.probe_status(log)).valid,
    ensures
        run.probe_status(new) == run.probe_status(log),
        run.at <= log.len() ==> run.probe_status(log).at <= log.len(),
{
    broadcast use crate::communication_interface::group_registers;
    reveal(Run::probe_status);
}

/// Nothing follows a failure.
pub broadcast proof fn lemma_probe_status_dead(run: Run, log: Seq<Event>)
    requires
        !run.live(),
    ensures
        (#[trigger] run.probe_status(log)) == run,
{
    broadcast use crate::communication_interface::group_registers;
    reveal(Run::probe_status);
}

/// What the step makes of the record does not change when the record grows.
pub broadcast proof fn lemma_count_harts_stable(
    run: Run,
    log: Seq<Event>,
    new: Seq<Event>,
    index: u32,
    limit: u32,
)
    requires
        #[trigger] crate::dtm::extends(new, log),
        (#[trigger] run.count_harts(log, index, limit)).run.valid,
    ensures
        run.count_harts(new, index, limit) == run.count_harts(log, index, limit),
        run.at <= log.len() ==> run.count_harts(log, index, limit).run.at <= log.len(),
    decreases limit - index,
{
    broadcast use crate::communication_interface::group_registers;
    if run.live() && index < limit {
        let status = run.write_register(
            log,
            DMCONTROL as u64,
            Dmcontrol::spec_select_hart(index),
        ).read_register(log, DMSTATUS as u64);
        if status.run.live() && !Dmstatus(status.value).spec_anynonexistent() {
            lemma_count_harts_stable(status.run, log, new, (index + 1) as u32, limit);
        }
    }
}

/// Nothing follows a failure.
pub broadcast proof fn lemma_count_harts_dead(run: Run, log: Seq<Event>, index: u32, limit: u32)
    requires
        !run.live(),
    ensures
        (#[trigger] run.count_harts(log, index, limit)).run == run,
{
}

/// What the step makes of the record does not change when the record grows.
pub broadcast proof fn lemma_probe_harts_stable(
    run: Run,
    log: Seq<Event>,
    new: Seq<Event>,
)
    requires
        #[trigger] crate::dtm::extends(new, log),
        (#[trigger] run.probe_harts(log)).valid,
    ensures
        run.probe_harts(new) == run.probe_harts(log),
        run.at <= log.len() ==> run.probe_harts(log).at <= log.len(),
{
    broadcast use {
        crate::communication_interface::group_registers,
        lemma_count_harts_stable,
        lemma_count_harts_dead,
    };
    reveal(Run::probe_harts);
}

/// Nothing follows a failure.
pub broadcast proof fn lemma_probe_harts_dead(run: Run, log: Seq<Event>)
    requires
        !run.live(),
    ensures
        (#[trigger] run.probe_harts(log)) == run,
{
    broadcast use {
        crate::communication_interface::group_registers,
        lemma_count_harts_stable,
        lemma_count_harts_dead,
    };
    reveal(Run::probe_harts);
}

/// What the step makes of the record does not change when the record grows.
pub broadcast proof fn lemma_probe_abstract_stable(
    run: Run,
    log: Seq<Event>,
    new: Seq<Event>,
)
    requires
        #[trigger] crate::dtm::extends(new, log),
        (#[trigger] run.probe_abstract(log)).valid,
    ensures
        run.probe_abstract(new) == run.probe_abstract(log),
        run.at <= log.len() ==> run.probe_abstract(log).at <= log.len(),
{
    broadcast use crate::communication_interface::group_registers;
    reveal(Run::probe_abstract);
}

/// Nothing follows a failure.
pub broadcast proof fn lemma_probe_abstract_dead(run: Run, log: Seq<Event>)
    requires
        !run.live(),
    ensures
        (#[trigger] run.probe_abstract(log)) == run,
{
    broadcast use crate::communication_interface::group_registers;
    reveal(Run::probe_abstract);
}

/// What the step makes of the record does not change when the record grows.
pub broadcast proof fn lemma_probe_system_bus_stable(
    run: Run,
    log: Seq<Event>,
    new: Seq<Event>,
)
    requires
        #[trigger] crate::dtm::extends(new, log),
        (#[trigger] run.probe_system_bus(log)).valid,
    ensures
        run.probe_system_bus(new) == run.probe_system_bus(log),
        run.at <= log.len() ==> run.probe_system_bus(log).at <= log.len(),
{
    broadcast use crate::communication_interface::group_registers;
    reveal(Run::probe_system_bus);
}

/// Nothing follows a failure.
pub broadcast proof fn lemma_probe_system_bus_dead(run: Run, log: Seq<Event>)
    requires
        !run.live(),
    ensures
        (#[trigger] run.probe_system_bus(log)) == run,
{
    broadcast use crate::communication_interface::group_registers;
    reveal(Run::probe_system_bus);
}

/// What the step makes of the record does not change when the record grows.
pub broadcast proof fn lemma_enter_debug_mode_stable(
    run: Run,
    log: Seq<Event>,
    new: Seq<Event>,
)
    requires
        #[trigger] crate::dtm::extends(new, log),
        (#[trigger] run.enter_debug_mode(log)).valid,
    ensures
        run.enter_debug_mode(new) == run.enter_debug_mode(log),
        run.at <= log.len() ==> run.enter_debug_mode(log).at <= log.len(),
{
    broadcast use {
        crate::communication_interface::group_registers,
        lemma_probe_status_stable,
        lemma_probe_status_dead,
        lemma_probe_harts_stable,
        lemma_probe_harts_dead,
        lemma_probe_abstract_stable,
        lemma_probe_abstract_dead,
        lemma_probe_system_bus_stable,
        lemma_probe_system_bus_dead,
    };
    reveal(Run::enter_debug_mode);
}

/// Nothing follows a failure.
pub broadcast proof fn lemma_enter_debug_mode_dead(run: Run, log: Seq<Event>)
    requires
        !run.live(),
    ensures
        (#[trigger] run.enter_debug_mode(log)) == run,
{
    broadcast use {
        crate::communication_interface::group_registers,
        lemma_probe_status_stable,
        lemma_probe_status_dead,
        lemma_probe_harts_stable,
        lemma_probe_harts_dead,
        lemma_probe_abstract_stable,
        lemma_probe_abstract_dead,
        lemma_probe_system_bus_stable,
        lemma_probe_system_bus_dead,
    };
    reveal(Run::enter_debug_mode);
}

/// What holds of every step of attaching: a longer record changes nothing of it,
/// and nothing follows a failure.
pub broadcast group group_attach {
    crate::communication_interface::group_registers,
    lemma_probe_status_stable,
    lemma_probe_status_dead,
    lemma_count_harts_stable,
    lemma_count_harts_dead,
    lemma_probe_harts_stable,
    lemma_probe_harts_dead,
    lemma_probe_abstract_stable,
    lemma_probe_abstract_dead,
    lemma_probe_system_bus_stable,
    lemma_probe_system_bus_dead,
    lemma_enter_debug_mode_stable,
    lemma_enter_debug_mode_dead,
}

impl<D: Dtm> RiscvCommunicationInterface<D> {
    /// Finds the version of the debug module and what `dmstatus` tells of it.
    fn probe_status(&mut self) -> (r: Result<(), RiscvError>)
        ensures
            final(self).went(old(self), old(self).run().probe_status(final(self).log()), r),
    {
        broadcast use group_attach;
        reveal(Run::probe_status);
        // An earlier connection may have left error bits behind.
        self.reset_transport()?;
        let status: Dmstatus = self.read_dm_register()?;
        proof {
            status.lemma_version_range();
        }
        let version = DebugModuleVersion::from(status.version() as u8);
        self.state.set_debug_version(version);
        // Only version 0.13 of the debug specification is supported.
        if !version.supported() {
            return Err(RiscvError::UnsupportedDebugModuleVersion(version));
        }
        self.state.set_implicit_ebreak(status.impebreak());
        let pointer = if status.confstrptrvalid() {
            let word0: Confstrptr0 = self.read_dm_register()?;
            let word1: Confstrptr1 = self.read_dm_register()?;
            let word2: Confstrptr2 = self.read_dm_register()?;
            let word3: Confstrptr3 = self.read_dm_register()?;
            Some(confstrptr(word0.0, word1.0, word2.0, word3.0))
        } else {
            None
        };
        self.state.set_confstrptr(pointer);
        Ok(())
    }

    /// Counts the harts: hart 0 always exists, and the others are tried in
    /// turn, below `limit`, until one does not exist.
    #[verifier::loop_isolation(false)]
    fn count_harts(&mut self, limit: u32) -> (r: Result<u32, RiscvError>)
        ensures
            final(self).did(old(self), old(self).run().count_harts(final(self).log(), 1, limit), r),
    {
        broadcast use group_attach;
        let mut hart_index: u32 = 1;
        assert(crate::dtm::extends(self.log(), self.log()));
        while hart_index < limit
            invariant
                1 <= hart_index,
                crate::dtm::extends(self.log(), old(self).log()),
                self.model() == old(self).model(),
                forall|new: Seq<Event>| #[trigger]
                    crate::dtm::extends(new, self.log()) ==> old(self).run().count_harts(
                        new,
                        1,
                        limit,
                    ) == self.run().count_harts(new, hart_index, limit),
            decreases limit - hart_index,
        {
            broadcast use group_attach;
            let ghost before = self.run();
            let ghost log0 = self.log();
            assert(crate::dtm::extends(log0, log0));
            match self.write_dm_register(Dmcontrol::select_hart(hart_index)) {
                Ok(_) => {},
                Err(e) => {
                    assert(crate::dtm::extends(self.log(), log0));
                    return Err(e);
                },
            }
            let status: Dmstatus = match self.read_dm_register() {
                Ok(status) => status,
                Err(e) => {
                    assert(crate::dtm::extends(self.log(), log0));
                    return Err(e);
                },
            };
            let ghost log1 = self.log();
            assert(crate::dtm::extends(log1, log0));
            if status.anynonexistent() {
                return Ok(hart_index);
            }
            hart_index = hart_index + 1;
            proof {
                assert forall|new: Seq<Event>| #[trigger]
                    crate::dtm::extends(new, self.log()) implies old(self).run().count_harts(
                    new,
                    1,
                    limit,
                ) == self.run().count_harts(new, hart_index, limit) by {
                    broadcast use group_attach;
                    assert(crate::dtm::extends(new, log0));
                    assert(before.write_register(
                        new,
                        DMCONTROL as u64,
                        Dmcontrol::spec_select_hart((hart_index - 1) as u32),
                    ).read_register(new, DMSTATUS as u64) == before.write_register(
                        log1,
                        DMCONTROL as u64,
                        Dmcontrol::spec_select_hart((hart_index - 1) as u32),
                    ).read_register(log1, DMSTATUS as u64));
                }
            }
        }
        assert(crate::dtm::extends(self.log(), self.log()));
        Ok(hart_index)
    }

    /// Switches the module on and finds its harts.
    fn probe_harts(&mut self) -> (r: Result<(), RiscvError>)
        ensures
            final(self).went(old(self), old(self).run().probe_harts(final(self).log()), r),
    {
        broadcast use group_attach;
        reveal(Run::probe_harts);
        self.write_dm_register(Dmcontrol::select_hart(0))?;
        // The bits of the hart selection that stay set tell its width.
        self.write_dm_register(Dmcontrol::select_hart(0xffff_ffff))?;
        let control: Dmcontrol = self.read_dm_register()?;
        let hartsel = control.hartsel();
        proof {
            crate::bits::lemma_ones_of_narrow(hartsel, 20);
        }
        let hartsellen = crate::bits::count_ones(hartsel) as u8;
        self.state.set_hartsellen(hartsellen);
        let max_hart_index: u32 = 1u32 << (hartsellen as u32);
        let num_harts = self.count_harts(max_hart_index)?;
        self.state.set_num_harts(num_harts);
        // Hart 0 is the selected hart from here on.
        self.write_dm_register(Dmcontrol::select_hart(0))
    }

    /// Finds the sizes of the program buffer and of the data registers, and
    /// whether autoexec works.
    fn probe_abstract(&mut self) -> (r: Result<(), RiscvError>)
        ensures
            final(self).went(old(self), old(self).run().probe_abstract(final(self).log()), r),
    {
        broadcast use group_attach;
        reveal(Run::probe_abstract);
        let abstractcs: Abstractcs = self.read_dm_register()?;
        proof {
            abstractcs.lemma_size_ranges();
        }
        let progbuf_size = abstractcs.progbufsize() as u8;
        let data_register_count = abstractcs.datacount() as u8;
        self.state.set_progbuf_size(progbuf_size);
        self.state.set_data_register_count(data_register_count);
        let hartinfo: Hartinfo = self.read_dm_register()?;
        proof {
            hartinfo.lemma_nscratch_range();
        }
        self.state.set_nscratch(hartinfo.nscratch() as u8);
        // Autoexec works if abstractauto keeps what is written to it.
        let abstractauto = Abstractauto::all(progbuf_size, data_register_count);
        self.write_dm_register(abstractauto)?;
        let abstractauto_readback: Abstractauto = self.read_dm_register()?;
        self.state.set_supports_autoexec(abstractauto_readback.0 == abstractauto.0);
        self.write_dm_register(Abstractauto(0))
    }

    /// Finds the widths that the system bus supports.
    fn probe_system_bus(&mut self) -> (r: Result<(), RiscvError>)
        ensures
            final(self).went(old(self), old(self).run().probe_system_bus(final(self).log()), r),
    {
        broadcast use group_attach;
        reveal(Run::probe_system_bus);
        let sbcs: Sbcs = self.read_dm_register()?;
        // Version 1 is the system bus of the debug specification 0.13; the
        // system bus is used wherever it can be.
        if sbcs.sbversion() == 1 {
            if sbcs.sbaccess8() {
                self.state.set_memory_access_method(
                    RiscvBusAccess::A8,
                    MemoryAccessMethod::SystemBus,
                );
            }
            if sbcs.sbaccess16() {
                self.state.set_memory_access_method(
                    RiscvBusAccess::A16,
                    MemoryAccessMethod::SystemBus,
                );
            }
            if sbcs.sbaccess32() {
                self.state.set_memory_access_method(
                    RiscvBusAccess::A32,
                    MemoryAccessMethod::SystemBus,
                );
            }
            if sbcs.sbaccess64() {
                self.state.set_memory_access_method(
                    RiscvBusAccess::A64,
                    MemoryAccessMethod::SystemBus,
                );
            }
            if sbcs.sbaccess128() {
                self.state.set_memory_access_method(
                    RiscvBusAccess::A128,
                    MemoryAccessMethod::SystemBus,
                );
            }
        }
        Ok(())
    }

    /// Finds out what the debug module is and can do.
    pub fn enter_debug_mode(&mut self) -> (r: Result<(), RiscvError>)
        ensures
            final(self).went(old(self), old(self).run().enter_debug_mode(final(self).log()), r),
            r is Ok ==> final(self).model().attached(),
    {
        broadcast use group_attach;
        reveal(Run::enter_debug_mode);
        proof {
            self.state.lemma_wf();
        }
        self.probe_status()?;
        self.probe_harts()?;
        self.probe_abstract()?;
        self.probe_system_bus()?;
        proof {
            crate::laws::lemma_attach_establishes(old(self).run(), self.log(), 31);
        }
        Ok(())
    }

    /// Attaches to the debug module behind a transport. Where attaching
    /// fails, the transport is handed back with the failure.
    pub fn new(dtm: D) -> (r: Result<Self, (D, DebugProbeError)>)
        ensures
            match r {
                Ok(interface) => {
                    let run = Run::start(0, Model::initial()).enter_debug_mode(interface.log());
                    &&& run.live()
                    &&& run.at == interface.log().len()
                    &&& run.state == interface.model()
                    &&& interface.model().attached()
                },
                Err((_, e)) => exists|log: Seq<Event>|
                    {
                        let run = #[trigger] Run::start(0, Model::initial()).enter_debug_mode(log);
                        &&& run.valid
                        &&& run.at == log.len()
                        &&& run.fault matches Some(fault) && e == DebugProbeError::Other(
                            Box::new(fault),
                        )
                    },
            },
    {
        let state = RiscvCommunicationInterfaceState::new();
        let mut s = RiscvCommunicationInterface { dtm, state, log: Ghost(Seq::empty()) };
        match s.enter_debug_mode() {
            Ok(_) => Ok(s),
            Err(err) => Err((s.dtm, DebugProbeError::Other(Box::new(err)))),
        }
    }

    /// Gives the transport back.
    pub fn close(self) -> (dtm: D)
        ensures
            dtm == self.dtm,
    {
        self.dtm
    }
}

} // verus!
