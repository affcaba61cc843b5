//! Memory accesses through the program buffer: a short program moves a value
//! between memory and a register, and abstract commands move it between the
//! register and the debugger. The registers `s0` and `s1` serve as scratch and
//! get their values back at the end, whatever came of the access.

use crate::communication_interface::RiscvCommunicationInterface;
use crate::cores::RegisterId;
use crate::dtm::{Dtm, Event};
use crate::error::{AbstractCommandErrorKind, DebugProbeError, RiscvBusAccess, RiscvError};
use crate::program_buffer::{S0, S1};
use crate::registers::{Abstractcs, AccessRegisterCommand, Data0, ABSTRACTCS, COMMAND, DATA0};
use crate::run::{Done, Run};
use crate::value::RiscvValue32;
use vstd::prelude::*;

verus! {

/// What a word of `abstractcs` says of the command that has run: a `cmderr`
/// is its failure.
pub open spec fn cmderr_result(abstractcs: u32) -> Result<(), RiscvError> {
    if Abstractcs(abstractcs).spec_cmderr() != 0 {
        Err(
            RiscvError::AbstractCommand(
                AbstractCommandErrorKind::of_code(Abstractcs(abstractcs).spec_cmderr() as u8),
            ),
        )
    } else {
        Ok(())
    }
}

impl Run {
    /// The run as it stands, with the failure of `fault` in place of its own.
    pub open spec fn with_fault(self, fault: Option<RiscvError>) -> Run {
        Run { fault, ..self }
    }

    /// What the status of abstract commands makes of a program that has run:
    /// a `cmderr` is the failure of the access.
    pub open spec fn check_cmderr(self, abstractcs: u32) -> Run {
        match cmderr_result(abstractcs) {
            Ok(_) => self,
            Err(e) => self.fail(e),
        }
    }

    /// As `check_cmderr`, with the failure handed on as one of the probe.
    pub open spec fn check_cmderr_as_probe(self, abstractcs: u32) -> Run {
        match cmderr_result(abstractcs) {
            Ok(_) => self,
            Err(e) => self.fail(
                RiscvError::DebugProbe(DebugProbeError::ArchitectureSpecific(Box::new(e))),
            ),
        }
    }

    /// `s0` gets its value back, also after a failure; the failure of the
    /// work counts before one of putting the value back.
    #[verifier::opaque]
    pub open spec fn restore_s0(self, log: Seq<Event>, s0: u32) -> Run {
        self.resume().abstract_cmd_register_write(log, S0, s0).blame(self)
    }

    /// `s0` and then `s1` get their values back, also after a failure; the
    /// failure of the work counts before one of putting a value back, and
    /// the one for `s0` before the one for `s1`.
    #[verifier::opaque]
    pub open spec fn restore_s0_s1(self, log: Seq<Event>, s0: u32, s1: u32) -> Run {
        let first = self.resume().abstract_cmd_register_write(log, S0, s0);
        first.resume().abstract_cmd_register_write(log, S1, s1).blame(first).blame(self)
    }

    /// The program that loads from the address in `s0` is placed and run once
    /// with the address, and `s0` is read: it holds what was loaded.
    #[verifier::opaque]
    pub open spec fn load_word(self, log: Seq<Event>, width: RiscvBusAccess, address: u32) -> Done<
        u32,
    > {
        let status = self.setup_program_buffer(
            log,
            seq![crate::assembly::spec_lw(0, 8, width.spec_code(), 8)],
        ).write_register(log, DATA0 as u64, address).write_register(
            log,
            COMMAND as u64,
            AccessRegisterCommand::spec_transfer(S0, RiscvBusAccess::A32, true, true),
        ).read_register(log, ABSTRACTCS as u64);
        status.run.check_cmderr(status.value).abstract_cmd_register_read(log, S0)
    }

    /// One value is read from memory through the program buffer: `s0` is
    /// saved, the work is done, and `s0` is put back.
    #[verifier::opaque]
    pub open spec fn read_progbuf<V: RiscvValue32>(self, log: Seq<Event>, address: u32) -> Done<V> {
        let saved = self.abstract_cmd_register_read(log, S0);
        let work = saved.run.load_word(log, V::spec_width(), address);
        Done {
            run: if saved.run.live() {
                work.run.restore_s0(log, saved.value)
            } else {
                saved.run
            },
            value: V::spec_from_slots(work.value, 0, 0, 0),
        }
    }

    /// All words but the last are read: each command moves `s1` to `data0` and
    /// runs the program, which loads the next word; `data0` then holds a word
    /// for `data` at its index.
    pub open spec fn read_words<V: RiscvValue32>(
        self,
        log: Seq<Event>,
        data: Seq<V>,
        from: int,
    ) -> Done<
        Seq<V>,
    >
        decreases data.len() - from,
    {
        if !self.live() || from < 0 || from >= data.len() - 1 {
            self.done(data)
        } else {
            let word = self.write_register(
                log,
                COMMAND as u64,
                AccessRegisterCommand::spec_transfer(S1, RiscvBusAccess::A32, false, true),
            ).read_register(log, DATA0 as u64);
            if word.run.live() {
                word.run.read_words(
                    log,
                    data.update(from, V::spec_from_slots(word.value, 0, 0, 0)),
                    from + 1,
                )
            } else {
                word.run.done(data)
            }
        }
    }

    /// The program that loads from the address in `s0` into `s1` and moves
    /// `s0` on is placed and run once with the address. All words but the last
    /// are read with commands that run it again, the last with a plain read of
    /// `s1`, and the status shows whether a load failed.
    #[verifier::opaque]
    pub open spec fn load_words<V: RiscvValue32>(
        self,
        log: Seq<Event>,
        address: u32,
        data: Seq<V>,
    ) -> Done<
        Seq<V>,
    > {
        let words = self.setup_program_buffer(
            log,
            seq![
                crate::assembly::spec_lw(0, 8, V::spec_width().spec_code(), 9),
                crate::assembly::spec_addi(8, 8, V::spec_width().spec_byte_width() as u16),
            ],
        ).write_register(log, DATA0 as u64, address).write_register(
            log,
            COMMAND as u64,
            AccessRegisterCommand::spec_transfer(S0, RiscvBusAccess::A32, true, true),
        ).read_words::<V>(log, data, 0);
        let last = words.run.abstract_cmd_register_read(log, S1);
        let status = last.run.read_register(log, ABSTRACTCS as u64);
        Done {
            run: status.run.check_cmderr(status.value),
            value: if last.run.live() {
                words.value.update(data.len() - 1, V::spec_from_slots(last.value, 0, 0, 0))
            } else {
                words.value
            },
        }
    }

    /// Values are read from consecutive places in memory through the program
    /// buffer, into all of `data`: `s0` and `s1` are saved, the work is done,
    /// and they are put back. Nothing is done for an empty `data`.
    #[verifier::opaque]
    pub open spec fn read_multiple_progbuf<V: RiscvValue32>(
        self,
        log: Seq<Event>,
        address: u32,
        data: Seq<V>,
    ) -> Done<Seq<V>> {
        let saved0 = self.abstract_cmd_register_read(log, S0);
        let saved1 = saved0.run.abstract_cmd_register_read(log, S1);
        let work = saved1.run.load_words::<V>(log, address, data);
        if data.len() == 0 {
            self.done(data)
        } else if saved1.run.live() {
            Done { run: work.run.restore_s0_s1(log, saved0.value, saved1.value), value: work.value }
        } else {
            saved1.run.done(data)
        }
    }

    /// The program that stores `s1` to the address in `s0` is placed, the
    /// address is put in `s0`, and the program is run once with the value.
    #[verifier::opaque]
    pub open spec fn store_word(
        self,
        log: Seq<Event>,
        width: RiscvBusAccess,
        address: u32,
        value: u32,
    ) -> Run {
        let status = self.setup_program_buffer(
            log,
            seq![crate::assembly::spec_sw(0, 8, width.spec_code() as u32, 9)],
        ).abstract_cmd_register_write(log, S0, address).write_register(
            log,
            DATA0 as u64,
            value,
        ).write_register(
            log,
            COMMAND as u64,
            AccessRegisterCommand::spec_transfer(S1, RiscvBusAccess::A32, true, true),
        ).read_register(log, ABSTRACTCS as u64);
        status.run.check_cmderr(status.value)
    }

    /// One value is written to memory through the program buffer: `s0` and
    /// `s1` are saved, the work is done, and they are put back.
    #[verifier::opaque]
    pub open spec fn write_progbuf_memory<V: RiscvValue32>(
        self,
        log: Seq<Event>,
        address: u32,
        value: V,
    ) -> Run {
        let saved0 = self.abstract_cmd_register_read(log, S0);
        let saved1 = saved0.run.abstract_cmd_register_read(log, S1);
        let work = saved1.run.store_word(log, V::spec_width(), address, value.spec_slot(0));
        if saved1.run.live() {
            work.restore_s0_s1(log, saved0.value, saved1.value)
        } else {
            saved1.run
        }
    }

    /// The values of `data` from `from` on are written: each is put in `data0`,
    /// and a command moves it to `s1` and runs the program, which stores it.
    pub open spec fn write_words<V: RiscvValue32>(
        self,
        log: Seq<Event>,
        data: Seq<V>,
        from: int,
    ) -> Run
        decreases data.len() - from,
    {
        if !self.live() || from < 0 || from >= data.len() {
            self
        } else {
            self.write_register(log, DATA0 as u64, data[from].spec_slot(0)).write_register(
                log,
                COMMAND as u64,
                AccessRegisterCommand::spec_transfer(S1, RiscvBusAccess::A32, true, true),
            ).write_words(log, data, from + 1)
        }
    }

    /// The program that stores `s1` to the address in `s0` and moves `s0` on is
    /// placed, the address is put in `s0`, each value is written in turn, and
    /// the status shows at the end whether a store failed.
    #[verifier::opaque]
    pub open spec fn store_words<V: RiscvValue32>(
        self,
        log: Seq<Event>,
        address: u32,
        data: Seq<V>,
    ) -> Run {
        let status = self.setup_program_buffer(
            log,
            seq![
                crate::assembly::spec_sw(0, 8, V::spec_width().spec_code() as u32, 9),
                crate::assembly::spec_addi(8, 8, V::spec_width().spec_byte_width() as u16),
            ],
        ).abstract_cmd_register_write(log, S0, address).write_words(log, data, 0).read_register(
            log,
            ABSTRACTCS as u64,
        );
        status.run.check_cmderr_as_probe(status.value)
    }

    /// Values are written to consecutive places in memory through the
    /// program buffer: `s0` and `s1` are saved, the work is done, and they are
    /// put back.
    #[verifier::opaque]
    pub open spec fn write_multiple_progbuf<V: RiscvValue32>(
        self,
        log: Seq<Event>,
        address: u32,
        data: Seq<V>,
    ) -> Run {
        let saved0 = self.abstract_cmd_register_read(log, S0);
        let saved1 = saved0.run.abstract_cmd_register_read(log, S1);
        let work = saved1.run.store_words(log, address, data);
        if saved1.run.live() {
            work.restore_s0_s1(log, saved0.value, saved1.value)
        } else {
            saved1.run
        }
    }
}

/// What putting back makes of the record does not change when the record grows.
pub broadcast proof fn lemma_restore_s0_stable(
    run: Run,
    log: Seq<Event>,
    new: Seq<Event>,
    s0: u32,
)
    requires
        #[trigger] crate::dtm::extends(new, log),
        (#[trigger] run.restore_s0(log, s0)).valid,
    ensures
        run.restore_s0(new, s0) == run.restore_s0(log, s0),
        run.at <= log.len() ==> run.restore_s0(log, s0).at <= log.len(),
{
    broadcast use crate::abstract_command::group_abstract_command;
    reveal(Run::restore_s0);
}

/// Nothing is put back where the record has gone astray.
pub broadcast proof fn lemma_restore_s0_stray(run: Run, log: Seq<Event>, s0: u32)
    requires
        !run.valid,
    ensures
        #[trigger] run.restore_s0(log, s0) == run,
{
    broadcast use crate::abstract_command::group_abstract_command;
    reveal(Run::restore_s0);
}

/// What putting back makes of the record does not change when the record grows.
pub broadcast proof fn lemma_restore_s0_s1_stable(
    run: Run,
    log: Seq<Event>,
    new: Seq<Event>,
    s0: u32,
    s1: u32,
)
    requires
        #[trigger] crate::dtm::extends(new, log),
        (#[trigger] run.restore_s0_s1(log, s0, s1)).valid,
    ensures
        run.restore_s0_s1(new, s0, s1) == run.restore_s0_s1(log, s0, s1),
        run.at <= log.len() ==> run.restore_s0_s1(log, s0, s1).at <= log.len(),
{
    broadcast use crate::abstract_command::group_abstract_command;
    reveal(Run::restore_s0_s1);
}

/// Nothing is put back where the record has gone astray.
pub broadcast proof fn lemma_restore_s0_s1_stray(run: Run, log: Seq<Event>, s0: u32, s1: u32)
    requires
        !run.valid,
    ensures
        #[trigger] run.restore_s0_s1(log, s0, s1) == run,
{
    broadcast use crate::abstract_command::group_abstract_command;
    reveal(Run::restore_s0_s1);
}

/// A failure of the work is the failure of the whole, whatever comes of
/// putting the registers back.
pub broadcast proof fn lemma_restore_s0_blames(run: Run, log: Seq<Event>, s0: u32)
    requires
        run.fault is Some,
    ensures
        (#[trigger] run.restore_s0(log, s0)).fault == run.fault,
{
    reveal(Run::restore_s0);
}

/// A failure of the work is the failure of the whole, whatever comes of
/// putting the registers back.
pub broadcast proof fn lemma_restore_s0_s1_blames(run: Run, log: Seq<Event>, s0: u32, s1: u32)
    requires
        run.fault is Some,
    ensures
        (#[trigger] run.restore_s0_s1(log, s0, s1)).fault == run.fault,
{
    reveal(Run::restore_s0_s1);
}

/// What the step makes of the record does not change when the record grows.
pub broadcast proof fn lemma_load_word_stable(
    run: Run,
    log: Seq<Event>,
    new: Seq<Event>,
    width: RiscvBusAccess,
    address: u32,
)
    requires
        #[trigger] crate::dtm::extends(new, log),
        (#[trigger] run.load_word(log, width, address)).run.valid,
    ensures
        run.load_word(new, width, address) == run.load_word(log, width, address),
        run.at <= log.len() ==> run.load_word(log, width, address).run.at <= log.len(),
{
    broadcast use crate::program_buffer::group_program_buffer;
    reveal(Run::load_word);
}

/// Nothing follows a failure.
pub broadcast proof fn lemma_load_word_dead(
    run: Run,
    log: Seq<Event>,
    width: RiscvBusAccess,
    address: u32,
)
    requires
        !run.live(),
    ensures
        (#[trigger] run.load_word(log, width, address)).run == run,
{
    broadcast use crate::program_buffer::group_program_buffer;
    reveal(Run::load_word);
}

/// What the step makes of the record does not change when the record grows.
pub broadcast proof fn lemma_store_word_stable(
    run: Run,
    log: Seq<Event>,
    new: Seq<Event>,
    width: RiscvBusAccess,
    address: u32,
    value: u32,
)
    requires
        #[trigger] crate::dtm::extends(new, log),
        (#[trigger] run.store_word(log, width, address, value)).valid,
    ensures
        run.store_word(new, width, address, value) == run.store_word(log, width, address, value),
        run.at <= log.len() ==> run.store_word(log, width, address, value).at <= log.len(),
{
    broadcast use crate::program_buffer::group_program_buffer;
    reveal(Run::store_word);
}

/// Nothing follows a failure.
pub broadcast proof fn lemma_store_word_dead(
    run: Run,
    log: Seq<Event>,
    width: RiscvBusAccess,
    address: u32,
    value: u32,
)
    requires
        !run.live(),
    ensures
        (#[trigger] run.store_word(log, width, address, value)) == run,
{
    broadcast use crate::program_buffer::group_program_buffer;
    reveal(Run::store_word);
}

/// What the step makes of the record does not change when the record grows.
pub broadcast proof fn lemma_read_progbuf_stable<V: RiscvValue32>(
    run: Run,
    log: Seq<Event>,
    new: Seq<Event>,
    address: u32,
)
    requires
        #[trigger] crate::dtm::extends(new, log),
        (#[trigger] run.read_progbuf::<V>(log, address)).run.valid,
    ensures
        run.read_progbuf::<V>(new, address) == run.read_progbuf::<V>(log, address),
        run.at <= log.len() ==> run.read_progbuf::<V>(log, address).run.at <= log.len(),
{
    broadcast use {
        crate::program_buffer::group_program_buffer,
        lemma_restore_s0_stable,
        lemma_restore_s0_stray,
        lemma_restore_s0_s1_stable,
        lemma_restore_s0_s1_stray,
        lemma_load_word_stable,
        lemma_load_word_dead,
        lemma_store_word_stable,
        lemma_store_word_dead,
    };
    reveal(Run::read_progbuf);
}

/// Nothing follows a failure.
pub broadcast proof fn lemma_read_progbuf_dead<V: RiscvValue32>(
    run: Run,
    log: Seq<Event>,
    address: u32,
)
    requires
        !run.live(),
    ensures
        (#[trigger] run.read_progbuf::<V>(log, address)).run == run,
{
    broadcast use {
        crate::program_buffer::group_program_buffer,
        lemma_restore_s0_stable,
        lemma_restore_s0_stray,
        lemma_restore_s0_s1_stable,
        lemma_restore_s0_s1_stray,
        lemma_load_word_stable,
        lemma_load_word_dead,
        lemma_store_word_stable,
        lemma_store_word_dead,
    };
    reveal(Run::read_progbuf);
}

/// What the step makes of the record does not change when the record grows.
pub broadcast proof fn lemma_write_progbuf_memory_stable<V: RiscvValue32>(
    run: Run,
    log: Seq<Event>,
    new: Seq<Event>,
    address: u32,
    value: V,
)
    requires
        #[trigger] crate::dtm::extends(new, log),
        (#[trigger] run.write_progbuf_memory::<V>(log, address, value)).valid,
    ensures
        run.write_progbuf_memory::<V>(new, address, value)
            == run.write_progbuf_memory::<V>(log, address, value),
        run.at <= log.len() ==> run.write_progbuf_memory::<V>(log, address, value).at <= log.len(),
{
    broadcast use {
        crate::program_buffer::group_program_buffer,
        lemma_restore_s0_stable,
        lemma_restore_s0_stray,
        lemma_restore_s0_s1_stable,
        lemma_restore_s0_s1_stray,
        lemma_load_word_stable,
        lemma_load_word_dead,
        lemma_store_word_stable,
        lemma_store_word_dead,
    };
    reveal(Run::write_progbuf_memory);
}

/// Nothing follows a failure.
pub broadcast proof fn lemma_write_progbuf_memory_dead<V: RiscvValue32>(
    run: Run,
    log: Seq<Event>,
    address: u32,
    value: V,
)
    requires
        !run.live(),
    ensures
        (#[trigger] run.write_progbuf_memory::<V>(log, address, value)) == run,
{
    broadcast use {
        crate::program_buffer::group_program_buffer,
        lemma_restore_s0_stable,
        lemma_restore_s0_stray,
        lemma_restore_s0_s1_stable,
        lemma_restore_s0_s1_stray,
        lemma_load_word_stable,
        lemma_load_word_dead,
        lemma_store_word_stable,
        lemma_store_word_dead,
    };
    reveal(Run::write_progbuf_memory);
}

/// What the step makes of the record does not change when the record grows.
pub broadcast proof fn lemma_read_words_stable<V: RiscvValue32>(
    run: Run,
    log: Seq<Event>,
    new: Seq<Event>,
    data: Seq<V>,
    from: int,
)
    requires
        #[trigger] crate::dtm::extends(new, log),
        (#[trigger] run.read_words(log, data, from)).run.valid,
    ensures
        run.read_words(new, data, from) == run.read_words(log, data, from),
        run.at <= log.len() ==> run.read_words(log, data, from).run.at <= log.len(),
    decreases data.len() - from,
{
    broadcast use crate::run::group_run;
    if run.live() && 0 <= from < data.len() - 1 {
        let word = run.write_register(
            log,
            COMMAND as u64,
            AccessRegisterCommand::spec_transfer(S1, RiscvBusAccess::A32, false, true),
        ).read_register(log, DATA0 as u64);
        if word.run.live() {
            lemma_read_words_stable(
                word.run,
                log,
                new,
                data.update(from, V::spec_from_slots(word.value, 0, 0, 0)),
                from + 1,
            );
        }
    }
}

/// Nothing follows a failure.
pub broadcast proof fn lemma_read_words_dead<V: RiscvValue32>(
    run: Run,
    log: Seq<Event>,
    data: Seq<V>,
    from: int,
)
    requires
        !run.live(),
    ensures
        (#[trigger] run.read_words::<V>(log, data, from)).run == run,
{
}

/// What the step makes of the record does not change when the record grows.
pub broadcast proof fn lemma_write_words_stable<V: RiscvValue32>(
    run: Run,
    log: Seq<Event>,
    new: Seq<Event>,
    data: Seq<V>,
    from: int,
)
    requires
        #[trigger] crate::dtm::extends(new, log),
        (#[trigger] run.write_words(log, data, from)).valid,
    ensures
        run.write_words(new, data, from) == run.write_words(log, data, from),
        run.at <= log.len() ==> run.write_words(log, data, from).at <= log.len(),
    decreases data.len() - from,
{
    broadcast use crate::run::group_run;
    if run.live() && 0 <= from < data.len() {
        lemma_write_words_stable(
            run.write_register(log, DATA0 as u64, data[from].spec_slot(0)).write_register(
                log,
                COMMAND as u64,
                AccessRegisterCommand::spec_transfer(S1, RiscvBusAccess::A32, true, true),
            ),
            log,
            new,
            data,
            from + 1,
        );
    }
}

/// Nothing follows a failure.
pub broadcast proof fn lemma_write_words_dead<V: RiscvValue32>(
    run: Run,
    log: Seq<Event>,
    data: Seq<V>,
    from: int,
)
    requires
        !run.live(),
    ensures
        (#[trigger] run.write_words::<V>(log, data, from)) == run,
{
}

/// What the step makes of the record does not change when the record grows.
pub broadcast proof fn lemma_load_words_stable<V: RiscvValue32>(
    run: Run,
    log: Seq<Event>,
    new: Seq<Event>,
    address: u32,
    data: Seq<V>,
)
    requires
        #[trigger] crate::dtm::extends(new, log),
        (#[trigger] run.load_words::<V>(log, address, data)).run.valid,
    ensures
        run.load_words::<V>(new, address, data) == run.load_words::<V>(log, address, data),
        run.at <= log.len() ==> run.load_words::<V>(log, address, data).run.at <= log.len(),
{
    broadcast use {
        crate::program_buffer::group_program_buffer,
        lemma_read_words_stable,
        lemma_read_words_dead,
        lemma_write_words_stable,
        lemma_write_words_dead,
    };
    reveal(Run::load_words);
}

/// Nothing follows a failure.
pub broadcast proof fn lemma_load_words_dead<V: RiscvValue32>(
    run: Run,
    log: Seq<Event>,
    address: u32,
    data: Seq<V>,
)
    requires
        !run.live(),
    ensures
        (#[trigger] run.load_words::<V>(log, address, data)).run == run,
{
    broadcast use {
        crate::program_buffer::group_program_buffer,
        lemma_read_words_stable,
        lemma_read_words_dead,
        lemma_write_words_stable,
        lemma_write_words_dead,
    };
    reveal(Run::load_words);
}

/// What the step makes of the record does not change when the record grows.
pub broadcast proof fn lemma_store_words_stable<V: RiscvValue32>(
    run: Run,
    log: Seq<Event>,
    new: Seq<Event>,
    address: u32,
    data: Seq<V>,
)
    requires
        #[trigger] crate::dtm::extends(new, log),
        (#[trigger] run.store_words::<V>(log, address, data)).valid,
    ensures
        run.store_words::<V>(new, address, data) == run.store_words::<V>(log, address, data),
        run.at <= log.len() ==> run.store_words::<V>(log, address, data).at <= log.len(),
{
    broadcast use {
        crate::program_buffer::group_program_buffer,
        lemma_read_words_stable,
        lemma_read_words_dead,
        lemma_write_words_stable,
        lemma_write_words_dead,
    };
    reveal(Run::store_words);
}

/// Nothing follows a failure.
pub broadcast proof fn lemma_store_words_dead<V: RiscvValue32>(
    run: Run,
    log: Seq<Event>,
    address: u32,
    data: Seq<V>,
)
    requires
        !run.live(),
    ensures
        (#[trigger] run.store_words::<V>(log, address, data)) == run,
{
    broadcast use {
        crate::program_buffer::group_program_buffer,
        lemma_read_words_stable,
        lemma_read_words_dead,
        lemma_write_words_stable,
        lemma_write_words_dead,
    };
    reveal(Run::store_words);
}

/// What holds of every step of a memory access through the program buffer.
pub broadcast group group_memory_progbuf {
    crate::program_buffer::group_program_buffer,
    lemma_restore_s0_stable,
    lemma_restore_s0_stray,
    lemma_restore_s0_s1_stable,
    lemma_restore_s0_s1_stray,
    lemma_restore_s0_blames,
    lemma_restore_s0_s1_blames,
    lemma_load_word_stable,
    lemma_load_word_dead,
    lemma_store_word_stable,
    lemma_store_word_dead,
    lemma_read_progbuf_stable,
    lemma_read_progbuf_dead,
    lemma_write_progbuf_memory_stable,
    lemma_write_progbuf_memory_dead,
    lemma_read_words_stable,
    lemma_read_words_dead,
    lemma_write_words_stable,
    lemma_write_words_dead,
    lemma_load_words_stable,
    lemma_load_words_dead,
    lemma_store_words_stable,
    lemma_store_words_dead,
}

/// The failure of a piece of work, if it failed.
pub open spec fn fault_of<T>(work: Result<T, RiscvError>) -> Option<RiscvError> {
    match work {
        Ok(_) => None,
        Err(e) => Some(e),
    }
}

/// What a piece of work came to, with the run that stands for it.
pub open spec fn outcome_of<T>(run: Run, work: Result<T, RiscvError>) -> Done<T> {
    match work {
        Ok(value) => Done { run, value },
        Err(_) => Done { run, value: arbitrary() },
    }
}

/// What the status of abstract commands says of a program that has run.
pub fn check_cmderr(status: Abstractcs) -> (r: Result<(), RiscvError>)
    ensures
        r == cmderr_result(status.0),
{
    let cmderr = status.cmderr();
    if cmderr != 0 {
        proof {
            status.lemma_cmderr_range();
        }
        Err(RiscvError::AbstractCommand(AbstractCommandErrorKind::parse(cmderr as u8)))
    } else {
        Ok(())
    }
}

impl<D: Dtm> RiscvCommunicationInterface<D> {
    /// Gives `s0` its value back, and returns what the work had come to.
    fn restore_s0<T>(&mut self, s0: u32, work: Result<T, RiscvError>) -> (r: Result<T, RiscvError>)
        ensures
            final(self).did(
                old(self),
                outcome_of(
                    old(self).run().with_fault(fault_of(work)).restore_s0(final(self).log(), s0),
                    work,
                ),
                r,
            ),
    {
        broadcast use group_memory_progbuf;
        reveal(Run::restore_s0);
        let restored = self.abstract_cmd_register_write(RegisterId(S0), s0);
        match work {
            Err(e) => Err(e),
            Ok(value) => match restored {
                Ok(_) => Ok(value),
                Err(e) => Err(e),
            },
        }
    }

    /// Gives `s0` and `s1` their values back, and returns what the work had
    /// come to.
    fn restore_s0_s1<T>(&mut self, s0: u32, s1: u32, work: Result<T, RiscvError>) -> (r: Result<
        T,
        RiscvError,
    >)
        ensures
            final(self).did(
                old(self),
                outcome_of(
                    old(self).run().with_fault(fault_of(work)).restore_s0_s1(
                        final(self).log(),
                        s0,
                        s1,
                    ),
                    work,
                ),
                r,
            ),
    {
        broadcast use group_memory_progbuf;
        reveal(Run::restore_s0_s1);
        let restored0 = self.abstract_cmd_register_write(RegisterId(S0), s0);
        let restored1 = self.abstract_cmd_register_write(RegisterId(S1), s1);
        match work {
            Err(e) => Err(e),
            Ok(value) => match restored0 {
                Err(e) => Err(e),
                Ok(_) => match restored1 {
                    Ok(_) => Ok(value),
                    Err(e) => Err(e),
                },
            },
        }
    }

    /// Loads one value of a width from memory into `s0`, and reads `s0`.
    fn load_word(&mut self, width: RiscvBusAccess, address: u32) -> (r: Result<u32, RiscvError>)
        ensures
            final(self).did(
                old(self),
                old(self).run().load_word(final(self).log(), width, address),
                r,
            ),
    {
        broadcast use group_memory_progbuf;
        reveal(Run::load_word);
        // lw s0, 0(s0), in the width of the access
        let program = [crate::assembly::lw(0, 8, width.code(), 8)];
        assert(program@ =~= seq![program@[0]]);
        self.setup_program_buffer(program.as_slice())?;
        self.write_dm_register(Data0(address))?;
        // The command moves the address to s0 and runs the program.
        let command = AccessRegisterCommand::transfer(S0, RiscvBusAccess::A32, true, true);
        self.write_dm_register(command)?;
        let status: Abstractcs = self.read_dm_register()?;
        check_cmderr(status)?;
        self.abstract_cmd_register_read(RegisterId(S0))
    }

    /// Reads one value from memory through the program buffer.
    pub fn perform_memory_read_progbuf<V: RiscvValue32>(&mut self, address: u32) -> (r: Result<
        V,
        RiscvError,
    >)
        ensures
            final(self).did(
                old(self),
                old(self).run().read_progbuf::<V>(final(self).log(), address),
                r,
            ),
    {
        broadcast use group_memory_progbuf;
        reveal(Run::read_progbuf);
        let s0 = self.abstract_cmd_register_read(RegisterId(S0))?;
        let work = self.load_word(V::width(), address);
        let value = self.restore_s0(s0, work)?;
        Ok(V::from_register_value(value))
    }

    /// Stores one value of a width from `s1` to memory.
    fn store_word(&mut self, width: RiscvBusAccess, address: u32, value: u32) -> (r: Result<
        (),
        RiscvError,
    >)
        ensures
            final(self).went(
                old(self),
                old(self).run().store_word(final(self).log(), width, address, value),
                r,
            ),
    {
        broadcast use group_memory_progbuf;
        reveal(Run::store_word);
        // sw s1, 0(s0), in the width of the access
        let program = [crate::assembly::sw(0, 8, width.code() as u32, 9)];
        assert(program@ =~= seq![program@[0]]);
        self.setup_program_buffer(program.as_slice())?;
        self.abstract_cmd_register_write(RegisterId(S0), address)?;
        self.write_dm_register(Data0(value))?;
        // The command moves the value to s1 and runs the program.
        let command = AccessRegisterCommand::transfer(S1, RiscvBusAccess::A32, true, true);
        self.write_dm_register(command)?;
        let status: Abstractcs = self.read_dm_register()?;
        check_cmderr(status)
    }

    /// Writes one value to memory through the program buffer.
    pub fn perform_memory_write_progbuf<V: RiscvValue32>(&mut self, address: u32, data: V) -> (r:
        Result<(), RiscvError>)
        ensures
            final(self).went(
                old(self),
                old(self).run().write_progbuf_memory(final(self).log(), address, data),
                r,
            ),
    {
        broadcast use group_memory_progbuf;
        reveal(Run::write_progbuf_memory);
        let s0 = self.abstract_cmd_register_read(RegisterId(S0))?;
        let s1 = self.abstract_cmd_register_read(RegisterId(S1))?;
        let work = self.store_word(V::width(), address, data.register_value());
        self.restore_s0_s1(s0, s1, work)
    }

    /// Reads all words but the last into `data`.
    #[verifier::loop_isolation(false)]
    fn read_words<V: RiscvValue32>(&mut self, data: &mut [V]) -> (r: Result<(), RiscvError>)
        ensures
            final(self).went(
                old(self),
                old(self).run().read_words::<V>(final(self).log(), old(data)@, 0).run,
                r,
            ),
            final(data)@ == old(self).run().read_words::<V>(final(self).log(), old(data)@, 0).value,
            final(data)@.len() == old(data)@.len(),
    {
        broadcast use group_memory_progbuf;
        let n = data.len();
        let count = if n == 0 {
            0
        } else {
            n - 1
        };
        let mut i: usize = 0;
        assert(crate::dtm::extends(self.log(), self.log()));
        while i < count
            invariant
                i <= count,
                n == data@.len(),
                data@.len() == old(data)@.len(),
                crate::dtm::extends(self.log(), old(self).log()),
                forall|new: Seq<Event>| #[trigger]
                    crate::dtm::extends(new, self.log()) ==> old(self).run().read_words::<V>(
                        new,
                        old(data)@,
                        0,
                    ) == self.run().read_words::<V>(new, data@, i as int),
            decreases count - i,
        {
            broadcast use group_memory_progbuf;
            let ghost before = self.run();
            let ghost log0 = self.log();
            let ghost data0 = data@;
            assert(crate::dtm::extends(log0, log0));
            // The command moves s1 to data0 and runs the program again.
            let command = AccessRegisterCommand::transfer(S1, RiscvBusAccess::A32, false, true);
            match self.write_dm_register(command) {
                Ok(_) => {},
                Err(e) => {
                    assert(crate::dtm::extends(self.log(), log0));
                    return Err(e);
                },
            }
            let value: Data0 = match self.read_dm_register() {
                Ok(value) => value,
                Err(e) => {
                    assert(crate::dtm::extends(self.log(), log0));
                    return Err(e);
                },
            };
            let ghost log1 = self.log();
            data[i] = V::from_register_value(value.0);
            i = i + 1;
            proof {
                assert forall|new: Seq<Event>| #[trigger]
                    crate::dtm::extends(new, self.log()) implies old(self).run().read_words::<V>(
                    new,
                    old(data)@,
                    0,
                ) == self.run().read_words::<V>(new, data@, i as int) by {
                    broadcast use group_memory_progbuf;
                    assert(crate::dtm::extends(new, log0));
                    let command = AccessRegisterCommand::spec_transfer(
                        S1,
                        RiscvBusAccess::A32,
                        false,
                        true,
                    );
                    assert(before.write_register(new, COMMAND as u64, command).read_register(
                        new,
                        DATA0 as u64,
                    ) == before.write_register(log1, COMMAND as u64, command).read_register(
                        log1,
                        DATA0 as u64,
                    ));
                }
            }
        }
        assert(crate::dtm::extends(self.log(), self.log()));
        Ok(())
    }

    /// Loads values from consecutive places in memory into all of `data`.
    fn load_words<V: RiscvValue32>(&mut self, address: u32, data: &mut [V]) -> (r: Result<
        (),
        RiscvError,
    >)
        requires
            old(data)@.len() > 0,
        ensures
            final(self).went(
                old(self),
                old(self).run().load_words::<V>(final(self).log(), address, old(data)@).run,
                r,
            ),
            final(data)@ == old(self).run().load_words::<V>(
                final(self).log(),
                address,
                old(data)@,
            ).value,
    {
        broadcast use group_memory_progbuf;
        reveal(Run::load_words);
        // lw s1, 0(s0), in the width of the access; addi s0, s0, width
        let program = [
            crate::assembly::lw(0, 8, V::width().code(), 9),
            crate::assembly::addi(8, 8, V::width().byte_width() as u16),
        ];
        assert(program@ =~= seq![program@[0], program@[1]]);
        self.setup_program_buffer(program.as_slice())?;
        self.write_dm_register(Data0(address))?;
        // The command moves the address to s0 and runs the program.
        let command = AccessRegisterCommand::transfer(S0, RiscvBusAccess::A32, true, true);
        self.write_dm_register(command)?;
        self.read_words(data)?;
        // The last word is only read: the program must not load beyond it.
        let last_value = self.abstract_cmd_register_read(RegisterId(S1))?;
        let last = data.len() - 1;
        data[last] = V::from_register_value(last_value);
        let status: Abstractcs = self.read_dm_register()?;
        check_cmderr(status)
    }

    /// Reads values from consecutive places in memory through the program
    /// buffer.
    pub fn perform_memory_read_multiple_progbuf<V: RiscvValue32>(
        &mut self,
        address: u32,
        data: &mut [V],
    ) -> (r: Result<(), RiscvError>)
        ensures
            final(self).went(
                old(self),
                old(self).run().read_multiple_progbuf::<V>(
                    final(self).log(),
                    address,
                    old(data)@,
                ).run,
                r,
            ),
            final(data)@ == old(self).run().read_multiple_progbuf::<V>(
                final(self).log(),
                address,
                old(data)@,
            ).value,
    {
        broadcast use group_memory_progbuf;
        reveal(Run::read_multiple_progbuf);
        if data.len() == 0 {
            return Ok(());
        }
        let s0 = self.abstract_cmd_register_read(RegisterId(S0))?;
        let s1 = self.abstract_cmd_register_read(RegisterId(S1))?;
        let work = self.load_words(address, data);
        self.restore_s0_s1(s0, s1, work)
    }

    /// Writes the values of `data`, each with one run of the program.
    #[verifier::loop_isolation(false)]
    fn write_words<V: RiscvValue32>(&mut self, data: &[V]) -> (r: Result<(), RiscvError>)
        ensures
            final(self).went(
                old(self),
                old(self).run().write_words(final(self).log(), data@, 0),
                r,
            ),
    {
        broadcast use group_memory_progbuf;
        let mut i: usize = 0;
        assert(crate::dtm::extends(self.log(), self.log()));
        while i < data.len()
            invariant
                i <= data.len(),
                crate::dtm::extends(self.log(), old(self).log()),
                forall|new: Seq<Event>| #[trigger]
                    crate::dtm::extends(new, self.log()) ==> old(self).run().write_words(
                        new,
                        data@,
                        0,
                    ) == self.run().write_words(new, data@, i as int),
            decreases data.len() - i,
        {
            broadcast use group_memory_progbuf;
            let ghost before = self.run();
            let ghost log0 = self.log();
            assert(crate::dtm::extends(log0, log0));
            match self.write_dm_register(Data0(data[i].register_value())) {
                Ok(_) => {},
                Err(e) => {
                    assert(crate::dtm::extends(self.log(), log0));
                    let ghost failed = before.write_register(
                        self.log(),
                        DATA0 as u64,
                        data@[i as int].spec_slot(0),
                    ).write_register(
                        self.log(),
                        COMMAND as u64,
                        AccessRegisterCommand::spec_transfer(S1, RiscvBusAccess::A32, true, true),
                    );
                    assert(failed.write_words(self.log(), data@, i + 1) == failed);
                    return Err(e);
                },
            }
            // The command moves the value to s1 and runs the program.
            let command = AccessRegisterCommand::transfer(S1, RiscvBusAccess::A32, true, true);
            match self.write_dm_register(command) {
                Ok(_) => {},
                Err(e) => {
                    assert(crate::dtm::extends(self.log(), log0));
                    let ghost failed = before.write_register(
                        self.log(),
                        DATA0 as u64,
                        data@[i as int].spec_slot(0),
                    ).write_register(
                        self.log(),
                        COMMAND as u64,
                        AccessRegisterCommand::spec_transfer(S1, RiscvBusAccess::A32, true, true),
                    );
                    assert(failed.write_words(self.log(), data@, i + 1) == failed);
                    return Err(e);
                },
            }
            let ghost log1 = self.log();
            i = i + 1;
            proof {
                assert forall|new: Seq<Event>| #[trigger]
                    crate::dtm::extends(new, self.log()) implies old(self).run().write_words(
                    new,
                    data@,
                    0,
                ) == self.run().write_words(new, data@, i as int) by {
                    broadcast use group_memory_progbuf;
                    assert(crate::dtm::extends(new, log0));
                    let command = AccessRegisterCommand::spec_transfer(
                        S1,
                        RiscvBusAccess::A32,
                        true,
                        true,
                    );
                    assert(before.write_register(
                        new,
                        DATA0 as u64,
                        data@[i - 1].spec_slot(0),
                    ).write_register(new, COMMAND as u64, command) == before.write_register(
                        log1,
                        DATA0 as u64,
                        data@[i - 1].spec_slot(0),
                    ).write_register(log1, COMMAND as u64, command));
                }
            }
        }
        assert(crate::dtm::extends(self.log(), self.log()));
        Ok(())
    }

    /// Stores values to consecutive places in memory.
    fn store_words<V: RiscvValue32>(&mut self, address: u32, data: &[V]) -> (r: Result<
        (),
        RiscvError,
    >)
        ensures
            final(self).went(
                old(self),
                old(self).run().store_words(final(self).log(), address, data@),
                r,
            ),
    {
        broadcast use group_memory_progbuf;
        reveal(Run::store_words);
        // sw s1, 0(s0), in the width of the access; addi s0, s0, width
        let program = [
            crate::assembly::sw(0, 8, V::width().code() as u32, 9),
            crate::assembly::addi(8, 8, V::width().byte_width() as u16),
        ];
        assert(program@ =~= seq![program@[0], program@[1]]);
        self.setup_program_buffer(program.as_slice())?;
        self.abstract_cmd_register_write(RegisterId(S0), address)?;
        self.write_words(data)?;
        // An error stays until it is cleared, so one look at the end is enough.
        let status: Abstractcs = self.read_dm_register()?;
        match check_cmderr(status) {
            Ok(_) => Ok(()),
            Err(e) => Err(RiscvError::DebugProbe(DebugProbeError::ArchitectureSpecific(Box::new(e)))),
        }
    }

    /// Writes values to consecutive places in memory through the program
    /// buffer.
    pub fn perform_memory_write_multiple_progbuf<V: RiscvValue32>(
        &mut self,
        address: u32,
        data: &[V],
    ) -> (r: Result<(), RiscvError>)
        ensures
            final(self).went(
                old(self),
                old(self).run().write_multiple_progbuf(final(self).log(), address, data@),
                r,
            ),
    {
        broadcast use group_memory_progbuf;
        reveal(Run::write_multiple_progbuf);
        let s0 = self.abstract_cmd_register_read(RegisterId(S0))?;
        let s1 = self.abstract_cmd_register_read(RegisterId(S1))?;
        let work = self.store_words(address, data);
        self.restore_s0_s1(s0, s1, work)
    }
}

} // verus!
