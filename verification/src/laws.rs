//! What holds of the interface whatever the debug module answers.

use crate::dtm::{DmiOperation, Event, RISCV_TIMEOUT_MS, RISCV_TIMEOUT_NS};
use crate::error::{AbstractCommandErrorKind, RiscvBusAccess, RiscvError};
use crate::program_buffer::{S0, S1};
use crate::error::DebugModuleVersion;
use crate::registers::{
    Abstractcs, AccessRegisterCommand, Dmcontrol, Dmstatus, Hartinfo, LargeRegister, ABSTRACTCS,
    DMCONTROL, DMSTATUS,
};
use crate::run::Run;
use crate::state::{CoreRegisterAbstractCmdSupport, Model};
use crate::value::{RiscvValue, RiscvValue32};
use vstd::prelude::*;

verus! {

/// The event is an immediate access of this kind that was answered.
pub open spec fn is_answered_access(
    event: Event,
    address: u64,
    value: u32,
    op: DmiOperation,
) -> bool {
    event matches Event::Access { address: a, value: v, op: o, timeout_ms, outcome }
        && a == address && v == value && o == op && timeout_ms == RISCV_TIMEOUT_MS
        && outcome is Ok
}

/// Writing a 64-bit value writes the high slot strictly before slot 0: the
/// two accesses of a write that went well are the write of slot 1 with the
/// high word, then the write of slot 0 with the low word.
pub proof fn lemma_wide_write_order(run: Run, log: Seq<Event>, register: LargeRegister, value: u64)
    requires
        run.live(),
        run.write_large(log, register, value).live(),
    ensures
        0 <= run.at,
        run.at + 2 <= log.len(),
        run.write_large(log, register, value).at == run.at + 2,
        is_answered_access(
            log[run.at],
            register.spec_slot_address(1) as u64,
            (value >> 32u64) as u32,
            DmiOperation::Write,
        ),
        is_answered_access(
            log[run.at + 1],
            register.spec_slot_address(0) as u64,
            (value & 0xffff_ffffu64) as u32,
            DmiOperation::Write,
        ),
{
    reveal(Run::write_large);
    reveal(Run::access);
}

/// Reading a 64-bit value reads the high slot strictly before slot 0: the
/// four accesses of a read that went well are the read of slot 1 with the
/// access that brings its value, then the same for slot 0, and the value is
/// put together from the two.
pub proof fn lemma_wide_read_order(run: Run, log: Seq<Event>, register: LargeRegister)
    requires
        run.live(),
        run.read_large::<u64>(log, register).run.live(),
    ensures
        0 <= run.at,
        run.at + 4 <= log.len(),
        run.read_large::<u64>(log, register).run.at == run.at + 4,
        is_answered_access(
            log[run.at],
            register.spec_slot_address(1) as u64,
            0,
            DmiOperation::Read,
        ),
        is_answered_access(log[run.at + 1], 0, 0, DmiOperation::NoOp),
        is_answered_access(
            log[run.at + 2],
            register.spec_slot_address(0) as u64,
            0,
            DmiOperation::Read,
        ),
        is_answered_access(log[run.at + 3], 0, 0, DmiOperation::NoOp),
        log[run.at + 1] matches Event::Access { outcome: Ok(high), .. } && log[run.at
            + 3] matches Event::Access { outcome: Ok(low), .. } && run.read_large::<u64>(
            log,
            register,
        ).value == ((high as u64) << 32u64) | (low as u64),
{
    reveal(Run::read_large);
    reveal(Run::read_register);
    reveal(Run::access);
}

/// A 64-bit value is its low word joined with its high word.
pub proof fn lemma_join_words(value: u64)
    ensures
        crate::memory::spec_join_words(value as u32, (value >> 32u64) as u32) == value,
{
    assert(((value as u32) as u64) | ((((value >> 32u64) as u32) as u64) << 32u64) == value)
        by (bit_vector);
}

/// A 64-bit word is written as the pair of its 32-bit words, the low one at
/// the address and the high one four bytes on, and is read as such a pair.
pub proof fn lemma_word_64_is_two_words(run: Run, log: Seq<Event>, address: u32, value: u64)
    ensures
        run.write_word_64(log, address, value) == run.write_word::<u32>(
            log,
            address,
            value as u32,
        ).write_word::<u32>(log, (address + 4) as u32, (value >> 32u64) as u32),
        run.read_word_64(log, address).run == run.read_word::<u32>(log, address).run.read_word::<
            u32,
        >(log, (address + 4) as u32).run,
        run.read_word_64(log, address).value == crate::memory::spec_join_words(
            run.read_word::<u32>(log, address).value,
            run.read_word::<u32>(log, address).run.read_word::<u32>(
                log,
                (address + 4) as u32,
            ).value,
        ),
{
    reveal(Run::write_word_64);
    reveal(Run::read_word_64);
}

/// Support for a kind of access, once it was taken from a register, does not
/// come back, whatever is learnt of this or another register later.
pub proof fn lemma_support_only_narrows(
    state: Model,
    regno: u16,
    rw: CoreRegisterAbstractCmdSupport,
    other: u16,
    lost: CoreRegisterAbstractCmdSupport,
)
    requires
        !state.supports(regno, rw),
    ensures
        !state.with_unsupported(other, lost).supports(regno, rw),
{
    let before = state.support_of(regno).0;
    let asked = rw.0;
    let taken = lost.0;
    assert(before & asked != asked ==> (before & !taken) & asked != asked) by (bit_vector);
}

/// A register that was found not to support a kind of access does not
/// support it afterwards.
pub proof fn lemma_unsupported_is_recorded(
    state: Model,
    regno: u16,
    rw: CoreRegisterAbstractCmdSupport,
)
    requires
        rw.0 != 0,
    ensures
        !state.with_unsupported(regno, rw).supports(regno, rw),
{
    let before = state.support_of(regno).0;
    let asked = rw.0;
    assert(asked != 0 ==> (before & !asked) & asked != asked) by (bit_vector);
}

/// Writing a program leaves everything of the state but the cache as it is.
pub proof fn lemma_write_program_keeps_state(
    run: Run,
    log: Seq<Event>,
    program: Seq<u32>,
    from: int,
)
    ensures
        run.write_program(log, program, from).state == run.state,
    decreases program.len() - from,
{
    broadcast use crate::run::group_run;
    if run.live() && 0 <= from < program.len() {
        lemma_write_program_keeps_state(
            run.write_progbuf(log, from as usize, program[from]),
            log,
            program,
            from + 1,
        );
    }
}

/// A program that was placed in the program buffer is known to be there, and
/// the sizes that decide whether it fits are as they were.
pub proof fn lemma_program_is_remembered(run: Run, log: Seq<Event>, program: Seq<u32>)
    requires
        run.live(),
        run.state.wf(),
        run.setup_program_buffer(log, program).live(),
    ensures
        run.setup_program_buffer(log, program).state.cache_holds(program),
        run.setup_program_buffer(log, program).state.wf(),
        run.setup_program_buffer(log, program).state.progbuf_size == run.state.progbuf_size,
        run.setup_program_buffer(log, program).state.implicit_ebreak == run.state.implicit_ebreak,
{
    broadcast use crate::program_buffer::group_program_buffer;
    reveal(Run::setup_program_buffer);
    if !run.state.cache_holds(program) {
        let written = run.write_program(log, program, 0);
        lemma_write_program_keeps_state(run, log, program, 0);
        crate::program_buffer::lemma_write_program_fits(run, log, program, 0);
        let cached = run.state.with_cached(program);
        assert(cached.progbuf_cache.subrange(0, program.len() as int) =~= program);
    }
}

/// Placing the same program twice in a row writes the program buffer only
/// the first time: the second time nothing is asked of the debug module,
/// whatever it would answer.
pub proof fn lemma_program_buffer_written_once(
    run: Run,
    log: Seq<Event>,
    later: Seq<Event>,
    program: Seq<u32>,
)
    requires
        run.live(),
        run.state.wf(),
        run.setup_program_buffer(log, program).live(),
    ensures
        run.setup_program_buffer(log, program).setup_program_buffer(later, program)
            == run.setup_program_buffer(log, program),
{
    lemma_program_is_remembered(run, log, program);
    reveal(Run::setup_program_buffer);
}

/// A register that is known not to support reads fails at once: nothing is
/// asked of the debug module.
pub proof fn lemma_unsupported_read_fails_at_once(run: Run, log: Seq<Event>, regno: u16)
    requires
        run.live(),
        !run.state.supports(regno, CoreRegisterAbstractCmdSupport::spec_read()),
    ensures
        run.abstract_cmd_register_read(log, regno).run == run.fail(
            RiscvError::AbstractCommand(AbstractCommandErrorKind::NotSupported),
        ),
{
    reveal(Run::abstract_cmd_register_read);
}

/// A register that is known not to support writes fails at once: nothing is
/// asked of the debug module.
pub proof fn lemma_unsupported_write_fails_at_once<V: RiscvValue>(
    run: Run,
    log: Seq<Event>,
    regno: u16,
    value: V,
)
    requires
        run.live(),
        !run.state.supports(regno, CoreRegisterAbstractCmdSupport::spec_write()),
    ensures
        run.abstract_cmd_register_write(log, regno, value) == run.fail(
            RiscvError::AbstractCommand(AbstractCommandErrorKind::NotSupported),
        ),
{
    reveal(Run::abstract_cmd_register_write);
}

/// Once the command that reads a register has failed as not supported, a
/// later read of the register fails in the same way without a command: it
/// ends where it began, whatever the debug module would answer.
///
/// This speaks of reads whose command failed, or that failed at once. A
/// read whose command went well can still fail when `data0` is read, with
/// whatever the transport reports, and nothing is learnt of the register then.
pub proof fn lemma_unsupported_read_is_remembered(
    run: Run,
    log: Seq<Event>,
    later: Seq<Event>,
    regno: u16,
)
    requires
        run.live(),
        run.abstract_cmd_register_read(log, regno).run.valid,
        run.abstract_cmd_register_read(log, regno).run.fault == Some(
            RiscvError::AbstractCommand(AbstractCommandErrorKind::NotSupported),
        ),
        !(run.state.supports(regno, CoreRegisterAbstractCmdSupport::spec_read())
            && run.execute_abstract_command(
            log,
            AccessRegisterCommand::spec_transfer(regno, RiscvBusAccess::A32, false, false),
        ).live()),
    ensures
        run.abstract_cmd_register_read(log, regno).run.resume().abstract_cmd_register_read(
            later,
            regno,
        ).run == run.abstract_cmd_register_read(log, regno).run,
{
    broadcast use crate::abstract_command::group_abstract_command;
    reveal(Run::abstract_cmd_register_read);
    let first = run.abstract_cmd_register_read(log, regno).run;
    if run.state.supports(regno, CoreRegisterAbstractCmdSupport::spec_read()) {
        let command = AccessRegisterCommand::spec_transfer(
            regno,
            RiscvBusAccess::A32,
            false,
            false,
        );
        let executed = run.execute_abstract_command(log, command);
        let noted = executed.note_unsupported(regno, CoreRegisterAbstractCmdSupport::spec_read());
        assert(first == noted);
        lemma_unsupported_is_recorded(
            executed.state,
            regno,
            CoreRegisterAbstractCmdSupport::spec_read(),
        );
    }
    lemma_unsupported_read_fails_at_once(first.resume(), later, regno);
}

/// Once the command that writes a register has failed as not supported, a
/// later write to the register fails in the same way without any access:
/// it ends where it began, whatever the debug module would answer.
///
/// This speaks of writes whose command failed, or that failed at once. A
/// write can also fail while the value is put in the data registers, with
/// whatever the transport reports, and nothing is learnt of the register then.
pub proof fn lemma_unsupported_write_is_remembered<V: RiscvValue>(
    run: Run,
    log: Seq<Event>,
    later: Seq<Event>,
    regno: u16,
    value: V,
    again: V,
)
    requires
        run.live(),
        run.abstract_cmd_register_write(log, regno, value).valid,
        run.abstract_cmd_register_write(log, regno, value).fault == Some(
            RiscvError::AbstractCommand(AbstractCommandErrorKind::NotSupported),
        ),
        !run.state.supports(regno, CoreRegisterAbstractCmdSupport::spec_write())
            || run.write_large(log, LargeRegister::Arg0, value).live(),
    ensures
        run.abstract_cmd_register_write(log, regno, value).resume().abstract_cmd_register_write(
            later,
            regno,
            again,
        ) == run.abstract_cmd_register_write(log, regno, value),
{
    broadcast use crate::abstract_command::group_abstract_command;
    reveal(Run::abstract_cmd_register_write);
    let first = run.abstract_cmd_register_write(log, regno, value);
    if run.state.supports(regno, CoreRegisterAbstractCmdSupport::spec_write()) {
        let placed = run.write_large(log, LargeRegister::Arg0, value);
        let command = AccessRegisterCommand::spec_transfer(regno, V::spec_width(), true, false);
        let executed = placed.execute_abstract_command(log, command);
        lemma_unsupported_is_recorded(
            executed.state,
            regno,
            CoreRegisterAbstractCmdSupport::spec_write(),
        );
    }
    lemma_unsupported_write_fails_at_once(first.resume(), later, regno, again);
}

/// Putting `s0` back is a write of the saved value to `s0` that takes place
/// whether the work failed or not. The whole goes well only if the work did
/// and the write does, and a failure of the work is the failure of the whole.
pub proof fn lemma_restore_s0_puts_back(run: Run, log: Seq<Event>, s0: u32)
    ensures
        ({
            let back = run.resume().abstract_cmd_register_write(log, S0, s0);
            let restored = run.restore_s0(log, s0);
            &&& restored.at == back.at
            &&& restored.valid == back.valid
            &&& restored.state == back.state
            &&& restored.live() <==> run.fault is None && back.live()
            &&& run.fault is Some ==> restored.fault == run.fault
        }),
{
    reveal(Run::restore_s0);
}

/// Putting `s0` and `s1` back is a write of the saved value to `s0` and then
/// one to `s1`, and both take place whether the work failed or not, and the
/// second whether the first failed or not. The whole goes well only if the
/// work did and both writes do, and a failure of the work is the failure of
/// the whole.
pub proof fn lemma_restore_s0_s1_puts_back(run: Run, log: Seq<Event>, s0: u32, s1: u32)
    ensures
        ({
            let first = run.resume().abstract_cmd_register_write(log, S0, s0);
            let second = first.resume().abstract_cmd_register_write(log, S1, s1);
            let restored = run.restore_s0_s1(log, s0, s1);
            &&& restored.at == second.at
            &&& restored.valid == second.valid
            &&& restored.state == second.state
            &&& restored.live() <==> run.fault is None && first.fault is None && second.live()
            &&& run.fault is Some ==> restored.fault == run.fault
        }),
{
    reveal(Run::restore_s0_s1);
}

/// Every access to memory or to a CSR through the program buffer saves the
/// scratch registers that it uses before its work and puts them back after
/// it: `s0` for a single read and for CSRs, `s0` and `s1` else. What is put
/// back is what the read at the start returned.
pub proof fn lemma_scratch_registers_are_put_back<V: RiscvValue32>(
    run: Run,
    log: Seq<Event>,
    address: u32,
    csr: u16,
    value: V,
    word: u32,
    data: Seq<V>,
)
    requires
        run.abstract_cmd_register_read(log, S0).run.live(),
    ensures
        ({
            let saved0 = run.abstract_cmd_register_read(log, S0);
            let saved1 = saved0.run.abstract_cmd_register_read(log, S1);
            &&& run.read_progbuf::<V>(log, address).run == saved0.run.load_word(
                log,
                V::spec_width(),
                address,
            ).run.restore_s0(log, saved0.value)
            &&& run.read_csr_progbuf(log, csr).run == saved0.run.setup_program_buffer(
                log,
                seq![crate::assembly::spec_csrr(8, csr)],
            ).execute_abstract_command(
                log,
                AccessRegisterCommand::spec_postexec_only(),
            ).abstract_cmd_register_read(log, S0).run.restore_s0(log, saved0.value)
            &&& run.write_csr_progbuf(log, csr, word) == saved0.run.abstract_cmd_register_write(
                log,
                S0,
                word,
            ).setup_program_buffer(
                log,
                seq![crate::assembly::spec_csrw(csr, 8)],
            ).execute_abstract_command(
                log,
                AccessRegisterCommand::spec_postexec_only(),
            ).restore_s0(log, saved0.value)
            &&& saved1.run.live() ==> {
                &&& run.write_progbuf_memory(log, address, value) == saved1.run.store_word(
                    log,
                    V::spec_width(),
                    address,
                    value.spec_slot(0),
                ).restore_s0_s1(log, saved0.value, saved1.value)
                &&& run.write_multiple_progbuf(log, address, data) == saved1.run.store_words(
                    log,
                    address,
                    data,
                ).restore_s0_s1(log, saved0.value, saved1.value)
                &&& data.len() > 0 ==> run.read_multiple_progbuf(log, address, data).run
                    == saved1.run.load_words(log, address, data).run.restore_s0_s1(
                    log,
                    saved0.value,
                    saved1.value,
                )
            }
        }),
{
    reveal(Run::read_progbuf);
    reveal(Run::read_csr_progbuf);
    reveal(Run::write_csr_progbuf);
    reveal(Run::write_progbuf_memory);
    reveal(Run::write_multiple_progbuf);
    reveal(Run::read_multiple_progbuf);
    reveal(Run::restore_s0);
}

/// A command that is still busy when the clock shows more than five seconds
/// ends the wait with `Timeout`, right after the clock was read.
pub proof fn lemma_busy_past_the_timeout(run: Run, log: Seq<Event>, budget: nat)
    requires
        run.live(),
        budget > 0,
        run.read_register(log, ABSTRACTCS as u64).run.live(),
        Abstractcs(run.read_register(log, ABSTRACTCS as u64).value).spec_busy(),
        run.read_register(log, ABSTRACTCS as u64).run.elapsed(log).run.live(),
        run.read_register(log, ABSTRACTCS as u64).run.elapsed(log).value > RISCV_TIMEOUT_NS,
    ensures
        run.poll_busy(log, budget).run.fault == Some(RiscvError::Timeout),
        run.poll_busy(log, budget).run.at == run.read_register(log, ABSTRACTCS as u64).run.elapsed(
            log,
        ).run.at,
{
}

/// A command that is found done is waited for no longer: the wait ends with
/// the word that showed `busy` clear, however much time has passed.
pub proof fn lemma_done_ends_the_wait(run: Run, log: Seq<Event>, budget: nat)
    requires
        run.live(),
        budget > 0,
        run.read_register(log, ABSTRACTCS as u64).run.live(),
        !Abstractcs(run.read_register(log, ABSTRACTCS as u64).value).spec_busy(),
    ensures
        run.poll_busy(log, budget) == run.read_register(log, ABSTRACTCS as u64),
{
}

/// Counting harts leaves the state as it is, and counts at least as many
/// harts as it began with and no more than the limit allows.
pub proof fn lemma_count_harts_bounds(run: Run, log: Seq<Event>, index: u32, limit: u32)
    ensures
        run.count_harts(log, index, limit).run.state == run.state,
        index <= run.count_harts(log, index, limit).value,
        index <= limit ==> run.count_harts(log, index, limit).value <= limit,
    decreases limit - index,
{
    broadcast use crate::run::group_run;
    if run.live() && index < limit {
        let status = run.write_register(
            log,
            DMCONTROL as u64,
            Dmcontrol::spec_select_hart(index),
        ).read_register(log, DMSTATUS as u64);
        if status.run.live() && !Dmstatus(status.value).spec_anynonexistent() {
            lemma_count_harts_bounds(status.run, log, (index + 1) as u32, limit);
        }
    }
}

/// Every word of `abstractcs` that the debug module has returned shows a
/// program buffer of at most `limit` words.
pub open spec fn reports_program_buffer_within(log: Seq<Event>, limit: u32) -> bool {
    forall|i: int|
        0 <= i && i + 1 < log.len() && is_answered_access(
            #[trigger] log[i],
            ABSTRACTCS as u64,
            0,
            DmiOperation::Read,
        ) ==> (log[i + 1] matches Event::Access { outcome: Ok(word), .. } ==> Abstractcs(
            word,
        ).spec_progbufsize() <= limit)
}

/// What attaching establishes, whatever the debug module answers: where it
/// goes well, the module is of version 0.13, there is at least one hart and
/// no more than the hart selection can tell apart, the selection has at
/// most 20 bits, and the sizes are within what their fields can hold. The
/// program buffer has at most as many words as the module ever reports;
/// a module that conforms reports at most 16.
pub proof fn lemma_attach_establishes(run: Run, log: Seq<Event>, limit: u32)
    requires
        run.live(),
        run.state.wf(),
        run.enter_debug_mode(log).live(),
    ensures
        ({
            let state = run.enter_debug_mode(log).state;
            &&& state.wf()
            &&& state.attached()
            &&& reports_program_buffer_within(log, limit) ==> state.progbuf_size <= limit
        }),
{
    broadcast use crate::attach::group_attach;
    reveal(Run::enter_debug_mode);
    let first = run.probe_status(log);
    let second = first.probe_harts(log);
    let third = second.probe_abstract(log);
    lemma_probe_status_establishes(run, log);
    lemma_probe_harts_establishes(first, log);
    lemma_probe_abstract_establishes(second, log, limit);
    reveal(Run::probe_system_bus);
}

/// What the first step of attaching establishes.
pub proof fn lemma_probe_status_establishes(run: Run, log: Seq<Event>)
    requires
        run.live(),
        run.probe_status(log).live(),
    ensures
        run.probe_status(log).state.debug_version == DebugModuleVersion::Version0_13,
        run.probe_status(log).state.progbuf_cache == run.state.progbuf_cache,
{
    broadcast use crate::run::group_run;
    reveal(Run::probe_status);
}

/// What the second step of attaching establishes.
pub proof fn lemma_probe_harts_establishes(run: Run, log: Seq<Event>)
    requires
        run.live(),
        run.probe_harts(log).live(),
    ensures
        ({
            let state = run.probe_harts(log).state;
            &&& state.debug_version == run.state.debug_version
            &&& state.progbuf_cache == run.state.progbuf_cache
            &&& state.num_harts >= 1
            &&& state.hartsellen <= 20
            &&& state.num_harts <= 1u32 << (state.hartsellen as u32)
        }),
{
    broadcast use crate::run::group_run;
    reveal(Run::probe_harts);
    let control = run.write_register(
        log,
        DMCONTROL as u64,
        Dmcontrol::spec_select_hart(0),
    ).write_register(
        log,
        DMCONTROL as u64,
        Dmcontrol::spec_select_hart(0xffff_ffff),
    ).read_register(log, DMCONTROL as u64);
    let hartsel = Dmcontrol(control.value).spec_hartsel();
    let raw = control.value;
    assert(hartsel >> 20u32 == 0) by (bit_vector)
        requires
            hartsel == (((raw >> 6u32) & (0xffff_ffffu32 >> 22u32)) << 10u32) | ((raw >> 16u32) & (
            0xffff_ffffu32 >> 22u32)),
    ;
    crate::bits::lemma_ones_of_narrow(hartsel, 20);
    let hartsellen = crate::bits::ones(hartsel) as u8;
    let width: u32 = hartsellen as u32;
    assert(1u32 << width >= 1) by (bit_vector)
        requires
            width <= 20,
    ;
    let sized = control.run.with_state(Model { hartsellen, ..control.run.state });
    lemma_count_harts_bounds(sized, log, 1, 1u32 << width);
}

/// What the third step of attaching establishes.
pub proof fn lemma_probe_abstract_establishes(run: Run, log: Seq<Event>, limit: u32)
    requires
        run.live(),
        run.probe_abstract(log).live(),
    ensures
        ({
            let state = run.probe_abstract(log).state;
            &&& state.debug_version == run.state.debug_version
            &&& state.progbuf_cache == run.state.progbuf_cache
            &&& state.num_harts == run.state.num_harts
            &&& state.hartsellen == run.state.hartsellen
            &&& state.progbuf_size <= 31
            &&& state.data_register_count <= 15
            &&& state.nscratch <= 15
            &&& reports_program_buffer_within(log, limit) ==> state.progbuf_size <= limit
        }),
{
    broadcast use crate::run::group_run;
    reveal(Run::probe_abstract);
    let abstractcs = run.read_register(log, ABSTRACTCS as u64);
    Abstractcs(abstractcs.value).lemma_size_ranges();
    let sized = abstractcs.run.with_state(
        Model {
            progbuf_size: Abstractcs(abstractcs.value).spec_progbufsize() as u8,
            data_register_count: Abstractcs(abstractcs.value).spec_datacount() as u8,
            ..abstractcs.run.state
        },
    );
    let hartinfo = sized.read_register(log, crate::registers::HARTINFO as u64);
    Hartinfo(hartinfo.value).lemma_nscratch_range();
    if reports_program_buffer_within(log, limit) {
        reveal(Run::read_register);
        reveal(Run::access);
        assert(is_answered_access(log[run.at], ABSTRACTCS as u64, 0, DmiOperation::Read));
    }
}

} // verus!
