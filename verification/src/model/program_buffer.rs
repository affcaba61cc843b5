//! What accesses through the program buffer achieve: reads and writes of
//! words of the memory and of CSRs.

use crate::dtm::Event;
use crate::error::RiscvBusAccess;
use crate::model::Module;
use crate::program_buffer::{S0, S1};
use crate::registers::{AccessRegisterCommand, ABSTRACTCS, COMMAND, DATA0};
use crate::run::Run;
use crate::state::Model;
use crate::model::word_at;
use crate::model::programs::{
    holds_pair, knowing, knowing_pair, lemma_csr_instructions, lemma_instructions, lemma_move_on,
    lemma_pair_runs, lemma_set_up, lemma_set_up_pair, lemma_setup_instruction_steps,
    lemma_setup_pair_steps, lemma_single_instruction_runs, ready, ready_pair, set_up,
    set_up_pair, moves_on_behind, ran,
};
use crate::model::steps::{
    forgetful, lemma_execute_abstract_command_steps, lemma_leaf_steps, lemma_register_read_steps,
    lemma_register_write_steps, went_along,
};
use vstd::prelude::*;

verus! {

/// The module after a word was stored through the program buffer: the word
/// is in the memory, `s1` holds it, and `s0` holds its address, or the
/// address behind it where the program goes on to move `s0` on.
pub open spec fn stored_word(m: Module, state: Model, address: u32, value: u32) -> Module {
    let held = set_up(m, crate::assembly::spec_sw(0, 8, 2, 9), state);
    let x = m.x.update(8, address).update(9, value);
    Module {
        pending: None,
        data0: value,
        x: if moves_on_behind(held, crate::assembly::spec_sw(0, 8, 2, 9)) {
            x.update(8, (address + 4) as u32)
        } else {
            x
        },
        memory: m.memory.insert(address, value),
        progbuf: held.progbuf,
        ..m
    }
}

/// The store of a word through the program buffer, where it went well: the
/// word is in the memory of the module, and `s0` and `s1` hold the address
/// and the word.
pub proof fn lemma_store_word_steps(
    run: Run,
    log: Seq<Event>,
    to: int,
    m: Module,
    address: u32,
    value: u32,
)
    requires
        run.live(),
        ready(run.state, m, crate::assembly::spec_sw(0, 8, 2, 9)),
        run.store_word(log, RiscvBusAccess::A32, address, value).live(),
    ensures
        run.store_word(log, RiscvBusAccess::A32, address, value).at >= run.at,
        run.store_word(log, RiscvBusAccess::A32, address, value).state == knowing(
            run.state,
            crate::assembly::spec_sw(0, 8, 2, 9),
        ),
        1 + (if run.state.implicit_ebreak {
            0int
        } else {
            1int
        }) <= run.state.progbuf_size,
        went_along(
            run,
            run.store_word(log, RiscvBusAccess::A32, address, value),
            log,
            to,
            m,
            stored_word(m, run.state, address, value),
        ),
{
    broadcast use crate::memory_progbuf::group_memory_progbuf;
    reveal(Run::store_word);
    let word = crate::assembly::spec_sw(0, 8, 2, 9);
    let program = seq![word];
    let command = AccessRegisterCommand::spec_transfer(S1, RiscvBusAccess::A32, true, true);
    AccessRegisterCommand::lemma_transfer_fields(S1, RiscvBusAccess::A32, true, true);
    lemma_instructions(8, 9);
    let r1 = run.setup_program_buffer(log, program);
    let r2 = r1.abstract_cmd_register_write(log, S0, address);
    let r3 = r2.write_register(log, DATA0 as u64, value);
    let r4 = r3.write_register(log, COMMAND as u64, command);
    let status = r4.read_register(log, ABSTRACTCS as u64);
    lemma_setup_instruction_steps(run, log, to, m, word);
    lemma_set_up(m, m, word, run.state);
    let m1 = set_up(m, word, run.state);
    lemma_register_write_steps(r1, log, to, m1, S0, address);
    let m2 = Module { pending: None, data0: address, x: m1.x.update(8, address), ..m1 };
    lemma_leaf_steps(r2, log, to, m2, DATA0 as u64, value);
    let m3 = Module { data0: value, ..m2 };
    lemma_leaf_steps(r3, log, to, m3, COMMAND as u64, command);
    let moved = Module { x: m3.x.update(9, value), ..m3 };
    lemma_single_instruction_runs(moved, word);
    let m4 = ran(moved, word);
    assert(m3.command(command) == m4);
    lemma_leaf_steps(r4, log, to, m4, ABSTRACTCS as u64, 0);
    assert(forgetful(m4) == stored_word(m, run.state, address, value));
}

/// The load of a word through the program buffer, where it went well: it
/// brought back the word that the memory of the module holds, and `s0`
/// holds the word.
pub proof fn lemma_load_word_steps(run: Run, log: Seq<Event>, to: int, m: Module, address: u32)
    requires
        run.live(),
        ready(run.state, m, crate::assembly::spec_lw(0, 8, 2, 8)),
        run.load_word(log, RiscvBusAccess::A32, address).run.live(),
    ensures
        run.load_word(log, RiscvBusAccess::A32, address).run.at >= run.at,
        run.load_word(log, RiscvBusAccess::A32, address).run.state == knowing(
            run.state,
            crate::assembly::spec_lw(0, 8, 2, 8),
        ),
        1 + (if run.state.implicit_ebreak {
            0int
        } else {
            1int
        }) <= run.state.progbuf_size,
        went_along(
            run,
            run.load_word(log, RiscvBusAccess::A32, address).run,
            log,
            to,
            m,
            Module {
                pending: Some(m.memory[address]),
                data0: m.memory[address],
                x: m.x.update(8, m.memory[address]),
                progbuf: set_up(m, crate::assembly::spec_lw(0, 8, 2, 8), run.state).progbuf,
                ..m
            },
        ),
        run.load_word(log, RiscvBusAccess::A32, address).run.at <= to && m.after_all(
            log,
            run.at,
            to,
        ) is Some ==> run.load_word(log, RiscvBusAccess::A32, address).value == m.memory[address],
{
    broadcast use crate::memory_progbuf::group_memory_progbuf;
    reveal(Run::load_word);
    let word = crate::assembly::spec_lw(0, 8, 2, 8);
    let program = seq![word];
    let command = AccessRegisterCommand::spec_transfer(S0, RiscvBusAccess::A32, true, true);
    AccessRegisterCommand::lemma_transfer_fields(S0, RiscvBusAccess::A32, true, true);
    lemma_instructions(8, 8);
    let r1 = run.setup_program_buffer(log, program);
    let r2 = r1.write_register(log, DATA0 as u64, address);
    let r3 = r2.write_register(log, COMMAND as u64, command);
    let status = r3.read_register(log, ABSTRACTCS as u64);
    let read = status.run.abstract_cmd_register_read(log, S0);
    lemma_setup_instruction_steps(run, log, to, m, word);
    lemma_set_up(m, m, word, run.state);
    let m1 = set_up(m, word, run.state);
    lemma_leaf_steps(r1, log, to, m1, DATA0 as u64, address);
    let m2 = Module { data0: address, ..m1 };
    lemma_leaf_steps(r2, log, to, m2, COMMAND as u64, command);
    let moved = Module { x: m2.x.update(8, address), ..m2 };
    lemma_single_instruction_runs(moved, word);
    let m3 = Module { x: moved.x.update(8, m.memory[address]), ..moved };
    assert(m2.command(command) == m3);
    lemma_leaf_steps(r3, log, to, m3, ABSTRACTCS as u64, 0);
    let m4 = forgetful(m3);
    lemma_register_read_steps(status.run, log, to, m4, S0);
    assert(m.x.update(8, address).update(8, m.memory[address]) =~= m.x.update(
        8,
        m.memory[address],
    ));
}

/// The module after a word was written through the program buffer: the
/// word is in its memory, the program is in its program buffer, and its
/// registers are as they were.
pub open spec fn written_through_program_buffer(
    m: Module,
    state: Model,
    address: u32,
    value: u32,
) -> Module {
    Module {
        pending: None,
        data0: m.x[9],
        memory: m.memory.insert(address, value),
        progbuf: set_up(m, crate::assembly::spec_sw(0, 8, 2, 9), state).progbuf,
        ..m
    }
}

/// The module after a word was read through the program buffer: the
/// program is in its program buffer, and its registers and its memory are as
/// they were.
pub open spec fn read_through_program_buffer(m: Module, state: Model) -> Module {
    Module {
        pending: None,
        data0: m.x[8],
        progbuf: set_up(m, crate::assembly::spec_lw(0, 8, 2, 8), state).progbuf,
        ..m
    }
}

/// A write of a word through the program buffer that went well has put the
/// word in the memory of the module, and has left the registers of the hart
/// and the rest of the memory as they were. The interface and the module
/// agree on the program buffer afterwards.
pub proof fn lemma_write_through_program_buffer(
    run: Run,
    log: Seq<Event>,
    to: int,
    m: Module,
    address: u32,
    value: u32,
)
    requires
        run.live(),
        ready(run.state, m, crate::assembly::spec_sw(0, 8, 2, 9)),
        run.write_progbuf_memory::<u32>(log, address, value).live(),
    ensures
        run.write_progbuf_memory::<u32>(log, address, value).at >= run.at,
        run.write_progbuf_memory::<u32>(log, address, value).state == knowing(
            run.state,
            crate::assembly::spec_sw(0, 8, 2, 9),
        ),
        went_along(
            run,
            run.write_progbuf_memory::<u32>(log, address, value),
            log,
            to,
            m,
            written_through_program_buffer(m, run.state, address, value),
        ),
        forall|word: u32| #[trigger]
            ready(
                run.write_progbuf_memory::<u32>(log, address, value).state,
                written_through_program_buffer(m, run.state, address, value),
                word,
            ),
{
    broadcast use crate::memory_progbuf::group_memory_progbuf;
    reveal(Run::write_progbuf_memory);
    reveal(Run::restore_s0_s1);
    let store = crate::assembly::spec_sw(0, 8, 2, 9);
    let written = run.write_progbuf_memory::<u32>(log, address, value);
    let saved0 = run.abstract_cmd_register_read(log, S0);
    let saved1 = saved0.run.abstract_cmd_register_read(log, S1);
    let stored = saved1.run.store_word(log, RiscvBusAccess::A32, address, value);
    let back0 = stored.abstract_cmd_register_write(log, S0, saved0.value);
    let back1 = back0.abstract_cmd_register_write(log, S1, saved1.value);
    assert(written == back1);
    lemma_register_read_steps(run, log, to, m, S0);
    let m1 = Module { pending: Some(m.x[8]), data0: m.x[8], ..m };
    lemma_register_read_steps(saved0.run, log, to, m1, S1);
    let m2 = Module { pending: Some(m.x[9]), data0: m.x[9], ..m };
    lemma_store_word_steps(saved1.run, log, to, m2, address, value);
    lemma_set_up(m, m2, store, run.state);
    let m3 = stored_word(m2, run.state, address, value);
    lemma_register_write_steps(stored, log, to, m3, S0, saved0.value);
    let m4 = Module { pending: None, data0: saved0.value, x: m3.x.update(8, saved0.value), ..m3 };
    lemma_register_write_steps(back0, log, to, m4, S1, saved1.value);
    let m5 = Module { pending: None, data0: saved1.value, x: m4.x.update(9, saved1.value), ..m4 };
    let end = written_through_program_buffer(m, run.state, address, value);
    if written.at <= to && m.after_all(log, run.at, to) is Some {
        assert(m5.x =~= m.x);
        assert(m5 == end);
    }
    assert forall|word: u32| #[trigger] ready(written.state, end, word) by {
        assert(knowing(run.state, store).cache_holds(seq![word]) <==> word == store);
    }
}

/// A read of a word through the program buffer that went well has brought
/// back the word that the memory of the module holds at the address, and
/// has left the registers of the hart and the memory as they were. The
/// interface and the module agree on the program buffer afterwards.
pub proof fn lemma_read_through_program_buffer(
    run: Run,
    log: Seq<Event>,
    to: int,
    m: Module,
    address: u32,
)
    requires
        run.live(),
        ready(run.state, m, crate::assembly::spec_lw(0, 8, 2, 8)),
        run.read_progbuf::<u32>(log, address).run.live(),
    ensures
        run.read_progbuf::<u32>(log, address).run.at >= run.at,
        run.read_progbuf::<u32>(log, address).run.state == knowing(
            run.state,
            crate::assembly::spec_lw(0, 8, 2, 8),
        ),
        went_along(
            run,
            run.read_progbuf::<u32>(log, address).run,
            log,
            to,
            m,
            read_through_program_buffer(m, run.state),
        ),
        run.read_progbuf::<u32>(log, address).run.at <= to && m.after_all(log, run.at, to)
            is Some ==> run.read_progbuf::<u32>(log, address).value == m.memory[address],
        forall|word: u32| #[trigger]
            ready(
                run.read_progbuf::<u32>(log, address).run.state,
                read_through_program_buffer(m, run.state),
                word,
            ),
{
    broadcast use crate::memory_progbuf::group_memory_progbuf;
    reveal(Run::read_progbuf);
    reveal(Run::restore_s0);
    let load = crate::assembly::spec_lw(0, 8, 2, 8);
    let read = run.read_progbuf::<u32>(log, address);
    let saved0 = run.abstract_cmd_register_read(log, S0);
    let loaded = saved0.run.load_word(log, RiscvBusAccess::A32, address);
    let back = loaded.run.abstract_cmd_register_write(log, S0, saved0.value);
    assert(read.run == back);
    assert(read.value == loaded.value);
    lemma_register_read_steps(run, log, to, m, S0);
    let m1 = Module { pending: Some(m.x[8]), data0: m.x[8], ..m };
    lemma_load_word_steps(saved0.run, log, to, m1, address);
    lemma_set_up(m, m1, load, run.state);
    let m2 = Module {
        pending: Some(m.memory[address]),
        data0: m.memory[address],
        x: m.x.update(8, m.memory[address]),
        progbuf: set_up(m1, load, run.state).progbuf,
        ..m
    };
    lemma_register_write_steps(loaded.run, log, to, m2, S0, saved0.value);
    let m3 = Module { pending: None, data0: saved0.value, x: m2.x.update(8, saved0.value), ..m2 };
    let end = read_through_program_buffer(m, run.state);
    if read.run.at <= to && m.after_all(log, run.at, to) is Some {
        assert(m3.x =~= m.x);
        assert(m3 == end);
    }
    assert forall|word: u32| #[trigger] ready(read.run.state, end, word) by {
        assert(knowing(run.state, load).cache_holds(seq![word]) <==> word == load);
    }
}

/// A read of a CSR through the program buffer that went well has brought
/// back what the CSR holds in the module, and has left the registers of the
/// hart, its CSRs and the memory as they were. The interface and the
/// module agree on the program buffer afterwards.
pub proof fn lemma_read_csr(run: Run, log: Seq<Event>, to: int, m: Module, csr: u16)
    requires
        run.live(),
        csr < 4096,
        ready(run.state, m, crate::assembly::spec_csrr(8, csr)),
        run.read_csr_progbuf(log, csr).run.live(),
    ensures
        run.read_csr_progbuf(log, csr).run.at >= run.at,
        run.read_csr_progbuf(log, csr).run.state == knowing(
            run.state,
            crate::assembly::spec_csrr(8, csr),
        ),
        went_along(
            run,
            run.read_csr_progbuf(log, csr).run,
            log,
            to,
            m,
            Module {
                pending: None,
                data0: m.x[8],
                progbuf: set_up(m, crate::assembly::spec_csrr(8, csr), run.state).progbuf,
                ..m
            },
        ),
        run.read_csr_progbuf(log, csr).run.at <= to && m.after_all(log, run.at, to) is Some
            ==> run.read_csr_progbuf(log, csr).value == m.csrs[csr],
        forall|word: u32| #[trigger]
            ready(
                run.read_csr_progbuf(log, csr).run.state,
                Module {
                    pending: None,
                    data0: m.x[8],
                    progbuf: set_up(m, crate::assembly::spec_csrr(8, csr), run.state).progbuf,
                    ..m
                },
                word,
            ),
{
    broadcast use crate::program_buffer::group_program_buffer;
    reveal(Run::read_csr_progbuf);
    let word = crate::assembly::spec_csrr(8, csr);
    let command = AccessRegisterCommand::spec_postexec_only();
    AccessRegisterCommand::lemma_postexec_only_fields();
    lemma_csr_instructions(csr, 8);
    let read = run.read_csr_progbuf(log, csr);
    let saved = run.abstract_cmd_register_read(log, S0);
    let r1 = saved.run.setup_program_buffer(log, seq![word]);
    let r2 = r1.execute_abstract_command(log, command);
    let value = r2.abstract_cmd_register_read(log, S0);
    let back = value.run.abstract_cmd_register_write(log, S0, saved.value);
    assert(read.run == back);
    assert(read.value == value.value);
    lemma_register_read_steps(run, log, to, m, S0);
    let m1 = Module { pending: Some(m.x[8]), data0: m.x[8], ..m };
    lemma_setup_instruction_steps(saved.run, log, to, m1, word);
    lemma_set_up(m1, m, word, run.state);
    let m2 = set_up(m1, word, run.state);
    lemma_execute_abstract_command_steps(r1, log, to, m2, command);
    lemma_single_instruction_runs(m2, word);
    let m3 = forgetful(Module { x: m2.x.update(8, m.csrs[csr]), ..m2 });
    assert(forgetful(m2.command(command)) == m3);
    lemma_register_read_steps(r2, log, to, m3, S0);
    let m4 = Module { pending: Some(m.csrs[csr]), data0: m.csrs[csr], ..m3 };
    lemma_register_write_steps(value.run, log, to, m4, S0, saved.value);
    let m5 = Module { pending: None, data0: saved.value, x: m4.x.update(8, saved.value), ..m4 };
    let end = Module {
        pending: None,
        data0: m.x[8],
        progbuf: set_up(m, word, run.state).progbuf,
        ..m
    };
    if read.run.at <= to && m.after_all(log, run.at, to) is Some {
        assert(m5.x =~= m.x);
        assert(m5 == end);
    }
    assert forall|any: u32| #[trigger] ready(read.run.state, end, any) by {
        assert(knowing(run.state, word).cache_holds(seq![any]) <==> any == word);
    }
}

/// A write of a CSR through the program buffer that went well has put the
/// value in the CSR of the module, and has left the registers of the hart,
/// its other CSRs and the memory as they were. The interface and the
/// module agree on the program buffer afterwards.
pub proof fn lemma_write_csr(run: Run, log: Seq<Event>, to: int, m: Module, csr: u16, value: u32)
    requires
        run.live(),
        csr < 4096,
        ready(run.state, m, crate::assembly::spec_csrw(csr, 8)),
        run.write_csr_progbuf(log, csr, value).live(),
    ensures
        run.write_csr_progbuf(log, csr, value).at >= run.at,
        run.write_csr_progbuf(log, csr, value).state == knowing(
            run.state,
            crate::assembly::spec_csrw(csr, 8),
        ),
        went_along(
            run,
            run.write_csr_progbuf(log, csr, value),
            log,
            to,
            m,
            Module {
                pending: None,
                data0: m.x[8],
                csrs: m.csrs.insert(csr, value),
                progbuf: set_up(m, crate::assembly::spec_csrw(csr, 8), run.state).progbuf,
                ..m
            },
        ),
        forall|word: u32| #[trigger]
            ready(
                run.write_csr_progbuf(log, csr, value).state,
                Module {
                    pending: None,
                    data0: m.x[8],
                    csrs: m.csrs.insert(csr, value),
                    progbuf: set_up(m, crate::assembly::spec_csrw(csr, 8), run.state).progbuf,
                    ..m
                },
                word,
            ),
{
    broadcast use crate::program_buffer::group_program_buffer;
    reveal(Run::write_csr_progbuf);
    let word = crate::assembly::spec_csrw(csr, 8);
    let command = AccessRegisterCommand::spec_postexec_only();
    AccessRegisterCommand::lemma_postexec_only_fields();
    lemma_csr_instructions(csr, 8);
    let written = run.write_csr_progbuf(log, csr, value);
    let saved = run.abstract_cmd_register_read(log, S0);
    let r1 = saved.run.abstract_cmd_register_write(log, S0, value);
    let r2 = r1.setup_program_buffer(log, seq![word]);
    let r3 = r2.execute_abstract_command(log, command);
    let back = r3.abstract_cmd_register_write(log, S0, saved.value);
    assert(written == back);
    lemma_register_read_steps(run, log, to, m, S0);
    let m1 = Module { pending: Some(m.x[8]), data0: m.x[8], ..m };
    lemma_register_write_steps(saved.run, log, to, m1, S0, value);
    let m2 = Module { pending: None, data0: value, x: m.x.update(8, value), ..m };
    lemma_setup_instruction_steps(r1, log, to, m2, word);
    lemma_set_up(m2, m, word, run.state);
    let m3 = set_up(m2, word, run.state);
    lemma_execute_abstract_command_steps(r2, log, to, m3, command);
    lemma_single_instruction_runs(m3, word);
    let m4 = forgetful(Module { csrs: m3.csrs.insert(csr, value), ..m3 });
    assert(forgetful(m3.command(command)) == m4);
    lemma_register_write_steps(r3, log, to, m4, S0, saved.value);
    let m5 = Module { pending: None, data0: saved.value, x: m4.x.update(8, saved.value), ..m4 };
    let end = Module {
        pending: None,
        data0: m.x[8],
        csrs: m.csrs.insert(csr, value),
        progbuf: set_up(m, word, run.state).progbuf,
        ..m
    };
    if written.at <= to && m.after_all(log, run.at, to) is Some {
        assert(m5.x =~= m.x);
        assert(m5 == end);
    }
    assert forall|any: u32| #[trigger] ready(written.state, end, any) by {
        assert(knowing(run.state, word).cache_holds(seq![any]) <==> any == word);
    }
}

/// The module after one round of the program that stores words one after
/// another: the value has gone to `s1` and from there to the memory at the
/// address in `s0`, and `s0` has moved on by a word.
pub open spec fn stored_one(m: Module, value: u32) -> Module {
    Module {
        data0: value,
        x: m.x.update(9, value).update(8, (m.x[8] + 4) as u32),
        memory: m.memory.insert(m.x[8], value),
        ..m
    }
}

/// The module after a round for each of the words of `data` from `from` on.
pub open spec fn stored_many(m: Module, data: Seq<u32>, from: int) -> Module
    decreases data.len() - from,
{
    if from < 0 || from >= data.len() {
        m
    } else {
        stored_many(stored_one(m, data[from]), data, from + 1)
    }
}

/// What the rounds that store words leave behind: each word is in the memory
/// at its address, the rest of the memory is as it was, and so is all of the
/// module but `data0`, `s0` and `s1`.
pub proof fn lemma_stored_many(m: Module, address: u32, data: Seq<u32>, from: int)
    requires
        m.wf(),
        0 <= from <= data.len(),
        address + 4 * data.len() <= 0x1_0000_0000,
        m.x[8] == word_at(address, from),
    ensures
        forall|i: int|
            from <= i < data.len() ==> stored_many(m, data, from).memory[#[trigger] word_at(
                address,
                i,
            )] == data[i],
        forall|a: u32|
            (forall|i: int| from <= i < data.len() ==> a != word_at(address, i)) ==> stored_many(
                m,
                data,
                from,
            ).memory[a] == #[trigger] m.memory[a],
        stored_many(m, data, from).x.len() == 32,
        forall|r: int|
            0 <= r < 32 && r != 8 && r != 9 ==> #[trigger] stored_many(m, data, from).x[r]
                == m.x[r],
        stored_many(m, data, from) == (Module {
            data0: stored_many(m, data, from).data0,
            x: stored_many(m, data, from).x,
            memory: stored_many(m, data, from).memory,
            ..m
        }),
    decreases data.len() - from,
{
    if from < data.len() {
        let next = stored_one(m, data[from]);
        lemma_stored_many(next, address, data, from + 1);
        assert(word_at(address, from) == address + 4 * from);
        assert forall|i: int| from <= i < data.len() implies stored_many(
            m,
            data,
            from,
        ).memory[#[trigger] word_at(address, i)] == data[i] by {
            if i == from {
                let here = word_at(address, from);
                assert forall|j: int| from + 1 <= j < data.len() implies here != word_at(
                    address,
                    j,
                ) by {}
                assert(next.memory[here] == data[from]);
            }
        }
        assert forall|a: u32|
            (forall|i: int| from <= i < data.len() ==> a != word_at(address, i)) implies stored_many(
            m,
            data,
            from,
        ).memory[a] == #[trigger] m.memory[a] by {
            assert(a != word_at(address, from));
            assert forall|i: int| from + 1 <= i < data.len() implies a != word_at(address, i) by {}
            assert(next.memory[a] == m.memory[a]);
        }
    }
}

/// The words that were written with one run of the program each moved on
/// in the record and left the state of the interface as it was, and the
/// module has stored them.
pub proof fn lemma_write_words_steps(
    run: Run,
    log: Seq<Event>,
    to: int,
    m: Module,
    data: Seq<u32>,
    from: int,
)
    requires
        run.live(),
        m.wf(),
        holds_pair(m, crate::assembly::spec_sw(0, 8, 2, 9), crate::assembly::spec_addi(8, 8, 4)),
        0 <= from <= data.len(),
        run.write_words(log, data, from).live(),
    ensures
        run.write_words(log, data, from).at >= run.at,
        run.write_words(log, data, from).state == run.state,
        went_along(run, run.write_words(log, data, from), log, to, m, stored_many(m, data, from)),
    decreases data.len() - from,
{
    broadcast use crate::memory_progbuf::group_memory_progbuf;
    if from < data.len() {
        let store = crate::assembly::spec_sw(0, 8, 2, 9);
        let move_on = crate::assembly::spec_addi(8, 8, 4);
        let command = AccessRegisterCommand::spec_transfer(S1, RiscvBusAccess::A32, true, true);
        AccessRegisterCommand::lemma_transfer_fields(S1, RiscvBusAccess::A32, true, true);
        lemma_instructions(8, 9);
        lemma_move_on();
        let value = data[from];
        let r1 = run.write_register(log, DATA0 as u64, value);
        let r2 = r1.write_register(log, COMMAND as u64, command);
        assert(run.write_words(log, data, from) == r2.write_words(log, data, from + 1));
        lemma_leaf_steps(run, log, to, m, DATA0 as u64, value);
        let m1 = Module { data0: value, ..m };
        lemma_leaf_steps(r1, log, to, m1, COMMAND as u64, command);
        let moved = Module { x: m1.x.update(9, value), ..m1 };
        lemma_pair_runs(moved, store, move_on);
        assert(m1.command(command) == stored_one(m, value));
        lemma_write_words_steps(r2, log, to, stored_one(m, value), data, from + 1);
    }
}

/// The module after words were written through the program buffer, one
/// after another: the words are in its memory, the program is in its
/// program buffer, and its registers are as they were.
pub open spec fn written_many_through_program_buffer(
    m: Module,
    state: Model,
    address: u32,
    data: Seq<u32>,
) -> Module {
    Module {
        pending: None,
        data0: m.x[9],
        x: m.x,
        ..stored_many(
            Module {
                pending: None,
                data0: address,
                x: m.x.update(8, address),
                progbuf: set_up_pair(
                    m,
                    crate::assembly::spec_sw(0, 8, 2, 9),
                    crate::assembly::spec_addi(8, 8, 4),
                    state,
                ).progbuf,
                ..m
            },
            data,
            0,
        )
    }
}

/// A write of words through the program buffer that went well has put each
/// word in the memory of the module at its address, and has left the rest
/// of the memory and the registers of the hart as they were.
pub proof fn lemma_write_many_through_program_buffer(
    run: Run,
    log: Seq<Event>,
    to: int,
    m: Module,
    address: u32,
    data: Seq<u32>,
)
    requires
        run.live(),
        ready_pair(
            run.state,
            m,
            crate::assembly::spec_sw(0, 8, 2, 9),
            crate::assembly::spec_addi(8, 8, 4),
        ),
        address + 4 * data.len() <= 0x1_0000_0000,
        run.write_multiple_progbuf::<u32>(log, address, data).live(),
    ensures
        run.write_multiple_progbuf::<u32>(log, address, data).at >= run.at,
        run.write_multiple_progbuf::<u32>(log, address, data).state == knowing_pair(
            run.state,
            crate::assembly::spec_sw(0, 8, 2, 9),
            crate::assembly::spec_addi(8, 8, 4),
        ),
        2 + (if run.state.implicit_ebreak {
            0int
        } else {
            1int
        }) <= run.state.progbuf_size,
        went_along(
            run,
            run.write_multiple_progbuf::<u32>(log, address, data),
            log,
            to,
            m,
            written_many_through_program_buffer(m, run.state, address, data),
        ),
        written_many_through_program_buffer(m, run.state, address, data).x == m.x,
        written_many_through_program_buffer(m, run.state, address, data).size == m.size,
        written_many_through_program_buffer(m, run.state, address, data).progbuf.len() == 16,
        forall|word: u32| #[trigger]
            ready(
                run.write_multiple_progbuf::<u32>(log, address, data).state,
                written_many_through_program_buffer(m, run.state, address, data),
                word,
            ),
        forall|i: int|
            0 <= i < data.len() ==> written_many_through_program_buffer(
                m,
                run.state,
                address,
                data,
            ).memory[#[trigger] word_at(address, i)] == data[i],
        forall|a: u32|
            (forall|i: int| 0 <= i < data.len() ==> a != word_at(address, i))
                ==> written_many_through_program_buffer(m, run.state, address, data).memory[a]
                == #[trigger] m.memory[a],
{
    broadcast use crate::memory_progbuf::group_memory_progbuf;
    reveal(Run::write_multiple_progbuf);
    reveal(Run::restore_s0_s1);
    reveal(Run::store_words);
    let store = crate::assembly::spec_sw(0, 8, 2, 9);
    let move_on = crate::assembly::spec_addi(8, 8, 4);
    let written = run.write_multiple_progbuf::<u32>(log, address, data);
    let saved0 = run.abstract_cmd_register_read(log, S0);
    let saved1 = saved0.run.abstract_cmd_register_read(log, S1);
    let r1 = saved1.run.setup_program_buffer(log, seq![store, move_on]);
    let r2 = r1.abstract_cmd_register_write(log, S0, address);
    let r3 = r2.write_words(log, data, 0);
    let status = r3.read_register(log, ABSTRACTCS as u64);
    let stored = saved1.run.store_words(log, address, data);
    assert(stored == status.run.check_cmderr_as_probe(status.value));
    let back0 = stored.abstract_cmd_register_write(log, S0, saved0.value);
    let back1 = back0.abstract_cmd_register_write(log, S1, saved1.value);
    assert(written == back1);
    lemma_register_read_steps(run, log, to, m, S0);
    let m1 = Module { pending: Some(m.x[8]), data0: m.x[8], ..m };
    lemma_register_read_steps(saved0.run, log, to, m1, S1);
    let m2 = Module { pending: Some(m.x[9]), data0: m.x[9], ..m };
    lemma_setup_pair_steps(saved1.run, log, to, m2, store, move_on);
    lemma_set_up_pair(m2, m, store, move_on, run.state);
    let m3 = set_up_pair(m2, store, move_on, run.state);
    lemma_register_write_steps(r1, log, to, m3, S0, address);
    let m4 = Module { pending: None, data0: address, x: m3.x.update(8, address), ..m3 };
    lemma_write_words_steps(r2, log, to, m4, data, 0);
    let m5 = stored_many(m4, data, 0);
    assert(word_at(address, 0) == address);
    lemma_stored_many(m4, address, data, 0);
    lemma_leaf_steps(r3, log, to, m5, ABSTRACTCS as u64, 0);
    let m6 = forgetful(m5);
    lemma_register_write_steps(stored, log, to, m6, S0, saved0.value);
    let m7 = Module { pending: None, data0: saved0.value, x: m6.x.update(8, saved0.value), ..m6 };
    lemma_register_write_steps(back0, log, to, m7, S1, saved1.value);
    let m8 = Module { pending: None, data0: saved1.value, x: m7.x.update(9, saved1.value), ..m7 };
    let end = written_many_through_program_buffer(m, run.state, address, data);
    assert(m4 == Module {
        pending: None,
        data0: address,
        x: m.x.update(8, address),
        progbuf: set_up_pair(m, store, move_on, run.state).progbuf,
        ..m
    });
    if written.at <= to && m.after_all(log, run.at, to) is Some {
        assert(m8.x =~= m.x);
        assert(m8 == end);
    }
    assert forall|word: u32| #[trigger] ready(written.state, end, word) by {
        let known = written.state;
        assert(known.progbuf_cache.len() == 16);
        if run.state.cache_holds(seq![store, move_on]) {
            assert(run.state.progbuf_cache.subrange(0, 2)[0] == seq![store, move_on][0]);
        }
        assert(known.progbuf_cache[0] == store);
        if known.cache_holds(seq![word]) {
            assert(known.progbuf_cache.subrange(0, 1)[0] == seq![word][0]);
        }
        assert(holds_pair(end, store, move_on));
    }
}

/// The module after one round of the program that loads words one after
/// another, run by the command that takes the word before: the word that
/// `s1` held is in `data0`, the word at the address in `s0` is in `s1`, and
/// `s0` has moved on by a word.
pub open spec fn loaded_one(m: Module) -> Module {
    Module {
        pending: Some(m.x[9]),
        data0: m.x[9],
        x: m.x.update(9, m.memory[m.x[8]]).update(8, (m.x[8] + 4) as u32),
        ..m
    }
}

/// The module after a round for each word from the index `from` on but the
/// last of `count` words.
pub open spec fn loaded_many(m: Module, count: int, from: int) -> Module
    decreases count - from,
{
    if from < 0 || from >= count - 1 {
        m
    } else {
        loaded_many(loaded_one(m), count, from + 1)
    }
}

/// What the rounds that load words leave behind: `s1` holds the last word
/// and `s0` the address behind it, and all of the module is as it was but
/// `data0`, `s0`, `s1` and what the next access brings back.
pub proof fn lemma_loaded_many(m: Module, address: u32, count: int, from: int)
    requires
        m.wf(),
        0 <= from < count,
        address + 4 * count <= 0x1_0000_0000,
        m.x[8] == word_at(address, from + 1),
        m.x[9] == m.memory[word_at(address, from)],
    ensures
        loaded_many(m, count, from).x.len() == 32,
        loaded_many(m, count, from).x[9] == m.memory[word_at(address, count - 1)],
        forall|r: int|
            0 <= r < 32 && r != 8 && r != 9 ==> #[trigger] loaded_many(m, count, from).x[r]
                == m.x[r],
        loaded_many(m, count, from) == (Module {
            pending: loaded_many(m, count, from).pending,
            data0: loaded_many(m, count, from).data0,
            x: loaded_many(m, count, from).x,
            ..m
        }),
    decreases count - from,
{
    if from < count - 1 {
        assert(word_at(address, from + 1) == address + 4 * (from + 1));
        lemma_loaded_many(loaded_one(m), address, count, from + 1);
    }
}

/// The words that were read with one run of the program each moved on in
/// the record and left the state of the interface as it was, and each is
/// the word that the memory of the module holds at its address.
pub proof fn lemma_read_words_steps(
    run: Run,
    log: Seq<Event>,
    to: int,
    m: Module,
    address: u32,
    data: Seq<u32>,
    from: int,
)
    requires
        run.live(),
        m.wf(),
        holds_pair(m, crate::assembly::spec_lw(0, 8, 2, 9), crate::assembly::spec_addi(8, 8, 4)),
        0 <= from < data.len(),
        address + 4 * data.len() <= 0x1_0000_0000,
        m.x[8] == word_at(address, from + 1),
        m.x[9] == m.memory[word_at(address, from)],
        run.read_words(log, data, from).run.live(),
    ensures
        run.read_words(log, data, from).run.at >= run.at,
        run.read_words(log, data, from).run.state == run.state,
        went_along(
            run,
            run.read_words(log, data, from).run,
            log,
            to,
            m,
            loaded_many(m, data.len() as int, from),
        ),
        run.read_words(log, data, from).value.len() == data.len(),
        run.read_words(log, data, from).run.at <= to && m.after_all(log, run.at, to) is Some
            ==> (forall|i: int|
            0 <= i < data.len() ==> #[trigger] run.read_words(log, data, from).value[i] == if from
                <= i < data.len() - 1 {
                m.memory[word_at(address, i)]
            } else {
                data[i]
            }),
    decreases data.len() - from,
{
    broadcast use crate::memory_progbuf::group_memory_progbuf;
    if from < data.len() - 1 {
        let load = crate::assembly::spec_lw(0, 8, 2, 9);
        let move_on = crate::assembly::spec_addi(8, 8, 4);
        let command = AccessRegisterCommand::spec_transfer(S1, RiscvBusAccess::A32, false, true);
        AccessRegisterCommand::lemma_transfer_fields(S1, RiscvBusAccess::A32, false, true);
        lemma_instructions(8, 9);
        lemma_move_on();
        let r1 = run.write_register(log, COMMAND as u64, command);
        let word = r1.read_register(log, DATA0 as u64);
        let filled = data.update(from, word.value);
        assert(run.read_words(log, data, from) == word.run.read_words(log, filled, from + 1));
        lemma_leaf_steps(run, log, to, m, COMMAND as u64, command);
        let moved = Module { data0: m.x[9], ..m };
        lemma_pair_runs(moved, load, move_on);
        let m1 = Module {
            x: m.x.update(9, m.memory[m.x[8]]).update(8, (m.x[8] + 4) as u32),
            ..moved
        };
        assert(m.command(command) == m1);
        lemma_leaf_steps(r1, log, to, m1, DATA0 as u64, 0);
        let m2 = Module { pending: Some(m.x[9]), ..m1 };
        assert(m2 == loaded_one(m));
        assert(word_at(address, from + 1) == address + 4 * (from + 1));
        lemma_read_words_steps(word.run, log, to, m2, address, filled, from + 1);
    }
}

/// The module after words were read through the program buffer, one after
/// another: the program is in its program buffer, and its registers and its
/// memory are as they were.
pub open spec fn read_many_through_program_buffer(m: Module, state: Model) -> Module {
    Module {
        pending: None,
        data0: m.x[9],
        progbuf: set_up_pair(
            m,
            crate::assembly::spec_lw(0, 8, 2, 9),
            crate::assembly::spec_addi(8, 8, 4),
            state,
        ).progbuf,
        ..m
    }
}

/// A read of words through the program buffer that went well has brought
/// back, for each word, what the memory of the module holds at its
/// address, and has left the memory and the registers of the hart as they
/// were.
pub proof fn lemma_read_many_through_program_buffer(
    run: Run,
    log: Seq<Event>,
    to: int,
    m: Module,
    address: u32,
    data: Seq<u32>,
)
    requires
        run.live(),
        data.len() > 0,
        ready_pair(
            run.state,
            m,
            crate::assembly::spec_lw(0, 8, 2, 9),
            crate::assembly::spec_addi(8, 8, 4),
        ),
        address + 4 * data.len() <= 0x1_0000_0000,
        run.read_multiple_progbuf::<u32>(log, address, data).run.live(),
    ensures
        run.read_multiple_progbuf::<u32>(log, address, data).run.at >= run.at,
        went_along(
            run,
            run.read_multiple_progbuf::<u32>(log, address, data).run,
            log,
            to,
            m,
            read_many_through_program_buffer(m, run.state),
        ),
        run.read_multiple_progbuf::<u32>(log, address, data).value.len() == data.len(),
        run.read_multiple_progbuf::<u32>(log, address, data).run.state == knowing_pair(
            run.state,
            crate::assembly::spec_lw(0, 8, 2, 9),
            crate::assembly::spec_addi(8, 8, 4),
        ),
        forall|word: u32|
            word != crate::assembly::spec_lw(0, 8, 2, 9) ==> #[trigger] ready(
                run.read_multiple_progbuf::<u32>(log, address, data).run.state,
                read_many_through_program_buffer(m, run.state),
                word,
            ),
        run.read_multiple_progbuf::<u32>(log, address, data).run.at <= to && m.after_all(
            log,
            run.at,
            to,
        ) is Some ==> (forall|i: int|
            0 <= i < data.len() ==> #[trigger] run.read_multiple_progbuf::<u32>(
                log,
                address,
                data,
            ).value[i] == m.memory[word_at(address, i)]),
{
    broadcast use crate::memory_progbuf::group_memory_progbuf;
    reveal(Run::read_multiple_progbuf);
    reveal(Run::restore_s0_s1);
    reveal(Run::load_words);
    let load = crate::assembly::spec_lw(0, 8, 2, 9);
    let move_on = crate::assembly::spec_addi(8, 8, 4);
    let seed = AccessRegisterCommand::spec_transfer(S0, RiscvBusAccess::A32, true, true);
    AccessRegisterCommand::lemma_transfer_fields(S0, RiscvBusAccess::A32, true, true);
    lemma_instructions(8, 9);
    lemma_move_on();
    let read = run.read_multiple_progbuf::<u32>(log, address, data);
    let saved0 = run.abstract_cmd_register_read(log, S0);
    let saved1 = saved0.run.abstract_cmd_register_read(log, S1);
    let r1 = saved1.run.setup_program_buffer(log, seq![load, move_on]);
    let r2 = r1.write_register(log, DATA0 as u64, address);
    let r3 = r2.write_register(log, COMMAND as u64, seed);
    let words = r3.read_words::<u32>(log, data, 0);
    let last = words.run.abstract_cmd_register_read(log, S1);
    let status = last.run.read_register(log, ABSTRACTCS as u64);
    let work = saved1.run.load_words::<u32>(log, address, data);
    assert(work.run == status.run.check_cmderr(status.value));
    let back0 = work.run.abstract_cmd_register_write(log, S0, saved0.value);
    let back1 = back0.abstract_cmd_register_write(log, S1, saved1.value);
    assert(read.run == back1);
    assert(read.value == words.value.update(data.len() - 1, last.value));
    lemma_register_read_steps(run, log, to, m, S0);
    let m1 = Module { pending: Some(m.x[8]), data0: m.x[8], ..m };
    lemma_register_read_steps(saved0.run, log, to, m1, S1);
    let m2 = Module { pending: Some(m.x[9]), data0: m.x[9], ..m };
    lemma_setup_pair_steps(saved1.run, log, to, m2, load, move_on);
    lemma_set_up_pair(m2, m, load, move_on, run.state);
    let m3 = set_up_pair(m2, load, move_on, run.state);
    lemma_leaf_steps(r1, log, to, m3, DATA0 as u64, address);
    let m4 = Module { data0: address, ..m3 };
    lemma_leaf_steps(r2, log, to, m4, COMMAND as u64, seed);
    let moved = Module { x: m4.x.update(8, address), ..m4 };
    lemma_pair_runs(moved, load, move_on);
    let m5 = Module {
        x: moved.x.update(9, m.memory[address]).update(8, (address + 4) as u32),
        ..moved
    };
    assert(m4.command(seed) == m5);
    assert(word_at(address, 0) == address);
    assert(word_at(address, 1) == (address + 4) as u32);
    lemma_read_words_steps(r3, log, to, m5, address, data, 0);
    lemma_loaded_many(m5, address, data.len() as int, 0);
    let m6 = loaded_many(m5, data.len() as int, 0);
    lemma_register_read_steps(words.run, log, to, m6, S1);
    let m7 = Module { pending: Some(m6.x[9]), data0: m6.x[9], ..m6 };
    lemma_leaf_steps(last.run, log, to, m7, ABSTRACTCS as u64, 0);
    let m8 = forgetful(m7);
    lemma_register_write_steps(work.run, log, to, m8, S0, saved0.value);
    let m9 = Module { pending: None, data0: saved0.value, x: m8.x.update(8, saved0.value), ..m8 };
    lemma_register_write_steps(back0, log, to, m9, S1, saved1.value);
    let m10 = Module { pending: None, data0: saved1.value, x: m9.x.update(9, saved1.value), ..m9 };
    let end = read_many_through_program_buffer(m, run.state);
    if read.run.at <= to && m.after_all(log, run.at, to) is Some {
        assert(m10.x =~= m.x);
        assert(m10 == end);
        assert forall|i: int| 0 <= i < data.len() implies #[trigger] read.value[i]
            == m.memory[word_at(address, i)] by {
            assert(words.value[i] == if 0 <= i < data.len() - 1 {
                m5.memory[word_at(address, i)]
            } else {
                data[i]
            });
        }
    }
    assert forall|word: u32| word != load implies #[trigger] ready(read.run.state, end, word) by {
        let known = read.run.state;
        assert(known.progbuf_cache.len() == 16);
        if run.state.cache_holds(seq![load, move_on]) {
            assert(run.state.progbuf_cache.subrange(0, 2)[0] == seq![load, move_on][0]);
        }
        assert(known.progbuf_cache[0] == load);
        if known.cache_holds(seq![word]) {
            assert(known.progbuf_cache.subrange(0, 1)[0] == seq![word][0]);
        }
    }
}

} // verus!
