//! What the accesses to memory achieve by whichever method the interface has
//! for them: what is written is what is read.

use crate::dtm::Event;
use crate::error::RiscvBusAccess;
use crate::model::Module;
use crate::run::Run;
use crate::state::{MemoryAccessMethod, Model};
use crate::model::word_at;
use crate::model::program_buffer::{
    lemma_read_many_through_program_buffer, lemma_read_through_program_buffer,
    lemma_write_many_through_program_buffer, lemma_write_through_program_buffer,
    read_many_through_program_buffer, read_through_program_buffer,
    written_many_through_program_buffer, written_through_program_buffer,
};
use crate::model::programs::{knowing_pair, lemma_instructions, ready, ready_pair};
use crate::model::steps::went_along;
use crate::model::system_bus::{
    lemma_read_many_through_system_bus, lemma_read_through_system_bus,
    lemma_write_many_through_system_bus, lemma_write_through_system_bus,
    read_many_through_system_bus, read_through_system_bus, written_many_through_system_bus,
    written_through_system_bus,
};
use vstd::prelude::*;

verus! {

/// The module after a word was written to its memory, by the method that
/// the interface has for 32-bit accesses.
pub open spec fn after_write(m: Module, state: Model, address: u32, value: u32) -> Module {
    if state.method_for(RiscvBusAccess::A32) == MemoryAccessMethod::SystemBus {
        written_through_system_bus(m, address, value)
    } else {
        written_through_program_buffer(m, state, address, value)
    }
}

/// The module after a word was read from its memory, by the method that the
/// interface has for 32-bit accesses.
pub open spec fn after_read(m: Module, state: Model, address: u32) -> Module {
    if state.method_for(RiscvBusAccess::A32) == MemoryAccessMethod::SystemBus {
        read_through_system_bus(m, address)
    } else {
        read_through_program_buffer(m, state)
    }
}

/// The interface can access 32-bit words of the memory of the module: it
/// has a method for them that is implemented, and where the method is the
/// program buffer, it agrees with the module on the program buffer as far
/// as it takes the buffer to start with `word`.
pub open spec fn can_access(state: Model, m: Module, word: u32) -> bool {
    &&& state.method_for(RiscvBusAccess::A32) != MemoryAccessMethod::AbstractCommand
    &&& state.method_for(RiscvBusAccess::A32) == MemoryAccessMethod::ProgramBuffer ==> ready(
        state,
        m,
        word,
    )
}

/// A write of a 32-bit word that went well has put the word in the memory
/// of the module at the address, and has left the registers of the hart and
/// the rest of the memory as they were. The interface can access the
/// memory afterwards, whatever the program buffer is used for next.
pub proof fn lemma_write_word(
    run: Run,
    log: Seq<Event>,
    to: int,
    m: Module,
    address: u32,
    value: u32,
)
    requires
        run.live(),
        can_access(run.state, m, crate::assembly::spec_sw(0, 8, 2, 9)),
        run.write_word::<u32>(log, address, value).live(),
    ensures
        run.write_word::<u32>(log, address, value).at >= run.at,
        went_along(
            run,
            run.write_word::<u32>(log, address, value),
            log,
            to,
            m,
            after_write(m, run.state, address, value),
        ),
        after_write(m, run.state, address, value).memory == m.memory.insert(address, value),
        after_write(m, run.state, address, value).x == m.x,
        forall|word: u32|
            can_access(run.state, m, word) || run.state.method_for(RiscvBusAccess::A32)
                == MemoryAccessMethod::ProgramBuffer ==> #[trigger] can_access(
                run.write_word::<u32>(log, address, value).state,
                after_write(m, run.state, address, value),
                word,
            ),
{
    broadcast use crate::memory::group_memory;
    reveal(Run::write_word);
    let asked = run.method_asked::<u32>();
    let store = crate::assembly::spec_sw(0, 8, 2, 9);
    if run.state.method_for(RiscvBusAccess::A32) == MemoryAccessMethod::SystemBus {
        lemma_write_through_system_bus(asked, log, to, m, address, value);
    } else {
        lemma_write_through_program_buffer(asked, log, to, m, address, value);
        assert(asked.state.cache_holds(seq![store]) == run.state.cache_holds(seq![store]));
        assert forall|word: u32| #[trigger]
            can_access(
                run.write_word::<u32>(log, address, value).state,
                after_write(m, run.state, address, value),
                word,
            ) by {
            assert(ready(
                run.write_word::<u32>(log, address, value).state,
                written_through_program_buffer(m, asked.state, address, value),
                word,
            ));
        }
    }
}

/// A read of a 32-bit word that went well has brought back the word that
/// the memory of the module holds at the address, and has left the registers
/// of the hart and the memory as they were. The interface can access the
/// memory afterwards, whatever the program buffer is used for next.
pub proof fn lemma_read_word(run: Run, log: Seq<Event>, to: int, m: Module, address: u32)
    requires
        run.live(),
        can_access(run.state, m, crate::assembly::spec_lw(0, 8, 2, 8)),
        run.read_word::<u32>(log, address).run.live(),
    ensures
        run.read_word::<u32>(log, address).run.at >= run.at,
        went_along(
            run,
            run.read_word::<u32>(log, address).run,
            log,
            to,
            m,
            after_read(m, run.state, address),
        ),
        run.read_word::<u32>(log, address).run.at <= to && m.after_all(log, run.at, to) is Some
            ==> run.read_word::<u32>(log, address).value == m.memory[address],
        after_read(m, run.state, address).memory == m.memory,
        after_read(m, run.state, address).x == m.x,
        forall|word: u32|
            can_access(run.state, m, word) || run.state.method_for(RiscvBusAccess::A32)
                == MemoryAccessMethod::ProgramBuffer ==> #[trigger] can_access(
                run.read_word::<u32>(log, address).run.state,
                after_read(m, run.state, address),
                word,
            ),
{
    broadcast use crate::memory::group_memory;
    reveal(Run::read_word);
    let asked = run.method_asked::<u32>();
    let load = crate::assembly::spec_lw(0, 8, 2, 8);
    if run.state.method_for(RiscvBusAccess::A32) == MemoryAccessMethod::SystemBus {
        lemma_read_through_system_bus(asked, log, to, m, address);
    } else {
        lemma_read_through_program_buffer(asked, log, to, m, address);
        assert(asked.state.cache_holds(seq![load]) == run.state.cache_holds(seq![load]));
        assert forall|word: u32| #[trigger]
            can_access(
                run.read_word::<u32>(log, address).run.state,
                after_read(m, run.state, address),
                word,
            ) by {
            assert(ready(
                run.read_word::<u32>(log, address).run.state,
                read_through_program_buffer(m, asked.state),
                word,
            ));
        }
    }
}

/// A 32-bit word that was written to memory is what a read of the same
/// place returns, by the system bus and by the program buffer, where the
/// debug module answers as one with a hart and plain memory does. The
/// registers of the hart are as they were before, and so is the memory but
/// for the word.
pub proof fn lemma_word_32_round_trip(
    run: Run,
    log: Seq<Event>,
    m: Module,
    address: u32,
    value: u32,
)
    requires
        run.live(),
        can_access(run.state, m, crate::assembly::spec_sw(0, 8, 2, 9)),
        run.write_word::<u32>(log, address, value).read_word::<u32>(log, address).run.live(),
        m.after_all(
            log,
            run.at,
            run.write_word::<u32>(log, address, value).read_word::<u32>(log, address).run.at,
        ) is Some,
    ensures
        run.write_word::<u32>(log, address, value).read_word::<u32>(log, address).value == value,
        ({
            let end = run.write_word::<u32>(log, address, value).read_word::<u32>(log, address).run;
            let after = m.after_all(log, run.at, end.at)->0;
            &&& after.x == m.x
            &&& after.memory == m.memory.insert(address, value)
        }),
{
    broadcast use crate::memory::group_memory;
    let written = run.write_word::<u32>(log, address, value);
    let read = written.read_word::<u32>(log, address);
    let to = read.run.at;
    lemma_write_word(run, log, to, m, address, value);
    let m1 = after_write(m, run.state, address, value);
    assert(can_access(written.state, m1, crate::assembly::spec_lw(0, 8, 2, 8))) by {
        lemma_instructions(8, 8);
        if run.state.method_for(RiscvBusAccess::A32) == MemoryAccessMethod::SystemBus {
            reveal(Run::write_word);
            lemma_write_through_system_bus(run.method_asked::<u32>(), log, to, m, address, value);
        }
    }
    lemma_read_word(written, log, to, m1, address);
    let m2 = after_read(m1, written.state, address);
    assert(m.after_all(log, run.at, to) == m2.after_all(log, to, to));
}

/// A 64-bit word that was written to memory is what a read of the same
/// place returns, by the system bus and by the program buffer, where the
/// debug module answers as one with a hart and plain memory does: its low
/// half is in the memory at the address and its high half four bytes on.
pub proof fn lemma_word_64_round_trip(
    run: Run,
    log: Seq<Event>,
    m: Module,
    address: u32,
    value: u64,
)
    requires
        run.live(),
        address + 4 <= 0xffff_ffff,
        can_access(run.state, m, crate::assembly::spec_sw(0, 8, 2, 9)),
        run.write_word_64(log, address, value).read_word_64(log, address).run.live(),
        m.after_all(
            log,
            run.at,
            run.write_word_64(log, address, value).read_word_64(log, address).run.at,
        ) is Some,
    ensures
        run.write_word_64(log, address, value).read_word_64(log, address).value == value,
        ({
            let end = run.write_word_64(log, address, value).read_word_64(log, address).run;
            let after = m.after_all(log, run.at, end.at)->0;
            &&& after.x == m.x
            &&& after.memory == m.memory.insert(address, value as u32).insert(
                (address + 4) as u32,
                (value >> 32u64) as u32,
            )
        }),
{
    broadcast use crate::memory::group_memory;
    reveal(Run::write_word_64);
    reveal(Run::read_word_64);
    let low = value as u32;
    let high = (value >> 32u64) as u32;
    let next = (address + 4) as u32;
    let w1 = run.write_word::<u32>(log, address, low);
    let w2 = w1.write_word::<u32>(log, next, high);
    let r1 = w2.read_word::<u32>(log, address);
    let r2 = r1.run.read_word::<u32>(log, next);
    let to = r2.run.at;
    let store = crate::assembly::spec_sw(0, 8, 2, 9);
    let load = crate::assembly::spec_lw(0, 8, 2, 8);
    lemma_instructions(8, 8);
    lemma_write_word(run, log, to, m, address, low);
    let m1 = after_write(m, run.state, address, low);
    assert(can_access(w1.state, m1, store));
    lemma_write_word(w1, log, to, m1, next, high);
    let m2 = after_write(m1, w1.state, next, high);
    assert(can_access(w2.state, m2, load)) by {
        if run.state.method_for(RiscvBusAccess::A32) == MemoryAccessMethod::SystemBus {
            reveal(Run::write_word);
            lemma_write_through_system_bus(run.method_asked::<u32>(), log, to, m, address, low);
            lemma_write_through_system_bus(w1.method_asked::<u32>(), log, to, m1, next, high);
        }
    }
    lemma_read_word(w2, log, to, m2, address);
    let m3 = after_read(m2, w2.state, address);
    assert(can_access(r1.run.state, m3, load));
    lemma_read_word(r1.run, log, to, m3, next);
    let m4 = after_read(m3, r1.run.state, next);
    assert(m.after_all(log, run.at, to) == m4.after_all(log, to, to));
    crate::laws::lemma_join_words(value);
}

/// The interface can access 32-bit words of the memory of the module
/// that follow each other, with the program that starts with `first`: it has
/// a method for them that is implemented, and where the method is the
/// program buffer, it agrees with the module on the program buffer as far
/// as it takes the buffer to start with the program.
pub open spec fn can_access_many(state: Model, m: Module, first: u32) -> bool {
    &&& state.method_for(RiscvBusAccess::A32) != MemoryAccessMethod::AbstractCommand
    &&& state.method_for(RiscvBusAccess::A32) == MemoryAccessMethod::ProgramBuffer ==> ready_pair(
        state,
        m,
        first,
        crate::assembly::spec_addi(8, 8, 4),
    )
}

/// The module after words were written to its memory, by the method that
/// the interface has for 32-bit accesses.
pub open spec fn after_write_many(m: Module, state: Model, address: u32, data: Seq<u32>) -> Module {
    if state.method_for(RiscvBusAccess::A32) == MemoryAccessMethod::SystemBus {
        written_many_through_system_bus(m, address, data)
    } else {
        written_many_through_program_buffer(m, state, address, data)
    }
}

/// The module after `count` words were read from its memory, by the method
/// that the interface has for 32-bit accesses.
pub open spec fn after_read_many(m: Module, state: Model, address: u32, count: int) -> Module {
    if state.method_for(RiscvBusAccess::A32) == MemoryAccessMethod::SystemBus {
        read_many_through_system_bus(m, address, count)
    } else {
        read_many_through_program_buffer(m, state)
    }
}

/// A write of 32-bit words that went well has put each word in the memory
/// of the module at its address, and has left the rest of the memory and
/// the registers of the hart as they were.
pub proof fn lemma_write_multiple(
    run: Run,
    log: Seq<Event>,
    to: int,
    m: Module,
    address: u32,
    data: Seq<u32>,
)
    requires
        run.live(),
        address + 4 * data.len() <= 0x1_0000_0000,
        can_access_many(run.state, m, crate::assembly::spec_sw(0, 8, 2, 9)),
        run.write_multiple::<u32>(log, address, data).live(),
    ensures
        run.write_multiple::<u32>(log, address, data).at >= run.at,
        run.write_multiple::<u32>(log, address, data).state == (if run.state.method_for(
            RiscvBusAccess::A32,
        ) == MemoryAccessMethod::SystemBus {
            run.state.with_method_asked(RiscvBusAccess::A32)
        } else {
            knowing_pair(
                run.state.with_method_asked(RiscvBusAccess::A32),
                crate::assembly::spec_sw(0, 8, 2, 9),
                crate::assembly::spec_addi(8, 8, 4),
            )
        }),
        went_along(
            run,
            run.write_multiple::<u32>(log, address, data),
            log,
            to,
            m,
            after_write_many(m, run.state, address, data),
        ),
        after_write_many(m, run.state, address, data).x == m.x,
        forall|i: int|
            0 <= i < data.len() ==> after_write_many(
                m,
                run.state,
                address,
                data,
            ).memory[#[trigger] word_at(address, i)] == data[i],
        forall|a: u32|
            (forall|i: int| 0 <= i < data.len() ==> a != word_at(address, i)) ==> after_write_many(
                m,
                run.state,
                address,
                data,
            ).memory[a] == #[trigger] m.memory[a],
        forall|first: u32|
            first != crate::assembly::spec_sw(0, 8, 2, 9) && m.wf() && run.state.wf() && m.size
                == run.state.progbuf_size ==> #[trigger] can_access_many(
                run.write_multiple::<u32>(log, address, data).state,
                after_write_many(m, run.state, address, data),
                first,
            ),        forall|word: u32|
            m.wf() && run.state.wf() && m.size == run.state.progbuf_size ==> #[trigger] can_access(
                run.write_multiple::<u32>(log, address, data).state,
                after_write_many(m, run.state, address, data),
                word,
            ),
{
    broadcast use crate::memory::group_memory;
    reveal(Run::write_multiple);
    let asked = run.method_asked::<u32>();
    let written = run.write_multiple::<u32>(log, address, data);
    let store = crate::assembly::spec_sw(0, 8, 2, 9);
    let move_on = crate::assembly::spec_addi(8, 8, 4);
    if run.state.method_for(RiscvBusAccess::A32) == MemoryAccessMethod::SystemBus {
        lemma_write_many_through_system_bus(asked, log, to, m, address, data);
    } else {
        assert(asked.state.cache_holds(seq![store, move_on]) == run.state.cache_holds(
            seq![store, move_on],
        ));
        lemma_write_many_through_program_buffer(asked, log, to, m, address, data);
        assert forall|first: u32|
            first != store && m.wf() && run.state.wf() && m.size
                == run.state.progbuf_size implies #[trigger] can_access_many(
            written.state,
            after_write_many(m, run.state, address, data),
            first,
        ) by {
            let known = written.state;
            assert(known.progbuf_cache.len() == 16);
            if asked.state.cache_holds(seq![store, move_on]) {
                assert(asked.state.progbuf_cache.subrange(0, 2)[0] == seq![store, move_on][0]);
            }
            assert(known.progbuf_cache[0] == store);
            if known.cache_holds(seq![first, move_on]) {
                assert(known.progbuf_cache.subrange(0, 2)[0] == seq![first, move_on][0]);
            }
        }
    }
}

/// A read of 32-bit words that went well has brought back, for each word,
/// what the memory of the module holds at its address, and has left the
/// memory and the registers of the hart as they were.
pub proof fn lemma_read_multiple(
    run: Run,
    log: Seq<Event>,
    to: int,
    m: Module,
    address: u32,
    data: Seq<u32>,
)
    requires
        run.live(),
        data.len() > 0,
        address + 4 * data.len() <= 0x1_0000_0000,
        can_access_many(run.state, m, crate::assembly::spec_lw(0, 8, 2, 9)),
        run.read_multiple::<u32>(log, address, data).run.live(),
    ensures
        run.read_multiple::<u32>(log, address, data).run.at >= run.at,
        went_along(
            run,
            run.read_multiple::<u32>(log, address, data).run,
            log,
            to,
            m,
            after_read_many(m, run.state, address, data.len() as int),
        ),
        after_read_many(m, run.state, address, data.len() as int).x == m.x,
        after_read_many(m, run.state, address, data.len() as int).memory == m.memory,
        forall|word: u32|
            word != crate::assembly::spec_lw(0, 8, 2, 9) && m.wf() && run.state.wf() && m.size
                == run.state.progbuf_size ==> #[trigger] can_access(
                run.read_multiple::<u32>(log, address, data).run.state,
                after_read_many(m, run.state, address, data.len() as int),
                word,
            ),
        run.read_multiple::<u32>(log, address, data).run.at <= to && m.after_all(log, run.at, to)
            is Some ==> {
            &&& run.read_multiple::<u32>(log, address, data).value.len() == data.len()
            &&& forall|i: int|
                0 <= i < data.len() ==> #[trigger] run.read_multiple::<u32>(
                    log,
                    address,
                    data,
                ).value[i] == m.memory[word_at(address, i)]
        },
{
    broadcast use crate::memory::group_memory;
    reveal(Run::read_multiple);
    let asked = run.method_asked::<u32>();
    let load = crate::assembly::spec_lw(0, 8, 2, 9);
    let move_on = crate::assembly::spec_addi(8, 8, 4);
    if run.state.method_for(RiscvBusAccess::A32) == MemoryAccessMethod::SystemBus {
        lemma_read_many_through_system_bus(asked, log, to, m, address, data);
    } else {
        assert(asked.state.cache_holds(seq![load, move_on]) == run.state.cache_holds(
            seq![load, move_on],
        ));
        lemma_read_many_through_program_buffer(asked, log, to, m, address, data);
    }
}

/// 32-bit words that were written to memory are what a read of the same
/// places returns, by the system bus and by the program buffer, where the
/// debug module answers as one with a hart and plain memory does. The
/// registers of the hart are as they were before.
pub proof fn lemma_words_32_round_trip(
    run: Run,
    log: Seq<Event>,
    m: Module,
    address: u32,
    data: Seq<u32>,
    into: Seq<u32>,
)
    requires
        run.live(),
        data.len() > 0,
        into.len() == data.len(),
        address + 4 * data.len() <= 0x1_0000_0000,
        m.wf(),
        run.state.wf(),
        m.size == run.state.progbuf_size,
        can_access_many(run.state, m, crate::assembly::spec_sw(0, 8, 2, 9)),
        run.write_multiple::<u32>(log, address, data).read_multiple::<u32>(
            log,
            address,
            into,
        ).run.live(),
        m.after_all(
            log,
            run.at,
            run.write_multiple::<u32>(log, address, data).read_multiple::<u32>(
                log,
                address,
                into,
            ).run.at,
        ) is Some,
    ensures
        run.write_multiple::<u32>(log, address, data).read_multiple::<u32>(log, address, into).value
            == data,
        ({
            let end = run.write_multiple::<u32>(log, address, data).read_multiple::<u32>(
                log,
                address,
                into,
            ).run;
            m.after_all(log, run.at, end.at)->0.x == m.x
        }),
{
    broadcast use crate::memory::group_memory;
    let written = run.write_multiple::<u32>(log, address, data);
    let read = written.read_multiple::<u32>(log, address, into);
    let to = read.run.at;
    let load = crate::assembly::spec_lw(0, 8, 2, 9);
    lemma_instructions(8, 9);
    assert(written.live()) by {
        reveal(Run::read_multiple);
        reveal(Run::read_multiple_progbuf);
        reveal(Run::read_multiple_sysbus);
    }
    lemma_write_multiple(run, log, to, m, address, data);
    let m1 = after_write_many(m, run.state, address, data);
    assert(can_access_many(written.state, m1, load));
    lemma_read_multiple(written, log, to, m1, address, into);
    let m2 = after_read_many(m1, written.state, address, into.len() as int);
    assert(m.after_all(log, run.at, to) == m2.after_all(log, to, to));
    assert(read.value =~= data);
}

} // verus!
