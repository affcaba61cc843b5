//! What accesses through the system bus achieve: reads and writes of words
//! of the memory.

use crate::dtm::{CommandResult, DmiOperation, Event};
use crate::error::RiscvBusAccess;
use crate::model::Module;
use crate::registers::{Sbcs, SBADDRESS0, SBCS, SBDATA0};
use crate::run::Run;
use crate::model::word_at;
use crate::model::steps::{
    lemma_execute_as_the_module, lemma_leaf_steps, lemma_schedule_as_the_module,
    lemma_steps_take_events, went_along,
};
use vstd::prelude::*;

verus! {

/// The module after a word was written through the system bus: the word is
/// in its memory, and the system bus stands behind the word.
pub open spec fn written_through_system_bus(m: Module, address: u32, value: u32) -> Module {
    Module {
        pending: None,
        results: Seq::empty(),
        sbcs: Sbcs::spec_for_access(RiscvBusAccess::A32, false, false, true),
        sbaddress: (address + 4) as u32,
        sbdata0: value,
        memory: m.memory.insert(address, value),
        ..m
    }
}

/// The module after a word was read through the system bus: the system bus
/// stands at the word and holds it.
pub open spec fn read_through_system_bus(m: Module, address: u32) -> Module {
    Module {
        pending: None,
        sbcs: Sbcs::spec_for_access(RiscvBusAccess::A32, true, false, false),
        sbaddress: address,
        sbdata0: m.memory[address],
        ..m
    }
}

/// A write of a word through the system bus that went well took six events
/// and left the state of the interface as it was, and has put the word in
/// the memory of the module.
pub proof fn lemma_write_through_system_bus(
    run: Run,
    log: Seq<Event>,
    to: int,
    m: Module,
    address: u32,
    value: u32,
)
    requires
        run.live(),
        run.write_sysbus(log, address, seq![value]).live(),
    ensures
        run.write_sysbus(log, address, seq![value]).at == run.at + 6,
        run.write_sysbus(log, address, seq![value]).state == run.state,
        went_along(
            run,
            run.write_sysbus(log, address, seq![value]),
            log,
            to,
            m,
            written_through_system_bus(m, address, value),
        ),
{
    broadcast use crate::system_bus::group_system_bus;
    reveal(Run::write_sysbus);
    reveal(Run::schedule_write_large);
    reveal(Run::schedule_read);
    let written = run.write_sysbus(log, address, seq![value]);
    let for_write = Sbcs::spec_for_access(RiscvBusAccess::A32, false, false, true);
    Sbcs::lemma_for_access_fields(RiscvBusAccess::A32, false, false, true);
    let s1 = run.schedule(log, SBCS as u64, for_write, DmiOperation::Write).run;
    let s2 = s1.schedule(log, SBADDRESS0 as u64, address, DmiOperation::Write).run;
    let s3 = s2.schedule(log, SBDATA0 as u64, value, DmiOperation::Write).run;
    assert(s2.schedule_writes(log, seq![value], 0) == s3) by {
        assert(s3.schedule_writes(log, seq![value], 1) == s3);
    }
    let s4 = s3.schedule(log, SBCS as u64, 0, DmiOperation::Read).run;
    let status = s4.schedule(log, 0, 0, DmiOperation::NoOp);
    let batch = status.run.execute(log);
    assert(written == match crate::system_bus::spec_result_word(batch.value, status.value) {
        Some(sbcs) => batch.run.check_sberror(sbcs),
        None => batch.run.fail(crate::system_bus::batch_error()),
    });
    assert(batch.run.live());
    lemma_steps_take_events(run, log, SBCS as u64, for_write, DmiOperation::Write);
    lemma_steps_take_events(s1, log, SBADDRESS0 as u64, address, DmiOperation::Write);
    lemma_steps_take_events(s2, log, SBDATA0 as u64, value, DmiOperation::Write);
    lemma_steps_take_events(s3, log, SBCS as u64, 0, DmiOperation::Read);
    lemma_steps_take_events(s4, log, 0, 0, DmiOperation::NoOp);
    lemma_steps_take_events(status.run, log, 0, 0, DmiOperation::NoOp);
    if written.at <= to && m.after_all(log, run.at, to) is Some {
        lemma_schedule_as_the_module(run, log, m, to, SBCS as u64, for_write, DmiOperation::Write);
        let m1 = Module { results: m.results.push(None), sbcs: for_write, ..m };
        lemma_schedule_as_the_module(
            s1,
            log,
            m1,
            to,
            SBADDRESS0 as u64,
            address,
            DmiOperation::Write,
        );
        let m2 = Module { results: m1.results.push(None), sbaddress: address, ..m1 };
        lemma_schedule_as_the_module(s2, log, m2, to, SBDATA0 as u64, value, DmiOperation::Write);
        let m3 = Module {
            results: m2.results.push(None),
            sbdata0: value,
            memory: m2.memory.insert(address, value),
            sbaddress: (address + 4) as u32,
            ..m2
        };
        lemma_schedule_as_the_module(s3, log, m3, to, SBCS as u64, 0, DmiOperation::Read);
        let m4 = Module { results: m3.results.push(None), pending: None, ..m3 };
        lemma_schedule_as_the_module(s4, log, m4, to, 0, 0, DmiOperation::NoOp);
        let m5 = Module { results: m4.results.push(None), ..m4 };
        lemma_execute_as_the_module(status.run, log, m5, to);
    }
}

/// A read of a word through the system bus that went well took six events
/// and left the state of the interface as it was, and has brought back the
/// word that the memory of the module holds at the address.
pub proof fn lemma_read_through_system_bus(
    run: Run,
    log: Seq<Event>,
    to: int,
    m: Module,
    address: u32,
)
    requires
        run.live(),
        run.read_sysbus::<u32>(log, address).run.live(),
    ensures
        run.read_sysbus::<u32>(log, address).run.at == run.at + 6,
        run.read_sysbus::<u32>(log, address).run.state == run.state,
        went_along(
            run,
            run.read_sysbus::<u32>(log, address).run,
            log,
            to,
            m,
            read_through_system_bus(m, address),
        ),
        run.read_sysbus::<u32>(log, address).run.at <= to && m.after_all(log, run.at, to)
            is Some ==> run.read_sysbus::<u32>(log, address).value == m.memory[address],
{
    broadcast use crate::system_bus::group_system_bus;
    reveal(Run::read_sysbus);
    reveal(Run::read_large);
    let for_read = Sbcs::spec_for_access(RiscvBusAccess::A32, true, false, false);
    Sbcs::lemma_for_access_fields(RiscvBusAccess::A32, true, false, false);
    let q1 = run.write_register(log, SBCS as u64, for_read);
    let q2 = q1.write_register(log, SBADDRESS0 as u64, address);
    let data = q2.read_register(log, SBDATA0 as u64);
    let checked = data.run.read_register(log, SBCS as u64);
    assert(run.read_sysbus::<u32>(log, address).run == checked.run.check_sberror(checked.value));
    assert(run.read_sysbus::<u32>(log, address).value == data.value);
    lemma_leaf_steps(run, log, to, m, SBCS as u64, for_read);
    let m1 = Module { sbcs: for_read, ..m };
    lemma_leaf_steps(q1, log, to, m1, SBADDRESS0 as u64, address);
    let m2 = Module { sbaddress: address, sbdata0: m.memory[address], ..m1 };
    lemma_leaf_steps(q2, log, to, m2, SBDATA0 as u64, 0);
    let m3 = Module { pending: Some(m.memory[address]), ..m2 };
    lemma_leaf_steps(data.run, log, to, m3, SBCS as u64, 0);
}

/// The module after one write of `sbdata0` was scheduled, where the system
/// bus is set up for 32-bit writes that move the address on: the value is in
/// the memory at the address, and the address has moved on by a word.
pub open spec fn bus_stored_one(m: Module, value: u32) -> Module {
    Module {
        results: m.results.push(None),
        sbdata0: value,
        memory: m.memory.insert(m.sbaddress, value),
        sbaddress: (m.sbaddress + 4) as u32,
        ..m
    }
}

/// The module after a write of `sbdata0` was scheduled for each of the
/// words of `data` from `from` on.
pub open spec fn bus_stored_many(m: Module, data: Seq<u32>, from: int) -> Module
    decreases data.len() - from,
{
    if from < 0 || from >= data.len() {
        m
    } else {
        bus_stored_many(bus_stored_one(m, data[from]), data, from + 1)
    }
}

/// What the writes of `sbdata0` leave behind: each word is in the memory at
/// its address, the rest of the memory is as it was, and so is all of the
/// module but the system bus and the results of the batch.
pub proof fn lemma_bus_stored_many(m: Module, address: u32, data: Seq<u32>, from: int)
    requires
        0 <= from <= data.len(),
        address + 4 * data.len() <= 0x1_0000_0000,
        m.sbaddress == word_at(address, from),
    ensures
        forall|i: int|
            from <= i < data.len() ==> bus_stored_many(m, data, from).memory[#[trigger] word_at(
                address,
                i,
            )] == data[i],
        forall|a: u32|
            (forall|i: int| from <= i < data.len() ==> a != word_at(address, i))
                ==> bus_stored_many(m, data, from).memory[a] == #[trigger] m.memory[a],
        bus_stored_many(m, data, from).results.len() == m.results.len() + data.len() - from,
        bus_stored_many(m, data, from) == (Module {
            results: bus_stored_many(m, data, from).results,
            sbdata0: bus_stored_many(m, data, from).sbdata0,
            sbaddress: bus_stored_many(m, data, from).sbaddress,
            memory: bus_stored_many(m, data, from).memory,
            ..m
        }),
    decreases data.len() - from,
{
    if from < data.len() {
        let next = bus_stored_one(m, data[from]);
        lemma_bus_stored_many(next, address, data, from + 1);
        assert(word_at(address, from) == address + 4 * from);
        assert forall|i: int| from <= i < data.len() implies bus_stored_many(
            m,
            data,
            from,
        ).memory[#[trigger] word_at(address, i)] == data[i] by {
            if i == from {
                let here = word_at(address, from);
                assert forall|j: int| from + 1 <= j < data.len() implies here != word_at(
                    address,
                    j,
                ) by {}
                assert(next.memory[here] == data[from]);
            }
        }
        assert forall|a: u32|
            (forall|i: int| from <= i < data.len() ==> a != word_at(address, i))
                implies bus_stored_many(m, data, from).memory[a] == #[trigger] m.memory[a] by {
            assert(a != word_at(address, from));
            assert forall|i: int| from + 1 <= i < data.len() implies a != word_at(address, i) by {}
            assert(next.memory[a] == m.memory[a]);
        }
    }
}

/// The writes of `sbdata0` that were scheduled took one event each and left
/// the state of the interface as it was, and the module has stored the words.
pub proof fn lemma_schedule_writes_steps(
    run: Run,
    log: Seq<Event>,
    to: int,
    m: Module,
    data: Seq<u32>,
    from: int,
)
    requires
        run.live(),
        m.sbcs == Sbcs::spec_for_access(RiscvBusAccess::A32, false, false, true),
        0 <= from <= data.len(),
        run.schedule_writes(log, data, from).live(),
    ensures
        run.schedule_writes(log, data, from).at == run.at + data.len() - from,
        run.schedule_writes(log, data, from).state == run.state,
        went_along(
            run,
            run.schedule_writes(log, data, from),
            log,
            to,
            m,
            bus_stored_many(m, data, from),
        ),
    decreases data.len() - from,
{
    broadcast use crate::system_bus::group_system_bus;
    if from < data.len() {
        reveal(Run::schedule_write_large);
        Sbcs::lemma_for_access_fields(RiscvBusAccess::A32, false, false, true);
        let value = data[from];
        let r1 = run.schedule(log, SBDATA0 as u64, value, DmiOperation::Write).run;
        assert(run.schedule_writes(log, data, from) == r1.schedule_writes(log, data, from + 1));
        lemma_steps_take_events(run, log, SBDATA0 as u64, value, DmiOperation::Write);
        if m.after_all(log, run.at, to) is Some {
            lemma_schedule_as_the_module(
                run,
                log,
                m,
                to,
                SBDATA0 as u64,
                value,
                DmiOperation::Write,
            );
        }
        let m1 = bus_stored_one(m, value);
        lemma_schedule_writes_steps(r1, log, to, m1, data, from + 1);
    }
}

/// The module after words were written through the system bus: the words
/// are in its memory, and the system bus stands behind them.
pub open spec fn written_many_through_system_bus(
    m: Module,
    address: u32,
    data: Seq<u32>,
) -> Module {
    Module {
        pending: None,
        results: Seq::empty(),
        ..bus_stored_many(
            Module {
                results: m.results.push(None).push(None),
                sbcs: Sbcs::spec_for_access(RiscvBusAccess::A32, false, false, true),
                sbaddress: address,
                ..m
            },
            data,
            0,
        )
    }
}

/// A write of words through the system bus that went well has put each word
/// in the memory of the module at its address, and has left the rest of the
/// memory and the registers of the hart as they were.
pub proof fn lemma_write_many_through_system_bus(
    run: Run,
    log: Seq<Event>,
    to: int,
    m: Module,
    address: u32,
    data: Seq<u32>,
)
    requires
        run.live(),
        address + 4 * data.len() <= 0x1_0000_0000,
        run.write_sysbus(log, address, data).live(),
    ensures
        run.write_sysbus(log, address, data).at == run.at + 5 + data.len(),
        run.write_sysbus(log, address, data).state == run.state,
        went_along(
            run,
            run.write_sysbus(log, address, data),
            log,
            to,
            m,
            written_many_through_system_bus(m, address, data),
        ),
        written_many_through_system_bus(m, address, data).x == m.x,
        forall|i: int|
            0 <= i < data.len() ==> written_many_through_system_bus(
                m,
                address,
                data,
            ).memory[#[trigger] word_at(address, i)] == data[i],
        forall|a: u32|
            (forall|i: int| 0 <= i < data.len() ==> a != word_at(address, i))
                ==> written_many_through_system_bus(m, address, data).memory[a]
                == #[trigger] m.memory[a],
{
    broadcast use crate::system_bus::group_system_bus;
    reveal(Run::write_sysbus);
    reveal(Run::schedule_read);
    let written = run.write_sysbus(log, address, data);
    let for_write = Sbcs::spec_for_access(RiscvBusAccess::A32, false, false, true);
    Sbcs::lemma_for_access_fields(RiscvBusAccess::A32, false, false, true);
    let s1 = run.schedule(log, SBCS as u64, for_write, DmiOperation::Write).run;
    let s2 = s1.schedule(log, SBADDRESS0 as u64, address, DmiOperation::Write).run;
    let s3 = s2.schedule_writes(log, data, 0);
    let s4 = s3.schedule(log, SBCS as u64, 0, DmiOperation::Read).run;
    let status = s4.schedule(log, 0, 0, DmiOperation::NoOp);
    let batch = status.run.execute(log);
    assert(written == match crate::system_bus::spec_result_word(batch.value, status.value) {
        Some(sbcs) => batch.run.check_sberror(sbcs),
        None => batch.run.fail(crate::system_bus::batch_error()),
    });
    assert(batch.run.live());
    let m1 = Module { results: m.results.push(None), sbcs: for_write, ..m };
    let m2 = Module { results: m1.results.push(None), sbaddress: address, ..m1 };
    let m3 = bus_stored_many(m2, data, 0);
    let m4 = Module { results: m3.results.push(None), pending: None, ..m3 };
    let m5 = Module { results: m4.results.push(None), ..m4 };
    assert(word_at(address, 0) == address);
    lemma_bus_stored_many(m2, address, data, 0);
    lemma_steps_take_events(run, log, SBCS as u64, for_write, DmiOperation::Write);
    lemma_steps_take_events(s1, log, SBADDRESS0 as u64, address, DmiOperation::Write);
    lemma_schedule_writes_steps(s2, log, to, m2, data, 0);
    lemma_steps_take_events(s3, log, SBCS as u64, 0, DmiOperation::Read);
    lemma_steps_take_events(s4, log, 0, 0, DmiOperation::NoOp);
    lemma_steps_take_events(status.run, log, 0, 0, DmiOperation::NoOp);
    if written.at <= to && m.after_all(log, run.at, to) is Some {
        lemma_schedule_as_the_module(run, log, m, to, SBCS as u64, for_write, DmiOperation::Write);
        lemma_schedule_as_the_module(
            s1,
            log,
            m1,
            to,
            SBADDRESS0 as u64,
            address,
            DmiOperation::Write,
        );
        lemma_schedule_as_the_module(s3, log, m3, to, SBCS as u64, 0, DmiOperation::Read);
        lemma_schedule_as_the_module(s4, log, m4, to, 0, 0, DmiOperation::NoOp);
        lemma_execute_as_the_module(status.run, log, m5, to);
    }
}

/// The module after one read of `sbdata0` was scheduled, where the system
/// bus is set up for 32-bit reads that follow each other: the read brings
/// back what `sbdata0` held, the word at the address is in `sbdata0`, and the
/// address has moved on by a word.
pub open spec fn bus_loaded_one(m: Module) -> Module {
    Module {
        pending: Some(m.sbdata0),
        results: m.results.push(None).push(Some(m.sbdata0)),
        sbdata0: m.memory[m.sbaddress],
        sbaddress: (m.sbaddress + 4) as u32,
        ..m
    }
}

/// The module after `count` reads of `sbdata0` were scheduled.
pub open spec fn bus_loaded_many(m: Module, count: int) -> Module
    decreases count,
{
    if count <= 0 {
        m
    } else {
        bus_loaded_many(bus_loaded_one(m), count - 1)
    }
}

/// What the reads of `sbdata0` leave behind, where `sbdata0` holds the word
/// of the index `from` and the address stands behind it: the batch will
/// bring back the words from there on, one for each read, `sbdata0` holds
/// the word behind them, and the memory is as it was.
pub proof fn lemma_bus_loaded_many(m: Module, address: u32, from: int, count: int)
    requires
        0 <= from,
        0 <= count,
        address + 4 * (from + count + 1) <= 0x1_0000_0000,
        m.sbdata0 == m.memory[word_at(address, from)],
        m.sbaddress == word_at(address, from + 1),
    ensures
        bus_loaded_many(m, count).results.len() == m.results.len() + 2 * count,
        forall|i: int|
            0 <= i < m.results.len() ==> #[trigger] bus_loaded_many(m, count).results[i]
                == m.results[i],
        forall|j: int|
            0 <= j < count ==> #[trigger] bus_loaded_many(m, count).results[m.results.len() + 2 * j
                + 1] == Some(m.memory[word_at(address, from + j)]),
        bus_loaded_many(m, count).sbdata0 == m.memory[word_at(address, from + count)],
        bus_loaded_many(m, count).sbaddress == word_at(address, from + count + 1),
        bus_loaded_many(m, count) == (Module {
            pending: bus_loaded_many(m, count).pending,
            results: bus_loaded_many(m, count).results,
            sbdata0: bus_loaded_many(m, count).sbdata0,
            sbaddress: bus_loaded_many(m, count).sbaddress,
            ..m
        }),
    decreases count,
{
    if count > 0 {
        let next = bus_loaded_one(m);
        assert(word_at(address, from + 1) == address + 4 * (from + 1));
        lemma_bus_loaded_many(next, address, from + 1, count - 1);
        let end = bus_loaded_many(m, count);
        assert forall|j: int| 0 <= j < count implies #[trigger] end.results[m.results.len() + 2 * j
            + 1] == Some(m.memory[word_at(address, from + j)]) by {
            if j == 0 {
                assert(end.results[m.results.len() as int + 1] == next.results[m.results.len() as int
                    + 1]);
            } else {
                assert(end.results[next.results.len() + 2 * (j - 1) + 1] == Some(
                    next.memory[word_at(address, from + 1 + (j - 1))],
                ));
            }
        }
        assert forall|i: int| 0 <= i < m.results.len() implies #[trigger] end.results[i]
            == m.results[i] by {
            assert(end.results[i] == next.results[i]);
        }
    }
}

/// The reads of `sbdata0` that were scheduled took two events each and left
/// the state of the interface as it was. The place of each result is behind
/// the places before, the second of the two that the read took.
pub proof fn lemma_schedule_reads_steps(
    run: Run,
    log: Seq<Event>,
    to: int,
    m: Module,
    count: nat,
    indices: Seq<usize>,
)
    requires
        run.live(),
        m.sbcs == Sbcs::spec_for_access(RiscvBusAccess::A32, true, true, true),
        run.schedule_reads::<u32>(log, count, indices).run.live(),
    ensures
        run.schedule_reads::<u32>(log, count, indices).run.at == run.at + 2 * count,
        run.schedule_reads::<u32>(log, count, indices).run.state == run.state,
        went_along(
            run,
            run.schedule_reads::<u32>(log, count, indices).run,
            log,
            to,
            m,
            bus_loaded_many(m, count as int),
        ),
        run.schedule_reads::<u32>(log, count, indices).value.len() == indices.len() + count,
        forall|i: int|
            0 <= i < indices.len() ==> #[trigger] run.schedule_reads::<u32>(
                log,
                count,
                indices,
            ).value[i] == indices[i],
        run.schedule_reads::<u32>(log, count, indices).run.at <= to && m.after_all(
            log,
            run.at,
            to,
        ) is Some ==> (forall|j: int|
            0 <= j < count ==> #[trigger] run.schedule_reads::<u32>(
                log,
                count,
                indices,
            ).value[indices.len() + j] == m.results.len() + 2 * j + 1),
    decreases count,
{
    broadcast use crate::system_bus::group_system_bus;
    if count > 0 {
        reveal(Run::schedule_read_large);
        reveal(Run::schedule_read);
        Sbcs::lemma_for_access_fields(RiscvBusAccess::A32, true, true, true);
        let r1 = run.schedule(log, SBDATA0 as u64, 0, DmiOperation::Read).run;
        let one = r1.schedule(log, 0, 0, DmiOperation::NoOp);
        let rest = one.run.schedule_reads::<u32>(log, (count - 1) as nat, indices.push(one.value));
        assert(run.schedule_reads::<u32>(log, count, indices) == rest);
        lemma_steps_take_events(run, log, SBDATA0 as u64, 0, DmiOperation::Read);
        lemma_steps_take_events(r1, log, 0, 0, DmiOperation::NoOp);
        let half = Module {
            pending: Some(m.sbdata0),
            results: m.results.push(None),
            sbdata0: m.memory[m.sbaddress],
            sbaddress: (m.sbaddress + 4) as u32,
            ..m
        };
        if m.after_all(log, run.at, to) is Some && run.at + 1 < to {
            lemma_schedule_as_the_module(run, log, m, to, SBDATA0 as u64, 0, DmiOperation::Read);
            lemma_schedule_as_the_module(r1, log, half, to, 0, 0, DmiOperation::NoOp);
        }
        let m1 = bus_loaded_one(m);
        lemma_schedule_reads_steps(
            one.run,
            log,
            to,
            m1,
            (count - 1) as nat,
            indices.push(one.value),
        );
        if rest.run.at <= to && m.after_all(log, run.at, to) is Some {
            assert forall|j: int| 0 <= j < count implies #[trigger] rest.value[indices.len() + j]
                == m.results.len() + 2 * j + 1 by {
                if j == 0 {
                    assert(rest.value[indices.len() as int] == indices.push(
                        one.value,
                    )[indices.len() as int]);
                } else {
                    assert(rest.value[indices.push(one.value).len() + (j - 1)] == m1.results.len()
                        + 2 * (j - 1) + 1);
                }
            }
        }
        assert forall|i: int| 0 <= i < indices.len() implies #[trigger] rest.value[i]
            == indices[i] by {
            assert(rest.value[i] == indices.push(one.value)[i]);
        }
    }
}

/// The values that are taken from the results of a batch are the words that
/// stand at the places, where each place holds a word.
pub proof fn lemma_store_words(
    data: Seq<u32>,
    indices: Seq<usize>,
    results: Seq<CommandResult>,
    words: Seq<u32>,
    from: int,
)
    requires
        0 <= from <= data.len(),
        indices.len() == data.len(),
        words.len() == data.len(),
        forall|i: int|
            from <= i < data.len() ==> crate::system_bus::spec_result_word(
                results,
                #[trigger] indices[i],
            ) == Some(words[i]),
    ensures
        crate::system_bus::store_words(data, indices, results, from).1,
        crate::system_bus::store_words(data, indices, results, from).0.len() == data.len(),
        forall|i: int|
            0 <= i < data.len() ==> #[trigger] crate::system_bus::store_words(
                data,
                indices,
                results,
                from,
            ).0[i] == if from <= i {
                words[i]
            } else {
                data[i]
            },
    decreases data.len() - from,
{
    if from < data.len() {
        let filled = data.update(from, words[from]);
        assert(crate::system_bus::spec_result_word(results, indices[from]) == Some(words[from]));
        lemma_store_words(filled, indices, results, words, from + 1);
        assert forall|i: int| 0 <= i < data.len() implies #[trigger] crate::system_bus::store_words(
            data,
            indices,
            results,
            from,
        ).0[i] == if from <= i {
            words[i]
        } else {
            data[i]
        } by {
            assert(crate::system_bus::store_words(filled, indices, results, from + 1).0[i] == if from
                + 1 <= i {
                words[i]
            } else {
                filled[i]
            });
        }
    }
}

/// The module after `count` words were read through the system bus: the
/// system bus stands behind the words, and holds the word that it found
/// there.
pub open spec fn read_many_through_system_bus(m: Module, address: u32, count: int) -> Module {
    Module {
        pending: None,
        results: Seq::empty(),
        sbcs: Sbcs::spec_for_access(RiscvBusAccess::A32, true, true, false),
        sbaddress: word_at(address, count),
        sbdata0: m.memory[word_at(address, count)],
        ..m
    }
}

/// A read of words through the system bus that went well has brought back,
/// for each word, what the memory of the module holds at its address, and
/// has left the memory and the registers of the hart as they were.
pub proof fn lemma_read_many_through_system_bus(
    run: Run,
    log: Seq<Event>,
    to: int,
    m: Module,
    address: u32,
    data: Seq<u32>,
)
    requires
        run.live(),
        data.len() > 0,
        address + 4 * data.len() <= 0x1_0000_0000,
        run.read_multiple_sysbus::<u32>(log, address, data).run.live(),
    ensures
        run.read_multiple_sysbus::<u32>(log, address, data).run.at == run.at + 6 + 2 * data.len(),
        run.read_multiple_sysbus::<u32>(log, address, data).run.state == run.state,
        went_along(
            run,
            run.read_multiple_sysbus::<u32>(log, address, data).run,
            log,
            to,
            m,
            read_many_through_system_bus(m, address, data.len() as int),
        ),
        run.read_multiple_sysbus::<u32>(log, address, data).run.at <= to && m.after_all(
            log,
            run.at,
            to,
        ) is Some ==> {
            &&& run.read_multiple_sysbus::<u32>(log, address, data).value.len() == data.len()
            &&& forall|i: int|
                0 <= i < data.len() ==> #[trigger] run.read_multiple_sysbus::<u32>(
                    log,
                    address,
                    data,
                ).value[i] == m.memory[word_at(address, i)]
        },
{
    broadcast use crate::system_bus::group_system_bus;
    reveal(Run::read_multiple_sysbus);
    reveal(Run::schedule_read_large);
    reveal(Run::schedule_read);
    let count = (data.len() - 1) as nat;
    let read = run.read_multiple_sysbus::<u32>(log, address, data);
    let following = Sbcs::spec_for_access(RiscvBusAccess::A32, true, true, true);
    let staying = Sbcs::spec_for_access(RiscvBusAccess::A32, true, true, false);
    Sbcs::lemma_for_access_fields(RiscvBusAccess::A32, true, true, true);
    Sbcs::lemma_for_access_fields(RiscvBusAccess::A32, true, true, false);
    let s1 = run.schedule(log, SBCS as u64, following, DmiOperation::Write).run;
    let s2 = s1.schedule(log, SBADDRESS0 as u64, address, DmiOperation::Write).run;
    let first = s2.schedule_reads::<u32>(log, count, Seq::empty());
    let s3 = first.run.schedule(log, SBCS as u64, staying, DmiOperation::Write).run;
    let s4 = s3.schedule(log, SBDATA0 as u64, 0, DmiOperation::Read).run;
    let last = s4.schedule(log, 0, 0, DmiOperation::NoOp);
    let s5 = last.run.schedule(log, SBCS as u64, 0, DmiOperation::Read).run;
    let status = s5.schedule(log, 0, 0, DmiOperation::NoOp);
    let batch = status.run.execute(log);
    let indices = first.value.push(last.value);
    let stored = crate::system_bus::store_words(data, indices, batch.value, 0);
    assert(batch.run.live());
    assert(stored.1);
    assert(read.value == stored.0);
    let m1 = Module { results: m.results.push(None), sbcs: following, ..m };
    let m2 = Module {
        results: m1.results.push(None),
        sbaddress: (address + 4) as u32,
        sbdata0: m.memory[address],
        ..m1
    };
    assert(word_at(address, 0) == address);
    assert(word_at(address, 1) == (address + 4) as u32);
    lemma_bus_loaded_many(m2, address, 0, count as int);
    let m3 = bus_loaded_many(m2, count as int);
    let m4 = Module { results: m3.results.push(None), sbcs: staying, ..m3 };
    let m5 = Module {
        results: m4.results.push(None),
        pending: Some(m4.sbdata0),
        sbdata0: m4.memory[m4.sbaddress],
        ..m4
    };
    let m6 = Module { results: m5.results.push(Some(m4.sbdata0)), ..m5 };
    let m7 = Module { results: m6.results.push(None), pending: None, ..m6 };
    let m8 = Module { results: m7.results.push(None), ..m7 };
    lemma_steps_take_events(run, log, SBCS as u64, following, DmiOperation::Write);
    lemma_steps_take_events(s1, log, SBADDRESS0 as u64, address, DmiOperation::Write);
    lemma_schedule_reads_steps(s2, log, to, m2, count, Seq::empty());
    lemma_steps_take_events(first.run, log, SBCS as u64, staying, DmiOperation::Write);
    lemma_steps_take_events(s3, log, SBDATA0 as u64, 0, DmiOperation::Read);
    lemma_steps_take_events(s4, log, 0, 0, DmiOperation::NoOp);
    lemma_steps_take_events(last.run, log, SBCS as u64, 0, DmiOperation::Read);
    lemma_steps_take_events(s5, log, 0, 0, DmiOperation::NoOp);
    lemma_steps_take_events(status.run, log, 0, 0, DmiOperation::NoOp);
    if read.run.at <= to && m.after_all(log, run.at, to) is Some {
        lemma_schedule_as_the_module(run, log, m, to, SBCS as u64, following, DmiOperation::Write);
        lemma_schedule_as_the_module(
            s1,
            log,
            m1,
            to,
            SBADDRESS0 as u64,
            address,
            DmiOperation::Write,
        );
        lemma_schedule_as_the_module(
            first.run,
            log,
            m3,
            to,
            SBCS as u64,
            staying,
            DmiOperation::Write,
        );
        lemma_schedule_as_the_module(s3, log, m4, to, SBDATA0 as u64, 0, DmiOperation::Read);
        lemma_schedule_as_the_module(s4, log, m5, to, 0, 0, DmiOperation::NoOp);
        lemma_schedule_as_the_module(last.run, log, m6, to, SBCS as u64, 0, DmiOperation::Read);
        lemma_schedule_as_the_module(s5, log, m7, to, 0, 0, DmiOperation::NoOp);
        lemma_execute_as_the_module(status.run, log, m8, to);
        // Each place holds the word of its index.
        let words = Seq::new(data.len(), |i: int| m.memory[word_at(address, i)]);
        assert forall|i: int| 0 <= i < data.len() implies crate::system_bus::spec_result_word(
            batch.value,
            #[trigger] indices[i],
        ) == Some(words[i]) by {
            if i < count {
                assert(first.value[Seq::<usize>::empty().len() + i] == m2.results.len() + 2 * i
                    + 1);
                let place = m2.results.len() + 2 * i + 1;
                assert(m3.results[place] == Some(m2.memory[word_at(address, 0 + i)]));
                assert(m8.results[place] == m3.results[place]);
            } else {
                let place = m5.results.len() as int;
                assert(m8.results[place] == Some(m4.sbdata0));
            }
        }
        lemma_store_words(data, indices, batch.value, words, 0);
    }
}

} // verus!
