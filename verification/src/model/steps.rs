//! How the steps of the interface go along with the module: what a step
//! that went well took from the record, what it left of the state of the
//! interface, and what the module has done meanwhile.

use crate::assembly::EBREAK;
use crate::bits::{field, flag};
use crate::dtm::{CommandResult, DmiOperation, Event};
use crate::error::RiscvBusAccess;
use crate::model::Module;
use crate::registers::{AccessRegisterCommand, Dmcontrol, ABSTRACTCS, COMMAND, DATA0, DMCONTROL};
use crate::run::Run;
use vstd::prelude::*;

verus! {

/// What went well took its events from the record: one for an access, for
/// an access that was scheduled and for a batch that was executed, and two
/// for a register that was read.
pub proof fn lemma_steps_take_events(
    run: Run,
    log: Seq<Event>,
    address: u64,
    value: u32,
    op: DmiOperation,
)
    requires
        run.live(),
    ensures
        run.access(log, address, value, op).run.live() ==> run.access(
            log,
            address,
            value,
            op,
        ).run.at == run.at + 1,
        run.schedule(log, address, value, op).run.live() ==> run.schedule(
            log,
            address,
            value,
            op,
        ).run.at == run.at + 1,
        run.execute(log).run.live() ==> run.execute(log).run.at == run.at + 1,
        run.read_register(log, address).run.live() ==> run.read_register(log, address).run.at
            == run.at + 2,
        run.schedule_read(log, address).run.live() ==> run.schedule_read(log, address).run.at
            == run.at + 2,
{
    broadcast use crate::run::group_run;
    reveal(Run::access);
    reveal(Run::schedule);
    reveal(Run::execute);
    reveal(Run::read_register);
    reveal(Run::schedule_read);
}

/// An access that went well brought back what the module says, where the
/// module says anything.
pub proof fn lemma_access_as_the_module(
    run: Run,
    log: Seq<Event>,
    m: Module,
    to: int,
    address: u64,
    value: u32,
    op: DmiOperation,
)
    requires
        run.live(),
        run.access(log, address, value, op).run.live(),
        m.after_all(log, run.at, to) is Some,
    ensures
        run.access(log, address, value, op).run.at == run.at + 1,
        run.at < to ==> m.after_all(log, run.at, to) == m.access(address, value, op).0.after_all(
            log,
            run.at + 1,
            to,
        ),
        run.at < to ==> (m.access(address, value, op).1 matches Some(answer) ==> run.access(
            log,
            address,
            value,
            op,
        ).value == answer),
{
    reveal(Run::access);
}

/// A read of a register that went well took two events, and brought back
/// the value that the register has in the module, where it has one.
pub proof fn lemma_read_register_as_the_module(
    run: Run,
    log: Seq<Event>,
    m: Module,
    to: int,
    address: u64,
)
    requires
        run.live(),
        run.read_register(log, address).run.live(),
        m.after_all(log, run.at, to) is Some,
    ensures
        run.read_register(log, address).run.at == run.at + 2,
        run.at + 1 < to ==> m.after_all(log, run.at, to) == (Module {
            pending: m.read(address).1,
            ..m.read(address).0
        }).after_all(log, run.at + 2, to),
        run.at + 1 < to ==> (m.read(address).1 matches Some(answer) ==> run.read_register(
            log,
            address,
        ).value == answer),
{
    broadcast use crate::run::group_run;
    reveal(Run::read_register);
    let first = run.access(log, address, 0, DmiOperation::Read);
    lemma_access_as_the_module(run, log, m, to, address, 0, DmiOperation::Read);
    if run.at + 1 < to {
        lemma_access_as_the_module(
            first.run,
            log,
            m.access(address, 0, DmiOperation::Read).0,
            to,
            0,
            0,
            DmiOperation::NoOp,
        );
    } else {
        reveal(Run::access);
    }
}

/// A write of a register that went well took one event.
pub proof fn lemma_write_register_as_the_module(
    run: Run,
    log: Seq<Event>,
    m: Module,
    to: int,
    address: u64,
    value: u32,
)
    requires
        run.live(),
        run.write_register(log, address, value).live(),
        m.after_all(log, run.at, to) is Some,
    ensures
        run.write_register(log, address, value).at == run.at + 1,
        run.at < to ==> m.after_all(log, run.at, to) == m.write(address, value).after_all(
            log,
            run.at + 1,
            to,
        ),
{
    lemma_access_as_the_module(run, log, m, to, address, value, DmiOperation::Write);
}

/// An access that was scheduled took one event, and its result will stand
/// at the end of what the batch has brought back so far.
pub proof fn lemma_schedule_as_the_module(
    run: Run,
    log: Seq<Event>,
    m: Module,
    to: int,
    address: u64,
    value: u32,
    op: DmiOperation,
)
    requires
        run.live(),
        run.schedule(log, address, value, op).run.live(),
        m.after_all(log, run.at, to) is Some,
    ensures
        run.schedule(log, address, value, op).run.at == run.at + 1,
        run.at < to ==> run.schedule(log, address, value, op).value == m.results.len(),
        run.at < to ==> m.after_all(log, run.at, to) == (Module {
            results: m.results.push(m.access(address, value, op).1),
            ..m.access(address, value, op).0
        }).after_all(log, run.at + 1, to),
{
    reveal(Run::schedule);
}

/// A batch that was executed took one event, and brought back what the
/// module says of its accesses, where the module says anything.
pub proof fn lemma_execute_as_the_module(run: Run, log: Seq<Event>, m: Module, to: int)
    requires
        run.live(),
        run.execute(log).run.live(),
        m.after_all(log, run.at, to) is Some,
    ensures
        run.execute(log).run.at == run.at + 1,
        run.at < to ==> run.execute(log).value.len() == m.results.len(),
        run.at < to ==> forall|i: int|
            0 <= i < m.results.len() && (#[trigger] m.results[i]) is Some ==> run.execute(
                log,
            ).value[i] == CommandResult::U32(m.results[i]->0),
        run.at < to ==> m.after_all(log, run.at, to) == (Module {
            results: Seq::empty(),
            ..m
        }).after_all(log, run.at + 1, to),
{
    reveal(Run::execute);
}

/// The module with nothing more known of what the next access brings back.
pub open spec fn forgetful(m: Module) -> Module {
    Module { pending: None, ..m }
}

/// The module went from `m` to `next` while the interface went from `run` to
/// `then`, if the events between, and up to `to`, are answered as the module
/// does.
pub open spec fn went_along(
    run: Run,
    then: Run,
    log: Seq<Event>,
    to: int,
    m: Module,
    next: Module,
) -> bool {
    then.at <= to && m.after_all(log, run.at, to) is Some ==> m.after_all(log, run.at, to)
        == next.after_all(log, then.at, to)
}

/// What the next access brings back is nothing to a program.
pub proof fn lemma_run_program_forgetful(m: Module, pc: int)
    ensures
        forgetful(m).run_program(pc) == forgetful(m.run_program(pc)),
    decreases 16 - pc,
{
    if !(pc < 0 || pc >= 16 || pc >= m.size || m.progbuf[pc] == EBREAK) {
        match m.execute(m.progbuf[pc]) {
            Some(next) => {
                lemma_run_program_forgetful(next, pc + 1);
            },
            None => {},
        }
    }
}

/// What the next access brings back is nothing to a command.
pub proof fn lemma_command_forgetful(m: Module, command: u32)
    ensures
        forgetful(m).command(command) == forgetful(m.command(command)),
{
    let regno = field(command, 15, 0);
    let moved = if field(command, 31, 24) == 0 && flag(command, 17) && field(command, 22, 20) == 2
        && 0x1000 <= regno < 0x1020 {
        if flag(command, 16) {
            Module { x: m.x.update(regno - 0x1000, m.data0), ..m }
        } else {
            Module { data0: m.x[regno - 0x1000], ..m }
        }
    } else {
        m
    };
    lemma_run_program_forgetful(moved, 0);
}

/// A leaf step that went well moved on in the record and left the state of
/// the interface as it was, and the module went along.
pub proof fn lemma_leaf_steps(
    run: Run,
    log: Seq<Event>,
    to: int,
    m: Module,
    address: u64,
    value: u32,
)
    requires
        run.live(),
    ensures
        run.write_register(log, address, value).live() ==> {
            &&& run.write_register(log, address, value).at == run.at + 1
            &&& run.write_register(log, address, value).state == run.state
            &&& went_along(
                run,
                run.write_register(log, address, value),
                log,
                to,
                m,
                m.write(address, value),
            )
        },
        run.read_register(log, address).run.live() ==> {
            &&& run.read_register(log, address).run.at == run.at + 2
            &&& run.read_register(log, address).run.state == run.state
            &&& went_along(
                run,
                run.read_register(log, address).run,
                log,
                to,
                m,
                Module { pending: m.read(address).1, ..m.read(address).0 },
            )
            &&& run.read_register(log, address).run.at <= to && m.after_all(log, run.at, to) is Some
                ==> (m.read(address).1 matches Some(answer) ==> run.read_register(
                log,
                address,
            ).value == answer)
        },
        run.elapsed(log).run.live() ==> {
            &&& run.elapsed(log).run.at == run.at + 1
            &&& run.elapsed(log).run.state == run.state
            &&& went_along(run, run.elapsed(log).run, log, to, m, m)
        },
{
    broadcast use crate::run::group_run;
    lemma_steps_take_events(run, log, address, value, DmiOperation::Write);
    if run.write_register(log, address, value).live() && m.after_all(log, run.at, to) is Some {
        lemma_write_register_as_the_module(run, log, m, to, address, value);
    }
    if run.read_register(log, address).run.live() && m.after_all(log, run.at, to) is Some {
        lemma_read_register_as_the_module(run, log, m, to, address);
    }
    reveal(Run::elapsed);
}

/// The wait for a command moved on in the record and left the state of the
/// interface as it was, and left the module as it was.
pub proof fn lemma_poll_busy_steps(run: Run, log: Seq<Event>, to: int, m: Module, budget: nat)
    requires
        run.live(),
        run.poll_busy(log, budget).run.live(),
    ensures
        run.poll_busy(log, budget).run.at >= run.at + 2,
        run.poll_busy(log, budget).run.state == run.state,
        went_along(run, run.poll_busy(log, budget).run, log, to, m, forgetful(m)),
    decreases budget,
{
    broadcast use crate::abstract_command::group_abstract_command;
    let status = run.read_register(log, ABSTRACTCS as u64);
    lemma_leaf_steps(run, log, to, m, ABSTRACTCS as u64, 0);
    if crate::registers::Abstractcs(status.value).spec_busy() {
        let clock = status.run.elapsed(log);
        lemma_leaf_steps(status.run, log, to, forgetful(m), ABSTRACTCS as u64, 0);
        lemma_poll_busy_steps(clock.run, log, to, forgetful(m), (budget - 1) as nat);
    }
}

/// An abstract command that went well moved on in the record and left the
/// state of the interface as it was, and the module has run the command.
pub proof fn lemma_execute_abstract_command_steps(
    run: Run,
    log: Seq<Event>,
    to: int,
    m: Module,
    command: u32,
)
    requires
        run.live(),
        run.execute_abstract_command(log, command).live(),
    ensures
        run.execute_abstract_command(log, command).at >= run.at + 6,
        run.execute_abstract_command(log, command).state == run.state,
        went_along(
            run,
            run.execute_abstract_command(log, command),
            log,
            to,
            m,
            forgetful(m.command(command)),
        ),
{
    broadcast use crate::abstract_command::group_abstract_command;
    reveal(Run::execute_abstract_command);
    let prepared = run.write_register(log, DMCONTROL as u64, Dmcontrol::spec_for_abstract_command());
    lemma_leaf_steps(run, log, to, m, DMCONTROL as u64, Dmcontrol::spec_for_abstract_command());
    let before = prepared.read_register(log, ABSTRACTCS as u64);
    lemma_leaf_steps(prepared, log, to, m, ABSTRACTCS as u64, 0);
    let cleared = if crate::registers::Abstractcs(before.value).spec_cmderr() != 0 {
        before.run.write_register(
            log,
            ABSTRACTCS as u64,
            crate::registers::Abstractcs::spec_clear_cmderr(),
        )
    } else {
        before.run
    };
    lemma_leaf_steps(
        before.run,
        log,
        to,
        forgetful(m),
        ABSTRACTCS as u64,
        crate::registers::Abstractcs::spec_clear_cmderr(),
    );
    let issued = cleared.write_register(log, COMMAND as u64, command);
    lemma_leaf_steps(cleared, log, to, forgetful(m), COMMAND as u64, command);
    lemma_command_forgetful(m, command);
    lemma_poll_busy_steps(
        issued,
        log,
        to,
        forgetful(m).command(command),
        crate::abstract_command::MAX_BUSY_POLLS as nat,
    );
}

/// A read of one of the registers `x0` to `x31` that went well moved on in
/// the record and left the state of the interface as it was, and brought
/// back the value that the register has in the module.
pub proof fn lemma_register_read_steps(run: Run, log: Seq<Event>, to: int, m: Module, regno: u16)
    requires
        run.live(),
        0x1000 <= regno < 0x1020,
        run.abstract_cmd_register_read(log, regno).run.live(),
    ensures
        run.abstract_cmd_register_read(log, regno).run.at >= run.at + 8,
        run.abstract_cmd_register_read(log, regno).run.state == run.state,
        went_along(
            run,
            run.abstract_cmd_register_read(log, regno).run,
            log,
            to,
            m,
            Module { pending: Some(m.x[regno - 0x1000]), data0: m.x[regno - 0x1000], ..m },
        ),
        run.abstract_cmd_register_read(log, regno).run.at <= to && m.after_all(log, run.at, to)
            is Some ==> run.abstract_cmd_register_read(log, regno).value == m.x[regno - 0x1000],
{
    broadcast use crate::abstract_command::group_abstract_command;
    reveal(Run::abstract_cmd_register_read);
    let command = AccessRegisterCommand::spec_transfer(regno, RiscvBusAccess::A32, false, false);
    AccessRegisterCommand::lemma_transfer_fields(regno, RiscvBusAccess::A32, false, false);
    let executed = run.execute_abstract_command(log, command);
    lemma_execute_abstract_command_steps(run, log, to, m, command);
    let moved = forgetful(m.command(command));
    assert(moved == forgetful(Module { data0: m.x[regno - 0x1000], ..m }));
    lemma_leaf_steps(executed, log, to, moved, DATA0 as u64, 0);
}

/// A write of a 32-bit value to one of the registers `x0` to `x31` that
/// went well moved on in the record and left the state of the interface as it
/// was, and the register has the value in the module.
pub proof fn lemma_register_write_steps(
    run: Run,
    log: Seq<Event>,
    to: int,
    m: Module,
    regno: u16,
    value: u32,
)
    requires
        run.live(),
        0x1000 <= regno < 0x1020,
        run.abstract_cmd_register_write(log, regno, value).live(),
    ensures
        run.abstract_cmd_register_write(log, regno, value).at >= run.at + 7,
        run.abstract_cmd_register_write(log, regno, value).state == run.state,
        went_along(
            run,
            run.abstract_cmd_register_write(log, regno, value),
            log,
            to,
            m,
            Module { pending: None, data0: value, x: m.x.update(regno - 0x1000, value), ..m },
        ),
{
    broadcast use crate::abstract_command::group_abstract_command;
    reveal(Run::abstract_cmd_register_write);
    reveal(Run::write_large);
    let command = AccessRegisterCommand::spec_transfer(regno, RiscvBusAccess::A32, true, false);
    AccessRegisterCommand::lemma_transfer_fields(regno, RiscvBusAccess::A32, true, false);
    let placed = run.write_register(log, DATA0 as u64, value);
    assert(placed == run.write_large(log, crate::registers::LargeRegister::Arg0, value));
    lemma_leaf_steps(run, log, to, m, DATA0 as u64, value);
    let held = Module { data0: value, ..m };
    lemma_execute_abstract_command_steps(placed, log, to, held, command);
    assert(held.command(command) == Module { x: m.x.update(regno - 0x1000, value), ..held });
}

} // verus!
