//! The programs that the interface places in the program buffer, and what
//! the module makes of them.

use crate::assembly::EBREAK;
use crate::dtm::Event;
use crate::model::Module;
use crate::registers::PROGBUF0;
use crate::run::Run;
use crate::state::Model;
use crate::model::steps::{lemma_leaf_steps, went_along};
use vstd::prelude::*;

verus! {

/// The module with the words of `program` from `from` on in its program
/// buffer, each at its index.
pub open spec fn placed(m: Module, program: Seq<u32>, from: int) -> Module
    decreases program.len() - from,
{
    if from < 0 || from >= program.len() {
        m
    } else {
        placed(Module { progbuf: m.progbuf.update(from, program[from]), ..m }, program, from + 1)
    }
}

/// The module with `program` in its program buffer, and an `ebreak` behind
/// it where the interface writes one.
pub open spec fn with_program(m: Module, program: Seq<u32>, state: Model) -> Module {
    let held = placed(m, program, 0);
    if !state.implicit_ebreak || program.len() < state.progbuf_size {
        Module { progbuf: held.progbuf.update(program.len() as int, EBREAK), ..held }
    } else {
        held
    }
}

/// Placing words in the program buffer changes the program buffer alone,
/// and only where words are placed.
pub proof fn lemma_placed(m: Module, program: Seq<u32>, from: int)
    requires
        0 <= from <= program.len() <= m.progbuf.len(),
    ensures
        placed(m, program, from) == (Module { progbuf: placed(m, program, from).progbuf, ..m }),
        placed(m, program, from).progbuf.len() == m.progbuf.len(),
        forall|i: int|
            0 <= i < m.progbuf.len() ==> #[trigger] placed(m, program, from).progbuf[i] == if from
                <= i < program.len() {
                program[i]
            } else {
                m.progbuf[i]
            },
    decreases program.len() - from,
{
    if from < program.len() {
        lemma_placed(
            Module { progbuf: m.progbuf.update(from, program[from]), ..m },
            program,
            from + 1,
        );
    }
}

/// Words that were written to the program buffer moved on in the record and
/// left the state of the interface as it was, and the module holds them.
pub proof fn lemma_write_program_steps(
    run: Run,
    log: Seq<Event>,
    to: int,
    m: Module,
    program: Seq<u32>,
    from: int,
)
    requires
        run.live(),
        0 <= from <= program.len(),
        from <= 16,
        run.write_program(log, program, from).live(),
    ensures
        run.write_program(log, program, from).at >= run.at,
        run.write_program(log, program, from).state == run.state,
        went_along(
            run,
            run.write_program(log, program, from),
            log,
            to,
            m,
            placed(m, program, from),
        ),
    decreases program.len() - from,
{
    broadcast use crate::program_buffer::group_program_buffer;
    if from < program.len() {
        let next = run.write_progbuf(log, from as usize, program[from]);
        assert(run.write_program(log, program, from) == next.write_program(
            log,
            program,
            from + 1,
        ));
        assert(next.live());
        assert(from < 16);
        lemma_leaf_steps(run, log, to, m, (PROGBUF0 + from) as u64, program[from]);
        lemma_write_program_steps(
            next,
            log,
            to,
            Module { progbuf: m.progbuf.update(from, program[from]), ..m },
            program,
            from + 1,
        );
    }
}

/// A program that was written to the program buffer moved on in the record,
/// the state of the interface remembers it, and the module holds it.
pub proof fn lemma_setup_program_buffer_steps(
    run: Run,
    log: Seq<Event>,
    to: int,
    m: Module,
    program: Seq<u32>,
)
    requires
        run.live(),
        !run.state.cache_holds(program),
        run.setup_program_buffer(log, program).live(),
    ensures
        run.setup_program_buffer(log, program).at >= run.at,
        run.setup_program_buffer(log, program).state == run.state.with_cached(program),
        program.len() + (if run.state.implicit_ebreak {
            0int
        } else {
            1int
        }) <= run.state.progbuf_size,
        program.len() <= 16,
        went_along(
            run,
            run.setup_program_buffer(log, program),
            log,
            to,
            m,
            with_program(m, program, run.state),
        ),
{
    broadcast use crate::program_buffer::group_program_buffer;
    reveal(Run::setup_program_buffer);
    let written = run.write_program(log, program, 0);
    lemma_write_program_steps(run, log, to, m, program, 0);
    crate::program_buffer::lemma_write_program_fits(run, log, program, 0);
    if !run.state.implicit_ebreak || program.len() < run.state.progbuf_size {
        lemma_leaf_steps(
            written,
            log,
            to,
            placed(m, program, 0),
            (PROGBUF0 + program.len()) as u64,
            EBREAK,
        );
    }
}

/// The instructions that access a CSR differ from the break instruction,
/// and they are what they are.
pub proof fn lemma_csr_instructions(csr: u16, register: u8)
    requires
        csr < 4096,
        register < 32,
    ensures
        crate::assembly::spec_csrr(register, csr) != EBREAK,
        crate::assembly::spec_csrw(csr, register) != EBREAK,
        crate::assembly::spec_csrr(register, csr) != crate::assembly::spec_sw(0, 8, 2, 9),
        crate::assembly::spec_csrw(csr, register) != crate::assembly::spec_sw(0, 8, 2, 9),
        forall|m: Module| #[trigger]
            m.execute(crate::assembly::spec_csrr(register, csr)) == Some(
                Module { x: m.x.update(register as int, m.csrs[csr]), ..m },
            ),
        forall|m: Module| #[trigger]
            m.execute(crate::assembly::spec_csrw(csr, register)) == Some(
                Module { csrs: m.csrs.insert(csr, m.x[register as int]), ..m },
            ),
{
    crate::assembly::lemma_ebreak_encoding();
    crate::assembly::lemma_i_type_fields(crate::assembly::OPCODE_SYSTEM, 0, 0, 0, 1);
    crate::assembly::lemma_i_type_fields(
        crate::assembly::OPCODE_SYSTEM,
        0,
        crate::assembly::FUNCT3_CSRRS,
        register,
        csr,
    );
    crate::assembly::lemma_i_type_fields(
        crate::assembly::OPCODE_SYSTEM,
        register,
        crate::assembly::FUNCT3_CSRRW,
        0,
        csr,
    );
    crate::assembly::lemma_s_type_fields(crate::assembly::OPCODE_STORE, 8, 9, 2, 0);
}

/// The break instruction is none that the model executes, and a load and a
/// store of a word are what they are.
pub proof fn lemma_instructions(base: u8, other: u8)
    requires
        base < 32,
        other < 32,
    ensures
        crate::assembly::spec_lw(0, base, 2, other) != EBREAK,
        crate::assembly::spec_sw(0, base, 2, other) != EBREAK,
        crate::assembly::spec_lw(0, base, 2, other) != crate::assembly::spec_sw(0, 8, 2, 9),
        forall|m: Module| #[trigger]
            m.execute(crate::assembly::spec_lw(0, base, 2, other)) == Some(
                Module { x: m.x.update(other as int, m.memory[m.x[base as int]]), ..m },
            ),
        forall|m: Module| #[trigger]
            m.execute(crate::assembly::spec_sw(0, base, 2, other)) == Some(
                Module { memory: m.memory.insert(m.x[base as int], m.x[other as int]), ..m },
            ),
{
    crate::assembly::lemma_ebreak_encoding();
    crate::assembly::lemma_i_type_fields(crate::assembly::OPCODE_SYSTEM, 0, 0, 0, 1);
    crate::assembly::lemma_i_type_fields(crate::assembly::OPCODE_LOAD, base, 2, other, 0);
    crate::assembly::lemma_s_type_fields(crate::assembly::OPCODE_STORE, base, other, 2, 0);
    crate::assembly::lemma_s_type_fields(crate::assembly::OPCODE_STORE, 8, 9, 2, 0);
}

/// The program buffer of the module starts with `word`, and the hart stops
/// behind it, or behind the move of `s0` that a write of many words has
/// left behind the store.
pub open spec fn holds_program(m: Module, word: u32) -> bool {
    &&& m.size >= 1
    &&& m.progbuf[0] == word
    &&& m.size == 1 || m.progbuf[1] == EBREAK || moves_on_behind(m, word)
}

/// The instruction is the store of a word, and behind it the program buffer
/// holds the instruction that moves `s0` on and then stops: what a write
/// of many words has left there.
pub open spec fn moves_on_behind(m: Module, word: u32) -> bool {
    &&& word == crate::assembly::spec_sw(0, 8, 2, 9)
    &&& m.size >= 2
    &&& m.progbuf[1] == crate::assembly::spec_addi(8, 8, 4)
    &&& m.size == 2 || m.progbuf[2] == EBREAK
}

/// The module after the program that starts with `word` has run: the
/// instruction was executed, and `s0` was moved on where the program goes on
/// so.
pub open spec fn ran(m: Module, word: u32) -> Module {
    let one = m.execute(word)->0;
    if moves_on_behind(m, word) {
        Module { x: one.x.update(8, (one.x[8] + 4) as u32), ..one }
    } else {
        one
    }
}

/// The interface and the module agree on the program buffer: the module
/// executes as many words as the interface takes the buffer to have, and
/// where the interface takes the buffer to start with `word`, it does and
/// the hart stops behind the word.
pub open spec fn ready(state: Model, m: Module, word: u32) -> bool {
    &&& state.wf()
    &&& m.wf()
    &&& m.size == state.progbuf_size
    &&& state.cache_holds(seq![word]) ==> holds_program(m, word)
}

/// A program of one instruction runs that instruction and stops, or moves
/// `s0` on before it stops.
pub proof fn lemma_single_instruction_runs(m: Module, word: u32)
    requires
        m.wf(),
        holds_program(m, word),
        word != EBREAK,
        m.execute(word) is Some,
        m.execute(word)->0.progbuf == m.progbuf,
        m.execute(word)->0.size == m.size,
        m.execute(word)->0.x.len() == m.x.len(),
    ensures
        m.run_program(0) == ran(m, word),
{
    lemma_move_on();
    let one = m.execute(word)->0;
    if moves_on_behind(m, word) {
        let two = one.execute(crate::assembly::spec_addi(8, 8, 4))->0;
        assert(two.run_program(2) == two);
        assert(one.run_program(1) == two);
    } else {
        assert(one.run_program(1) == one);
    }
}

/// The module once the interface has set up a program of one instruction:
/// the program is placed unless the interface takes the buffer to hold it.
pub open spec fn set_up(m: Module, word: u32, state: Model) -> Module {
    if state.cache_holds(seq![word]) {
        m
    } else {
        with_program(m, seq![word], state)
    }
}

/// The state of the interface once it has set up a program of one
/// instruction: the program is remembered.
pub open spec fn knowing(state: Model, word: u32) -> Model {
    if state.cache_holds(seq![word]) {
        state
    } else {
        state.with_cached(seq![word])
    }
}

/// Setting a program of one instruction up changes the program buffer
/// alone, in the same way whatever else the module holds, and the module
/// holds the program then. The interface knows, and takes the buffer to
/// start with no other word.
pub proof fn lemma_set_up(m: Module, other: Module, word: u32, state: Model)
    requires
        ready(state, m, word),
        other.progbuf == m.progbuf,
        1 + (if state.implicit_ebreak {
            0int
        } else {
            1int
        }) <= state.progbuf_size,
    ensures
        holds_program(set_up(m, word, state), word),
        set_up(m, word, state) == (Module { progbuf: set_up(m, word, state).progbuf, ..m }),
        set_up(m, word, state).progbuf.len() == 16,
        set_up(other, word, state).progbuf == set_up(m, word, state).progbuf,
        knowing(state, word).wf(),
        knowing(state, word).progbuf_size == state.progbuf_size,
        knowing(state, word).implicit_ebreak == state.implicit_ebreak,
        knowing(state, word).access == state.access,
        forall|any: u32| #[trigger]
            knowing(state, word).cache_holds(seq![any]) <==> any == word,
{
    let program = seq![word];
    lemma_placed(m, program, 0);
    lemma_placed(other, program, 0);
    assert(set_up(other, word, state).progbuf =~= set_up(m, word, state).progbuf);
    assert forall|any: u32| #[trigger]
        knowing(state, word).cache_holds(seq![any]) <==> any == word by {
        let cache = knowing(state, word).progbuf_cache;
        assert(cache.len() == 16);
        if state.cache_holds(program) {
            assert(state.progbuf_cache.subrange(0, 1)[0] == program[0]);
        }
        assert(cache[0] == word);
        if knowing(state, word).cache_holds(seq![any]) {
            assert(cache.subrange(0, 1)[0] == seq![any][0]);
        }
        if any == word {
            assert(cache.subrange(0, 1) =~= seq![any]);
        }
    }
}

/// A program of one instruction that the interface has set up moved on in
/// the record, the interface remembers it, and the module holds it.
pub proof fn lemma_setup_instruction_steps(run: Run, log: Seq<Event>, to: int, m: Module, word: u32)
    requires
        run.live(),
        ready(run.state, m, word),
        run.setup_program_buffer(log, seq![word]).live(),
    ensures
        run.setup_program_buffer(log, seq![word]).at >= run.at,
        run.setup_program_buffer(log, seq![word]).state == knowing(run.state, word),
        1 + (if run.state.implicit_ebreak {
            0int
        } else {
            1int
        }) <= run.state.progbuf_size,
        went_along(
            run,
            run.setup_program_buffer(log, seq![word]),
            log,
            to,
            m,
            set_up(m, word, run.state),
        ),
{
    let program = seq![word];
    reveal(Run::setup_program_buffer);
    if !run.state.cache_holds(program) {
        lemma_setup_program_buffer_steps(run, log, to, m, program);
    }
}

/// The program buffer of the module starts with the two instructions, and
/// the hart stops behind them.
pub open spec fn holds_pair(m: Module, first: u32, second: u32) -> bool {
    &&& m.size >= 2
    &&& m.progbuf[0] == first
    &&& m.progbuf[1] == second
    &&& m.size == 2 || m.progbuf[2] == EBREAK
}

/// The interface and the module agree on the program buffer, as far as the
/// interface takes the buffer to start with the two instructions.
pub open spec fn ready_pair(state: Model, m: Module, first: u32, second: u32) -> bool {
    &&& state.wf()
    &&& m.wf()
    &&& m.size == state.progbuf_size
    &&& state.cache_holds(seq![first, second]) ==> holds_pair(m, first, second)
}

/// The module once the interface has set up a program of two instructions.
pub open spec fn set_up_pair(m: Module, first: u32, second: u32, state: Model) -> Module {
    if state.cache_holds(seq![first, second]) {
        m
    } else {
        with_program(m, seq![first, second], state)
    }
}

/// The state of the interface once it has set up a program of two
/// instructions.
pub open spec fn knowing_pair(state: Model, first: u32, second: u32) -> Model {
    if state.cache_holds(seq![first, second]) {
        state
    } else {
        state.with_cached(seq![first, second])
    }
}

/// Setting a program of two instructions up changes the program buffer
/// alone, in the same way whatever else the module holds, and the module
/// holds the program then.
pub proof fn lemma_set_up_pair(m: Module, other: Module, first: u32, second: u32, state: Model)
    requires
        ready_pair(state, m, first, second),
        other.progbuf == m.progbuf,
        2 + (if state.implicit_ebreak {
            0int
        } else {
            1int
        }) <= state.progbuf_size,
    ensures
        holds_pair(set_up_pair(m, first, second, state), first, second),
        set_up_pair(m, first, second, state) == (Module {
            progbuf: set_up_pair(m, first, second, state).progbuf,
            ..m
        }),
        set_up_pair(m, first, second, state).progbuf.len() == 16,
        set_up_pair(other, first, second, state).progbuf == set_up_pair(
            m,
            first,
            second,
            state,
        ).progbuf,
        knowing_pair(state, first, second).wf(),
        knowing_pair(state, first, second).progbuf_size == state.progbuf_size,
        knowing_pair(state, first, second).implicit_ebreak == state.implicit_ebreak,
        knowing_pair(state, first, second).access == state.access,
{
    let program = seq![first, second];
    lemma_placed(m, program, 0);
    lemma_placed(other, program, 0);
    assert(set_up_pair(other, first, second, state).progbuf =~= set_up_pair(
        m,
        first,
        second,
        state,
    ).progbuf);
}

/// A program of two instructions that the interface has set up moved on in
/// the record, the interface remembers it, and the module holds it.
pub proof fn lemma_setup_pair_steps(
    run: Run,
    log: Seq<Event>,
    to: int,
    m: Module,
    first: u32,
    second: u32,
)
    requires
        run.live(),
        ready_pair(run.state, m, first, second),
        run.setup_program_buffer(log, seq![first, second]).live(),
    ensures
        run.setup_program_buffer(log, seq![first, second]).at >= run.at,
        run.setup_program_buffer(log, seq![first, second]).state == knowing_pair(
            run.state,
            first,
            second,
        ),
        2 + (if run.state.implicit_ebreak {
            0int
        } else {
            1int
        }) <= run.state.progbuf_size,
        went_along(
            run,
            run.setup_program_buffer(log, seq![first, second]),
            log,
            to,
            m,
            set_up_pair(m, first, second, run.state),
        ),
{
    let program = seq![first, second];
    reveal(Run::setup_program_buffer);
    if !run.state.cache_holds(program) {
        lemma_setup_program_buffer_steps(run, log, to, m, program);
    }
}

/// A program of two instructions runs the one and then the other, and stops.
pub proof fn lemma_pair_runs(m: Module, first: u32, second: u32)
    requires
        m.wf(),
        holds_pair(m, first, second),
        first != EBREAK,
        second != EBREAK,
        m.execute(first) is Some,
        m.execute(first)->0.progbuf == m.progbuf,
        m.execute(first)->0.size == m.size,
        m.execute(first)->0.execute(second) is Some,
        m.execute(first)->0.execute(second)->0.progbuf == m.progbuf,
        m.execute(first)->0.execute(second)->0.size == m.size,
    ensures
        m.run_program(0) == m.execute(first)->0.execute(second)->0,
{
    let one = m.execute(first)->0;
    let two = one.execute(second)->0;
    assert(two.run_program(2) == two);
    assert(one.run_program(1) == two);
}

/// The instruction that moves `s0` on by a word is what it is.
pub proof fn lemma_move_on()
    ensures
        crate::assembly::spec_addi(8, 8, 4) != EBREAK,
        forall|m: Module| #[trigger]
            m.execute(crate::assembly::spec_addi(8, 8, 4)) == Some(
                Module { x: m.x.update(8, (m.x[8] + 4) as u32), ..m },
            ),
{
    crate::assembly::lemma_ebreak_encoding();
    crate::assembly::lemma_i_type_fields(crate::assembly::OPCODE_SYSTEM, 0, 0, 0, 1);
    crate::assembly::lemma_i_type_fields(
        crate::assembly::OPCODE_OP_IMM,
        8,
        crate::assembly::FUNCT3_ADDI,
        8,
        4,
    );
}

} // verus!
