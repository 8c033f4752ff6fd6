//! What holds of every machine, proved from the model.
use vstd::prelude::*;

use crate::instruction::{decode_spec, Fault, Opcode};
use crate::machine::{Event, Int, Machine, RunResult, StepResult};

verus! {

/// A halted machine can always be run, and the run changes nothing and
/// reports `Finished`.
pub proof fn lemma_halted_run_is_idle(m: Machine)
    requires
        m.finished,
    ensures
        m.can_run(),
        m.run() == (m, RunResult::Finished),
{
    assert(m.run_within(0) == Some((m, RunResult::Finished)));
    m.lemma_run_is(0);
}

/// A run that reports `Finished` leaves the machine halted, so every later
/// run reports `Finished` again and leaves memory, registers and input as
/// they are.
pub proof fn lemma_finished_is_final(m: Machine)
    requires
        m.can_run(),
        m.run().1 == RunResult::Finished,
    ensures
        m.run().0.finished,
        m.run().0.can_run(),
        m.run().0.run() == (m.run().0, RunResult::Finished),
{
    let fuel = choose|fuel: nat| (#[trigger] m.run_within(fuel)) is Some;
    m.lemma_run_is(fuel);
    lemma_finished_within(m, fuel, m.run().0);
    lemma_halted_run_is_idle(m.run().0);
}

proof fn lemma_finished_within(m: Machine, fuel: nat, end: Machine)
    requires
        m.run_within(fuel) == Some((end, RunResult::Finished)),
    ensures
        end.finished,
    decreases fuel,
{
    match m.step() {
        Ok((next, StepResult::Continue)) => {
            lemma_finished_within(next, (fuel - 1) as nat, end);
        },
        _ => {},
    }
}

/// In a freshly loaded machine the cells of the program hold the program
/// and every other cell reads as zero.
pub proof fn lemma_loaded_memory(code: Seq<Int>, addr: Int)
    ensures
        Machine::loaded(code).read(addr) == if 0 <= addr < code.len() {
            code[addr as int]
        } else {
            0
        },
{
}

/// Pending input is no part of memory: submitting a value changes no cell.
pub proof fn lemma_input_keeps_memory(m: Machine, value: Int, addr: Int)
    ensures
        m.push_input(value).read(addr) == m.read(addr),
{
}

/// One instruction changes at most the cell it stores to, and submitting
/// input changes no cell.
pub proof fn lemma_event_keeps_other_cells(m: Machine, event: Event, addr: Int)
    requires
        event is Step ==> m.store_target() != Some(addr),
    ensures
        m.apply(event).read(addr) == m.read(addr),
{
}

/// A cell reads the same after any course of events in which no instruction
/// stores to it.
pub proof fn lemma_unwritten_cell_is_kept(m: Machine, events: Seq<Event>, addr: Int)
    requires
        forall|k: int|
            0 <= k < events.len() && events[k] is Step ==> (#[trigger] m.replay(
                events.take(k),
            )).store_target() != Some(addr),
    ensures
        m.replay(events).read(addr) == m.read(addr),
    decreases events.len(),
{
    if events.len() > 0 {
        let next = m.apply(events[0]);
        let rest = events.drop_first();
        assert(m.replay(events.take(0)) == m);
        lemma_event_keeps_other_cells(m, events[0], addr);
        assert forall|k: int| 0 <= k < rest.len() && rest[k] is Step implies (#[trigger] next.replay(
            rest.take(k),
        )).store_target() != Some(addr) by {
            assert(events.take(k + 1).drop_first() =~= rest.take(k));
            assert(events.take(k + 1)[0] == events[0]);
            assert(m.replay(events.take(k + 1)) == next.replay(rest.take(k)));
            assert(events[k + 1] == rest[k]);
        }
        lemma_unwritten_cell_is_kept(next, rest, addr);
    }
}

/// A cell beyond the program that no instruction has stored to reads as
/// zero, whatever the computer has done since it was loaded.
pub proof fn lemma_unwritten_cell_reads_zero(code: Seq<Int>, events: Seq<Event>, addr: Int)
    requires
        !(0 <= addr < code.len()),
        forall|k: int|
            0 <= k < events.len() && events[k] is Step ==> (#[trigger] Machine::loaded(code).replay(
                events.take(k),
            )).store_target() != Some(addr),
    ensures
        Machine::loaded(code).replay(events).read(addr) == 0,
{
    lemma_unwritten_cell_is_kept(Machine::loaded(code), events, addr);
}

/// The events that consist of `count` instructions.
pub open spec fn steps(count: nat) -> Seq<Event> {
    Seq::new(count, |i: int| Event::Step)
}

/// A run is a course of instructions: it leaves the machine where some
/// number of single steps leave it.
pub proof fn lemma_run_is_steps(m: Machine)
    requires
        m.can_run(),
    ensures
        exists|count: nat| m.run().0 == #[trigger] m.replay(steps(count)),
{
    let fuel = choose|fuel: nat| (#[trigger] m.run_within(fuel)) is Some;
    m.lemma_run_is(fuel);
    let count = lemma_run_within_is_steps(m, fuel, m.run().0, m.run().1);
    assert(m.run().0 == m.replay(steps(count)));
}

proof fn lemma_run_within_is_steps(m: Machine, fuel: nat, end: Machine, result: RunResult) -> (count:
    nat)
    requires
        m.run_within(fuel) == Some((end, result)),
    ensures
        end == m.replay(steps(count)),
    decreases fuel,
{
    match m.step() {
        Ok((next, StepResult::Continue)) => {
            let rest = lemma_run_within_is_steps(next, (fuel - 1) as nat, end, result);
            assert(steps(rest + 1).drop_first() =~= steps(rest));
            rest + 1
        },
        _ => {
            assert(steps(1).drop_first() =~= steps(0));
            reveal_with_fuel(Machine::replay, 2);
            1
        },
    }
}

/// The program that reads one value, writes it out and halts.
pub open spec fn echo_program() -> Seq<Int> {
    seq![3, 0, 4, 0, 99]
}

/// The echo program returns what it was given, whatever the value: its first
/// run ends with that value as output, its second with `Finished`.
pub proof fn lemma_echo(value: Int)
    ensures
        ({
            let start = Machine::loaded(echo_program()).push_input(value);
            &&& start.can_run()
            &&& start.run().1 == RunResult::Output(value)
            &&& start.run().0.can_run()
            &&& start.run().0.run().1 == RunResult::Finished
        }),
{
    let code = echo_program();
    let start = Machine::loaded(code).push_input(value);
    assert(code.len() == 5 && code[0] == 3 && code[1] == 0 && code[2] == 4 && code[3] == 0
        && code[4] == 99);

    assert(start.read(0) == 3 && start.read(1) == 0);
    assert(decode_spec(3) is Ok && decode_spec(3)->Ok_0.opcode == Opcode::Input);
    let stored = Machine { ip: 2, input: start.input.drop_first(), ..start }.write(0, value);
    assert(start.input[0] == value);
    assert(start.step() == Ok::<(Machine, StepResult), Fault>((stored, StepResult::Continue)));

    assert(stored.read(2) == 4 && stored.read(3) == 0 && stored.read(0) == value);
    assert(decode_spec(4) is Ok && decode_spec(4)->Ok_0.opcode == Opcode::Output);
    let written = Machine { ip: 4, ..stored };
    assert(stored.step() == Ok::<(Machine, StepResult), Fault>(
        (written, StepResult::Output(value)),
    ));
    assert(start.run_within(1) == Some((written, RunResult::Output(value)))) by {
        reveal_with_fuel(Machine::run_within, 2);
    }
    start.lemma_run_is(1);

    assert(written.read(4) == 99);
    assert(decode_spec(99) is Ok && decode_spec(99)->Ok_0.opcode == Opcode::Halt);
    let halted = Machine { ip: 5, finished: true, ..written };
    assert(written.step() == Ok::<(Machine, StepResult), Fault>((halted, StepResult::Finished)));
    assert(written.run_within(0) == Some((halted, RunResult::Finished)));
    written.lemma_run_is(0);
}

} // verus!
