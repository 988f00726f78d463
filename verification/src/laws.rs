//! What holds of every store: laws of the instructions, stated over their
//! effects.

use vstd::prelude::*;
use crate::address::{address_at, cell_at, value_at};
use crate::code::{Actions, Code, Fault};
use crate::instruction::{
    arith,
    arith_effect,
    binary_operands,
    effect_of,
    flipped,
    persisting,
    wrapped,
    Arith,
    Effect,
};
use crate::program::{applied, stepped, ProgramView, Status};

verus! {

/// The number that a data cell holds: an integer itself, a character's code.
pub open spec fn scalar_value(cell: Code) -> int {
    match cell {
        Code::IntData(i) => i as int,
        Code::CharData(c) => c as int,
        _ => 0,
    }
}

/// An integer that fits in a cell is not changed by wrapping.
pub proof fn law_wrapped_in_range(n: int)
    requires
        0 <= n <= usize::MAX,
    ensures
        wrapped(n) == n,
{
    vstd::arithmetic::div_mod::lemma_small_mod(n as nat, (usize::MAX + 1) as nat);
}

/// After a copy the destination reads as the source's value read before it,
/// and every other address reads as it did before.
pub proof fn law_copy_reads_back(mem: Seq<Code>, src_addr: usize, dst_addr: usize)
    requires
        effect_of(Code::Copy(src_addr, dst_addr), mem) is Ok,
    ensures
        ({
            let after = effect_of(Code::Copy(src_addr, dst_addr), mem)->Ok_0.mem;
            let dst = address_at(mem, dst_addr)->Ok_0;
            &&& address_at(mem, dst_addr) is Ok
            &&& cell_at(after, dst) == value_at(mem, src_addr)
            &&& forall|a: usize| a != dst ==> cell_at(after, a) == cell_at(mem, a)
        }),
{
}

/// A swap is its own inverse: carried out twice, it leaves the store as it
/// was, provided that neither of the two cells that name the addresses is
/// itself one of the cells exchanged.
pub proof fn law_swap_twice(mem: Seq<Code>, a_addr: usize, b_addr: usize)
    requires
        effect_of(Code::Swap(a_addr, b_addr), mem) is Ok,
        address_at(mem, a_addr) != Ok::<usize, Fault>(a_addr),
        address_at(mem, a_addr) != Ok::<usize, Fault>(b_addr),
        address_at(mem, b_addr) != Ok::<usize, Fault>(a_addr),
        address_at(mem, b_addr) != Ok::<usize, Fault>(b_addr),
    ensures
        ({
            let once = effect_of(Code::Swap(a_addr, b_addr), mem)->Ok_0.mem;
            effect_of(Code::Swap(a_addr, b_addr), once) == Ok::<Effect, Fault>(persisting(mem))
        }),
{
    let once = effect_of(Code::Swap(a_addr, b_addr), mem)->Ok_0.mem;
    let a = address_at(mem, a_addr)->Ok_0;
    let b = address_at(mem, b_addr)->Ok_0;
    let twice = once.update(a as int, once[b as int]).update(b as int, once[a as int]);
    assert(twice =~= mem);
}

/// A binary operation that succeeds writes an integer, the result, in place
/// of its right operand, and changes no other cell.
pub proof fn law_arithmetic_writes_integer(
    mem: Seq<Code>,
    op: Arith,
    left_addr: usize,
    right_addr: usize,
)
    requires
        arith_effect(mem, op, left_addr, right_addr) is Ok,
    ensures
        ({
            let after = arith_effect(mem, op, left_addr, right_addr)->Ok_0.mem;
            let (left, right, dst) = binary_operands(mem, left_addr, right_addr)->Ok_0;
            &&& binary_operands(mem, left_addr, right_addr) is Ok
            &&& arith(op, left, right) is Ok
            &&& cell_at(after, dst) == Ok::<Code, Fault>(Code::IntData(arith(op, left, right)->Ok_0))
            &&& forall|a: usize| a != dst ==> cell_at(after, a) == cell_at(mem, a)
        }),
{
}

/// A division whose divisor resolves to zero fails with a division by zero,
/// so it has no effect on the store.
pub proof fn law_division_by_zero(mem: Seq<Code>, left_addr: usize, right_addr: usize)
    requires
        binary_operands(mem, left_addr, right_addr) is Ok,
        binary_operands(mem, left_addr, right_addr)->Ok_0.1 == 0,
    ensures
        effect_of(Code::Div(left_addr, right_addr), mem) == Err::<Effect, Fault>(Fault::DivisionByZero),
{
}

/// On one cell a flip of type is its own inverse, as long as the number that
/// the cell holds is at most 255.
pub proof fn law_flip_cell_twice(cell: Code)
    requires
        cell is IntData || cell is CharData,
        scalar_value(cell) <= 255,
    ensures
        flipped(cell) is Some,
        flipped(flipped(cell)->0) == Some(cell),
{
}

/// In a store a flip of type is its own inverse: carried out twice, it leaves
/// the store as it was, as long as the number in the cell flipped is at most
/// 255 and that cell is not the one that names its address.
pub proof fn law_flip_type_twice(mem: Seq<Code>, cell_addr: usize)
    requires
        effect_of(Code::FlipType(cell_addr), mem) is Ok,
        address_at(mem, cell_addr) != Ok::<usize, Fault>(cell_addr),
        scalar_value(value_at(mem, cell_addr)->Ok_0) <= 255,
    ensures
        ({
            let once = effect_of(Code::FlipType(cell_addr), mem)->Ok_0.mem;
            effect_of(Code::FlipType(cell_addr), once) == Ok::<Effect, Fault>(persisting(mem))
        }),
{
    let once = effect_of(Code::FlipType(cell_addr), mem)->Ok_0.mem;
    let target = address_at(mem, cell_addr)->Ok_0;
    law_flip_cell_twice(mem[target as int]);
    assert(once.update(target as int, mem[target as int]) =~= mem);
}

/// A deletion makes the store one cell shorter: the cells before the one
/// deleted stay where they are, and each cell behind it moves down by one
/// address.
pub proof fn law_delete_shifts(mem: Seq<Code>, target_addr: usize)
    requires
        effect_of(Code::Del(target_addr), mem) is Ok,
    ensures
        ({
            let after = effect_of(Code::Del(target_addr), mem)->Ok_0.mem;
            let target = address_at(mem, target_addr)->Ok_0;
            &&& address_at(mem, target_addr) is Ok
            &&& target < mem.len()
            &&& after.len() == mem.len() - 1
            &&& forall|a: int| 0 <= a < target ==> after[a] == mem[a]
            &&& forall|a: int| target < a < mem.len() ==> after[a - 1] == mem[a]
        }),
{
}

/// Only a deletion changes the length of the store, and only a print writes
/// anything out; a print changes no cell and asks for nothing.
pub proof fn law_only_delete_resizes(inst: Code, mem: Seq<Code>)
    requires
        effect_of(inst, mem) is Ok,
    ensures
        ({
            let effect = effect_of(inst, mem)->Ok_0;
            &&& !(inst is Del) ==> effect.mem.len() == mem.len()
            &&& !(inst is Print) ==> effect.output == Seq::<char>::empty()
            &&& inst is Print ==> effect.mem == mem && effect.actions == Seq::<Actions>::empty()
        }),
{
}

/// An exit ends a list of actions: what stands behind it changes nothing.
pub proof fn law_exit_ends_actions(
    counter: usize,
    before: Seq<Actions>,
    code: i32,
    behind: Seq<Actions>,
)
    ensures
        applied(counter, before.push(Actions::Exit(code)) + behind) == applied(
            counter,
            before.push(Actions::Exit(code)),
        ),
        applied(counter, before.push(Actions::Exit(code))).exit is Some,
    decreases before.len(),
{
    let short = before.push(Actions::Exit(code));
    let long = short + behind;
    if before.len() > 0 {
        assert(short.drop_first() =~= before.drop_first().push(Actions::Exit(code)));
        assert(long.drop_first() =~= before.drop_first().push(Actions::Exit(code)) + behind);
        match before[0] {
            Actions::Jump(address) => {
                law_exit_ends_actions(address, before.drop_first(), code, behind);
            },
            Actions::Exit(_) => {},
            Actions::Sync => {
                law_exit_ends_actions(counter, before.drop_first(), code, behind);
            },
        }
    }
}

/// A run that has ended stays ended: a further step changes nothing, asks
/// for nothing, and reports the same exit code.
pub proof fn law_ended_run_stays_ended(pre: ProgramView)
    ensures
        stepped(pre).status != Status::Running ==> stepped(pre).program.exit is Some,
        stepped(pre).program.exit is Some ==> {
            let after = stepped(pre).program;
            &&& stepped(after).program == after
            &&& stepped(after).persists == 0
            &&& stepped(after).output == Seq::<char>::empty()
            &&& stepped(after).status == Status::Exited(after.exit->0)
        },
{
}

/// A run whose counter stands behind the last cell ends cleanly, with exit
/// code 0 and the store as it was.
pub proof fn law_counter_behind_store_ends_run(pre: ProgramView)
    requires
        pre.exit is None,
        pre.counter >= pre.code.len(),
    ensures
        stepped(pre).status == Status::Exited(0),
        stepped(pre).program.code == pre.code,
        stepped(pre).persists == 0,
{
}

/// The counter advances before the cell is carried out: a cell that asks for
/// nothing leaves it one behind the cell, and a jump, which is absolute, puts
/// its target in place of that.
pub proof fn law_jump_overrides_advance(pre: ProgramView)
    requires
        pre.exit is None,
        pre.counter < pre.code.len() <= usize::MAX,
        effect_of(pre.code[pre.counter as int], pre.code) is Ok,
    ensures
        ({
            let actions = effect_of(pre.code[pre.counter as int], pre.code)->Ok_0.actions;
            let after = stepped(pre).program;
            &&& actions == Seq::<Actions>::empty() ==> after.counter == pre.counter + 1
            &&& actions == seq![Actions::Sync] ==> after.counter == pre.counter + 1
            &&& forall|target: usize|
                actions == seq![Actions::Jump(target)] ==> after.counter == target
        }),
{
    reveal_with_fuel(applied, 2);
}

/// A failure ends the run with exit code 1 and leaves the store as it was.
pub proof fn law_failure_ends_run(pre: ProgramView)
    requires
        pre.exit is None,
        pre.counter < pre.code.len(),
        effect_of(pre.code[pre.counter as int], pre.code) is Err,
    ensures
        stepped(pre).status == Status::Failed(
            effect_of(pre.code[pre.counter as int], pre.code)->Err_0,
        ),
        stepped(pre).program.exit == Some(1i32),
        stepped(pre).program.code == pre.code,
        stepped(pre).persists == 0,
{
}

} // verus!
