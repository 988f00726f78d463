//! Instruction semantics: what carrying out one cell does to the program
//! store, what it writes out, and what it asks of the loop that drives it.
//!
//! An instruction resolves all its operands before it writes anything, so one
//! that fails leaves the store and the output as they were.

use vstd::prelude::*;
use crate::address::{
    address_at,
    cell_at,
    int_value_at,
    read_from_address,
    read_from_address_address,
    read_int_from_address,
    read_int_from_address_address,
    value_at,
};
use crate::code::{Actions, Code, Fault};
use crate::text::{decimal, push_decimal};

verus! {

/// What carrying out one instruction comes to.
pub struct Effect {
    /// The program store afterwards.
    pub mem: Seq<Code>,
    /// What the instruction asks of the loop, in order.
    pub actions: Seq<Actions>,
    /// What the instruction writes out.
    pub output: Seq<char>,
}

/// The binary operations on integers.
#[derive(Debug, Clone, Copy, PartialEq, Eq, Structural)]
pub enum Arith {
    Add,
    Sub,
    Mul,
    Div,
}

/// `n` brought into the range of a cell's integer: arithmetic on cells wraps
/// around at the width of `usize`.
pub open spec fn wrapped(n: int) -> usize {
    (n % (usize::MAX + 1)) as usize
}

/// The result of a binary operation. Only a division can fail, and only by a
/// divisor of zero.
pub open spec fn arith(op: Arith, left: usize, right: usize) -> Result<usize, Fault> {
    match op {
        Arith::Add => Ok(wrapped(left + right)),
        Arith::Sub => Ok(wrapped(left - right)),
        Arith::Mul => Ok(wrapped(left * right)),
        Arith::Div => if right == 0 {
            Err(Fault::DivisionByZero)
        } else {
            Ok((left / right) as usize)
        },
    }
}

/// The cell that a flip of type turns `cell` into: an integer becomes the
/// character whose code is that integer modulo 256, a character becomes its
/// code. Other cells cannot be flipped.
pub open spec fn flipped(cell: Code) -> Option<Code> {
    match cell {
        Code::IntData(i) => Some(Code::CharData((i % 256) as char)),
        Code::CharData(c) => Some(Code::IntData(c as usize)),
        _ => None,
    }
}

/// What a cell looks like when it is written out, where it can be.
pub open spec fn printed(cell: Code) -> Option<Seq<char>> {
    match cell {
        Code::IntData(i) => Some(decimal(i as nat)),
        Code::CharData(c) => Some(seq![c]),
        _ => None,
    }
}

/// The store becomes `mem`, and is to be written back.
pub open spec fn persisting(mem: Seq<Code>) -> Effect {
    Effect { mem, actions: seq![Actions::Sync], output: Seq::empty() }
}

/// The store stays `mem`, and the run continues at `target`.
pub open spec fn jumping(mem: Seq<Code>, target: usize) -> Effect {
    Effect { mem, actions: seq![Actions::Jump(target)], output: Seq::empty() }
}

/// Nothing changes, and nothing is asked for but `actions`.
pub open spec fn asking(mem: Seq<Code>, actions: Seq<Actions>) -> Effect {
    Effect { mem, actions, output: Seq::empty() }
}

/// A flip of type: the cell at the address that the cell at `cell_addr` holds
/// is flipped, and the store is to be written back. It fails where that cell
/// is neither an integer nor a character.
pub open spec fn flip_type_effect(mem: Seq<Code>, cell_addr: usize) -> Result<Effect, Fault> {
    match address_at(mem, cell_addr) {
        Err(fault) => Err(fault),
        Ok(target) => match cell_at(mem, target) {
            Err(fault) => Err(fault),
            Ok(cell) => match flipped(cell) {
                Some(turned) => Ok(persisting(mem.update(target as int, turned))),
                None => Err(Fault::TypeMismatch(target)),
            },
        },
    }
}

/// A jump to the address that the cell at `target_addr` holds.
pub open spec fn jump_addr_effect(mem: Seq<Code>, target_addr: usize) -> Result<Effect, Fault> {
    match address_at(mem, target_addr) {
        Err(fault) => Err(fault),
        Ok(target) => Ok(jumping(mem, target)),
    }
}

/// The operand of a three-way branch that names the target: `lt` where
/// `left` is the smaller, `gt` where it is the larger, `eq` where the two are
/// equal.
pub open spec fn branch(left: usize, right: usize, lt: usize, eq: usize, gt: usize) -> usize {
    if left < right {
        lt
    } else if left > right {
        gt
    } else {
        eq
    }
}

/// A three-way branch on the integers that the first two operands name. Only
/// the operand of the branch taken is resolved.
pub open spec fn jump_addr_cmp_effect(
    mem: Seq<Code>,
    left_addr: usize,
    right_addr: usize,
    lt: usize,
    eq: usize,
    gt: usize,
) -> Result<Effect, Fault> {
    match int_value_at(mem, left_addr) {
        Err(fault) => Err(fault),
        Ok(left) => match int_value_at(mem, right_addr) {
            Err(fault) => Err(fault),
            Ok(right) => jump_addr_effect(mem, branch(left, right, lt, eq, gt)),
        },
    }
}

/// A swap: the cells at the two addresses that the cells at `a_addr` and
/// `b_addr` hold change places, and the store is to be written back.
pub open spec fn swap_effect(mem: Seq<Code>, a_addr: usize, b_addr: usize) -> Result<
    Effect,
    Fault,
> {
    match address_at(mem, a_addr) {
        Err(fault) => Err(fault),
        Ok(a) => match address_at(mem, b_addr) {
            Err(fault) => Err(fault),
            Ok(b) => match cell_at(mem, a) {
                Err(fault) => Err(fault),
                Ok(at_a) => match cell_at(mem, b) {
                    Err(fault) => Err(fault),
                    Ok(at_b) => Ok(persisting(mem.update(a as int, at_b).update(b as int, at_a))),
                },
            },
        },
    }
}

/// A copy: the cell that `src_addr` names, read through two addresses, takes
/// the place of the cell at the address that the cell at `dst_addr` holds, and
/// the store is to be written back. The destination is resolved first, then
/// the source; the write fails where the destination lies behind the last
/// cell.
pub open spec fn copy_effect(mem: Seq<Code>, src_addr: usize, dst_addr: usize) -> Result<
    Effect,
    Fault,
> {
    match address_at(mem, dst_addr) {
        Err(fault) => Err(fault),
        Ok(dst) => match value_at(mem, src_addr) {
            Err(fault) => Err(fault),
            Ok(cell) => if dst < mem.len() {
                Ok(persisting(mem.update(dst as int, cell)))
            } else {
                Err(Fault::OutOfRange(dst))
            },
        },
    }
}

/// The operands of a binary operation: the left integer, the right integer,
/// and the address of the right one, which is where the result goes.
pub open spec fn binary_operands(mem: Seq<Code>, left_addr: usize, right_addr: usize) -> Result<
    (usize, usize, usize),
    Fault,
> {
    match int_value_at(mem, left_addr) {
        Err(fault) => Err(fault),
        Ok(left) => match address_at(mem, right_addr) {
            Err(fault) => Err(fault),
            Ok(dst) => match address_at(mem, dst) {
                Err(fault) => Err(fault),
                Ok(right) => Ok((left, right, dst)),
            },
        },
    }
}

/// A binary operation: the result takes the place of the right operand, and
/// the store is to be written back.
pub open spec fn arith_effect(mem: Seq<Code>, op: Arith, left_addr: usize, right_addr: usize)
    -> Result<Effect, Fault> {
    match binary_operands(mem, left_addr, right_addr) {
        Err(fault) => Err(fault),
        Ok((left, right, dst)) => match arith(op, left, right) {
            Err(fault) => Err(fault),
            Ok(result) => Ok(persisting(mem.update(dst as int, Code::IntData(result)))),
        },
    }
}

/// A deletion: the cell at the address that the cell at `target_addr` holds
/// leaves the store, and the store is to be written back.
pub open spec fn del_effect(mem: Seq<Code>, target_addr: usize) -> Result<Effect, Fault> {
    match address_at(mem, target_addr) {
        Err(fault) => Err(fault),
        Ok(target) => if target < mem.len() {
            Ok(persisting(mem.remove(target as int)))
        } else {
            Err(Fault::OutOfRange(target))
        },
    }
}

/// A print: the integer or the character at the address that the cell at
/// `target_addr` holds is written out. Nothing is asked of the loop.
pub open spec fn print_effect(mem: Seq<Code>, target_addr: usize) -> Result<Effect, Fault> {
    match address_at(mem, target_addr) {
        Err(fault) => Err(fault),
        Ok(target) => match cell_at(mem, target) {
            Err(fault) => Err(fault),
            Ok(cell) => match printed(cell) {
                Some(output) => Ok(Effect { mem, actions: Seq::empty(), output }),
                None => Err(Fault::TypeMismatch(target)),
            },
        },
    }
}

/// What carrying out the cell `inst` on the store `mem` comes to. Data cells
/// and the placeholder do nothing.
pub open spec fn effect_of(inst: Code, mem: Seq<Code>) -> Result<Effect, Fault> {
    match inst {
        Code::Nop | Code::IntData(_) | Code::CharData(_) => Ok(asking(mem, Seq::empty())),
        Code::FlipType(cell_addr) => flip_type_effect(mem, cell_addr),
        Code::Jump(target) => Ok(jumping(mem, target)),
        Code::JumpAddr(target_addr) => jump_addr_effect(mem, target_addr),
        Code::JumpAddrCmp(left, right, lt, eq, gt) => jump_addr_cmp_effect(
            mem,
            left,
            right,
            lt,
            eq,
            gt,
        ),
        Code::Swap(a_addr, b_addr) => swap_effect(mem, a_addr, b_addr),
        Code::Copy(src_addr, dst_addr) => copy_effect(mem, src_addr, dst_addr),
        Code::Add(left, right) => arith_effect(mem, Arith::Add, left, right),
        Code::Sub(left, right) => arith_effect(mem, Arith::Sub, left, right),
        Code::Mul(left, right) => arith_effect(mem, Arith::Mul, left, right),
        Code::Div(left, right) => arith_effect(mem, Arith::Div, left, right),
        Code::Del(target_addr) => del_effect(mem, target_addr),
        Code::Print(target_addr) => print_effect(mem, target_addr),
        Code::Exit(code) => Ok(asking(mem, seq![Actions::Exit(code)])),
    }
}

impl Arith {
    /// Carries out the operation.
    pub fn apply(self, left: usize, right: usize) -> (r: Result<usize, Fault>)
        ensures
            r == arith(self, left, right),
    {
        match self {
            Arith::Add => {
                let sum: usize = left.wrapping_add(right);
                assert(sum == wrapped(left + right)) by {
                    if left + right > usize::MAX {
                        vstd::arithmetic::div_mod::lemma_mod_sub_multiples_vanish(
                            left + right,
                            usize::MAX + 1,
                        );
                    }
                }
                Ok(sum)
            },
            Arith::Sub => {
                let difference: usize = left.wrapping_sub(right);
                assert(difference == wrapped(left - right)) by {
                    if left - right < 0 {
                        vstd::arithmetic::div_mod::lemma_mod_add_multiples_vanish(
                            left - right,
                            usize::MAX + 1,
                        );
                    }
                }
                Ok(difference)
            },
            Arith::Mul => Ok(left.wrapping_mul(right)),
            Arith::Div => if right == 0 {
                Err(Fault::DivisionByZero)
            } else {
                Ok(left / right)
            },
        }
    }
}

/// Resolves the operands of a binary operation: the left integer, the right
/// integer, and the address of the right one.
pub fn resolve_binary_int_operand_args(
    code: &Vec<Code>,
    left_addr_addr: &usize,
    right_addr_addr: &usize,
) -> (r: Result<(usize, usize, usize), Fault>)
    ensures
        r == binary_operands(code@, *left_addr_addr, *right_addr_addr),
{
    let left: usize = read_int_from_address_address(code, *left_addr_addr)?;
    let dst: usize = read_int_from_address(code, *right_addr_addr)?;
    let right: usize = read_int_from_address(code, dst)?;
    Ok((left, right, dst))
}

/// Carries out a binary operation: the result takes the place of the right
/// operand, and the store is to be written back.
pub fn run_binary_int_operation(
    code: &mut Vec<Code>,
    left_addr_addr: &usize,
    right_addr_addr: &usize,
    op: Arith,
) -> (r: Result<Vec<Actions>, Fault>)
    ensures
        match arith_effect(old(code)@, op, *left_addr_addr, *right_addr_addr) {
            Ok(effect) => r is Ok && r->Ok_0@ == effect.actions && final(code)@ == effect.mem,
            Err(fault) => r == Err::<Vec<Actions>, Fault>(fault) && final(code)@ == old(code)@,
        },
{
    let (left, right, dst) = resolve_binary_int_operand_args(code, left_addr_addr, right_addr_addr)?;
    let result: usize = op.apply(left, right)?;
    code[dst] = Code::IntData(result);
    Ok(vec![Actions::Sync])
}

impl Code {
    /// Carries out this cell on the program store `code`. What it writes out
    /// is appended to `out`; what it asks of the loop is returned, in order.
    /// Where it fails, neither `code` nor `out` has changed.
    pub fn run(&self, code: &mut Vec<Code>, out: &mut String) -> (r: Result<Vec<Actions>, Fault>)
        ensures
            match effect_of(*self, old(code)@) {
                Ok(effect) => {
                    &&& r is Ok
                    &&& r->Ok_0@ == effect.actions
                    &&& final(code)@ == effect.mem
                    &&& final(out)@ == old(out)@ + effect.output
                },
                Err(fault) => {
                    &&& r == Err::<Vec<Actions>, Fault>(fault)
                    &&& final(code)@ == old(code)@
                    &&& final(out)@ == old(out)@
                },
            },
    {
        match self {
            Code::FlipType(address_at) => {
                let address: usize = read_int_from_address(code, *address_at)?;
                let data: Code = *read_from_address(code, address)?;
                match data {
                    Code::IntData(i) => {
                        let low: u8 = (i % 256) as u8;
                        code[address] = Code::CharData(low as char);
                        Ok(vec![Actions::Sync])
                    },
                    Code::CharData(c) => {
                        code[address] = Code::IntData(c as usize);
                        Ok(vec![Actions::Sync])
                    },
                    _ => Err(Fault::TypeMismatch(address)),
                }
            },
            Code::Jump(addr) => Ok(vec![Actions::Jump(*addr)]),
            Code::JumpAddr(addr_addr) => {
                let addr: usize = read_int_from_address(code, *addr_addr)?;
                Ok(vec![Actions::Jump(addr)])
            },
            Code::JumpAddrCmp(left_addr_addr, right_addr_addr, lt_addr_addr, eq_addr_addr, gt_addr_addr) => {
                let left: usize = read_int_from_address_address(code, *left_addr_addr)?;
                let right: usize = read_int_from_address_address(code, *right_addr_addr)?;
                let jump_addr: usize = if left < right {
                    read_int_from_address(code, *lt_addr_addr)?
                } else if left > right {
                    read_int_from_address(code, *gt_addr_addr)?
                } else {
                    read_int_from_address(code, *eq_addr_addr)?
                };
                Ok(vec![Actions::Jump(jump_addr)])
            },
            Code::Swap(addr_addr_1, addr_addr_2) => {
                let addr_1: usize = read_int_from_address(code, *addr_addr_1)?;
                let addr_2: usize = read_int_from_address(code, *addr_addr_2)?;
                let data_1: Code = *read_from_address(code, addr_1)?;
                let data_2: Code = *read_from_address(code, addr_2)?;
                code[addr_1] = data_2;
                code[addr_2] = data_1;
                Ok(vec![Actions::Sync])
            },
            Code::Copy(addr_addr_1, addr_addr_2) => {
                let addr_2: usize = read_int_from_address(code, *addr_addr_2)?;
                let data_1: Code = *read_from_address_address(code, *addr_addr_1)?;
                if addr_2 >= code.len() {
                    return Err(Fault::OutOfRange(addr_2));
                }
                code[addr_2] = data_1;
                Ok(vec![Actions::Sync])
            },
            Code::Add(addr_addr_1, addr_addr_2) => run_binary_int_operation(
                code,
                addr_addr_1,
                addr_addr_2,
                Arith::Add,
            ),
            Code::Sub(addr_addr_1, addr_addr_2) => run_binary_int_operation(
                code,
                addr_addr_1,
                addr_addr_2,
                Arith::Sub,
            ),
            Code::Mul(addr_addr_1, addr_addr_2) => run_binary_int_operation(
                code,
                addr_addr_1,
                addr_addr_2,
                Arith::Mul,
            ),
            Code::Div(addr_addr_1, addr_addr_2) => run_binary_int_operation(
                code,
                addr_addr_1,
                addr_addr_2,
                Arith::Div,
            ),
            Code::Del(del_addr_addr) => {
                let del_addr: usize = read_int_from_address(code, *del_addr_addr)?;
                if del_addr >= code.len() {
                    return Err(Fault::OutOfRange(del_addr));
                }
                let _ = code.remove(del_addr);
                Ok(vec![Actions::Sync])
            },
            Code::Print(addr_addr) => {
                let addr: usize = read_int_from_address(code, *addr_addr)?;
                match *read_from_address(code, addr)? {
                    Code::IntData(i) => {
                        push_decimal(out, i);
                        Ok(vec![])
                    },
                    Code::CharData(c) => {
                        out.push(c);
                        Ok(vec![])
                    },
                    _ => Err(Fault::TypeMismatch(addr)),
                }
            },
            Code::Exit(code) => Ok(vec![Actions::Exit(*code)]),
            _ => Ok(vec![]),
        }
    }
}

} // verus!
