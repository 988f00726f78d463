//! The line of text that encodes a cell, and the line that reports a fault.

use vstd::prelude::*;
use vstd::string::StringExecFns;
use crate::code::{Code, Fault};
use crate::text::{decimal, push_decimal, push_signed_decimal, signed_decimal};

verus! {

/// The line of an instruction: its name, then each operand in decimal
/// notation behind one space.
pub open spec fn instruction_line(name: Seq<char>, operands: Seq<usize>) -> Seq<char>
    decreases operands.len(),
{
    if operands.len() == 0 {
        name
    } else {
        instruction_line(name, operands.drop_last()) + seq![' '] + decimal(operands.last() as nat)
    }
}

/// The line that encodes `cell`: nothing for the placeholder, an underscore
/// and the number for an integer, the character itself for a character, and
/// for an instruction its name and operands.
pub open spec fn line_of(cell: Code) -> Seq<char> {
    match cell {
        Code::Nop => Seq::empty(),
        Code::IntData(i) => seq!['_'] + decimal(i as nat),
        Code::CharData(c) => seq![c],
        Code::FlipType(addr) => instruction_line("flip type"@, seq![addr]),
        Code::Jump(addr) => instruction_line("jump"@, seq![addr]),
        Code::JumpAddr(addr) => instruction_line("jump addr"@, seq![addr]),
        Code::JumpAddrCmp(left, right, lt, eq, gt) => instruction_line(
            "jump addr cmp"@,
            seq![left, right, lt, eq, gt],
        ),
        Code::Swap(a, b) => instruction_line("swap"@, seq![a, b]),
        Code::Copy(src, dst) => instruction_line("copy"@, seq![src, dst]),
        Code::Add(left, right) => instruction_line("add"@, seq![left, right]),
        Code::Sub(left, right) => instruction_line("sub"@, seq![left, right]),
        Code::Mul(left, right) => instruction_line("mul"@, seq![left, right]),
        Code::Div(left, right) => instruction_line("div"@, seq![left, right]),
        Code::Del(addr) => instruction_line("del"@, seq![addr]),
        Code::Print(addr) => instruction_line("print"@, seq![addr]),
        Code::Exit(code) => "exit"@ + seq![' '] + signed_decimal(code as int),
    }
}

/// Writes the line of an instruction.
fn write_instruction(name: &str, operands: &[usize]) -> (line: String)
    ensures
        line@ == instruction_line(name@, operands@),
{
    let mut line = String::from_str(name);
    let mut done: usize = 0;
    while done < operands.len()
        invariant
            done <= operands.len(),
            line@ == instruction_line(name@, operands@.take(done as int)),
        decreases operands.len() - done,
    {
        line.push(' ');
        push_decimal(&mut line, operands[done]);
        assert(operands@.take(done + 1).drop_last() =~= operands@.take(done as int));
        done += 1;
    }
    assert(operands@.take(done as int) =~= operands@);
    line
}

impl Code {
    /// The line of text that encodes this cell.
    pub fn present(&self) -> (line: String)
        ensures
            line@ == line_of(*self),
    {
        match self {
            Code::Nop => String::new(),
            Code::IntData(i) => {
                let mut line = String::new();
                line.push('_');
                push_decimal(&mut line, *i);
                line
            },
            Code::CharData(c) => {
                let mut line = String::new();
                line.push(*c);
                line
            },
            Code::FlipType(addr) => {
                let operands = [*addr];
                assert(operands@ =~= seq![*addr]);
                write_instruction("flip type", &operands)
            },
            Code::Jump(addr) => {
                let operands = [*addr];
                assert(operands@ =~= seq![*addr]);
                write_instruction("jump", &operands)
            },
            Code::JumpAddr(addr_addr) => {
                let operands = [*addr_addr];
                assert(operands@ =~= seq![*addr_addr]);
                write_instruction("jump addr", &operands)
            },
            Code::JumpAddrCmp(left, right, lt, eq, gt) => {
                let operands = [*left, *right, *lt, *eq, *gt];
                assert(operands@ =~= seq![*left, *right, *lt, *eq, *gt]);
                write_instruction("jump addr cmp", &operands)
            },
            Code::Swap(addr_addr_1, addr_addr_2) => {
                let operands = [*addr_addr_1, *addr_addr_2];
                assert(operands@ =~= seq![*addr_addr_1, *addr_addr_2]);
                write_instruction("swap", &operands)
            },
            Code::Copy(addr_addr_1, addr_addr_2) => {
                let operands = [*addr_addr_1, *addr_addr_2];
                assert(operands@ =~= seq![*addr_addr_1, *addr_addr_2]);
                write_instruction("copy", &operands)
            },
            Code::Add(addr_addr_1, addr_addr_2) => {
                let operands = [*addr_addr_1, *addr_addr_2];
                assert(operands@ =~= seq![*addr_addr_1, *addr_addr_2]);
                write_instruction("add", &operands)
            },
            Code::Sub(addr_addr_1, addr_addr_2) => {
                let operands = [*addr_addr_1, *addr_addr_2];
                assert(operands@ =~= seq![*addr_addr_1, *addr_addr_2]);
                write_instruction("sub", &operands)
            },
            Code::Mul(addr_addr_1, addr_addr_2) => {
                let operands = [*addr_addr_1, *addr_addr_2];
                assert(operands@ =~= seq![*addr_addr_1, *addr_addr_2]);
                write_instruction("mul", &operands)
            },
            Code::Div(addr_addr_1, addr_addr_2) => {
                let operands = [*addr_addr_1, *addr_addr_2];
                assert(operands@ =~= seq![*addr_addr_1, *addr_addr_2]);
                write_instruction("div", &operands)
            },
            Code::Del(del_addr_addr) => {
                let operands = [*del_addr_addr];
                assert(operands@ =~= seq![*del_addr_addr]);
                write_instruction("del", &operands)
            },
            Code::Print(addr_addr) => {
                let operands = [*addr_addr];
                assert(operands@ =~= seq![*addr_addr]);
                write_instruction("print", &operands)
            },
            Code::Exit(code) => {
                let mut line = String::from_str("exit");
                line.push(' ');
                push_signed_decimal(&mut line, *code);
                line
            },
        }
    }
}

/// The line that reports `fault`.
pub open spec fn message_of(fault: Fault) -> Seq<char> {
    match fault {
        Fault::OutOfRange(addr) => "Cannot load address "@ + decimal(addr as nat),
        Fault::TypeMismatch(addr) => "Unexpected kind of data at "@ + decimal(addr as nat),
        Fault::DivisionByZero => "Division by zero"@,
    }
}

impl Fault {
    /// The line that reports this fault.
    pub fn message(&self) -> (line: String)
        ensures
            line@ == message_of(*self),
    {
        match self {
            Fault::OutOfRange(addr) => {
                let mut line = String::from_str("Cannot load address ");
                push_decimal(&mut line, *addr);
                line
            },
            Fault::TypeMismatch(addr) => {
                let mut line = String::from_str("Unexpected kind of data at ");
                push_decimal(&mut line, *addr);
                line
            },
            Fault::DivisionByZero => String::from_str("Division by zero"),
        }
    }
}

} // verus!
