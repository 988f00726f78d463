//! Writing and reading agree: the line that encodes a cell is read back as
//! that cell.

use vstd::prelude::*;
use crate::code::Code;
use crate::parse::{
    cell_of_line,
    encode,
    instruction_of_line,
    integer_of_line,
    lines_of,
    max_address,
    max_exit_code,
    operands,
};
use crate::present::{instruction_line, line_of};
use crate::program::{lines_of_cells, text_of};
use crate::text::{
    decimal,
    is_digit,
    joined,
    law_split_joins_back,
    lemma_decimal_holds_no,
    lemma_decimal_reads_back,
    lemma_split_append,
    lemma_split_one,
    numeral,
    split,
};

verus! {

/// The operands in decimal notation.
pub open spec fn numerals_of(ops: Seq<usize>) -> Seq<Seq<char>> {
    Seq::new(ops.len(), |i: int| decimal(ops[i] as nat))
}

/// An instruction line begins with the name, and without a beginning of the
/// name it is the line of the rest of the name.
proof fn lemma_line_skips(name: Seq<char>, ops: Seq<usize>, k: int)
    requires
        0 <= k <= name.len(),
    ensures
        instruction_line(name, ops).len() >= name.len(),
        instruction_line(name, ops).take(name.len() as int) == name,
        instruction_line(name, ops).skip(k) == instruction_line(name.skip(k), ops),
    decreases ops.len(),
{
    if ops.len() > 0 {
        lemma_line_skips(name, ops.drop_last(), k);
    }
}

/// The words of an instruction line are those of the name, then the operands
/// in decimal notation.
proof fn lemma_line_words(name: Seq<char>, ops: Seq<usize>)
    ensures
        split(instruction_line(name, ops), ' ') == split(name, ' ') + numerals_of(ops),
    decreases ops.len(),
{
    if ops.len() > 0 {
        lemma_line_words(name, ops.drop_last());
        let before = instruction_line(name, ops.drop_last());
        let last = decimal(ops.last() as nat);
        lemma_decimal_holds_no(ops.last() as nat, ' ');
        lemma_split_append(before, last, ' ');
        assert(before + seq![' '] + last =~= before.push(' ') + last);
    }
}

/// A line is read back as the operands of the instruction that it was written
/// for.
proof fn lemma_operands_read_back(name: Seq<char>, ops: Seq<usize>, max: nat)
    requires
        ops.len() > 0,
        forall|i: int| 0 <= i < ops.len() ==> ops[i] <= max,
    ensures
        operands(instruction_line(name, ops), name, ops.len(), max) == Some(ops),
{
    let line = instruction_line(name, ops);
    let head = name.push(' ');
    lemma_head_of_line(name, ops);
    let tail = instruction_line(decimal(ops[0] as nat), ops.drop_first());
    assert(line.take(head.len() as int) =~= head);
    assert(line.skip(head.len() as int) =~= tail);
    lemma_line_words(decimal(ops[0] as nat), ops.drop_first());
    lemma_decimal_holds_no(ops[0] as nat, ' ');
    lemma_split_one(decimal(ops[0] as nat), ' ');
    let words = split(tail, ' ');
    assert forall|i: int| 0 <= i < words.len() implies numeral(#[trigger] words[i], max) == Some(
        ops[i] as nat,
    ) by {
        lemma_decimal_reads_back(ops[i] as nat);
    }
}

/// An instruction line is the name, one space, and the line that the first
/// operand and the other operands make.
proof fn lemma_head_of_line(name: Seq<char>, ops: Seq<usize>)
    requires
        ops.len() > 0,
    ensures
        instruction_line(name, ops) == name.push(' ') + instruction_line(
            decimal(ops[0] as nat),
            ops.drop_first(),
        ),
    decreases ops.len(),
{
    reveal_with_fuel(instruction_line, 2);
    if ops.len() > 1 {
        lemma_head_of_line(name, ops.drop_last());
        assert(ops.drop_last().drop_first() =~= ops.drop_first().drop_last());
    }
}

/// A line that differs from a name and the space behind it is not a line of
/// that instruction.
proof fn lemma_other_name(line: Seq<char>, name: Seq<char>, at: int)
    requires
        0 <= at <= name.len(),
        line.len() <= at || line[at] != name.push(' ')[at],
    ensures
        forall|count: nat, max: nat| #[trigger] operands(line, name, count, max) is None,
{
}

/// A line written for a longer name has too many words for an instruction
/// whose name is the first part of it and that has one operand.
proof fn lemma_longer_name(name: Seq<char>, short: Seq<char>, ops: Seq<usize>)
    requires
        short.len() < name.len(),
        name.take(short.len() as int + 1) == short.push(' '),
        ops.len() > 0,
    ensures
        forall|max: nat| #[trigger] operands(instruction_line(name, ops), short, 1, max) is None,
{
    let head = short.push(' ');
    lemma_line_skips(name, ops, head.len() as int);
    lemma_line_words(name.skip(head.len() as int), ops);
    law_split_joins_back(name.skip(head.len() as int), ' ');
}

/// Which instructions a line can be of is decided by its first character.
proof fn lemma_first_character(line: Seq<char>)
    requires
        line.len() > 0,
    ensures
        line[0] != 'f' ==> forall|count: nat, max: nat| #[trigger]
            operands(line, "flip type"@, count, max) is None,
        line[0] != 'j' ==> forall|count: nat, max: nat| #[trigger]
            operands(line, "jump"@, count, max) is None,
        line[0] != 'j' ==> forall|count: nat, max: nat| #[trigger]
            operands(line, "jump addr"@, count, max) is None,
        line[0] != 'j' ==> forall|count: nat, max: nat| #[trigger]
            operands(line, "jump addr cmp"@, count, max) is None,
        line[0] != 's' ==> forall|count: nat, max: nat| #[trigger]
            operands(line, "swap"@, count, max) is None,
        line[0] != 'c' ==> forall|count: nat, max: nat| #[trigger]
            operands(line, "copy"@, count, max) is None,
        line[0] != 'a' ==> forall|count: nat, max: nat| #[trigger]
            operands(line, "add"@, count, max) is None,
        line[0] != 's' ==> forall|count: nat, max: nat| #[trigger]
            operands(line, "sub"@, count, max) is None,
        line[0] != 'm' ==> forall|count: nat, max: nat| #[trigger]
            operands(line, "mul"@, count, max) is None,
        line[0] != 'd' ==> forall|count: nat, max: nat| #[trigger]
            operands(line, "div"@, count, max) is None,
        line[0] != 'd' ==> forall|count: nat, max: nat| #[trigger]
            operands(line, "del"@, count, max) is None,
        line[0] != 'p' ==> forall|count: nat, max: nat| #[trigger]
            operands(line, "print"@, count, max) is None,
        line[0] != 'e' ==> forall|count: nat, max: nat| #[trigger]
            operands(line, "exit"@, count, max) is None,
        line[0] != 'e' ==> line != "exit"@,
{
    reveal_strlit("flip type");
    reveal_strlit("jump");
    reveal_strlit("jump addr");
    reveal_strlit("jump addr cmp");
    reveal_strlit("swap");
    reveal_strlit("copy");
    reveal_strlit("add");
    reveal_strlit("sub");
    reveal_strlit("mul");
    reveal_strlit("div");
    reveal_strlit("del");
    reveal_strlit("print");
    reveal_strlit("exit");
    if line[0] != 'f' {
        lemma_other_name(line, "flip type"@, 0);
    }
    if line[0] != 'j' {
        lemma_other_name(line, "jump"@, 0);
        lemma_other_name(line, "jump addr"@, 0);
        lemma_other_name(line, "jump addr cmp"@, 0);
    }
    if line[0] != 's' {
        lemma_other_name(line, "swap"@, 0);
        lemma_other_name(line, "sub"@, 0);
    }
    if line[0] != 'c' {
        lemma_other_name(line, "copy"@, 0);
    }
    if line[0] != 'a' {
        lemma_other_name(line, "add"@, 0);
    }
    if line[0] != 'm' {
        lemma_other_name(line, "mul"@, 0);
    }
    if line[0] != 'd' {
        lemma_other_name(line, "div"@, 0);
        lemma_other_name(line, "del"@, 0);
    }
    if line[0] != 'p' {
        lemma_other_name(line, "print"@, 0);
    }
    if line[0] != 'e' {
        lemma_other_name(line, "exit"@, 0);
    }
}

/// The line of an instruction is read back as its operands, begins with its
/// name, and is of no instruction whose name begins with another character.
proof fn lemma_instruction_reads_back(name: Seq<char>, ops: Seq<usize>, max: nat)
    requires
        name.len() > 0,
        ops.len() > 0,
        forall|i: int| 0 <= i < ops.len() ==> ops[i] <= max,
    ensures
        operands(instruction_line(name, ops), name, ops.len(), max) == Some(ops),
        instruction_line(name, ops).len() > name.len(),
        instruction_line(name, ops).take(name.len() as int + 1) == name.push(' '),
{
    lemma_operands_read_back(name, ops, max);
}

/// The line that encodes a cell is read back as that cell. The one exception
/// is an exit with a negative code, whose line is no line of the format.
pub proof fn law_line_reads_back(cell: Code)
    requires
        cell matches Code::Exit(code) ==> code >= 0,
    ensures
        cell_of_line(line_of(cell)) == Some(cell),
{
    let line = line_of(cell);
    reveal_strlit("flip type");
    reveal_strlit("jump");
    reveal_strlit("jump addr");
    reveal_strlit("jump addr cmp");
    reveal_strlit("swap");
    reveal_strlit("copy");
    reveal_strlit("add");
    reveal_strlit("sub");
    reveal_strlit("mul");
    reveal_strlit("div");
    reveal_strlit("del");
    reveal_strlit("print");
    reveal_strlit("exit");
    match cell {
        Code::Nop => {},
        Code::IntData(i) => {
            lemma_first_character(line);
            lemma_decimal_reads_back(i as nat);
            assert(line.skip(1) =~= decimal(i as nat));
        },
        Code::CharData(c) => {
            lemma_other_name(line, "flip type"@, 1);
            lemma_other_name(line, "jump"@, 1);
            lemma_other_name(line, "jump addr"@, 1);
            lemma_other_name(line, "jump addr cmp"@, 1);
            lemma_other_name(line, "swap"@, 1);
            lemma_other_name(line, "copy"@, 1);
            lemma_other_name(line, "add"@, 1);
            lemma_other_name(line, "sub"@, 1);
            lemma_other_name(line, "mul"@, 1);
            lemma_other_name(line, "div"@, 1);
            lemma_other_name(line, "del"@, 1);
            lemma_other_name(line, "print"@, 1);
            lemma_other_name(line, "exit"@, 1);
        },
        Code::FlipType(a) => {
            lemma_instruction_reads_back("flip type"@, seq![a], max_address());
        },
        Code::Jump(a) => {
            lemma_instruction_reads_back("jump"@, seq![a], max_address());
            lemma_first_character(line);
        },
        Code::JumpAddr(a) => {
            lemma_instruction_reads_back("jump addr"@, seq![a], max_address());
            lemma_first_character(line);
            assert("jump addr"@.take(5) =~= "jump"@.push(' '));
            lemma_longer_name("jump addr"@, "jump"@, seq![a]);
        },
        Code::JumpAddrCmp(a, b, c, d, e) => {
            let ops = seq![a, b, c, d, e];
            lemma_instruction_reads_back("jump addr cmp"@, ops, max_address());
            lemma_first_character(line);
            assert("jump addr cmp"@.take(5) =~= "jump"@.push(' '));
            assert("jump addr cmp"@.take(10) =~= "jump addr"@.push(' '));
            lemma_longer_name("jump addr cmp"@, "jump"@, ops);
            lemma_longer_name("jump addr cmp"@, "jump addr"@, ops);
        },
        Code::Swap(a, b) => {
            lemma_two_operands_read_back("swap"@, a, b);
            lemma_first_character(line);
        },
        Code::Copy(a, b) => {
            lemma_two_operands_read_back("copy"@, a, b);
            lemma_first_character(line);
        },
        Code::Add(a, b) => {
            lemma_two_operands_read_back("add"@, a, b);
            lemma_first_character(line);
        },
        Code::Sub(a, b) => {
            lemma_two_operands_read_back("sub"@, a, b);
            lemma_first_character(line);
            assert(line[1] == line.take(4)[1]);
            lemma_other_name(line, "swap"@, 1);
        },
        Code::Mul(a, b) => {
            lemma_two_operands_read_back("mul"@, a, b);
            lemma_first_character(line);
        },
        Code::Div(a, b) => {
            lemma_two_operands_read_back("div"@, a, b);
            lemma_first_character(line);
        },
        Code::Del(a) => {
            lemma_instruction_reads_back("del"@, seq![a], max_address());
            lemma_first_character(line);
            assert(line[1] == line.take(4)[1]);
            lemma_other_name(line, "div"@, 1);
        },
        Code::Print(a) => {
            lemma_instruction_reads_back("print"@, seq![a], max_address());
            lemma_first_character(line);
        },
        Code::Exit(code) => {
            let ops = seq![code as usize];
            assert(line == instruction_line("exit"@, ops)) by {
                reveal_with_fuel(instruction_line, 2);
            }
            lemma_instruction_reads_back("exit"@, ops, max_exit_code());
            lemma_first_character(line);
        },
    }
}

/// The line of an instruction with two operands is read back as the two.
proof fn lemma_two_operands_read_back(name: Seq<char>, a: usize, b: usize)
    requires
        name.len() > 0,
    ensures
        operands(instruction_line(name, seq![a, b]), name, 2, max_address()) == Some(seq![a, b]),
        instruction_line(name, seq![a, b]).len() > name.len(),
        instruction_line(name, seq![a, b]).take(name.len() as int + 1) == name.push(' '),
        operands(instruction_line(name, seq![a, b]), name, 2, max_address())->0[0] == a,
        operands(instruction_line(name, seq![a, b]), name, 2, max_address())->0[1] == b,
{
    lemma_instruction_reads_back(name, seq![a, b], max_address());
}

/// Whether a cell has a line that is read back as the cell, also where it
/// stands among other lines: any cell but an exit with a negative code, a
/// line feed and a carriage return.
pub open spec fn plain(cell: Code) -> bool {
    match cell {
        Code::Exit(code) => code >= 0,
        Code::CharData(c) => c != '\n' && c != '\r',
        _ => true,
    }
}

/// An instruction line holds what its name holds, spaces and digits.
proof fn lemma_line_holds(name: Seq<char>, ops: Seq<usize>, c: char)
    requires
        !name.contains(c),
        c != ' ',
        !is_digit(c),
    ensures
        !instruction_line(name, ops).contains(c),
    decreases ops.len(),
{
    if ops.len() > 0 {
        lemma_line_holds(name, ops.drop_last(), c);
        lemma_decimal_holds_no(ops.last() as nat, c);
        let line = instruction_line(name, ops);
        assert forall|i: int| 0 <= i < line.len() implies line[i] != c by {}
    }
}

/// The line of a plain cell holds no line feed and does not end with a
/// carriage return.
proof fn lemma_line_is_one_line(cell: Code)
    requires
        plain(cell),
    ensures
        !line_of(cell).contains('\n'),
        line_of(cell).len() > 0 ==> line_of(cell).last() != '\r',
{
    reveal_strlit("flip type");
    reveal_strlit("jump");
    reveal_strlit("jump addr");
    reveal_strlit("jump addr cmp");
    reveal_strlit("swap");
    reveal_strlit("copy");
    reveal_strlit("add");
    reveal_strlit("sub");
    reveal_strlit("mul");
    reveal_strlit("div");
    reveal_strlit("del");
    reveal_strlit("print");
    reveal_strlit("exit");
    let line = line_of(cell);
    match cell {
        Code::Nop => {},
        Code::IntData(i) => {
            lemma_decimal_holds_no(i as nat, '\n');
            lemma_decimal_holds_no(i as nat, '\r');
            assert forall|k: int| 0 <= k < line.len() implies line[k] != '\n' && line[k]
                != '\r' by {}
        },
        Code::CharData(c) => {},
        Code::Exit(code) => {
            lemma_decimal_holds_no(code as nat, '\n');
            lemma_decimal_holds_no(code as nat, '\r');
            assert forall|k: int| 0 <= k < line.len() implies line[k] != '\n' && line[k]
                != '\r' by {}
        },
        Code::FlipType(a) => {
            lemma_line_holds("flip type"@, seq![a], '\n');
            lemma_line_holds("flip type"@, seq![a], '\r');
        },
        Code::Jump(a) => {
            lemma_line_holds("jump"@, seq![a], '\n');
            lemma_line_holds("jump"@, seq![a], '\r');
        },
        Code::JumpAddr(a) => {
            lemma_line_holds("jump addr"@, seq![a], '\n');
            lemma_line_holds("jump addr"@, seq![a], '\r');
        },
        Code::JumpAddrCmp(a, b, c, d, e) => {
            lemma_line_holds("jump addr cmp"@, seq![a, b, c, d, e], '\n');
            lemma_line_holds("jump addr cmp"@, seq![a, b, c, d, e], '\r');
        },
        Code::Swap(a, b) => {
            lemma_line_holds("swap"@, seq![a, b], '\n');
            lemma_line_holds("swap"@, seq![a, b], '\r');
        },
        Code::Copy(a, b) => {
            lemma_line_holds("copy"@, seq![a, b], '\n');
            lemma_line_holds("copy"@, seq![a, b], '\r');
        },
        Code::Add(a, b) => {
            lemma_line_holds("add"@, seq![a, b], '\n');
            lemma_line_holds("add"@, seq![a, b], '\r');
        },
        Code::Sub(a, b) => {
            lemma_line_holds("sub"@, seq![a, b], '\n');
            lemma_line_holds("sub"@, seq![a, b], '\r');
        },
        Code::Mul(a, b) => {
            lemma_line_holds("mul"@, seq![a, b], '\n');
            lemma_line_holds("mul"@, seq![a, b], '\r');
        },
        Code::Div(a, b) => {
            lemma_line_holds("div"@, seq![a, b], '\n');
            lemma_line_holds("div"@, seq![a, b], '\r');
        },
        Code::Del(a) => {
            lemma_line_holds("del"@, seq![a], '\n');
            lemma_line_holds("del"@, seq![a], '\r');
        },
        Code::Print(a) => {
            lemma_line_holds("print"@, seq![a], '\n');
            lemma_line_holds("print"@, seq![a], '\r');
        },
    }
}

/// Lines without a line feed, joined by line feeds, split into themselves.
proof fn lemma_split_of_joined(lines: Seq<Seq<char>>)
    requires
        lines.len() > 0,
        forall|i: int| 0 <= i < lines.len() ==> !(#[trigger] lines[i]).contains('\n'),
    ensures
        split(joined(lines, seq!['\n']), '\n') == lines,
    decreases lines.len(),
{
    if lines.len() == 1 {
        lemma_split_one(lines[0], '\n');
    } else {
        let before = lines.drop_last();
        lemma_split_of_joined(before);
        lemma_split_append(joined(before, seq!['\n']), lines.last(), '\n');
        assert(joined(before, seq!['\n']) + seq!['\n'] + lines.last() =~= joined(
            before,
            seq!['\n'],
        ).push('\n') + lines.last());
    }
}

/// A store that is written back and read again is the same store, provided
/// that each of its cells is plain and that the last of them is no
/// placeholder: an empty last line would not be a line.
pub proof fn law_store_reads_back(code: Seq<Code>)
    requires
        forall|i: int| 0 <= i < code.len() ==> plain(#[trigger] code[i]),
        code.len() > 0 ==> code.last() != Code::Nop,
    ensures
        lines_of(text_of(code)) == lines_of_cells(code),
        encode(lines_of(text_of(code)), code),
{
    let lines = lines_of_cells(code);
    if code.len() > 0 {
        assert forall|i: int| 0 <= i < lines.len() implies !(#[trigger] lines[i]).contains(
            '\n',
        ) && (lines[i].len() > 0 ==> lines[i].last() != '\r') by {
            lemma_line_is_one_line(code[i]);
        }
        lemma_split_of_joined(lines);
        let last = code.last();
        assert(line_of(last).len() > 0) by {
            lemma_line_is_not_empty(last);
        }
    }
    assert forall|i: int| 0 <= i < lines.len() implies cell_of_line(#[trigger] lines[i]) == Some(
        code[i],
    ) by {
        law_line_reads_back(code[i]);
    }
}

/// Only the placeholder has an empty line.
proof fn lemma_line_is_not_empty(cell: Code)
    requires
        cell != Code::Nop,
    ensures
        line_of(cell).len() > 0,
{
    reveal_strlit("exit");
    match cell {
        Code::FlipType(a) => lemma_head_of_line("flip type"@, seq![a]),
        Code::Jump(a) => lemma_head_of_line("jump"@, seq![a]),
        Code::JumpAddr(a) => lemma_head_of_line("jump addr"@, seq![a]),
        Code::JumpAddrCmp(a, b, c, d, e) => lemma_head_of_line(
            "jump addr cmp"@,
            seq![a, b, c, d, e],
        ),
        Code::Swap(a, b) => lemma_head_of_line("swap"@, seq![a, b]),
        Code::Copy(a, b) => lemma_head_of_line("copy"@, seq![a, b]),
        Code::Add(a, b) => lemma_head_of_line("add"@, seq![a, b]),
        Code::Sub(a, b) => lemma_head_of_line("sub"@, seq![a, b]),
        Code::Mul(a, b) => lemma_head_of_line("mul"@, seq![a, b]),
        Code::Div(a, b) => lemma_head_of_line("div"@, seq![a, b]),
        Code::Del(a) => lemma_head_of_line("del"@, seq![a]),
        Code::Print(a) => lemma_head_of_line("print"@, seq![a]),
        _ => {},
    }
}

} // verus!
