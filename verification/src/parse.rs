//! Reading a program from text: one cell per line.
//!
//! A line is empty, or an underscore and a number, or the name of an
//! instruction and its operands with one space before each, or one single
//! character. Any other line encodes no cell.

use vstd::prelude::*;
use vstd::slice::slice_subrange;
use crate::code::Code;
use crate::text::{
    chars_of,
    law_split_joins_back,
    numeral,
    parse_numeral,
    runs,
    split,
    split_chars,
};

verus! {

/// Why a text is no program: the line with this index, counted from zero,
/// encodes no cell.
#[derive(Debug, Clone, Copy, PartialEq, Eq, Structural)]
pub struct ParseError {
    pub line: usize,
}

/// The operands of an instruction line. Where `line` is `name`, one space,
/// and `count` numerals of values up to `max` with single spaces between
/// them, these are the values, in order.
pub open spec fn operands(line: Seq<char>, name: Seq<char>, count: nat, max: nat) -> Option<
    Seq<usize>,
> {
    let head = name.push(' ');
    let words = split(line.skip(head.len() as int), ' ');
    if line.len() >= head.len() && line.take(head.len() as int) == head && words.len() == count
        && forall|i: int| 0 <= i < words.len() ==> numeral(#[trigger] words[i], max) is Some {
        Some(Seq::new(count, |i: int| numeral(words[i], max).unwrap() as usize))
    } else {
        None
    }
}

/// The highest address that a line can name.
pub open spec fn max_address() -> nat {
    usize::MAX as nat
}

/// The highest exit code that a line can name.
pub open spec fn max_exit_code() -> nat {
    i32::MAX as nat
}

/// The instruction that `line` encodes, where it is the line of one.
pub open spec fn instruction_of_line(line: Seq<char>) -> Option<Code> {
    if let Some(a) = operands(line, "flip type"@, 1, max_address()) {
        Some(Code::FlipType(a[0]))
    } else if let Some(a) = operands(line, "jump"@, 1, max_address()) {
        Some(Code::Jump(a[0]))
    } else if let Some(a) = operands(line, "jump addr"@, 1, max_address()) {
        Some(Code::JumpAddr(a[0]))
    } else if let Some(a) = operands(line, "jump addr cmp"@, 5, max_address()) {
        Some(Code::JumpAddrCmp(a[0], a[1], a[2], a[3], a[4]))
    } else if let Some(a) = operands(line, "swap"@, 2, max_address()) {
        Some(Code::Swap(a[0], a[1]))
    } else if let Some(a) = operands(line, "copy"@, 2, max_address()) {
        Some(Code::Copy(a[0], a[1]))
    } else if let Some(a) = operands(line, "add"@, 2, max_address()) {
        Some(Code::Add(a[0], a[1]))
    } else if let Some(a) = operands(line, "sub"@, 2, max_address()) {
        Some(Code::Sub(a[0], a[1]))
    } else if let Some(a) = operands(line, "mul"@, 2, max_address()) {
        Some(Code::Mul(a[0], a[1]))
    } else if let Some(a) = operands(line, "div"@, 2, max_address()) {
        Some(Code::Div(a[0], a[1]))
    } else if let Some(a) = operands(line, "del"@, 1, max_address()) {
        Some(Code::Del(a[0]))
    } else if let Some(a) = operands(line, "print"@, 1, max_address()) {
        Some(Code::Print(a[0]))
    } else if let Some(a) = operands(line, "exit"@, 1, max_exit_code()) {
        Some(Code::Exit(a[0] as i32))
    } else if line == "exit"@ {
        Some(Code::Exit(0))
    } else {
        None
    }
}

/// The integer that `line` encodes, where it is an underscore and a numeral.
pub open spec fn integer_of_line(line: Seq<char>) -> Option<usize> {
    if line.len() > 0 && line[0] == '_' {
        match numeral(line.skip(1), max_address()) {
            Some(value) => Some(value as usize),
            None => None,
        }
    } else {
        None
    }
}

/// The cell that `line` encodes, where it encodes one.
pub open spec fn cell_of_line(line: Seq<char>) -> Option<Code> {
    if line.len() == 0 {
        Some(Code::Nop)
    } else if let Some(inst) = instruction_of_line(line) {
        Some(inst)
    } else if let Some(value) = integer_of_line(line) {
        Some(Code::IntData(value))
    } else if line.len() == 1 {
        Some(Code::CharData(line[0]))
    } else {
        None
    }
}

/// A line without the carriage return at its end, where it has one.
pub open spec fn without_return(line: Seq<char>) -> Seq<char> {
    if line.len() > 0 && line.last() == '\r' {
        line.drop_last()
    } else {
        line
    }
}

/// The lines of a text. A line ends at a line feed, or at a carriage return
/// directly before one, or where the text ends; what stands behind the last
/// line feed is a line only where it is not empty.
pub open spec fn lines_of(text: Seq<char>) -> Seq<Seq<char>> {
    let pieces = split(text, '\n');
    let count = if pieces.last().len() == 0 {
        pieces.len() - 1
    } else {
        pieces.len() as int
    };
    Seq::new(
        count as nat,
        |i: int|
            if i < pieces.len() - 1 {
                without_return(pieces[i])
            } else {
                pieces[i]
            },
    )
}

/// Whether the lines encode the cells, one line each, in order.
pub open spec fn encode(lines: Seq<Seq<char>>, code: Seq<Code>) -> bool {
    &&& code.len() == lines.len()
    &&& forall|i: int| 0 <= i < lines.len() ==> cell_of_line(#[trigger] lines[i]) == Some(code[i])
}

/// Whether the line with the index `at` is the first that encodes no cell.
pub open spec fn first_bad_line(lines: Seq<Seq<char>>, at: int) -> bool {
    &&& 0 <= at < lines.len()
    &&& cell_of_line(lines[at]) is None
    &&& forall|i: int| 0 <= i < at ==> cell_of_line(#[trigger] lines[i]) is Some
}

/// Whether `line` begins with `name` and one space.
fn begins_with(line: &[char], name: &[char]) -> (r: bool)
    ensures
        r == (line@.len() >= name@.push(' ').len() && line@.take(name@.push(' ').len() as int)
            == name@.push(' ')),
{
    if line.len() <= name.len() {
        return false;
    }
    let mut at: usize = 0;
    while at < name.len()
        invariant
            at <= name.len() < line.len(),
            line@.take(at as int) == name@.take(at as int),
        decreases name.len() - at,
    {
        if line[at] != name[at] {
            assert(line@.take(name@.push(' ').len() as int)[at as int] != name@.push(' ')[at as int]);
            return false;
        }
        at += 1;
    }
    assert(name@.take(at as int) =~= name@);
    assert(line@.take(at + 1) =~= line@.take(at as int).push(line@[at as int]));
    if line[at] != ' ' {
        assert(line@.take(name@.push(' ').len() as int)[at as int] != name@.push(' ')[at as int]);
        return false;
    }
    true
}

/// Reads the operands of the instruction `name` from `line`.
#[verifier::loop_isolation(false)]
fn read_operands(line: &[char], name: &str, count: usize, max: usize) -> (r: Option<Vec<usize>>)
    ensures
        match r {
            Some(values) => operands(line@, name@, count as nat, max as nat) == Some(values@),
            None => operands(line@, name@, count as nat, max as nat) is None,
        },
{
    let name_chars = chars_of(name);
    if !begins_with(line, name_chars.as_slice()) {
        return None;
    }
    let end: usize = line.len();
    let rest = slice_subrange(line, name_chars.len() + 1, end);
    let words = split_chars(rest, ' ');
    if words.len() != count {
        return None;
    }
    let ghost spec_words = split(rest@, ' ');
    let mut values: Vec<usize> = Vec::new();
    let mut at: usize = 0;
    while at < count
        invariant
            at <= count,
            count == words.len(),
            runs(words@) == spec_words,
            values.len() == at,
            forall|i: int|
                0 <= i < at ==> numeral(#[trigger] spec_words[i], max as nat) == Some(
                    values@[i] as nat,
                ),
        decreases count - at,
    {
        match parse_numeral(words[at].as_slice(), max) {
            Some(value) => {
                values.push(value);
            },
            None => {
                assert(numeral(spec_words[at as int], max as nat) is None);
                return None;
            },
        }
        at += 1;
    }
    Some(values)
}

/// Whether `line` is exactly `text`.
fn is_text(line: &[char], text: &str) -> (r: bool)
    ensures
        r == (line@ == text@),
{
    let chars = chars_of(text);
    if line.len() != chars.len() {
        return false;
    }
    let mut at: usize = 0;
    while at < line.len()
        invariant
            at <= line.len() == chars.len(),
            chars@ == text@,
            forall|i: int| 0 <= i < at ==> line@[i] == chars@[i],
        decreases line.len() - at,
    {
        if line[at] != chars[at] {
            return false;
        }
        at += 1;
    }
    assert(line@ =~= chars@);
    true
}

/// Reads `line` as the line of an instruction.
fn parse_instruction(line: &[char]) -> (r: Option<Code>)
    ensures
        r == instruction_of_line(line@),
{
    if let Some(a) = read_operands(line, "flip type", 1, usize::MAX) {
        return Some(Code::FlipType(a[0]));
    }
    if let Some(a) = read_operands(line, "jump", 1, usize::MAX) {
        return Some(Code::Jump(a[0]));
    }
    if let Some(a) = read_operands(line, "jump addr", 1, usize::MAX) {
        return Some(Code::JumpAddr(a[0]));
    }
    if let Some(a) = read_operands(line, "jump addr cmp", 5, usize::MAX) {
        return Some(Code::JumpAddrCmp(a[0], a[1], a[2], a[3], a[4]));
    }
    if let Some(a) = read_operands(line, "swap", 2, usize::MAX) {
        return Some(Code::Swap(a[0], a[1]));
    }
    if let Some(a) = read_operands(line, "copy", 2, usize::MAX) {
        return Some(Code::Copy(a[0], a[1]));
    }
    if let Some(a) = read_operands(line, "add", 2, usize::MAX) {
        return Some(Code::Add(a[0], a[1]));
    }
    if let Some(a) = read_operands(line, "sub", 2, usize::MAX) {
        return Some(Code::Sub(a[0], a[1]));
    }
    if let Some(a) = read_operands(line, "mul", 2, usize::MAX) {
        return Some(Code::Mul(a[0], a[1]));
    }
    if let Some(a) = read_operands(line, "div", 2, usize::MAX) {
        return Some(Code::Div(a[0], a[1]));
    }
    if let Some(a) = read_operands(line, "del", 1, usize::MAX) {
        return Some(Code::Del(a[0]));
    }
    if let Some(a) = read_operands(line, "print", 1, usize::MAX) {
        return Some(Code::Print(a[0]));
    }
    if let Some(a) = read_operands(line, "exit", 1, 0x7fff_ffff) {
        return Some(Code::Exit(a[0] as i32));
    }
    if is_text(line, "exit") {
        return Some(Code::Exit(0));
    }
    None
}

/// Reads `line` as the line of an integer.
fn parse_integer(line: &[char]) -> (r: Option<usize>)
    ensures
        r == integer_of_line(line@),
{
    if line.len() > 0 && line[0] == '_' {
        let rest = slice_subrange(line, 1, line.len());
        parse_numeral(rest, usize::MAX)
    } else {
        None
    }
}

/// Reads the cell that the characters of one line encode.
pub fn parse_chars(line: &[char]) -> (r: Option<Code>)
    ensures
        r == cell_of_line(line@),
{
    if line.len() == 0 {
        return Some(Code::Nop);
    }
    if let Some(inst) = parse_instruction(line) {
        return Some(inst);
    }
    if let Some(value) = parse_integer(line) {
        return Some(Code::IntData(value));
    }
    if line.len() == 1 {
        return Some(Code::CharData(line[0]));
    }
    None
}

/// Reads the cell that one line encodes; `None` where it encodes none.
pub fn parse_line(line: &str) -> (r: Option<Code>)
    ensures
        r == cell_of_line(line@),
{
    let chars = chars_of(line);
    parse_chars(chars.as_slice())
}

/// Reads a program, one cell from each line of `data`. Where a line encodes
/// no cell, the first such line is named.
pub fn parse(data: &str) -> (r: Result<Vec<Code>, ParseError>)
    ensures
        match r {
            Ok(code) => encode(lines_of(data@), code@),
            Err(error) => first_bad_line(lines_of(data@), error.line as int),
        },
{
    let chars = chars_of(data);
    let pieces = split_chars(chars.as_slice(), '\n');
    let ghost lines = lines_of(data@);
    assert(pieces.len() > 0) by {
        law_split_joins_back(data@, '\n');
    }
    let last: usize = pieces.len() - 1;
    let count: usize = if pieces[last].len() == 0 {
        last
    } else {
        pieces.len()
    };
    let mut code: Vec<Code> = Vec::new();
    let mut at: usize = 0;
    while at < count
        invariant
            at <= count <= pieces.len(),
            last == pieces.len() - 1,
            count == lines.len(),
            lines == lines_of(data@),
            runs(pieces@) == split(data@, '\n'),
            code@.len() == at,
            forall|i: int| 0 <= i < at ==> cell_of_line(#[trigger] lines[i]) == Some(code@[i]),
        decreases count - at,
    {
        let piece = pieces[at].as_slice();
        let end: usize = piece.len();
        let line = if at < last && end > 0 && piece[end - 1] == '\r' {
            slice_subrange(piece, 0, end - 1)
        } else {
            piece
        };
        match parse_chars(line) {
            Some(cell) => {
                code.push(cell);
            },
            None => {
                return Err(ParseError { line: at });
            },
        }
        at += 1;
    }
    Ok(code)
}

} // verus!
