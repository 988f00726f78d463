use cellvm::code::{Code, Fault};
use cellvm::parse::parse_line;

#[test]
fn each_cell_has_its_line() {
    let cases = [
        (Code::Nop, ""),
        (Code::IntData(0), "_0"),
        (Code::IntData(321), "_321"),
        (Code::CharData('b'), "b"),
        (Code::CharData(' '), " "),
        (Code::CharData('\u{e9}'), "\u{e9}"),
        (Code::FlipType(123), "flip type 123"),
        (Code::Jump(10), "jump 10"),
        (Code::JumpAddr(4), "jump addr 4"),
        (Code::JumpAddrCmp(1, 2, 3, 4, 5), "jump addr cmp 1 2 3 4 5"),
        (Code::Swap(1, 2), "swap 1 2"),
        (Code::Copy(1, 2), "copy 1 2"),
        (Code::Add(1, 2), "add 1 2"),
        (Code::Sub(1, 2), "sub 1 2"),
        (Code::Mul(1, 2), "mul 1 2"),
        (Code::Div(1, 2), "div 1 2"),
        (Code::Del(3), "del 3"),
        (Code::Print(5), "print 5"),
        (Code::Exit(0), "exit 0"),
        (Code::Exit(7), "exit 7"),
        (Code::Exit(-1), "exit -1"),
    ];
    for (cell, line) in cases {
        assert_eq!(line, cell.present());
    }
}

#[test]
fn numbers_are_written_in_decimal() {
    assert_eq!("_9", Code::IntData(9).present());
    assert_eq!("_10", Code::IntData(10).present());
    assert_eq!("_1000000", Code::IntData(1_000_000).present());
    assert_eq!(format!("_{}", usize::MAX), Code::IntData(usize::MAX).present());
    assert_eq!("exit 2147483647", Code::Exit(i32::MAX).present());
    assert_eq!("exit -2147483648", Code::Exit(i32::MIN).present());
    assert_eq!(
        format!("swap {} 0", usize::MAX),
        Code::Swap(usize::MAX, 0).present()
    );
}

#[test]
fn a_line_written_reads_back_as_its_cell() {
    let cells = [
        Code::Nop,
        Code::IntData(0),
        Code::IntData(usize::MAX),
        Code::CharData('b'),
        Code::CharData('_'),
        Code::CharData('7'),
        Code::CharData(' '),
        Code::CharData('\u{e9}'),
        Code::CharData('\u{20ac}'),
        Code::FlipType(123),
        Code::Jump(usize::MAX),
        Code::JumpAddr(4),
        Code::JumpAddrCmp(1, 22, 333, 4444, 55555),
        Code::Swap(1, 2),
        Code::Copy(10, 20),
        Code::Add(0, 1),
        Code::Sub(1, 0),
        Code::Mul(7, 7),
        Code::Div(9, 8),
        Code::Del(3),
        Code::Print(5),
        Code::Exit(0),
        Code::Exit(i32::MAX),
    ];
    for cell in cells {
        assert_eq!(Some(cell), parse_line(&cell.present()));
    }
}

#[test]
fn a_negative_exit_code_does_not_read_back() {
    assert_eq!(None, parse_line(&Code::Exit(-1).present()));
}

#[test]
fn each_fault_has_its_message() {
    assert_eq!("Cannot load address 12", Fault::OutOfRange(12).message());
    assert_eq!("Unexpected kind of data at 0", Fault::TypeMismatch(0).message());
    assert_eq!("Division by zero", Fault::DivisionByZero.message());
}
