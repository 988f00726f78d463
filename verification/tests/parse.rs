use cellvm::code::Code;
use cellvm::code::Code::{CharData, FlipType, IntData};
use cellvm::parse::{parse, parse_chars, parse_line, ParseError};

#[test]
fn flip_type() {
    assert_eq!(FlipType(123), parse_line("flip type 123").unwrap());
}

#[test]
fn int_data() {
    assert_eq!(IntData(321), parse_line("_321").unwrap());
}

#[test]
fn char_data() {
    assert_eq!(CharData('b'), parse_line("b").unwrap());
}

#[test]
fn each_instruction_has_its_line() {
    let cases = [
        ("flip type 3", Code::FlipType(3)),
        ("jump 10", Code::Jump(10)),
        ("jump addr 4", Code::JumpAddr(4)),
        ("jump addr cmp 1 2 3 4 5", Code::JumpAddrCmp(1, 2, 3, 4, 5)),
        ("swap 1 2", Code::Swap(1, 2)),
        ("copy 1 2", Code::Copy(1, 2)),
        ("add 1 2", Code::Add(1, 2)),
        ("sub 1 2", Code::Sub(1, 2)),
        ("mul 1 2", Code::Mul(1, 2)),
        ("div 1 2", Code::Div(1, 2)),
        ("del 3", Code::Del(3)),
        ("print 5", Code::Print(5)),
        ("exit 0", Code::Exit(0)),
        ("exit 7", Code::Exit(7)),
        ("exit", Code::Exit(0)),
    ];
    for (line, cell) in cases {
        assert_eq!(Some(cell), parse_line(line));
    }
}

#[test]
fn an_empty_line_is_the_placeholder() {
    assert_eq!(Some(Code::Nop), parse_line(""));
    assert_eq!(Some(Code::Nop), parse_chars(&[]));
}

#[test]
fn a_single_character_is_a_character() {
    assert_eq!(Some(CharData('_')), parse_line("_"));
    assert_eq!(Some(CharData('5')), parse_line("5"));
    assert_eq!(Some(CharData(' ')), parse_line(" "));
    assert_eq!(Some(CharData('\u{e9}')), parse_line("\u{e9}"));
    assert_eq!(Some(CharData('\u{20ac}')), parse_line("\u{20ac}"));
    assert_eq!(Some(CharData('\r')), parse_line("\r"));
    assert_eq!(Some(CharData('x')), parse_chars(&['x']));
}

#[test]
fn numerals_may_have_leading_zeros() {
    assert_eq!(Some(Code::Jump(7)), parse_line("jump 007"));
    assert_eq!(Some(IntData(0)), parse_line("_000"));
    assert_eq!(Some(Code::Exit(1)), parse_line("exit 01"));
}

#[test]
fn numerals_must_fit() {
    let max = usize::MAX.to_string();
    assert_eq!(Some(Code::Jump(usize::MAX)), parse_line(&format!("jump {}", max)));
    assert_eq!(Some(IntData(usize::MAX)), parse_line(&format!("_{}", max)));
    assert_eq!(None, parse_line(&format!("jump {}0", max)));
    assert_eq!(None, parse_line(&format!("_{}0", max)));
    assert_eq!(None, parse_line("_340282366920938463463374607431768211456"));
    assert_eq!(Some(Code::Exit(i32::MAX)), parse_line("exit 2147483647"));
    assert_eq!(None, parse_line("exit 2147483648"));
    assert_eq!(None, parse_line("exit 99999999999999999999999"));
}

#[test]
fn other_lines_encode_no_cell() {
    let lines = [
        "jump",
        "jump ",
        "jump x",
        "jump 1 2",
        "jump  1",
        "jump 1 ",
        " jump 1",
        "jump -1",
        "jump +1",
        "jump 1x",
        "Jump 1",
        "jumpaddr 1",
        "jump addr",
        "jump addr cmp 1 2 3 4",
        "jump addr cmp 1 2 3 4 5 6",
        "swap 1",
        "swap 1 2 3",
        "swap 1  2",
        "flip 1",
        "flip type",
        "fliptype 1",
        "exit -1",
        "exit 1 2",
        "exit ",
        "exits",
        "_5x",
        "_ 5",
        "__",
        "_-5",
        "ab",
        "  ",
        "nop",
        "jump \u{663}",
    ];
    for line in lines {
        assert_eq!(None, parse_line(line), "{:?}", line);
    }
}

#[test]
fn a_program_has_one_cell_for_each_line() {
    assert_eq!(
        Ok(vec![IntData(5), IntData(3), Code::Add(0, 1)]),
        parse("_5\n_3\nadd 0 1")
    );
    assert_eq!(
        Ok(vec![IntData(5), Code::Nop, CharData('x'), Code::Exit(0)]),
        parse("_5\n\nx\nexit")
    );
}

#[test]
fn the_last_line_ending_is_optional() {
    assert_eq!(Ok(vec![]), parse(""));
    assert_eq!(Ok(vec![Code::Nop]), parse("\n"));
    assert_eq!(Ok(vec![Code::Nop, Code::Nop]), parse("\n\n"));
    assert_eq!(Ok(vec![IntData(5)]), parse("_5"));
    assert_eq!(Ok(vec![IntData(5)]), parse("_5\n"));
    assert_eq!(Ok(vec![IntData(5), Code::Nop]), parse("_5\n\n"));
}

#[test]
fn a_carriage_return_before_a_line_feed_belongs_to_the_line_ending() {
    assert_eq!(Ok(vec![IntData(5), Code::Jump(1)]), parse("_5\r\njump 1\r\n"));
    assert_eq!(Ok(vec![Code::Nop, Code::Nop]), parse("\r\n\r\n"));
    assert_eq!(Ok(vec![CharData('\r'), Code::Nop]), parse("\r\r\n\n"));
    assert_eq!(Ok(vec![IntData(5), CharData('\r')]), parse("_5\n\r"));
    assert_eq!(Err(ParseError { line: 1 }), parse("_5\njump 1\r"));
}

#[test]
fn the_lines_of_a_text_are_those_that_std_gives() {
    let texts = [
        "",
        "\n",
        "a",
        "a\n",
        "a\nb",
        "a\r\nb\r\n",
        "a\rb\n",
        "\r",
        "\r\n",
        "\n\r",
        "\n\r\n",
        "a\n\nb\n\n",
        "\r\r\n",
    ];
    for text in texts {
        let lines: Vec<&str> = text.lines().collect();
        let cells = parse(text);
        let mut expected = Vec::new();
        let mut bad = None;
        for (at, line) in lines.iter().enumerate() {
            match parse_line(line) {
                Some(cell) => expected.push(cell),
                None => {
                    bad = Some(at);
                    break;
                }
            }
        }
        match bad {
            Some(line) => assert_eq!(Err(ParseError { line }), cells, "{:?}", text),
            None => assert_eq!(Ok(expected), cells, "{:?}", text),
        }
    }
}

#[test]
fn the_first_bad_line_is_named() {
    assert_eq!(Err(ParseError { line: 0 }), parse("bad line"));
    assert_eq!(Err(ParseError { line: 2 }), parse("_5\n\njump\nalso bad\n"));
    assert_eq!(Err(ParseError { line: 1 }), parse("exit\nexit -1"));
}
