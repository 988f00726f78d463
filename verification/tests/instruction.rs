use cellvm::code::{Actions, Code, Fault};
use cellvm::instruction::{resolve_binary_int_operand_args, run_binary_int_operation, Arith};

fn run(inst: Code, code: &mut Vec<Code>) -> (Result<Vec<Actions>, Fault>, String) {
    let mut out = String::new();
    let result = inst.run(code, &mut out);
    (result, out)
}

#[test]
fn data_cells_do_nothing() {
    for inst in [Code::Nop, Code::IntData(7), Code::CharData('x')] {
        let mut code = vec![Code::IntData(1), inst];
        let (result, out) = run(inst, &mut code);
        assert_eq!(Ok(vec![]), result);
        assert_eq!(vec![Code::IntData(1), inst], code);
        assert_eq!("", out);
    }
}

#[test]
fn flip_type_turns_an_integer_into_a_character() {
    let mut code = vec![Code::IntData(1), Code::IntData(65)];
    let (result, out) = run(Code::FlipType(0), &mut code);
    assert_eq!(Ok(vec![Actions::Sync]), result);
    assert_eq!(vec![Code::IntData(1), Code::CharData('A')], code);
    assert_eq!("", out);
}

#[test]
fn flip_type_takes_the_integer_modulo_256() {
    let mut code = vec![Code::IntData(1), Code::IntData(321)];
    let (result, _) = run(Code::FlipType(0), &mut code);
    assert_eq!(Ok(vec![Actions::Sync]), result);
    assert_eq!(Code::CharData('A'), code[1]);

    let mut code = vec![Code::IntData(1), Code::IntData(233)];
    let (result, _) = run(Code::FlipType(0), &mut code);
    assert_eq!(Ok(vec![Actions::Sync]), result);
    assert_eq!(Code::CharData('\u{e9}'), code[1]);
}

#[test]
fn flip_type_turns_a_character_into_its_code() {
    let mut code = vec![Code::IntData(1), Code::CharData('A')];
    let (result, _) = run(Code::FlipType(0), &mut code);
    assert_eq!(Ok(vec![Actions::Sync]), result);
    assert_eq!(Code::IntData(65), code[1]);

    let mut code = vec![Code::IntData(1), Code::CharData('\u{20ac}')];
    let (result, _) = run(Code::FlipType(0), &mut code);
    assert_eq!(Ok(vec![Actions::Sync]), result);
    assert_eq!(Code::IntData(0x20ac), code[1]);
}

#[test]
fn flip_type_twice_restores_the_cell() {
    for cell in [Code::IntData(0), Code::IntData(255), Code::CharData('c'), Code::CharData('\u{ff}')] {
        let mut code = vec![Code::IntData(1), cell];
        assert!(run(Code::FlipType(0), &mut code).0.is_ok());
        assert_ne!(cell, code[1]);
        assert!(run(Code::FlipType(0), &mut code).0.is_ok());
        assert_eq!(vec![Code::IntData(1), cell], code);
    }
}

#[test]
fn flip_type_twice_loses_what_is_over_255() {
    let mut code = vec![Code::IntData(1), Code::IntData(256)];
    assert!(run(Code::FlipType(0), &mut code).0.is_ok());
    assert!(run(Code::FlipType(0), &mut code).0.is_ok());
    assert_eq!(Code::IntData(0), code[1]);
}

#[test]
fn flip_type_of_its_own_operand_fails_the_second_time() {
    let mut code = vec![Code::IntData(0)];
    assert_eq!(Ok(vec![Actions::Sync]), run(Code::FlipType(0), &mut code).0);
    assert_eq!(vec![Code::CharData('\0')], code);
    assert_eq!(Err(Fault::TypeMismatch(0)), run(Code::FlipType(0), &mut code).0);
}

#[test]
fn flip_type_fails_on_other_cells() {
    let mut code = vec![Code::IntData(1), Code::Nop, Code::CharData('a'), Code::IntData(9)];
    assert_eq!(Err(Fault::TypeMismatch(1)), run(Code::FlipType(0), &mut code).0);
    assert_eq!(Err(Fault::TypeMismatch(2)), run(Code::FlipType(2), &mut code).0);
    assert_eq!(Err(Fault::OutOfRange(9)), run(Code::FlipType(3), &mut code).0);
    assert_eq!(Err(Fault::OutOfRange(4)), run(Code::FlipType(4), &mut code).0);
    assert_eq!(vec![Code::IntData(1), Code::Nop, Code::CharData('a'), Code::IntData(9)], code);
}

#[test]
fn jump_takes_its_operand_as_it_stands() {
    let mut code = vec![];
    assert_eq!(Ok(vec![Actions::Jump(10)]), run(Code::Jump(10), &mut code).0);
}

#[test]
fn jump_addr_reads_its_target() {
    let mut code = vec![Code::IntData(42), Code::CharData('a')];
    assert_eq!(Ok(vec![Actions::Jump(42)]), run(Code::JumpAddr(0), &mut code).0);
    assert_eq!(Err(Fault::TypeMismatch(1)), run(Code::JumpAddr(1), &mut code).0);
    assert_eq!(Err(Fault::OutOfRange(2)), run(Code::JumpAddr(2), &mut code).0);
}

fn branch_store(left: usize, right: usize) -> Vec<Code> {
    vec![
        Code::IntData(5),
        Code::IntData(6),
        Code::IntData(100),
        Code::IntData(200),
        Code::IntData(300),
        Code::IntData(left),
        Code::IntData(right),
    ]
}

#[test]
fn jump_addr_cmp_routes_three_ways() {
    let inst = Code::JumpAddrCmp(0, 1, 2, 3, 4);
    let mut code = branch_store(3, 5);
    assert_eq!(Ok(vec![Actions::Jump(100)]), run(inst, &mut code).0);
    let mut code = branch_store(5, 3);
    assert_eq!(Ok(vec![Actions::Jump(300)]), run(inst, &mut code).0);
    let mut code = branch_store(4, 4);
    assert_eq!(Ok(vec![Actions::Jump(200)]), run(inst, &mut code).0);
    assert_eq!(branch_store(4, 4), code);
}

#[test]
fn jump_addr_cmp_compares_large_integers() {
    let inst = Code::JumpAddrCmp(0, 1, 2, 3, 4);
    let mut code = branch_store(0, usize::MAX);
    assert_eq!(Ok(vec![Actions::Jump(100)]), run(inst, &mut code).0);
    let mut code = branch_store(usize::MAX, 0);
    assert_eq!(Ok(vec![Actions::Jump(300)]), run(inst, &mut code).0);
}

#[test]
fn jump_addr_cmp_resolves_only_the_branch_taken() {
    let mut code = branch_store(3, 5);
    code[3] = Code::Nop;
    code[4] = Code::Nop;
    assert_eq!(Ok(vec![Actions::Jump(100)]), run(Code::JumpAddrCmp(0, 1, 2, 3, 4), &mut code).0);
    assert_eq!(Ok(vec![Actions::Jump(100)]), run(Code::JumpAddrCmp(0, 1, 2, 9, 9), &mut code).0);
    assert_eq!(
        Err(Fault::TypeMismatch(3)),
        run(Code::JumpAddrCmp(0, 1, 3, 2, 2), &mut code).0
    );
}

#[test]
fn jump_addr_cmp_fails_on_the_left_operand_first() {
    let mut code = branch_store(3, 5);
    assert_eq!(
        Err(Fault::OutOfRange(100)),
        run(Code::JumpAddrCmp(2, 9, 2, 3, 4), &mut code).0
    );
    assert_eq!(
        Err(Fault::OutOfRange(9)),
        run(Code::JumpAddrCmp(0, 9, 2, 3, 4), &mut code).0
    );
}

#[test]
fn swap_exchanges_two_cells() {
    let mut code = vec![Code::IntData(2), Code::IntData(3), Code::CharData('a'), Code::Jump(7)];
    let (result, out) = run(Code::Swap(0, 1), &mut code);
    assert_eq!(Ok(vec![Actions::Sync]), result);
    assert_eq!("", out);
    assert_eq!(
        vec![Code::IntData(2), Code::IntData(3), Code::Jump(7), Code::CharData('a')],
        code
    );
}

#[test]
fn swap_twice_restores_the_store() {
    let first = vec![Code::IntData(2), Code::IntData(3), Code::CharData('a'), Code::Jump(7)];
    let mut code = first.clone();
    assert!(run(Code::Swap(0, 1), &mut code).0.is_ok());
    assert_ne!(first, code);
    assert!(run(Code::Swap(0, 1), &mut code).0.is_ok());
    assert_eq!(first, code);
}

#[test]
fn swap_of_a_cell_with_itself_changes_nothing() {
    let mut code = vec![Code::IntData(1), Code::CharData('a')];
    assert_eq!(Ok(vec![Actions::Sync]), run(Code::Swap(0, 0), &mut code).0);
    assert_eq!(vec![Code::IntData(1), Code::CharData('a')], code);
}

#[test]
fn swap_fails_without_writing() {
    let first = vec![Code::IntData(1), Code::IntData(9), Code::Nop];
    let mut code = first.clone();
    assert_eq!(Err(Fault::OutOfRange(9)), run(Code::Swap(0, 1), &mut code).0);
    assert_eq!(Err(Fault::OutOfRange(9)), run(Code::Swap(1, 0), &mut code).0);
    assert_eq!(Err(Fault::TypeMismatch(2)), run(Code::Swap(2, 0), &mut code).0);
    assert_eq!(Err(Fault::TypeMismatch(2)), run(Code::Swap(0, 2), &mut code).0);
    assert_eq!(Err(Fault::OutOfRange(3)), run(Code::Swap(0, 3), &mut code).0);
    assert_eq!(first, code);
}

#[test]
fn copy_writes_the_source_to_the_destination() {
    let mut code = vec![Code::IntData(2), Code::IntData(3), Code::CharData('a'), Code::Nop];
    let (result, out) = run(Code::Copy(0, 1), &mut code);
    assert_eq!(Ok(vec![Actions::Sync]), result);
    assert_eq!("", out);
    assert_eq!(
        vec![Code::IntData(2), Code::IntData(3), Code::CharData('a'), Code::CharData('a')],
        code
    );
}

#[test]
fn copy_can_overwrite_an_operand_cell() {
    let mut code = vec![Code::IntData(2), Code::IntData(0), Code::Jump(9)];
    assert_eq!(Ok(vec![Actions::Sync]), run(Code::Copy(0, 1), &mut code).0);
    assert_eq!(vec![Code::Jump(9), Code::IntData(0), Code::Jump(9)], code);
}

#[test]
fn copy_fails_without_writing() {
    let first = vec![Code::IntData(2), Code::IntData(7), Code::CharData('a')];
    let mut code = first.clone();
    assert_eq!(Err(Fault::OutOfRange(7)), run(Code::Copy(0, 1), &mut code).0);
    assert_eq!(Err(Fault::OutOfRange(7)), run(Code::Copy(1, 0), &mut code).0);
    assert_eq!(Err(Fault::TypeMismatch(2)), run(Code::Copy(0, 2), &mut code).0);
    assert_eq!(Err(Fault::TypeMismatch(2)), run(Code::Copy(2, 0), &mut code).0);
    assert_eq!(Err(Fault::OutOfRange(5)), run(Code::Copy(5, 0), &mut code).0);
    assert_eq!(first, code);
}

#[test]
fn copy_resolves_the_destination_before_the_source() {
    let mut code = vec![Code::Nop, Code::CharData('a')];
    assert_eq!(Err(Fault::TypeMismatch(1)), run(Code::Copy(0, 1), &mut code).0);
    assert_eq!(Err(Fault::TypeMismatch(0)), run(Code::Copy(1, 0), &mut code).0);
}

fn operand_store(left: usize, right: usize) -> Vec<Code> {
    vec![Code::IntData(2), Code::IntData(3), Code::IntData(left), Code::IntData(right)]
}

#[test]
fn arithmetic_writes_the_result_over_the_right_operand() {
    let cases = [
        (Code::Add(0, 1), 5, 3, 8),
        (Code::Sub(0, 1), 5, 3, 2),
        (Code::Mul(0, 1), 5, 3, 15),
        (Code::Div(0, 1), 17, 5, 3),
        (Code::Div(0, 1), 3, 5, 0),
        (Code::Sub(0, 1), 5, 5, 0),
    ];
    for (inst, left, right, result) in cases {
        let mut code = operand_store(left, right);
        let (actions, out) = run(inst, &mut code);
        assert_eq!(Ok(vec![Actions::Sync]), actions);
        assert_eq!("", out);
        assert_eq!(operand_store(left, result), code);
    }
}

#[test]
fn arithmetic_wraps_around() {
    let cases = [
        (Code::Add(0, 1), usize::MAX, 1, 0),
        (Code::Add(0, 1), usize::MAX, usize::MAX, usize::MAX - 1),
        (Code::Sub(0, 1), 3, 5, usize::MAX - 1),
        (Code::Sub(0, 1), 0, usize::MAX, 1),
        (Code::Mul(0, 1), usize::MAX, 2, usize::MAX - 1),
        (Code::Mul(0, 1), usize::MAX, usize::MAX, 1),
    ];
    for (inst, left, right, result) in cases {
        let mut code = operand_store(left, right);
        assert_eq!(Ok(vec![Actions::Sync]), run(inst, &mut code).0);
        assert_eq!(operand_store(left, result), code);
    }
}

#[test]
fn division_by_zero_fails_without_writing() {
    let mut code = operand_store(7, 0);
    let (result, out) = run(Code::Div(0, 1), &mut code);
    assert_eq!(Err(Fault::DivisionByZero), result);
    assert_eq!("", out);
    assert_eq!(operand_store(7, 0), code);
    assert_eq!(Err(Fault::DivisionByZero), run_binary_int_operation(&mut code, &0, &1, Arith::Div));
    assert_eq!(operand_store(7, 0), code);
}

#[test]
fn arithmetic_fails_without_writing() {
    let first = vec![Code::IntData(2), Code::IntData(3), Code::CharData('a'), Code::IntData(9)];
    for inst in [Code::Add(0, 1), Code::Sub(0, 1), Code::Mul(0, 1), Code::Div(0, 1)] {
        let mut code = first.clone();
        assert_eq!(Err(Fault::TypeMismatch(2)), run(inst, &mut code).0);
        assert_eq!(first, code);
    }
    let mut code = first.clone();
    assert_eq!(Err(Fault::OutOfRange(9)), run(Code::Add(1, 3), &mut code).0);
    assert_eq!(Err(Fault::OutOfRange(9)), run(Code::Add(3, 1), &mut code).0);
    assert_eq!(Err(Fault::TypeMismatch(2)), run(Code::Add(1, 0), &mut code).0);
    assert_eq!(Err(Fault::OutOfRange(4)), run(Code::Add(1, 4), &mut code).0);
    assert_eq!(first, code);
}

#[test]
fn binary_operands_are_left_right_and_destination() {
    let code = operand_store(17, 5);
    assert_eq!(Ok((17, 5, 3)), resolve_binary_int_operand_args(&code, &0, &1));
    assert_eq!(Ok((5, 17, 2)), resolve_binary_int_operand_args(&code, &1, &0));
    assert_eq!(Err(Fault::OutOfRange(17)), resolve_binary_int_operand_args(&code, &2, &1));
    assert_eq!(Err(Fault::OutOfRange(5)), resolve_binary_int_operand_args(&code, &0, &3));
}

#[test]
fn binary_operations_apply_to_two_integers() {
    assert_eq!(Ok(8), Arith::Add.apply(5, 3));
    assert_eq!(Ok(2), Arith::Sub.apply(5, 3));
    assert_eq!(Ok(15), Arith::Mul.apply(5, 3));
    assert_eq!(Ok(1), Arith::Div.apply(5, 3));
    assert_eq!(Ok(0), Arith::Div.apply(0, 3));
    assert_eq!(Err(Fault::DivisionByZero), Arith::Div.apply(5, 0));
    assert_eq!(Err(Fault::DivisionByZero), Arith::Div.apply(0, 0));
    assert_eq!(Ok(0), Arith::Add.apply(usize::MAX, 1));
    assert_eq!(Ok(usize::MAX), Arith::Sub.apply(0, 1));
    assert_eq!(Ok(0), Arith::Mul.apply(usize::MAX, 0));
}

#[test]
fn del_removes_a_cell_and_shifts_the_rest_down() {
    let mut code = vec![
        Code::IntData(2),
        Code::CharData('a'),
        Code::CharData('b'),
        Code::CharData('c'),
        Code::CharData('d'),
    ];
    let (result, out) = run(Code::Del(0), &mut code);
    assert_eq!(Ok(vec![Actions::Sync]), result);
    assert_eq!("", out);
    assert_eq!(
        vec![Code::IntData(2), Code::CharData('a'), Code::CharData('c'), Code::CharData('d')],
        code
    );
}

#[test]
fn del_can_remove_the_first_and_the_last_cell() {
    let mut code = vec![Code::IntData(1), Code::IntData(0)];
    assert_eq!(Ok(vec![Actions::Sync]), run(Code::Del(0), &mut code).0);
    assert_eq!(vec![Code::IntData(1)], code);
    assert_eq!(Err(Fault::OutOfRange(1)), run(Code::Del(0), &mut code).0);
    assert_eq!(vec![Code::IntData(1)], code);
    let mut code = vec![Code::IntData(0)];
    assert_eq!(Ok(vec![Actions::Sync]), run(Code::Del(0), &mut code).0);
    assert_eq!(Vec::<Code>::new(), code);
}

#[test]
fn del_fails_without_writing() {
    let first = vec![Code::IntData(3), Code::CharData('a'), Code::Nop];
    let mut code = first.clone();
    assert_eq!(Err(Fault::OutOfRange(3)), run(Code::Del(0), &mut code).0);
    assert_eq!(Err(Fault::TypeMismatch(1)), run(Code::Del(1), &mut code).0);
    assert_eq!(Err(Fault::OutOfRange(8)), run(Code::Del(8), &mut code).0);
    assert_eq!(first, code);
}

#[test]
fn print_writes_an_integer_in_decimal() {
    for (value, text) in [(0, "0"), (7, "7"), (10, "10"), (123, "123"), (1000, "1000")] {
        let mut code = vec![Code::IntData(1), Code::IntData(value)];
        let (result, out) = run(Code::Print(0), &mut code);
        assert_eq!(Ok(vec![]), result);
        assert_eq!(text, out);
        assert_eq!(vec![Code::IntData(1), Code::IntData(value)], code);
    }
    let mut code = vec![Code::IntData(1), Code::IntData(usize::MAX)];
    assert_eq!(usize::MAX.to_string(), run(Code::Print(0), &mut code).1);
}

#[test]
fn print_writes_a_character_as_it_is() {
    for c in ['c', '\n', ' ', '\u{e9}', '\u{20ac}'] {
        let mut code = vec![Code::IntData(1), Code::CharData(c)];
        let (result, out) = run(Code::Print(0), &mut code);
        assert_eq!(Ok(vec![]), result);
        assert_eq!(c.to_string(), out);
    }
}

#[test]
fn print_appends_to_what_was_written() {
    let mut code = vec![Code::IntData(1), Code::IntData(42), Code::IntData(3), Code::CharData('!')];
    let mut out = String::from("so far: ");
    assert_eq!(Ok(vec![]), Code::Print(0).run(&mut code, &mut out));
    assert_eq!(Ok(vec![]), Code::Print(2).run(&mut code, &mut out));
    assert_eq!("so far: 42!", out);
}

#[test]
fn print_fails_on_other_cells() {
    let mut code = vec![Code::IntData(1), Code::Nop, Code::IntData(9), Code::CharData('a')];
    let mut out = String::from("kept");
    assert_eq!(Err(Fault::TypeMismatch(1)), Code::Print(0).run(&mut code, &mut out));
    assert_eq!(Err(Fault::OutOfRange(9)), Code::Print(2).run(&mut code, &mut out));
    assert_eq!(Err(Fault::TypeMismatch(3)), Code::Print(3).run(&mut code, &mut out));
    assert_eq!(Err(Fault::OutOfRange(4)), Code::Print(4).run(&mut code, &mut out));
    assert_eq!("kept", out);
}

#[test]
fn exit_takes_its_code_as_it_stands() {
    let mut code = vec![];
    assert_eq!(Ok(vec![Actions::Exit(7)]), run(Code::Exit(7), &mut code).0);
    assert_eq!(Ok(vec![Actions::Exit(-1)]), run(Code::Exit(-1), &mut code).0);
}
