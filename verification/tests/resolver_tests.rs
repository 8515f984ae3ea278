use asm8::parser::ParseError;
use asm8::resolver::replace_constants;
use asm8::types::{Instruction, Line, Register, Value};

fn label(name: &str) -> Value {
    Value::Label(name.to_string())
}

fn define(index: usize, name: &str, value: Value) -> Line {
    Line {
        index,
        label: Some(name.to_string()),
        instruction: Some(Instruction::Equ(value)),
    }
}

fn plain(index: usize, instruction: Instruction) -> Line {
    Line {
        index,
        label: None,
        instruction: Some(instruction),
    }
}

#[test]
fn constant_replaces_the_operand_that_names_it() {
    let lines = vec![
        define(1, "X", Value::Immediate(7)),
        plain(2, Instruction::Load(Register::A, label("X"))),
    ];
    let out = replace_constants(&lines).unwrap();
    assert_eq!(
        out,
        vec![
            define(1, "X", Value::Immediate(7)),
            plain(2, Instruction::Load(Register::A, Value::Immediate(7))),
        ]
    );
}

#[test]
fn chain_of_constants_is_followed_to_its_end() {
    let lines = vec![
        define(1, "A", label("B")),
        define(2, "B", Value::Immediate(5)),
        plain(3, Instruction::Db(label("A"))),
        plain(4, Instruction::Load(Register::A, label("A"))),
        plain(5, Instruction::Jmp(label("B"))),
    ];
    let out = replace_constants(&lines).unwrap();
    assert_eq!(
        out,
        vec![
            define(1, "A", Value::Immediate(5)),
            define(2, "B", Value::Immediate(5)),
            plain(3, Instruction::Db(Value::Immediate(5))),
            plain(4, Instruction::Load(Register::A, Value::Immediate(5))),
            plain(5, Instruction::Jmp(Value::Immediate(5))),
        ]
    );
}

#[test]
fn long_chain_of_constants() {
    let lines = vec![
        define(1, "A", label("B")),
        define(2, "B", label("C")),
        define(3, "C", label("D")),
        define(4, "D", Value::Address(9)),
        plain(5, Instruction::Store(Register::A, label("A"))),
    ];
    let out = replace_constants(&lines).unwrap();
    assert_eq!(
        out[4],
        plain(5, Instruction::Store(Register::A, Value::Address(9)))
    );
}

#[test]
fn chain_may_end_in_a_name_that_is_no_constant() {
    let lines = vec![
        define(1, "A", label("B")),
        define(2, "B", label("START")),
        plain(3, Instruction::Jmp(label("A"))),
    ];
    let out = replace_constants(&lines).unwrap();
    assert_eq!(out[2], plain(3, Instruction::Jmp(label("START"))));
}

#[test]
fn self_reference_is_cyclic() {
    let lines = vec![define(1, "A", label("A"))];
    assert_eq!(
        replace_constants(&lines),
        Err(ParseError::CyclicReference(label("A")))
    );
}

#[test]
fn mutual_reference_is_cyclic() {
    let lines = vec![define(1, "A", label("B")), define(2, "B", label("A"))];
    assert_eq!(
        replace_constants(&lines),
        Err(ParseError::CyclicReference(label("B")))
    );
}

#[test]
fn first_cycle_in_line_order_is_reported() {
    let lines = vec![
        define(1, "OK", Value::Immediate(1)),
        define(2, "B", label("A")),
        define(3, "A", label("B")),
        define(4, "C", label("C")),
    ];
    assert_eq!(
        replace_constants(&lines),
        Err(ParseError::CyclicReference(label("A")))
    );
}

#[test]
fn cycle_that_is_never_used_is_still_an_error() {
    let lines = vec![
        plain(1, Instruction::Nop),
        define(2, "LOOP", label("LOOP")),
        plain(3, Instruction::Halt),
    ];
    assert_eq!(
        replace_constants(&lines),
        Err(ParseError::CyclicReference(label("LOOP")))
    );
}

#[test]
fn name_that_is_no_constant_is_left_as_it_is() {
    let lines = vec![
        define(1, "X", Value::Immediate(7)),
        plain(2, Instruction::Jmp(label("START"))),
    ];
    let out = replace_constants(&lines).unwrap();
    assert_eq!(out[1], plain(2, Instruction::Jmp(label("START"))));
}

#[test]
fn last_definition_of_a_name_wins() {
    let lines = vec![
        define(1, "X", Value::Immediate(1)),
        plain(2, Instruction::Db(label("X"))),
        define(3, "X", Value::Immediate(2)),
        plain(4, Instruction::Db(label("X"))),
    ];
    let out = replace_constants(&lines).unwrap();
    assert_eq!(out[1], plain(2, Instruction::Db(Value::Immediate(2))));
    assert_eq!(out[3], plain(4, Instruction::Db(Value::Immediate(2))));
}

#[test]
fn folding_keeps_labels_opcodes_and_numbers() {
    let lines = vec![
        define(3, "K", Value::Address(4)),
        Line {
            index: 8,
            label: Some("K".to_string()),
            instruction: None,
        },
        Line {
            index: 9,
            label: Some("HERE".to_string()),
            instruction: Some(Instruction::Jz(label("K"))),
        },
        plain(12, Instruction::Mov(Register::B, Register::A)),
        Line {
            index: 20,
            label: None,
            instruction: None,
        },
        plain(21, Instruction::Resb(3)),
    ];
    let out = replace_constants(&lines).unwrap();
    assert_eq!(
        out,
        vec![
            define(3, "K", Value::Address(4)),
            Line {
                index: 8,
                label: Some("K".to_string()),
                instruction: None,
            },
            Line {
                index: 9,
                label: Some("HERE".to_string()),
                instruction: Some(Instruction::Jz(Value::Address(4))),
            },
            plain(12, Instruction::Mov(Register::B, Register::A)),
            Line {
                index: 20,
                label: None,
                instruction: None,
            },
            plain(21, Instruction::Resb(3)),
        ]
    );
}

#[test]
fn label_on_another_instruction_defines_no_constant() {
    let lines = vec![
        Line {
            index: 1,
            label: Some("X".to_string()),
            instruction: Some(Instruction::Db(Value::Immediate(3))),
        },
        plain(2, Instruction::Load(Register::A, label("X"))),
    ];
    let out = replace_constants(&lines).unwrap();
    assert_eq!(out[1], plain(2, Instruction::Load(Register::A, label("X"))));
}

#[test]
fn program_without_lines_folds_to_itself() {
    assert_eq!(replace_constants(&[]), Ok(vec![]));
}

#[test]
fn map_values_rewrites_the_operand_only() {
    let seven = |_: &Value| Value::Immediate(7);
    assert_eq!(
        Instruction::Load(Register::B, label("X")).map_values(seven),
        Instruction::Load(Register::B, Value::Immediate(7))
    );
    assert_eq!(
        Instruction::Store(Register::A, Value::Address(1)).map_values(seven),
        Instruction::Store(Register::A, Value::Immediate(7))
    );
    assert_eq!(
        Instruction::Jmp(label("X")).map_values(seven),
        Instruction::Jmp(Value::Immediate(7))
    );
    assert_eq!(
        Instruction::Jz(label("X")).map_values(seven),
        Instruction::Jz(Value::Immediate(7))
    );
    assert_eq!(
        Instruction::Db(label("X")).map_values(seven),
        Instruction::Db(Value::Immediate(7))
    );
    assert_eq!(
        Instruction::Equ(label("X")).map_values(seven),
        Instruction::Equ(Value::Immediate(7))
    );
}

#[test]
fn map_values_leaves_instructions_without_a_value() {
    let mut calls = 0;
    let out = Instruction::Mov(Register::A, Register::B).map_values(|v| {
        calls += 1;
        v.clone()
    });
    assert_eq!(out, Instruction::Mov(Register::A, Register::B));
    assert_eq!(Instruction::Resb(4).map_values(|v| v.clone()), Instruction::Resb(4));
    assert_eq!(Instruction::Nop.map_values(|v| v.clone()), Instruction::Nop);
    assert_eq!(calls, 0);
}
