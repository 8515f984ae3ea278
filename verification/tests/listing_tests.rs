use asm8::listing::{hex_dump, hex_words, listing_rows_of, side_by_side};
use asm8::types::{Instruction, Line, Register, Value};

fn label(name: &str) -> Value {
    Value::Label(name.to_string())
}

#[test]
fn register_text() {
    assert_eq!(Register::A.to_text(), "A");
    assert_eq!(Register::B.to_text(), "B");
}

#[test]
fn value_text() {
    assert_eq!(Value::Immediate(0).to_text(), "#0");
    assert_eq!(Value::Immediate(42).to_text(), "#42");
    assert_eq!(Value::Immediate(255).to_text(), "#255");
    assert_eq!(Value::Address(8).to_text(), "8");
    assert_eq!(Value::Address(100).to_text(), "100");
    assert_eq!(label("START").to_text(), "START");
    assert_eq!(label("").to_text(), "");
}

#[test]
fn instruction_text() {
    let a = Register::A;
    let b = Register::B;
    assert_eq!(Instruction::Nop.to_text(), "NOP");
    assert_eq!(Instruction::Input.to_text(), "INPUT");
    assert_eq!(Instruction::Output.to_text(), "OUTPUT");
    assert_eq!(Instruction::Halt.to_text(), "HALT");
    assert_eq!(Instruction::Inc(b).to_text(), "INC B");
    assert_eq!(Instruction::Mov(b, a).to_text(), "MOV B A");
    assert_eq!(Instruction::Add(a, b).to_text(), "ADD A B");
    assert_eq!(Instruction::Sub(a, b).to_text(), "SUB A B");
    assert_eq!(Instruction::Nand(a, b).to_text(), "NAND A B");
    assert_eq!(Instruction::Or(a, b).to_text(), "OR A B");
    assert_eq!(Instruction::Cmp(a, b).to_text(), "CMP A B");
    assert_eq!(Instruction::Jmp(label("L")).to_text(), "JMP L");
    assert_eq!(Instruction::Jz(Value::Address(7)).to_text(), "JZ 7");
    assert_eq!(
        Instruction::Load(a, Value::Immediate(5)).to_text(),
        "LOAD A #5"
    );
    assert_eq!(
        Instruction::Store(a, Value::Address(200)).to_text(),
        "STORE A 200"
    );
    assert_eq!(Instruction::Db(Value::Immediate(9)).to_text(), "DB #9");
    assert_eq!(Instruction::Equ(label("K")).to_text(), "EQU K");
    assert_eq!(Instruction::Resb(0).to_text(), "RESB 0");
    assert_eq!(Instruction::Resb(255).to_text(), "RESB 255");
}

#[test]
fn hex_dump_of_bytes() {
    assert_eq!(hex_dump(&[]), "");
    assert_eq!(hex_dump(&[0]), "00");
    assert_eq!(hex_dump(&[0x09, 0x05, 0x0C, 0x06, 0x00]), "09 05 0C 06 00");
    assert_eq!(hex_dump(&[0xAB, 0xCD, 0xEF, 0xFF, 0x9A]), "AB CD EF FF 9A");
}

fn zero_row(address: &str) -> String {
    format!("{}: 00 00 00 00 00 00 00 00 00 00 00 00 00 00 00 00", address)
}

#[test]
fn hex_words_of_a_small_program() {
    let mut expected = vec![
        "v3.0 hex words addressed".to_string(),
        "00: 09 05 0C 06 00 00 00 00 00 00 00 00 00 00 00 00".to_string(),
    ];
    for address in [
        "10", "20", "30", "40", "50", "60", "70", "80", "90", "A0", "B0", "C0", "D0", "E0", "F0",
    ] {
        expected.push(zero_row(address));
    }
    assert_eq!(
        hex_words(&[0x09, 0x05, 0x0C, 0x06, 0x00]),
        expected.join("\n")
    );
}

#[test]
fn hex_words_of_no_program_is_all_zeros() {
    let text = hex_words(&[]);
    let rows: Vec<&str> = text.split('\n').collect();
    assert_eq!(rows.len(), 17);
    assert_eq!(rows[0], "v3.0 hex words addressed");
    assert_eq!(rows[1], zero_row("00"));
    assert_eq!(rows[16], zero_row("F0"));
}

#[test]
fn hex_words_crosses_rows() {
    let program: Vec<u8> = (1u8..=18).collect();
    let text = hex_words(&program);
    let rows: Vec<&str> = text.split('\n').collect();
    assert_eq!(rows[1], "00: 01 02 03 04 05 06 07 08 09 0A 0B 0C 0D 0E 0F 10");
    assert_eq!(rows[2], "10: 11 12 00 00 00 00 00 00 00 00 00 00 00 00 00 00");
}

#[test]
fn hex_words_cuts_a_program_of_more_than_256_bytes() {
    let program = vec![0xEEu8; 300];
    let text = hex_words(&program);
    let rows: Vec<&str> = text.split('\n').collect();
    assert_eq!(rows.len(), 17);
    for row in &rows[1..] {
        assert!(row.ends_with(": EE EE EE EE EE EE EE EE EE EE EE EE EE EE EE EE"));
    }
    assert_eq!(text.matches("EE").count(), 256);
}

fn sample() -> Vec<(Line, Vec<u8>)> {
    vec![
        (
            Line {
                index: 1,
                label: Some("START".to_string()),
                instruction: Some(Instruction::Load(Register::A, Value::Immediate(5))),
            },
            vec![0x09, 0x05],
        ),
        (
            Line {
                index: 2,
                label: None,
                instruction: None,
            },
            vec![],
        ),
        (
            Line {
                index: 12,
                label: None,
                instruction: Some(Instruction::Jmp(label("START"))),
            },
            vec![0x06, 0x00],
        ),
    ]
}

#[test]
fn listing_rows_of_a_program() {
    let rows = listing_rows_of(&sample());
    assert_eq!(
        rows,
        vec![
            vec!["Line", "Label", "Instruction", "Hex Bytes"],
            vec!["01", "START", "LOAD A #5", "09 05"],
            vec!["02", "", "", ""],
            vec!["12", "", "JMP START", "06 00"],
        ]
    );
}

#[test]
fn listing_rows_of_no_lines_is_the_heading() {
    assert_eq!(
        listing_rows_of(&[]),
        vec![vec!["Line", "Label", "Instruction", "Hex Bytes"]]
    );
}

#[test]
fn line_number_of_three_digits_is_not_cut() {
    let pairs = vec![(
        Line {
            index: 123,
            label: None,
            instruction: Some(Instruction::Nop),
        },
        vec![0u8],
    )];
    assert_eq!(listing_rows_of(&pairs)[1][0], "123");
}

#[test]
fn side_by_side_draws_a_table() {
    let text = side_by_side(&sample());
    let rows: Vec<&str> = text.split('\n').collect();
    assert_eq!(rows.len(), 9);
    assert!(rows[0].starts_with('┌'));
    assert!(rows[0].ends_with('┐'));
    assert!(rows[8].starts_with('└'));
    assert!(rows[8].ends_with('┘'));
    assert!(rows[1].contains("Line"));
    assert!(rows[1].contains("Hex Bytes"));
    assert!(rows[1].contains("\u{1b}[34m"));
    assert!(rows[3].contains("\u{1b}[32m01"));
    assert!(rows[3].contains("\u{1b}[33mSTART"));
    assert!(rows[3].contains("\u{1b}[31mLOAD A #5"));
    assert!(rows[3].contains("\u{1b}[35m09 05"));
    assert!(rows[7].contains("JMP START"));
    assert_ne!(text, "Line");
}

#[test]
fn side_by_side_of_two_lines() {
    let pairs = vec![
        (
            Line {
                index: 1,
                label: Some("START".to_string()),
                instruction: Some(Instruction::Load(Register::A, Value::Immediate(5))),
            },
            vec![0x09u8, 0x05],
        ),
        (
            Line {
                index: 2,
                label: None,
                instruction: None,
            },
            vec![],
        ),
    ];
    let expected = "┌──────┬───────┬─────────────┬───────────┐\n│ \u{1b}[34mLine\u{1b}[39m │ \u{1b}[34mLabel\u{1b}[39m │ \u{1b}[34mInstruction\u{1b}[39m │ \u{1b}[34mHex Bytes\u{1b}[39m │\n├──────┼───────┼─────────────┼───────────┤\n│ \u{1b}[32m01\u{1b}[39m   │ \u{1b}[33mSTART\u{1b}[39m │ \u{1b}[31mLOAD A #5\u{1b}[39m   │ \u{1b}[35m09 05\u{1b}[39m     │\n├──────┼───────┼─────────────┼───────────┤\n│ \u{1b}[32m02\u{1b}[39m   │ \u{1b}[33m\u{1b}[39m      │ \u{1b}[31m\u{1b}[39m            │ \u{1b}[35m\u{1b}[39m          │\n└──────┴───────┴─────────────┴───────────┘";
    assert_eq!(side_by_side(&pairs), expected);
}
