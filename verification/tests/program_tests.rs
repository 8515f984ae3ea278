use asm8::encoder::EncodeError;
use asm8::parser::ParseError;
use asm8::program::{
    assemble, compile, join_bytes, encode_lines, parse_source, try_compile, AssembleError,
};
use asm8::encoder::build_symbol_table;
use asm8::types::{Instruction, Line, Register, Value};

fn line(index: usize, label: Option<&str>, instruction: Option<Instruction>) -> Line {
    Line {
        index,
        label: label.map(|name| name.to_string()),
        instruction,
    }
}

#[test]
fn label_at_the_start_resolves_to_address_zero() {
    let bytes = assemble("START: LOAD A,#5\nINC A\nJMP START").unwrap();
    assert_eq!(bytes, vec![0x09, 0x05, 0x0C, 0x06, 0x00]);
}

#[test]
fn constant_is_substituted_before_encoding() {
    let bytes = assemble("X: EQU #7\nLOAD A,X").unwrap();
    assert_eq!(bytes, vec![0x09, 0x07]);
}

#[test]
fn jump_to_undefined_label_fails() {
    let err = assemble("JMP UNDEFINED").unwrap_err();
    assert_eq!(
        err,
        AssembleError::Encode(EncodeError::UndefinedLabel(1, "UNDEFINED".to_string()))
    );
}

#[test]
fn store_of_an_immediate_is_unsupported() {
    let err = assemble("STORE A,#5").unwrap_err();
    assert_eq!(
        err,
        AssembleError::Encode(EncodeError::UnsupportedInstruction(
            1,
            Instruction::Store(Register::A, Value::Immediate(5))
        ))
    );
}

#[test]
fn forward_reference_resolves() {
    let bytes = assemble("JMP END\nNOP\nNOP\nEND: HALT").unwrap();
    assert_eq!(bytes, vec![0x06, 0x04, 0x00, 0x00, 0x0F]);
}

#[test]
fn forward_and_backward_reference_agree() {
    let bytes = assemble("JZ SPOT\nINC A\nSPOT: INC B\nJZ SPOT").unwrap();
    assert_eq!(bytes, vec![0x16, 0x03, 0x0C, 0x10, 0x16, 0x03]);
}

#[test]
fn chain_of_constants_in_a_program() {
    let bytes = assemble("A: EQU B\nB: EQU #5\nLOAD A,A\nDB A").unwrap();
    assert_eq!(bytes, vec![0x09, 0x05, 0x05]);
}

#[test]
fn self_referential_constant_fails() {
    assert_eq!(
        assemble("A: EQU A"),
        Err(AssembleError::Parse(ParseError::CyclicReference(
            Value::Label("A".to_string())
        )))
    );
}

#[test]
fn mutually_referential_constants_fail() {
    assert_eq!(
        assemble("A: EQU B\nB: EQU A\nNOP"),
        Err(AssembleError::Parse(ParseError::CyclicReference(
            Value::Label("B".to_string())
        )))
    );
}

#[test]
fn reserve_of_nothing_does_not_advance_addresses() {
    let bytes = assemble("RESB 0\nHERE: NOP\nJMP HERE").unwrap();
    assert_eq!(bytes, vec![0x00, 0x06, 0x00]);
}

#[test]
fn reserve_of_255_in_a_program() {
    let bytes = assemble("RESB 255\nHERE: JMP HERE").unwrap();
    let mut expected = vec![0u8; 255];
    expected.push(0x06);
    expected.push(0xFF);
    assert_eq!(bytes, expected);
}

#[test]
fn assembling_twice_gives_the_same_bytes() {
    let source = "K: EQU 200\nTOP: LOAD A,K\nADD A,B\nSTORE A,K\nJZ TOP\nJMP OUT\nDB #9\nOUT: HALT";
    let first = assemble(source);
    let second = assemble(source);
    assert_eq!(first, second);
    assert_eq!(
        first,
        Ok(vec![0x1D, 200, 0x0E, 0x1A, 200, 0x16, 0x00, 0x06, 0x0A, 0x09, 0x0F])
    );
}

#[test]
fn blank_lines_are_not_counted() {
    let lines = parse_source("\n\nNOP\n   \n\t\nHALT\n").unwrap();
    assert_eq!(
        lines,
        vec![
            line(1, None, Some(Instruction::Nop)),
            line(2, None, Some(Instruction::Halt)),
        ]
    );
}

#[test]
fn comment_lines_are_counted() {
    let lines = parse_source("; heading\nNOP\n; more\nL:\nHALT").unwrap();
    assert_eq!(
        lines,
        vec![
            line(1, None, None),
            line(2, None, Some(Instruction::Nop)),
            line(3, None, None),
            line(4, Some("L"), None),
            line(5, None, Some(Instruction::Halt)),
        ]
    );
}

#[test]
fn carriage_returns_are_whitespace() {
    let lines = parse_source("NOP\r\n\r\nL: HALT\r\n").unwrap();
    assert_eq!(
        lines,
        vec![
            line(1, None, Some(Instruction::Nop)),
            line(2, Some("L"), Some(Instruction::Halt)),
        ]
    );
}

#[test]
fn empty_source_has_no_lines() {
    assert_eq!(parse_source(""), Ok(vec![]));
    assert_eq!(assemble(""), Ok(vec![]));
    assert_eq!(compile(""), Ok(vec![]));
}

#[test]
fn first_parse_error_is_reported_with_its_line() {
    assert_eq!(
        parse_source("NOP\n\nINC C\nBOGUS\n"),
        Err(ParseError::InvalidRegister(2, "C".to_string()))
    );
    assert_eq!(
        assemble("NOP\n: HALT\nINC C"),
        Err(AssembleError::Parse(ParseError::InvalidLine(
            2,
            ": HALT".to_string()
        )))
    );
}

#[test]
fn parse_error_comes_before_any_encoding() {
    assert_eq!(
        assemble("JMP NOWHERE\nRESB 999"),
        Err(AssembleError::Parse(ParseError::InvalidU8(
            2,
            "999".to_string()
        )))
    );
}

#[test]
fn operand_behind_halt_fails_the_assembly() {
    assert_eq!(
        assemble("NOP\nHALT A"),
        Err(AssembleError::Parse(ParseError::InvalidInstruction(
            2,
            "HALT A".to_string()
        )))
    );
}

#[test]
fn first_encode_error_is_reported_with_its_line() {
    assert_eq!(
        assemble("NOP\nJMP A\nJMP B"),
        Err(AssembleError::Encode(EncodeError::UndefinedLabel(
            2,
            "A".to_string()
        )))
    );
}

#[test]
fn constant_used_as_jump_target_is_unsupported() {
    assert_eq!(
        assemble("T: EQU 5\nJMP T"),
        Err(AssembleError::Encode(EncodeError::UnsupportedInstruction(
            2,
            Instruction::Jmp(Value::Address(5))
        )))
    );
}

#[test]
fn compile_keeps_each_line_beside_its_bytes() {
    let pairs = compile("X: EQU #7\nSTART: LOAD A,X\n; rest\nJMP START").unwrap();
    assert_eq!(
        pairs,
        vec![
            (
                line(1, Some("X"), Some(Instruction::Equ(Value::Immediate(7)))),
                vec![]
            ),
            (
                line(
                    2,
                    Some("START"),
                    Some(Instruction::Load(Register::A, Value::Immediate(7)))
                ),
                vec![0x09, 0x07]
            ),
            (line(3, None, None), vec![]),
            (
                line(
                    4,
                    None,
                    Some(Instruction::Jmp(Value::Label("START".to_string())))
                ),
                vec![0x06, 0x00]
            ),
        ]
    );
    assert_eq!(join_bytes(&pairs), vec![0x09, 0x07, 0x06, 0x00]);
}

#[test]
fn try_compile_agrees_with_compile() {
    let source = "A: INC A\nJZ A\nHALT";
    assert_eq!(try_compile(source), Some(compile(source)));
    assert_eq!(
        try_compile("JMP X"),
        Some(Err(AssembleError::Encode(EncodeError::UndefinedLabel(
            1,
            "X".to_string()
        ))))
    );
}

#[test]
fn encode_lines_uses_the_given_labels() {
    let lines = vec![
        line(1, Some("L"), Some(Instruction::Nop)),
        line(2, None, None),
        line(3, None, Some(Instruction::Jz(Value::Label("L".to_string())))),
    ];
    let table = build_symbol_table(&lines);
    let pairs = encode_lines(&lines, &table).unwrap();
    assert_eq!(pairs.len(), 3);
    assert_eq!(pairs[0], (lines[0].clone(), vec![0x00]));
    assert_eq!(pairs[1], (lines[1].clone(), vec![]));
    assert_eq!(pairs[2], (lines[2].clone(), vec![0x16, 0x00]));
}

#[test]
fn concat_of_nothing_is_empty() {
    assert_eq!(join_bytes(&[]), Vec::<u8>::new());
}
