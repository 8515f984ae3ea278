use asm8::encoder::{build_symbol_table, program_fits, EncodeError, SymbolTable};
use asm8::types::{Instruction, Line, Register, Value};

fn label(name: &str) -> Value {
    Value::Label(name.to_string())
}

fn symbols(entries: &[(&str, usize)]) -> SymbolTable {
    let mut table = SymbolTable::new();
    for (name, address) in entries {
        table.insert(name.to_string(), *address);
    }
    table
}

fn line(index: usize, label: Option<&str>, instruction: Option<Instruction>) -> Line {
    Line {
        index,
        label: label.map(|name| name.to_string()),
        instruction,
    }
}

fn unsupported(index: usize, instruction: Instruction) -> Result<Vec<u8>, EncodeError> {
    Err(EncodeError::UnsupportedInstruction(index, instruction))
}

#[test]
fn opcodes_without_operands() {
    let none = SymbolTable::new();
    assert_eq!(Instruction::Nop.encode(1, &none), Ok(vec![0x00]));
    assert_eq!(Instruction::Input.encode(1, &none), Ok(vec![0x04]));
    assert_eq!(Instruction::Output.encode(1, &none), Ok(vec![0x05]));
    assert_eq!(Instruction::Halt.encode(1, &none), Ok(vec![0x0F]));
}

#[test]
fn opcodes_of_register_instructions() {
    let none = SymbolTable::new();
    let a = Register::A;
    let b = Register::B;
    assert_eq!(Instruction::Inc(a).encode(1, &none), Ok(vec![0x0C]));
    assert_eq!(Instruction::Inc(b).encode(1, &none), Ok(vec![0x10]));
    assert_eq!(Instruction::Mov(b, a).encode(1, &none), Ok(vec![0x0D]));
    assert_eq!(Instruction::Mov(a, b).encode(1, &none), Ok(vec![0x11]));
    assert_eq!(Instruction::Add(a, b).encode(1, &none), Ok(vec![0x0E]));
    assert_eq!(Instruction::Sub(a, b).encode(1, &none), Ok(vec![0x12]));
    assert_eq!(Instruction::Nand(a, b).encode(1, &none), Ok(vec![0x13]));
    assert_eq!(Instruction::Or(a, b).encode(1, &none), Ok(vec![0x14]));
    assert_eq!(Instruction::Cmp(a, b).encode(1, &none), Ok(vec![0x15]));
}

#[test]
fn opcodes_with_an_operand_byte() {
    let table = symbols(&[("L", 0x2A)]);
    let a = Register::A;
    assert_eq!(
        Instruction::Jmp(label("L")).encode(1, &table),
        Ok(vec![0x06, 0x2A])
    );
    assert_eq!(
        Instruction::Jz(label("L")).encode(1, &table),
        Ok(vec![0x16, 0x2A])
    );
    assert_eq!(
        Instruction::Load(a, Value::Immediate(0x33)).encode(1, &table),
        Ok(vec![0x09, 0x33])
    );
    assert_eq!(
        Instruction::Load(a, Value::Address(0x44)).encode(1, &table),
        Ok(vec![0x1D, 0x44])
    );
    assert_eq!(
        Instruction::Load(a, label("L")).encode(1, &table),
        Ok(vec![0x1D, 0x2A])
    );
    assert_eq!(
        Instruction::Store(a, Value::Address(0x55)).encode(1, &table),
        Ok(vec![0x1A, 0x55])
    );
    assert_eq!(
        Instruction::Store(a, label("L")).encode(1, &table),
        Ok(vec![0x1A, 0x2A])
    );
}

#[test]
fn directives() {
    let none = SymbolTable::new();
    assert_eq!(
        Instruction::Db(Value::Immediate(0xAB)).encode(1, &none),
        Ok(vec![0xAB])
    );
    assert_eq!(
        Instruction::Equ(Value::Immediate(9)).encode(1, &none),
        Ok(vec![])
    );
    assert_eq!(
        Instruction::Equ(Value::Address(9)).encode(1, &none),
        Ok(vec![])
    );
    assert_eq!(Instruction::Equ(label("ELSE")).encode(1, &none), Ok(vec![]));
    assert_eq!(Instruction::Resb(3).encode(1, &none), Ok(vec![0, 0, 0]));
}

#[test]
fn reserve_of_nothing_emits_nothing() {
    let none = SymbolTable::new();
    assert_eq!(Instruction::Resb(0).encode(1, &none), Ok(vec![]));
    assert_eq!(Instruction::Resb(0).size(), 0);
}

#[test]
fn reserve_of_255_emits_255_zeros() {
    let none = SymbolTable::new();
    assert_eq!(Instruction::Resb(255).encode(1, &none), Ok(vec![0u8; 255]));
    assert_eq!(Instruction::Resb(255).size(), 255);
}

#[test]
fn undefined_label() {
    let table = symbols(&[("L", 1)]);
    assert_eq!(
        Instruction::Jmp(label("M")).encode(4, &table),
        Err(EncodeError::UndefinedLabel(4, "M".to_string()))
    );
    assert_eq!(
        Instruction::Jz(label("M")).encode(5, &table),
        Err(EncodeError::UndefinedLabel(5, "M".to_string()))
    );
    assert_eq!(
        Instruction::Load(Register::A, label("M")).encode(6, &table),
        Err(EncodeError::UndefinedLabel(6, "M".to_string()))
    );
    assert_eq!(
        Instruction::Store(Register::A, label("M")).encode(7, &table),
        Err(EncodeError::UndefinedLabel(7, "M".to_string()))
    );
}

#[test]
fn unsupported_operands() {
    let table = symbols(&[("L", 1)]);
    let a = Register::A;
    let b = Register::B;
    let cases = vec![
        Instruction::Store(a, Value::Immediate(5)),
        Instruction::Store(b, Value::Address(5)),
        Instruction::Store(b, label("L")),
        Instruction::Load(b, Value::Immediate(5)),
        Instruction::Load(b, Value::Address(5)),
        Instruction::Load(b, label("L")),
        Instruction::Jmp(Value::Address(5)),
        Instruction::Jmp(Value::Immediate(5)),
        Instruction::Jz(Value::Address(5)),
        Instruction::Jz(Value::Immediate(5)),
        Instruction::Mov(a, a),
        Instruction::Mov(b, b),
        Instruction::Add(b, a),
        Instruction::Add(a, a),
        Instruction::Sub(b, a),
        Instruction::Nand(b, b),
        Instruction::Or(b, a),
        Instruction::Cmp(a, a),
        Instruction::Db(Value::Address(5)),
        Instruction::Db(label("L")),
    ];
    for instruction in cases {
        assert_eq!(
            instruction.encode(11, &table),
            unsupported(11, instruction.clone())
        );
    }
}

#[test]
fn address_is_encoded_by_its_low_byte() {
    let table = symbols(&[("FAR", 0x1234), ("EDGE", 256), ("LAST", 255)]);
    assert_eq!(
        Instruction::Jmp(label("FAR")).encode(1, &table),
        Ok(vec![0x06, 0x34])
    );
    assert_eq!(
        Instruction::Jmp(label("EDGE")).encode(1, &table),
        Ok(vec![0x06, 0x00])
    );
    assert_eq!(
        Instruction::Jmp(label("LAST")).encode(1, &table),
        Ok(vec![0x06, 0xFF])
    );
}

#[test]
fn sizes() {
    let a = Register::A;
    let b = Register::B;
    assert_eq!(Instruction::Load(a, Value::Immediate(1)).size(), 2);
    assert_eq!(Instruction::Store(a, Value::Address(1)).size(), 2);
    assert_eq!(Instruction::Jmp(label("L")).size(), 2);
    assert_eq!(Instruction::Jz(label("L")).size(), 2);
    assert_eq!(Instruction::Nop.size(), 1);
    assert_eq!(Instruction::Input.size(), 1);
    assert_eq!(Instruction::Output.size(), 1);
    assert_eq!(Instruction::Halt.size(), 1);
    assert_eq!(Instruction::Inc(b).size(), 1);
    assert_eq!(Instruction::Mov(a, b).size(), 1);
    assert_eq!(Instruction::Add(a, b).size(), 1);
    assert_eq!(Instruction::Sub(a, b).size(), 1);
    assert_eq!(Instruction::Nand(a, b).size(), 1);
    assert_eq!(Instruction::Or(a, b).size(), 1);
    assert_eq!(Instruction::Cmp(a, b).size(), 1);
    assert_eq!(Instruction::Db(Value::Immediate(1)).size(), 1);
    assert_eq!(Instruction::Equ(Value::Immediate(1)).size(), 0);
    assert_eq!(Instruction::Resb(17).size(), 17);
}

#[test]
fn encoded_length_is_the_size() {
    let table = symbols(&[("L", 3)]);
    let a = Register::A;
    let b = Register::B;
    let cases = vec![
        Instruction::Nop,
        Instruction::Input,
        Instruction::Output,
        Instruction::Halt,
        Instruction::Inc(a),
        Instruction::Inc(b),
        Instruction::Mov(a, b),
        Instruction::Mov(b, a),
        Instruction::Add(a, b),
        Instruction::Sub(a, b),
        Instruction::Nand(a, b),
        Instruction::Or(a, b),
        Instruction::Cmp(a, b),
        Instruction::Jmp(label("L")),
        Instruction::Jz(label("L")),
        Instruction::Load(a, Value::Immediate(1)),
        Instruction::Load(a, Value::Address(1)),
        Instruction::Load(a, label("L")),
        Instruction::Store(a, Value::Address(1)),
        Instruction::Store(a, label("L")),
        Instruction::Db(Value::Immediate(1)),
        Instruction::Equ(Value::Immediate(1)),
        Instruction::Resb(0),
        Instruction::Resb(9),
    ];
    for instruction in cases {
        let bytes = instruction.encode(1, &table).unwrap();
        assert_eq!(bytes.len(), instruction.size());
    }
}

#[test]
fn symbol_table_of_a_program() {
    let a = Register::A;
    let lines = vec![
        line(1, Some("START"), Some(Instruction::Load(a, Value::Immediate(5)))),
        line(2, None, Some(Instruction::Inc(a))),
        line(3, Some("MID"), None),
        line(4, None, Some(Instruction::Jmp(label("START")))),
        line(5, Some("END"), Some(Instruction::Halt)),
    ];
    let table = build_symbol_table(&lines);
    assert_eq!(table.get("START"), Some(0));
    assert_eq!(table.get("MID"), Some(3));
    assert_eq!(table.get("END"), Some(5));
    assert_eq!(table.get("NONE"), None);
}

#[test]
fn label_before_and_after_its_use_has_one_address() {
    let lines = vec![
        line(1, None, Some(Instruction::Jmp(label("TARGET")))),
        line(2, None, Some(Instruction::Nop)),
        line(3, Some("TARGET"), Some(Instruction::Halt)),
        line(4, None, Some(Instruction::Jmp(label("TARGET")))),
    ];
    let table = build_symbol_table(&lines);
    let before = lines[0].instruction.as_ref().unwrap().encode(1, &table);
    let after = lines[3].instruction.as_ref().unwrap().encode(4, &table);
    assert_eq!(before, Ok(vec![0x06, 0x03]));
    assert_eq!(after, Ok(vec![0x06, 0x03]));
}

#[test]
fn last_label_of_a_name_wins() {
    let lines = vec![
        line(1, Some("L"), Some(Instruction::Nop)),
        line(2, Some("L"), Some(Instruction::Nop)),
        line(3, Some("L"), None),
    ];
    let table = build_symbol_table(&lines);
    assert_eq!(table.get("L"), Some(2));
}

#[test]
fn reserve_advances_by_its_count() {
    let lines = vec![
        line(1, None, Some(Instruction::Resb(0))),
        line(2, Some("A0"), Some(Instruction::Resb(255))),
        line(3, Some("A1"), Some(Instruction::Resb(2))),
        line(4, Some("A2"), None),
    ];
    let table = build_symbol_table(&lines);
    assert_eq!(table.get("A0"), Some(0));
    assert_eq!(table.get("A1"), Some(255));
    assert_eq!(table.get("A2"), Some(257));
}

#[test]
fn definition_of_a_constant_takes_no_room() {
    let lines = vec![
        line(1, Some("X"), Some(Instruction::Equ(Value::Immediate(7)))),
        line(2, Some("START"), Some(Instruction::Db(Value::Immediate(1)))),
        line(3, Some("NEXT"), None),
    ];
    let table = build_symbol_table(&lines);
    assert_eq!(table.get("X"), Some(0));
    assert_eq!(table.get("START"), Some(0));
    assert_eq!(table.get("NEXT"), Some(1));
}

#[test]
fn symbol_table_of_no_lines_is_empty() {
    let table = build_symbol_table(&[]);
    assert_eq!(table.get(""), None);
    assert_eq!(table.get("START"), None);
}

#[test]
fn symbol_table_insert_replaces() {
    let mut table = SymbolTable::new();
    assert_eq!(table.get("A"), None);
    table.insert("A".to_string(), 1);
    table.insert("B".to_string(), 2);
    table.insert("A".to_string(), 3);
    assert_eq!(table.get("A"), Some(3));
    assert_eq!(table.get("B"), Some(2));
    assert_eq!(table.get("a"), None);
}

#[test]
fn small_program_fits() {
    let lines = vec![
        line(1, None, Some(Instruction::Resb(255))),
        line(2, None, Some(Instruction::Resb(255))),
    ];
    assert!(program_fits(&lines));
    assert!(program_fits(&[]));
}
