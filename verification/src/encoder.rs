//! The symbol table and the encoder: the two passes that turn resolved
//! lines into bytes.
//!
//! The first pass gives every label the address of the next instruction; the
//! second maps each instruction to its bytes by a fixed table, looking up
//! the labels that are still operands.

use crate::types::{
    outcome, views, Instruction, InstructionView, Line, LineView, Register, Value, ValueView,
};
use vstd::hash_map::StringHashMap;
use vstd::prelude::*;

verus! {

/// Why an instruction could not be encoded.
#[derive(Debug, PartialEq, Eq)]
pub enum EncodeError {
    /// An operand names a label that the symbol table does not hold. Holds
    /// the line's number and the name.
    UndefinedLabel(usize, String),
    /// The instruction has no encoding with these operands. Holds the line's
    /// number and the instruction.
    UnsupportedInstruction(usize, Instruction),
}

/// The view of an [`EncodeError`].
pub ghost enum EncodeErrorView {
    UndefinedLabel(usize, Seq<char>),
    UnsupportedInstruction(usize, InstructionView),
}

impl View for EncodeError {
    type V = EncodeErrorView;

    open spec fn view(&self) -> EncodeErrorView {
        match self {
            EncodeError::UndefinedLabel(i, name) => EncodeErrorView::UndefinedLabel(*i, name@),
            EncodeError::UnsupportedInstruction(i, instr) => EncodeErrorView::UnsupportedInstruction(
                *i,
                instr@,
            ),
        }
    }
}

/// The addresses of the labels of a program, by name.
pub struct SymbolTable {
    map: StringHashMap<usize>,
}

impl View for SymbolTable {
    type V = Map<Seq<char>, usize>;

    closed spec fn view(&self) -> Map<Seq<char>, usize> {
        self.map@
    }
}

impl SymbolTable {
    /// A table that holds no label.
    pub fn new() -> (out: SymbolTable)
        ensures
            out@ == Map::<Seq<char>, usize>::empty(),
    {
        SymbolTable { map: StringHashMap::new() }
    }

    /// Gives `name` the address `address`, in place of the one it had, if any.
    pub fn insert(&mut self, name: String, address: usize)
        ensures
            final(self)@ == old(self)@.insert(name@, address),
    {
        self.map.insert(name, address);
    }

    /// The address of `name`, if the table holds it.
    pub fn get(&self, name: &str) -> (out: Option<usize>)
        ensures
            out == if self@.contains_key(name@) {
                Some(self@[name@])
            } else {
                None
            },
    {
        match self.map.get(name) {
            Some(address) => Some(*address),
            None => None,
        }
    }
}

impl InstructionView {
    /// The number of bytes that the instruction takes in the program: two with
    /// an operand byte, as many as it reserves for `Resb`, none for `Equ`, and
    /// one for every other.
    pub open spec fn size(self) -> nat {
        match self {
            InstructionView::Load(_, _) => 2,
            InstructionView::Store(_, _) => 2,
            InstructionView::Jmp(_) => 2,
            InstructionView::Jz(_) => 2,
            InstructionView::Resb(n) => n as nat,
            InstructionView::Equ(_) => 0,
            _ => 1,
        }
    }
}

impl LineView {
    /// The number of bytes that the line takes in the program.
    pub open spec fn size(self) -> nat {
        match self.instruction {
            Some(instr) => instr.size(),
            None => 0,
        }
    }
}

/// The number of bytes that the lines take together.
pub open spec fn program_size(lines: Seq<LineView>) -> nat
    decreases lines.len(),
{
    if lines.len() == 0 {
        0
    } else {
        program_size(lines.drop_last()) + lines.last().size()
    }
}

/// The symbol table of a program: each label has the address at which its
/// line begins, which is the size of all the lines before it. A label
/// that stands on several lines has the address of the last of them.
pub open spec fn symbol_table(lines: Seq<LineView>) -> Map<Seq<char>, usize>
    decreases lines.len(),
{
    if lines.len() == 0 {
        Map::empty()
    } else {
        let before = lines.drop_last();
        match lines.last().label {
            Some(name) => symbol_table(before).insert(name, program_size(before) as usize),
            None => symbol_table(before),
        }
    }
}

/// The lines up to any point take no more bytes than the whole program.
pub proof fn lemma_program_size_prefix(lines: Seq<LineView>, k: int)
    requires
        0 <= k <= lines.len(),
    ensures
        program_size(lines.take(k)) <= program_size(lines),
    decreases lines.len(),
{
    if k == lines.len() {
        assert(lines.take(k) =~= lines);
    } else {
        lemma_program_size_prefix(lines.drop_last(), k);
        assert(lines.drop_last().take(k) =~= lines.take(k));
    }
}

impl Instruction {
    /// The number of bytes that the instruction takes in the program.
    pub fn size(&self) -> (n: usize)
        ensures
            n == self@.size(),
    {
        match self {
            Instruction::Load(_, _) => 2,
            Instruction::Jmp(_) => 2,
            Instruction::Jz(_) => 2,
            Instruction::Store(_, _) => 2,
            Instruction::Resb(n) => *n as usize,
            Instruction::Equ(_) => 0,
            _ => 1,
        }
    }
}

/// Whether the size of the program can be held in a `usize`.
pub fn program_fits(lines: &[Line]) -> (fits: bool)
    ensures
        fits == (program_size(views(lines@)) <= usize::MAX),
{
    let mut total: usize = 0;
    let mut i: usize = 0;
    let ghost all = views(lines@);
    while i < lines.len()
        invariant
            i <= lines.len(),
            all == views(lines@),
            total == program_size(all.take(i as int)),
        decreases lines.len() - i,
    {
        let size = match &lines[i].instruction {
            Some(instr) => instr.size(),
            None => 0,
        };
        proof {
            assert(all.take(i + 1).drop_last() =~= all.take(i as int));
            assert(all.take(i + 1).last() == lines@[i as int]@);
            lemma_program_size_prefix(all, i + 1);
        }
        match total.checked_add(size) {
            Some(sum) => {
                total = sum;
            },
            None => {
                return false;
            },
        }
        i += 1;
    }
    assert(all.take(lines.len() as int) =~= all);
    true
}

/// Builds the symbol table of a program in one pass over its lines. The size
/// of the program must fit in a `usize`.
pub fn build_symbol_table(lines: &[Line]) -> (out: SymbolTable)
    requires
        program_size(views(lines@)) <= usize::MAX,
    ensures
        out@ == symbol_table(views(lines@)),
{
    let mut table = SymbolTable::new();
    let mut address: usize = 0;
    let mut i: usize = 0;
    let ghost all = views(lines@);
    while i < lines.len()
        invariant
            i <= lines.len(),
            all == views(lines@),
            program_size(all) <= usize::MAX,
            address == program_size(all.take(i as int)),
            table@ == symbol_table(all.take(i as int)),
        decreases lines.len() - i,
    {
        let line = &lines[i];
        proof {
            assert(all.take(i + 1).drop_last() =~= all.take(i as int));
            assert(all.take(i + 1).last() == line@);
            lemma_program_size_prefix(all, i + 1);
        }
        match &line.label {
            Some(name) => {
                table.insert(name.clone(), address);
            },
            None => {},
        }
        match &line.instruction {
            Some(instr) => {
                address = address + instr.size();
            },
            None => {},
        }
        i += 1;
    }
    assert(all.take(lines.len() as int) =~= all);
    table
}

/// The byte that stands for an address in an operand: its low eight bits.
pub open spec fn address_byte(address: usize) -> u8 {
    (address % 256) as u8
}

/// The operand byte of a label: the byte of its address in `symbols`. A label
/// that `symbols` does not hold is an error, which names the line and the label.
pub open spec fn label_byte(index: usize, name: Seq<char>, symbols: Map<Seq<char>, usize>) -> Result<
    u8,
    EncodeErrorView,
> {
    if symbols.contains_key(name) {
        Ok(address_byte(symbols[name]))
    } else {
        Err(EncodeErrorView::UndefinedLabel(index, name))
    }
}

/// An opcode followed by the operand byte of a label.
pub open spec fn with_label(
    opcode: u8,
    index: usize,
    name: Seq<char>,
    symbols: Map<Seq<char>, usize>,
) -> Result<Seq<u8>, EncodeErrorView> {
    match label_byte(index, name, symbols) {
        Ok(b) => Ok(seq![opcode, b]),
        Err(e) => Err(e),
    }
}

/// The bytes of an instruction on line `index`, with the labels in `symbols`.
/// This is the machine's opcode table; an instruction with operands that the
/// table does not list has no encoding.
pub open spec fn encoding(instr: InstructionView, index: usize, symbols: Map<Seq<char>, usize>) -> Result<
    Seq<u8>,
    EncodeErrorView,
> {
    match instr {
        InstructionView::Nop => Ok(seq![0x00u8]),
        InstructionView::Input => Ok(seq![0x04u8]),
        InstructionView::Output => Ok(seq![0x05u8]),
        InstructionView::Jmp(ValueView::Label(name)) => with_label(0x06, index, name, symbols),
        InstructionView::Load(Register::A, ValueView::Immediate(v)) => Ok(seq![0x09u8, v]),
        InstructionView::Load(Register::A, ValueView::Address(v)) => Ok(seq![0x1du8, v]),
        InstructionView::Load(Register::A, ValueView::Label(name)) => with_label(
            0x1d,
            index,
            name,
            symbols,
        ),
        InstructionView::Inc(Register::A) => Ok(seq![0x0cu8]),
        InstructionView::Inc(Register::B) => Ok(seq![0x10u8]),
        InstructionView::Mov(Register::B, Register::A) => Ok(seq![0x0du8]),
        InstructionView::Mov(Register::A, Register::B) => Ok(seq![0x11u8]),
        InstructionView::Add(Register::A, Register::B) => Ok(seq![0x0eu8]),
        InstructionView::Sub(Register::A, Register::B) => Ok(seq![0x12u8]),
        InstructionView::Nand(Register::A, Register::B) => Ok(seq![0x13u8]),
        InstructionView::Or(Register::A, Register::B) => Ok(seq![0x14u8]),
        InstructionView::Cmp(Register::A, Register::B) => Ok(seq![0x15u8]),
        InstructionView::Jz(ValueView::Label(name)) => with_label(0x16, index, name, symbols),
        InstructionView::Store(Register::A, ValueView::Address(v)) => Ok(seq![0x1au8, v]),
        InstructionView::Store(Register::A, ValueView::Label(name)) => with_label(
            0x1a,
            index,
            name,
            symbols,
        ),
        InstructionView::Halt => Ok(seq![0x0fu8]),
        InstructionView::Db(ValueView::Immediate(v)) => Ok(seq![v]),
        InstructionView::Equ(_) => Ok(Seq::empty()),
        InstructionView::Resb(n) => Ok(Seq::new(n as nat, |i: int| 0u8)),
        _ => Err(EncodeErrorView::UnsupportedInstruction(index, instr)),
    }
}

/// The low eight bits of an address.
fn low_byte(address: usize) -> (b: u8)
    ensures
        b == address_byte(address),
{
    (address % 256) as u8
}

/// Looks up the operand byte of a label.
fn lookup(index: usize, name: &String, symbols: &SymbolTable) -> (out: Result<u8, EncodeError>)
    ensures
        outcome(out) == label_byte(index, name@, symbols@),
{
    match symbols.get(name.as_str()) {
        Some(address) => Ok(low_byte(address)),
        None => Err(EncodeError::UndefinedLabel(index, name.clone())),
    }
}

/// An opcode followed by the operand byte of a label.
fn opcode_and_label(opcode: u8, index: usize, name: &String, symbols: &SymbolTable) -> (out: Result<
    Vec<u8>,
    EncodeError,
>)
    ensures
        outcome(out) == with_label(opcode, index, name@, symbols@),
{
    match lookup(index, name, symbols) {
        Ok(b) => {
            let bytes = vec![opcode, b];
            assert(bytes@ =~= seq![opcode, b]);
            Ok(bytes)
        },
        Err(e) => Err(e),
    }
}

/// One byte.
fn one(b: u8) -> (out: Result<Vec<u8>, EncodeError>)
    ensures
        outcome(out) == Ok::<Seq<u8>, EncodeErrorView>(seq![b]),
{
    let bytes = vec![b];
    assert(bytes@ =~= seq![b]);
    Ok(bytes)
}

/// Two bytes.
fn two(a: u8, b: u8) -> (out: Result<Vec<u8>, EncodeError>)
    ensures
        outcome(out) == Ok::<Seq<u8>, EncodeErrorView>(seq![a, b]),
{
    let bytes = vec![a, b];
    assert(bytes@ =~= seq![a, b]);
    Ok(bytes)
}

/// `n` bytes that are zero.
fn zeros(n: u8) -> (out: Vec<u8>)
    ensures
        out@ == Seq::new(n as nat, |i: int| 0u8),
{
    let mut bytes: Vec<u8> = Vec::new();
    let mut i: u8 = 0;
    while i < n
        invariant
            i <= n,
            bytes@ == Seq::new(i as nat, |k: int| 0u8),
        decreases n - i,
    {
        bytes.push(0);
        i += 1;
        assert(bytes@ =~= Seq::new(i as nat, |k: int| 0u8));
    }
    bytes
}

/// A jump, plain or on zero: only a label can be its target.
fn encode_jump(jump: &Instruction, opcode: u8, target: &Value, index: usize, symbols: &SymbolTable) -> (out:
    Result<Vec<u8>, EncodeError>)
    requires
        (*jump == Instruction::Jmp(*target) && opcode == 0x06) || (*jump == Instruction::Jz(*target)
            && opcode == 0x16),
    ensures
        outcome(out) == encoding(jump@, index, symbols@),
{
    match target {
        Value::Label(name) => opcode_and_label(opcode, index, name, symbols),
        _ => Err(EncodeError::UnsupportedInstruction(index, jump.clone())),
    }
}

/// A load: into `A`, of an immediate, of an address or of a label.
fn encode_load(load: &Instruction, r: Register, v: &Value, index: usize, symbols: &SymbolTable) -> (out:
    Result<Vec<u8>, EncodeError>)
    requires
        *load == Instruction::Load(r, *v),
    ensures
        outcome(out) == encoding(load@, index, symbols@),
{
    match (r, v) {
        (Register::A, Value::Immediate(b)) => two(0x09, *b),
        (Register::A, Value::Address(b)) => two(0x1d, *b),
        (Register::A, Value::Label(name)) => opcode_and_label(0x1d, index, name, symbols),
        _ => Err(EncodeError::UnsupportedInstruction(index, load.clone())),
    }
}

/// A store: from `A`, to an address or to a label.
fn encode_store(store: &Instruction, r: Register, v: &Value, index: usize, symbols: &SymbolTable) -> (out:
    Result<Vec<u8>, EncodeError>)
    requires
        *store == Instruction::Store(r, *v),
    ensures
        outcome(out) == encoding(store@, index, symbols@),
{
    match (r, v) {
        (Register::A, Value::Address(b)) => two(0x1a, *b),
        (Register::A, Value::Label(name)) => opcode_and_label(0x1a, index, name, symbols),
        _ => Err(EncodeError::UnsupportedInstruction(index, store.clone())),
    }
}

/// An instruction on two registers other than `Mov`: only `A, B` has an encoding.
fn encode_pair(instr: &Instruction, opcode: u8, r1: Register, r2: Register, index: usize) -> (out:
    Result<Vec<u8>, EncodeError>)
    requires
        (*instr == Instruction::Add(r1, r2) && opcode == 0x0e) || (*instr == Instruction::Sub(r1, r2)
            && opcode == 0x12) || (*instr == Instruction::Nand(r1, r2) && opcode == 0x13) || (*instr
            == Instruction::Or(r1, r2) && opcode == 0x14) || (*instr == Instruction::Cmp(r1, r2)
            && opcode == 0x15),
    ensures
        forall|symbols: Map<Seq<char>, usize>| outcome(out) == #[trigger] encoding(instr@, index, symbols),
{
    match (r1, r2) {
        (Register::A, Register::B) => one(opcode),
        _ => Err(EncodeError::UnsupportedInstruction(index, instr.clone())),
    }
}

/// A move between the two registers.
fn encode_mov(mov: &Instruction, r1: Register, r2: Register, index: usize) -> (out: Result<
    Vec<u8>,
    EncodeError,
>)
    requires
        *mov == Instruction::Mov(r1, r2),
    ensures
        forall|symbols: Map<Seq<char>, usize>| outcome(out) == #[trigger] encoding(mov@, index, symbols),
{
    match (r1, r2) {
        (Register::B, Register::A) => one(0x0d),
        (Register::A, Register::B) => one(0x11),
        _ => Err(EncodeError::UnsupportedInstruction(index, mov.clone())),
    }
}

impl Instruction {
    /// Encodes the instruction, which stands on line `index`, with the labels
    /// in `symbols`. On success the bytes are as many as `size` says.
    pub fn encode(&self, index: usize, symbols: &SymbolTable) -> (out: Result<
        Vec<u8>,
        EncodeError,
    >)
        ensures
            outcome(out) == encoding(self@, index, symbols@),
            out matches Ok(bytes) ==> bytes@.len() == self@.size(),
    {
        proof {
            lemma_encoding_has_size(self@, index, symbols@);
        }
        match self {
            Instruction::Nop => one(0x00),
            Instruction::Input => one(0x04),
            Instruction::Output => one(0x05),
            Instruction::Halt => one(0x0f),
            Instruction::Inc(Register::A) => one(0x0c),
            Instruction::Inc(Register::B) => one(0x10),
            Instruction::Mov(r1, r2) => encode_mov(self, *r1, *r2, index),
            Instruction::Add(r1, r2) => encode_pair(self, 0x0e, *r1, *r2, index),
            Instruction::Sub(r1, r2) => encode_pair(self, 0x12, *r1, *r2, index),
            Instruction::Nand(r1, r2) => encode_pair(self, 0x13, *r1, *r2, index),
            Instruction::Or(r1, r2) => encode_pair(self, 0x14, *r1, *r2, index),
            Instruction::Cmp(r1, r2) => encode_pair(self, 0x15, *r1, *r2, index),
            Instruction::Jmp(v) => encode_jump(self, 0x06, v, index, symbols),
            Instruction::Jz(v) => encode_jump(self, 0x16, v, index, symbols),
            Instruction::Load(r, v) => encode_load(self, *r, v, index, symbols),
            Instruction::Store(r, v) => encode_store(self, *r, v, index, symbols),
            Instruction::Db(Value::Immediate(v)) => one(*v),
            Instruction::Db(_) => Err(EncodeError::UnsupportedInstruction(index, self.clone())),
            Instruction::Equ(_) => Ok(Vec::new()),
            Instruction::Resb(n) => Ok(zeros(*n)),
        }
    }
}

/// An instruction that is encoded takes as many bytes as its size says,
/// whatever the line and the symbol table.
pub proof fn lemma_encoding_has_size(
    instr: InstructionView,
    index: usize,
    symbols: Map<Seq<char>, usize>,
)
    ensures
        encoding(instr, index, symbols) matches Ok(bytes) ==> bytes.len() == instr.size(),
{
}

/// The address of a label is the size of the lines before the last line
/// that bears it.
pub proof fn lemma_label_address(lines: Seq<LineView>, name: Seq<char>, d: int)
    requires
        0 <= d < lines.len(),
        lines[d].label == Some(name),
        forall|k: int| d < k < lines.len() ==> (#[trigger] lines[k]).label != Some(name),
    ensures
        symbol_table(lines).contains_key(name),
        symbol_table(lines)[name] == program_size(lines.take(d)) as usize,
    decreases lines.len(),
{
    let before = lines.drop_last();
    if d == lines.len() - 1 {
        assert(lines.take(d) =~= before);
    } else {
        assert(lines[lines.len() - 1].label != Some(name));
        assert(before[d] == lines[d]);
        assert forall|k: int| d < k < before.len() implies (#[trigger] before[k]).label != Some(
            name,
        ) by {
            assert(before[k] == lines[k]);
        }
        lemma_label_address(before, name, d);
        assert(before.take(d) =~= lines.take(d));
    }
}

/// A name that no line bears is no label of the program.
pub proof fn lemma_label_absent(lines: Seq<LineView>, name: Seq<char>)
    requires
        forall|k: int| 0 <= k < lines.len() ==> (#[trigger] lines[k]).label != Some(name),
    ensures
        !symbol_table(lines).contains_key(name),
    decreases lines.len(),
{
    if lines.len() > 0 {
        let before = lines.drop_last();
        assert(lines[lines.len() - 1].label != Some(name));
        assert forall|k: int| 0 <= k < before.len() implies (#[trigger] before[k]).label != Some(
            name,
        ) by {
            assert(before[k] == lines[k]);
        }
        lemma_label_absent(before, name);
    }
}

/// A label resolves to the same address wherever it is used: on a line
/// before the one that defines it as on a line after it. The operand byte of
/// a use on the lines `i` and `j` is the byte of the address at which the
/// defining line `d` begins.
pub proof fn lemma_label_use_is_order_independent(
    lines: Seq<LineView>,
    name: Seq<char>,
    d: int,
    i: int,
    j: int,
)
    requires
        0 <= d < lines.len(),
        lines[d].label == Some(name),
        forall|k: int| d < k < lines.len() ==> (#[trigger] lines[k]).label != Some(name),
        0 <= i < lines.len(),
        0 <= j < lines.len(),
    ensures
        label_byte(lines[i].index, name, symbol_table(lines)) == label_byte(
            lines[j].index,
            name,
            symbol_table(lines),
        ),
        label_byte(lines[i].index, name, symbol_table(lines)) == Ok::<u8, EncodeErrorView>(
            address_byte(program_size(lines.take(d)) as usize),
        ),
{
    lemma_label_address(lines, name, d);
}

/// The bytes of an instruction do not depend on the line it stands on: the
/// line's number only goes into the error.
pub proof fn lemma_encoding_ignores_line(
    instr: InstructionView,
    a: usize,
    b: usize,
    symbols: Map<Seq<char>, usize>,
)
    ensures
        encoding(instr, a, symbols) is Ok <==> encoding(instr, b, symbols) is Ok,
        encoding(instr, a, symbols) is Ok ==> encoding(instr, b, symbols) == encoding(
            instr,
            a,
            symbols,
        ),
{
}

/// Whether the instruction is one of the machine's own, and no directive to
/// the assembler.
pub open spec fn is_machine_instruction(instr: InstructionView) -> bool {
    !(instr is Db || instr is Equ || instr is Resb)
}

/// The bytes of a machine instruction tell what was encoded: two machine
/// instructions with the same first byte have the same opcode and the same
/// registers, and both or neither have an immediate operand; with the same
/// bytes throughout, their operand bytes are the same too.
pub proof fn lemma_opcode_identifies_instruction(
    a: InstructionView,
    b: InstructionView,
    index_a: usize,
    index_b: usize,
    symbols: Map<Seq<char>, usize>,
)
    requires
        is_machine_instruction(a),
        is_machine_instruction(b),
        encoding(a, index_a, symbols) is Ok,
        encoding(b, index_b, symbols) is Ok,
        encoding(a, index_a, symbols)->Ok_0[0] == encoding(b, index_b, symbols)->Ok_0[0],
    ensures
        a.with_operand(ValueView::Immediate(0)) == b.with_operand(ValueView::Immediate(0)),
        a.operand() is Some ==> (a.operand()->0 is Immediate <==> b.operand()->0 is Immediate),
        encoding(a, index_a, symbols) == encoding(b, index_b, symbols) ==> a.size() == b.size(),
{
}

} // verus!
