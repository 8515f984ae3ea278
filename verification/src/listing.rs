//! The texts in which an assembled program is shown: instructions as they
//! are written, bytes in hexadecimal, the memory image in sixteen rows, and
//! the table of lines beside their bytes.

use crate::numeral::{
    decimal, decimal_padded, hex_byte, push_decimal, push_decimal_padded, push_hex_byte,
};
use crate::program::pair_views;
use crate::types::{Instruction, InstructionView, Line, LineView, Register, Value, ValueView};
use tabled::settings::object::{Columns, Rows};
use tabled::settings::{Color, Modify, Style};
use tabled::Table;
use vstd::prelude::*;
use vstd::string::*;

verus! {

impl Register {
    /// The register's name.
    pub open spec fn text(self) -> Seq<char> {
        match self {
            Register::A => "A"@,
            Register::B => "B"@,
        }
    }

    /// The register's name.
    pub fn to_text(&self) -> (out: String)
        ensures
            out@ == self.text(),
    {
        match self {
            Register::A => String::from_str("A"),
            Register::B => String::from_str("B"),
        }
    }
}

impl ValueView {
    /// The value as it is written: an immediate behind a `#`, an address
    /// as a number, a label by its name.
    pub open spec fn text(self) -> Seq<char> {
        match self {
            ValueView::Immediate(v) => seq!['#'] + decimal(v as nat),
            ValueView::Address(v) => decimal(v as nat),
            ValueView::Label(name) => name,
        }
    }
}

impl Value {
    /// The value as it is written.
    pub fn to_text(&self) -> (out: String)
        ensures
            out@ == self@.text(),
    {
        match self {
            Value::Immediate(v) => {
                let mut out = String::new();
                out.push('#');
                push_decimal(&mut out, *v as usize);
                assert(out@ =~= seq!['#'] + decimal(*v as nat));
                out
            },
            Value::Address(v) => {
                let mut out = String::new();
                push_decimal(&mut out, *v as usize);
                assert(out@ =~= decimal(*v as nat));
                out
            },
            Value::Label(name) => name.clone(),
        }
    }
}

/// A mnemonic and one operand, with a space between them.
pub open spec fn with_one(mnemonic: Seq<char>, operand: Seq<char>) -> Seq<char> {
    mnemonic + seq![' '] + operand
}

/// A mnemonic and two operands, with a space before each operand.
pub open spec fn with_two(mnemonic: Seq<char>, first: Seq<char>, second: Seq<char>) -> Seq<char> {
    mnemonic + seq![' '] + first + seq![' '] + second
}

impl InstructionView {
    /// The instruction as it is shown: its mnemonic, and its operands with a
    /// space before each.
    pub open spec fn text(self) -> Seq<char> {
        match self {
            InstructionView::Nop => "NOP"@,
            InstructionView::Input => "INPUT"@,
            InstructionView::Output => "OUTPUT"@,
            InstructionView::Halt => "HALT"@,
            InstructionView::Inc(r) => with_one("INC"@, r.text()),
            InstructionView::Mov(r1, r2) => with_two("MOV"@, r1.text(), r2.text()),
            InstructionView::Add(r1, r2) => with_two("ADD"@, r1.text(), r2.text()),
            InstructionView::Jmp(v) => with_one("JMP"@, v.text()),
            InstructionView::Load(r, v) => with_two("LOAD"@, r.text(), v.text()),
            InstructionView::Sub(r1, r2) => with_two("SUB"@, r1.text(), r2.text()),
            InstructionView::Nand(r1, r2) => with_two("NAND"@, r1.text(), r2.text()),
            InstructionView::Or(r1, r2) => with_two("OR"@, r1.text(), r2.text()),
            InstructionView::Cmp(r1, r2) => with_two("CMP"@, r1.text(), r2.text()),
            InstructionView::Jz(v) => with_one("JZ"@, v.text()),
            InstructionView::Store(r, v) => with_two("STORE"@, r.text(), v.text()),
            InstructionView::Db(v) => with_one("DB"@, v.text()),
            InstructionView::Equ(v) => with_one("EQU"@, v.text()),
            InstructionView::Resb(n) => with_one("RESB"@, decimal(n as nat)),
        }
    }
}

/// A mnemonic and one operand.
fn one_operand(mnemonic: &str, operand: String) -> (out: String)
    ensures
        out@ == with_one(mnemonic@, operand@),
{
    let mut out = String::from_str(mnemonic);
    out.push(' ');
    out.append(operand.as_str());
    out
}

/// A mnemonic and two operands.
fn two_operands(mnemonic: &str, first: String, second: String) -> (out: String)
    ensures
        out@ == with_two(mnemonic@, first@, second@),
{
    let mut out = String::from_str(mnemonic);
    out.push(' ');
    out.append(first.as_str());
    out.push(' ');
    out.append(second.as_str());
    out
}

impl Instruction {
    /// The instruction as it is shown.
    pub fn to_text(&self) -> (out: String)
        ensures
            out@ == self@.text(),
    {
        match self {
            Instruction::Nop => String::from_str("NOP"),
            Instruction::Input => String::from_str("INPUT"),
            Instruction::Output => String::from_str("OUTPUT"),
            Instruction::Halt => String::from_str("HALT"),
            Instruction::Inc(r) => one_operand("INC", r.to_text()),
            Instruction::Mov(r1, r2) => two_operands("MOV", r1.to_text(), r2.to_text()),
            Instruction::Add(r1, r2) => two_operands("ADD", r1.to_text(), r2.to_text()),
            Instruction::Jmp(v) => one_operand("JMP", v.to_text()),
            Instruction::Load(r, v) => two_operands("LOAD", r.to_text(), v.to_text()),
            Instruction::Sub(r1, r2) => two_operands("SUB", r1.to_text(), r2.to_text()),
            Instruction::Nand(r1, r2) => two_operands("NAND", r1.to_text(), r2.to_text()),
            Instruction::Or(r1, r2) => two_operands("OR", r1.to_text(), r2.to_text()),
            Instruction::Cmp(r1, r2) => two_operands("CMP", r1.to_text(), r2.to_text()),
            Instruction::Jz(v) => one_operand("JZ", v.to_text()),
            Instruction::Store(r, v) => two_operands("STORE", r.to_text(), v.to_text()),
            Instruction::Db(v) => one_operand("DB", v.to_text()),
            Instruction::Equ(v) => one_operand("EQU", v.to_text()),
            Instruction::Resb(n) => {
                let mut count = String::new();
                push_decimal(&mut count, *n as usize);
                assert(count@ =~= decimal(*n as nat));
                one_operand("RESB", count)
            },
        }
    }
}

/// Bytes in hexadecimal, two digits each, with a space between each two bytes.
pub open spec fn hex_text(bytes: Seq<u8>) -> Seq<char>
    decreases bytes.len(),
{
    if bytes.len() == 0 {
        Seq::empty()
    } else if bytes.len() == 1 {
        hex_byte(bytes[0])
    } else {
        hex_text(bytes.drop_last()) + seq![' '] + hex_byte(bytes.last())
    }
}

/// Appends `bytes` in hexadecimal, with a space between each two bytes.
pub fn push_hex(s: &mut String, bytes: &[u8])
    ensures
        final(s)@ == old(s)@ + hex_text(bytes@),
{
    let mut i: usize = 0;
    assert(s@ =~= old(s)@ + hex_text(bytes@.take(0)));
    while i < bytes.len()
        invariant
            i <= bytes.len(),
            s@ == old(s)@ + hex_text(bytes@.take(i as int)),
        decreases bytes.len() - i,
    {
        let ghost before = s@;
        if i > 0 {
            s.push(' ');
        }
        push_hex_byte(s, bytes[i]);
        proof {
            assert(bytes@.take(i + 1).drop_last() =~= bytes@.take(i as int));
            assert(s@ =~= old(s)@ + hex_text(bytes@.take(i + 1)));
        }
        i += 1;
    }
    assert(bytes@.take(bytes.len() as int) =~= bytes@);
}

/// The bytes in hexadecimal, with a space between each two of them.
pub fn hex_dump(bytes: &[u8]) -> (out: String)
    ensures
        out@ == hex_text(bytes@),
{
    let mut out = String::new();
    push_hex(&mut out, bytes);
    assert(out@ =~= hex_text(bytes@));
    out
}

/// The memory of the machine with the program at its start: 256 bytes, the
/// bytes of the program first and zeros behind them. A program of more than
/// 256 bytes is cut off.
pub open spec fn memory_image(program: Seq<u8>) -> Seq<u8> {
    Seq::new(
        256,
        |i: int| if i < program.len() {
            program[i]
        } else {
            0u8
        },
    )
}

/// One row of the memory image: the address of its first byte in two
/// hexadecimal digits, a colon, and its sixteen bytes in hexadecimal.
pub open spec fn hex_row(image: Seq<u8>, row: int) -> Seq<char> {
    hex_byte((row * 16) as u8) + seq![':', ' '] + hex_text(image.subrange(row * 16, row * 16 + 16))
}

/// The first `n` rows of the memory image, each behind a line feed.
pub open spec fn hex_rows(image: Seq<u8>, n: nat) -> Seq<char>
    decreases n,
{
    if n == 0 {
        Seq::empty()
    } else {
        hex_rows(image, (n - 1) as nat) + seq!['\n'] + hex_row(image, n - 1)
    }
}

/// The memory image as addressed hexadecimal words: a heading, and the
/// sixteen rows of the image.
pub open spec fn hex_words_text(program: Seq<u8>) -> Seq<char> {
    "v3.0 hex words addressed"@ + hex_rows(memory_image(program), 16)
}

/// The memory of the machine with the program at its start.
fn image_of(program: &[u8]) -> (out: Vec<u8>)
    ensures
        out@ == memory_image(program@),
{
    let mut image: Vec<u8> = Vec::new();
    let mut i: usize = 0;
    while i < 256
        invariant
            i <= 256,
            image@.len() == i,
            forall|k: int| 0 <= k < i ==> image@[k] == memory_image(program@)[k],
        decreases 256 - i,
    {
        let b = if i < program.len() {
            program[i]
        } else {
            0
        };
        image.push(b);
        i += 1;
    }
    assert(image@ =~= memory_image(program@));
    image
}

/// The program as addressed hexadecimal words: the first 256 bytes of the
/// memory, sixteen to a row.
pub fn hex_words(program: &[u8]) -> (out: String)
    ensures
        out@ == hex_words_text(program@),
{
    let image = image_of(program);
    let mut out = String::from_str("v3.0 hex words addressed");
    let ghost heading = out@;
    let mut row: usize = 0;
    assert(out@ =~= heading + hex_rows(image@, 0));
    while row < 16
        invariant
            row <= 16,
            image@.len() == 256,
            out@ == heading + hex_rows(image@, row as nat),
        decreases 16 - row,
    {
        let ghost before = out@;
        out.push('\n');
        push_hex_byte(&mut out, (row * 16) as u8);
        out.push(':');
        out.push(' ');
        let bytes = vstd::slice::slice_subrange(image.as_slice(), row * 16, row * 16 + 16);
        push_hex(&mut out, bytes);
        row += 1;
        assert(out@ =~= before + seq!['\n'] + hex_row(image@, row - 1));
        assert(out@ =~= heading + hex_rows(image@, row as nat));
    }
    out
}

/// The heading of the table of lines.
pub open spec fn heading_row() -> Seq<Seq<char>> {
    seq!["Line"@, "Label"@, "Instruction"@, "Hex Bytes"@]
}

/// The row of a line in the table: its number in two digits at least, its
/// label, its instruction, and its bytes in hexadecimal. What a line does not
/// have is left empty.
pub open spec fn listing_row(line: LineView, bytes: Seq<u8>) -> Seq<Seq<char>> {
    seq![
        decimal_padded(line.index as nat),
        match line.label {
            Some(name) => name,
            None => Seq::empty(),
        },
        match line.instruction {
            Some(instr) => instr.text(),
            None => Seq::empty(),
        },
        hex_text(bytes),
    ]
}

/// The rows of the table of lines: the heading, and one row for each line.
pub open spec fn listing_rows(pairs: Seq<(LineView, Seq<u8>)>) -> Seq<Seq<Seq<char>>> {
    seq![heading_row()] + Seq::new(pairs.len(), |i: int| listing_row(pairs[i].0, pairs[i].1))
}

/// The texts of the cells of a table.
pub open spec fn cell_texts(rows: Seq<Vec<String>>) -> Seq<Seq<Seq<char>>> {
    Seq::new(rows.len(), |i: int| Seq::new(rows[i]@.len(), |j: int| rows[i]@[j]@))
}

/// The row of a line in the table.
fn row_of(line: &Line, bytes: &[u8]) -> (out: Vec<String>)
    ensures
        out@.len() == 4,
        Seq::new(4, |j: int| out@[j]@) == listing_row(line@, bytes@),
{
    let mut number = String::new();
    push_decimal_padded(&mut number, line.index);
    assert(number@ =~= decimal_padded(line.index as nat));
    let label = match &line.label {
        Some(name) => name.clone(),
        None => String::new(),
    };
    let instruction = match &line.instruction {
        Some(instr) => instr.to_text(),
        None => String::new(),
    };
    let hex = hex_dump(bytes);
    let row = vec![number, label, instruction, hex];
    assert(Seq::new(4, |j: int| row@[j]@) =~= listing_row(line@, bytes@));
    row
}

/// The rows of the table of lines.
pub fn listing_rows_of(pairs: &[(Line, Vec<u8>)]) -> (out: Vec<Vec<String>>)
    ensures
        cell_texts(out@) == listing_rows(pair_views(pairs@)),
        out@.len() == pairs@.len() + 1,
        forall|i: int| 0 <= i < out@.len() ==> (#[trigger] out@[i])@.len() == 4,
{
    let heading = vec![
        String::from_str("Line"),
        String::from_str("Label"),
        String::from_str("Instruction"),
        String::from_str("Hex Bytes"),
    ];
    assert(Seq::new(4, |j: int| heading@[j]@) =~= heading_row());
    let mut rows: Vec<Vec<String>> = Vec::new();
    rows.push(heading);
    let ghost all = pair_views(pairs@);
    let mut i: usize = 0;
    while i < pairs.len()
        invariant
            i <= pairs.len(),
            all == pair_views(pairs@),
            rows@.len() == i + 1,
            forall|k: int| 0 <= k < rows@.len() ==> (#[trigger] rows@[k])@.len() == 4,
            Seq::new(4, |j: int| rows@[0]@[j]@) == heading_row(),
            forall|k: int|
                0 <= k < i ==> Seq::new(4, |j: int| (#[trigger] rows@[k + 1])@[j]@) == listing_row(
                    all[k].0,
                    all[k].1,
                ),
        decreases pairs.len() - i,
    {
        let row = row_of(&pairs[i].0, pairs[i].1.as_slice());
        rows.push(row);
        i += 1;
    }
    proof {
        let texts = cell_texts(rows@);
        let wanted = listing_rows(all);
        assert(texts.len() == wanted.len());
        assert forall|k: int| 0 <= k < texts.len() implies texts[k] == wanted[k] by {
            if k == 0 {
                assert(texts[0] =~= Seq::new(4, |j: int| rows@[0]@[j]@));
            } else {
                assert(rows@[k - 1 + 1] == rows@[k]);
                assert(texts[k] =~= Seq::new(4, |j: int| rows@[k]@[j]@));
            }
        }
        assert(texts =~= wanted);
    }
    rows
}

/// The text of a table as `tabled` draws it, with the heading in the first
/// row: in the `modern` style, the heading in blue and the four columns
/// below it in green, yellow, red and magenta.
pub uninterp spec fn drawn_table(rows: Seq<Seq<Seq<char>>>) -> Seq<char>;

/// `Table::from_iter`, `Table::with` and `Table::to_string` of `tabled`:
/// builds a table from rows of cells, sets its style and the colours of its
/// columns and of its first row, and draws it. The text is a function of the
/// cells alone; the contract names it and states no more.
#[verifier::external_body]
fn draw_table(rows: &Vec<Vec<String>>) -> (out: String)
    requires
        rows@.len() >= 1,
        forall|i: int| 0 <= i < rows@.len() ==> (#[trigger] rows@[i])@.len() == 4,
    ensures
        out@ == drawn_table(rows.deep_view()),
{
    let mut table = Table::from_iter(rows.clone());
    table
        .with(Style::modern())
        .with(Modify::new(Columns::one(0)).with(Color::FG_GREEN))
        .with(Modify::new(Columns::one(1)).with(Color::FG_YELLOW))
        .with(Modify::new(Columns::one(2)).with(Color::FG_RED))
        .with(Modify::new(Columns::one(3)).with(Color::FG_MAGENTA))
        .with(Modify::new(Rows::first()).with(Color::FG_BLUE));
    table.to_string()
}

/// The table of the lines of a program beside their bytes, drawn by `tabled`.
pub fn side_by_side(pairs: &[(Line, Vec<u8>)]) -> (out: String)
    ensures
        out@ == drawn_table(listing_rows(pair_views(pairs@))),
{
    let rows = listing_rows_of(pairs);
    assert(rows.deep_view() =~~= cell_texts(rows@));
    draw_table(&rows)
}

} // verus!
