//! The line parser: from one line of source text to a [`Line`].
//!
//! The grammar is stated by the spec functions `parse_line`,
//! `parse_instruction`, `parse_register`, `parse_value` and `parse_count`
//! over sequences of characters; the executable parsers are proved to
//! compute exactly these.

use crate::numeral::{parse_byte, read_byte};
use crate::text::{
    chars_of, find_char, is_whitespace, join_words, join_words_from, lemma_trim_end,
    lemma_trim_start, position, same_text, skip_whitespace, skip_word, string_of, to_upper, trim,
    trim_start, trimmed, upper, upper_text, word_len, words,
};
use crate::types::{
    outcome, Instruction, InstructionView, Line, LineView, Register, Value, ValueView,
};
use vstd::prelude::*;
use vstd::slice::slice_subrange;

verus! {

/// Why a line, or a program, was rejected before encoding.
#[derive(Debug, PartialEq, Eq)]
pub enum ParseError {
    /// The line has a `:` with no label before it. Holds the line's number and its
    /// normalised text.
    InvalidLine(usize, String),
    /// The mnemonic is unknown, or the operands are not as many as the
    /// mnemonic takes: an operand stands behind an instruction that takes
    /// none, or an instruction with two operands has no `,`. Holds the line's
    /// number and the instruction's text.
    InvalidInstruction(usize, String),
    /// A register was expected. Holds the line's number and what stood there.
    InvalidRegister(usize, String),
    /// A count from 0 to 255 was expected. Holds the line's number and what stood there.
    InvalidU8(usize, String),
    /// The definitions of constants lead back to a name already met. Holds the
    /// value at which that was found.
    CyclicReference(Value),
}

/// The view of a [`ParseError`].
pub ghost enum ParseErrorView {
    InvalidLine(usize, Seq<char>),
    InvalidInstruction(usize, Seq<char>),
    InvalidRegister(usize, Seq<char>),
    InvalidU8(usize, Seq<char>),
    CyclicReference(ValueView),
}

impl View for ParseError {
    type V = ParseErrorView;

    open spec fn view(&self) -> ParseErrorView {
        match self {
            ParseError::InvalidLine(i, s) => ParseErrorView::InvalidLine(*i, s@),
            ParseError::InvalidInstruction(i, s) => ParseErrorView::InvalidInstruction(*i, s@),
            ParseError::InvalidRegister(i, s) => ParseErrorView::InvalidRegister(*i, s@),
            ParseError::InvalidU8(i, s) => ParseErrorView::InvalidU8(*i, s@),
            ParseError::CyclicReference(v) => ParseErrorView::CyclicReference(v@),
        }
    }
}

/// The register that `s` names: `A` or `B`, and nothing else.
pub open spec fn parse_register(index: usize, s: Seq<char>) -> Result<Register, ParseErrorView> {
    if s == "A"@ {
        Ok(Register::A)
    } else if s == "B"@ {
        Ok(Register::B)
    } else {
        Err(ParseErrorView::InvalidRegister(index, s))
    }
}

/// The operand value that `s` denotes: `#` and a decimal byte is an
/// immediate, a decimal byte alone is an address, and anything else is a
/// label, taken whole.
pub open spec fn parse_value(s: Seq<char>) -> ValueView {
    if s.len() > 0 && s[0] == '#' {
        match parse_byte(s.drop_first()) {
            Some(v) => ValueView::Immediate(v),
            None => ValueView::Label(s),
        }
    } else {
        match parse_byte(s) {
            Some(v) => ValueView::Address(v),
            None => ValueView::Label(s),
        }
    }
}

/// The count that `s` denotes: a decimal byte, whitespace around it set aside.
pub open spec fn parse_count(index: usize, s: Seq<char>) -> Result<u8, ParseErrorView> {
    match parse_byte(trim(s)) {
        Some(n) => Ok(n),
        None => Err(ParseErrorView::InvalidU8(index, s)),
    }
}

impl Register {
    /// Reads a register name. `i` is the line's number, for the error.
    pub fn parse(i: usize, s: &str) -> (out: Result<Register, ParseError>)
        ensures
            outcome(out) == parse_register(i, s@),
    {
        let v = chars_of(s);
        register_of(i, v.as_slice())
    }
}

impl Value {
    /// Reads an operand value. Every text is one: what is no number is a label.
    pub fn parse(s: &str) -> (out: Value)
        ensures
            out@ == parse_value(s@),
    {
        let v = chars_of(s);
        value_of(v.as_slice())
    }
}

/// Reads the count of a `RESB`. `i` is the line's number, for the error.
pub fn parse_u8(i: usize, s: &str) -> (out: Result<u8, ParseError>)
    ensures
        outcome(out) == parse_count(i, s@),
{
    let v = chars_of(s);
    count_of(i, v.as_slice())
}

/// `Register::parse` on characters.
pub fn register_of(i: usize, v: &[char]) -> (out: Result<Register, ParseError>)
    ensures
        outcome(out) == parse_register(i, v@),
{
    if same_text(v, "A") {
        Ok(Register::A)
    } else if same_text(v, "B") {
        Ok(Register::B)
    } else {
        Err(ParseError::InvalidRegister(i, string_of(v)))
    }
}

/// `Value::parse` on characters.
pub fn value_of(v: &[char]) -> (out: Value)
    ensures
        out@ == parse_value(v@),
{
    if v.len() > 0 && v[0] == '#' {
        let digits = slice_subrange(v, 1, v.len());
        assert(digits@ =~= v@.drop_first());
        match read_byte(digits) {
            Some(n) => Value::Immediate(n),
            None => Value::Label(string_of(v)),
        }
    } else {
        match read_byte(v) {
            Some(n) => Value::Address(n),
            None => Value::Label(string_of(v)),
        }
    }
}

/// `parse_u8` on characters.
pub fn count_of(i: usize, v: &[char]) -> (out: Result<u8, ParseError>)
    ensures
        outcome(out) == parse_count(i, v@),
{
    match read_byte(trimmed(v)) {
        Some(n) => Ok(n),
        None => Err(ParseError::InvalidU8(i, string_of(v))),
    }
}

/// The two operands of an instruction: what stands before the first `,` and
/// what stands behind it. None where there is no `,`.
pub open spec fn split_operands(args: Seq<char>) -> Option<(Seq<char>, Seq<char>)> {
    let p = position(args, ',');
    if p < args.len() {
        Some((args.take(p), args.skip(p + 1)))
    } else {
        None
    }
}

/// Two registers, separated by a `,`. `text` is the instruction's text, for the error.
pub open spec fn parse_register_pair(index: usize, text: Seq<char>, args: Seq<char>) -> Result<
    (Register, Register),
    ParseErrorView,
> {
    match split_operands(args) {
        None => Err(ParseErrorView::InvalidInstruction(index, text)),
        Some((a, b)) => match parse_register(index, trim(a)) {
            Err(e) => Err(e),
            Ok(r1) => match parse_register(index, trim(b)) {
                Err(e) => Err(e),
                Ok(r2) => Ok((r1, r2)),
            },
        },
    }
}

/// A register and a value, separated by a `,`. `text` is the instruction's
/// text, for the error.
pub open spec fn parse_register_value(index: usize, text: Seq<char>, args: Seq<char>) -> Result<
    (Register, ValueView),
    ParseErrorView,
> {
    match split_operands(args) {
        None => Err(ParseErrorView::InvalidInstruction(index, text)),
        Some((a, b)) => match parse_register(index, trim(a)) {
            Err(e) => Err(e),
            Ok(r) => Ok((r, parse_value(trim(b)))),
        },
    }
}

/// An instruction that takes no operand: nothing may stand behind its
/// mnemonic. `text` is the instruction's text, for the error.
pub open spec fn parse_nullary(
    index: usize,
    text: Seq<char>,
    args: Seq<char>,
    instr: InstructionView,
) -> Result<InstructionView, ParseErrorView> {
    if args.len() == 0 {
        Ok(instr)
    } else {
        Err(ParseErrorView::InvalidInstruction(index, text))
    }
}

/// The mnemonic of an instruction: the first word of its text.
pub open spec fn mnemonic(text: Seq<char>) -> Seq<char>
    recommends
        words(text).len() > 0,
{
    words(text)[0]
}

/// The arguments of an instruction: the words behind the mnemonic, with one
/// space between each two of them.
pub open spec fn arguments(text: Seq<char>) -> Seq<char>
    recommends
        words(text).len() > 0,
{
    join_words(words(text).drop_first())
}

/// The instruction that `text` denotes. Each mnemonic has one shape of
/// operands; a mnemonic that is none of these is an error, and so is an
/// operand behind a mnemonic that takes none.
pub open spec fn parse_instruction(index: usize, text: Seq<char>) -> Result<
    InstructionView,
    ParseErrorView,
>
    recommends
        words(text).len() > 0,
{
    let op = mnemonic(text);
    let args = arguments(text);
    if op == "NOP"@ {
        parse_nullary(index, text, args, InstructionView::Nop)
    } else if op == "INPUT"@ {
        parse_nullary(index, text, args, InstructionView::Input)
    } else if op == "OUTPUT"@ {
        parse_nullary(index, text, args, InstructionView::Output)
    } else if op == "HALT"@ {
        parse_nullary(index, text, args, InstructionView::Halt)
    } else if op == "INC"@ {
        match parse_register(index, args) {
            Ok(r) => Ok(InstructionView::Inc(r)),
            Err(e) => Err(e),
        }
    } else if op == "MOV"@ {
        match parse_register_pair(index, text, args) {
            Ok(p) => Ok(InstructionView::Mov(p.0, p.1)),
            Err(e) => Err(e),
        }
    } else if op == "ADD"@ {
        match parse_register_pair(index, text, args) {
            Ok(p) => Ok(InstructionView::Add(p.0, p.1)),
            Err(e) => Err(e),
        }
    } else if op == "SUB"@ {
        match parse_register_pair(index, text, args) {
            Ok(p) => Ok(InstructionView::Sub(p.0, p.1)),
            Err(e) => Err(e),
        }
    } else if op == "NAND"@ {
        match parse_register_pair(index, text, args) {
            Ok(p) => Ok(InstructionView::Nand(p.0, p.1)),
            Err(e) => Err(e),
        }
    } else if op == "OR"@ {
        match parse_register_pair(index, text, args) {
            Ok(p) => Ok(InstructionView::Or(p.0, p.1)),
            Err(e) => Err(e),
        }
    } else if op == "CMP"@ {
        match parse_register_pair(index, text, args) {
            Ok(p) => Ok(InstructionView::Cmp(p.0, p.1)),
            Err(e) => Err(e),
        }
    } else if op == "LOAD"@ {
        match parse_register_value(index, text, args) {
            Ok(p) => Ok(InstructionView::Load(p.0, p.1)),
            Err(e) => Err(e),
        }
    } else if op == "STORE"@ {
        match parse_register_value(index, text, args) {
            Ok(p) => Ok(InstructionView::Store(p.0, p.1)),
            Err(e) => Err(e),
        }
    } else if op == "JMP"@ {
        Ok(InstructionView::Jmp(parse_value(args)))
    } else if op == "JZ"@ {
        Ok(InstructionView::Jz(parse_value(args)))
    } else if op == "DB"@ {
        Ok(InstructionView::Db(parse_value(args)))
    } else if op == "EQU"@ {
        Ok(InstructionView::Equ(parse_value(args)))
    } else if op == "RESB"@ {
        match parse_count(index, args) {
            Ok(n) => Ok(InstructionView::Resb(n)),
            Err(e) => Err(e),
        }
    } else {
        Err(ParseErrorView::InvalidInstruction(index, text))
    }
}

/// `NOP`, `INPUT`, `OUTPUT` and `HALT` take no operand: with nothing behind
/// the mnemonic the text is the instruction, and with anything behind it the
/// text is an invalid instruction.
pub proof fn lemma_nullary_takes_no_operand(index: usize, text: Seq<char>)
    requires
        words(text).len() > 0,
        mnemonic(text) == "NOP"@ || mnemonic(text) == "INPUT"@ || mnemonic(text) == "OUTPUT"@
            || mnemonic(text) == "HALT"@,
    ensures
        arguments(text).len() == 0 ==> parse_instruction(index, text) is Ok,
        arguments(text).len() > 0 ==> parse_instruction(index, text) == Err::<
            InstructionView,
            ParseErrorView,
        >(ParseErrorView::InvalidInstruction(index, text)),
        parse_instruction(index, text) matches Ok(instr) ==> instr.operand() is None && (instr
            is Nop || instr is Input || instr is Output || instr is Halt),
{
    reveal_strlit("NOP");
    reveal_strlit("INPUT");
    reveal_strlit("OUTPUT");
    reveal_strlit("HALT");
}

/// Reads an instruction that takes no operand.
fn nullary_of(i: usize, text: &[char], args: &[char], instr: Instruction) -> (out: Result<
    Instruction,
    ParseError,
>)
    ensures
        outcome(out) == parse_nullary(i, text@, args@, instr@),
{
    if args.len() == 0 {
        Ok(instr)
    } else {
        Err(ParseError::InvalidInstruction(i, string_of(text)))
    }
}

/// Splits `args` at its first `,`.
fn operands_of(args: &[char]) -> (out: Option<(&[char], &[char])>)
    ensures
        match out {
            Some((a, b)) => split_operands(args@) == Some((a@, b@)),
            None => split_operands(args@) is None,
        },
{
    let p = find_char(args, ',');
    if p < args.len() {
        let a = slice_subrange(args, 0, p);
        let b = slice_subrange(args, p + 1, args.len());
        assert(a@ =~= args@.take(p as int));
        assert(b@ =~= args@.skip(p + 1));
        Some((a, b))
    } else {
        None
    }
}

/// Reads two registers separated by a `,`.
fn register_pair_of(i: usize, text: &[char], args: &[char]) -> (out: Result<
    (Register, Register),
    ParseError,
>)
    ensures
        outcome(out) == parse_register_pair(i, text@, args@),
{
    match operands_of(args) {
        None => Err(ParseError::InvalidInstruction(i, string_of(text))),
        Some((a, b)) => {
            let r1 = match register_of(i, trimmed(a)) {
                Ok(r) => r,
                Err(e) => { return Err(e); },
            };
            let r2 = match register_of(i, trimmed(b)) {
                Ok(r) => r,
                Err(e) => { return Err(e); },
            };
            Ok((r1, r2))
        },
    }
}

/// Reads a register and a value separated by a `,`.
fn register_value_of(i: usize, text: &[char], args: &[char]) -> (out: Result<
    (Register, Value),
    ParseError,
>)
    ensures
        outcome(out) == parse_register_value(i, text@, args@),
{
    match operands_of(args) {
        None => Err(ParseError::InvalidInstruction(i, string_of(text))),
        Some((a, b)) => {
            let r = match register_of(i, trimmed(a)) {
                Ok(r) => r,
                Err(e) => { return Err(e); },
            };
            Ok((r, value_of(trimmed(b))))
        },
    }
}

impl Instruction {
    /// Reads one instruction: a mnemonic and its operands. `text` holds at
    /// least one word. `i` is the line's number, for the error.
    pub fn parse(i: usize, text: &str) -> (out: Result<Instruction, ParseError>)
        requires
            words(text@).len() > 0,
        ensures
            outcome(out) == parse_instruction(i, text@),
    {
        let v = chars_of(text);
        instruction_of(i, v.as_slice())
    }
}

/// `Instruction::parse` on characters.
pub fn instruction_of(i: usize, v: &[char]) -> (out: Result<Instruction, ParseError>)
    requires
        words(v@).len() > 0,
    ensures
        outcome(out) == parse_instruction(i, v@),
{
    let start = skip_whitespace(v, 0);
    assert(v@.skip(0) =~= v@);
    let end = skip_word(v, start);
    let op = slice_subrange(v, start, end);
    let rest = join_words_from(v, end);
    let args = rest.as_slice();
    proof {
        let t = trim_start(v@);
        assert(t.take(word_len(t) as int) =~= op@);
        assert(t.skip(word_len(t) as int) =~= v@.skip(end as int));
        assert(words(v@) =~= seq![op@] + words(v@.skip(end as int)));
        assert(words(v@).drop_first() =~= words(v@.skip(end as int)));
        assert(op@ == mnemonic(v@));
        assert(args@ == arguments(v@));
    }
    if same_text(op, "NOP") {
        nullary_of(i, v, args, Instruction::Nop)
    } else if same_text(op, "INPUT") {
        nullary_of(i, v, args, Instruction::Input)
    } else if same_text(op, "OUTPUT") {
        nullary_of(i, v, args, Instruction::Output)
    } else if same_text(op, "HALT") {
        nullary_of(i, v, args, Instruction::Halt)
    } else if same_text(op, "INC") {
        match register_of(i, args) {
            Ok(r) => Ok(Instruction::Inc(r)),
            Err(e) => Err(e),
        }
    } else if same_text(op, "MOV") {
        match register_pair_of(i, v, args) {
            Ok(p) => Ok(Instruction::Mov(p.0, p.1)),
            Err(e) => Err(e),
        }
    } else if same_text(op, "ADD") {
        match register_pair_of(i, v, args) {
            Ok(p) => Ok(Instruction::Add(p.0, p.1)),
            Err(e) => Err(e),
        }
    } else if same_text(op, "SUB") {
        match register_pair_of(i, v, args) {
            Ok(p) => Ok(Instruction::Sub(p.0, p.1)),
            Err(e) => Err(e),
        }
    } else if same_text(op, "NAND") {
        match register_pair_of(i, v, args) {
            Ok(p) => Ok(Instruction::Nand(p.0, p.1)),
            Err(e) => Err(e),
        }
    } else if same_text(op, "OR") {
        match register_pair_of(i, v, args) {
            Ok(p) => Ok(Instruction::Or(p.0, p.1)),
            Err(e) => Err(e),
        }
    } else if same_text(op, "CMP") {
        match register_pair_of(i, v, args) {
            Ok(p) => Ok(Instruction::Cmp(p.0, p.1)),
            Err(e) => Err(e),
        }
    } else if same_text(op, "LOAD") {
        match register_value_of(i, v, args) {
            Ok(p) => Ok(Instruction::Load(p.0, p.1)),
            Err(e) => Err(e),
        }
    } else if same_text(op, "STORE") {
        match register_value_of(i, v, args) {
            Ok(p) => Ok(Instruction::Store(p.0, p.1)),
            Err(e) => Err(e),
        }
    } else if same_text(op, "JMP") {
        Ok(Instruction::Jmp(value_of(args)))
    } else if same_text(op, "JZ") {
        Ok(Instruction::Jz(value_of(args)))
    } else if same_text(op, "DB") {
        Ok(Instruction::Db(value_of(args)))
    } else if same_text(op, "EQU") {
        Ok(Instruction::Equ(value_of(args)))
    } else if same_text(op, "RESB") {
        match count_of(i, args) {
            Ok(n) => Ok(Instruction::Resb(n)),
            Err(e) => Err(e),
        }
    } else {
        Err(ParseError::InvalidInstruction(i, string_of(v)))
    }
}

/// The text of a line as the parser reads it: the comment that begins at the
/// first `;` is cut off, whitespace around the rest is set aside, and ASCII
/// letters are put in upper case.
pub open spec fn normalized(text: Seq<char>) -> Seq<char> {
    upper_text(trim(text.take(position(text, ';'))))
}

/// What the line `text`, numbered `index`, holds. A line without text holds
/// nothing. Where the text has a `:`, a label stands before the first one and
/// an instruction may stand behind it; else the text is an instruction.
pub open spec fn parse_line(text: Seq<char>, index: usize) -> Result<LineView, ParseErrorView> {
    let line = normalized(text);
    let colon = position(line, ':');
    if line.len() == 0 {
        Ok(LineView { index, label: None, instruction: None })
    } else if colon < line.len() {
        let label = trim(line.take(colon));
        let rest = trim(line.skip(colon + 1));
        if label.len() == 0 {
            Err(ParseErrorView::InvalidLine(index, line))
        } else if rest.len() == 0 {
            Ok(LineView { index, label: Some(label), instruction: None })
        } else {
            match parse_instruction(index, rest) {
                Ok(instr) => Ok(LineView { index, label: Some(label), instruction: Some(instr) }),
                Err(e) => Err(e),
            }
        }
    } else {
        match parse_instruction(index, line) {
            Ok(instr) => Ok(LineView { index, label: None, instruction: Some(instr) }),
            Err(e) => Err(e),
        }
    }
}

/// A text that does not begin with whitespace, and is not empty, has a first word.
pub proof fn lemma_words_nonempty(s: Seq<char>)
    requires
        s.len() > 0,
        !is_whitespace(s[0]),
    ensures
        words(s).len() > 0,
{
    assert(trim_start(s) == s);
}

/// A trimmed text that is not empty does not begin with whitespace.
pub proof fn lemma_trim_begins_with_word(s: Seq<char>)
    requires
        trim(s).len() > 0,
    ensures
        !is_whitespace(trim(s)[0]),
        words(trim(s)).len() > 0,
{
    let t = trim_start(s);
    lemma_trim_start(s);
    lemma_trim_end(t);
    assert(trim(s)[0] == t[0]);
    lemma_words_nonempty(trim(s));
}

/// Upper case leaves whitespace as it is, and makes no whitespace.
pub proof fn lemma_upper_keeps_whitespace(c: char)
    ensures
        is_whitespace(upper(c)) == is_whitespace(c),
{
}

impl Line {
    /// Reads one line of source text. `input` is the text and the line's number.
    pub fn parse(input: (&str, usize)) -> (out: Result<Line, ParseError>)
        ensures
            outcome(out) == parse_line(input.0@, input.1),
    {
        let raw = chars_of(input.0);
        line_of(raw.as_slice(), input.1)
    }
}

/// `Line::parse` on characters.
pub fn line_of(raw: &[char], index: usize) -> (out: Result<Line, ParseError>)
    ensures
        outcome(out) == parse_line(raw@, index),
{
    let cut = find_char(raw, ';');
    let code = slice_subrange(raw, 0, cut);
    assert(code@ =~= raw@.take(position(raw@, ';')));
    let body = trimmed(code);
    let line_vec = to_upper(body);
    let line = line_vec.as_slice();
    assert(line@ == normalized(raw@));
    if line.len() == 0 {
        return Ok(Line { index, label: None, instruction: None });
    }
    proof {
        lemma_trim_begins_with_word(code@);
        lemma_upper_keeps_whitespace(body@[0]);
        lemma_words_nonempty(line@);
    }
    let colon = find_char(line, ':');
    if colon < line.len() {
        let label = trimmed(slice_subrange(line, 0, colon));
        let rest = trimmed(slice_subrange(line, colon + 1, line.len()));
        assert(label@ == trim(line@.take(colon as int))) by {
            assert(line@.subrange(0, colon as int) =~= line@.take(colon as int));
        }
        assert(rest@ == trim(line@.skip(colon + 1))) by {
            assert(line@.subrange(colon + 1, line@.len() as int) =~= line@.skip(colon + 1));
        }
        if label.len() == 0 {
            return Err(ParseError::InvalidLine(index, string_of(line)));
        }
        if rest.len() == 0 {
            return Ok(Line { index, label: Some(string_of(label)), instruction: None });
        }
        proof {
            lemma_trim_begins_with_word(line@.skip(colon + 1));
        }
        match instruction_of(index, rest) {
            Ok(instr) => Ok(Line { index, label: Some(string_of(label)), instruction: Some(instr) }),
            Err(e) => Err(e),
        }
    } else {
        match instruction_of(index, line) {
            Ok(instr) => Ok(Line { index, label: None, instruction: Some(instr) }),
            Err(e) => Err(e),
        }
    }
}

} // verus!
