//! The typed representation of a source program: registers, operand values,
//! instructions and lines, each with the mathematical view that the
//! contracts of the other modules speak of.

use vstd::prelude::*;

verus! {

/// One of the two working registers.
#[derive(Debug, Clone, Copy, PartialEq, Eq, Structural)]
pub enum Register {
    A,
    B,
}

impl View for Register {
    type V = Register;

    open spec fn view(&self) -> Register {
        *self
    }
}

/// An operand payload.
#[derive(Debug, PartialEq, Eq)]
pub enum Value {
    /// A literal that is encoded directly into the instruction stream, written `#42`.
    Immediate(u8),
    /// A literal memory address, written `08`.
    Address(u8),
    /// A name that still has to be resolved, to a constant or to an address.
    Label(String),
}

/// The view of a [`Value`]: the label is the sequence of its characters.
pub ghost enum ValueView {
    Immediate(u8),
    Address(u8),
    Label(Seq<char>),
}

impl View for Value {
    type V = ValueView;

    open spec fn view(&self) -> ValueView {
        match self {
            Value::Immediate(v) => ValueView::Immediate(*v),
            Value::Address(v) => ValueView::Address(*v),
            Value::Label(name) => ValueView::Label(name@),
        }
    }
}

impl DeepView for Value {
    type V = ValueView;

    open spec fn deep_view(&self) -> ValueView {
        self@
    }
}

impl Clone for Value {
    fn clone(&self) -> (out: Self)
        ensures
            out == *self,
            out@ == self@,
    {
        match self {
            Value::Immediate(v) => Value::Immediate(*v),
            Value::Address(v) => Value::Address(*v),
            Value::Label(name) => Value::Label(name.clone()),
        }
    }
}

/// One instruction of the machine, or one of the assembler's pseudo-instructions
/// (`Db`, `Equ`, `Resb`).
#[derive(Debug, PartialEq, Eq)]
pub enum Instruction {
    Nop,
    Input,
    Output,
    Halt,
    Inc(Register),
    Mov(Register, Register),
    Add(Register, Register),
    Jmp(Value),
    Load(Register, Value),
    Sub(Register, Register),
    Nand(Register, Register),
    Or(Register, Register),
    Cmp(Register, Register),
    Jz(Value),
    Store(Register, Value),
    Db(Value),
    Equ(Value),
    Resb(u8),
}

/// The view of an [`Instruction`]: the same opcode and registers, the operand
/// by its view.
pub ghost enum InstructionView {
    Nop,
    Input,
    Output,
    Halt,
    Inc(Register),
    Mov(Register, Register),
    Add(Register, Register),
    Jmp(ValueView),
    Load(Register, ValueView),
    Sub(Register, Register),
    Nand(Register, Register),
    Or(Register, Register),
    Cmp(Register, Register),
    Jz(ValueView),
    Store(Register, ValueView),
    Db(ValueView),
    Equ(ValueView),
    Resb(u8),
}

impl View for Instruction {
    type V = InstructionView;

    open spec fn view(&self) -> InstructionView {
        match self {
            Instruction::Nop => InstructionView::Nop,
            Instruction::Input => InstructionView::Input,
            Instruction::Output => InstructionView::Output,
            Instruction::Halt => InstructionView::Halt,
            Instruction::Inc(r) => InstructionView::Inc(*r),
            Instruction::Mov(r1, r2) => InstructionView::Mov(*r1, *r2),
            Instruction::Add(r1, r2) => InstructionView::Add(*r1, *r2),
            Instruction::Jmp(v) => InstructionView::Jmp(v@),
            Instruction::Load(r, v) => InstructionView::Load(*r, v@),
            Instruction::Sub(r1, r2) => InstructionView::Sub(*r1, *r2),
            Instruction::Nand(r1, r2) => InstructionView::Nand(*r1, *r2),
            Instruction::Or(r1, r2) => InstructionView::Or(*r1, *r2),
            Instruction::Cmp(r1, r2) => InstructionView::Cmp(*r1, *r2),
            Instruction::Jz(v) => InstructionView::Jz(v@),
            Instruction::Store(r, v) => InstructionView::Store(*r, v@),
            Instruction::Db(v) => InstructionView::Db(v@),
            Instruction::Equ(v) => InstructionView::Equ(v@),
            Instruction::Resb(n) => InstructionView::Resb(*n),
        }
    }
}

impl DeepView for Instruction {
    type V = InstructionView;

    open spec fn deep_view(&self) -> InstructionView {
        self@
    }
}

impl Clone for Instruction {
    fn clone(&self) -> (out: Self)
        ensures
            out == *self,
            out@ == self@,
    {
        match self {
            Instruction::Nop => Instruction::Nop,
            Instruction::Input => Instruction::Input,
            Instruction::Output => Instruction::Output,
            Instruction::Halt => Instruction::Halt,
            Instruction::Inc(r) => Instruction::Inc(*r),
            Instruction::Mov(r1, r2) => Instruction::Mov(*r1, *r2),
            Instruction::Add(r1, r2) => Instruction::Add(*r1, *r2),
            Instruction::Jmp(v) => Instruction::Jmp(v.clone()),
            Instruction::Load(r, v) => Instruction::Load(*r, v.clone()),
            Instruction::Sub(r1, r2) => Instruction::Sub(*r1, *r2),
            Instruction::Nand(r1, r2) => Instruction::Nand(*r1, *r2),
            Instruction::Or(r1, r2) => Instruction::Or(*r1, *r2),
            Instruction::Cmp(r1, r2) => Instruction::Cmp(*r1, *r2),
            Instruction::Jz(v) => Instruction::Jz(v.clone()),
            Instruction::Store(r, v) => Instruction::Store(*r, v.clone()),
            Instruction::Db(v) => Instruction::Db(v.clone()),
            Instruction::Equ(v) => Instruction::Equ(v.clone()),
            Instruction::Resb(n) => Instruction::Resb(*n),
        }
    }
}

impl InstructionView {
    /// The operand value of an instruction that has one.
    pub open spec fn operand(self) -> Option<ValueView> {
        match self {
            InstructionView::Jmp(v) => Some(v),
            InstructionView::Load(_, v) => Some(v),
            InstructionView::Jz(v) => Some(v),
            InstructionView::Store(_, v) => Some(v),
            InstructionView::Db(v) => Some(v),
            InstructionView::Equ(v) => Some(v),
            _ => None,
        }
    }

    /// The same instruction with `v` in place of its operand value; an
    /// instruction without an operand value is left as it is.
    pub open spec fn with_operand(self, v: ValueView) -> InstructionView {
        match self {
            InstructionView::Jmp(_) => InstructionView::Jmp(v),
            InstructionView::Load(r, _) => InstructionView::Load(r, v),
            InstructionView::Jz(_) => InstructionView::Jz(v),
            InstructionView::Store(r, _) => InstructionView::Store(r, v),
            InstructionView::Db(_) => InstructionView::Db(v),
            InstructionView::Equ(_) => InstructionView::Equ(v),
            _ => self,
        }
    }
}

impl Instruction {
    /// The operand value of an instruction that has one, as the value itself.
    pub open spec fn operand(self) -> Option<Value> {
        match self {
            Instruction::Jmp(v) => Some(v),
            Instruction::Load(_, v) => Some(v),
            Instruction::Jz(v) => Some(v),
            Instruction::Store(_, v) => Some(v),
            Instruction::Db(v) => Some(v),
            Instruction::Equ(v) => Some(v),
            _ => None,
        }
    }

    /// Rewrites the operand value with `f` and keeps everything else: the
    /// opcode and the registers stay, and an instruction without an operand
    /// value comes back unchanged, `f` not having been called.
    pub fn map_values<F>(&self, mut f: F) -> (out: Instruction) where F: FnMut(&Value) -> Value
        requires
            self.operand() matches Some(v) ==> f.requires((&v,)),
        ensures
            self.operand() is None ==> out@ == self@,
            self.operand() matches Some(v) ==> (out.operand() matches Some(w) && f.ensures((&v,), w)
                && out@ == self@.with_operand(w@)),
    {
        match self {
            Instruction::Load(r, v) => {
                let w = f(v);
                Instruction::Load(*r, w)
            },
            Instruction::Store(r, v) => {
                let w = f(v);
                Instruction::Store(*r, w)
            },
            Instruction::Jmp(v) => {
                let w = f(v);
                Instruction::Jmp(w)
            },
            Instruction::Jz(v) => {
                let w = f(v);
                Instruction::Jz(w)
            },
            Instruction::Db(v) => {
                let w = f(v);
                Instruction::Db(w)
            },
            Instruction::Equ(v) => {
                let w = f(v);
                Instruction::Equ(w)
            },
            _ => self.clone(),
        }
    }
}

/// What one line of source text holds.
#[derive(Debug, PartialEq, Eq)]
pub struct Line {
    /// The line's number, counted from 1, for diagnostics.
    pub index: usize,
    /// The label that names the address of the next instruction.
    pub label: Option<String>,
    /// The instruction; none on a line that holds only a label, or nothing.
    pub instruction: Option<Instruction>,
}

/// The view of a [`Line`].
pub ghost struct LineView {
    pub index: usize,
    pub label: Option<Seq<char>>,
    pub instruction: Option<InstructionView>,
}

impl View for Line {
    type V = LineView;

    open spec fn view(&self) -> LineView {
        LineView {
            index: self.index,
            label: match self.label {
                Some(name) => Some(name@),
                None => None,
            },
            instruction: match self.instruction {
                Some(instr) => Some(instr@),
                None => None,
            },
        }
    }
}

impl DeepView for Line {
    type V = LineView;

    open spec fn deep_view(&self) -> LineView {
        self@
    }
}

impl Clone for Line {
    fn clone(&self) -> (out: Self)
        ensures
            out == *self,
            out@ == self@,
    {
        Line {
            index: self.index,
            label: match &self.label {
                Some(name) => Some(name.clone()),
                None => None,
            },
            instruction: match &self.instruction {
                Some(instr) => Some(instr.clone()),
                None => None,
            },
        }
    }
}

/// A result with its value, or its error, replaced by the view.
pub open spec fn outcome<T: View, E: View>(r: Result<T, E>) -> Result<T::V, E::V> {
    match r {
        Ok(t) => Ok(t@),
        Err(e) => Err(e@),
    }
}

/// The views of the lines of a program, in order.
pub open spec fn views(lines: Seq<Line>) -> Seq<LineView> {
    Seq::new(lines.len(), |i: int| lines[i]@)
}

} // verus!
