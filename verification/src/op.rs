//! The instruction set of the stack machine.

use vstd::prelude::*;
use crate::value::{Value, ValueView};

verus! {

/// One instruction. Its operand, if it has one, is embedded.
#[derive(Debug, PartialEq, Eq)]
pub enum Op {
    /// Overwrite the global of this name with the top of the stack.
    SetGlobal(String),
    /// Push the global of this name.
    GetGlobal(String),
    /// Overwrite the stack slot with the top of the stack.
    SetLocal(usize),
    /// Push the value in the stack slot.
    GetLocal(usize),
    /// Pop the stack into the global of this name, creating it if need be.
    DefineGlobal(String),
    /// Push the value.
    Constant(Value),
    Pop,
    Add,
    Subtract,
    Divide,
    Multiply,
    /// Skip this many further instructions if the top of the stack is `false`.
    JumpIfFalse(usize),
    /// Skip this many further instructions if the top of the stack is `true`.
    JumpIfTrue(usize),
    /// Skip this many further instructions.
    Jump(usize),
    Equal,
    Greater,
    Less,
    Negate,
    Not,
    Print,
    Nop,
    Return,
}

/// The mathematical model of an `Op`.
pub ghost enum OpView {
    SetGlobal(Seq<char>),
    GetGlobal(Seq<char>),
    SetLocal(nat),
    GetLocal(nat),
    DefineGlobal(Seq<char>),
    Constant(ValueView),
    Pop,
    Add,
    Subtract,
    Divide,
    Multiply,
    JumpIfFalse(nat),
    JumpIfTrue(nat),
    Jump(nat),
    Equal,
    Greater,
    Less,
    Negate,
    Not,
    Print,
    Nop,
    Return,
}

impl View for Op {
    type V = OpView;

    open spec fn view(&self) -> OpView {
        match self {
            Op::SetGlobal(name) => OpView::SetGlobal(name@),
            Op::GetGlobal(name) => OpView::GetGlobal(name@),
            Op::SetLocal(slot) => OpView::SetLocal(*slot as nat),
            Op::GetLocal(slot) => OpView::GetLocal(*slot as nat),
            Op::DefineGlobal(name) => OpView::DefineGlobal(name@),
            Op::Constant(value) => OpView::Constant(value@),
            Op::Pop => OpView::Pop,
            Op::Add => OpView::Add,
            Op::Subtract => OpView::Subtract,
            Op::Divide => OpView::Divide,
            Op::Multiply => OpView::Multiply,
            Op::JumpIfFalse(offset) => OpView::JumpIfFalse(*offset as nat),
            Op::JumpIfTrue(offset) => OpView::JumpIfTrue(*offset as nat),
            Op::Jump(offset) => OpView::Jump(*offset as nat),
            Op::Equal => OpView::Equal,
            Op::Greater => OpView::Greater,
            Op::Less => OpView::Less,
            Op::Negate => OpView::Negate,
            Op::Not => OpView::Not,
            Op::Print => OpView::Print,
            Op::Nop => OpView::Nop,
            Op::Return => OpView::Return,
        }
    }
}

/// The models of a sequence of instructions, in order.
pub open spec fn op_views(ops: Seq<Op>) -> Seq<OpView> {
    ops.map_values(|op: Op| op@)
}

/// The mnemonic under which an instruction is listed.
pub open spec fn op_name(op: OpView) -> Seq<char> {
    match op {
        OpView::SetGlobal(_) => "OP_SET_GLOBAL"@,
        OpView::GetGlobal(_) => "OP_GET_GLOBAL"@,
        OpView::SetLocal(_) => "OP_SET_LOCAL"@,
        OpView::GetLocal(_) => "OP_GET_LOCAL"@,
        OpView::DefineGlobal(_) => "OP_DEFINE_GLOBAL"@,
        OpView::Constant(_) => "OP_CONSTANT"@,
        OpView::Pop => "OP_POP"@,
        OpView::Add => "OP_ADD"@,
        OpView::Subtract => "OP_SUBTRACT"@,
        OpView::Divide => "OP_DIVIDE"@,
        OpView::Multiply => "OP_MULTIPLY"@,
        OpView::JumpIfFalse(_) => "OP_JUMP_IF_FALSE"@,
        OpView::JumpIfTrue(_) => "OP_JUMP_IF_TRUE"@,
        OpView::Jump(_) => "OP_JUMP"@,
        OpView::Equal => "OP_EQUAL"@,
        OpView::Greater => "OP_GREATER"@,
        OpView::Less => "OP_LESS"@,
        OpView::Negate => "OP_NEGATE"@,
        OpView::Not => "OP_NOT"@,
        OpView::Print => "OP_PRINT"@,
        OpView::Nop => "NOp"@,
        OpView::Return => "OP_RETURN"@,
    }
}

/// What an instruction carries.
#[derive(Debug, PartialEq, Eq)]
pub enum Operand {
    /// The instruction carries nothing.
    Absent,
    /// The name of a global.
    Name(String),
    /// The stack slot of a local.
    Slot(usize),
    /// The number of instructions that a jump skips.
    Offset(usize),
    /// The value that a `Constant` pushes.
    Constant(Value),
}

/// The mathematical model of an `Operand`.
pub ghost enum OperandView {
    Absent,
    Name(Seq<char>),
    Slot(nat),
    Offset(nat),
    Constant(ValueView),
}

impl View for Operand {
    type V = OperandView;

    open spec fn view(&self) -> OperandView {
        match self {
            Operand::Absent => OperandView::Absent,
            Operand::Name(name) => OperandView::Name(name@),
            Operand::Slot(slot) => OperandView::Slot(*slot as nat),
            Operand::Offset(offset) => OperandView::Offset(*offset as nat),
            Operand::Constant(value) => OperandView::Constant(value@),
        }
    }
}

/// What an instruction carries.
pub open spec fn operand_of(op: OpView) -> OperandView {
    match op {
        OpView::SetGlobal(name) => OperandView::Name(name),
        OpView::GetGlobal(name) => OperandView::Name(name),
        OpView::DefineGlobal(name) => OperandView::Name(name),
        OpView::SetLocal(slot) => OperandView::Slot(slot),
        OpView::GetLocal(slot) => OperandView::Slot(slot),
        OpView::JumpIfFalse(offset) => OperandView::Offset(offset),
        OpView::JumpIfTrue(offset) => OperandView::Offset(offset),
        OpView::Jump(offset) => OperandView::Offset(offset),
        OpView::Constant(value) => OperandView::Constant(value),
        _ => OperandView::Absent,
    }
}

impl Op {
    /// What this instruction carries.
    pub fn operand(&self) -> (r: Operand)
        ensures
            r@ == operand_of(self@),
    {
        match self {
            Op::SetGlobal(name) => Operand::Name(name.clone()),
            Op::GetGlobal(name) => Operand::Name(name.clone()),
            Op::DefineGlobal(name) => Operand::Name(name.clone()),
            Op::SetLocal(slot) => Operand::Slot(*slot),
            Op::GetLocal(slot) => Operand::Slot(*slot),
            Op::JumpIfFalse(offset) => Operand::Offset(*offset),
            Op::JumpIfTrue(offset) => Operand::Offset(*offset),
            Op::Jump(offset) => Operand::Offset(*offset),
            Op::Constant(value) => Operand::Constant(value.clone()),
            _ => Operand::Absent,
        }
    }

    /// The mnemonic under which this instruction is listed.
    pub fn name(&self) -> (r: &'static str)
        ensures
            r@ == op_name(self@),
    {
        match self {
            Op::SetGlobal(_) => "OP_SET_GLOBAL",
            Op::GetGlobal(_) => "OP_GET_GLOBAL",
            Op::SetLocal(_) => "OP_SET_LOCAL",
            Op::GetLocal(_) => "OP_GET_LOCAL",
            Op::DefineGlobal(_) => "OP_DEFINE_GLOBAL",
            Op::Constant(_) => "OP_CONSTANT",
            Op::Pop => "OP_POP",
            Op::Add => "OP_ADD",
            Op::Subtract => "OP_SUBTRACT",
            Op::Divide => "OP_DIVIDE",
            Op::Multiply => "OP_MULTIPLY",
            Op::JumpIfFalse(_) => "OP_JUMP_IF_FALSE",
            Op::JumpIfTrue(_) => "OP_JUMP_IF_TRUE",
            Op::Jump(_) => "OP_JUMP",
            Op::Equal => "OP_EQUAL",
            Op::Greater => "OP_GREATER",
            Op::Less => "OP_LESS",
            Op::Negate => "OP_NEGATE",
            Op::Not => "OP_NOT",
            Op::Print => "OP_PRINT",
            Op::Nop => "NOp",
            Op::Return => "OP_RETURN",
        }
    }
}

impl Clone for Op {
    fn clone(&self) -> (r: Self)
        ensures
            r@ == self@,
    {
        match self {
            Op::SetGlobal(name) => Op::SetGlobal(name.clone()),
            Op::GetGlobal(name) => Op::GetGlobal(name.clone()),
            Op::SetLocal(slot) => Op::SetLocal(*slot),
            Op::GetLocal(slot) => Op::GetLocal(*slot),
            Op::DefineGlobal(name) => Op::DefineGlobal(name.clone()),
            Op::Constant(value) => Op::Constant(value.clone()),
            Op::Pop => Op::Pop,
            Op::Add => Op::Add,
            Op::Subtract => Op::Subtract,
            Op::Divide => Op::Divide,
            Op::Multiply => Op::Multiply,
            Op::JumpIfFalse(offset) => Op::JumpIfFalse(*offset),
            Op::JumpIfTrue(offset) => Op::JumpIfTrue(*offset),
            Op::Jump(offset) => Op::Jump(*offset),
            Op::Equal => Op::Equal,
            Op::Greater => Op::Greater,
            Op::Less => Op::Less,
            Op::Negate => Op::Negate,
            Op::Not => Op::Not,
            Op::Print => Op::Print,
            Op::Nop => Op::Nop,
            Op::Return => Op::Return,
        }
    }
}

} // verus!
