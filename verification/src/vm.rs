//! The stack machine.
//!
//! The machine's behaviour is the function `Machine::step` on its model; the
//! executable `VM` is proved to follow it instruction by instruction. The
//! machine does not compute sums, differences, products or quotients of
//! numbers, and does not write output: where one is due it stops and says so,
//! and is started again when its driver has done the work.

use vstd::prelude::*;
use crate::chunk::Chunk;
use crate::op::{op_views, Op, OpView};
use crate::symtable::{SymTable, TableView, INITIAL_CAPACITY};
use crate::value::{
    number_eq, number_equal, number_less, number_lt, number_neg, number_negated, text_eq,
    text_less, text_lt, value_views, Value, ValueView,
};

verus! {

/// The operators that take two operands.
#[derive(Debug, Clone, Copy, PartialEq, Eq, Structural)]
pub enum BinaryOp {
    Add,
    Subtract,
    Multiply,
    Divide,
    Greater,
    Less,
    Equal,
}

impl BinaryOp {
    /// The four operators whose result on two numbers the machine leaves to
    /// its driver.
    pub open spec fn is_arithmetic(self) -> bool {
        self == BinaryOp::Add || self == BinaryOp::Subtract || self == BinaryOp::Multiply || self
            == BinaryOp::Divide
    }

    /// The operator as it is written in a program.
    pub open spec fn spec_symbol(self) -> Seq<char> {
        match self {
            BinaryOp::Add => "+"@,
            BinaryOp::Subtract => "-"@,
            BinaryOp::Multiply => "*"@,
            BinaryOp::Divide => "/"@,
            BinaryOp::Greater => ">"@,
            BinaryOp::Less => "<"@,
            BinaryOp::Equal => "=="@,
        }
    }

    /// The operator as it is written in a program.
    pub fn symbol(self) -> (r: &'static str)
        ensures
            r@ == self.spec_symbol(),
    {
        match self {
            BinaryOp::Add => "+",
            BinaryOp::Subtract => "-",
            BinaryOp::Multiply => "*",
            BinaryOp::Divide => "/",
            BinaryOp::Greater => ">",
            BinaryOp::Less => "<",
            BinaryOp::Equal => "==",
        }
    }

    /// Decides `is_arithmetic`.
    pub fn arithmetic(self) -> (r: bool)
        ensures
            r == self.is_arithmetic(),
    {
        match self {
            BinaryOp::Add | BinaryOp::Subtract | BinaryOp::Multiply | BinaryOp::Divide => true,
            _ => false,
        }
    }
}

/// Why execution failed.
#[derive(Debug, PartialEq, Eq)]
pub enum RuntimeError {
    /// A global was read or assigned that no declaration has created.
    UndefinedVariable(String),
    /// An operator met operands it does not accept. The right operand, which
    /// was on top of the stack, comes first; an operand that the stack did
    /// not hold is `None`.
    InvalidOperands(BinaryOp, Option<Value>, Option<Value>),
    /// `Negate` met a value that is no number, or `Not` one that is no
    /// boolean.
    CannotNegate(Value),
    /// `Negate` or `Not` met an empty stack.
    NothingToNegate,
    /// `Print` met an empty stack.
    NothingToPrint,
    /// An instruction that reads the top of the stack met an empty stack.
    StackEmpty,
    /// A local's slot lies beyond the top of the stack.
    InvalidSlot(usize),
    /// A conditional jump met a value that is no boolean.
    NotBoolean(Value),
    /// The table of globals has reached the largest capacity that the
    /// machine can address.
    GlobalsFull,
}

/// The mathematical model of a `RuntimeError`.
pub ghost enum Fault {
    UndefinedVariable(Seq<char>),
    InvalidOperands(BinaryOp, Option<ValueView>, Option<ValueView>),
    CannotNegate(ValueView),
    NothingToNegate,
    NothingToPrint,
    StackEmpty,
    InvalidSlot(nat),
    NotBoolean(ValueView),
    GlobalsFull,
}

/// The model of a value that may be missing.
pub open spec fn option_view(value: Option<Value>) -> Option<ValueView> {
    match value {
        Some(v) => Some(v@),
        None => None,
    }
}

impl View for RuntimeError {
    type V = Fault;

    open spec fn view(&self) -> Fault {
        match self {
            RuntimeError::UndefinedVariable(name) => Fault::UndefinedVariable(name@),
            RuntimeError::InvalidOperands(op, right, left) => Fault::InvalidOperands(
                *op,
                option_view(*right),
                option_view(*left),
            ),
            RuntimeError::CannotNegate(v) => Fault::CannotNegate(v@),
            RuntimeError::NothingToNegate => Fault::NothingToNegate,
            RuntimeError::NothingToPrint => Fault::NothingToPrint,
            RuntimeError::StackEmpty => Fault::StackEmpty,
            RuntimeError::InvalidSlot(slot) => Fault::InvalidSlot(*slot as nat),
            RuntimeError::NotBoolean(v) => Fault::NotBoolean(v@),
            RuntimeError::GlobalsFull => Fault::GlobalsFull,
        }
    }
}

/// What a failure says, without the values it is about.
pub open spec fn fault_message(fault: Fault) -> Seq<char> {
    match fault {
        Fault::UndefinedVariable(name) => "undefined variable '"@ + name + "'"@,
        Fault::InvalidOperands(op, _, _) => "tried to perform binop '"@ + op.spec_symbol()
            + "' but arguments are invalid"@,
        Fault::CannotNegate(_) => "can't negate"@,
        Fault::NothingToNegate => "nothing to negate"@,
        Fault::NothingToPrint => "nothing to dump"@,
        Fault::StackEmpty => "stack is empty"@,
        Fault::InvalidSlot(_) => "no such stack slot"@,
        Fault::NotBoolean(_) => "condition is not a boolean"@,
        Fault::GlobalsFull => "too many globals"@,
    }
}

impl RuntimeError {
    /// What this failure says, without the values it is about.
    pub fn message(&self) -> (r: String)
        ensures
            r@ == fault_message(self@),
    {
        match self {
            RuntimeError::UndefinedVariable(name) => {
                let mut text = String::from_str("undefined variable '");
                text.append(name.as_str());
                text.append("'");
                text
            },
            RuntimeError::InvalidOperands(op, _, _) => {
                let mut text = String::from_str("tried to perform binop '");
                text.append(op.symbol());
                text.append("' but arguments are invalid");
                text
            },
            RuntimeError::CannotNegate(_) => String::from_str("can't negate"),
            RuntimeError::NothingToNegate => String::from_str("nothing to negate"),
            RuntimeError::NothingToPrint => String::from_str("nothing to dump"),
            RuntimeError::StackEmpty => String::from_str("stack is empty"),
            RuntimeError::InvalidSlot(_) => String::from_str("no such stack slot"),
            RuntimeError::NotBoolean(_) => String::from_str("condition is not a boolean"),
            RuntimeError::GlobalsFull => String::from_str("too many globals"),
        }
    }
}

/// Why the machine has stopped.
#[derive(Debug, PartialEq, Eq)]
pub enum InterpretResult {
    /// The program has ended.
    InterpretOk,
    /// The program has failed.
    RuntimeError(RuntimeError),
    /// A `Print` instruction has popped this value: its text is due as one
    /// line of output. Execution goes on with the next call.
    Print(Value),
    /// The instruction at hand applies this operator to these two numbers,
    /// the left one first. Nothing has changed yet: execution goes on once
    /// the result has been handed to `complete_arithmetic`.
    Arithmetic(BinaryOp, u64, u64),
}

/// The mathematical model of an `InterpretResult`.
pub ghost enum Signal {
    Done,
    Failed(Fault),
    Print(ValueView),
    Arithmetic(BinaryOp, u64, u64),
}

impl View for InterpretResult {
    type V = Signal;

    open spec fn view(&self) -> Signal {
        match self {
            InterpretResult::InterpretOk => Signal::Done,
            InterpretResult::RuntimeError(e) => Signal::Failed(e@),
            InterpretResult::Print(v) => Signal::Print(v@),
            InterpretResult::Arithmetic(op, left, right) => Signal::Arithmetic(*op, *left, *right),
        }
    }
}

/// The model of what one step hands back: nothing, or why it stopped.
pub open spec fn signal_view(r: Option<InterpretResult>) -> Option<Signal> {
    match r {
        Some(r) => Some(r@),
        None => None,
    }
}

/// The result of an operator that the machine computes itself, on operands
/// that it accepts.
pub open spec fn operate(op: BinaryOp, left: ValueView, right: ValueView) -> Option<ValueView> {
    match (op, left, right) {
        (BinaryOp::Add, ValueView::String(l), ValueView::String(r)) => Some(
            ValueView::String(l + r),
        ),
        (BinaryOp::Greater, ValueView::Number(l), ValueView::Number(r)) => Some(
            ValueView::Bool(number_less(r, l)),
        ),
        (BinaryOp::Greater, ValueView::String(l), ValueView::String(r)) => Some(
            ValueView::Bool(text_less(r, l)),
        ),
        (BinaryOp::Less, ValueView::Number(l), ValueView::Number(r)) => Some(
            ValueView::Bool(number_less(l, r)),
        ),
        (BinaryOp::Less, ValueView::String(l), ValueView::String(r)) => Some(
            ValueView::Bool(text_less(l, r)),
        ),
        (BinaryOp::Equal, ValueView::Bool(l), ValueView::Bool(r)) => Some(ValueView::Bool(l == r)),
        (BinaryOp::Equal, ValueView::Number(l), ValueView::Number(r)) => Some(
            ValueView::Bool(number_equal(l, r)),
        ),
        (BinaryOp::Equal, ValueView::String(l), ValueView::String(r)) => Some(
            ValueView::Bool(l == r),
        ),
        _ => None,
    }
}

/// The top of a stack.
pub open spec fn top_of(stack: Seq<ValueView>) -> Option<ValueView> {
    if stack.len() > 0 {
        Some(stack.last())
    } else {
        None
    }
}

/// The value below the top of a stack.
pub open spec fn second_of(stack: Seq<ValueView>) -> Option<ValueView> {
    if stack.len() > 1 {
        Some(stack[stack.len() - 2])
    } else {
        None
    }
}

/// A stack without its `n` topmost values, or empty if it holds fewer.
pub open spec fn without_top(stack: Seq<ValueView>, n: nat) -> Seq<ValueView> {
    if stack.len() >= n {
        stack.take(stack.len() - n)
    } else {
        Seq::empty()
    }
}

/// The mathematical model of the machine.
pub ghost struct Machine {
    pub code: Seq<OpView>,
    pub stack: Seq<ValueView>,
    pub globals: TableView,
    /// The index of the instruction to execute next.
    pub ip: nat,
}

/// What one step yields: the machine after it, and why it stopped, if it did.
pub ghost struct Outcome {
    pub machine: Machine,
    pub signal: Option<Signal>,
}

impl Machine {
    /// The top of the stack.
    pub open spec fn top(self) -> Option<ValueView> {
        top_of(self.stack)
    }

    /// The value below the top of the stack.
    pub open spec fn second(self) -> Option<ValueView> {
        second_of(self.stack)
    }

    /// The stack without its `n` topmost values, or empty if it holds fewer.
    pub open spec fn without(self, n: nat) -> Seq<ValueView> {
        without_top(self.stack, n)
    }

    /// The index of the instruction that follows the one at hand when
    /// `extra` further instructions are skipped; the length of the code if
    /// that lies past the end.
    pub open spec fn target(self, extra: nat) -> nat {
        if self.ip + 1 + extra >= self.code.len() {
            self.code.len()
        } else {
            self.ip + 1 + extra
        }
    }

    /// Goes on, with this stack, `extra` instructions further than the next.
    pub open spec fn proceed(self, stack: Seq<ValueView>, extra: nat) -> Outcome {
        Outcome { machine: Machine { stack, ip: self.target(extra), ..self }, signal: None }
    }

    /// Stops where it is.
    pub open spec fn stop(self, signal: Signal) -> Outcome {
        Outcome { machine: self, signal: Some(signal) }
    }

    /// Whether the instruction at hand is arithmetic on two numbers.
    pub open spec fn awaits(self, op: BinaryOp) -> bool {
        &&& op.is_arithmetic()
        &&& self.top() matches Some(ValueView::Number(_))
        &&& self.second() matches Some(ValueView::Number(_))
    }

    /// A binary operator. Arithmetic on two numbers stops the machine
    /// untouched. Otherwise both operands are popped, the right one first,
    /// and either the result is pushed or the operands are reported.
    pub open spec fn binary(self, op: BinaryOp) -> Outcome {
        if self.awaits(op) {
            self.stop(Signal::Arithmetic(op, self.second()->0->Number_0, self.top()->0->Number_0))
        } else if self.second() is Some && operate(op, self.second()->0, self.top()->0) is Some {
            self.proceed(
                self.without(2).push(operate(op, self.second()->0, self.top()->0)->0),
                0,
            )
        } else {
            Machine { stack: self.without(2), ..self }.stop(
                Signal::Failed(Fault::InvalidOperands(op, self.top(), self.second())),
            )
        }
    }

    /// `Negate` and `Not` replace the top of the stack.
    pub open spec fn negate(self, logical: bool) -> Outcome {
        match self.top() {
            None => self.stop(Signal::Failed(Fault::NothingToNegate)),
            Some(ValueView::Number(bits)) if !logical => self.proceed(
                self.without(1).push(ValueView::Number(number_negated(bits))),
                0,
            ),
            Some(ValueView::Bool(b)) if logical => self.proceed(
                self.without(1).push(ValueView::Bool(!b)),
                0,
            ),
            Some(v) => self.stop(Signal::Failed(Fault::CannotNegate(v))),
        }
    }

    /// A conditional jump looks at the top of the stack and leaves it there.
    pub open spec fn jump_if(self, condition: bool, offset: nat) -> Outcome {
        match self.top() {
            None => self.stop(Signal::Failed(Fault::StackEmpty)),
            Some(ValueView::Bool(b)) => self.proceed(
                self.stack,
                if b == condition {
                    offset
                } else {
                    0
                },
            ),
            Some(v) => self.stop(Signal::Failed(Fault::NotBoolean(v))),
        }
    }

    /// Reading a global pushes its value.
    pub open spec fn get_global(self, name: Seq<char>) -> Outcome {
        match self.globals.get(name) {
            Some(v) => self.proceed(self.stack.push(v), 0),
            None => self.stop(Signal::Failed(Fault::UndefinedVariable(name))),
        }
    }

    /// Assigning a global binds the top of the stack, which stays. If that
    /// created the binding, it is deleted again and the assignment fails.
    pub open spec fn set_global(self, name: Seq<char>) -> Outcome {
        if self.top() is None {
            self.stop(Signal::Failed(Fault::StackEmpty))
        } else if !self.globals.can_grow() {
            self.stop(Signal::Failed(Fault::GlobalsFull))
        } else if self.globals.entries.contains_key(name) {
            Outcome {
                machine: Machine {
                    globals: self.globals.set(name, self.top()->0),
                    ip: self.target(0),
                    ..self
                },
                signal: None,
            }
        } else {
            Machine { globals: self.globals.set(name, self.top()->0).delete(name), ..self }.stop(
                Signal::Failed(Fault::UndefinedVariable(name)),
            )
        }
    }

    /// Declaring a global pops the stack into it.
    pub open spec fn define_global(self, name: Seq<char>) -> Outcome {
        if self.top() is None {
            self.stop(Signal::Failed(Fault::StackEmpty))
        } else if !self.globals.can_grow() {
            self.stop(Signal::Failed(Fault::GlobalsFull))
        } else {
            Outcome {
                machine: Machine {
                    globals: self.globals.set(name, self.top()->0),
                    stack: self.without(1),
                    ip: self.target(0),
                    ..self
                },
                signal: None,
            }
        }
    }

    /// Reading a local pushes a copy of its slot.
    pub open spec fn get_local(self, slot: nat) -> Outcome {
        if slot < self.stack.len() {
            self.proceed(self.stack.push(self.stack[slot as int]), 0)
        } else {
            self.stop(Signal::Failed(Fault::InvalidSlot(slot)))
        }
    }

    /// Assigning a local copies the top of the stack, which stays, into its
    /// slot.
    pub open spec fn set_local(self, slot: nat) -> Outcome {
        if self.top() is None {
            self.stop(Signal::Failed(Fault::StackEmpty))
        } else if slot < self.stack.len() {
            self.proceed(self.stack.update(slot as int, self.top()->0), 0)
        } else {
            self.stop(Signal::Failed(Fault::InvalidSlot(slot)))
        }
    }

    /// `Print` pops a value and hands it out.
    pub open spec fn print(self) -> Outcome {
        match self.top() {
            None => self.stop(Signal::Failed(Fault::NothingToPrint)),
            Some(v) => Outcome {
                machine: Machine { stack: self.without(1), ip: self.target(0), ..self },
                signal: Some(Signal::Print(v)),
            },
        }
    }

    /// One instruction. Past the last instruction the program has ended.
    pub open spec fn step(self) -> Outcome {
        if self.ip >= self.code.len() {
            self.stop(Signal::Done)
        } else {
            match self.code[self.ip as int] {
                OpView::Nop => self.stop(Signal::Done),
                OpView::Return => self.stop(Signal::Done),
                OpView::Constant(v) => self.proceed(self.stack.push(v), 0),
                OpView::Pop => self.proceed(self.without(1), 0),
                OpView::Print => self.print(),
                OpView::Negate => self.negate(false),
                OpView::Not => self.negate(true),
                OpView::Add => self.binary(BinaryOp::Add),
                OpView::Subtract => self.binary(BinaryOp::Subtract),
                OpView::Multiply => self.binary(BinaryOp::Multiply),
                OpView::Divide => self.binary(BinaryOp::Divide),
                OpView::Greater => self.binary(BinaryOp::Greater),
                OpView::Less => self.binary(BinaryOp::Less),
                OpView::Equal => self.binary(BinaryOp::Equal),
                OpView::GetGlobal(name) => self.get_global(name),
                OpView::SetGlobal(name) => self.set_global(name),
                OpView::DefineGlobal(name) => self.define_global(name),
                OpView::GetLocal(slot) => self.get_local(slot),
                OpView::SetLocal(slot) => self.set_local(slot),
                OpView::JumpIfFalse(offset) => self.jump_if(false, offset),
                OpView::JumpIfTrue(offset) => self.jump_if(true, offset),
                OpView::Jump(offset) => self.proceed(self.stack, offset),
            }
        }
    }

    /// Steps until the machine stops.
    pub open spec fn run(self) -> Outcome
        decreases self.code.len() - self.ip,
    {
        let next = self.step();
        if next.signal is Some {
            next
        } else {
            next.machine.run()
        }
    }

    /// The arithmetic operator of the instruction at hand, if it is one.
    pub open spec fn pending(self) -> Option<BinaryOp> {
        if self.ip >= self.code.len() {
            None
        } else {
            match self.code[self.ip as int] {
                OpView::Add => Some(BinaryOp::Add),
                OpView::Subtract => Some(BinaryOp::Subtract),
                OpView::Multiply => Some(BinaryOp::Multiply),
                OpView::Divide => Some(BinaryOp::Divide),
                _ => None,
            }
        }
    }

    /// The machine after the arithmetic it waits for has given `bits`: both
    /// operands are replaced by the result. A machine that waits for none is
    /// left as it is.
    pub open spec fn complete(self, bits: u64) -> Machine {
        if self.pending() is Some && self.awaits(self.pending()->0) {
            Machine {
                stack: self.without(2).push(ValueView::Number(bits)),
                ip: self.target(0),
                ..self
            }
        } else {
            self
        }
    }
}

/// Assignment to a global that no declaration has created fails, and
/// leaves no binding behind: the name is as unbound afterwards as before,
/// and every other name reads what it read.
pub proof fn law_assignment_needs_declaration(m: Machine, name: Seq<char>)
    requires
        m.ip < m.code.len(),
        m.code[m.ip as int] == OpView::SetGlobal(name),
        m.top() is Some,
        m.globals.can_grow(),
        !m.globals.entries.contains_key(name),
    ensures
        m.step().signal == Some(Signal::Failed(Fault::UndefinedVariable(name))),
        m.step().machine.globals.entries == m.globals.entries,
        m.run() == m.step(),
{
    let after = m.globals.set(name, m.top()->0).delete(name);
    assert(after.entries =~= m.globals.entries);
}

/// A run ends with a reason to stop, and never moves the machine back.
pub proof fn law_run_stops(m: Machine)
    ensures
        m.run().signal is Some,
        m.run().machine.code == m.code,
        m.ip <= m.code.len() ==> m.ip <= m.run().machine.ip <= m.code.len(),
    decreases m.code.len() - m.ip,
{
    let next = m.step();
    if next.signal is None {
        law_run_stops(next.machine);
    }
}

proof fn lemma_views_push(s: Seq<Value>, v: Value)
    ensures
        value_views(s.push(v)) == value_views(s).push(v@),
{
    assert(value_views(s.push(v)) =~= value_views(s).push(v@));
}

proof fn lemma_views_take(s: Seq<Value>, n: int)
    requires
        0 <= n <= s.len(),
    ensures
        value_views(s.take(n)) == value_views(s).take(n),
{
    assert(value_views(s.take(n)) =~= value_views(s).take(n));
}

proof fn lemma_views_update(s: Seq<Value>, i: int, v: Value)
    requires
        0 <= i < s.len(),
    ensures
        value_views(s.update(i, v)) == value_views(s).update(i, v@),
{
    assert(value_views(s.update(i, v)) =~= value_views(s).update(i, v@));
}

/// Pushes a value.
fn push_value(stack: &mut Vec<Value>, v: Value)
    ensures
        value_views(final(stack)@) == value_views(old(stack)@).push(v@),
{
    proof {
        lemma_views_push(stack@, v);
    }
    stack.push(v);
}

/// Pops a value, if there is one.
fn pop_value(stack: &mut Vec<Value>) -> (r: Option<Value>)
    ensures
        option_view(r) == top_of(value_views(old(stack)@)),
        value_views(final(stack)@) == without_top(value_views(old(stack)@), 1),
{
    proof {
        if stack@.len() > 0 {
            lemma_views_take(stack@, stack@.len() - 1);
        } else {
            assert(value_views(stack@) =~= Seq::<ValueView>::empty());
        }
    }
    stack.pop()
}

/// Joins two texts.
fn join(left: &String, right: &String) -> (r: String)
    ensures
        r@ == left@ + right@,
{
    let mut joined = left.clone();
    joined.append(right.as_str());
    joined
}

/// Applies an operator that the machine computes itself.
fn apply(op: BinaryOp, left: &Value, right: &Value) -> (r: Option<Value>)
    ensures
        option_view(r) == operate(op, left@, right@),
{
    match op {
        BinaryOp::Add => match (left, right) {
            (Value::String(l), Value::String(r)) => Some(Value::String(join(l, r))),
            _ => None,
        },
        BinaryOp::Greater => match (left, right) {
            (Value::Number(l), Value::Number(r)) => Some(Value::Bool(number_lt(*r, *l))),
            (Value::String(l), Value::String(r)) => Some(
                Value::Bool(text_lt(r.as_str(), l.as_str())),
            ),
            _ => None,
        },
        BinaryOp::Less => match (left, right) {
            (Value::Number(l), Value::Number(r)) => Some(Value::Bool(number_lt(*l, *r))),
            (Value::String(l), Value::String(r)) => Some(
                Value::Bool(text_lt(l.as_str(), r.as_str())),
            ),
            _ => None,
        },
        BinaryOp::Equal => match (left, right) {
            (Value::Bool(l), Value::Bool(r)) => Some(Value::Bool(*l == *r)),
            (Value::Number(l), Value::Number(r)) => Some(Value::Bool(number_eq(*l, *r))),
            (Value::String(l), Value::String(r)) => Some(
                Value::Bool(text_eq(l.as_str(), r.as_str())),
            ),
            _ => None,
        },
        _ => None,
    }
}

/// The machine: a program, an operand stack, the globals, and the index of
/// the instruction to execute next.
pub struct VM {
    pub chunk: Chunk,
    stack: Vec<Value>,
    symtable: SymTable,
    ip: usize,
}

impl View for VM {
    type V = Machine;

    closed spec fn view(&self) -> Machine {
        Machine {
            code: op_views(self.chunk.code@),
            stack: value_views(self.stack@),
            globals: self.symtable@,
            ip: self.ip as nat,
        }
    }
}

impl VM {
    /// The invariant of the machine: its table of globals is well-formed.
    pub closed spec fn wf(&self) -> bool {
        self.symtable.wf()
    }

    /// A machine with no program, an empty stack and no globals.
    pub fn new() -> (vm: VM)
        ensures
            vm.wf(),
            vm@ == (Machine {
                code: Seq::empty(),
                stack: Seq::empty(),
                globals: TableView {
                    entries: Map::empty(),
                    used: 0,
                    capacity: INITIAL_CAPACITY as nat,
                },
                ip: 0,
            }),
    {
        let vm = VM { chunk: Chunk::new(), stack: Vec::new(), symtable: SymTable::new(), ip: 0 };
        assert(value_views(vm.stack@) =~= Seq::<ValueView>::empty());
        vm
    }

    /// Replaces the program and starts at its first instruction. The stack
    /// and the globals stay.
    pub fn load(&mut self, chunk: Chunk)
        requires
            old(self).wf(),
        ensures
            final(self).wf(),
            final(self)@ == (Machine { code: chunk@.code, ip: 0, ..old(self)@ }),
    {
        self.chunk = chunk;
        self.ip = 0;
    }

    /// The number of values on the stack.
    pub fn stack_len(&self) -> (n: usize)
        ensures
            n == self@.stack.len(),
    {
        self.stack.len()
    }

    /// The index of the instruction to execute next.
    pub fn ip(&self) -> (ip: usize)
        ensures
            ip == self@.ip,
    {
        self.ip
    }

    /// The value on top of the stack, if there is one.
    pub fn top(&self) -> (r: Option<Value>)
        ensures
            option_view(r) == self@.top(),
    {
        let n = self.stack.len();
        if n == 0 {
            None
        } else {
            Some(self.stack[n - 1].clone())
        }
    }

    /// The value of a global, if it is bound.
    pub fn global(&self, name: &str) -> (r: Option<Value>)
        requires
            self.wf(),
        ensures
            option_view(r) == self@.globals.get(name@),
    {
        self.symtable.get(name)
    }

    /// Moves to the next instruction, skipping `extra` more.
    fn advance(&mut self, extra: usize)
        requires
            old(self).ip < old(self).chunk.code@.len(),
        ensures
            *final(self) == (VM { ip: old(self)@.target(extra as nat) as usize, ..*old(self) }),
            final(self).ip == old(self)@.target(extra as nat),
    {
        let len = self.chunk.code.len();
        let room = len - self.ip - 1;
        if extra >= room {
            self.ip = len;
        } else {
            self.ip = self.ip + 1 + extra;
        }
    }

    fn binary(&mut self, op: BinaryOp) -> (r: Option<InterpretResult>)
        requires
            old(self).wf(),
            old(self)@.ip < old(self)@.code.len(),
        ensures
            final(self).wf(),
            final(self)@ == old(self)@.binary(op).machine,
            signal_view(r) == old(self)@.binary(op).signal,
    {
        let n = self.stack.len();
        if op.arithmetic() && n >= 2 {
            if let Value::Number(right) = &self.stack[n - 1] {
                if let Value::Number(left) = &self.stack[n - 2] {
                    return Some(InterpretResult::Arithmetic(op, *left, *right));
                }
            }
        }
        let right = pop_value(&mut self.stack);
        let left = pop_value(&mut self.stack);
        proof {
            let s = old(self)@.stack;
            if s.len() >= 2 {
                assert(s.take(s.len() - 1).take(s.len() - 2) =~= s.take(s.len() - 2));
                assert(s.take(s.len() - 1).last() == s[s.len() - 2]);
            } else if s.len() == 1 {
                assert(s.take(0) =~= Seq::<ValueView>::empty());
            }
        }
        match (left, right) {
            (Some(l), Some(r)) => match apply(op, &l, &r) {
                Some(v) => {
                    push_value(&mut self.stack, v);
                    self.advance(0);
                    None
                },
                None => Some(
                    InterpretResult::RuntimeError(
                        RuntimeError::InvalidOperands(op, Some(r), Some(l)),
                    ),
                ),
            },
            (l, r) => Some(InterpretResult::RuntimeError(RuntimeError::InvalidOperands(op, r, l))),
        }
    }

    fn negate(&mut self, logical: bool) -> (r: Option<InterpretResult>)
        requires
            old(self).wf(),
            old(self)@.ip < old(self)@.code.len(),
        ensures
            final(self).wf(),
            final(self)@ == old(self)@.negate(logical).machine,
            signal_view(r) == old(self)@.negate(logical).signal,
    {
        let n = self.stack.len();
        if n == 0 {
            return Some(InterpretResult::RuntimeError(RuntimeError::NothingToNegate));
        }
        let result = match &self.stack[n - 1] {
            Value::Number(bits) if !logical => Some(Value::Number(number_neg(*bits))),
            Value::Bool(b) if logical => Some(Value::Bool(!*b)),
            _ => None,
        };
        let negated = match result {
            Some(value) => value,
            None => {
                let other = self.stack[n - 1].clone();
                return Some(InterpretResult::RuntimeError(RuntimeError::CannotNegate(other)));
            },
        };
        proof {
            lemma_views_update(self.stack@, n - 1, negated);
            let s = old(self)@.stack;
            assert(s.update(n - 1, negated@) =~= s.take(n - 1).push(negated@));
        }
        self.stack.set(n - 1, negated);
        self.advance(0);
        None
    }

    fn jump_if(&mut self, condition: bool, offset: usize) -> (r: Option<InterpretResult>)
        requires
            old(self).wf(),
            old(self)@.ip < old(self)@.code.len(),
        ensures
            final(self).wf(),
            final(self)@ == old(self)@.jump_if(condition, offset as nat).machine,
            signal_view(r) == old(self)@.jump_if(condition, offset as nat).signal,
    {
        let n = self.stack.len();
        if n == 0 {
            return Some(InterpretResult::RuntimeError(RuntimeError::StackEmpty));
        }
        match &self.stack[n - 1] {
            Value::Bool(b) => {
                let extra = if *b == condition {
                    offset
                } else {
                    0
                };
                self.advance(extra);
                None
            },
            other => Some(InterpretResult::RuntimeError(RuntimeError::NotBoolean(other.clone()))),
        }
    }

    fn get_global(&mut self, name: String) -> (r: Option<InterpretResult>)
        requires
            old(self).wf(),
            old(self)@.ip < old(self)@.code.len(),
        ensures
            final(self).wf(),
            final(self)@ == old(self)@.get_global(name@).machine,
            signal_view(r) == old(self)@.get_global(name@).signal,
    {
        match self.symtable.get(name.as_str()) {
            Some(v) => {
                push_value(&mut self.stack, v);
                self.advance(0);
                None
            },
            None => Some(InterpretResult::RuntimeError(RuntimeError::UndefinedVariable(name))),
        }
    }

    fn set_global(&mut self, name: String) -> (r: Option<InterpretResult>)
        requires
            old(self).wf(),
            old(self)@.ip < old(self)@.code.len(),
        ensures
            final(self).wf(),
            final(self)@ == old(self)@.set_global(name@).machine,
            signal_view(r) == old(self)@.set_global(name@).signal,
    {
        let n = self.stack.len();
        if n == 0 {
            return Some(InterpretResult::RuntimeError(RuntimeError::StackEmpty));
        }
        if self.symtable.capacity() > usize::MAX / 2 {
            return Some(InterpretResult::RuntimeError(RuntimeError::GlobalsFull));
        }
        let value = self.stack[n - 1].clone();
        let existed = self.symtable.set(name.clone(), value);
        if existed {
            self.advance(0);
            None
        } else {
            let _ = self.symtable.delete(name.as_str());
            Some(InterpretResult::RuntimeError(RuntimeError::UndefinedVariable(name)))
        }
    }

    fn define_global(&mut self, name: String) -> (r: Option<InterpretResult>)
        requires
            old(self).wf(),
            old(self)@.ip < old(self)@.code.len(),
        ensures
            final(self).wf(),
            final(self)@ == old(self)@.define_global(name@).machine,
            signal_view(r) == old(self)@.define_global(name@).signal,
    {
        if self.stack.len() == 0 {
            return Some(InterpretResult::RuntimeError(RuntimeError::StackEmpty));
        }
        if self.symtable.capacity() > usize::MAX / 2 {
            return Some(InterpretResult::RuntimeError(RuntimeError::GlobalsFull));
        }
        match pop_value(&mut self.stack) {
            Some(value) => {
                self.symtable.set(name, value);
                self.advance(0);
                None
            },
            None => Some(InterpretResult::RuntimeError(RuntimeError::StackEmpty)),
        }
    }

    fn get_local(&mut self, slot: usize) -> (r: Option<InterpretResult>)
        requires
            old(self).wf(),
            old(self)@.ip < old(self)@.code.len(),
        ensures
            final(self).wf(),
            final(self)@ == old(self)@.get_local(slot as nat).machine,
            signal_view(r) == old(self)@.get_local(slot as nat).signal,
    {
        if slot < self.stack.len() {
            let value = self.stack[slot].clone();
            push_value(&mut self.stack, value);
            self.advance(0);
            None
        } else {
            Some(InterpretResult::RuntimeError(RuntimeError::InvalidSlot(slot)))
        }
    }

    fn set_local(&mut self, slot: usize) -> (r: Option<InterpretResult>)
        requires
            old(self).wf(),
            old(self)@.ip < old(self)@.code.len(),
        ensures
            final(self).wf(),
            final(self)@ == old(self)@.set_local(slot as nat).machine,
            signal_view(r) == old(self)@.set_local(slot as nat).signal,
    {
        let n = self.stack.len();
        if n == 0 {
            return Some(InterpretResult::RuntimeError(RuntimeError::StackEmpty));
        }
        if slot < n {
            let value = self.stack[n - 1].clone();
            proof {
                lemma_views_update(self.stack@, slot as int, value);
            }
            self.stack.set(slot, value);
            self.advance(0);
            None
        } else {
            Some(InterpretResult::RuntimeError(RuntimeError::InvalidSlot(slot)))
        }
    }

    fn print(&mut self) -> (r: Option<InterpretResult>)
        requires
            old(self).wf(),
            old(self)@.ip < old(self)@.code.len(),
        ensures
            final(self).wf(),
            final(self)@ == old(self)@.print().machine,
            signal_view(r) == old(self)@.print().signal,
    {
        match pop_value(&mut self.stack) {
            Some(value) => {
                self.advance(0);
                Some(InterpretResult::Print(value))
            },
            None => {
                assert(old(self)@.stack =~= Seq::<ValueView>::empty());
                Some(InterpretResult::RuntimeError(RuntimeError::NothingToPrint))
            },
        }
    }

    /// Executes the instruction at hand. Returns why the machine has
    /// stopped, or nothing if it goes on.
    pub fn step(&mut self) -> (r: Option<InterpretResult>)
        requires
            old(self).wf(),
        ensures
            final(self).wf(),
            final(self)@ == old(self)@.step().machine,
            signal_view(r) == old(self)@.step().signal,
    {
        if self.ip >= self.chunk.code.len() {
            return Some(InterpretResult::InterpretOk);
        }
        let op = self.chunk.code[self.ip].clone();
        match op {
            Op::Nop => Some(InterpretResult::InterpretOk),
            Op::Return => Some(InterpretResult::InterpretOk),
            Op::Constant(value) => {
                push_value(&mut self.stack, value);
                self.advance(0);
                None
            },
            Op::Pop => {
                let _ = pop_value(&mut self.stack);
                self.advance(0);
                None
            },
            Op::Print => self.print(),
            Op::Negate => self.negate(false),
            Op::Not => self.negate(true),
            Op::Add => self.binary(BinaryOp::Add),
            Op::Subtract => self.binary(BinaryOp::Subtract),
            Op::Multiply => self.binary(BinaryOp::Multiply),
            Op::Divide => self.binary(BinaryOp::Divide),
            Op::Greater => self.binary(BinaryOp::Greater),
            Op::Less => self.binary(BinaryOp::Less),
            Op::Equal => self.binary(BinaryOp::Equal),
            Op::GetGlobal(name) => self.get_global(name),
            Op::SetGlobal(name) => self.set_global(name),
            Op::DefineGlobal(name) => self.define_global(name),
            Op::GetLocal(slot) => self.get_local(slot),
            Op::SetLocal(slot) => self.set_local(slot),
            Op::JumpIfFalse(offset) => self.jump_if(false, offset),
            Op::JumpIfTrue(offset) => self.jump_if(true, offset),
            Op::Jump(offset) => {
                self.advance(offset);
                None
            },
        }
    }

    /// Executes instructions until the machine stops: at the end of the
    /// program, at a failure, at a value to print, or at arithmetic on two
    /// numbers.
    pub fn interpret(&mut self) -> (r: InterpretResult)
        requires
            old(self).wf(),
        ensures
            final(self).wf(),
            final(self)@ == old(self)@.run().machine,
            Some(r@) == old(self)@.run().signal,
    {
        loop
            invariant
                self.wf(),
                self@.run() == old(self)@.run(),
            decreases self@.code.len() - self@.ip,
        {
            match self.step() {
                Some(r) => {
                    return r;
                },
                None => {},
            }
        }
    }

    /// Hands the machine the result of the arithmetic it has stopped for.
    /// Returns whether it had: a machine that waits for none is left as it
    /// is.
    pub fn complete_arithmetic(&mut self, bits: u64) -> (done: bool)
        requires
            old(self).wf(),
        ensures
            final(self).wf(),
            final(self)@ == old(self)@.complete(bits),
            done == (old(self)@.pending() is Some && old(self)@.awaits(old(self)@.pending()->0)),
    {
        if self.ip >= self.chunk.code.len() {
            return false;
        }
        let arithmetic = match &self.chunk.code[self.ip] {
            Op::Add | Op::Subtract | Op::Multiply | Op::Divide => true,
            _ => false,
        };
        let n = self.stack.len();
        if !arithmetic || n < 2 {
            return false;
        }
        let numbers = match (&self.stack[n - 1], &self.stack[n - 2]) {
            (Value::Number(_), Value::Number(_)) => true,
            _ => false,
        };
        if !numbers {
            return false;
        }
        let _ = pop_value(&mut self.stack);
        let _ = pop_value(&mut self.stack);
        proof {
            let s = old(self)@.stack;
            assert(s.take(s.len() - 1).take(s.len() - 2) =~= s.take(s.len() - 2));
        }
        push_value(&mut self.stack, Value::Number(bits));
        self.advance(0);
        true
    }
}

} // verus!
