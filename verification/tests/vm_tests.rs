use lox_vm::chunk::Chunk;
use lox_vm::op::Op;
use lox_vm::value::Value;
use lox_vm::vm::{BinaryOp, InterpretResult, RuntimeError, VM};

fn num(x: f64) -> Value {
    Value::Number(x.to_bits())
}

fn text(s: &str) -> Value {
    Value::String(s.to_string())
}

fn machine(ops: Vec<Op>) -> VM {
    let mut chunk = Chunk::new();
    for op in ops {
        chunk.write_chunk(op, 1);
    }
    let mut vm = VM::new();
    vm.load(chunk);
    vm
}

fn arithmetic(op: BinaryOp, left: u64, right: u64) -> u64 {
    let (l, r) = (f64::from_bits(left), f64::from_bits(right));
    let result = match op {
        BinaryOp::Add => l + r,
        BinaryOp::Subtract => l - r,
        BinaryOp::Multiply => l * r,
        BinaryOp::Divide => l / r,
        _ => unreachable!(),
    };
    result.to_bits()
}

/// Runs to the end, doing the arithmetic and collecting what is printed.
fn run(vm: &mut VM) -> (Vec<Value>, InterpretResult) {
    let mut printed = Vec::new();
    loop {
        match vm.interpret() {
            InterpretResult::Print(value) => printed.push(value),
            InterpretResult::Arithmetic(op, left, right) => {
                assert!(vm.complete_arithmetic(arithmetic(op, left, right)));
            }
            other => return (printed, other),
        }
    }
}

fn failure(ops: Vec<Op>) -> RuntimeError {
    let mut vm = machine(ops);
    match run(&mut vm).1 {
        InterpretResult::RuntimeError(e) => e,
        other => panic!("no failure: {:?}", other),
    }
}

fn top_after(ops: Vec<Op>) -> Option<Value> {
    let mut vm = machine(ops);
    assert_eq!(run(&mut vm).1, InterpretResult::InterpretOk);
    vm.top()
}

#[test]
fn an_empty_program_ends_at_once() {
    let mut vm = VM::new();
    assert_eq!(vm.interpret(), InterpretResult::InterpretOk);
    assert_eq!(vm.stack_len(), 0);
    assert_eq!(vm.ip(), 0);
}

#[test]
fn constants_are_pushed() {
    let mut vm = machine(vec![Op::Constant(num(1.0)), Op::Constant(text("a"))]);
    assert_eq!(vm.step(), None);
    assert_eq!(vm.ip(), 1);
    assert_eq!(vm.top(), Some(num(1.0)));
    assert_eq!(vm.step(), None);
    assert_eq!(vm.top(), Some(text("a")));
    assert_eq!(vm.stack_len(), 2);
    assert_eq!(vm.step(), Some(InterpretResult::InterpretOk));
}

#[test]
fn nop_and_return_end_the_program() {
    let mut vm = machine(vec![Op::Constant(num(1.0)), Op::Return, Op::Constant(num(2.0))]);
    assert_eq!(vm.interpret(), InterpretResult::InterpretOk);
    assert_eq!(vm.stack_len(), 1);
    assert_eq!(vm.ip(), 1);
    let mut vm = machine(vec![Op::Nop, Op::Constant(num(2.0))]);
    assert_eq!(vm.interpret(), InterpretResult::InterpretOk);
    assert_eq!(vm.stack_len(), 0);
}

#[test]
fn pop_discards_the_top() {
    let mut vm = machine(vec![Op::Constant(num(1.0)), Op::Pop, Op::Pop]);
    assert_eq!(vm.interpret(), InterpretResult::InterpretOk);
    assert_eq!(vm.stack_len(), 0);
    assert_eq!(vm.ip(), 3);
}

#[test]
fn print_hands_the_value_out() {
    let mut vm = machine(vec![Op::Constant(text("hi")), Op::Print, Op::Constant(Value::Nil), Op::Print]);
    assert_eq!(vm.interpret(), InterpretResult::Print(text("hi")));
    assert_eq!(vm.stack_len(), 0);
    assert_eq!(vm.interpret(), InterpretResult::Print(Value::Nil));
    assert_eq!(vm.interpret(), InterpretResult::InterpretOk);
    assert_eq!(failure(vec![Op::Print]), RuntimeError::NothingToPrint);
}

#[test]
fn arithmetic_waits_for_its_result() {
    let mut vm = machine(vec![Op::Constant(num(7.0)), Op::Constant(num(2.0)), Op::Subtract]);
    assert_eq!(
        vm.interpret(),
        InterpretResult::Arithmetic(BinaryOp::Subtract, 7.0f64.to_bits(), 2.0f64.to_bits())
    );
    assert_eq!(vm.stack_len(), 2);
    assert_eq!(vm.ip(), 2);
    assert_eq!(
        vm.interpret(),
        InterpretResult::Arithmetic(BinaryOp::Subtract, 7.0f64.to_bits(), 2.0f64.to_bits())
    );
    assert!(vm.complete_arithmetic(5.0f64.to_bits()));
    assert_eq!(vm.stack_len(), 1);
    assert_eq!(vm.top(), Some(num(5.0)));
    assert_eq!(vm.ip(), 3);
    assert!(!vm.complete_arithmetic(1.0f64.to_bits()));
    assert_eq!(vm.interpret(), InterpretResult::InterpretOk);
}

#[test]
fn a_result_is_taken_only_when_one_is_due() {
    let mut vm = machine(vec![Op::Constant(num(7.0)), Op::Constant(num(2.0)), Op::Less]);
    assert!(!vm.complete_arithmetic(0));
    assert_eq!(vm.step(), None);
    assert_eq!(vm.step(), None);
    assert!(!vm.complete_arithmetic(0));
    assert_eq!(vm.stack_len(), 2);
    let mut vm = machine(vec![Op::Constant(text("a")), Op::Constant(num(2.0)), Op::Add]);
    assert_eq!(vm.step(), None);
    assert_eq!(vm.step(), None);
    assert!(!vm.complete_arithmetic(0));
    let mut vm = machine(vec![Op::Constant(num(2.0)), Op::Add]);
    assert_eq!(vm.step(), None);
    assert!(!vm.complete_arithmetic(0));
}

#[test]
fn the_four_operations() {
    let both = |op: Op| vec![Op::Constant(num(7.0)), Op::Constant(num(2.0)), op];
    assert_eq!(top_after(both(Op::Add)), Some(num(9.0)));
    assert_eq!(top_after(both(Op::Subtract)), Some(num(5.0)));
    assert_eq!(top_after(both(Op::Multiply)), Some(num(14.0)));
    assert_eq!(top_after(both(Op::Divide)), Some(num(3.5)));
}

#[test]
fn add_joins_texts_left_first() {
    assert_eq!(
        top_after(vec![Op::Constant(text("ab")), Op::Constant(text("cd")), Op::Add]),
        Some(text("abcd"))
    );
}

#[test]
fn invalid_operands_are_reported_right_first() {
    assert_eq!(
        failure(vec![Op::Constant(text("a")), Op::Constant(num(1.0)), Op::Add]),
        RuntimeError::InvalidOperands(BinaryOp::Add, Some(num(1.0)), Some(text("a")))
    );
    assert_eq!(
        failure(vec![Op::Constant(text("a")), Op::Constant(text("b")), Op::Subtract]),
        RuntimeError::InvalidOperands(BinaryOp::Subtract, Some(text("b")), Some(text("a")))
    );
    assert_eq!(
        failure(vec![Op::Constant(Value::Nil), Op::Constant(Value::Nil), Op::Multiply]),
        RuntimeError::InvalidOperands(BinaryOp::Multiply, Some(Value::Nil), Some(Value::Nil))
    );
    assert_eq!(
        failure(vec![Op::Constant(num(1.0)), Op::Divide]),
        RuntimeError::InvalidOperands(BinaryOp::Divide, Some(num(1.0)), None)
    );
    assert_eq!(
        failure(vec![Op::Less]),
        RuntimeError::InvalidOperands(BinaryOp::Less, None, None)
    );
    assert_eq!(
        failure(vec![Op::Constant(Value::Bool(true)), Op::Constant(Value::Bool(true)), Op::Greater]),
        RuntimeError::InvalidOperands(
            BinaryOp::Greater,
            Some(Value::Bool(true)),
            Some(Value::Bool(true))
        )
    );
    assert_eq!(
        failure(vec![Op::Constant(num(1.0)), Op::Constant(Value::Bool(true)), Op::Equal]),
        RuntimeError::InvalidOperands(BinaryOp::Equal, Some(Value::Bool(true)), Some(num(1.0)))
    );
    assert_eq!(
        failure(vec![Op::Constant(Value::Nil), Op::Constant(Value::Nil), Op::Equal]),
        RuntimeError::InvalidOperands(BinaryOp::Equal, Some(Value::Nil), Some(Value::Nil))
    );
}

#[test]
fn a_failed_operator_has_popped_its_operands() {
    let mut vm = machine(vec![
        Op::Constant(Value::Nil),
        Op::Constant(text("a")),
        Op::Constant(num(1.0)),
        Op::Less,
    ]);
    assert!(matches!(vm.interpret(), InterpretResult::RuntimeError(_)));
    assert_eq!(vm.stack_len(), 1);
    assert_eq!(vm.ip(), 3);
}

#[test]
fn comparisons_of_numbers_and_texts() {
    let compare = |l: Value, r: Value, op: Op| top_after(vec![Op::Constant(l), Op::Constant(r), op]);
    assert_eq!(compare(num(1.0), num(2.0), Op::Less), Some(Value::Bool(true)));
    assert_eq!(compare(num(2.0), num(1.0), Op::Less), Some(Value::Bool(false)));
    assert_eq!(compare(num(2.0), num(2.0), Op::Less), Some(Value::Bool(false)));
    assert_eq!(compare(num(-1.0), num(1.0), Op::Less), Some(Value::Bool(true)));
    assert_eq!(compare(num(1.0), num(2.0), Op::Greater), Some(Value::Bool(false)));
    assert_eq!(compare(num(2.0), num(1.0), Op::Greater), Some(Value::Bool(true)));
    assert_eq!(compare(text("a"), text("b"), Op::Less), Some(Value::Bool(true)));
    assert_eq!(compare(text("a"), text("b"), Op::Greater), Some(Value::Bool(false)));
    assert_eq!(compare(text("b"), text("a"), Op::Greater), Some(Value::Bool(true)));
}

#[test]
fn equality_of_like_values() {
    let equal = |l: Value, r: Value| top_after(vec![Op::Constant(l), Op::Constant(r), Op::Equal]);
    assert_eq!(equal(num(4.0), num(4.0)), Some(Value::Bool(true)));
    assert_eq!(equal(num(4.0), num(5.0)), Some(Value::Bool(false)));
    assert_eq!(equal(num(0.0), num(-0.0)), Some(Value::Bool(true)));
    assert_eq!(equal(num(f64::NAN), num(f64::NAN)), Some(Value::Bool(false)));
    assert_eq!(equal(Value::Bool(true), Value::Bool(true)), Some(Value::Bool(true)));
    assert_eq!(equal(Value::Bool(true), Value::Bool(false)), Some(Value::Bool(false)));
    assert_eq!(equal(text("a"), text("a")), Some(Value::Bool(true)));
    assert_eq!(equal(text("a"), text("b")), Some(Value::Bool(false)));
}

#[test]
fn negate_and_not_replace_the_top() {
    assert_eq!(top_after(vec![Op::Constant(num(3.0)), Op::Negate]), Some(num(-3.0)));
    assert_eq!(top_after(vec![Op::Constant(Value::Bool(true)), Op::Not]), Some(Value::Bool(false)));
    assert_eq!(top_after(vec![Op::Constant(Value::Bool(false)), Op::Not]), Some(Value::Bool(true)));
    assert_eq!(
        failure(vec![Op::Constant(text("a")), Op::Negate]),
        RuntimeError::CannotNegate(text("a"))
    );
    assert_eq!(
        failure(vec![Op::Constant(Value::Bool(true)), Op::Negate]),
        RuntimeError::CannotNegate(Value::Bool(true))
    );
    assert_eq!(
        failure(vec![Op::Constant(num(1.0)), Op::Not]),
        RuntimeError::CannotNegate(num(1.0))
    );
    assert_eq!(failure(vec![Op::Constant(Value::Nil), Op::Not]), RuntimeError::CannotNegate(Value::Nil));
    assert_eq!(failure(vec![Op::Negate]), RuntimeError::NothingToNegate);
    assert_eq!(failure(vec![Op::Not]), RuntimeError::NothingToNegate);
}

#[test]
fn the_machine_defines_reads_and_assigns_globals() {
    let mut vm = machine(vec![
        Op::Constant(num(1.0)),
        Op::DefineGlobal("a".to_string()),
        Op::Constant(num(2.0)),
        Op::SetGlobal("a".to_string()),
        Op::Pop,
        Op::GetGlobal("a".to_string()),
    ]);
    assert_eq!(vm.step(), None);
    assert_eq!(vm.step(), None);
    assert_eq!(vm.stack_len(), 0);
    assert_eq!(vm.global("a"), Some(num(1.0)));
    assert_eq!(vm.step(), None);
    assert_eq!(vm.step(), None);
    assert_eq!(vm.stack_len(), 1);
    assert_eq!(vm.global("a"), Some(num(2.0)));
    assert_eq!(vm.interpret(), InterpretResult::InterpretOk);
    assert_eq!(vm.top(), Some(num(2.0)));
    assert_eq!(vm.stack_len(), 1);
}

#[test]
fn defining_a_global_again_overwrites_it() {
    let mut vm = machine(vec![
        Op::Constant(num(1.0)),
        Op::DefineGlobal("a".to_string()),
        Op::Constant(text("x")),
        Op::DefineGlobal("a".to_string()),
    ]);
    assert_eq!(vm.interpret(), InterpretResult::InterpretOk);
    assert_eq!(vm.global("a"), Some(text("x")));
}

#[test]
fn reading_an_undefined_global_fails() {
    assert_eq!(
        failure(vec![Op::GetGlobal("x".to_string())]),
        RuntimeError::UndefinedVariable("x".to_string())
    );
}

#[test]
fn assigning_an_undefined_global_fails_and_leaves_no_binding() {
    let mut vm = machine(vec![Op::Constant(num(5.0)), Op::SetGlobal("x".to_string()), Op::Pop]);
    assert_eq!(
        vm.interpret(),
        InterpretResult::RuntimeError(RuntimeError::UndefinedVariable("x".to_string()))
    );
    assert_eq!(vm.global("x"), None);
    assert_eq!(vm.stack_len(), 1);
    assert_eq!(vm.ip(), 1);
}

#[test]
fn instructions_that_need_a_value_fail_on_an_empty_stack() {
    assert_eq!(failure(vec![Op::DefineGlobal("a".to_string())]), RuntimeError::StackEmpty);
    assert_eq!(failure(vec![Op::SetGlobal("a".to_string())]), RuntimeError::StackEmpty);
    assert_eq!(failure(vec![Op::SetLocal(0)]), RuntimeError::StackEmpty);
    assert_eq!(failure(vec![Op::JumpIfFalse(0)]), RuntimeError::StackEmpty);
    assert_eq!(failure(vec![Op::JumpIfTrue(0)]), RuntimeError::StackEmpty);
}

#[test]
fn locals_are_read_and_assigned_by_slot() {
    let mut vm = machine(vec![
        Op::Constant(num(1.0)),
        Op::Constant(num(2.0)),
        Op::GetLocal(0),
        Op::SetLocal(1),
    ]);
    assert_eq!(vm.step(), None);
    assert_eq!(vm.step(), None);
    assert_eq!(vm.step(), None);
    assert_eq!(vm.stack_len(), 3);
    assert_eq!(vm.top(), Some(num(1.0)));
    assert_eq!(vm.step(), None);
    assert_eq!(vm.stack_len(), 3);
    assert_eq!(vm.top(), Some(num(1.0)));
    let mut chunk = Chunk::new();
    chunk.write_chunk(Op::Pop, 1);
    vm.load(chunk);
    assert_eq!(vm.interpret(), InterpretResult::InterpretOk);
    assert_eq!(vm.top(), Some(num(1.0)));
    assert_eq!(vm.stack_len(), 2);
}

#[test]
fn a_slot_beyond_the_stack_is_reported() {
    assert_eq!(failure(vec![Op::GetLocal(0)]), RuntimeError::InvalidSlot(0));
    assert_eq!(
        failure(vec![Op::Constant(Value::Nil), Op::GetLocal(1)]),
        RuntimeError::InvalidSlot(1)
    );
    assert_eq!(
        failure(vec![Op::Constant(Value::Nil), Op::SetLocal(1)]),
        RuntimeError::InvalidSlot(1)
    );
}

#[test]
fn conditional_jumps_keep_the_condition() {
    let program = |condition: bool, jump: Op| {
        vec![
            Op::Constant(Value::Bool(condition)),
            jump,
            Op::Constant(text("skipped")),
            Op::Constant(text("reached")),
            Op::Return,
        ]
    };
    let mut vm = machine(program(false, Op::JumpIfFalse(1)));
    assert_eq!(vm.step(), None);
    assert_eq!(vm.step(), None);
    assert_eq!(vm.ip(), 3);
    assert_eq!(vm.stack_len(), 1);
    assert_eq!(vm.top(), Some(Value::Bool(false)));
    let mut vm = machine(program(true, Op::JumpIfFalse(1)));
    assert_eq!(vm.step(), None);
    assert_eq!(vm.step(), None);
    assert_eq!(vm.ip(), 2);
    let mut vm = machine(program(true, Op::JumpIfTrue(1)));
    assert_eq!(vm.step(), None);
    assert_eq!(vm.step(), None);
    assert_eq!(vm.ip(), 3);
    let mut vm = machine(program(false, Op::JumpIfTrue(1)));
    assert_eq!(vm.step(), None);
    assert_eq!(vm.step(), None);
    assert_eq!(vm.ip(), 2);
}

#[test]
fn a_condition_that_is_no_boolean_is_reported() {
    assert_eq!(
        failure(vec![Op::Constant(num(1.0)), Op::JumpIfFalse(0)]),
        RuntimeError::NotBoolean(num(1.0))
    );
    assert_eq!(
        failure(vec![Op::Constant(Value::Nil), Op::JumpIfTrue(0)]),
        RuntimeError::NotBoolean(Value::Nil)
    );
}

#[test]
fn jumps_skip_instructions() {
    let mut vm = machine(vec![Op::Jump(1), Op::Constant(num(1.0)), Op::Constant(num(2.0))]);
    assert_eq!(vm.interpret(), InterpretResult::InterpretOk);
    assert_eq!(vm.stack_len(), 1);
    assert_eq!(vm.top(), Some(num(2.0)));
    let mut vm = machine(vec![Op::Jump(0), Op::Constant(num(1.0))]);
    assert_eq!(vm.interpret(), InterpretResult::InterpretOk);
    assert_eq!(vm.stack_len(), 1);
}

#[test]
fn a_jump_past_the_end_ends_the_program() {
    let mut vm = machine(vec![Op::Jump(usize::MAX), Op::Constant(num(1.0))]);
    assert_eq!(vm.interpret(), InterpretResult::InterpretOk);
    assert_eq!(vm.stack_len(), 0);
    assert_eq!(vm.ip(), 2);
    let mut vm = machine(vec![Op::Jump(7)]);
    assert_eq!(vm.interpret(), InterpretResult::InterpretOk);
    assert_eq!(vm.ip(), 1);
}

#[test]
fn loading_keeps_stack_and_globals() {
    let mut vm = machine(vec![
        Op::Constant(num(1.0)),
        Op::DefineGlobal("a".to_string()),
        Op::Constant(num(2.0)),
    ]);
    assert_eq!(vm.interpret(), InterpretResult::InterpretOk);
    let mut chunk = Chunk::new();
    chunk.write_chunk(Op::GetGlobal("a".to_string()), 1);
    vm.load(chunk);
    assert_eq!(vm.ip(), 0);
    assert_eq!(vm.stack_len(), 1);
    assert_eq!(vm.interpret(), InterpretResult::InterpretOk);
    assert_eq!(vm.stack_len(), 2);
    assert_eq!(vm.top(), Some(num(1.0)));
}

#[test]
fn many_globals_make_the_table_grow() {
    let mut ops = Vec::new();
    for i in 0..100 {
        ops.push(Op::Constant(num(i as f64)));
        ops.push(Op::DefineGlobal(format!("g{}", i)));
    }
    let mut vm = machine(ops);
    assert_eq!(vm.interpret(), InterpretResult::InterpretOk);
    for i in 0..100 {
        assert_eq!(vm.global(&format!("g{}", i)), Some(num(i as f64)));
    }
}

#[test]
fn what_a_failure_says() {
    assert_eq!(
        RuntimeError::UndefinedVariable("x".to_string()).message(),
        "undefined variable 'x'"
    );
    assert_eq!(
        RuntimeError::InvalidOperands(BinaryOp::Add, None, None).message(),
        "tried to perform binop '+' but arguments are invalid"
    );
    assert_eq!(
        RuntimeError::InvalidOperands(BinaryOp::Equal, None, None).message(),
        "tried to perform binop '==' but arguments are invalid"
    );
    assert_eq!(RuntimeError::CannotNegate(Value::Nil).message(), "can't negate");
    assert_eq!(RuntimeError::NothingToNegate.message(), "nothing to negate");
    assert_eq!(RuntimeError::NothingToPrint.message(), "nothing to dump");
    assert_eq!(RuntimeError::StackEmpty.message(), "stack is empty");
    assert_eq!(RuntimeError::InvalidSlot(3).message(), "no such stack slot");
    assert_eq!(RuntimeError::NotBoolean(Value::Nil).message(), "condition is not a boolean");
    assert_eq!(RuntimeError::GlobalsFull.message(), "too many globals");
    assert_eq!(BinaryOp::Subtract.symbol(), "-");
    assert_eq!(BinaryOp::Multiply.symbol(), "*");
    assert_eq!(BinaryOp::Divide.symbol(), "/");
    assert_eq!(BinaryOp::Greater.symbol(), ">");
    assert_eq!(BinaryOp::Less.symbol(), "<");
    assert!(BinaryOp::Divide.arithmetic());
    assert!(!BinaryOp::Less.arithmetic());
}
