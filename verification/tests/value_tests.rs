use lox_vm::op::{Op, Operand};
use lox_vm::chunk::Chunk;
use lox_vm::value::{number_eq, number_lt, number_neg, text_eq, text_lt, Value};

fn samples() -> Vec<f64> {
    vec![
        0.0,
        -0.0,
        1.0,
        -1.0,
        2.5,
        -2.5,
        1e300,
        -1e300,
        5e-324,
        -5e-324,
        f64::INFINITY,
        f64::NEG_INFINITY,
        f64::NAN,
        f64::MAX,
        f64::MIN,
        f64::MIN_POSITIVE,
    ]
}

#[test]
fn number_order_is_that_of_the_floats() {
    for a in samples() {
        for b in samples() {
            assert_eq!(number_lt(a.to_bits(), b.to_bits()), a < b, "{} < {}", a, b);
        }
    }
}

#[test]
fn number_equality_is_that_of_the_floats() {
    for a in samples() {
        for b in samples() {
            assert_eq!(number_eq(a.to_bits(), b.to_bits()), a == b, "{} == {}", a, b);
        }
    }
    assert!(number_eq(0.0f64.to_bits(), (-0.0f64).to_bits()));
    assert!(!number_eq(f64::NAN.to_bits(), f64::NAN.to_bits()));
}

#[test]
fn number_negation_is_that_of_the_floats() {
    for a in samples() {
        assert_eq!(number_neg(a.to_bits()), (-a).to_bits(), "-{}", a);
    }
    assert_eq!(number_neg(1.5f64.to_bits()), (-1.5f64).to_bits());
}

#[test]
fn text_order_is_that_of_str() {
    let texts = ["", "a", "ab", "b", "B", "abc", "\u{e9}", "z", "\u{1F600}", "a\u{e9}"];
    for a in texts {
        for b in texts {
            assert_eq!(text_lt(a, b), a < b, "{:?} < {:?}", a, b);
            assert_eq!(text_eq(a, b), a == b, "{:?} == {:?}", a, b);
        }
    }
    assert!(text_lt("apple", "banana"));
    assert!(!text_lt("banana", "apple"));
    assert!(!text_lt("same", "same"));
}

#[test]
fn values_and_instructions_copy() {
    let values = vec![
        Value::Number(1.0f64.to_bits()),
        Value::Bool(true),
        Value::String("s".to_string()),
        Value::Nil,
    ];
    for v in &values {
        assert_eq!(&v.clone(), v);
    }
    let ops = vec![
        Op::SetGlobal("g".to_string()),
        Op::GetGlobal("g".to_string()),
        Op::SetLocal(1),
        Op::GetLocal(2),
        Op::DefineGlobal("g".to_string()),
        Op::Constant(Value::String("s".to_string())),
        Op::Pop,
        Op::Add,
        Op::Subtract,
        Op::Divide,
        Op::Multiply,
        Op::JumpIfFalse(3),
        Op::JumpIfTrue(4),
        Op::Jump(5),
        Op::Equal,
        Op::Greater,
        Op::Less,
        Op::Negate,
        Op::Not,
        Op::Print,
        Op::Nop,
        Op::Return,
    ];
    for op in &ops {
        assert_eq!(&op.clone(), op);
    }
}

#[test]
fn instruction_names() {
    assert_eq!(Op::Add.name(), "OP_ADD");
    assert_eq!(Op::Constant(Value::Nil).name(), "OP_CONSTANT");
    assert_eq!(Op::SetGlobal("a".to_string()).name(), "OP_SET_GLOBAL");
    assert_eq!(Op::GetGlobal("a".to_string()).name(), "OP_GET_GLOBAL");
    assert_eq!(Op::SetLocal(0).name(), "OP_SET_LOCAL");
    assert_eq!(Op::GetLocal(0).name(), "OP_GET_LOCAL");
    assert_eq!(Op::DefineGlobal("a".to_string()).name(), "OP_DEFINE_GLOBAL");
    assert_eq!(Op::JumpIfFalse(0).name(), "OP_JUMP_IF_FALSE");
    assert_eq!(Op::JumpIfTrue(0).name(), "OP_JUMP_IF_TRUE");
    assert_eq!(Op::Jump(0).name(), "OP_JUMP");
    assert_eq!(Op::Divide.name(), "OP_DIVIDE");
    assert_eq!(Op::Equal.name(), "OP_EQUAL");
    assert_eq!(Op::Greater.name(), "OP_GREATER");
    assert_eq!(Op::Less.name(), "OP_LESS");
    assert_eq!(Op::Multiply.name(), "OP_MULTIPLY");
    assert_eq!(Op::Negate.name(), "OP_NEGATE");
    assert_eq!(Op::Nop.name(), "NOp");
    assert_eq!(Op::Not.name(), "OP_NOT");
    assert_eq!(Op::Pop.name(), "OP_POP");
    assert_eq!(Op::Print.name(), "OP_PRINT");
    assert_eq!(Op::Return.name(), "OP_RETURN");
    assert_eq!(Op::Subtract.name(), "OP_SUBTRACT");
}

#[test]
fn a_chunk_keeps_instructions_and_lines_aligned() {
    let mut chunk = Chunk::new();
    assert_eq!(chunk.len(), 0);
    assert_eq!(chunk.line(0), None);
    chunk.write_chunk(Op::Constant(Value::Nil), 3);
    chunk.write_chunk(Op::Print, 4);
    assert_eq!(chunk.len(), 2);
    assert_eq!(chunk.code, vec![Op::Constant(Value::Nil), Op::Print]);
    assert_eq!(chunk.line(0), Some(3));
    assert_eq!(chunk.line(1), Some(4));
    assert_eq!(chunk.line(2), None);
}

#[test]
fn the_text_of_a_value() {
    assert_eq!(Value::Bool(true).text(), Some("true".to_string()));
    assert_eq!(Value::Bool(false).text(), Some("false".to_string()));
    assert_eq!(Value::Nil.text(), Some("nil".to_string()));
    assert_eq!(Value::String("yes".to_string()).text(), Some("yes".to_string()));
    assert_eq!(Value::Number(1.0f64.to_bits()).text(), None);
}

#[test]
fn a_listing_has_a_line_for_each_instruction() {
    let mut chunk = Chunk::new();
    chunk.write_chunk(Op::Constant(Value::Nil), 1);
    chunk.write_chunk(Op::DefineGlobal("a".to_string()), 1);
    chunk.write_chunk(Op::GetLocal(2), 2);
    chunk.write_chunk(Op::Jump(3), 2);
    chunk.write_chunk(Op::Add, 3);
    let listing = chunk.dissassemble_chunk("test chunk");
    assert_eq!(listing.title, "== test chunk ==");
    assert_eq!(listing.rows.len(), 5);
    assert_eq!(listing.rows[0].offset, 0);
    assert_eq!(listing.rows[0].name, "OP_CONSTANT");
    assert_eq!(listing.rows[0].operand, Operand::Constant(Value::Nil));
    assert_eq!(listing.rows[1].offset, 1);
    assert_eq!(listing.rows[1].name, "OP_DEFINE_GLOBAL");
    assert_eq!(listing.rows[1].operand, Operand::Name("a".to_string()));
    assert_eq!(listing.rows[2].operand, Operand::Slot(2));
    assert_eq!(listing.rows[3].operand, Operand::Offset(3));
    assert_eq!(listing.rows[4].offset, 4);
    assert_eq!(listing.rows[4].name, "OP_ADD");
    assert_eq!(listing.rows[4].operand, Operand::Absent);
    let row = chunk.dissassemble_instruction(7, &Op::Print);
    assert_eq!(row.offset, 7);
    assert_eq!(row.name, "OP_PRINT");
    assert_eq!(row.operand, Operand::Absent);
    assert_eq!(Chunk::new().dissassemble_chunk("").title, "==  ==");
}
