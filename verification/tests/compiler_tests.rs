use lox_vm::grammar::{CompileError, ErrorKind};
use lox_vm::op::Op;
use lox_vm::parser::Parser;
use lox_vm::rules::{parse_rules, Precedence, RuleFunc};
use lox_vm::scanner::Scanner;
use lox_vm::token::{TokenKind, TokenType};
use lox_vm::value::Value;

fn tokens_of(source: &str) -> Vec<TokenType> {
    let mut tokens = Vec::new();
    for token in Scanner::new(source).scan_tokens() {
        let bits = match token.numeral() {
            Some(text) => text.parse::<f64>().ok().map(|x| x.to_bits()),
            None => None,
        };
        tokens.push(token.resolve(bits));
    }
    tokens
}

fn compile(source: &str) -> (Vec<Op>, Vec<CompileError>) {
    let mut parser = Parser::new(tokens_of(source));
    parser.compile();
    let errors = parser.errors().clone();
    (parser.ops, errors)
}

fn expression(source: &str) -> Vec<Op> {
    let mut parser = Parser::new(tokens_of(source));
    parser.expression();
    assert_eq!(parser.errors().len(), 0);
    parser.ops
}

fn num(x: f64) -> Op {
    Op::Constant(Value::Number(x.to_bits()))
}

fn text(s: &str) -> Op {
    Op::Constant(Value::String(s.to_string()))
}

fn error(kind: ErrorKind, at: usize) -> CompileError {
    CompileError { kind, at }
}

#[test]
fn multiplication_binds_tighter_than_addition() {
    assert_eq!(expression("1 + 2 * 3"), vec![num(1.0), num(2.0), num(3.0), Op::Multiply, Op::Add]);
    assert_eq!(expression("1 * 2 + 3"), vec![num(1.0), num(2.0), Op::Multiply, num(3.0), Op::Add]);
}

#[test]
fn an_expression_statement_drops_its_value() {
    let (ops, errors) = compile("1 + 2 * 3;");
    assert_eq!(ops, vec![num(1.0), num(2.0), num(3.0), Op::Multiply, Op::Add, Op::Pop]);
    assert_eq!(errors, vec![]);
}

#[test]
fn binary_operators_associate_to_the_left() {
    assert_eq!(
        expression("1 - 2 - 3"),
        vec![num(1.0), num(2.0), Op::Subtract, num(3.0), Op::Subtract]
    );
    assert_eq!(
        expression("8 / 4 / 2"),
        vec![num(8.0), num(4.0), Op::Divide, num(2.0), Op::Divide]
    );
}

#[test]
fn parentheses_group() {
    assert_eq!(
        expression("(1 + 2) * 3"),
        vec![num(1.0), num(2.0), Op::Add, num(3.0), Op::Multiply]
    );
}

#[test]
fn unary_operators_bind_tighter_than_binary_ones() {
    assert_eq!(expression("-1 + 2"), vec![num(1.0), Op::Negate, num(2.0), Op::Add]);
    assert_eq!(expression("!true"), vec![Op::Constant(Value::Bool(true)), Op::Not]);
    assert_eq!(expression("--1"), vec![num(1.0), Op::Negate, Op::Negate]);
    assert_eq!(
        expression("!(1 == 2)"),
        vec![num(1.0), num(2.0), Op::Equal, Op::Not]
    );
}

#[test]
fn literals_push_constants() {
    assert_eq!(expression("true"), vec![Op::Constant(Value::Bool(true))]);
    assert_eq!(expression("false"), vec![Op::Constant(Value::Bool(false))]);
    assert_eq!(expression("nil"), vec![Op::Constant(Value::Nil)]);
    assert_eq!(expression("\"hi\""), vec![text("hi")]);
    assert_eq!(expression("42"), vec![num(42.0)]);
}

#[test]
fn six_comparisons_from_three_instructions() {
    assert_eq!(expression("1 == 2"), vec![num(1.0), num(2.0), Op::Equal]);
    assert_eq!(expression("1 != 2"), vec![num(1.0), num(2.0), Op::Equal, Op::Not]);
    assert_eq!(expression("1 > 2"), vec![num(1.0), num(2.0), Op::Greater]);
    assert_eq!(expression("1 >= 2"), vec![num(1.0), num(2.0), Op::Less, Op::Not]);
    assert_eq!(expression("1 < 2"), vec![num(1.0), num(2.0), Op::Less]);
    assert_eq!(expression("1 <= 2"), vec![num(1.0), num(2.0), Op::Greater, Op::Not]);
}

#[test]
fn comparison_binds_tighter_than_equality() {
    assert_eq!(
        expression("1 < 2 == true"),
        vec![num(1.0), num(2.0), Op::Less, Op::Constant(Value::Bool(true)), Op::Equal]
    );
}

#[test]
fn and_jumps_over_its_right_operand() {
    assert_eq!(
        expression("true and false"),
        vec![
            Op::Constant(Value::Bool(true)),
            Op::JumpIfFalse(2),
            Op::Pop,
            Op::Constant(Value::Bool(false)),
        ]
    );
    assert_eq!(
        expression("(4==4) and (5==5)"),
        vec![
            num(4.0),
            num(4.0),
            Op::Equal,
            Op::JumpIfFalse(4),
            Op::Pop,
            num(5.0),
            num(5.0),
            Op::Equal,
        ]
    );
}

#[test]
fn or_jumps_over_its_right_operand() {
    assert_eq!(
        expression("true or false"),
        vec![
            Op::Constant(Value::Bool(true)),
            Op::JumpIfTrue(2),
            Op::Pop,
            Op::Constant(Value::Bool(false)),
        ]
    );
}

#[test]
fn and_binds_tighter_than_or() {
    assert_eq!(
        expression("true or false and nil"),
        vec![
            Op::Constant(Value::Bool(true)),
            Op::JumpIfTrue(5),
            Op::Pop,
            Op::Constant(Value::Bool(false)),
            Op::JumpIfFalse(2),
            Op::Pop,
            Op::Constant(Value::Nil),
        ]
    );
}

#[test]
fn globals_are_defined_read_and_assigned() {
    let (ops, errors) = compile("var a = 1; a = 2; print a;");
    assert_eq!(
        ops,
        vec![
            num(1.0),
            Op::DefineGlobal("a".to_string()),
            num(2.0),
            Op::SetGlobal("a".to_string()),
            Op::Pop,
            Op::GetGlobal("a".to_string()),
            Op::Print,
        ]
    );
    assert_eq!(errors, vec![]);
}

#[test]
fn locals_live_in_stack_slots() {
    let (ops, errors) = compile("{ var a = 1; var b = a; b = 2; print b; }");
    assert_eq!(
        ops,
        vec![
            num(1.0),
            Op::GetLocal(0),
            num(2.0),
            Op::SetLocal(1),
            Op::Pop,
            Op::GetLocal(1),
            Op::Print,
            Op::Pop,
            Op::Pop,
        ]
    );
    assert_eq!(errors, vec![]);
}

#[test]
fn an_inner_declaration_shadows_an_outer_one() {
    let (ops, errors) = compile("var a = 1; { var a = a + 1; print a; } print a;");
    assert_eq!(
        ops,
        vec![
            num(1.0),
            Op::DefineGlobal("a".to_string()),
            Op::GetGlobal("a".to_string()),
            num(1.0),
            Op::Add,
            Op::GetLocal(0),
            Op::Print,
            Op::Pop,
            Op::GetGlobal("a".to_string()),
            Op::Print,
        ]
    );
    assert_eq!(errors, vec![]);
    let (ops, errors) = compile("{ var a = 1; { var a = 2; print a; } print a; }");
    assert_eq!(
        ops,
        vec![
            num(1.0),
            num(2.0),
            Op::GetLocal(1),
            Op::Print,
            Op::Pop,
            Op::GetLocal(0),
            Op::Print,
            Op::Pop,
        ]
    );
    assert_eq!(errors, vec![]);
}

#[test]
fn a_block_pops_what_it_declared() {
    let (ops, errors) =
        compile("{ var a = 1; { var b = 2; var c = 3; print b; } var d = 4; }");
    assert_eq!(
        ops,
        vec![
            num(1.0),
            num(2.0),
            num(3.0),
            Op::GetLocal(1),
            Op::Print,
            Op::Pop,
            Op::Pop,
            num(4.0),
            Op::Pop,
            Op::Pop,
        ]
    );
    assert_eq!(errors, vec![]);
    let (ops, _) = compile("{ }");
    assert_eq!(ops, vec![]);
    let (ops, _) = compile("{ { var x = nil; } }");
    assert_eq!(ops, vec![Op::Constant(Value::Nil), Op::Pop]);
}

#[test]
fn if_with_else() {
    let (ops, errors) = compile("if (1 < 2) { print \"yes\"; } else { print \"no\"; }");
    assert_eq!(
        ops,
        vec![
            num(1.0),
            num(2.0),
            Op::Less,
            Op::JumpIfFalse(4),
            Op::Pop,
            text("yes"),
            Op::Print,
            Op::Jump(3),
            Op::Pop,
            text("no"),
            Op::Print,
        ]
    );
    assert_eq!(errors, vec![]);
}

#[test]
fn if_without_else() {
    let (ops, errors) = compile("if (true) print 1;");
    assert_eq!(
        ops,
        vec![
            Op::Constant(Value::Bool(true)),
            Op::JumpIfFalse(4),
            Op::Pop,
            num(1.0),
            Op::Print,
            Op::Jump(1),
            Op::Pop,
        ]
    );
    assert_eq!(errors, vec![]);
}

#[test]
fn every_jump_lands_inside_the_code_or_at_its_end() {
    let (ops, errors) = compile(
        "if (1 < 2 and 3 < 4 or false) { if (true) print 1; else { print 2; } } else print 3;",
    );
    assert_eq!(errors, vec![]);
    for (i, op) in ops.iter().enumerate() {
        match op {
            Op::Jump(offset) | Op::JumpIfFalse(offset) | Op::JumpIfTrue(offset) => {
                assert!(i + 1 + offset <= ops.len());
                assert!(*offset > 0);
            }
            _ => {}
        }
    }
}

#[test]
fn a_missing_operand_is_reported() {
    let (ops, errors) = compile("1 +");
    assert_eq!(ops, vec![num(1.0), Op::Add, Op::Pop]);
    assert_eq!(
        errors,
        vec![
            error(ErrorKind::ExpectedExpression, 2),
            error(ErrorKind::Expected(TokenKind::Semicolon), 2),
        ]
    );
}

#[test]
fn a_missing_semicolon_is_reported() {
    let (ops, errors) = compile("print 1");
    assert_eq!(ops, vec![num(1.0), Op::Print]);
    assert_eq!(errors, vec![error(ErrorKind::Expected(TokenKind::Semicolon), 2)]);
}

#[test]
fn a_missing_name_is_reported() {
    let (_, errors) = compile("var 1 = 2;");
    assert_eq!(errors[0], error(ErrorKind::Expected(TokenKind::Identifier), 1));
}

#[test]
fn a_missing_equal_sign_is_reported() {
    let (ops, errors) = compile("var a 1;");
    assert_eq!(ops, vec![num(1.0), Op::DefineGlobal("a".to_string())]);
    assert_eq!(errors, vec![error(ErrorKind::Expected(TokenKind::Equal), 2)]);
}

#[test]
fn a_missing_parenthesis_is_reported() {
    let (ops, errors) = compile("(1;");
    assert_eq!(ops, vec![num(1.0), Op::Pop]);
    assert_eq!(errors, vec![error(ErrorKind::Expected(TokenKind::RightParen), 2)]);
    let (_, errors) = compile("if true) print 1;");
    assert_eq!(errors[0], error(ErrorKind::Expected(TokenKind::LeftParen), 1));
}

#[test]
fn a_missing_brace_is_reported() {
    let (ops, errors) = compile("{ print 1;");
    assert_eq!(ops, vec![num(1.0), Op::Print]);
    assert_eq!(errors, vec![error(ErrorKind::Expected(TokenKind::RightBrace), 4)]);
}

#[test]
fn an_invalid_assignment_target_is_reported() {
    let (_, errors) = compile("a + b = 3;");
    assert_eq!(errors[0], error(ErrorKind::InvalidAssignmentTarget, 3));
}

#[test]
fn a_second_declaration_in_one_scope_is_reported() {
    let (ops, errors) = compile("{ var a = 1; var a = 2; }");
    assert_eq!(errors, vec![error(ErrorKind::AlreadyDeclared, 7)]);
    assert_eq!(ops, vec![num(1.0), num(2.0), Op::Pop, Op::Pop]);
    let (_, errors) = compile("{ var a = 1; { var a = 2; } }");
    assert_eq!(errors, vec![]);
}

#[test]
fn a_token_without_a_rule_starts_no_expression() {
    let (_, errors) = compile("while;");
    assert_eq!(errors, vec![error(ErrorKind::ExpectedExpression, 0)]);
    let mut parser = Parser::new(vec![TokenType::Numeral("1".to_string()), TokenType::Eof]);
    parser.expression();
    assert_eq!(parser.errors(), &vec![error(ErrorKind::ExpectedExpression, 0)]);
}

#[test]
fn tokens_without_an_end_are_compiled_to_their_last() {
    let mut parser = Parser::new(vec![TokenType::Number(1.0f64.to_bits()), TokenType::Semicolon]);
    parser.compile();
    assert_eq!(parser.ops, vec![num(1.0), Op::Pop]);
    assert_eq!(parser.errors().len(), 0);
    let mut parser = Parser::new(vec![]);
    parser.compile();
    assert_eq!(parser.ops, vec![]);
}

#[test]
fn consume_takes_a_token_of_the_same_kind() {
    let mut parser = Parser::new(tokens_of("a 1"));
    parser.consume(TokenType::Identifier("other".to_string()));
    assert_eq!(parser.errors().len(), 0);
    parser.consume(TokenType::Semicolon);
    assert_eq!(parser.errors(), &vec![error(ErrorKind::Expected(TokenKind::Semicolon), 1)]);
    parser.consume(TokenType::Number(0));
    assert_eq!(parser.errors().len(), 1);
}

#[test]
fn precedence_levels_follow_one_another() {
    assert_eq!(Precedence::Lowest.next(), Precedence::Assignment);
    assert_eq!(Precedence::Assignment.next(), Precedence::Or);
    assert_eq!(Precedence::Or.next(), Precedence::And);
    assert_eq!(Precedence::And.next(), Precedence::Equality);
    assert_eq!(Precedence::Equality.next(), Precedence::Comparison);
    assert_eq!(Precedence::Comparison.next(), Precedence::Term);
    assert_eq!(Precedence::Term.next(), Precedence::Factor);
    assert_eq!(Precedence::Factor.next(), Precedence::Unary);
    assert_eq!(Precedence::Unary.next(), Precedence::Call);
    assert_eq!(Precedence::Call.next(), Precedence::Primary);
    assert_eq!(Precedence::Primary.next(), Precedence::Lowest);
    assert_eq!(Precedence::Lowest.rank(), 0);
    assert_eq!(Precedence::Primary.rank(), 10);
}

#[test]
fn the_rule_table() {
    let minus = parse_rules(&TokenType::Minus);
    assert_eq!(minus.prefix, Some(RuleFunc::Unary));
    assert_eq!(minus.infix, Some(RuleFunc::Binary));
    assert_eq!(minus.precedence, Precedence::Term);
    let star = parse_rules(&TokenType::Star);
    assert_eq!(star.prefix, None);
    assert_eq!(star.precedence, Precedence::Factor);
    assert_eq!(parse_rules(&TokenType::And).infix, Some(RuleFunc::And));
    assert_eq!(parse_rules(&TokenType::And).precedence, Precedence::And);
    assert_eq!(parse_rules(&TokenType::Or).precedence, Precedence::Or);
    assert_eq!(parse_rules(&TokenType::EqualEqual).precedence, Precedence::Equality);
    assert_eq!(parse_rules(&TokenType::Less).precedence, Precedence::Comparison);
    let brace = parse_rules(&TokenType::LeftBrace);
    assert_eq!(brace.prefix, None);
    assert_eq!(brace.infix, None);
    assert_eq!(brace.precedence, Precedence::Lowest);
    assert_eq!(parse_rules(&TokenType::Identifier("a".to_string())).prefix, Some(RuleFunc::Variable));
    assert_eq!(parse_rules(&TokenType::LeftParen).prefix, Some(RuleFunc::Grouping));
}
