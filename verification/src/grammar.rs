//! What the compiler computes: a function from tokens to instructions.
//!
//! `Compiler` is the state of a compilation: the cursor into the tokens, the
//! scope depth, the locals in scope, the instructions emitted so far and the
//! errors reported so far. Each grammar rule is a function on that state.
//! A rule that runs one rule after another goes on only if the first has not
//! moved the cursor back, which no rule ever does: that is proved, with the
//! other invariants of a compilation, in the module `soundness`.

use vstd::prelude::*;
use crate::op::OpView;
use crate::rules::{rule_of, Precedence, RuleFunc};
use crate::token::{Token, TokenKind};
use crate::value::ValueView;

verus! {

/// What is wrong with a program.
#[derive(Debug, Clone, Copy, PartialEq, Eq, Structural)]
pub enum ErrorKind {
    /// A token of this kind was expected.
    Expected(TokenKind),
    /// The token cannot start an expression.
    ExpectedExpression,
    /// `=` follows something that cannot be assigned to.
    InvalidAssignmentTarget,
    /// The scope already holds a variable of this name.
    AlreadyDeclared,
}

/// A compile error, with the index of the token it is about.
#[derive(Debug, Clone, Copy, PartialEq, Eq, Structural)]
pub struct CompileError {
    pub kind: ErrorKind,
    pub at: usize,
}

/// The model of a local variable: its name and the depth of the scope that
/// declares it. Its index among the locals is its stack slot.
pub ghost struct LocalView {
    pub name: Seq<char>,
    pub depth: nat,
}

/// The slot of the innermost local of this name.
pub open spec fn resolve_local(locals: Seq<LocalView>, name: Seq<char>) -> Option<nat>
    decreases locals.len(),
{
    if locals.len() == 0 {
        None
    } else if locals.last().name == name {
        Some((locals.len() - 1) as nat)
    } else {
        resolve_local(locals.drop_last(), name)
    }
}

/// Whether the scope at `depth`, the innermost one, declares this name.
pub open spec fn declared_in_scope(locals: Seq<LocalView>, depth: nat, name: Seq<char>) -> bool
    decreases locals.len(),
{
    if locals.len() == 0 || locals.last().depth < depth {
        false
    } else if locals.last().name == name {
        true
    } else {
        declared_in_scope(locals.drop_last(), depth, name)
    }
}

/// The state of a compilation.
pub ghost struct Compiler {
    /// The index of the token consumed last.
    pub prev: nat,
    /// The index of the token to consume next.
    pub current: nat,
    /// The number of blocks that are open.
    pub depth: nat,
    pub locals: Seq<LocalView>,
    pub ops: Seq<OpView>,
    pub errors: Seq<CompileError>,
}

impl Compiler {
    /// The state before anything is compiled.
    pub open spec fn start() -> Compiler {
        Compiler {
            prev: 0,
            current: 0,
            depth: 0,
            locals: Seq::empty(),
            ops: Seq::empty(),
            errors: Seq::empty(),
        }
    }

    /// The token to consume next; `Eof` past the last token.
    pub open spec fn cur(self, toks: Seq<Token>) -> Token {
        if self.current < toks.len() {
            toks[self.current as int]
        } else {
            Token::bare(TokenKind::Eof)
        }
    }

    /// The token consumed last.
    pub open spec fn before(self, toks: Seq<Token>) -> Token {
        if self.prev < toks.len() {
            toks[self.prev as int]
        } else {
            Token::bare(TokenKind::Eof)
        }
    }

    /// The number of tokens not yet consumed.
    pub open spec fn remaining(self, toks: Seq<Token>) -> nat {
        if self.current < toks.len() {
            (toks.len() - self.current) as nat
        } else {
            0
        }
    }

    /// Consumes a token. The cursor does not move past `Eof`.
    pub open spec fn advance(self, toks: Seq<Token>) -> Compiler {
        Compiler {
            prev: self.current,
            current: if self.cur(toks).kind == TokenKind::Eof {
                self.current
            } else {
                self.current + 1
            },
            ..self
        }
    }

    /// Appends an instruction.
    pub open spec fn emit(self, op: OpView) -> Compiler {
        Compiler { ops: self.ops.push(op), ..self }
    }

    /// Replaces the instruction at `index`.
    pub open spec fn patch(self, index: nat, op: OpView) -> Compiler {
        Compiler { ops: self.ops.update(index as int, op), ..self }
    }

    /// Reports an error about the token at `at`.
    pub open spec fn report(self, kind: ErrorKind, at: nat) -> Compiler {
        Compiler { errors: self.errors.push(CompileError { kind, at: at as usize }), ..self }
    }

    /// Consumes a token of this kind, or reports that there is none.
    pub open spec fn consume(self, toks: Seq<Token>, kind: TokenKind) -> Compiler {
        if self.cur(toks).kind == kind {
            self.advance(toks)
        } else {
            self.report(ErrorKind::Expected(kind), self.current)
        }
    }

    /// Opens a block.
    pub open spec fn begin_scope(self) -> Compiler {
        Compiler { depth: self.depth + 1, ..self }
    }

    /// Drops the locals declared deeper than the current depth, the last one
    /// first, and emits a `Pop` for each.
    pub open spec fn unwind(self) -> Compiler
        decreases self.locals.len(),
    {
        if self.locals.len() > 0 && self.locals.last().depth > self.depth {
            Compiler { locals: self.locals.drop_last(), ..self }.emit(OpView::Pop).unwind()
        } else {
            self
        }
    }

    /// Closes a block.
    pub open spec fn end_scope(self) -> Compiler {
        Compiler {
            depth: if self.depth > 0 {
                (self.depth - 1) as nat
            } else {
                0
            },
            ..self
        }.unwind()
    }

    /// Declares a local in the innermost scope, where its name should be
    /// new. `at` is the index of the token that names it.
    pub open spec fn add_local(self, name: Seq<char>, at: nat) -> Compiler {
        let checked = if declared_in_scope(self.locals, self.depth, name) {
            self.report(ErrorKind::AlreadyDeclared, at)
        } else {
            self
        };
        Compiler { locals: checked.locals.push(LocalView { name, depth: self.depth }), ..checked }
    }

    /// The instructions of a binary operator. Three comparisons serve six
    /// operators: each of the other three is the negation of one of them.
    pub open spec fn emit_operator(self, kind: TokenKind) -> Compiler {
        match kind {
            TokenKind::Plus => self.emit(OpView::Add),
            TokenKind::Minus => self.emit(OpView::Subtract),
            TokenKind::Star => self.emit(OpView::Multiply),
            TokenKind::Slash => self.emit(OpView::Divide),
            TokenKind::EqualEqual => self.emit(OpView::Equal),
            TokenKind::BangEqual => self.emit(OpView::Equal).emit(OpView::Not),
            TokenKind::Greater => self.emit(OpView::Greater),
            TokenKind::GreaterEqual => self.emit(OpView::Less).emit(OpView::Not),
            TokenKind::Less => self.emit(OpView::Less),
            TokenKind::LessEqual => self.emit(OpView::Greater).emit(OpView::Not),
            _ => self,
        }
    }

    /// An expression whose operators bind at least as tightly as `p`: a
    /// prefix, then every infix that binds tightly enough.
    pub open spec fn parse_precedence(self, toks: Seq<Token>, p: Precedence) -> Compiler
        decreases self.remaining(toks), 1nat,
    {
        let a = self.advance(toks);
        match rule_of(a.before(toks).kind).prefix {
            None => a.report(ErrorKind::ExpectedExpression, a.prev),
            Some(f) => {
                let can_assign = p.level() <= Precedence::Assignment.level();
                let b = a.apply(toks, f, can_assign);
                if b.current < a.current {
                    b
                } else {
                    let c = b.infix_loop(toks, p, can_assign);
                    if can_assign && c.cur(toks).kind == TokenKind::Equal {
                        c.report(ErrorKind::InvalidAssignmentTarget, c.current)
                    } else {
                        c
                    }
                }
            },
        }
    }

    /// Every infix operator in a row that binds at least as tightly as `p`,
    /// each with its right operand.
    pub open spec fn infix_loop(self, toks: Seq<Token>, p: Precedence, can_assign: bool) -> Compiler
        decreases self.remaining(toks), 0nat,
    {
        let rule = rule_of(self.cur(toks).kind);
        if p.level() <= rule.precedence.level() && rule.infix is Some {
            let a = self.advance(toks);
            let b = a.apply(toks, rule.infix->0, can_assign);
            if b.current < a.current {
                b
            } else {
                b.infix_loop(toks, p, can_assign)
            }
        } else {
            self
        }
    }

    /// The handler that a rule names.
    pub open spec fn apply(self, toks: Seq<Token>, f: RuleFunc, can_assign: bool) -> Compiler
        decreases self.remaining(toks), 4nat,
    {
        match f {
            RuleFunc::Number => self.number(toks),
            RuleFunc::Literal => self.literal(toks),
            RuleFunc::Variable => self.named_variable(toks, can_assign),
            RuleFunc::Unary => self.unary(toks),
            RuleFunc::Binary => self.binary(toks),
            RuleFunc::Grouping => self.grouping(toks),
            RuleFunc::String => self.string(toks),
            RuleFunc::And => self.and(toks),
            RuleFunc::Or => self.or(toks),
        }
    }

    /// An expression.
    pub open spec fn expression(self, toks: Seq<Token>) -> Compiler
        decreases self.remaining(toks), 2nat,
    {
        self.parse_precedence(toks, Precedence::Assignment)
    }

    /// A number literal pushes its value.
    pub open spec fn number(self, toks: Seq<Token>) -> Compiler {
        if self.before(toks).kind == TokenKind::Number {
            self.emit(OpView::Constant(ValueView::Number(self.before(toks).number)))
        } else {
            self
        }
    }

    /// `true`, `false` and `nil` push their value.
    pub open spec fn literal(self, toks: Seq<Token>) -> Compiler {
        match self.before(toks).kind {
            TokenKind::True => self.emit(OpView::Constant(ValueView::Bool(true))),
            TokenKind::False => self.emit(OpView::Constant(ValueView::Bool(false))),
            TokenKind::Nil => self.emit(OpView::Constant(ValueView::Nil)),
            _ => self,
        }
    }

    /// A string literal pushes its text.
    pub open spec fn string(self, toks: Seq<Token>) -> Compiler {
        if self.before(toks).kind == TokenKind::String {
            self.emit(OpView::Constant(ValueView::String(self.before(toks).text)))
        } else {
            self
        }
    }

    /// A name is the innermost local of that name, or else a global. Where
    /// `=` follows and an assignment may stand, the name is assigned the
    /// expression that follows; otherwise it is read.
    pub open spec fn named_variable(self, toks: Seq<Token>, can_assign: bool) -> Compiler
        decreases self.remaining(toks), 3nat,
    {
        let name = self.before(toks).text;
        let slot = resolve_local(self.locals, name);
        if can_assign && self.cur(toks).kind == TokenKind::Equal {
            self.advance(toks).expression(toks).emit(
                match slot {
                    Some(i) => OpView::SetLocal(i),
                    None => OpView::SetGlobal(name),
                },
            )
        } else {
            self.emit(
                match slot {
                    Some(i) => OpView::GetLocal(i),
                    None => OpView::GetGlobal(name),
                },
            )
        }
    }

    /// `-` and `!` take an operand in which only unary operators bind, and
    /// act on its value.
    pub open spec fn unary(self, toks: Seq<Token>) -> Compiler
        decreases self.remaining(toks), 3nat,
    {
        let operand = self.parse_precedence(toks, Precedence::Unary);
        match self.before(toks).kind {
            TokenKind::Minus => operand.emit(OpView::Negate),
            TokenKind::Bang => operand.emit(OpView::Not),
            _ => operand,
        }
    }

    /// A parenthesis holds an expression and must be closed.
    pub open spec fn grouping(self, toks: Seq<Token>) -> Compiler
        decreases self.remaining(toks), 3nat,
    {
        self.expression(toks).consume(toks, TokenKind::RightParen)
    }

    /// A binary operator takes a right operand in which only operators bind
    /// that bind more tightly than itself: so it associates to the left.
    pub open spec fn binary(self, toks: Seq<Token>) -> Compiler
        decreases self.remaining(toks), 3nat,
    {
        let operator = self.before(toks).kind;
        self.parse_precedence(toks, rule_of(operator).precedence.next()).emit_operator(operator)
    }

    /// `and`: if the left operand is false, jump over the right one and keep
    /// the left; else drop the left and evaluate the right.
    pub open spec fn and(self, toks: Seq<Token>) -> Compiler
        decreases self.remaining(toks), 3nat,
    {
        let jump = self.ops.len();
        let right = self.emit(OpView::JumpIfFalse(0)).emit(OpView::Pop).parse_precedence(
            toks,
            Precedence::And,
        );
        right.patch(jump, OpView::JumpIfFalse((right.ops.len() - 1 - jump) as nat))
    }

    /// `or`: if the left operand is true, jump over the right one and keep
    /// the left; else drop the left and evaluate the right.
    pub open spec fn or(self, toks: Seq<Token>) -> Compiler
        decreases self.remaining(toks), 3nat,
    {
        let jump = self.ops.len();
        let right = self.emit(OpView::JumpIfTrue(0)).emit(OpView::Pop).parse_precedence(
            toks,
            Precedence::And,
        );
        right.patch(jump, OpView::JumpIfTrue((right.ops.len() - 1 - jump) as nat))
    }

    /// An expression statement drops the value of its expression.
    pub open spec fn expression_statement(self, toks: Seq<Token>) -> Compiler
        decreases self.remaining(toks), 6nat,
    {
        self.expression(toks).consume(toks, TokenKind::Semicolon).emit(OpView::Pop)
    }

    /// What follows `print`: an expression, whose value is printed.
    pub open spec fn print_statement(self, toks: Seq<Token>) -> Compiler
        decreases self.remaining(toks), 10nat,
    {
        self.expression(toks).consume(toks, TokenKind::Semicolon).emit(OpView::Print)
    }

    /// What follows `var`: a name, `=`, an expression and `;`. Outside any
    /// block the value becomes a global. Inside a block it stays where it is
    /// on the stack, and that slot becomes a local.
    pub open spec fn var_declaration(self, toks: Seq<Token>) -> Compiler
        decreases self.remaining(toks), 10nat,
    {
        if self.cur(toks).kind == TokenKind::Identifier {
            let name = self.cur(toks).text;
            let value = self.advance(toks).consume(toks, TokenKind::Equal).expression(
                toks,
            ).consume(toks, TokenKind::Semicolon);
            if value.depth > 0 {
                value.add_local(name, self.current)
            } else {
                value.emit(OpView::DefineGlobal(name))
            }
        } else {
            self.report(ErrorKind::Expected(TokenKind::Identifier), self.current)
        }
    }

    /// A declaration: a `var` declaration or a statement.
    pub open spec fn declaration(self, toks: Seq<Token>) -> Compiler
        decreases self.remaining(toks), 8nat,
    {
        if self.cur(toks).kind == TokenKind::Var {
            self.advance(toks).var_declaration(toks)
        } else {
            self.statement(toks)
        }
    }

    /// A statement: `print`, a block, `if`, or an expression.
    pub open spec fn statement(self, toks: Seq<Token>) -> Compiler
        decreases self.remaining(toks), 7nat,
    {
        match self.cur(toks).kind {
            TokenKind::Print => self.advance(toks).print_statement(toks),
            TokenKind::LeftBrace => self.advance(toks).begin_scope().block(toks).end_scope(),
            TokenKind::If => self.advance(toks).if_statement(toks),
            _ => self.expression_statement(toks),
        }
    }

    /// What follows `{`: declarations up to `}` or the end of the input,
    /// and the `}`.
    pub open spec fn block(self, toks: Seq<Token>) -> Compiler
        decreases self.remaining(toks), 10nat,
    {
        if self.cur(toks).kind == TokenKind::RightBrace || self.cur(toks).kind == TokenKind::Eof {
            self.consume(toks, TokenKind::RightBrace)
        } else {
            let body = self.declaration(toks);
            if body.current > self.current {
                body.block(toks)
            } else {
                body
            }
        }
    }

    /// What follows `if`: a condition in parentheses, a statement, and
    /// perhaps `else` and a statement. The condition stays on the stack
    /// across the jump that tests it, and each of the two paths pops it.
    pub open spec fn if_statement(self, toks: Seq<Token>) -> Compiler
        decreases self.remaining(toks), 10nat,
    {
        let open = self.consume(toks, TokenKind::LeftParen);
        let condition = open.expression(toks);
        if condition.current < open.current {
            condition
        } else {
            let closed = condition.consume(toks, TokenKind::RightParen);
            let then_jump = closed.ops.len();
            let then_start = closed.emit(OpView::JumpIfFalse(0)).emit(OpView::Pop);
            let then_end = then_start.statement(toks);
            if then_end.current < then_start.current {
                then_end
            } else {
                let else_jump = then_end.ops.len();
                let else_start = then_end.emit(OpView::Jump(0)).emit(OpView::Pop).patch(
                    then_jump,
                    OpView::JumpIfFalse((else_jump - then_jump) as nat),
                );
                let else_end = if else_start.cur(toks).kind == TokenKind::Else {
                    else_start.advance(toks).statement(toks)
                } else {
                    else_start
                };
                else_end.patch(else_jump, OpView::Jump((else_end.ops.len() - 1 - else_jump) as nat))
            }
        }
    }

    /// Whether the declaration at hand declares a local: it stands inside a
    /// block and starts with `var` and a name.
    pub open spec fn declares(self, toks: Seq<Token>) -> bool {
        &&& self.depth > 0
        &&& self.cur(toks).kind == TokenKind::Var
        &&& self.advance(toks).cur(toks).kind == TokenKind::Identifier
    }

    /// The number of `var` declarations that stand directly in the block at
    /// hand, not counting those of the blocks inside it.
    pub open spec fn block_vars(self, toks: Seq<Token>) -> nat
        decreases self.remaining(toks),
    {
        if self.cur(toks).kind == TokenKind::RightBrace || self.cur(toks).kind == TokenKind::Eof {
            0
        } else {
            let body = self.declaration(toks);
            let here: nat = if self.declares(toks) {
                1
            } else {
                0
            };
            if body.current > self.current {
                here + body.block_vars(toks)
            } else {
                here
            }
        }
    }

    /// Declarations up to the end of the input.
    pub open spec fn compile_loop(self, toks: Seq<Token>) -> Compiler
        decreases self.remaining(toks), 9nat,
    {
        if self.cur(toks).kind == TokenKind::Eof {
            self
        } else {
            let next = self.declaration(toks);
            if next.current > self.current {
                next.compile_loop(toks)
            } else {
                next
            }
        }
    }
}

/// What compiling a sequence of tokens yields.
pub open spec fn compile(toks: Seq<Token>) -> Compiler {
    Compiler::start().compile_loop(toks)
}

} // verus!
