//! The compiler: a single pass over the tokens that emits instructions.
//!
//! Expressions are parsed by precedence climbing, statements by recursive
//! descent. What the pass yields is the function `Compiler::compile_loop` of
//! the grammar; every function here is proved to compute its rule.

use vstd::prelude::*;
use crate::grammar::{
    declared_in_scope, resolve_local, CompileError, Compiler, ErrorKind, LocalView,
};
use crate::op::{op_views, Op, OpView};
use crate::rules::{parse_rules, rule_of, ParseRule, Precedence, RuleFunc};
use crate::soundness::{
    lemma_apply, lemma_declaration, lemma_expression, lemma_parse_precedence, lemma_statement,
};
use crate::token::{token_views, Token, TokenKind, TokenType};
use crate::value::{text_eq, Value};

verus! {

/// A local variable that is in scope.
#[derive(Debug)]
pub struct Local {
    pub name: String,
    pub depth: usize,
}

impl View for Local {
    type V = LocalView;

    open spec fn view(&self) -> LocalView {
        LocalView { name: self.name@, depth: self.depth as nat }
    }
}

/// The models of a sequence of locals, in order.
pub open spec fn local_views(locals: Seq<Local>) -> Seq<LocalView> {
    locals.map_values(|l: Local| l@)
}

/// The compiler.
pub struct Parser {
    tokens: Vec<TokenType>,
    prev: usize,
    current: usize,
    scope_depth: usize,
    locals: Vec<Local>,
    pub ops: Vec<Op>,
    errors: Vec<CompileError>,
}

/// The mathematical model of a `Parser`: the tokens it reads and the state
/// of the compilation.
pub ghost struct ParserView {
    pub tokens: Seq<Token>,
    pub state: Compiler,
}

impl View for Parser {
    type V = ParserView;

    closed spec fn view(&self) -> ParserView {
        ParserView {
            tokens: token_views(self.tokens@),
            state: Compiler {
                prev: self.prev as nat,
                current: self.current as nat,
                depth: self.scope_depth as nat,
                locals: local_views(self.locals@),
                ops: op_views(self.ops@),
                errors: self.errors@,
            },
        }
    }
}

proof fn lemma_ops_push(ops: Seq<Op>, op: Op)
    ensures
        op_views(ops.push(op)) == op_views(ops).push(op@),
{
    assert(op_views(ops.push(op)) =~= op_views(ops).push(op@));
}

proof fn lemma_ops_update(ops: Seq<Op>, i: int, op: Op)
    requires
        0 <= i < ops.len(),
    ensures
        op_views(ops.update(i, op)) == op_views(ops).update(i, op@),
{
    assert(op_views(ops.update(i, op)) =~= op_views(ops).update(i, op@));
}

proof fn lemma_locals_push(locals: Seq<Local>, local: Local)
    ensures
        local_views(locals.push(local)) == local_views(locals).push(local@),
{
    assert(local_views(locals.push(local)) =~= local_views(locals).push(local@));
}

proof fn lemma_locals_drop_last(locals: Seq<Local>)
    requires
        locals.len() > 0,
    ensures
        local_views(locals.drop_last()) == local_views(locals).drop_last(),
        local_views(locals).last() == locals.last()@,
{
    assert(local_views(locals.drop_last()) =~= local_views(locals).drop_last());
}

/// The slot of the innermost local of this name.
fn find_local(locals: &Vec<Local>, name: &str) -> (r: Option<usize>)
    ensures
        match r {
            Some(i) => resolve_local(local_views(locals@), name@) == Some(i as nat),
            None => resolve_local(local_views(locals@), name@) is None,
        },
{
    let mut i = locals.len();
    proof {
        assert(locals@.take(i as int) =~= locals@);
    }
    while i > 0
        invariant
            i <= locals@.len(),
            resolve_local(local_views(locals@), name@) == resolve_local(
                local_views(locals@.take(i as int)),
                name@,
            ),
        decreases i,
    {
        proof {
            lemma_locals_drop_last(locals@.take(i as int));
            assert(locals@.take(i as int).drop_last() =~= locals@.take(i - 1));
        }
        if text_eq(locals[i - 1].name.as_str(), name) {
            assert(local_views(locals@.take(i as int)).len() == i);
            return Some(i - 1);
        }
        i -= 1;
    }
    assert(local_views(locals@.take(0)).len() == 0);
    None
}

/// Whether the scope at `depth`, the innermost one, declares this name.
fn scope_declares(locals: &Vec<Local>, depth: usize, name: &str) -> (r: bool)
    ensures
        r == declared_in_scope(local_views(locals@), depth as nat, name@),
{
    let mut i = locals.len();
    proof {
        assert(locals@.take(i as int) =~= locals@);
    }
    while i > 0
        invariant
            i <= locals@.len(),
            declared_in_scope(local_views(locals@), depth as nat, name@) == declared_in_scope(
                local_views(locals@.take(i as int)),
                depth as nat,
                name@,
            ),
        decreases i,
    {
        proof {
            lemma_locals_drop_last(locals@.take(i as int));
            assert(locals@.take(i as int).drop_last() =~= locals@.take(i - 1));
            assert(local_views(locals@.take(i as int)).len() == i);
        }
        if locals[i - 1].depth < depth {
            return false;
        }
        if text_eq(locals[i - 1].name.as_str(), name) {
            return true;
        }
        i -= 1;
    }
    assert(local_views(locals@.take(0)).len() == 0);
    false
}

impl Parser {
    /// No more blocks are open than tokens have been consumed.
    pub closed spec fn wf(&self) -> bool {
        self.scope_depth <= self.current
    }

    /// A compiler at the start of `tokens`.
    pub fn new(tokens: Vec<TokenType>) -> (parser: Self)
        ensures
            parser.wf(),
            parser@.tokens == token_views(tokens@),
            parser@.state == Compiler::start(),
    {
        let parser = Parser {
            tokens,
            prev: 0,
            current: 0,
            scope_depth: 0,
            locals: Vec::new(),
            ops: Vec::new(),
            errors: Vec::new(),
        };
        proof {
            assert(local_views(parser.locals@) =~= Seq::<LocalView>::empty());
            assert(op_views(parser.ops@) =~= Seq::<OpView>::empty());
            assert(parser.errors@ =~= Seq::<CompileError>::empty());
        }
        parser
    }

    /// The errors reported so far, in order.
    pub fn errors(&self) -> (errors: &Vec<CompileError>)
        ensures
            errors@ == self@.state.errors,
    {
        &self.errors
    }

    /// Compiles declarations up to the end of the input.
    pub fn compile(&mut self)
        requires
            old(self).wf(),
        ensures
            final(self).wf(),
            final(self)@.tokens == old(self)@.tokens,
            final(self)@.state == old(self)@.state.compile_loop(old(self)@.tokens),
    {
        let ghost toks = self@.tokens;
        while self.current_kind() != TokenKind::Eof
            invariant
                self.wf(),
                self@.tokens == toks,
                toks == old(self)@.tokens,
                self@.state.compile_loop(toks) == old(self)@.state.compile_loop(toks),
            decreases self@.state.remaining(toks),
        {
            proof {
                lemma_declaration(toks, self@.state);
            }
            self.declaration();
        }
    }

    /// Consumes a token of the kind of `tt`, or reports that there is none.
    pub fn consume(&mut self, tt: TokenType)
        requires
            old(self).wf(),
        ensures
            final(self).wf(),
            final(self)@.tokens == old(self)@.tokens,
            final(self)@.state == old(self)@.state.consume(old(self)@.tokens, tt@.kind),
    {
        let kind = tt.kind();
        if self.current_kind() == kind {
            self.advance();
        } else {
            self.report(ErrorKind::Expected(kind), self.current);
        }
    }

    /// The kind of the token to consume next.
    fn current_kind(&self) -> (kind: TokenKind)
        ensures
            kind == self@.state.cur(self@.tokens).kind,
    {
        if self.current < self.tokens.len() {
            self.tokens[self.current].kind()
        } else {
            TokenKind::Eof
        }
    }

    /// The kind of the token consumed last.
    fn prev_kind(&self) -> (kind: TokenKind)
        ensures
            kind == self@.state.before(self@.tokens).kind,
    {
        if self.prev < self.tokens.len() {
            self.tokens[self.prev].kind()
        } else {
            TokenKind::Eof
        }
    }

    /// The rule of the token to consume next.
    fn current_rule(&self) -> (rule: ParseRule)
        ensures
            rule == rule_of(self@.state.cur(self@.tokens).kind),
    {
        if self.current < self.tokens.len() {
            parse_rules(&self.tokens[self.current])
        } else {
            parse_rules(&TokenType::Eof)
        }
    }

    /// The rule of the token consumed last.
    fn prev_rule(&self) -> (rule: ParseRule)
        ensures
            rule == rule_of(self@.state.before(self@.tokens).kind),
    {
        if self.prev < self.tokens.len() {
            parse_rules(&self.tokens[self.prev])
        } else {
            parse_rules(&TokenType::Eof)
        }
    }

    /// The text that the token at `index` carries.
    fn text_at(&self, index: usize) -> (text: String)
        ensures
            text@ == if index < self@.tokens.len() {
                self@.tokens[index as int].text
            } else {
                Seq::<char>::empty()
            },
    {
        if index < self.tokens.len() {
            match &self.tokens[index] {
                TokenType::Identifier(s) => s.clone(),
                TokenType::String(s) => s.clone(),
                TokenType::Numeral(s) => s.clone(),
                TokenType::Error(s) => s.clone(),
                _ => String::new(),
            }
        } else {
            String::new()
        }
    }

    fn advance(&mut self)
        requires
            old(self).wf(),
        ensures
            final(self).wf(),
            final(self)@.tokens == old(self)@.tokens,
            final(self)@.state == old(self)@.state.advance(old(self)@.tokens),
    {
        let moves = self.current < self.tokens.len() && self.tokens[self.current].kind()
            != TokenKind::Eof;
        self.prev = self.current;
        if moves {
            self.current += 1;
        }
    }

    fn emit(&mut self, op: Op)
        requires
            old(self).wf(),
        ensures
            final(self).wf(),
            final(self)@.tokens == old(self)@.tokens,
            final(self)@.state == old(self)@.state.emit(op@),
    {
        proof {
            lemma_ops_push(self.ops@, op);
        }
        self.ops.push(op);
    }

    fn patch(&mut self, index: usize, op: Op)
        requires
            old(self).wf(),
            index < old(self)@.state.ops.len(),
        ensures
            final(self).wf(),
            final(self)@.tokens == old(self)@.tokens,
            final(self)@.state == old(self)@.state.patch(index as nat, op@),
    {
        proof {
            lemma_ops_update(self.ops@, index as int, op);
        }
        self.ops.set(index, op);
    }

    fn report(&mut self, kind: ErrorKind, at: usize)
        requires
            old(self).wf(),
        ensures
            final(self).wf(),
            final(self)@.tokens == old(self)@.tokens,
            final(self)@.state == old(self)@.state.report(kind, at as nat),
    {
        self.errors.push(CompileError { kind, at });
    }

    fn parse_precedence(&mut self, precedence: Precedence)
        requires
            old(self).wf(),
        ensures
            final(self).wf(),
            final(self)@.tokens == old(self)@.tokens,
            final(self)@.state == old(self)@.state.parse_precedence(old(self)@.tokens, precedence),
        decreases old(self)@.state.remaining(old(self)@.tokens), 1nat,
    {
        let ghost toks = self@.tokens;
        self.advance();
        let ghost a = self@.state;
        let f = match self.prev_rule().prefix {
            Some(f) => f,
            None => {
                self.report(ErrorKind::ExpectedExpression, self.prev);
                return ;
            },
        };
        let can_assign = precedence.rank() <= Precedence::Assignment.rank();
        proof {
            lemma_apply(toks, a, f, can_assign);
        }
        f.parse(self, can_assign);
        let ghost b = self@.state;
        let mut rule = self.current_rule();
        while precedence.rank() <= rule.precedence.rank() && rule.infix.is_some()
            invariant
                self.wf(),
                self@.tokens == toks,
                toks == old(self)@.tokens,
                rule == rule_of(self@.state.cur(toks).kind),
                self@.state.current >= a.current,
                a.remaining(toks) < old(self)@.state.remaining(toks),
                self@.state.infix_loop(toks, precedence, can_assign) == b.infix_loop(
                    toks,
                    precedence,
                    can_assign,
                ),
            decreases self@.state.remaining(toks),
        {
            let infix = rule.infix.unwrap();
            self.advance();
            proof {
                lemma_apply(toks, self@.state, infix, can_assign);
            }
            infix.parse(self, can_assign);
            rule = self.current_rule();
        }
        if can_assign && self.current_kind() == TokenKind::Equal {
            self.report(ErrorKind::InvalidAssignmentTarget, self.current);
        }
    }

    fn declaration(&mut self)
        requires
            old(self).wf(),
        ensures
            final(self).wf(),
            final(self)@.tokens == old(self)@.tokens,
            final(self)@.state == old(self)@.state.declaration(old(self)@.tokens),
        decreases old(self)@.state.remaining(old(self)@.tokens), 8nat,
    {
        if self.current_kind() == TokenKind::Var {
            self.advance();
            self.var_declaration();
        } else {
            self.statement();
        }
    }

    fn var_declaration(&mut self)
        requires
            old(self).wf(),
        ensures
            final(self).wf(),
            final(self)@.tokens == old(self)@.tokens,
            final(self)@.state == old(self)@.state.var_declaration(old(self)@.tokens),
        decreases old(self)@.state.remaining(old(self)@.tokens), 10nat,
    {
        if self.current_kind() == TokenKind::Identifier {
            let at = self.current;
            let name = self.text_at(at);
            self.advance();
            self.consume(TokenType::Equal);
            self.expression();
            self.consume(TokenType::Semicolon);
            if self.scope_depth > 0 {
                self.add_local(name, at);
            } else {
                self.emit(Op::DefineGlobal(name));
            }
        } else {
            self.report(ErrorKind::Expected(TokenKind::Identifier), self.current);
        }
    }

    fn add_local(&mut self, iden: String, at: usize)
        requires
            old(self).wf(),
        ensures
            final(self).wf(),
            final(self)@.tokens == old(self)@.tokens,
            final(self)@.state == old(self)@.state.add_local(iden@, at as nat),
    {
        if scope_declares(&self.locals, self.scope_depth, iden.as_str()) {
            self.report(ErrorKind::AlreadyDeclared, at);
        }
        let local = Local { name: iden, depth: self.scope_depth };
        proof {
            lemma_locals_push(self.locals@, local);
        }
        self.locals.push(local);
    }

    fn statement(&mut self)
        requires
            old(self).wf(),
        ensures
            final(self).wf(),
            final(self)@.tokens == old(self)@.tokens,
            final(self)@.state == old(self)@.state.statement(old(self)@.tokens),
        decreases old(self)@.state.remaining(old(self)@.tokens), 7nat,
    {
        match self.current_kind() {
            TokenKind::Print => {
                self.advance();
                self.print_statement();
            },
            TokenKind::LeftBrace => {
                self.advance();
                self.begin_scope();
                self.block();
                self.end_scope();
            },
            TokenKind::If => {
                self.advance();
                self.if_statement();
            },
            _ => {
                self.expression_statement();
            },
        }
    }

    fn if_statement(&mut self)
        requires
            old(self).wf(),
        ensures
            final(self).wf(),
            final(self)@.tokens == old(self)@.tokens,
            final(self)@.state == old(self)@.state.if_statement(old(self)@.tokens),
        decreases old(self)@.state.remaining(old(self)@.tokens), 10nat,
    {
        let ghost toks = self@.tokens;
        let ghost st = self@.state;
        self.consume(TokenType::LeftParen);
        let ghost open = self@.state;
        proof {
            lemma_expression(toks, open);
        }
        self.expression();
        let ghost condition = self@.state;
        assert(condition.current >= open.current);
        self.consume(TokenType::RightParen);
        let ghost closed = self@.state;

        let then_jump = self.ops.len();
        assert(then_jump == closed.ops.len());
        self.emit(Op::JumpIfFalse(0));
        self.emit(Op::Pop);
        let ghost then_start = self@.state;
        assert(then_start.ops.len() == then_jump + 2);

        proof {
            lemma_statement(toks, then_start);
        }
        self.statement();
        let ghost then_end = self@.state;
        assert(then_end.current >= then_start.current);
        assert(then_end.ops.len() >= then_jump + 2);

        let else_jump = self.ops.len();
        assert(else_jump == then_end.ops.len());
        self.emit(Op::Jump(0));
        self.emit(Op::Pop);
        self.patch(then_jump, Op::JumpIfFalse(else_jump - then_jump));
        let ghost else_start = self@.state;
        assert(else_start.ops.len() == else_jump + 2);
        assert(else_start == then_end.emit(OpView::Jump(0)).emit(OpView::Pop).patch(
            then_jump as nat,
            OpView::JumpIfFalse((else_jump - then_jump) as nat),
        ));

        if self.current_kind() == TokenKind::Else {
            self.advance();
            proof {
                lemma_statement(toks, self@.state);
            }
            self.statement();
        }
        let ghost else_end = self@.state;
        assert(else_end.ops.len() >= else_jump + 2);
        assert(else_end == if else_start.cur(toks).kind == TokenKind::Else {
            else_start.advance(toks).statement(toks)
        } else {
            else_start
        });
        let offset = self.ops.len() - 1 - else_jump;
        self.patch(else_jump, Op::Jump(offset));
    }

    fn and(&mut self)
        requires
            old(self).wf(),
        ensures
            final(self).wf(),
            final(self)@.tokens == old(self)@.tokens,
            final(self)@.state == old(self)@.state.and(old(self)@.tokens),
        decreases old(self)@.state.remaining(old(self)@.tokens), 3nat,
    {
        let jump = self.ops.len();
        self.emit(Op::JumpIfFalse(0));
        self.emit(Op::Pop);
        proof {
            lemma_parse_precedence(self@.tokens, self@.state, Precedence::And);
        }
        self.parse_precedence(Precedence::And);
        let offset = self.ops.len() - 1 - jump;
        self.patch(jump, Op::JumpIfFalse(offset));
    }

    fn or(&mut self)
        requires
            old(self).wf(),
        ensures
            final(self).wf(),
            final(self)@.tokens == old(self)@.tokens,
            final(self)@.state == old(self)@.state.or(old(self)@.tokens),
        decreases old(self)@.state.remaining(old(self)@.tokens), 3nat,
    {
        let jump = self.ops.len();
        self.emit(Op::JumpIfTrue(0));
        self.emit(Op::Pop);
        proof {
            lemma_parse_precedence(self@.tokens, self@.state, Precedence::And);
        }
        self.parse_precedence(Precedence::And);
        let offset = self.ops.len() - 1 - jump;
        self.patch(jump, Op::JumpIfTrue(offset));
    }

    fn block(&mut self)
        requires
            old(self).wf(),
        ensures
            final(self).wf(),
            final(self)@.tokens == old(self)@.tokens,
            final(self)@.state == old(self)@.state.block(old(self)@.tokens),
        decreases old(self)@.state.remaining(old(self)@.tokens), 10nat,
    {
        let ghost toks = self@.tokens;
        let mut kind = self.current_kind();
        while kind != TokenKind::RightBrace && kind != TokenKind::Eof
            invariant
                self.wf(),
                self@.tokens == toks,
                toks == old(self)@.tokens,
                kind == self@.state.cur(toks).kind,
                self@.state.current >= old(self)@.state.current,
                self@.state.block(toks) == old(self)@.state.block(toks),
            decreases self@.state.remaining(toks),
        {
            proof {
                lemma_declaration(toks, self@.state);
            }
            self.declaration();
            kind = self.current_kind();
        }
        self.consume(TokenType::RightBrace);
    }

    fn begin_scope(&mut self)
        requires
            old(self).scope_depth < old(self).current,
        ensures
            final(self).wf(),
            final(self)@.tokens == old(self)@.tokens,
            final(self)@.state == old(self)@.state.begin_scope(),
    {
        self.scope_depth += 1;
    }

    fn end_scope(&mut self)
        requires
            old(self).scope_depth <= old(self).current + 1,
        ensures
            final(self).wf(),
            final(self)@.tokens == old(self)@.tokens,
            final(self)@.state == old(self)@.state.end_scope(),
    {
        if self.scope_depth > 0 {
            self.scope_depth -= 1;
        }
        loop
            invariant
                self.wf(),
                self@.tokens == old(self)@.tokens,
                self@.state.unwind() == old(self)@.state.end_scope(),
            decreases self@.state.locals.len(),
        {
            let n = self.locals.len();
            if n == 0 {
                assert(self@.state.locals.len() == 0);
                return ;
            }
            proof {
                lemma_locals_drop_last(self.locals@);
            }
            if self.locals[n - 1].depth <= self.scope_depth {
                assert(self@.state.locals.last().depth <= self@.state.depth);
                return ;
            }
            let ghost before = self@.state;
            let _ = self.locals.pop();
            assert(self@.state == (Compiler { locals: before.locals.drop_last(), ..before }));
            self.emit(Op::Pop);
        }
    }

    fn expression_statement(&mut self)
        requires
            old(self).wf(),
        ensures
            final(self).wf(),
            final(self)@.tokens == old(self)@.tokens,
            final(self)@.state == old(self)@.state.expression_statement(old(self)@.tokens),
        decreases old(self)@.state.remaining(old(self)@.tokens), 6nat,
    {
        self.expression();
        self.consume(TokenType::Semicolon);
        self.emit(Op::Pop);
    }

    fn print_statement(&mut self)
        requires
            old(self).wf(),
        ensures
            final(self).wf(),
            final(self)@.tokens == old(self)@.tokens,
            final(self)@.state == old(self)@.state.print_statement(old(self)@.tokens),
        decreases old(self)@.state.remaining(old(self)@.tokens), 10nat,
    {
        self.expression();
        self.consume(TokenType::Semicolon);
        self.emit(Op::Print);
    }

    /// Compiles one expression.
    pub fn expression(&mut self)
        requires
            old(self).wf(),
        ensures
            final(self).wf(),
            final(self)@.tokens == old(self)@.tokens,
            final(self)@.state == old(self)@.state.expression(old(self)@.tokens),
        decreases old(self)@.state.remaining(old(self)@.tokens), 2nat,
    {
        self.parse_precedence(Precedence::Assignment);
    }

    fn unary(&mut self)
        requires
            old(self).wf(),
        ensures
            final(self).wf(),
            final(self)@.tokens == old(self)@.tokens,
            final(self)@.state == old(self)@.state.unary(old(self)@.tokens),
        decreases old(self)@.state.remaining(old(self)@.tokens), 3nat,
    {
        let operator_type = self.prev_kind();
        self.parse_precedence(Precedence::Unary);
        match operator_type {
            TokenKind::Minus => self.emit(Op::Negate),
            TokenKind::Bang => self.emit(Op::Not),
            _ => {},
        }
    }

    fn grouping(&mut self)
        requires
            old(self).wf(),
        ensures
            final(self).wf(),
            final(self)@.tokens == old(self)@.tokens,
            final(self)@.state == old(self)@.state.grouping(old(self)@.tokens),
        decreases old(self)@.state.remaining(old(self)@.tokens), 3nat,
    {
        self.expression();
        self.consume(TokenType::RightParen);
    }

    fn binary(&mut self)
        requires
            old(self).wf(),
        ensures
            final(self).wf(),
            final(self)@.tokens == old(self)@.tokens,
            final(self)@.state == old(self)@.state.binary(old(self)@.tokens),
        decreases old(self)@.state.remaining(old(self)@.tokens), 3nat,
    {
        let operator_type = self.prev_kind();
        let rule = self.prev_rule();
        self.parse_precedence(rule.precedence.next());
        match operator_type {
            TokenKind::Plus => self.emit(Op::Add),
            TokenKind::Minus => self.emit(Op::Subtract),
            TokenKind::Star => self.emit(Op::Multiply),
            TokenKind::Slash => self.emit(Op::Divide),
            TokenKind::EqualEqual => self.emit(Op::Equal),
            TokenKind::BangEqual => {
                self.emit(Op::Equal);
                self.emit(Op::Not);
            },
            TokenKind::Greater => self.emit(Op::Greater),
            TokenKind::GreaterEqual => {
                self.emit(Op::Less);
                self.emit(Op::Not);
            },
            TokenKind::Less => self.emit(Op::Less),
            TokenKind::LessEqual => {
                self.emit(Op::Greater);
                self.emit(Op::Not);
            },
            _ => {},
        }
    }

    fn literal(&mut self)
        requires
            old(self).wf(),
        ensures
            final(self).wf(),
            final(self)@.tokens == old(self)@.tokens,
            final(self)@.state == old(self)@.state.literal(old(self)@.tokens),
    {
        match self.prev_kind() {
            TokenKind::True => self.emit(Op::Constant(Value::Bool(true))),
            TokenKind::False => self.emit(Op::Constant(Value::Bool(false))),
            TokenKind::Nil => self.emit(Op::Constant(Value::Nil)),
            _ => {},
        }
    }

    fn number(&mut self)
        requires
            old(self).wf(),
        ensures
            final(self).wf(),
            final(self)@.tokens == old(self)@.tokens,
            final(self)@.state == old(self)@.state.number(old(self)@.tokens),
    {
        if self.prev < self.tokens.len() {
            let bits = match &self.tokens[self.prev] {
                TokenType::Number(n) => Some(*n),
                _ => None,
            };
            match bits {
                Some(n) => self.emit(Op::Constant(Value::Number(n))),
                None => {},
            }
        }
    }

    fn string(&mut self)
        requires
            old(self).wf(),
        ensures
            final(self).wf(),
            final(self)@.tokens == old(self)@.tokens,
            final(self)@.state == old(self)@.state.string(old(self)@.tokens),
    {
        if self.prev_kind() == TokenKind::String {
            let text = self.text_at(self.prev);
            self.emit(Op::Constant(Value::String(text)));
        }
    }

    fn variable(&mut self, can_assign: bool)
        requires
            old(self).wf(),
        ensures
            final(self).wf(),
            final(self)@.tokens == old(self)@.tokens,
            final(self)@.state == old(self)@.state.named_variable(old(self)@.tokens, can_assign),
        decreases old(self)@.state.remaining(old(self)@.tokens), 4nat,
    {
        self.named_variable(can_assign);
    }

    fn named_variable(&mut self, can_assign: bool)
        requires
            old(self).wf(),
        ensures
            final(self).wf(),
            final(self)@.tokens == old(self)@.tokens,
            final(self)@.state == old(self)@.state.named_variable(old(self)@.tokens, can_assign),
        decreases old(self)@.state.remaining(old(self)@.tokens), 3nat,
    {
        let iden = self.text_at(self.prev);
        let slot = self.resolve_local(iden.as_str());
        if can_assign && self.current_kind() == TokenKind::Equal {
            self.advance();
            self.expression();
            match slot {
                Some(local) => self.emit(Op::SetLocal(local)),
                None => self.emit(Op::SetGlobal(iden)),
            }
        } else {
            match slot {
                Some(local) => self.emit(Op::GetLocal(local)),
                None => self.emit(Op::GetGlobal(iden)),
            }
        }
    }

    fn resolve_local(&self, name: &str) -> (r: Option<usize>)
        ensures
            match r {
                Some(i) => resolve_local(self@.state.locals, name@) == Some(i as nat),
                None => resolve_local(self@.state.locals, name@) is None,
            },
    {
        find_local(&self.locals, name)
    }
}

impl RuleFunc {
    /// Runs the handler that this rule names.
    fn parse(&self, p: &mut Parser, can_assign: bool)
        requires
            old(p).wf(),
        ensures
            final(p).wf(),
            final(p)@.tokens == old(p)@.tokens,
            final(p)@.state == old(p)@.state.apply(old(p)@.tokens, *self, can_assign),
        decreases old(p)@.state.remaining(old(p)@.tokens), 5nat,
    {
        match self {
            RuleFunc::Number => p.number(),
            RuleFunc::Variable => p.variable(can_assign),
            RuleFunc::Literal => p.literal(),
            RuleFunc::Unary => p.unary(),
            RuleFunc::Binary => p.binary(),
            RuleFunc::Grouping => p.grouping(),
            RuleFunc::String => p.string(),
            RuleFunc::And => p.and(),
            RuleFunc::Or => p.or(),
        }
    }
}

} // verus!
