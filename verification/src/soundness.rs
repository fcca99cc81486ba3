//! What holds of every compilation.
//!
//! No rule moves the cursor back, changes an instruction that was emitted
//! before it began, or changes the scope depth; a rule leaves behind no jump
//! that still waits for its offset; every jump lands inside the code or just
//! past its end; and the locals are those of the blocks that are open. The
//! lemmas here prove that rule by rule, and the laws at the end state what
//! follows for a block and for a whole program.

use vstd::prelude::*;
use crate::grammar::{compile, Compiler, LocalView};
use crate::op::OpView;
use crate::rules::{rule_of, Precedence, RuleFunc};
use crate::token::{Token, TokenKind};

verus! {

/// Whether the jump at `index`, if there is one, lands inside the code or
/// just past its end.
pub open spec fn lands(ops: Seq<OpView>, index: int) -> bool {
    match ops[index] {
        OpView::Jump(offset) => index + 1 + offset <= ops.len(),
        OpView::JumpIfFalse(offset) => index + 1 + offset <= ops.len(),
        OpView::JumpIfTrue(offset) => index + 1 + offset <= ops.len(),
        _ => true,
    }
}

/// Every jump lands inside the code or just past its end.
pub open spec fn jumps_land(ops: Seq<OpView>) -> bool {
    forall|i: int| 0 <= i < ops.len() ==> #[trigger] lands(ops, i)
}

/// No local is declared deeper than the current depth.
pub open spec fn scoped(st: Compiler) -> bool {
    forall|i: int| 0 <= i < st.locals.len() ==> (#[trigger] st.locals[i]).depth <= st.depth
}

/// The invariant of a compilation.
pub open spec fn sound(st: Compiler) -> bool {
    scoped(st) && jumps_land(st.ops)
}

/// An instruction that is no jump, or a jump whose offset is still zero.
pub open spec fn plain(op: OpView) -> bool {
    match op {
        OpView::Jump(offset) => offset == 0,
        OpView::JumpIfFalse(offset) => offset == 0,
        OpView::JumpIfTrue(offset) => offset == 0,
        _ => true,
    }
}

/// A jump.
pub open spec fn is_jump(op: OpView) -> bool {
    op is Jump || op is JumpIfFalse || op is JumpIfTrue
}

/// The offset of a jump.
pub open spec fn offset_of(op: OpView) -> nat {
    match op {
        OpView::Jump(offset) => offset,
        OpView::JumpIfFalse(offset) => offset,
        OpView::JumpIfTrue(offset) => offset,
        _ => 0,
    }
}

/// Whether the instruction at `index` is settled: it is no jump, or a jump
/// whose offset has been filled in.
pub open spec fn settled(ops: Seq<OpView>, index: int) -> bool {
    is_jump(ops[index]) ==> offset_of(ops[index]) >= 1
}

/// `b` is `a` with settled instructions added behind it: what was emitted
/// stays as it is, and what a rule has added holds no jump that waits for
/// its offset.
pub open spec fn extends_ops(a: Seq<OpView>, b: Seq<OpView>) -> bool {
    &&& a.len() <= b.len()
    &&& forall|i: int| 0 <= i < a.len() ==> #[trigger] b[i] == a[i]
    &&& forall|i: int| a.len() <= i < b.len() ==> #[trigger] settled(b, i)
}

pub proof fn lemma_extends_trans(a: Seq<OpView>, b: Seq<OpView>, c: Seq<OpView>)
    requires
        extends_ops(a, b),
        extends_ops(b, c),
    ensures
        extends_ops(a, c),
{
    assert forall|i: int| 0 <= i < a.len() implies #[trigger] c[i] == a[i] by {
        assert(c[i] == b[i]);
        assert(b[i] == a[i]);
    }
    assert forall|i: int| a.len() <= i < c.len() implies #[trigger] settled(c, i) by {
        if i < b.len() {
            assert(settled(b, i));
            assert(c[i] == b[i]);
        }
    }
}

pub proof fn lemma_extends_push(a: Seq<OpView>, b: Seq<OpView>, op: OpView)
    requires
        extends_ops(a, b),
        !is_jump(op),
    ensures
        extends_ops(a, b.push(op)),
{
    let c = b.push(op);
    assert forall|i: int| 0 <= i < a.len() implies #[trigger] c[i] == a[i] by {
        assert(b[i] == a[i]);
    }
    assert forall|i: int| a.len() <= i < c.len() implies #[trigger] settled(c, i) by {
        if i < b.len() {
            assert(settled(b, i));
        }
    }
}

/// From `st` to `r` the cursor has not moved back, no instruction was
/// removed and the depth is the same.
pub open spec fn forward(st: Compiler, r: Compiler) -> bool {
    &&& r.current >= st.current
    &&& r.ops.len() >= st.ops.len()
    &&& r.depth == st.depth
}

/// `forward`, and soundness and the locals are kept.
pub open spec fn kept(st: Compiler, r: Compiler) -> bool {
    &&& forward(st, r)
    &&& sound(st) ==> sound(r) && r.locals == st.locals
}

/// The locals of `r` are those of `st` and `n` more, declared at the depth
/// of `st`.
pub open spec fn grown_by(st: Compiler, r: Compiler, n: nat) -> bool {
    &&& r.locals.len() == st.locals.len() + n
    &&& r.locals.take(st.locals.len() as int) == st.locals
    &&& forall|i: int|
        st.locals.len() <= i < r.locals.len() ==> (#[trigger] r.locals[i]).depth == st.depth
}

/// `forward`, and soundness is kept while `n` locals are declared.
pub open spec fn declared(st: Compiler, r: Compiler, n: nat) -> bool {
    &&& forward(st, r)
    &&& sound(st) ==> sound(r) && grown_by(st, r, n)
}

/// `n` times `Pop`.
pub open spec fn pops(n: nat) -> Seq<OpView> {
    Seq::new(n, |i: int| OpView::Pop)
}

pub proof fn lemma_emit(st: Compiler, op: OpView)
    requires
        plain(op),
    ensures
        kept(st, st.emit(op)),
        st.emit(op).current == st.current,
        !is_jump(op) ==> extends_ops(st.ops, st.emit(op).ops),
{
    let r = st.emit(op);
    if !is_jump(op) {
        lemma_extends_push(st.ops, st.ops, op);
    }
    if sound(st) {
        assert forall|i: int| 0 <= i < r.ops.len() implies #[trigger] lands(r.ops, i) by {
            if i < st.ops.len() {
                assert(lands(st.ops, i));
            }
        }
    }
}

pub proof fn lemma_patch(st: Compiler, index: nat, op: OpView)
    requires
        index < st.ops.len(),
        is_jump(op),
        index + 1 + offset_of(op) <= st.ops.len(),
    ensures
        kept(st, st.patch(index, op)),
        st.patch(index, op).current == st.current,
        st.patch(index, op).ops.len() == st.ops.len(),
{
    let r = st.patch(index, op);
    if sound(st) {
        assert forall|i: int| 0 <= i < r.ops.len() implies #[trigger] lands(r.ops, i) by {
            if i != index {
                assert(lands(st.ops, i));
            }
        }
    }
}

pub proof fn lemma_emit_operator(st: Compiler, kind: TokenKind)
    ensures
        kept(st, st.emit_operator(kind)),
        extends_ops(st.ops, st.emit_operator(kind).ops),
{
    match kind {
        TokenKind::Plus => lemma_emit(st, OpView::Add),
        TokenKind::Minus => lemma_emit(st, OpView::Subtract),
        TokenKind::Star => lemma_emit(st, OpView::Multiply),
        TokenKind::Slash => lemma_emit(st, OpView::Divide),
        TokenKind::EqualEqual => lemma_emit(st, OpView::Equal),
        TokenKind::BangEqual => {
            lemma_emit(st, OpView::Equal);
            lemma_emit(st.emit(OpView::Equal), OpView::Not);
            lemma_extends_trans(st.ops, st.emit(OpView::Equal).ops, st.emit_operator(kind).ops);
        },
        TokenKind::Greater => lemma_emit(st, OpView::Greater),
        TokenKind::GreaterEqual => {
            lemma_emit(st, OpView::Less);
            lemma_emit(st.emit(OpView::Less), OpView::Not);
            lemma_extends_trans(st.ops, st.emit(OpView::Less).ops, st.emit_operator(kind).ops);
        },
        TokenKind::Less => lemma_emit(st, OpView::Less),
        TokenKind::LessEqual => {
            lemma_emit(st, OpView::Greater);
            lemma_emit(st.emit(OpView::Greater), OpView::Not);
            lemma_extends_trans(st.ops, st.emit(OpView::Greater).ops, st.emit_operator(kind).ops);
        },
        _ => {},
    }
}

/// Closing a scope drops exactly the locals that lie above `base`, when
/// those are the ones declared deeper than the depth that is left, and emits
/// a `Pop` for each.
pub proof fn lemma_unwind(st: Compiler, base: nat)
    requires
        base <= st.locals.len(),
        forall|i: int| 0 <= i < base ==> (#[trigger] st.locals[i]).depth <= st.depth,
        forall|i: int| base <= i < st.locals.len() ==> (#[trigger] st.locals[i]).depth > st.depth,
    ensures
        st.unwind() == (Compiler {
            locals: st.locals.take(base as int),
            ops: st.ops + pops((st.locals.len() - base) as nat),
            ..st
        }),
        jumps_land(st.ops) ==> jumps_land(st.unwind().ops),
    decreases st.locals.len(),
{
    if st.locals.len() > base {
        assert(st.locals.last().depth > st.depth);
        let next = Compiler { locals: st.locals.drop_last(), ..st }.emit(OpView::Pop);
        lemma_unwind(next, base);
        lemma_emit(Compiler { locals: st.locals.drop_last(), ..st }, OpView::Pop);
        assert(next.locals.take(base as int) =~= st.locals.take(base as int));
        assert(next.ops + pops((next.locals.len() - base) as nat) =~= st.ops + pops(
            (st.locals.len() - base) as nat,
        ));
        if jumps_land(st.ops) {
            assert forall|i: int| 0 <= i < next.ops.len() implies #[trigger] lands(next.ops, i) by {
                if i < st.ops.len() {
                    assert(lands(st.ops, i));
                }
            }
        }
    } else {
        if st.locals.len() > 0 {
            assert(st.locals[st.locals.len() - 1].depth <= st.depth);
        }
        assert(st.locals.take(base as int) =~= st.locals);
        assert(st.ops + pops(0) =~= st.ops);
    }
}

/// Closing a scope never removes an instruction nor moves the cursor.
pub proof fn lemma_unwind_forward(st: Compiler)
    ensures
        forward(st, st.unwind()),
        st.unwind().current == st.current,
        st.unwind().prev == st.prev,
        st.unwind().errors == st.errors,
        extends_ops(st.ops, st.unwind().ops),
    decreases st.locals.len(),
{
    if st.locals.len() > 0 && st.locals.last().depth > st.depth {
        let next = Compiler { locals: st.locals.drop_last(), ..st }.emit(OpView::Pop);
        lemma_unwind_forward(next);
        lemma_extends_push(st.ops, st.ops, OpView::Pop);
        lemma_extends_trans(st.ops, next.ops, st.unwind().ops);
    }
}

pub proof fn lemma_parse_precedence(toks: Seq<Token>, st: Compiler, p: Precedence)
    ensures
        kept(st, st.parse_precedence(toks, p)),
        extends_ops(st.ops, st.parse_precedence(toks, p).ops),
    decreases st.remaining(toks), 1nat,
{
    let a = st.advance(toks);
    match rule_of(a.before(toks).kind).prefix {
        None => {},
        Some(f) => {
            let can_assign = p.level() <= Precedence::Assignment.level();
            lemma_apply(toks, a, f, can_assign);
            let b = a.apply(toks, f, can_assign);
            if b.current >= a.current {
                lemma_infix_loop(toks, b, p, can_assign);
                lemma_extends_trans(st.ops, b.ops, b.infix_loop(toks, p, can_assign).ops);
            }
        },
    }
}

pub proof fn lemma_infix_loop(toks: Seq<Token>, st: Compiler, p: Precedence, can_assign: bool)
    ensures
        kept(st, st.infix_loop(toks, p, can_assign)),
        extends_ops(st.ops, st.infix_loop(toks, p, can_assign).ops),
    decreases st.remaining(toks), 0nat,
{
    let rule = rule_of(st.cur(toks).kind);
    if p.level() <= rule.precedence.level() && rule.infix is Some {
        let a = st.advance(toks);
        lemma_apply(toks, a, rule.infix->0, can_assign);
        let b = a.apply(toks, rule.infix->0, can_assign);
        if b.current >= a.current {
            lemma_infix_loop(toks, b, p, can_assign);
            lemma_extends_trans(st.ops, b.ops, b.infix_loop(toks, p, can_assign).ops);
        }
    }
}

pub proof fn lemma_apply(toks: Seq<Token>, st: Compiler, f: RuleFunc, can_assign: bool)
    ensures
        kept(st, st.apply(toks, f, can_assign)),
        extends_ops(st.ops, st.apply(toks, f, can_assign).ops),
    decreases st.remaining(toks), 4nat,
{
    match f {
        RuleFunc::Number => {
            if st.before(toks).kind == TokenKind::Number {
                lemma_emit(st, st.number(toks).ops.last());
            }
        },
        RuleFunc::Literal => {
            match st.before(toks).kind {
                TokenKind::True | TokenKind::False | TokenKind::Nil => {
                    lemma_emit(st, st.literal(toks).ops.last());
                },
                _ => {},
            }
        },
        RuleFunc::String => {
            if st.before(toks).kind == TokenKind::String {
                lemma_emit(st, st.string(toks).ops.last());
            }
        },
        RuleFunc::Variable => lemma_named_variable(toks, st, can_assign),
        RuleFunc::Unary => lemma_unary(toks, st),
        RuleFunc::Binary => lemma_binary(toks, st),
        RuleFunc::Grouping => lemma_grouping(toks, st),
        RuleFunc::And => lemma_and(toks, st),
        RuleFunc::Or => lemma_or(toks, st),
    }
}

pub proof fn lemma_expression(toks: Seq<Token>, st: Compiler)
    ensures
        kept(st, st.expression(toks)),
        extends_ops(st.ops, st.expression(toks).ops),
    decreases st.remaining(toks), 2nat,
{
    lemma_parse_precedence(toks, st, Precedence::Assignment);
}

pub proof fn lemma_named_variable(toks: Seq<Token>, st: Compiler, can_assign: bool)
    ensures
        kept(st, st.named_variable(toks, can_assign)),
        extends_ops(st.ops, st.named_variable(toks, can_assign).ops),
    decreases st.remaining(toks), 3nat,
{
    if can_assign && st.cur(toks).kind == TokenKind::Equal {
        let value = st.advance(toks).expression(toks);
        lemma_expression(toks, st.advance(toks));
        lemma_emit(value, st.named_variable(toks, can_assign).ops.last());
        lemma_extends_trans(st.ops, value.ops, st.named_variable(toks, can_assign).ops);
    } else {
        lemma_emit(st, st.named_variable(toks, can_assign).ops.last());
    }
}

pub proof fn lemma_unary(toks: Seq<Token>, st: Compiler)
    ensures
        kept(st, st.unary(toks)),
        extends_ops(st.ops, st.unary(toks).ops),
    decreases st.remaining(toks), 3nat,
{
    lemma_parse_precedence(toks, st, Precedence::Unary);
    let operand = st.parse_precedence(toks, Precedence::Unary);
    lemma_emit(operand, OpView::Negate);
    lemma_emit(operand, OpView::Not);
    lemma_extends_trans(st.ops, operand.ops, operand.emit(OpView::Negate).ops);
    lemma_extends_trans(st.ops, operand.ops, operand.emit(OpView::Not).ops);
}

pub proof fn lemma_grouping(toks: Seq<Token>, st: Compiler)
    ensures
        kept(st, st.grouping(toks)),
        extends_ops(st.ops, st.grouping(toks).ops),
    decreases st.remaining(toks), 3nat,
{
    lemma_expression(toks, st);
}

pub proof fn lemma_binary(toks: Seq<Token>, st: Compiler)
    ensures
        kept(st, st.binary(toks)),
        extends_ops(st.ops, st.binary(toks).ops),
    decreases st.remaining(toks), 3nat,
{
    let operator = st.before(toks).kind;
    let p = rule_of(operator).precedence.next();
    lemma_parse_precedence(toks, st, p);
    let right = st.parse_precedence(toks, p);
    lemma_emit_operator(right, operator);
    lemma_extends_trans(st.ops, right.ops, right.emit_operator(operator).ops);
}

pub proof fn lemma_and(toks: Seq<Token>, st: Compiler)
    ensures
        kept(st, st.and(toks)),
        st.and(toks).ops.len() >= st.ops.len() + 2,
        extends_ops(st.ops, st.and(toks).ops),
    decreases st.remaining(toks), 3nat,
{
    let jump = st.ops.len();
    let a = st.emit(OpView::JumpIfFalse(0));
    let b = a.emit(OpView::Pop);
    lemma_emit(st, OpView::JumpIfFalse(0));
    lemma_emit(a, OpView::Pop);
    lemma_parse_precedence(toks, b, Precedence::And);
    let right = b.parse_precedence(toks, Precedence::And);
    lemma_patch(right, jump, OpView::JumpIfFalse((right.ops.len() - 1 - jump) as nat));
    let r = st.and(toks);
    assert forall|i: int| 0 <= i < st.ops.len() implies #[trigger] r.ops[i] == st.ops[i] by {
        assert(right.ops[i] == b.ops[i]);
    }
    assert forall|i: int| st.ops.len() <= i < r.ops.len() implies #[trigger] settled(r.ops, i) by {
        if i == jump + 1 {
            assert(right.ops[i] == b.ops[i]);
        } else if i > jump + 1 {
            assert(settled(right.ops, i));
        }
    }
}

pub proof fn lemma_or(toks: Seq<Token>, st: Compiler)
    ensures
        kept(st, st.or(toks)),
        st.or(toks).ops.len() >= st.ops.len() + 2,
        extends_ops(st.ops, st.or(toks).ops),
    decreases st.remaining(toks), 3nat,
{
    let jump = st.ops.len();
    let a = st.emit(OpView::JumpIfTrue(0));
    let b = a.emit(OpView::Pop);
    lemma_emit(st, OpView::JumpIfTrue(0));
    lemma_emit(a, OpView::Pop);
    lemma_parse_precedence(toks, b, Precedence::And);
    let right = b.parse_precedence(toks, Precedence::And);
    lemma_patch(right, jump, OpView::JumpIfTrue((right.ops.len() - 1 - jump) as nat));
    let r = st.or(toks);
    assert forall|i: int| 0 <= i < st.ops.len() implies #[trigger] r.ops[i] == st.ops[i] by {
        assert(right.ops[i] == b.ops[i]);
    }
    assert forall|i: int| st.ops.len() <= i < r.ops.len() implies #[trigger] settled(r.ops, i) by {
        if i == jump + 1 {
            assert(right.ops[i] == b.ops[i]);
        } else if i > jump + 1 {
            assert(settled(right.ops, i));
        }
    }
}

pub proof fn lemma_expression_statement(toks: Seq<Token>, st: Compiler)
    ensures
        kept(st, st.expression_statement(toks)),
        extends_ops(st.ops, st.expression_statement(toks).ops),
    decreases st.remaining(toks), 6nat,
{
    lemma_expression(toks, st);
    let value = st.expression(toks).consume(toks, TokenKind::Semicolon);
    lemma_emit(value, OpView::Pop);
    lemma_extends_trans(st.ops, value.ops, value.emit(OpView::Pop).ops);
}

pub proof fn lemma_print_statement(toks: Seq<Token>, st: Compiler)
    ensures
        kept(st, st.print_statement(toks)),
        extends_ops(st.ops, st.print_statement(toks).ops),
    decreases st.remaining(toks), 10nat,
{
    lemma_expression(toks, st);
    let value = st.expression(toks).consume(toks, TokenKind::Semicolon);
    lemma_emit(value, OpView::Print);
    lemma_extends_trans(st.ops, value.ops, value.emit(OpView::Print).ops);
}

pub proof fn lemma_var_declaration(toks: Seq<Token>, st: Compiler)
    ensures
        declared(
            st,
            st.var_declaration(toks),
            if st.depth > 0 && st.cur(toks).kind == TokenKind::Identifier {
                1
            } else {
                0
            },
        ),
        extends_ops(st.ops, st.var_declaration(toks).ops),
    decreases st.remaining(toks), 10nat,
{
    let r = st.var_declaration(toks);
    if st.cur(toks).kind == TokenKind::Identifier {
        let name = st.cur(toks).text;
        let a = st.advance(toks).consume(toks, TokenKind::Equal);
        lemma_expression(toks, a);
        let value = a.expression(toks).consume(toks, TokenKind::Semicolon);
        if value.depth > 0 {
            if sound(st) {
                assert(r.locals.take(st.locals.len() as int) =~= st.locals);
                assert forall|i: int| 0 <= i < r.locals.len() implies (#[trigger] r.locals[i]).depth
                    <= r.depth by {
                    if i < st.locals.len() {
                        assert(st.locals[i].depth <= st.depth);
                    }
                }
            }
        } else {
            lemma_emit(value, OpView::DefineGlobal(name));
            lemma_extends_trans(st.ops, value.ops, r.ops);
            if sound(st) {
                assert(r.locals.take(st.locals.len() as int) =~= st.locals);
            }
        }
    } else {
        if sound(st) {
            assert(r.locals.take(st.locals.len() as int) =~= st.locals);
        }
    }
}

pub proof fn lemma_declaration(toks: Seq<Token>, st: Compiler)
    ensures
        declared(
            st,
            st.declaration(toks),
            if st.declares(toks) {
                1
            } else {
                0
            },
        ),
        st.cur(toks).kind != TokenKind::Eof ==> st.declaration(toks).current > st.current,
        extends_ops(st.ops, st.declaration(toks).ops),
    decreases st.remaining(toks), 8nat,
{
    if st.cur(toks).kind == TokenKind::Var {
        lemma_var_declaration(toks, st.advance(toks));
    } else {
        lemma_statement(toks, st);
        if sound(st) {
            assert(st.declaration(toks).locals.take(st.locals.len() as int) =~= st.locals);
        }
    }
}

pub proof fn lemma_statement(toks: Seq<Token>, st: Compiler)
    ensures
        kept(st, st.statement(toks)),
        st.cur(toks).kind != TokenKind::Eof ==> st.statement(toks).current > st.current,
        extends_ops(st.ops, st.statement(toks).ops),
    decreases st.remaining(toks), 7nat,
{
    match st.cur(toks).kind {
        TokenKind::Print => {
            lemma_print_statement(toks, st.advance(toks));
        },
        TokenKind::LeftBrace => {
            lemma_block_statement(toks, st);
        },
        TokenKind::If => {
            lemma_if_statement(toks, st.advance(toks));
        },
        _ => {
            lemma_expression_statement(toks, st);
            lemma_parse_precedence_moves(toks, st, Precedence::Assignment);
        },
    }
}

/// An expression consumes its first token, unless that is `Eof`.
pub proof fn lemma_parse_precedence_moves(toks: Seq<Token>, st: Compiler, p: Precedence)
    ensures
        st.cur(toks).kind != TokenKind::Eof ==> st.parse_precedence(toks, p).current > st.current,
{
    let a = st.advance(toks);
    match rule_of(a.before(toks).kind).prefix {
        None => {},
        Some(f) => {
            let can_assign = p.level() <= Precedence::Assignment.level();
            lemma_apply(toks, a, f, can_assign);
            let b = a.apply(toks, f, can_assign);
            lemma_infix_loop(toks, b, p, can_assign);
        },
    }
}

/// A block statement: what it leaves, and that it pops what it declared.
pub proof fn lemma_block_statement(toks: Seq<Token>, st: Compiler)
    requires
        st.cur(toks).kind == TokenKind::LeftBrace,
    ensures
        kept(st, st.statement(toks)),
        st.statement(toks).current > st.current,
        sound(st) ==> {
            let inner = st.advance(toks).begin_scope();
            let body = inner.block(toks);
            &&& body.locals.len() == st.locals.len() + inner.block_vars(toks)
            &&& st.statement(toks).ops == body.ops + pops(inner.block_vars(toks))
        },
        extends_ops(st.ops, st.statement(toks).ops),
    decreases st.remaining(toks), 6nat,
{
    let inner = st.advance(toks).begin_scope();
    lemma_block(toks, inner);
    let body = inner.block(toks);
    let closing = Compiler { depth: (body.depth - 1) as nat, ..body };
    lemma_unwind_forward(closing);
    lemma_extends_trans(st.ops, body.ops, closing.unwind().ops);
    if sound(st) {
        assert(scoped(inner)) by {
            assert forall|i: int| 0 <= i < inner.locals.len() implies (#[trigger] inner.locals[i]).depth
                <= inner.depth by {
                assert(st.locals[i].depth <= st.depth);
            }
        }
        let base = st.locals.len();
        assert forall|i: int| 0 <= i < base implies (#[trigger] closing.locals[i]).depth
            <= closing.depth by {
            assert(body.locals.take(base as int)[i] == st.locals[i]);
            assert(st.locals[i].depth <= st.depth);
        }
        lemma_unwind(closing, base);
        assert(body.locals.take(base as int) =~= st.locals);
        let out = st.statement(toks);
        assert(scoped(out)) by {
            assert forall|i: int| 0 <= i < out.locals.len() implies (#[trigger] out.locals[i]).depth
                <= out.depth by {
                assert(st.locals[i].depth <= st.depth);
            }
        }
    }
}

pub proof fn lemma_block(toks: Seq<Token>, st: Compiler)
    ensures
        declared(st, st.block(toks), st.block_vars(toks)),
        st.block(toks).current >= st.current,
        extends_ops(st.ops, st.block(toks).ops),
    decreases st.remaining(toks), 10nat,
{
    let r = st.block(toks);
    if st.cur(toks).kind == TokenKind::RightBrace || st.cur(toks).kind == TokenKind::Eof {
        if sound(st) {
            assert(r.locals.take(st.locals.len() as int) =~= st.locals);
        }
    } else {
        lemma_declaration(toks, st);
        let body = st.declaration(toks);
        if body.current > st.current {
            lemma_block(toks, body);
            lemma_extends_trans(st.ops, body.ops, r.ops);
            if sound(st) {
                let n = st.locals.len() as int;
                assert(r.locals.take(n) =~= body.locals.take(n)) by {
                    assert(r.locals.take(body.locals.len() as int) == body.locals);
                    assert forall|i: int| 0 <= i < n implies r.locals.take(n)[i]
                        == body.locals.take(n)[i] by {
                        assert(r.locals.take(body.locals.len() as int)[i] == body.locals[i]);
                    }
                }
                assert forall|i: int| st.locals.len() <= i < r.locals.len() implies (
                #[trigger] r.locals[i]).depth == st.depth by {
                    if i < body.locals.len() {
                        assert(r.locals.take(body.locals.len() as int)[i] == body.locals[i]);
                    }
                }
            }
        }
    }
}

pub proof fn lemma_if_statement(toks: Seq<Token>, st: Compiler)
    ensures
        kept(st, st.if_statement(toks)),
        extends_ops(st.ops, st.if_statement(toks).ops),
    decreases st.remaining(toks), 10nat,
{
    let open = st.consume(toks, TokenKind::LeftParen);
    lemma_expression(toks, open);
    let condition = open.expression(toks);
    if condition.current >= open.current {
        let closed = condition.consume(toks, TokenKind::RightParen);
        let then_jump = closed.ops.len();
        let a = closed.emit(OpView::JumpIfFalse(0));
        lemma_emit(closed, OpView::JumpIfFalse(0));
        let then_start = a.emit(OpView::Pop);
        lemma_emit(a, OpView::Pop);
        lemma_statement(toks, then_start);
        let then_end = then_start.statement(toks);
        if then_end.current >= then_start.current {
            let else_jump = then_end.ops.len();
            let b = then_end.emit(OpView::Jump(0));
            lemma_emit(then_end, OpView::Jump(0));
            let c = b.emit(OpView::Pop);
            lemma_emit(b, OpView::Pop);
            let else_start = c.patch(
                then_jump,
                OpView::JumpIfFalse((else_jump - then_jump) as nat),
            );
            lemma_patch(c, then_jump, OpView::JumpIfFalse((else_jump - then_jump) as nat));
            let else_end = if else_start.cur(toks).kind == TokenKind::Else {
                else_start.advance(toks).statement(toks)
            } else {
                else_start
            };
            if else_start.cur(toks).kind == TokenKind::Else {
                lemma_statement(toks, else_start.advance(toks));
            }
            lemma_patch(
                else_end,
                else_jump,
                OpView::Jump((else_end.ops.len() - 1 - else_jump) as nat),
            );
            let r = st.if_statement(toks);
            assert(extends_ops(else_start.ops, else_end.ops));
            assert forall|i: int| 0 <= i < st.ops.len() implies #[trigger] r.ops[i]
                == st.ops[i] by {
                assert(else_end.ops[i] == else_start.ops[i]);
                assert(then_end.ops[i] == then_start.ops[i]);
                assert(closed.ops[i] == st.ops[i]);
            }
            assert forall|i: int| st.ops.len() <= i < r.ops.len() implies #[trigger] settled(
                r.ops,
                i,
            ) by {
                if i < else_start.ops.len() {
                    assert(else_end.ops[i] == else_start.ops[i]);
                    if i < then_start.ops.len() {
                        assert(then_end.ops[i] == then_start.ops[i]);
                        if i < then_jump {
                            assert(settled(closed.ops, i));
                        }
                    } else if i < else_jump {
                        assert(settled(then_end.ops, i));
                    }
                } else {
                    assert(settled(else_end.ops, i));
                }
            }
        }
    }
}

pub proof fn lemma_compile_loop(toks: Seq<Token>, st: Compiler)
    requires
        st.depth == 0,
    ensures
        kept(st, st.compile_loop(toks)),
        st.compile_loop(toks).cur(toks).kind == TokenKind::Eof,
        extends_ops(st.ops, st.compile_loop(toks).ops),
    decreases st.remaining(toks), 9nat,
{
    if st.cur(toks).kind != TokenKind::Eof {
        lemma_declaration(toks, st);
        let next = st.declaration(toks);
        if sound(st) {
            assert(next.locals =~= next.locals.take(st.locals.len() as int));
        }
        lemma_compile_loop(toks, next);
        lemma_extends_trans(st.ops, next.ops, next.compile_loop(toks).ops);
    }
}

/// A block pops what it declared. For a sound state at `{`: the statement
/// leaves the locals as it found them, and the instructions it emits after
/// the body of the block are one `Pop` for each `var` declaration that
/// stands directly in the block, which is also the number of locals that the
/// body has added.
pub proof fn law_block_pops_its_locals(toks: Seq<Token>, st: Compiler)
    requires
        sound(st),
        st.cur(toks).kind == TokenKind::LeftBrace,
    ensures
        ({
            let inner = st.advance(toks).begin_scope();
            let body = inner.block(toks);
            let out = st.statement(toks);
            &&& out == body.end_scope()
            &&& body.locals.len() == st.locals.len() + inner.block_vars(toks)
            &&& out.ops == body.ops + pops(inner.block_vars(toks))
            &&& out.locals == st.locals
            &&& out.depth == st.depth
        }),
{
    lemma_block_statement(toks, st);
}

/// In the instructions of a compiled program every jump has had its offset
/// filled in and lands inside the code or just past its end. At the end of
/// a compilation the cursor stands on `Eof`, no block is open and no local
/// is left.
pub proof fn law_compiled_program(toks: Seq<Token>)
    ensures
        jumps_land(compile(toks).ops),
        forall|i: int| 0 <= i < compile(toks).ops.len() ==> #[trigger] settled(compile(toks).ops, i),
        compile(toks).cur(toks).kind == TokenKind::Eof,
        compile(toks).depth == 0,
        compile(toks).locals == Seq::<LocalView>::empty(),
{
    let start = Compiler::start();
    assert(sound(start));
    lemma_compile_loop(toks, start);
}

/// No rule moves the cursor back, removes an instruction or changes the
/// depth, and a declaration consumes at least one token unless it stands at
/// `Eof`.
pub proof fn law_declaration_moves_on(toks: Seq<Token>, st: Compiler)
    ensures
        forward(st, st.declaration(toks)),
        st.cur(toks).kind != TokenKind::Eof ==> st.declaration(toks).current > st.current,
{
    lemma_declaration(toks, st);
}

} // verus!
