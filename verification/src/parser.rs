use vstd::prelude::*;
use crate::ast::{Span, Type, BinOp, UnaryOp, Expr, Stmt, Constant, Field, StructDef, Param, Function, Program, view_exprs, view_stmts, lemma_view_exprs_push, lemma_view_stmts_push};
use crate::grammar::{PCtx, PRes, tok, is_tok, cur_span, idx_span, location, line_col, error_text, expect, expr_list, call_args, struct_literal, p_primary, name_expr, array_literal, input_expr, conversion_call, postfix_rest, p_postfix, p_unary, Level, level_op, level_rest, p_level, p_operand, p_ternary, p_expr, p_type, array_suffix, block_rest, p_block, p_stmt, p_if, p_while, p_for, p_return, p_io_print, let_value, p_let, p_assign_or_call, p_import, p_constant, fields_rest, p_struct_def, params_rest, function_head, p_function, program_item, program_rest, p_program};
use crate::token::{Token, TokenV, opt_token_debug};
use crate::text::{string_chars, push_usize, string_push};

verus! {

/// The parse context of a token list and its source text.
pub open spec fn ctx_of(tokens: Seq<(Token, core::ops::Range<usize>)>, src: Seq<char>) -> PCtx {
    PCtx {
        toks: tokens.map_values(|t: (Token, core::ops::Range<usize>)| (t.0@, Span { start: t.1.start, end: t.1.end })),
        src,
    }
}

/// A parse outcome matches the grammar's: the same value and position on
/// success; on failure, the rendered message, with the parser left at the
/// token the message names.
pub open spec fn outcome<T: View>(c: PCtx, r: Result<T, String>, s: PRes<T::V>, end: int) -> bool {
    match s {
        Ok((v, q)) => r matches Ok(x) && x@ == v && end == q,
        Err((p, m)) => r matches Err(e) && e@ == error_text(c, p, m) && end == p,
    }
}

pub open spec fn exprs_outcome(c: PCtx, r: Result<Vec<Expr>, String>, s: PRes<Seq<crate::ast::ExprV>>, end: int) -> bool {
    match s {
        Ok((v, q)) => r matches Ok(x) && view_exprs(x@) == v && end == q,
        Err((p, m)) => r matches Err(e) && e@ == error_text(c, p, m) && end == p,
    }
}

pub open spec fn stmts_outcome(c: PCtx, r: Result<Vec<Stmt>, String>, s: PRes<Seq<crate::ast::StmtV>>, end: int) -> bool {
    match s {
        Ok((v, q)) => r matches Ok(x) && view_stmts(x@) == v && end == q,
        Err((p, m)) => r matches Err(e) && e@ == error_text(c, p, m) && end == p,
    }
}

pub open spec fn unit_outcome(c: PCtx, r: Result<(), String>, s: Result<int, (int, Seq<char>)>, end: int) -> bool {
    match s {
        Ok(q) => r is Ok && end == q,
        Err((p, m)) => r matches Err(e) && e@ == error_text(c, p, m) && end == p,
    }
}

/// A recursive-descent parser over a token list.
pub struct Parser {
    tokens: Vec<(Token, core::ops::Range<usize>)>,
    pos: usize,
    source: String,
}

impl Parser {
    #[verifier::type_invariant]
    spec fn inv(&self) -> bool {
        &&& self.pos <= self.tokens.len()
        &&& self.source@.len() < usize::MAX
    }

    /// The tokens and source text being parsed.
    pub closed spec fn ctx(&self) -> PCtx {
        ctx_of(self.tokens@, self.source@)
    }

    /// The index of the next token.
    pub closed spec fn position(&self) -> int {
        self.pos as int
    }

    /// A parser at the first token. The source text serves the line and
    /// column numbers of error messages.
    pub fn new(tokens: Vec<(Token, core::ops::Range<usize>)>, source: String) -> (p: Self)
        requires
            source@.len() < usize::MAX,
        ensures
            p.ctx() == ctx_of(tokens@, source@),
            p.position() == 0,
    {
        Self { tokens, pos: 0, source }
    }

    proof fn lemma_ctx(&self)
        ensures
            self.ctx().toks.len() == self.tokens.len(),
            forall|i: int| 0 <= i < self.tokens.len() ==> #[trigger] self.ctx().toks[i] == (
                self.tokens@[i].0@,
                Span { start: self.tokens@[i].1.start, end: self.tokens@[i].1.end },
            ),
            self.ctx().src == self.source@,
    {
    }

    fn peek(&self) -> (r: Option<&Token>)
        ensures
            match r {
                Some(t) => tok(self.ctx(), self.pos as int) == Some(t@),
                None => tok(self.ctx(), self.pos as int) is None,
            },
    {
        proof { self.lemma_ctx(); }
        if self.pos < self.tokens.len() {
            Some(&self.tokens[self.pos].0)
        } else {
            None
        }
    }

    /// Whether the next token is `t`.
    fn at(&self, t: &Token) -> (b: bool)
        ensures
            b == is_tok(self.ctx(), self.pos as int, t@),
    {
        match self.peek() {
            Some(x) => x.same(t),
            None => false,
        }
    }

    fn advance(&mut self)
        requires
            old(self).pos < old(self).tokens.len(),
        ensures
            final(self).ctx() == old(self).ctx(),
            final(self).pos == old(self).pos + 1,
    {
        proof { use_type_invariant(&*self); }
        self.pos = self.pos + 1;
    }

    fn current_span(&self) -> (s: Span)
        ensures
            s == cur_span(self.ctx(), self.pos as int),
    {
        proof { self.lemma_ctx(); }
        if self.pos >= self.tokens.len() {
            return Span::new(0, 0);
        }
        let range = &self.tokens[self.pos].1;
        Span::new(range.start, range.end)
    }

    fn span_from(&self, start: usize, end: usize) -> (s: Span)
        ensures
            s == idx_span(start as int, end as int),
    {
        Span::new(start, end)
    }

    /// Line and column where the token at `pos` starts.
    fn location(&self, pos: usize) -> (r: (usize, usize))
        ensures
            r.0 == location(self.ctx(), pos as int).0,
            r.1 == location(self.ctx(), pos as int).1,
    {
        proof {
            self.lemma_ctx();
            use_type_invariant(self);
        }
        if pos >= self.tokens.len() {
            return (0, 0);
        }
        let start = self.tokens[pos].1.start;
        let (cs, _) = string_chars(self.source.as_str());
        let mut line: usize = 1;
        let mut col: usize = 1;
        let mut i: usize = 0;
        while i < cs.len() && i != start
            invariant
                cs@ == self.source@,
                cs.len() < usize::MAX,
                i <= cs.len(),
                i <= start,
                line_col(cs@, i as int) == (line as nat, col as nat),
                line <= i + 1,
                col <= i + 1,
            decreases cs.len() - i,
        {
            if cs[i] == '\n' {
                line = line + 1;
                col = 1;
            } else {
                col = col + 1;
            }
            i = i + 1;
        }
        (line, col)
    }

    fn format_error(&self, pos: usize, msg: &str) -> (s: String)
        ensures
            s@ == error_text(self.ctx(), pos as int, msg@),
    {
        let (line, col) = self.location(pos);
        proof { reveal(error_text); }
        let mut s = String::from_str("Error at ");
        push_usize(&mut s, line);
        string_push(&mut s, ':');
        push_usize(&mut s, col);
        s.append(": ");
        s.append(msg);
        s
    }

    fn expect(&mut self, expected: Token) -> (r: Result<(), String>)
        ensures
            final(self).ctx() == old(self).ctx(),
            unit_outcome(old(self).ctx(), r, expect(old(self).ctx(), old(self).pos as int, expected@), final(self).pos as int),
            r is Err ==> final(self).pos == old(self).pos,
    {
        proof { use_type_invariant(&*self); }
        if self.at(&expected) {
            self.advance();
            Ok(())
        } else {
            let got = opt_token_debug(self.peek());
            let mut msg = String::from_str("Syntax error: expected ");
            let want = expected.debug_text();
            msg.append(want.as_str());
            msg.append(", got ");
            msg.append(got.as_str());
            Err(self.format_error(self.pos, msg.as_str()))
        }
    }

    /// An expression.
    fn parse_expr(&mut self) -> (r: Result<Expr, String>)
        ensures
            final(self).ctx() == old(self).ctx(),
            outcome(old(self).ctx(), r, p_expr(old(self).ctx(), old(self).pos as int), final(self).pos as int),
            r is Ok ==> old(self).pos < final(self).pos,
        decreases old(self).tokens.len() - old(self).pos, 15int,
    {
        self.parse_ternary()
    }

    fn parse_ternary(&mut self) -> (r: Result<Expr, String>)
        ensures
            final(self).ctx() == old(self).ctx(),
            outcome(old(self).ctx(), r, p_ternary(old(self).ctx(), old(self).pos as int), final(self).pos as int),
            r is Ok ==> old(self).pos < final(self).pos,
        decreases old(self).tokens.len() - old(self).pos, 14int,
    {
        proof { use_type_invariant(&*self); }
        let ghost c = self.ctx();
        let ghost p0 = self.pos as int;
        let cond = self.parse_or()?;
        proof { use_type_invariant(&*self); }
        if self.at(&Token::Question) {
            self.advance();
            let then_expr = self.parse_expr()?;
            self.expect(Token::Colon)?;
            proof { use_type_invariant(&*self); }
            let else_expr = self.parse_ternary()?;
            let span = cond.span().merge(&else_expr.span());
            Ok(Expr::Ternary {
                condition: Box::new(cond),
                then_expr: Box::new(then_expr),
                else_expr: Box::new(else_expr),
                span,
            })
        } else {
            Ok(cond)
        }
    }

    fn parse_or(&mut self) -> (r: Result<Expr, String>)
        ensures
            final(self).ctx() == old(self).ctx(),
            outcome(old(self).ctx(), r, p_level(old(self).ctx(), old(self).pos as int, Level::Or), final(self).pos as int),
            r is Ok ==> old(self).pos < final(self).pos,
        decreases old(self).tokens.len() - old(self).pos, 13int,
    {
        proof { use_type_invariant(&*self); }
        let ghost c = self.ctx();
        let ghost p0 = self.pos as int;
        proof { assert(p_operand(c, p0, Level::Or) == p_level(c, p0, Level::And)); }
        let mut left = self.parse_and()?;
        proof { use_type_invariant(&*self); }
        loop
            invariant
                self.ctx() == c,
                c == old(self).ctx(),
                p0 == old(self).pos,
                old(self).tokens.len() == self.tokens.len(),
                p0 < self.pos <= self.tokens.len(),
                self.tokens.len() == c.toks.len(),
                p_level(c, p0, Level::Or) == level_rest(c, self.pos as int, Level::Or, left@),
            ensures
                self.ctx() == c,
                p0 < self.pos <= self.tokens.len(),
                p_level(c, p0, Level::Or) == level_rest(c, self.pos as int, Level::Or, left@),
                level_op(Level::Or, tok(c, self.pos as int)) is None,
            decreases self.tokens.len() - self.pos,
        {
            let op = match self.peek() {
                Some(Token::Or) => BinOp::Or,
                _ => {
                    break;
                },
            };
            let ghost q0 = self.pos as int;
            let ghost l0 = left@;
            proof {
                assert(level_op(Level::Or, tok(c, q0)) == Some(op));
                assert(p_operand(c, q0 + 1, Level::Or) == p_level(c, q0 + 1, Level::And));
            }
            self.advance();
            let right = self.parse_and()?;
            proof { use_type_invariant(&*self); }
            let span = left.span().merge(&right.span());
            left = Expr::Binary { left: Box::new(left), op, right: Box::new(right), span };
            proof {
                assert(left@ == crate::grammar::binary(l0, op, right@));
                assert(level_rest(c, q0, Level::Or, l0) == level_rest(c, self.pos as int, Level::Or, left@));
            }
        }
        Ok(left)
    }

    fn parse_and(&mut self) -> (r: Result<Expr, String>)
        ensures
            final(self).ctx() == old(self).ctx(),
            outcome(old(self).ctx(), r, p_level(old(self).ctx(), old(self).pos as int, Level::And), final(self).pos as int),
            r is Ok ==> old(self).pos < final(self).pos,
        decreases old(self).tokens.len() - old(self).pos, 11int,
    {
        proof { use_type_invariant(&*self); }
        let ghost c = self.ctx();
        let ghost p0 = self.pos as int;
        proof { assert(p_operand(c, p0, Level::And) == p_level(c, p0, Level::Cmp)); }
        let mut left = self.parse_comparison()?;
        proof { use_type_invariant(&*self); }
        loop
            invariant
                self.ctx() == c,
                c == old(self).ctx(),
                p0 == old(self).pos,
                old(self).tokens.len() == self.tokens.len(),
                p0 < self.pos <= self.tokens.len(),
                self.tokens.len() == c.toks.len(),
                p_level(c, p0, Level::And) == level_rest(c, self.pos as int, Level::And, left@),
            ensures
                self.ctx() == c,
                p0 < self.pos <= self.tokens.len(),
                p_level(c, p0, Level::And) == level_rest(c, self.pos as int, Level::And, left@),
                level_op(Level::And, tok(c, self.pos as int)) is None,
            decreases self.tokens.len() - self.pos,
        {
            let op = match self.peek() {
                Some(Token::And) => BinOp::And,
                _ => {
                    break;
                },
            };
            let ghost q0 = self.pos as int;
            let ghost l0 = left@;
            proof {
                assert(level_op(Level::And, tok(c, q0)) == Some(op));
                assert(p_operand(c, q0 + 1, Level::And) == p_level(c, q0 + 1, Level::Cmp));
            }
            self.advance();
            let right = self.parse_comparison()?;
            proof { use_type_invariant(&*self); }
            let span = left.span().merge(&right.span());
            left = Expr::Binary { left: Box::new(left), op, right: Box::new(right), span };
            proof {
                assert(left@ == crate::grammar::binary(l0, op, right@));
                assert(level_rest(c, q0, Level::And, l0) == level_rest(c, self.pos as int, Level::And, left@));
            }
        }
        Ok(left)
    }

    fn parse_comparison(&mut self) -> (r: Result<Expr, String>)
        ensures
            final(self).ctx() == old(self).ctx(),
            outcome(old(self).ctx(), r, p_level(old(self).ctx(), old(self).pos as int, Level::Cmp), final(self).pos as int),
            r is Ok ==> old(self).pos < final(self).pos,
        decreases old(self).tokens.len() - old(self).pos, 9int,
    {
        proof { use_type_invariant(&*self); }
        let ghost c = self.ctx();
        let ghost p0 = self.pos as int;
        proof { assert(p_operand(c, p0, Level::Cmp) == p_level(c, p0, Level::Add)); }
        let mut left = self.parse_addition()?;
        proof { use_type_invariant(&*self); }
        loop
            invariant
                self.ctx() == c,
                c == old(self).ctx(),
                p0 == old(self).pos,
                old(self).tokens.len() == self.tokens.len(),
                p0 < self.pos <= self.tokens.len(),
                self.tokens.len() == c.toks.len(),
                p_level(c, p0, Level::Cmp) == level_rest(c, self.pos as int, Level::Cmp, left@),
            ensures
                self.ctx() == c,
                p0 < self.pos <= self.tokens.len(),
                p_level(c, p0, Level::Cmp) == level_rest(c, self.pos as int, Level::Cmp, left@),
                level_op(Level::Cmp, tok(c, self.pos as int)) is None,
            decreases self.tokens.len() - self.pos,
        {
            let op = match self.peek() {
                Some(Token::EqualEqual) => BinOp::Eq,
                Some(Token::NotEqual) => BinOp::NotEq,
                Some(Token::Less) => BinOp::Less,
                Some(Token::Greater) => BinOp::Greater,
                Some(Token::LessEqual) => BinOp::LessEq,
                Some(Token::GreaterEqual) => BinOp::GreaterEq,
                _ => {
                    break;
                },
            };
            let ghost q0 = self.pos as int;
            let ghost l0 = left@;
            proof {
                assert(level_op(Level::Cmp, tok(c, q0)) == Some(op));
                assert(p_operand(c, q0 + 1, Level::Cmp) == p_level(c, q0 + 1, Level::Add));
            }
            self.advance();
            let right = self.parse_addition()?;
            proof { use_type_invariant(&*self); }
            let span = left.span().merge(&right.span());
            left = Expr::Binary { left: Box::new(left), op, right: Box::new(right), span };
            proof {
                assert(left@ == crate::grammar::binary(l0, op, right@));
                assert(level_rest(c, q0, Level::Cmp, l0) == level_rest(c, self.pos as int, Level::Cmp, left@));
            }
        }
        Ok(left)
    }

    fn parse_addition(&mut self) -> (r: Result<Expr, String>)
        ensures
            final(self).ctx() == old(self).ctx(),
            outcome(old(self).ctx(), r, p_level(old(self).ctx(), old(self).pos as int, Level::Add), final(self).pos as int),
            r is Ok ==> old(self).pos < final(self).pos,
        decreases old(self).tokens.len() - old(self).pos, 7int,
    {
        proof { use_type_invariant(&*self); }
        let ghost c = self.ctx();
        let ghost p0 = self.pos as int;
        proof { assert(p_operand(c, p0, Level::Add) == p_level(c, p0, Level::Mul)); }
        let mut left = self.parse_multiplication()?;
        proof { use_type_invariant(&*self); }
        loop
            invariant
                self.ctx() == c,
                c == old(self).ctx(),
                p0 == old(self).pos,
                old(self).tokens.len() == self.tokens.len(),
                p0 < self.pos <= self.tokens.len(),
                self.tokens.len() == c.toks.len(),
                p_level(c, p0, Level::Add) == level_rest(c, self.pos as int, Level::Add, left@),
            ensures
                self.ctx() == c,
                p0 < self.pos <= self.tokens.len(),
                p_level(c, p0, Level::Add) == level_rest(c, self.pos as int, Level::Add, left@),
                level_op(Level::Add, tok(c, self.pos as int)) is None,
            decreases self.tokens.len() - self.pos,
        {
            let op = match self.peek() {
                Some(Token::Plus) => BinOp::Add,
                Some(Token::Minus) => BinOp::Sub,
                _ => {
                    break;
                },
            };
            let ghost q0 = self.pos as int;
            let ghost l0 = left@;
            proof {
                assert(level_op(Level::Add, tok(c, q0)) == Some(op));
                assert(p_operand(c, q0 + 1, Level::Add) == p_level(c, q0 + 1, Level::Mul));
            }
            self.advance();
            let right = self.parse_multiplication()?;
            proof { use_type_invariant(&*self); }
            let span = left.span().merge(&right.span());
            left = Expr::Binary { left: Box::new(left), op, right: Box::new(right), span };
            proof {
                assert(left@ == crate::grammar::binary(l0, op, right@));
                assert(level_rest(c, q0, Level::Add, l0) == level_rest(c, self.pos as int, Level::Add, left@));
            }
        }
        Ok(left)
    }

    fn parse_multiplication(&mut self) -> (r: Result<Expr, String>)
        ensures
            final(self).ctx() == old(self).ctx(),
            outcome(old(self).ctx(), r, p_level(old(self).ctx(), old(self).pos as int, Level::Mul), final(self).pos as int),
            r is Ok ==> old(self).pos < final(self).pos,
        decreases old(self).tokens.len() - old(self).pos, 5int,
    {
        proof { use_type_invariant(&*self); }
        let ghost c = self.ctx();
        let ghost p0 = self.pos as int;
        proof { assert(p_operand(c, p0, Level::Mul) == p_unary(c, p0)); }
        let mut left = self.parse_unary()?;
        proof { use_type_invariant(&*self); }
        loop
            invariant
                self.ctx() == c,
                c == old(self).ctx(),
                p0 == old(self).pos,
                old(self).tokens.len() == self.tokens.len(),
                p0 < self.pos <= self.tokens.len(),
                self.tokens.len() == c.toks.len(),
                p_level(c, p0, Level::Mul) == level_rest(c, self.pos as int, Level::Mul, left@),
            ensures
                self.ctx() == c,
                p0 < self.pos <= self.tokens.len(),
                p_level(c, p0, Level::Mul) == level_rest(c, self.pos as int, Level::Mul, left@),
                level_op(Level::Mul, tok(c, self.pos as int)) is None,
            decreases self.tokens.len() - self.pos,
        {
            let op = match self.peek() {
                Some(Token::Star) => BinOp::Mul,
                Some(Token::Slash) => BinOp::Div,
                _ => {
                    break;
                },
            };
            let ghost q0 = self.pos as int;
            let ghost l0 = left@;
            proof {
                assert(level_op(Level::Mul, tok(c, q0)) == Some(op));
                assert(p_operand(c, q0 + 1, Level::Mul) == p_unary(c, q0 + 1));
            }
            self.advance();
            let right = self.parse_unary()?;
            proof { use_type_invariant(&*self); }
            let span = left.span().merge(&right.span());
            left = Expr::Binary { left: Box::new(left), op, right: Box::new(right), span };
            proof {
                assert(left@ == crate::grammar::binary(l0, op, right@));
                assert(level_rest(c, q0, Level::Mul, l0) == level_rest(c, self.pos as int, Level::Mul, left@));
            }
        }
        Ok(left)
    }

    fn parse_unary(&mut self) -> (r: Result<Expr, String>)
        ensures
            final(self).ctx() == old(self).ctx(),
            outcome(old(self).ctx(), r, p_unary(old(self).ctx(), old(self).pos as int), final(self).pos as int),
            r is Ok ==> old(self).pos < final(self).pos,
        decreases old(self).tokens.len() - old(self).pos, 3int,
    {
        proof { use_type_invariant(&*self); }
        if self.at(&Token::Not) {
            self.advance();
            let expr = self.parse_unary()?;
            let span = self.current_span().merge(&expr.span());
            return Ok(Expr::Unary { op: UnaryOp::Not, expr: Box::new(expr), span });
        }
        if self.at(&Token::Minus) {
            self.advance();
            let expr = self.parse_unary()?;
            let span = self.current_span().merge(&expr.span());
            return Ok(Expr::Unary { op: UnaryOp::Neg, expr: Box::new(expr), span });
        }
        self.parse_postfix()
    }

    /// One indexing, field access or method call after `expr`, when the next
    /// token starts one; `false` with `expr` back when it does not.
    #[verifier::rlimit(60)]
    fn parse_postfix_once(&mut self, expr: Expr) -> (r: Result<(Expr, bool), String>)
        ensures
            final(self).ctx() == old(self).ctx(),
            match r {
                Ok((e, more)) => if more {
                    &&& old(self).pos < final(self).pos
                    &&& postfix_rest(old(self).ctx(), old(self).pos as int, expr@) == postfix_rest(
                        old(self).ctx(),
                        final(self).pos as int,
                        e@,
                    )
                } else {
                    &&& e@ == expr@
                    &&& final(self).pos == old(self).pos
                    &&& !is_tok(old(self).ctx(), old(self).pos as int, TokenV::LBracket)
                    &&& !is_tok(old(self).ctx(), old(self).pos as int, TokenV::Dot)
                },
                Err(err) => postfix_rest(old(self).ctx(), old(self).pos as int, expr@) matches Err((q, m)) && err@
                    == error_text(old(self).ctx(), q, m) && final(self).pos == q,
            },
        decreases old(self).tokens.len() - old(self).pos, 0int,
    {
        proof { use_type_invariant(&*self); }
        if self.at(&Token::LBracket) {
            self.advance();
            let index = self.parse_expr()?;
            self.expect(Token::RBracket)?;
            proof { use_type_invariant(&*self); }
            let span = expr.span().merge(&index.span());
            Ok((Expr::Index { array: Box::new(expr), index: Box::new(index), span }, true))
        } else if self.at(&Token::Dot) {
            self.advance();
            let field = match self.peek() {
                Some(Token::Identifier(f)) => f.clone(),
                _ => {
                    return Err(self.format_error(self.pos, "Expected field name after '.'"));
                },
            };
            self.advance();
            let span = expr.span().merge(&self.current_span());
            if self.at(&Token::LParen) {
                let args = self.parse_call_args()?;
                proof { use_type_invariant(&*self); }
                let call_span = span.merge(&self.current_span());
                Ok((Expr::MethodCall { instance: Box::new(expr), method: field, args, span: call_span }, true))
            } else {
                Ok((Expr::FieldAccess { expr: Box::new(expr), field, span }, true))
            }
        } else {
            Ok((expr, false))
        }
    }

    fn parse_postfix(&mut self) -> (r: Result<Expr, String>)
        ensures
            final(self).ctx() == old(self).ctx(),
            outcome(old(self).ctx(), r, p_postfix(old(self).ctx(), old(self).pos as int), final(self).pos as int),
            r is Ok ==> old(self).pos < final(self).pos,
        decreases old(self).tokens.len() - old(self).pos, 2int,
    {
        proof { use_type_invariant(&*self); }
        let ghost c = self.ctx();
        let ghost p0 = self.pos as int;
        let mut expr = self.parse_primary()?;
        proof { use_type_invariant(&*self); }
        loop
            invariant
                self.ctx() == c,
                c == old(self).ctx(),
                p0 == old(self).pos,
                old(self).tokens.len() == self.tokens.len(),
                p0 < self.pos <= self.tokens.len(),
                self.tokens.len() == c.toks.len(),
                p_postfix(c, p0) == postfix_rest(c, self.pos as int, expr@),
            ensures
                self.ctx() == c,
                p0 < self.pos <= self.tokens.len(),
                p_postfix(c, p0) == postfix_rest(c, self.pos as int, expr@),
                !is_tok(c, self.pos as int, TokenV::LBracket),
                !is_tok(c, self.pos as int, TokenV::Dot),
            decreases self.tokens.len() - self.pos,
        {
            let (e, more) = self.parse_postfix_once(expr)?;
            proof { use_type_invariant(&*self); }
            expr = e;
            if !more {
                break;
            }
        }
        Ok(expr)
    }

    /// `expr ("," expr)*`.
    fn parse_expr_list(&mut self) -> (r: Result<Vec<Expr>, String>)
        ensures
            final(self).ctx() == old(self).ctx(),
            exprs_outcome(old(self).ctx(), r, expr_list(old(self).ctx(), old(self).pos as int, Seq::empty()), final(self).pos as int),
            r is Ok ==> old(self).pos < final(self).pos,
        decreases old(self).tokens.len() - old(self).pos, 16int,
    {
        proof { use_type_invariant(&*self); }
        let ghost c = self.ctx();
        let ghost p0 = self.pos as int;
        let mut items: Vec<Expr> = Vec::new();
        loop
            invariant_except_break
                expr_list(c, p0, Seq::empty()) == expr_list(c, self.pos as int, view_exprs(items@)),
            invariant
                self.ctx() == c,
                c == old(self).ctx(),
                p0 == old(self).pos,
                old(self).tokens.len() == self.tokens.len(),
                p0 <= self.pos <= self.tokens.len(),
                self.tokens.len() == c.toks.len(),
            ensures
                self.ctx() == c,
                p0 < self.pos <= self.tokens.len(),
                expr_list(c, p0, Seq::empty()) == Ok::<_, (int, Seq<char>)>((view_exprs(items@), self.pos as int)),
            decreases self.tokens.len() - self.pos,
        {
            let ghost q0 = self.pos as int;
            let ghost acc = view_exprs(items@);
            let e = self.parse_expr()?;
            proof {
                use_type_invariant(&*self);
                lemma_view_exprs_push(items@, e);
            }
            items.push(e);
            if self.at(&Token::Comma) {
                proof {
                    assert(expr_list(c, q0, acc) == expr_list(c, self.pos + 1, view_exprs(items@)));
                }
                self.advance();
            } else {
                proof {
                    assert(expr_list(c, q0, acc) == Ok::<_, (int, Seq<char>)>((view_exprs(items@), self.pos as int)));
                }
                break;
            }
        }
        Ok(items)
    }

    fn parse_call_args(&mut self) -> (r: Result<Vec<Expr>, String>)
        ensures
            final(self).ctx() == old(self).ctx(),
            exprs_outcome(old(self).ctx(), r, call_args(old(self).ctx(), old(self).pos as int), final(self).pos as int),
            r is Ok ==> old(self).pos < final(self).pos,
        decreases old(self).tokens.len() - old(self).pos, 17int,
    {
        proof { use_type_invariant(&*self); }
        self.expect(Token::LParen)?;
        let args = if !self.at(&Token::RParen) {
            self.parse_expr_list()?
        } else {
            Vec::new()
        };
        self.expect(Token::RParen)?;
        Ok(args)
    }

    #[verifier::rlimit(60)]
    fn parse_struct_literal(&mut self, name: String) -> (r: Result<Expr, String>)
        ensures
            final(self).ctx() == old(self).ctx(),
            outcome(old(self).ctx(), r, struct_literal(old(self).ctx(), old(self).pos as int, name@), final(self).pos as int),
            r is Ok ==> old(self).pos < final(self).pos,
        decreases old(self).tokens.len() - old(self).pos, 17int,
    {
        proof { use_type_invariant(&*self); }
        let ghost c = self.ctx();
        let start = self.pos;
        self.expect(Token::LBrace)?;
        let ghost p1 = self.pos as int;
        let fields = if !self.at(&Token::RBrace) {
            self.parse_expr_list()?
        } else {
            Vec::new()
        };
        let ghost q = self.pos as int;
        proof {
            assert(view_exprs(fields@) =~= view_exprs(fields@));
            if !is_tok(c, p1, TokenV::RBrace) {
                assert(expr_list(c, p1, Seq::empty()) == Ok::<_, (int, Seq<char>)>((view_exprs(fields@), q)));
            } else {
                assert(view_exprs(fields@) == Seq::<crate::ast::ExprV>::empty());
            }
        }
        self.expect(Token::RBrace)?;
        let end = self.pos - 1;
        let span = self.span_from(start, end);
        let r = Expr::StructLiteral { name, fields, span };
        proof {
            assert(r@ == crate::ast::ExprV::StructLiteral { name: name@, fields: view_exprs(fields@), span });
        }
        Ok(r)
    }

    /// `str(..)` or `int(..)`, with the keyword at the current token.
    fn parse_conversion_call(&mut self, name: &str) -> (r: Result<Expr, String>)
        requires
            old(self).pos < old(self).tokens.len(),
        ensures
            final(self).ctx() == old(self).ctx(),
            outcome(old(self).ctx(), r, conversion_call(old(self).ctx(), old(self).pos as int, name@), final(self).pos as int),
            r is Ok ==> old(self).pos < final(self).pos,
        decreases old(self).tokens.len() - old(self).pos, 0int,
    {
        proof { use_type_invariant(&*self); }
        let span = self.current_span();
        self.advance();
        if self.at(&Token::LParen) {
            let args = self.parse_call_args()?;
            let call_span = span.merge(&self.current_span());
            Ok(Expr::Call { name: String::from_str(name), args, span: call_span })
        } else {
            let mut msg = String::from_str("Expected '(' after '");
            msg.append(name);
            msg.append("'");
            Err(self.format_error(self.pos, msg.as_str()))
        }
    }


    /// A name, with the identifier at the current token.
    fn parse_name_expr(&mut self, name: String) -> (r: Result<Expr, String>)
        requires
            old(self).pos < old(self).tokens.len(),
        ensures
            final(self).ctx() == old(self).ctx(),
            outcome(old(self).ctx(), r, name_expr(old(self).ctx(), old(self).pos as int, name@), final(self).pos as int),
            r is Ok ==> old(self).pos < final(self).pos,
        decreases old(self).tokens.len() - old(self).pos, 0int,
    {
        proof { use_type_invariant(&*self); }
        let span = self.current_span();
        self.advance();
        if self.at(&Token::LParen) {
            let args = self.parse_call_args()?;
            let call_span = span.merge(&self.current_span());
            Ok(Expr::Call { name, args, span: call_span })
        } else if self.at(&Token::LBrace) {
            self.parse_struct_literal(name)
        } else {
            Ok(Expr::Variable(name, span))
        }
    }

    /// An array literal, with `[` at the current token.
    fn parse_array_literal(&mut self) -> (r: Result<Expr, String>)
        requires
            old(self).pos < old(self).tokens.len(),
        ensures
            final(self).ctx() == old(self).ctx(),
            outcome(old(self).ctx(), r, array_literal(old(self).ctx(), old(self).pos as int), final(self).pos as int),
            r is Ok ==> old(self).pos < final(self).pos,
        decreases old(self).tokens.len() - old(self).pos, 0int,
    {
        proof { use_type_invariant(&*self); }
        let ghost c = self.ctx();
        let start = self.pos;
        self.advance();
        let ghost p1 = self.pos as int;
        let elements = if !self.at(&Token::RBracket) {
            self.parse_expr_list()?
        } else {
            Vec::new()
        };
        let ghost q = self.pos as int;
        proof {
            if !is_tok(c, p1, TokenV::RBracket) {
                assert(expr_list(c, p1, Seq::empty()) == Ok::<_, (int, Seq<char>)>((view_exprs(elements@), q)));
            } else {
                assert(view_exprs(elements@) == Seq::<crate::ast::ExprV>::empty());
            }
        }
        self.expect(Token::RBracket)?;
        let end = self.pos - 1;
        let span = self.span_from(start, end);
        let r = Expr::ArrayLiteral(elements, span);
        proof {
            assert(r@ == crate::ast::ExprV::ArrayLiteral(view_exprs(elements@), span));
        }
        Ok(r)
    }

    /// `io.input("prompt")`, with `io` at the current token.
    fn parse_input(&mut self) -> (r: Result<Expr, String>)
        requires
            old(self).pos < old(self).tokens.len(),
        ensures
            final(self).ctx() == old(self).ctx(),
            outcome(old(self).ctx(), r, input_expr(old(self).ctx(), old(self).pos as int), final(self).pos as int),
            r is Ok ==> old(self).pos < final(self).pos,
    {
        proof { use_type_invariant(&*self); }
        let start = self.pos;
        self.advance();
        self.expect(Token::Dot)?;
        self.expect(Token::Input)?;
        self.expect(Token::LParen)?;
        let prompt = match self.peek() {
            Some(Token::StringLiteral(s)) => s.clone(),
            _ => {
                return Err(self.format_error(self.pos, "Expected prompt string for io.input"));
            },
        };
        self.advance();
        self.expect(Token::RParen)?;
        let end = self.pos - 1;
        let span = self.span_from(start, end);
        Ok(Expr::Input(prompt, span))
    }

    #[verifier::rlimit(60)]
    fn parse_primary(&mut self) -> (r: Result<Expr, String>)
        ensures
            final(self).ctx() == old(self).ctx(),
            outcome(old(self).ctx(), r, p_primary(old(self).ctx(), old(self).pos as int), final(self).pos as int),
            r is Ok ==> old(self).pos < final(self).pos,
        decreases old(self).tokens.len() - old(self).pos, 1int,
    {
        proof { use_type_invariant(&*self); }
        let t = match self.peek() {
            Some(t) => Some(t.duplicate()),
            None => None,
        };
        match t {
            Some(Token::Number(n)) => {
                let span = self.current_span();
                self.advance();
                Ok(Expr::Number(n, span))
            },
            Some(Token::DoubleLiteral(d)) => {
                let span = self.current_span();
                self.advance();
                Ok(Expr::DoubleLiteral(d, span))
            },
            Some(Token::StringLiteral(s)) => {
                let span = self.current_span();
                self.advance();
                Ok(Expr::StringLiteral(s, span))
            },
            Some(Token::Identifier(name)) => self.parse_name_expr(name),
            Some(Token::LBracket) => self.parse_array_literal(),
            Some(Token::Io) => self.parse_input(),
            Some(Token::Str) => self.parse_conversion_call("str"),
            Some(Token::Int) => self.parse_conversion_call("int"),
            Some(Token::LParen) => {
                self.advance();
                let expr = self.parse_expr()?;
                self.expect(Token::RParen)?;
                Ok(expr)
            },
            _ => {
                let mut msg = String::from_str("Unexpected token in expression: ");
                let got = opt_token_debug(self.peek());
                msg.append(got.as_str());
                Err(self.format_error(self.pos, msg.as_str()))
            },
        }
    }

    /// An optional `[n]` or `[]` after an element type whose keyword was consumed.
    fn parse_array_suffix(&mut self, scalar: Type, array: Type) -> (r: Result<Type, String>)
        ensures
            final(self).ctx() == old(self).ctx(),
            outcome(old(self).ctx(), r, array_suffix(old(self).ctx(), old(self).pos as int, scalar@, array@), final(self).pos as int),
            r is Ok ==> old(self).pos <= final(self).pos,
    {
        proof { use_type_invariant(&*self); }
        if self.at(&Token::LBracket) {
            self.advance();
            match self.peek() {
                Some(Token::Number(_)) => {
                    self.advance();
                },
                _ => {},
            }
            self.expect(Token::RBracket)?;
            Ok(array)
        } else {
            Ok(scalar)
        }
    }

    /// A type; any token that starts no type is read as `int` and left in place.
    fn parse_type(&mut self) -> (r: Result<Type, String>)
        ensures
            final(self).ctx() == old(self).ctx(),
            outcome(old(self).ctx(), r, p_type(old(self).ctx(), old(self).pos as int), final(self).pos as int),
            r is Ok ==> old(self).pos <= final(self).pos,
    {
        proof { use_type_invariant(&*self); }
        let t = match self.peek() {
            Some(t) => Some(t.duplicate()),
            None => None,
        };
        match t {
            Some(Token::Int) => {
                self.advance();
                self.parse_array_suffix(Type::Int, Type::Array)
            },
            Some(Token::Double) => {
                self.advance();
                self.parse_array_suffix(Type::Double, Type::DoubleArray)
            },
            Some(Token::Str) => {
                self.advance();
                Ok(Type::Str)
            },
            Some(Token::Identifier(name)) => {
                self.advance();
                if self.at(&Token::LBracket) {
                    return Err(self.format_error(self.pos, "Static arrays of structs are not yet supported"));
                }
                Ok(Type::Struct(name))
            },
            _ => Ok(Type::Int),
        }
    }

    /// Statements up to and including the closing `}`.
    fn parse_block(&mut self) -> (r: Result<Vec<Stmt>, String>)
        ensures
            final(self).ctx() == old(self).ctx(),
            stmts_outcome(old(self).ctx(), r, p_block(old(self).ctx(), old(self).pos as int), final(self).pos as int),
            r is Ok ==> old(self).pos < final(self).pos,
        decreases old(self).tokens.len() - old(self).pos, 4int,
    {
        proof { use_type_invariant(&*self); }
        let ghost c = self.ctx();
        let ghost p0 = self.pos as int;
        let mut stmts: Vec<Stmt> = Vec::new();
        while !self.at(&Token::RBrace) && self.peek().is_some()
            invariant
                self.ctx() == c,
                c == old(self).ctx(),
                p0 == old(self).pos,
                old(self).tokens.len() == self.tokens.len(),
                p0 <= self.pos <= self.tokens.len(),
                self.tokens.len() == c.toks.len(),
                p_block(c, p0) == block_rest(c, self.pos as int, view_stmts(stmts@)),
            decreases self.tokens.len() - self.pos,
        {
            let ghost q0 = self.pos as int;
            let ghost acc = view_stmts(stmts@);
            let st = self.parse_stmt()?;
            proof {
                use_type_invariant(&*self);
                lemma_view_stmts_push(stmts@, st);
            }
            stmts.push(st);
            proof {
                assert(block_rest(c, q0, acc) == block_rest(c, self.pos as int, view_stmts(stmts@)));
            }
        }
        self.expect(Token::RBrace)?;
        Ok(stmts)
    }

    fn parse_stmt(&mut self) -> (r: Result<Stmt, String>)
        ensures
            final(self).ctx() == old(self).ctx(),
            outcome(old(self).ctx(), r, p_stmt(old(self).ctx(), old(self).pos as int), final(self).pos as int),
            r is Ok ==> old(self).pos < final(self).pos,
        decreases old(self).tokens.len() - old(self).pos, 2int,
    {
        proof { use_type_invariant(&*self); }
        let t = match self.peek() {
            Some(t) => Some(t.duplicate()),
            None => None,
        };
        match t {
            Some(Token::Let) => self.parse_let(),
            Some(Token::If) => self.parse_if(),
            Some(Token::While) => self.parse_while(),
            Some(Token::For) => self.parse_for(),
            Some(Token::Return) => self.parse_return(),
            Some(Token::Break) => {
                let span = self.current_span();
                self.advance();
                Ok(Stmt::Break(span))
            },
            Some(Token::Continue) => {
                let span = self.current_span();
                self.advance();
                Ok(Stmt::Continue(span))
            },
            Some(Token::Io) => self.parse_io_print(),
            Some(Token::Identifier(_)) => self.parse_assign_or_call_stmt(),
            _ => {
                let mut msg = String::from_str("Unexpected token at statement start: ");
                let got = opt_token_debug(self.peek());
                msg.append(got.as_str());
                Err(self.format_error(self.pos, msg.as_str()))
            },
        }
    }

    /// `= expr` closing a `let` that started at token `start`.
    fn parse_let_value(&mut self, start: usize, name: String, var_type: Option<Type>) -> (r: Result<Stmt, String>)
        requires
            start < old(self).pos,
        ensures
            final(self).ctx() == old(self).ctx(),
            outcome(old(self).ctx(), r, let_value(old(self).ctx(), start as int, old(self).pos as int, name@, crate::ast::view_opt_type(var_type)), final(self).pos as int),
            r is Ok ==> old(self).pos < final(self).pos,
    {
        proof { use_type_invariant(&*self); }
        self.expect(Token::Equals)?;
        let value = self.parse_expr()?;
        let end = self.pos - 1;
        let span = self.span_from(start, end);
        Ok(Stmt::Let { name, var_type, value, span })
    }

    fn parse_let(&mut self) -> (r: Result<Stmt, String>)
        ensures
            final(self).ctx() == old(self).ctx(),
            outcome(old(self).ctx(), r, p_let(old(self).ctx(), old(self).pos as int), final(self).pos as int),
            r is Ok ==> old(self).pos < final(self).pos,
    {
        proof { use_type_invariant(&*self); }
        let start = self.pos;
        self.expect(Token::Let)?;
        let first = match self.peek() {
            Some(t) => Some(t.duplicate()),
            None => None,
        };
        let var_type = match first {
            Some(Token::Int) => {
                self.advance();
                Some(self.parse_array_suffix(Type::Int, Type::Array)?)
            },
            Some(Token::Double) => {
                self.advance();
                Some(self.parse_array_suffix(Type::Double, Type::DoubleArray)?)
            },
            Some(Token::Str) => {
                self.advance();
                Some(Type::Str)
            },
            Some(Token::Identifier(name1)) => {
                let save_pos = self.pos;
                self.advance();
                let next = match self.peek() {
                    Some(t) => Some(t.duplicate()),
                    None => None,
                };
                match next {
                    Some(Token::Identifier(var_name)) => {
                        self.advance();
                        return self.parse_let_value(start, var_name, Some(Type::Struct(name1)));
                    },
                    Some(Token::Equals) => {
                        return self.parse_let_value(start, name1, None);
                    },
                    _ => {
                        self.pos = save_pos;
                        return Err(self.format_error(self.pos, "Expected variable name or type"));
                    },
                }
            },
            _ => None,
        };
        let name = match self.peek() {
            Some(Token::Identifier(n)) => n.clone(),
            _ => {
                return Err(self.format_error(self.pos, "Expected variable name after 'let'"));
            },
        };
        self.advance();
        self.parse_let_value(start, name, var_type)
    }

    fn parse_if(&mut self) -> (r: Result<Stmt, String>)
        ensures
            final(self).ctx() == old(self).ctx(),
            outcome(old(self).ctx(), r, p_if(old(self).ctx(), old(self).pos as int), final(self).pos as int),
            r is Ok ==> old(self).pos < final(self).pos,
        decreases old(self).tokens.len() - old(self).pos, 1int,
    {
        proof { use_type_invariant(&*self); }
        let start = self.pos;
        self.expect(Token::If)?;
        let condition = self.parse_expr()?;
        self.expect(Token::LBrace)?;
        let then_body = self.parse_block()?;
        proof { use_type_invariant(&*self); }
        let else_body = if self.at(&Token::Else) {
            self.advance();
            if self.at(&Token::If) {
                let else_if_stmt = self.parse_if()?;
                let mut v: Vec<Stmt> = Vec::new();
                proof { lemma_view_stmts_push(v@, else_if_stmt); }
                v.push(else_if_stmt);
                Some(v)
            } else {
                self.expect(Token::LBrace)?;
                let else_stmts = self.parse_block()?;
                Some(else_stmts)
            }
        } else {
            None
        };
        let end = self.pos - 1;
        let span = self.span_from(start, end);
        Ok(Stmt::If { condition, then_body, else_body, span })
    }

    fn parse_while(&mut self) -> (r: Result<Stmt, String>)
        ensures
            final(self).ctx() == old(self).ctx(),
            outcome(old(self).ctx(), r, p_while(old(self).ctx(), old(self).pos as int), final(self).pos as int),
            r is Ok ==> old(self).pos < final(self).pos,
        decreases old(self).tokens.len() - old(self).pos, 1int,
    {
        proof { use_type_invariant(&*self); }
        let start = self.pos;
        self.expect(Token::While)?;
        let condition = self.parse_expr()?;
        self.expect(Token::LBrace)?;
        let body = self.parse_block()?;
        let end = self.pos - 1;
        let span = self.span_from(start, end);
        Ok(Stmt::While { condition, body, span })
    }

    fn parse_for(&mut self) -> (r: Result<Stmt, String>)
        ensures
            final(self).ctx() == old(self).ctx(),
            outcome(old(self).ctx(), r, p_for(old(self).ctx(), old(self).pos as int), final(self).pos as int),
            r is Ok ==> old(self).pos < final(self).pos,
        decreases old(self).tokens.len() - old(self).pos, 1int,
    {
        proof { use_type_invariant(&*self); }
        let start = self.pos;
        self.expect(Token::For)?;
        let var_name = match self.peek() {
            Some(Token::Identifier(n)) => n.clone(),
            _ => {
                return Err(self.format_error(self.pos, "Expected loop variable name in 'for'"));
            },
        };
        self.advance();
        self.expect(Token::Equals)?;
        let start_expr = self.parse_expr()?;
        self.expect(Token::Comma)?;
        let condition = self.parse_expr()?;
        self.expect(Token::Comma)?;
        proof { use_type_invariant(&*self); }
        match self.peek() {
            Some(Token::Identifier(_)) => {},
            _ => {
                return Err(self.format_error(self.pos, "Expected step variable in for"));
            },
        }
        self.advance();
        self.expect(Token::Equals)?;
        let step = self.parse_expr()?;
        self.expect(Token::LBrace)?;
        let body = self.parse_block()?;
        let end = self.pos - 1;
        let span = self.span_from(start, end);
        Ok(Stmt::For { var_name, start: start_expr, condition, step, body, span })
    }

    fn parse_return(&mut self) -> (r: Result<Stmt, String>)
        ensures
            final(self).ctx() == old(self).ctx(),
            outcome(old(self).ctx(), r, p_return(old(self).ctx(), old(self).pos as int), final(self).pos as int),
            r is Ok ==> old(self).pos < final(self).pos,
    {
        proof { use_type_invariant(&*self); }
        let start = self.pos;
        self.expect(Token::Return)?;
        let expr = self.parse_expr()?;
        let end = self.pos - 1;
        let span = self.span_from(start, end);
        Ok(Stmt::Return(expr, span))
    }

    fn parse_io_print(&mut self) -> (r: Result<Stmt, String>)
        ensures
            final(self).ctx() == old(self).ctx(),
            outcome(old(self).ctx(), r, p_io_print(old(self).ctx(), old(self).pos as int), final(self).pos as int),
            r is Ok ==> old(self).pos < final(self).pos,
    {
        proof { use_type_invariant(&*self); }
        let ghost c = self.ctx();
        let start = self.pos;
        self.expect(Token::Io)?;
        self.expect(Token::Dot)?;
        self.expect(Token::Print)?;
        self.expect(Token::LParen)?;
        let ghost p4 = self.pos as int;
        let args = if !self.at(&Token::RParen) {
            self.parse_expr_list()?
        } else {
            Vec::new()
        };
        let ghost q = self.pos as int;
        proof {
            if !is_tok(c, p4, TokenV::RParen) {
                assert(expr_list(c, p4, Seq::empty()) == Ok::<_, (int, Seq<char>)>((view_exprs(args@), q)));
            } else {
                assert(view_exprs(args@) == Seq::<crate::ast::ExprV>::empty());
            }
        }
        self.expect(Token::RParen)?;
        let end = self.pos - 1;
        let span = self.span_from(start, end);
        let r = Stmt::IoPrint(args, span);
        proof {
            assert(r@ == crate::ast::StmtV::IoPrint(view_exprs(args@), span));
        }
        Ok(r)
    }

    #[verifier::spinoff_prover]
    #[verifier::rlimit(100)]
    fn parse_assign_or_call_stmt(&mut self) -> (r: Result<Stmt, String>)
        ensures
            final(self).ctx() == old(self).ctx(),
            outcome(old(self).ctx(), r, p_assign_or_call(old(self).ctx(), old(self).pos as int), final(self).pos as int),
            r is Ok ==> old(self).pos < final(self).pos,
    {
        proof { use_type_invariant(&*self); }
        let start = self.pos;
        let name = match self.peek() {
            Some(Token::Identifier(n)) => n.clone(),
            _ => {
                return Err(self.format_error(self.pos, "Expected identifier"));
            },
        };
        self.advance();
        if self.at(&Token::LBracket) {
            self.expect(Token::LBracket)?;
            let index = self.parse_expr()?;
            self.expect(Token::RBracket)?;
            self.expect(Token::Equals)?;
            let value = self.parse_expr()?;
            let end = self.pos - 1;
            let span = self.span_from(start, end);
            return Ok(Stmt::AssignIndex { name, index, value, span });
        }
        if self.at(&Token::LParen) {
            let args = self.parse_call_args()?;
            proof { use_type_invariant(&*self); }
            if self.at(&Token::Equals) {
                self.expect(Token::Equals)?;
                let value = Expr::Call { name: name.clone(), args, span: self.current_span() };
                let end = self.pos - 1;
                let span = self.span_from(start, end);
                Ok(Stmt::Assign { name, value, span })
            } else {
                let end = self.pos - 1;
                let span = self.span_from(start, end);
                Ok(Stmt::CallStmt { name, args, span })
            }
        } else {
            let op = match self.peek() {
                Some(Token::PlusEquals) => Some(BinOp::Add),
                Some(Token::MinusEquals) => Some(BinOp::Sub),
                Some(Token::StarEquals) => Some(BinOp::Mul),
                Some(Token::SlashEquals) => Some(BinOp::Div),
                _ => None,
            };
            match op {
                Some(bin_op) => {
                    self.advance();
                    let rhs = self.parse_expr()?;
                    let left = Expr::Variable(name.clone(), self.current_span());
                    let binary_span = left.span().merge(&rhs.span());
                    let value = Expr::Binary { left: Box::new(left), op: bin_op, right: Box::new(rhs), span: binary_span };
                    let end = self.pos - 1;
                    let span = self.span_from(start, end);
                    Ok(Stmt::Assign { name, value, span })
                },
                None => {
                    self.expect(Token::Equals)?;
                    let value = self.parse_expr()?;
                    let end = self.pos - 1;
                    let span = self.span_from(start, end);
                    Ok(Stmt::Assign { name, value, span })
                },
            }
        }
    }

    fn parse_import(&mut self) -> (r: Result<String, String>)
        ensures
            final(self).ctx() == old(self).ctx(),
            outcome(old(self).ctx(), r, p_import(old(self).ctx(), old(self).pos as int), final(self).pos as int),
            r is Ok ==> old(self).pos < final(self).pos,
    {
        proof { use_type_invariant(&*self); }
        self.expect(Token::Import)?;
        let path = match self.peek() {
            Some(Token::StringLiteral(path)) => path.clone(),
            _ => {
                return Err(self.format_error(self.pos, "Expected string literal after 'import'"));
            },
        };
        self.advance();
        Ok(path)
    }

    fn parse_constant(&mut self) -> (r: Result<Constant, String>)
        ensures
            final(self).ctx() == old(self).ctx(),
            outcome(old(self).ctx(), r, p_constant(old(self).ctx(), old(self).pos as int), final(self).pos as int),
            r is Ok ==> old(self).pos < final(self).pos,
    {
        proof { use_type_invariant(&*self); }
        let start = self.pos;
        self.expect(Token::Let)?;
        let name = match self.peek() {
            Some(Token::Identifier(n)) => n.clone(),
            _ => {
                return Err(self.format_error(self.pos, "Expected constant name after 'let'"));
            },
        };
        self.advance();
        self.expect(Token::Equals)?;
        let value = self.parse_expr()?;
        let end = self.pos - 1;
        let span = self.span_from(start, end);
        Ok(Constant { name, value, span })
    }

    /// Fields `type name` up to the closing `}`, which is left in place.
    fn parse_fields(&mut self) -> (r: Result<Vec<Field>, String>)
        ensures
            final(self).ctx() == old(self).ctx(),
            match fields_rest(old(self).ctx(), old(self).pos as int, Seq::empty()) {
                Ok((v, q)) => r matches Ok(x) && x@.map_values(|f: Field| f@) == v && final(self).pos == q,
                Err((p, m)) => r matches Err(e) && e@ == error_text(old(self).ctx(), p, m) && final(self).pos == p,
            },
            r is Ok ==> old(self).pos <= final(self).pos,
    {
        proof { use_type_invariant(&*self); }
        let ghost c = self.ctx();
        let ghost p0 = self.pos as int;
        let mut fields: Vec<Field> = Vec::new();
        assert(fields@.map_values(|f: Field| f@) =~= Seq::<crate::ast::FieldV>::empty());
        while !self.at(&Token::RBrace)
            invariant
                self.ctx() == c,
                c == old(self).ctx(),
                p0 == old(self).pos,
                old(self).tokens.len() == self.tokens.len(),
                p0 <= self.pos <= self.tokens.len(),
                self.tokens.len() == c.toks.len(),
                fields_rest(c, p0, Seq::empty()) == fields_rest(c, self.pos as int, fields@.map_values(|f: Field| f@)),
            decreases self.tokens.len() - self.pos,
        {
            let ghost q0 = self.pos as int;
            let ghost acc = fields@.map_values(|f: Field| f@);
            let field_span = self.current_span();
            let field_type = self.parse_type()?;
            proof { use_type_invariant(&*self); }
            let field_name = match self.peek() {
                Some(Token::Identifier(n)) => n.clone(),
                _ => {
                    return Err(self.format_error(self.pos, "Expected field name"));
                },
            };
            self.advance();
            let f = Field { name: field_name, field_type, span: field_span };
            let ghost fv = f@;
            fields.push(f);
            proof {
                assert(fields@.map_values(|f: Field| f@) =~= acc.push(fv));
                assert(fields_rest(c, q0, acc) == fields_rest(c, self.pos as int, acc.push(fv)));
            }
        }
        Ok(fields)
    }

    fn parse_struct_def(&mut self) -> (r: Result<StructDef, String>)
        ensures
            final(self).ctx() == old(self).ctx(),
            outcome(old(self).ctx(), r, p_struct_def(old(self).ctx(), old(self).pos as int), final(self).pos as int),
            r is Ok ==> old(self).pos < final(self).pos,
    {
        proof { use_type_invariant(&*self); }
        let ghost c = self.ctx();
        let start = self.pos;
        self.expect(Token::Struct)?;
        let name = match self.peek() {
            Some(Token::Identifier(n)) => n.clone(),
            _ => {
                return Err(self.format_error(self.pos, "Expected struct name"));
            },
        };
        self.advance();
        self.expect(Token::LBrace)?;
        let fields = self.parse_fields()?;
        self.expect(Token::RBrace)?;
        let end = self.pos - 1;
        let span = self.span_from(start, end);
        Ok(StructDef { name, fields, span })
    }

    /// Parameters `type name, ..`.
    fn parse_params(&mut self) -> (r: Result<Vec<Param>, String>)
        ensures
            final(self).ctx() == old(self).ctx(),
            match params_rest(old(self).ctx(), old(self).pos as int, Seq::empty()) {
                Ok((v, q)) => r matches Ok(x) && x@.map_values(|p: Param| p@) == v && final(self).pos == q,
                Err((p, m)) => r matches Err(e) && e@ == error_text(old(self).ctx(), p, m) && final(self).pos == p,
            },
            r is Ok ==> old(self).pos < final(self).pos,
    {
        proof { use_type_invariant(&*self); }
        let ghost c = self.ctx();
        let ghost p0 = self.pos as int;
        let mut params: Vec<Param> = Vec::new();
        assert(params@.map_values(|p: Param| p@) =~= Seq::<crate::ast::ParamV>::empty());
        loop
            invariant_except_break
                params_rest(c, p0, Seq::empty()) == params_rest(c, self.pos as int, params@.map_values(|p: Param| p@)),
            invariant
                self.ctx() == c,
                c == old(self).ctx(),
                p0 == old(self).pos,
                old(self).tokens.len() == self.tokens.len(),
                p0 <= self.pos <= self.tokens.len(),
                self.tokens.len() == c.toks.len(),
            ensures
                self.ctx() == c,
                p0 < self.pos <= self.tokens.len(),
                params_rest(c, p0, Seq::empty()) == Ok::<_, (int, Seq<char>)>((params@.map_values(|p: Param| p@), self.pos as int)),
            decreases self.tokens.len() - self.pos,
        {
            let ghost q0 = self.pos as int;
            let ghost acc = params@.map_values(|p: Param| p@);
            let param_span = self.current_span();
            let param_type = self.parse_type()?;
            proof { use_type_invariant(&*self); }
            let param_name = match self.peek() {
                Some(Token::Identifier(n)) => n.clone(),
                _ => {
                    return Err(self.format_error(self.pos, "Expected parameter name"));
                },
            };
            self.advance();
            let prm = Param { name: param_name, param_type, span: param_span };
            let ghost pv = prm@;
            params.push(prm);
            proof {
                assert(params@.map_values(|p: Param| p@) =~= acc.push(pv));
            }
            if self.at(&Token::Comma) {
                proof {
                    assert(params_rest(c, q0, acc) == params_rest(c, self.pos + 1, acc.push(pv)));
                }
                self.advance();
            } else {
                proof {
                    assert(params_rest(c, q0, acc) == Ok::<_, (int, Seq<char>)>((acc.push(pv), self.pos as int)));
                }
                break;
            }
        }
        Ok(params)
    }

    /// The head of a function after `fn`: `Struct.method`, `Type name` or `name`.
    fn parse_function_head(&mut self) -> (r: Result<(Option<String>, Type, String), String>)
        ensures
            final(self).ctx() == old(self).ctx(),
            match function_head(old(self).ctx(), old(self).pos as int) {
                Ok((sn, t, n, q)) => r matches Ok(x) && crate::ast::view_opt_string(x.0) == sn && x.1@ == t
                    && x.2@ == n && final(self).pos == q,
                Err((p, m)) => r matches Err(e) && e@ == error_text(old(self).ctx(), p, m) && final(self).pos == p,
            },
            r is Ok ==> old(self).pos < final(self).pos,
    {
        proof { use_type_invariant(&*self); }
        let first = match self.peek() {
            Some(Token::Identifier(f)) => f.clone(),
            _ => {
                return Err(self.format_error(self.pos, "Expected function name or struct name"));
            },
        };
        let save_pos = self.pos;
        self.advance();
        if self.at(&Token::Dot) {
            self.advance();
            let method_name = match self.peek() {
                Some(Token::Identifier(m)) => m.clone(),
                _ => {
                    return Err(self.format_error(self.pos, "Expected method name after '.'"));
                },
            };
            self.advance();
            Ok((Some(first), Type::Int, method_name))
        } else {
            let next_is_name = match self.peek() {
                Some(Token::Identifier(_)) => true,
                _ => false,
            };
            self.pos = save_pos;
            let return_type = if next_is_name {
                self.parse_type()?
            } else {
                Type::Int
            };
            proof { use_type_invariant(&*self); }
            let name = match self.peek() {
                Some(Token::Identifier(n)) => n.clone(),
                _ => {
                    return Err(self.format_error(self.pos, "Expected function name"));
                },
            };
            self.advance();
            Ok((None, return_type, name))
        }
    }

    #[verifier::spinoff_prover]
    #[verifier::rlimit(100)]
    fn parse_function(&mut self) -> (r: Result<Function, String>)
        ensures
            final(self).ctx() == old(self).ctx(),
            outcome(old(self).ctx(), r, p_function(old(self).ctx(), old(self).pos as int), final(self).pos as int),
            r is Ok ==> old(self).pos < final(self).pos,
    {
        proof { use_type_invariant(&*self); }
        let ghost c = self.ctx();
        let start = self.pos;
        self.expect(Token::Fn)?;
        let (struct_name, head_type, name) = self.parse_function_head()?;
        let mut return_type = head_type;
        self.expect(Token::LParen)?;
        let ghost p3 = self.pos as int;
        let params = if !self.at(&Token::RParen) {
            self.parse_params()?
        } else {
            Vec::new()
        };
        let ghost p4 = self.pos as int;
        proof {
            if is_tok(c, p3, TokenV::RParen) {
                assert(params@.map_values(|p: Param| p@) =~= Seq::<crate::ast::ParamV>::empty());
            }
        }
        self.expect(Token::RParen)?;
        proof { use_type_invariant(&*self); }
        let ghost p5 = self.pos as int;
        if self.at(&Token::Arrow) {
            self.advance();
            return_type = self.parse_type()?;
        }
        let ghost p6 = self.pos as int;
        self.expect(Token::LBrace)?;
        let body = self.parse_block()?;
        let end = self.pos - 1;
        let span = self.span_from(start, end);
        let r = Function { name, struct_name, params, return_type, body, span };
        proof {
            let ps = if !is_tok(c, p3, TokenV::RParen) {
                params_rest(c, p3, Seq::empty())
            } else {
                Ok((Seq::empty(), p3))
            };
            assert(ps == Ok::<_, (int, Seq<char>)>((params@.map_values(|p: Param| p@), p4)));
            let rt = if is_tok(c, p5, TokenV::Arrow) {
                p_type(c, p5 + 1)
            } else {
                Ok((head_type@, p5))
            };
            assert(rt == Ok::<_, (int, Seq<char>)>((return_type@, p6)));
        }
        Ok(r)
    }

    /// Parses the whole token list into a program.
    /// One top-level item, added to `prog`.
    #[verifier::rlimit(60)]
    fn parse_item(&mut self, prog: &mut Program) -> (r: Result<(), String>)
        requires
            old(self).pos < old(self).tokens.len(),
        ensures
            final(self).ctx() == old(self).ctx(),
            match program_item(old(self).ctx(), old(self).pos as int, old(prog)@) {
                Ok((a, q)) => r is Ok && final(prog)@ == a && final(self).pos == q,
                Err((p, m)) => r matches Err(e) && e@ == error_text(old(self).ctx(), p, m) && final(self).pos == p,
            },
            r is Ok ==> old(self).pos < final(self).pos,
    {
        proof {
            use_type_invariant(&*self);
            reveal(program_item);
        }
        let ghost acc = prog@;
        let t = match self.peek() {
            Some(t) => Some(t.duplicate()),
            None => None,
        };
        match t {
            Some(Token::Import) => {
                let path = self.parse_import()?;
                let ghost v = path@;
                prog.imports.push(path);
                proof { assert(prog@.imports =~= acc.imports.push(v)); }
            },
            Some(Token::Struct) => {
                let sd = self.parse_struct_def()?;
                let ghost v = sd@;
                prog.structs.push(sd);
                proof { assert(prog@.structs =~= acc.structs.push(v)); }
            },
            Some(Token::Fn) => {
                let f = self.parse_function()?;
                let ghost v = f@;
                prog.functions.push(f);
                proof { assert(prog@.functions =~= acc.functions.push(v)); }
            },
            Some(Token::Let) => {
                let k = self.parse_constant()?;
                let ghost v = k@;
                prog.constants.push(k);
                proof { assert(prog@.constants =~= acc.constants.push(v)); }
            },
            _ => {
                let mut msg = String::from_str("Unexpected top-level token: ");
                let got = opt_token_debug(self.peek());
                msg.append(got.as_str());
                return Err(self.format_error(self.pos, msg.as_str()));
            },
        }
        Ok(())
    }

    /// Parses the whole token list into a program.
    pub fn parse_program(&mut self) -> (r: Result<Program, String>)
        ensures
            final(self).ctx() == old(self).ctx(),
            outcome(old(self).ctx(), r, p_program(old(self).ctx(), old(self).position()), final(self).position()),
    {
        proof { use_type_invariant(&*self); }
        let ghost c = self.ctx();
        let ghost p0 = self.pos as int;
        let mut prog = Program { imports: Vec::new(), structs: Vec::new(), constants: Vec::new(), functions: Vec::new() };
        proof {
            assert(prog@.imports =~= Seq::<Seq<char>>::empty());
            assert(prog@.structs =~= Seq::<crate::ast::StructDefV>::empty());
            assert(prog@.constants =~= Seq::<crate::ast::ConstantV>::empty());
            assert(prog@.functions =~= Seq::<crate::ast::FunctionV>::empty());
        }
        while self.peek().is_some()
            invariant
                self.ctx() == c,
                c == old(self).ctx(),
                old(self).tokens.len() == self.tokens.len(),
                self.pos <= self.tokens.len(),
                self.tokens.len() == c.toks.len(),
                p0 == old(self).pos,
                p_program(c, p0) == program_rest(c, self.pos as int, prog@),
            decreases self.tokens.len() - self.pos,
        {
            let ghost q0 = self.pos as int;
            let ghost acc = prog@;
            match self.parse_item(&mut prog) {
                Ok(()) => {},
                Err(e) => {
                    proof {
                        let err = program_item(c, q0, acc)->Err_0;
                        assert(program_rest(c, q0, acc) == Err::<(crate::ast::ProgramV, int), (int, Seq<char>)>(err));
                    }
                    return Err(e);
                },
            }
            proof {
                use_type_invariant(&*self);
                assert(program_rest(c, q0, acc) == program_rest(c, self.pos as int, prog@));
            }
        }
        Ok(prog)
    }
}

} // verus!
