use vstd::prelude::*;
use crate::ast::{Span, merge_spans, TypeV, BinOp, UnaryOp, ExprV, StmtV, ConstantV, FieldV, StructDefV, ParamV, FunctionV, ProgramV};
use crate::token::{TokenV, opt_token_debug_text, token_debug_text};
use crate::text::nat_text;

verus! {

/// What a parse works on: the tokens with their byte ranges, and the source text.
pub struct PCtx {
    pub toks: Seq<(TokenV, Span)>,
    pub src: Seq<char>,
}

/// A parse outcome: the value and the index of the next token, or the index
/// of the token where parsing stopped with a message.
pub type PRes<T> = Result<(T, int), (int, Seq<char>)>;

pub open spec fn tok(c: PCtx, p: int) -> Option<TokenV> {
    if 0 <= p < c.toks.len() {
        Some(c.toks[p].0)
    } else {
        None
    }
}

pub open spec fn is_tok(c: PCtx, p: int, t: TokenV) -> bool {
    tok(c, p) == Some(t)
}

/// The byte range of the token at `p`, or `0..0` past the end.
pub open spec fn cur_span(c: PCtx, p: int) -> Span {
    if 0 <= p < c.toks.len() {
        c.toks[p].1
    } else {
        Span { start: 0, end: 0 }
    }
}

/// A span of token indices.
pub open spec fn idx_span(start: int, end: int) -> Span {
    Span { start: start as usize, end: end as usize }
}

/// The parse moved forward and stayed within the tokens.
pub open spec fn moved(c: PCtx, p: int, q: int) -> bool {
    p < q <= c.toks.len()
}

pub open spec fn stuck<T>(q: int) -> PRes<T> {
    Err((q, Seq::empty()))
}

/// Line and column after reading the first `n` characters of `src`
/// (or all of them when there are fewer), starting from line 1, column 1.
pub open spec fn line_col(src: Seq<char>, n: int) -> (nat, nat)
    decreases n,
{
    if n <= 0 {
        (1, 1)
    } else if n > src.len() {
        line_col(src, src.len() as int)
    } else {
        let (l, k) = line_col(src, n - 1);
        if src[n - 1] == '\n' {
            (l + 1, 1)
        } else {
            (l, k + 1)
        }
    }
}

/// Where the token at `p` starts, as (line, column); (0, 0) past the end.
/// The character count stops at the token's byte offset.
pub open spec fn location(c: PCtx, p: int) -> (nat, nat) {
    if p < 0 || p >= c.toks.len() {
        (0, 0)
    } else {
        line_col(c.src, c.toks[p].1.start as int)
    }
}

/// The text of a parse error at token `p`.
#[verifier::opaque]
pub open spec fn error_text(c: PCtx, p: int, msg: Seq<char>) -> Seq<char> {
    let (l, k) = location(c, p);
    "Error at "@ + nat_text(l) + seq![':'] + nat_text(k) + ": "@ + msg
}

/// Consumes the token `t`, or reports what came instead.
pub open spec fn expect(c: PCtx, p: int, t: TokenV) -> Result<int, (int, Seq<char>)> {
    if is_tok(c, p, t) {
        Ok(p + 1)
    } else {
        Err((
            p,
            "Syntax error: expected "@ + token_debug_text(t) + ", got "@ + opt_token_debug_text(
                tok(c, p),
            ),
        ))
    }
}

// ---------------------------------------------------------------- expressions

/// `expr ("," expr)*`, appended to `acc`.
pub open spec fn expr_list(c: PCtx, p: int, acc: Seq<ExprV>) -> PRes<Seq<ExprV>>
    decreases c.toks.len() - p, 16int,
{
    match p_expr(c, p) {
        Err(e) => Err(e),
        Ok((x, q)) => if !moved(c, p, q) {
            stuck(q)
        } else if is_tok(c, q, TokenV::Comma) {
            expr_list(c, q + 1, acc.push(x))
        } else {
            Ok((acc.push(x), q))
        },
    }
}

/// `"(" [expr ("," expr)*] ")"`.
pub open spec fn call_args(c: PCtx, p: int) -> PRes<Seq<ExprV>>
    decreases c.toks.len() - p, 17int,
{
    match expect(c, p, TokenV::LParen) {
        Err(e) => Err(e),
        Ok(p1) => {
            let items = if !is_tok(c, p1, TokenV::RParen) {
                expr_list(c, p1, Seq::empty())
            } else {
                Ok((Seq::empty(), p1))
            };
            match items {
                Err(e) => Err(e),
                Ok((args, q)) => match expect(c, q, TokenV::RParen) {
                    Err(e) => Err(e),
                    Ok(q1) => Ok((args, q1)),
                },
            }
        },
    }
}

/// `"{" [expr ("," expr)*] "}"` after a struct name.
pub open spec fn struct_literal(c: PCtx, p: int, name: Seq<char>) -> PRes<ExprV>
    decreases c.toks.len() - p, 17int,
{
    match expect(c, p, TokenV::LBrace) {
        Err(e) => Err(e),
        Ok(p1) => {
            let items = if !is_tok(c, p1, TokenV::RBrace) {
                expr_list(c, p1, Seq::empty())
            } else {
                Ok((Seq::empty(), p1))
            };
            match items {
                Err(e) => Err(e),
                Ok((fields, q)) => match expect(c, q, TokenV::RBrace) {
                    Err(e) => Err(e),
                    Ok(q1) => Ok((ExprV::StructLiteral { name, fields, span: idx_span(p, q1 - 1) }, q1)),
                },
            }
        },
    }
}

/// A primary expression: a literal, a name, a call, a struct or array literal,
/// `io.input("...")`, `str(..)`/`int(..)`, or a parenthesized expression.
pub open spec fn p_primary(c: PCtx, p: int) -> PRes<ExprV>
    decreases c.toks.len() - p, 1int,
{
    match tok(c, p) {
        Some(TokenV::Number(n)) => Ok((ExprV::Number(n, cur_span(c, p)), p + 1)),
        Some(TokenV::DoubleLiteral(d)) => Ok((ExprV::DoubleLiteral(d, cur_span(c, p)), p + 1)),
        Some(TokenV::StringLiteral(s)) => Ok((ExprV::StringLiteral(s, cur_span(c, p)), p + 1)),
        Some(TokenV::Identifier(name)) => name_expr(c, p, name),
        Some(TokenV::LBracket) => array_literal(c, p),
        Some(TokenV::Io) => input_expr(c, p),
        Some(TokenV::Str) => conversion_call(c, p, "str"@),
        Some(TokenV::Int) => conversion_call(c, p, "int"@),
        Some(TokenV::LParen) => match p_expr(c, p + 1) {
            Err(e) => Err(e),
            Ok((x, q)) => match expect(c, q, TokenV::RParen) {
                Err(e) => Err(e),
                Ok(q1) => Ok((x, q1)),
            },
        },
        _ => Err((p, "Unexpected token in expression: "@ + opt_token_debug_text(tok(c, p)))),
    }
}

/// A name at `p`: a call, a struct literal, or a variable.
pub open spec fn name_expr(c: PCtx, p: int, name: Seq<char>) -> PRes<ExprV>
    decreases c.toks.len() - p, 0int,
{
    let span = cur_span(c, p);
    if 0 <= p < c.toks.len() && is_tok(c, p + 1, TokenV::LParen) {
        match call_args(c, p + 1) {
            Err(e) => Err(e),
            Ok((args, q)) => Ok((ExprV::Call { name, args, span: merge_spans(span, cur_span(c, q)) }, q)),
        }
    } else if 0 <= p < c.toks.len() && is_tok(c, p + 1, TokenV::LBrace) {
        struct_literal(c, p + 1, name)
    } else {
        Ok((ExprV::Variable(name, span), p + 1))
    }
}

/// `[expr, ..]` at `p`.
pub open spec fn array_literal(c: PCtx, p: int) -> PRes<ExprV>
    decreases c.toks.len() - p, 0int,
{
    if 0 <= p < c.toks.len() {
        let items = if !is_tok(c, p + 1, TokenV::RBracket) {
            expr_list(c, p + 1, Seq::empty())
        } else {
            Ok((Seq::empty(), p + 1))
        };
        match items {
            Err(e) => Err(e),
            Ok((elems, q)) => match expect(c, q, TokenV::RBracket) {
                Err(e) => Err(e),
                Ok(q1) => Ok((ExprV::ArrayLiteral(elems, idx_span(p, q1 - 1)), q1)),
            },
        }
    } else {
        stuck(p)
    }
}

/// `io.input("prompt")`, with `io` at `p`.
pub open spec fn input_expr(c: PCtx, p: int) -> PRes<ExprV> {
    match expect(c, p + 1, TokenV::Dot) {
        Err(e) => Err(e),
        Ok(p2) => match expect(c, p2, TokenV::Input) {
            Err(e) => Err(e),
            Ok(p3) => match expect(c, p3, TokenV::LParen) {
                Err(e) => Err(e),
                Ok(p4) => match tok(c, p4) {
                    Some(TokenV::StringLiteral(s)) => match expect(c, p4 + 1, TokenV::RParen) {
                        Err(e) => Err(e),
                        Ok(p6) => Ok((ExprV::Input(s, idx_span(p, p6 - 1)), p6)),
                    },
                    _ => Err((p4, "Expected prompt string for io.input"@)),
                },
            },
        },
    }
}

/// `str(..)` or `int(..)`: the keyword at `p` used as the name of a call.
pub open spec fn conversion_call(c: PCtx, p: int, name: Seq<char>) -> PRes<ExprV>
    decreases c.toks.len() - p, 0int,
{
    if 0 <= p < c.toks.len() && is_tok(c, p + 1, TokenV::LParen) {
        match call_args(c, p + 1) {
            Err(e) => Err(e),
            Ok((args, q)) => Ok((
                ExprV::Call { name, args, span: merge_spans(cur_span(c, p), cur_span(c, q)) },
                q,
            )),
        }
    } else {
        Err((p + 1, "Expected '(' after '"@ + name + "'"@))
    }
}

/// Indexing, field access and method calls after `e`.
pub open spec fn postfix_rest(c: PCtx, p: int, e: ExprV) -> PRes<ExprV>
    decreases c.toks.len() - p, 0int,
{
    if is_tok(c, p, TokenV::LBracket) {
        match p_expr(c, p + 1) {
            Err(err) => Err(err),
            Ok((idx, q)) => match expect(c, q, TokenV::RBracket) {
                Err(err) => Err(err),
                Ok(q1) => if !moved(c, p, q1) {
                    stuck(q1)
                } else {
                    postfix_rest(
                        c,
                        q1,
                        ExprV::Index {
                            array: Box::new(e),
                            index: Box::new(idx),
                            span: merge_spans(e.span(), idx.span()),
                        },
                    )
                },
            },
        }
    } else if is_tok(c, p, TokenV::Dot) {
        match tok(c, p + 1) {
            Some(TokenV::Identifier(field)) => {
                let q = p + 2;
                let span = merge_spans(e.span(), cur_span(c, q));
                if is_tok(c, q, TokenV::LParen) {
                    match call_args(c, q) {
                        Err(err) => Err(err),
                        Ok((args, q1)) => if !moved(c, p, q1) {
                            stuck(q1)
                        } else {
                            postfix_rest(
                                c,
                                q1,
                                ExprV::MethodCall {
                                    instance: Box::new(e),
                                    method: field,
                                    args,
                                    span: merge_spans(span, cur_span(c, q1)),
                                },
                            )
                        },
                    }
                } else {
                    postfix_rest(c, q, ExprV::FieldAccess { expr: Box::new(e), field, span })
                }
            },
            _ => Err((p + 1, "Expected field name after '.'"@)),
        }
    } else {
        Ok((e, p))
    }
}

pub open spec fn p_postfix(c: PCtx, p: int) -> PRes<ExprV>
    decreases c.toks.len() - p, 2int,
{
    match p_primary(c, p) {
        Err(e) => Err(e),
        Ok((x, q)) => if !moved(c, p, q) {
            stuck(q)
        } else {
            postfix_rest(c, q, x)
        },
    }
}

/// `!` and unary `-`, which nest.
pub open spec fn p_unary(c: PCtx, p: int) -> PRes<ExprV>
    decreases c.toks.len() - p, 3int,
{
    if is_tok(c, p, TokenV::Not) || is_tok(c, p, TokenV::Minus) {
        let op = if is_tok(c, p, TokenV::Not) { UnaryOp::Not } else { UnaryOp::Neg };
        match p_unary(c, p + 1) {
            Err(e) => Err(e),
            Ok((x, q)) => Ok((
                ExprV::Unary { op, expr: Box::new(x), span: merge_spans(cur_span(c, q), x.span()) },
                q,
            )),
        }
    } else {
        p_postfix(c, p)
    }
}

pub open spec fn binary(l: ExprV, op: BinOp, r: ExprV) -> ExprV {
    ExprV::Binary { left: Box::new(l), op, right: Box::new(r), span: merge_spans(l.span(), r.span()) }
}

pub open spec fn mul_op(t: Option<TokenV>) -> Option<BinOp> {
    match t {
        Some(TokenV::Star) => Some(BinOp::Mul),
        Some(TokenV::Slash) => Some(BinOp::Div),
        _ => None,
    }
}

pub open spec fn add_op(t: Option<TokenV>) -> Option<BinOp> {
    match t {
        Some(TokenV::Plus) => Some(BinOp::Add),
        Some(TokenV::Minus) => Some(BinOp::Sub),
        _ => None,
    }
}

pub open spec fn cmp_op(t: Option<TokenV>) -> Option<BinOp> {
    match t {
        Some(TokenV::EqualEqual) => Some(BinOp::Eq),
        Some(TokenV::NotEqual) => Some(BinOp::NotEq),
        Some(TokenV::Less) => Some(BinOp::Less),
        Some(TokenV::Greater) => Some(BinOp::Greater),
        Some(TokenV::LessEqual) => Some(BinOp::LessEq),
        Some(TokenV::GreaterEqual) => Some(BinOp::GreaterEq),
        _ => None,
    }
}

pub open spec fn and_op(t: Option<TokenV>) -> Option<BinOp> {
    match t {
        Some(TokenV::And) => Some(BinOp::And),
        _ => None,
    }
}

pub open spec fn or_op(t: Option<TokenV>) -> Option<BinOp> {
    match t {
        Some(TokenV::Or) => Some(BinOp::Or),
        _ => None,
    }
}

/// The levels of binary operators, from the tightest.
pub enum Level {
    Mul,
    Add,
    Cmp,
    And,
    Or,
}

pub open spec fn level_op(l: Level, t: Option<TokenV>) -> Option<BinOp> {
    match l {
        Level::Mul => mul_op(t),
        Level::Add => add_op(t),
        Level::Cmp => cmp_op(t),
        Level::And => and_op(t),
        Level::Or => or_op(t),
    }
}

pub open spec fn level_rank(l: Level) -> int {
    match l {
        Level::Mul => 5,
        Level::Add => 7,
        Level::Cmp => 9,
        Level::And => 11,
        Level::Or => 13,
    }
}

/// An operand of a level: the next tighter level, or a unary expression.
pub open spec fn p_operand(c: PCtx, p: int, l: Level) -> PRes<ExprV>
    decreases c.toks.len() - p, level_rank(l) - 1,
{
    match l {
        Level::Mul => p_unary(c, p),
        Level::Add => p_level(c, p, Level::Mul),
        Level::Cmp => p_level(c, p, Level::Add),
        Level::And => p_level(c, p, Level::Cmp),
        Level::Or => p_level(c, p, Level::And),
    }
}

/// Operators of level `l` after `left`, grouping to the left.
pub open spec fn level_rest(c: PCtx, p: int, l: Level, left: ExprV) -> PRes<ExprV>
    decreases c.toks.len() - p, 0int,
{
    match level_op(l, tok(c, p)) {
        None => Ok((left, p)),
        Some(op) => match p_operand(c, p + 1, l) {
            Err(e) => Err(e),
            Ok((r, q)) => if !moved(c, p, q) {
                stuck(q)
            } else {
                level_rest(c, q, l, binary(left, op, r))
            },
        },
    }
}

/// An expression at operator level `l`.
pub open spec fn p_level(c: PCtx, p: int, l: Level) -> PRes<ExprV>
    decreases c.toks.len() - p, level_rank(l),
{
    match p_operand(c, p, l) {
        Err(e) => Err(e),
        Ok((x, q)) => if !moved(c, p, q) {
            stuck(q)
        } else {
            level_rest(c, q, l, x)
        },
    }
}

/// `or ["?" expr ":" ternary]`.
pub open spec fn p_ternary(c: PCtx, p: int) -> PRes<ExprV>
    decreases c.toks.len() - p, 14int,
{
    match p_level(c, p, Level::Or) {
        Err(e) => Err(e),
        Ok((cond, q)) => if !moved(c, p, q) {
            stuck(q)
        } else if is_tok(c, q, TokenV::Question) {
            match p_expr(c, q + 1) {
                Err(e) => Err(e),
                Ok((t, q1)) => match expect(c, q1, TokenV::Colon) {
                    Err(e) => Err(e),
                    Ok(q2) => if !moved(c, p, q2) {
                        stuck(q2)
                    } else {
                        match p_ternary(c, q2) {
                            Err(e) => Err(e),
                            Ok((f, q3)) => Ok((
                                ExprV::Ternary {
                                    condition: Box::new(cond),
                                    then_expr: Box::new(t),
                                    else_expr: Box::new(f),
                                    span: merge_spans(cond.span(), f.span()),
                                },
                                q3,
                            )),
                        }
                    },
                },
            }
        } else {
            Ok((cond, q))
        },
    }
}

/// An expression.
pub open spec fn p_expr(c: PCtx, p: int) -> PRes<ExprV>
    decreases c.toks.len() - p, 15int,
{
    p_ternary(c, p)
}


// ---------------------------------------------------------------- types

/// A type: `int`, `double` (each optionally `[n]` or `[]`), `str`, or a struct
/// name. Any other token is taken as `int` without being consumed.
pub open spec fn p_type(c: PCtx, p: int) -> PRes<TypeV> {
    match tok(c, p) {
        Some(TokenV::Int) => array_suffix(c, p + 1, TypeV::Int, TypeV::Array),
        Some(TokenV::Double) => array_suffix(c, p + 1, TypeV::Double, TypeV::DoubleArray),
        Some(TokenV::Str) => Ok((TypeV::Str, p + 1)),
        Some(TokenV::Identifier(name)) => if is_tok(c, p + 1, TokenV::LBracket) {
            Err((p + 1, "Static arrays of structs are not yet supported"@))
        } else {
            Ok((TypeV::Struct(name), p + 1))
        },
        _ => Ok((TypeV::Int, p)),
    }
}

/// An optional `[n]` or `[]` after an element type.
pub open spec fn array_suffix(c: PCtx, p: int, scalar: TypeV, array: TypeV) -> PRes<TypeV> {
    if is_tok(c, p, TokenV::LBracket) {
        let p1 = if tok(c, p + 1) matches Some(TokenV::Number(_)) { p + 2 } else { p + 1 };
        match expect(c, p1, TokenV::RBracket) {
            Err(e) => Err(e),
            Ok(q) => Ok((array, q)),
        }
    } else {
        Ok((scalar, p))
    }
}

// ---------------------------------------------------------------- statements

/// Statements up to a closing `}`, which is consumed.
pub open spec fn block_rest(c: PCtx, p: int, acc: Seq<StmtV>) -> PRes<Seq<StmtV>>
    decreases c.toks.len() - p, 3int,
{
    if !is_tok(c, p, TokenV::RBrace) && tok(c, p) is Some {
        match p_stmt(c, p) {
            Err(e) => Err(e),
            Ok((st, q)) => if !moved(c, p, q) {
                stuck(q)
            } else {
                block_rest(c, q, acc.push(st))
            },
        }
    } else {
        match expect(c, p, TokenV::RBrace) {
            Err(e) => Err(e),
            Ok(q) => Ok((acc, q)),
        }
    }
}

/// The statements of a block whose `{` has been consumed.
pub open spec fn p_block(c: PCtx, p: int) -> PRes<Seq<StmtV>>
    decreases c.toks.len() - p, 4int,
{
    block_rest(c, p, Seq::empty())
}

/// A statement.
pub open spec fn p_stmt(c: PCtx, p: int) -> PRes<StmtV>
    decreases c.toks.len() - p, 2int,
{
    match tok(c, p) {
        Some(TokenV::Let) => p_let(c, p),
        Some(TokenV::If) => p_if(c, p),
        Some(TokenV::While) => p_while(c, p),
        Some(TokenV::For) => p_for(c, p),
        Some(TokenV::Return) => p_return(c, p),
        Some(TokenV::Break) => Ok((StmtV::Break(cur_span(c, p)), p + 1)),
        Some(TokenV::Continue) => Ok((StmtV::Continue(cur_span(c, p)), p + 1)),
        Some(TokenV::Io) => p_io_print(c, p),
        Some(TokenV::Identifier(_)) => p_assign_or_call(c, p),
        _ => Err((p, "Unexpected token at statement start: "@ + opt_token_debug_text(tok(c, p)))),
    }
}

/// `if expr { .. } [else if .. | else { .. }]`.
pub open spec fn p_if(c: PCtx, p: int) -> PRes<StmtV>
    decreases c.toks.len() - p, 1int,
{
    match expect(c, p, TokenV::If) {
        Err(e) => Err(e),
        Ok(p1) => match p_expr(c, p1) {
            Err(e) => Err(e),
            Ok((cond, p2)) => match expect(c, p2, TokenV::LBrace) {
                Err(e) => Err(e),
                Ok(p3) => if !moved(c, p, p3) {
                    stuck(p3)
                } else {
                    match p_block(c, p3) {
                        Err(e) => Err(e),
                        Ok((then_body, p4)) => if !moved(c, p, p4) {
                            stuck(p4)
                        } else if is_tok(c, p4, TokenV::Else) {
                            if is_tok(c, p4 + 1, TokenV::If) {
                                match p_if(c, p4 + 1) {
                                    Err(e) => Err(e),
                                    Ok((s, q)) => Ok((
                                        StmtV::If {
                                            condition: cond,
                                            then_body,
                                            else_body: Some(seq![s]),
                                            span: idx_span(p, q - 1),
                                        },
                                        q,
                                    )),
                                }
                            } else {
                                match expect(c, p4 + 1, TokenV::LBrace) {
                                    Err(e) => Err(e),
                                    Ok(p6) => match p_block(c, p6) {
                                        Err(e) => Err(e),
                                        Ok((else_body, q)) => Ok((
                                            StmtV::If {
                                                condition: cond,
                                                then_body,
                                                else_body: Some(else_body),
                                                span: idx_span(p, q - 1),
                                            },
                                            q,
                                        )),
                                    },
                                }
                            }
                        } else {
                            Ok((
                                StmtV::If {
                                    condition: cond,
                                    then_body,
                                    else_body: None,
                                    span: idx_span(p, p4 - 1),
                                },
                                p4,
                            ))
                        },
                    }
                },
            },
        },
    }
}

/// `while expr { .. }`.
pub open spec fn p_while(c: PCtx, p: int) -> PRes<StmtV>
    decreases c.toks.len() - p, 1int,
{
    match expect(c, p, TokenV::While) {
        Err(e) => Err(e),
        Ok(p1) => match p_expr(c, p1) {
            Err(e) => Err(e),
            Ok((cond, p2)) => match expect(c, p2, TokenV::LBrace) {
                Err(e) => Err(e),
                Ok(p3) => if !moved(c, p, p3) {
                    stuck(p3)
                } else {
                    match p_block(c, p3) {
                        Err(e) => Err(e),
                        Ok((body, q)) => Ok((StmtV::While { condition: cond, body, span: idx_span(p, q - 1) }, q)),
                    }
                },
            },
        },
    }
}

/// `for name = expr, expr, name = expr { .. }`; the name after the second
/// comma is read and not kept.
pub open spec fn p_for(c: PCtx, p: int) -> PRes<StmtV>
    decreases c.toks.len() - p, 1int,
{
    match expect(c, p, TokenV::For) {
        Err(e) => Err(e),
        Ok(p1) => match tok(c, p1) {
            Some(TokenV::Identifier(var_name)) => match expect(c, p1 + 1, TokenV::Equals) {
                Err(e) => Err(e),
                Ok(p3) => match p_expr(c, p3) {
                    Err(e) => Err(e),
                    Ok((start, p4)) => match expect(c, p4, TokenV::Comma) {
                        Err(e) => Err(e),
                        Ok(p5) => match p_expr(c, p5) {
                            Err(e) => Err(e),
                            Ok((cond, p6)) => match expect(c, p6, TokenV::Comma) {
                                Err(e) => Err(e),
                                Ok(p7) => match tok(c, p7) {
                                    Some(TokenV::Identifier(_)) => match expect(c, p7 + 1, TokenV::Equals) {
                                        Err(e) => Err(e),
                                        Ok(p9) => match p_expr(c, p9) {
                                            Err(e) => Err(e),
                                            Ok((step, p10)) => match expect(c, p10, TokenV::LBrace) {
                                                Err(e) => Err(e),
                                                Ok(p11) => if !moved(c, p, p11) {
                                                    stuck(p11)
                                                } else {
                                                    match p_block(c, p11) {
                                                        Err(e) => Err(e),
                                                        Ok((body, q)) => Ok((
                                                            StmtV::For {
                                                                var_name,
                                                                start,
                                                                condition: cond,
                                                                step,
                                                                body,
                                                                span: idx_span(p, q - 1),
                                                            },
                                                            q,
                                                        )),
                                                    }
                                                },
                                            },
                                        },
                                    },
                                    _ => Err((p7, "Expected step variable in for"@)),
                                },
                            },
                        },
                    },
                },
            },
            _ => Err((p1, "Expected loop variable name in 'for'"@)),
        },
    }
}

/// `return expr`.
pub open spec fn p_return(c: PCtx, p: int) -> PRes<StmtV> {
    match expect(c, p, TokenV::Return) {
        Err(e) => Err(e),
        Ok(p1) => match p_expr(c, p1) {
            Err(e) => Err(e),
            Ok((x, q)) => Ok((StmtV::Return(x, idx_span(p, q - 1)), q)),
        },
    }
}

/// `io.print(expr, ..)`.
pub open spec fn p_io_print(c: PCtx, p: int) -> PRes<StmtV> {
    match expect(c, p, TokenV::Io) {
        Err(e) => Err(e),
        Ok(p1) => match expect(c, p1, TokenV::Dot) {
            Err(e) => Err(e),
            Ok(p2) => match expect(c, p2, TokenV::Print) {
                Err(e) => Err(e),
                Ok(p3) => match expect(c, p3, TokenV::LParen) {
                    Err(e) => Err(e),
                    Ok(p4) => {
                        let items = if !is_tok(c, p4, TokenV::RParen) {
                            expr_list(c, p4, Seq::empty())
                        } else {
                            Ok((Seq::empty(), p4))
                        };
                        match items {
                            Err(e) => Err(e),
                            Ok((args, q)) => match expect(c, q, TokenV::RParen) {
                                Err(e) => Err(e),
                                Ok(q1) => Ok((StmtV::IoPrint(args, idx_span(p, q1 - 1)), q1)),
                            },
                        }
                    },
                },
            },
        },
    }
}

/// Parses `= expr` at `p` and builds a `let` with the given name and type.
pub open spec fn let_value(c: PCtx, start: int, p: int, name: Seq<char>, var_type: Option<TypeV>) -> PRes<StmtV> {
    match expect(c, p, TokenV::Equals) {
        Err(e) => Err(e),
        Ok(p1) => match p_expr(c, p1) {
            Err(e) => Err(e),
            Ok((value, q)) => Ok((StmtV::Let { name, var_type, value, span: idx_span(start, q - 1) }, q)),
        },
    }
}

/// `let [type] name = expr`. A leading word followed by another word is a
/// struct type; a word followed by `=` is the name.
pub open spec fn p_let(c: PCtx, p: int) -> PRes<StmtV> {
    match expect(c, p, TokenV::Let) {
        Err(e) => Err(e),
        Ok(p1) => {
            let typed: Result<(Option<TypeV>, int), (int, Seq<char>)> = match tok(c, p1) {
                Some(TokenV::Int) => match array_suffix(c, p1 + 1, TypeV::Int, TypeV::Array) {
                    Err(e) => Err(e),
                    Ok((t, q)) => Ok((Some(t), q)),
                },
                Some(TokenV::Double) => match array_suffix(c, p1 + 1, TypeV::Double, TypeV::DoubleArray) {
                    Err(e) => Err(e),
                    Ok((t, q)) => Ok((Some(t), q)),
                },
                Some(TokenV::Str) => Ok((Some(TypeV::Str), p1 + 1)),
                _ => Ok((None, p1)),
            };
            match tok(c, p1) {
                Some(TokenV::Identifier(name1)) => match tok(c, p1 + 1) {
                    Some(TokenV::Identifier(var_name)) => let_value(c, p, p1 + 2, var_name, Some(TypeV::Struct(name1))),
                    Some(TokenV::Equals) => let_value(c, p, p1 + 1, name1, None),
                    _ => Err((p1, "Expected variable name or type"@)),
                },
                _ => match typed {
                    Err(e) => Err(e),
                    Ok((var_type, q)) => match tok(c, q) {
                        Some(TokenV::Identifier(name)) => let_value(c, p, q + 1, name, var_type),
                        _ => Err((q, "Expected variable name after 'let'"@)),
                    },
                },
            }
        },
    }
}

pub open spec fn compound_op(t: Option<TokenV>) -> Option<BinOp> {
    match t {
        Some(TokenV::PlusEquals) => Some(BinOp::Add),
        Some(TokenV::MinusEquals) => Some(BinOp::Sub),
        Some(TokenV::StarEquals) => Some(BinOp::Mul),
        Some(TokenV::SlashEquals) => Some(BinOp::Div),
        _ => None,
    }
}

/// A statement that starts with a name: `a[i] = e`, `f(..)`, `f(..) =`,
/// `a op= e` or `a = e`.
pub open spec fn p_assign_or_call(c: PCtx, p: int) -> PRes<StmtV> {
    match tok(c, p) {
        Some(TokenV::Identifier(name)) => {
            let p1 = p + 1;
            if is_tok(c, p1, TokenV::LBracket) {
                match p_expr(c, p1 + 1) {
                    Err(e) => Err(e),
                    Ok((index, p3)) => match expect(c, p3, TokenV::RBracket) {
                        Err(e) => Err(e),
                        Ok(p4) => match expect(c, p4, TokenV::Equals) {
                            Err(e) => Err(e),
                            Ok(p5) => match p_expr(c, p5) {
                                Err(e) => Err(e),
                                Ok((value, q)) => Ok((
                                    StmtV::AssignIndex { name, index, value, span: idx_span(p, q - 1) },
                                    q,
                                )),
                            },
                        },
                    },
                }
            } else if is_tok(c, p1, TokenV::LParen) {
                match call_args(c, p1) {
                    Err(e) => Err(e),
                    Ok((args, q)) => if is_tok(c, q, TokenV::Equals) {
                        let value = ExprV::Call { name, args, span: cur_span(c, q + 1) };
                        Ok((StmtV::Assign { name, value, span: idx_span(p, q) }, q + 1))
                    } else {
                        Ok((StmtV::CallStmt { name, args, span: idx_span(p, q - 1) }, q))
                    },
                }
            } else {
                match compound_op(tok(c, p1)) {
                    Some(op) => match p_expr(c, p1 + 1) {
                        Err(e) => Err(e),
                        Ok((rhs, q)) => {
                            let left = ExprV::Variable(name, cur_span(c, q));
                            Ok((
                                StmtV::Assign { name, value: binary(left, op, rhs), span: idx_span(p, q - 1) },
                                q,
                            ))
                        },
                    },
                    None => match expect(c, p1, TokenV::Equals) {
                        Err(e) => Err(e),
                        Ok(p2) => match p_expr(c, p2) {
                            Err(e) => Err(e),
                            Ok((value, q)) => Ok((StmtV::Assign { name, value, span: idx_span(p, q - 1) }, q)),
                        },
                    },
                }
            }
        },
        _ => Err((p, "Expected identifier"@)),
    }
}

// ---------------------------------------------------------------- top level

/// `import "path"`.
pub open spec fn p_import(c: PCtx, p: int) -> PRes<Seq<char>> {
    match expect(c, p, TokenV::Import) {
        Err(e) => Err(e),
        Ok(p1) => match tok(c, p1) {
            Some(TokenV::StringLiteral(path)) => Ok((path, p1 + 1)),
            _ => Err((p1, "Expected string literal after 'import'"@)),
        },
    }
}

/// `let name = expr` at the top level.
pub open spec fn p_constant(c: PCtx, p: int) -> PRes<ConstantV> {
    match expect(c, p, TokenV::Let) {
        Err(e) => Err(e),
        Ok(p1) => match tok(c, p1) {
            Some(TokenV::Identifier(name)) => match expect(c, p1 + 1, TokenV::Equals) {
                Err(e) => Err(e),
                Ok(p3) => match p_expr(c, p3) {
                    Err(e) => Err(e),
                    Ok((value, q)) => Ok((ConstantV { name, value, span: idx_span(p, q - 1) }, q)),
                },
            },
            _ => Err((p1, "Expected constant name after 'let'"@)),
        },
    }
}

/// Fields `type name` up to the closing `}` (not consumed).
pub open spec fn fields_rest(c: PCtx, p: int, acc: Seq<FieldV>) -> PRes<Seq<FieldV>>
    decreases c.toks.len() - p,
{
    if is_tok(c, p, TokenV::RBrace) {
        Ok((acc, p))
    } else {
        match p_type(c, p) {
            Err(e) => Err(e),
            Ok((ty, p1)) => match tok(c, p1) {
                Some(TokenV::Identifier(name)) => if !moved(c, p, p1 + 1) {
                    stuck(p1 + 1)
                } else {
                    fields_rest(c, p1 + 1, acc.push(FieldV { name, field_type: ty, span: cur_span(c, p) }))
                },
                _ => Err((p1, "Expected field name"@)),
            },
        }
    }
}

/// `struct Name { type name .. }`.
pub open spec fn p_struct_def(c: PCtx, p: int) -> PRes<StructDefV> {
    match expect(c, p, TokenV::Struct) {
        Err(e) => Err(e),
        Ok(p1) => match tok(c, p1) {
            Some(TokenV::Identifier(name)) => match expect(c, p1 + 1, TokenV::LBrace) {
                Err(e) => Err(e),
                Ok(p3) => match fields_rest(c, p3, Seq::empty()) {
                    Err(e) => Err(e),
                    Ok((fields, q)) => match expect(c, q, TokenV::RBrace) {
                        Err(e) => Err(e),
                        Ok(q1) => Ok((StructDefV { name, fields, span: idx_span(p, q1 - 1) }, q1)),
                    },
                },
            },
            _ => Err((p1, "Expected struct name"@)),
        },
    }
}

/// Parameters `type name` separated by commas.
pub open spec fn params_rest(c: PCtx, p: int, acc: Seq<ParamV>) -> PRes<Seq<ParamV>>
    decreases c.toks.len() - p,
{
    match p_type(c, p) {
        Err(e) => Err(e),
        Ok((ty, p1)) => match tok(c, p1) {
            Some(TokenV::Identifier(name)) => {
                let acc2 = acc.push(ParamV { name, param_type: ty, span: cur_span(c, p) });
                if !moved(c, p, p1 + 1) {
                    stuck(p1 + 1)
                } else if is_tok(c, p1 + 1, TokenV::Comma) {
                    params_rest(c, p1 + 2, acc2)
                } else {
                    Ok((acc2, p1 + 1))
                }
            },
            _ => Err((p1, "Expected parameter name"@)),
        },
    }
}

/// The head of a function: `Struct.method`, `Type name` or `name`, giving
/// the struct name, the return type, the name and the next index.
pub open spec fn function_head(c: PCtx, p1: int) -> Result<(Option<Seq<char>>, TypeV, Seq<char>, int), (int, Seq<char>)> {
    match tok(c, p1) {
        Some(TokenV::Identifier(first)) => if is_tok(c, p1 + 1, TokenV::Dot) {
            match tok(c, p1 + 2) {
                Some(TokenV::Identifier(m)) => Ok((Some(first), TypeV::Int, m, p1 + 3)),
                _ => Err((p1 + 2, "Expected method name after '.'"@)),
            }
        } else {
            match tok(c, p1 + 1) {
                Some(TokenV::Identifier(name)) => Ok((None, TypeV::Struct(first), name, p1 + 2)),
                _ => Ok((None, TypeV::Int, first, p1 + 1)),
            }
        },
        _ => Err((p1, "Expected function name or struct name"@)),
    }
}

/// `fn head(params) [-> type] { body }`.
pub open spec fn p_function(c: PCtx, p: int) -> PRes<FunctionV> {
    match expect(c, p, TokenV::Fn) {
        Err(e) => Err(e),
        Ok(p1) => match function_head(c, p1) {
            Err(e) => Err(e),
            Ok((struct_name, head_type, name, p2)) => match expect(c, p2, TokenV::LParen) {
                Err(e) => Err(e),
                Ok(p3) => {
                    let ps = if !is_tok(c, p3, TokenV::RParen) {
                        params_rest(c, p3, Seq::empty())
                    } else {
                        Ok((Seq::empty(), p3))
                    };
                    match ps {
                        Err(e) => Err(e),
                        Ok((params, p4)) => match expect(c, p4, TokenV::RParen) {
                            Err(e) => Err(e),
                            Ok(p5) => {
                                let rt = if is_tok(c, p5, TokenV::Arrow) {
                                    p_type(c, p5 + 1)
                                } else {
                                    Ok((head_type, p5))
                                };
                                match rt {
                                    Err(e) => Err(e),
                                    Ok((return_type, p6)) => match expect(c, p6, TokenV::LBrace) {
                                        Err(e) => Err(e),
                                        Ok(p7) => match p_block(c, p7) {
                                            Err(e) => Err(e),
                                            Ok((body, q)) => Ok((
                                                FunctionV {
                                                    name,
                                                    struct_name,
                                                    params,
                                                    return_type,
                                                    body,
                                                    span: idx_span(p, q - 1),
                                                },
                                                q,
                                            )),
                                        },
                                    },
                                }
                            },
                        },
                    }
                },
            },
        },
    }
}

/// One top-level item at `p`, added to `acc`.
#[verifier::opaque]
pub open spec fn program_item(c: PCtx, p: int, acc: ProgramV) -> PRes<ProgramV> {
    match tok(c, p) {
        Some(TokenV::Import) => match p_import(c, p) {
            Err(e) => Err(e),
            Ok((path, q)) => Ok((ProgramV { imports: acc.imports.push(path), ..acc }, q)),
        },
        Some(TokenV::Struct) => match p_struct_def(c, p) {
            Err(e) => Err(e),
            Ok((s, q)) => Ok((ProgramV { structs: acc.structs.push(s), ..acc }, q)),
        },
        Some(TokenV::Fn) => match p_function(c, p) {
            Err(e) => Err(e),
            Ok((f, q)) => Ok((ProgramV { functions: acc.functions.push(f), ..acc }, q)),
        },
        Some(TokenV::Let) => match p_constant(c, p) {
            Err(e) => Err(e),
            Ok((k, q)) => Ok((ProgramV { constants: acc.constants.push(k), ..acc }, q)),
        },
        _ => Err((p, "Unexpected top-level token: "@ + opt_token_debug_text(tok(c, p)))),
    }
}

/// Top-level items until the tokens run out.
pub open spec fn program_rest(c: PCtx, p: int, acc: ProgramV) -> PRes<ProgramV>
    decreases c.toks.len() - p,
{
    if p < 0 || p >= c.toks.len() {
        Ok((acc, p))
    } else {
        match program_item(c, p, acc) {
            Err(e) => Err(e),
            Ok((acc2, q)) => if !moved(c, p, q) {
                stuck(q)
            } else {
                program_rest(c, q, acc2)
            },
        }
    }
}

pub open spec fn empty_program() -> ProgramV {
    ProgramV { imports: Seq::empty(), structs: Seq::empty(), constants: Seq::empty(), functions: Seq::empty() }
}

/// A whole program, from token `p` on.
pub open spec fn p_program(c: PCtx, p: int) -> PRes<ProgramV> {
    program_rest(c, p, empty_program())
}

proof fn lemma_program_rest_end(c: PCtx, p: int, acc: ProgramV)
    requires
        0 <= p <= c.toks.len(),
    ensures
        program_rest(c, p, acc) matches Ok((_, q)) ==> q == c.toks.len(),
    decreases c.toks.len() - p,
{
    if p < c.toks.len() {
        match program_item(c, p, acc) {
            Err(_) => {},
            Ok((acc2, q)) => {
                if moved(c, p, q) {
                    lemma_program_rest_end(c, q, acc2);
                }
            },
        }
    }
}

/// A program that parses has been read to its last token.
pub proof fn parse_reads_all_tokens(c: PCtx)
    ensures
        p_program(c, 0) matches Ok((_, q)) ==> q == c.toks.len(),
{
    lemma_program_rest_end(c, 0, empty_program());
}

} // verus!
