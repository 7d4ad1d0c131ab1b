use vstd::prelude::*;
use crate::ast::{Type, TypeV, BinOp, UnaryOp, Expr, ExprV, Function, FunctionV, view_exprs, lemma_view_exprs};
use crate::scope::{Scope, FrameV};
use crate::typing::{infer, functions_view, infer_type, is_word};
use crate::text::{int_text, double_display, push_i32, push_decimal_literal};

verus! {

/// Why code generation stopped: a message for the user, or an argument list
/// too short for the argument that a call reads (the generator would index
/// past its end).
pub enum Fault {
    Msg(Seq<char>),
    OutOfBounds,
}

/// Generated text, or the text written before generation stopped together
/// with why it stopped.
pub type GRes = Result<Seq<char>, (Seq<char>, Fault)>;

pub open spec fn fail<T>(m: Seq<char>) -> Result<T, Fault> {
    Err(Fault::Msg(m))
}

/// Generation stopped before writing anything.
pub open spec fn stop<T>(f: Fault) -> Result<T, (Seq<char>, Fault)> {
    Err((Seq::empty(), f))
}

/// Generation stopped with a message before writing anything.
pub open spec fn halt<T>(m: Seq<char>) -> Result<T, (Seq<char>, Fault)> {
    Err((Seq::empty(), Fault::Msg(m)))
}

/// `g`, with `p` written before it.
pub open spec fn after(p: Seq<char>, g: GRes) -> GRes {
    match g {
        Ok(t) => Ok(p + t),
        Err((w, f)) => Err((p + w, f)),
    }
}

/// Type inference, with its message as a generation fault.
pub open spec fn infer_g(e: ExprV, sc: Seq<FrameV>, fs: Seq<FunctionV>, expected: Option<TypeV>) -> Result<TypeV, Fault> {
    match infer(e, sc, fs, expected) {
        Ok(t) => Ok(t),
        Err(m) => fail(m),
    }
}

/// The variable an expression names.
pub open spec fn var_name(e: ExprV) -> Result<Seq<char>, Fault> {
    match e {
        ExprV::Variable(name, _) => Ok(name),
        _ => fail("Expected a variable name"@),
    }
}

pub open spec fn op_text(op: BinOp) -> Seq<char> {
    match op {
        BinOp::Add => " + "@,
        BinOp::Sub => " - "@,
        BinOp::Mul => " * "@,
        BinOp::Div => " / "@,
        BinOp::Eq => " == "@,
        BinOp::NotEq => " != "@,
        BinOp::Less => " < "@,
        BinOp::Greater => " > "@,
        BinOp::LessEq => " <= "@,
        BinOp::GreaterEq => " >= "@,
        BinOp::And => " && "@,
        BinOp::Or => " || "@,
    }
}

/// The C name of a program function.
pub open spec fn c_name(name: Seq<char>) -> Seq<char> {
    if name == "main"@ { "side_main"@ } else { "side_"@ + name }
}

pub open spec fn is_array(t: TypeV) -> bool {
    t == TypeV::Array || t == TypeV::DoubleArray
}

/// The separator written before the last of `n` list items.
pub open spec fn list_sep(n: nat) -> Seq<char> {
    if n <= 1 { Seq::empty() } else { ", "@ }
}

/// Expressions in C, separated by `", "`.
pub open spec fn gen_list(es: Seq<ExprV>, sc: Seq<FrameV>) -> GRes
    decreases es, 0int,
{
    if es.len() == 0 {
        Ok(Seq::empty())
    } else {
        match gen_list(es.drop_last(), sc) {
            Err(e) => Err(e),
            Ok(t) => after(t + list_sep(es.len()), gen_expr(es.last(), sc)),
        }
    }
}

/// `g` written between `open` and `close`.
pub open spec fn wrapped(open: Seq<char>, g: GRes, close: Seq<char>) -> GRes {
    match g {
        Ok(t) => Ok(open + t + close),
        Err((w, f)) => Err((open + w, f)),
    }
}

/// A call of `len`: the size variable of an array, or `strlen` of a string.
pub open spec fn gen_len(args: Seq<ExprV>, sc: Seq<FrameV>) -> GRes
    decreases args, 0int,
{
    if args.len() != 1 {
        halt("len requires 1 argument"@)
    } else {
        match infer_g(args[0], sc, Seq::empty(), None) {
            Err(f) => stop(f),
            Ok(tp) => if is_array(tp) {
                match var_name(args[0]) {
                    Err(f) => stop(f),
                    Ok(a) => Ok(a + "_size"@),
                }
            } else if tp == TypeV::Str {
                wrapped("strlen("@, gen_expr(args[0], sc), ")"@)
            } else {
                halt("len argument must be array or string"@)
            },
        }
    }
}

/// A call expression. A call of `int` with no argument stops after `atoi(`.
pub open spec fn gen_call(name: Seq<char>, args: Seq<ExprV>, sc: Seq<FrameV>) -> GRes
    decreases args, 1int,
{
    if name == "len"@ {
        gen_len(args, sc)
    } else if name == "time"@ {
        Ok("side_time()"@)
    } else if name == "sqrt"@ || name == "pow"@ || name == "fabs"@ || name == "rand"@ {
        wrapped(name + "("@, gen_list(args, sc), ")"@)
    } else if name == "str"@ {
        if args.len() != 1 {
            halt("str() requires 1 argument"@)
        } else {
            match infer_g(args[0], sc, Seq::empty(), None) {
                Err(f) => stop(f),
                Ok(tp) => wrapped(
                    if tp == TypeV::Double { "side_str_double("@ } else { "side_str("@ },
                    gen_expr(args[0], sc),
                    ")"@,
                ),
            }
        }
    } else if name == "int"@ {
        if args.len() == 0 {
            Err(("atoi("@, Fault::OutOfBounds))
        } else {
            wrapped("atoi("@, gen_expr(args[0], sc), ")"@)
        }
    } else {
        wrapped(c_name(name) + "("@, gen_list(args, sc), ")"@)
    }
}

/// An expression in C. Arithmetic and comparisons are fully parenthesized.
pub open spec fn gen_expr(e: ExprV, sc: Seq<FrameV>) -> GRes
    decreases e, 2int,
{
    match e {
        ExprV::Number(n, _) => Ok(int_text(n as int)),
        ExprV::DoubleLiteral(d, _) => Ok(double_display(d)),
        ExprV::StringLiteral(s, _) => Ok("\""@ + s + "\""@),
        ExprV::Variable(name, _) => Ok(name),
        ExprV::Input(prompt, _) => Ok("side_input(\""@ + prompt + "\")"@),
        ExprV::Call { name, args, .. } => gen_call(name, args, sc),
        ExprV::MethodCall { .. } => halt("Method calls are not supported"@),
        ExprV::StructLiteral { name, fields, .. } => wrapped("(side_"@ + name + "){"@, gen_list(fields, sc), "}"@),
        ExprV::ArrayLiteral(elements, _) => wrapped("{"@, gen_list(elements, sc), "}"@),
        ExprV::Index { array, index, .. } => match gen_expr(*array, sc) {
            Err(e) => Err(e),
            Ok(a) => wrapped(a + "["@, gen_expr(*index, sc), "]"@),
        },
        ExprV::FieldAccess { expr, field, .. } => match gen_expr(*expr, sc) {
            Err(e) => Err(e),
            Ok(t) => Ok(t + "."@ + field),
        },
        ExprV::Binary { left, op, right, .. } => match gen_expr(*left, sc) {
            Err((w, f)) => Err(("("@ + w, f)),
            Ok(l) => wrapped("("@ + l + op_text(op), gen_expr(*right, sc), ")"@),
        },
        ExprV::Unary { op, expr, .. } => wrapped(
            if op == UnaryOp::Not { "!("@ } else { "-("@ },
            gen_expr(*expr, sc),
            ")"@,
        ),
        ExprV::Ternary { condition, then_expr, else_expr, .. } => match gen_expr(*condition, sc) {
            Err((w, f)) => Err(("("@ + w, f)),
            Ok(c) => match gen_expr(*then_expr, sc) {
                Err((w, f)) => Err(("("@ + c + " ? "@ + w, f)),
                Ok(t) => wrapped("("@ + c + " ? "@ + t + " : "@, gen_expr(*else_expr, sc), ")"@),
            },
        },
    }
}

/// Why code generation stopped.
#[derive(Debug, PartialEq)]
pub enum CodegenError {
    /// A message for the user.
    Message(String),
    /// A call with fewer arguments than the generator reads.
    IndexOutOfBounds,
}

impl View for CodegenError {
    type V = Fault;

    open spec fn view(&self) -> Fault {
        match self {
            CodegenError::Message(m) => Fault::Msg(m@),
            CodegenError::IndexOutOfBounds => Fault::OutOfBounds,
        }
    }
}

/// Whether an exec result matches a spec result: on success the text is
/// appended to `before`; on a stop, the text written before it is.
pub open spec fn emitted(r: Result<(), CodegenError>, before: Seq<char>, now: Seq<char>, g: GRes) -> bool {
    match g {
        Ok(t) => r is Ok && now == before + t,
        Err((w, f)) => r matches Err(e) && e@ == f && now == before + w,
    }
}

/// Generation only ever appends: the text there before stays at the start of
/// the output, whether generation succeeds or stops.
pub proof fn generation_keeps_earlier_text(r: Result<(), CodegenError>, before: Seq<char>, now: Seq<char>, g: GRes)
    requires
        emitted(r, before, now, g),
    ensures
        before.len() <= now.len(),
        now.take(before.len() as int) == before,
{
    match g {
        Ok(t) => assert(now.take(before.len() as int) =~= before),
        Err((w, f)) => assert(now.take(before.len() as int) =~= before),
    }
}

fn message(m: &str) -> (e: CodegenError)
    ensures
        e@ == Fault::Msg(m@),
{
    CodegenError::Message(String::from_str(m))
}

/// A result generated after `p` was written is the result of `after(p, g)`.
pub proof fn lemma_after(r: Result<(), CodegenError>, before: Seq<char>, p: Seq<char>, now: Seq<char>, g: GRes)
    requires
        emitted(r, before + p, now, g),
    ensures
        emitted(r, before, now, after(p, g)),
{
    match g {
        Ok(t) => assert(now =~= before + (p + t)),
        Err((w, f)) => assert(now =~= before + (p + w)),
    }
}

/// A result generated after `open` was written, and followed by `close` on
/// success, is the result of `wrapped(open, g, close)`.
pub proof fn lemma_wrapped(r: Result<(), CodegenError>, before: Seq<char>, open: Seq<char>, now: Seq<char>, g: GRes, close: Seq<char>)
    requires
        emitted(r, before + open, now, g),
    ensures
        r is Err ==> emitted(r, before, now, wrapped(open, g, close)),
        r is Ok ==> emitted(r, before, now + close, wrapped(open, g, close)),
{
    match g {
        Ok(t) => assert(now + close =~= before + (open + t + close)),
        Err((w, f)) => assert(now =~= before + (open + w)),
    }
}

proof fn lemma_gen_list_prefix_err(es: Seq<ExprV>, k: int, sc: Seq<FrameV>)
    requires
        0 <= k <= es.len(),
        gen_list(es.take(k), sc) is Err,
    ensures
        gen_list(es, sc) == gen_list(es.take(k), sc),
    decreases es.len(),
{
    if es.len() > k {
        assert(es.drop_last().take(k) =~= es.take(k));
        lemma_gen_list_prefix_err(es.drop_last(), k, sc);
    } else {
        assert(es.take(k) =~= es);
    }
}

/// Appends the expressions, separated by `", "`.
pub(crate) fn emit_list(es: &Vec<Expr>, out: &mut String, scope: &Scope) -> (r: Result<(), CodegenError>)
    ensures
        emitted(r, old(out)@, final(out)@, gen_list(view_exprs(es@), scope@)),
    decreases es, 0int,
{
    let ghost vs = view_exprs(es@);
    let ghost base = out@;
    proof {
        lemma_view_exprs(es@);
        assert(vs.take(0) =~= Seq::<ExprV>::empty());
        assert(base + Seq::<char>::empty() =~= base);
    }
    let mut i: usize = 0;
    while i < es.len()
        invariant
            i <= es.len(),
            vs == view_exprs(es@),
            vs.len() == es@.len(),
            base == old(out)@,
            forall|j: int| 0 <= j < es@.len() ==> #[trigger] vs[j] == es@[j]@,
            gen_list(vs.take(i as int), scope@) matches Ok(t) && out@ == base + t,
        decreases es.len() - i,
    {
        let ghost t = gen_list(vs.take(i as int), scope@)->Ok_0;
        proof {
            assert(vs.take(i + 1).drop_last() =~= vs.take(i as int));
            assert(vs.take(i + 1).last() == es@[i as int]@);
        }
        if i > 0 {
            out.append(", ");
        }
        assert(out@ =~= base + (t + list_sep((i + 1) as nat)));
        let r = generate_expr(&es[i], out, scope);
        proof { lemma_after(r, base, t + list_sep((i + 1) as nat), out@, gen_expr(es@[i as int]@, scope@)); }
        match r {
            Ok(()) => {},
            Err(e) => {
                proof { lemma_gen_list_prefix_err(vs, i + 1, scope@); }
                return Err(e);
            },
        }
        i = i + 1;
    }
    proof { assert(vs.take(es.len() as int) =~= vs); }
    Ok(())
}

/// Appends a call expression.
fn emit_call(name: &String, args: &Vec<Expr>, out: &mut String, scope: &Scope) -> (r: Result<(), CodegenError>)
    ensures
        emitted(r, old(out)@, final(out)@, gen_call(name@, view_exprs(args@), scope@)),
    decreases args, 1int,
{
    proof { lemma_view_exprs(args@); }
    let ghost base = out@;
    let no_functions: Vec<Function> = Vec::new();
    assert(functions_view(no_functions@) =~= Seq::<FunctionV>::empty());
    assert(base + Seq::<char>::empty() =~= base);
    if is_word(name, "len") {
        if args.len() != 1 {
            return Err(message("len requires 1 argument"));
        }
        let tp = match infer_type(&args[0], scope, no_functions.as_slice(), None) {
            Ok(t) => t,
            Err(m) => return Err(CodegenError::Message(m)),
        };
        match tp {
            Type::Array | Type::DoubleArray => match &args[0] {
                Expr::Variable(a, _) => {
                    out.append(a.as_str());
                    out.append("_size");
                    assert(out@ =~= base + (a@ + "_size"@));
                    Ok(())
                },
                _ => Err(message("Expected a variable name")),
            },
            Type::Str => {
                out.append("strlen(");
                let r = generate_expr(&args[0], out, scope);
                proof { lemma_wrapped(r, base, "strlen("@, out@, gen_expr(args@[0]@, scope@), ")"@); }
                r?;
                out.append(")");
                Ok(())
            },
            _ => Err(message("len argument must be array or string")),
        }
    } else if is_word(name, "time") {
        out.append("side_time()");
        Ok(())
    } else if is_word(name, "sqrt") || is_word(name, "pow") || is_word(name, "fabs") || is_word(name, "rand") {
        let mut open = name.clone();
        open.append("(");
        out.append(open.as_str());
        let r = emit_list(args, out, scope);
        proof { lemma_wrapped(r, base, open@, out@, gen_list(view_exprs(args@), scope@), ")"@); }
        r?;
        out.append(")");
        Ok(())
    } else if is_word(name, "str") {
        if args.len() != 1 {
            return Err(message("str() requires 1 argument"));
        }
        let tp = match infer_type(&args[0], scope, no_functions.as_slice(), None) {
            Ok(t) => t,
            Err(m) => return Err(CodegenError::Message(m)),
        };
        let open: &str = match tp {
            Type::Double => "side_str_double(",
            _ => "side_str(",
        };
        assert(open@ == (if tp@ == TypeV::Double { "side_str_double("@ } else { "side_str("@ }));
        out.append(open);
        let r = generate_expr(&args[0], out, scope);
        proof { lemma_wrapped(r, base, open@, out@, gen_expr(args@[0]@, scope@), ")"@); }
        r?;
        out.append(")");
        Ok(())
    } else if is_word(name, "int") {
        out.append("atoi(");
        if args.len() == 0 {
            return Err(CodegenError::IndexOutOfBounds);
        }
        let r = generate_expr(&args[0], out, scope);
        proof { lemma_wrapped(r, base, "atoi("@, out@, gen_expr(args@[0]@, scope@), ")"@); }
        r?;
        out.append(")");
        Ok(())
    } else {
        let mut open = if is_word(name, "main") {
            String::from_str("side_main")
        } else {
            let mut s = String::from_str("side_");
            s.append(name.as_str());
            s
        };
        open.append("(");
        assert(open@ =~= c_name(name@) + "("@);
        out.append(open.as_str());
        let r = emit_list(args, out, scope);
        proof { lemma_wrapped(r, base, open@, out@, gen_list(view_exprs(args@), scope@), ")"@); }
        r?;
        out.append(")");
        Ok(())
    }
}

/// Appends an expression in C (see `gen_expr`). On a stop, the text written
/// before it stays appended.
pub fn generate_expr(expr: &Expr, out: &mut String, scope: &Scope) -> (r: Result<(), CodegenError>)
    ensures
        emitted(r, old(out)@, final(out)@, gen_expr(expr@, scope@)),
    decreases expr, 2int,
{
    let ghost base = out@;
    assert(base + Seq::<char>::empty() =~= base);
    match expr {
        Expr::Number(n, _) => {
            push_i32(out, *n);
            Ok(())
        },
        Expr::DoubleLiteral(d, _) => {
            push_decimal_literal(out, d, false);
            Ok(())
        },
        Expr::StringLiteral(t, _) => {
            out.append("\"");
            out.append(t.as_str());
            out.append("\"");
            assert(out@ =~= base + ("\""@ + t@ + "\""@));
            Ok(())
        },
        Expr::Variable(name, _) => {
            out.append(name.as_str());
            Ok(())
        },
        Expr::Input(prompt, _) => {
            out.append("side_input(\"");
            out.append(prompt.as_str());
            out.append("\")");
            assert(out@ =~= base + ("side_input(\""@ + prompt@ + "\")"@));
            Ok(())
        },
        Expr::Call { name, args, .. } => emit_call(name, args, out, scope),
        Expr::MethodCall { .. } => Err(message("Method calls are not supported")),
        Expr::StructLiteral { name, fields, .. } => {
            let mut open = String::from_str("(side_");
            open.append(name.as_str());
            open.append("){");
            out.append(open.as_str());
            let r = emit_list(fields, out, scope);
            proof { lemma_wrapped(r, base, open@, out@, gen_list(view_exprs(fields@), scope@), "}"@); }
            r?;
            out.append("}");
            Ok(())
        },
        Expr::ArrayLiteral(elements, _) => {
            out.append("{");
            let r = emit_list(elements, out, scope);
            proof { lemma_wrapped(r, base, "{"@, out@, gen_list(view_exprs(elements@), scope@), "}"@); }
            r?;
            out.append("}");
            Ok(())
        },
        Expr::Index { array, index, .. } => {
            generate_expr(array, out, scope)?;
            let ghost a = gen_expr((**array)@, scope@)->Ok_0;
            out.append("[");
            assert(out@ =~= base + (a + "["@));
            let r = generate_expr(index, out, scope);
            proof { lemma_wrapped(r, base, a + "["@, out@, gen_expr((**index)@, scope@), "]"@); }
            r?;
            out.append("]");
            Ok(())
        },
        Expr::FieldAccess { expr, field, .. } => {
            generate_expr(expr, out, scope)?;
            let ghost t = gen_expr((**expr)@, scope@)->Ok_0;
            out.append(".");
            out.append(field.as_str());
            assert(out@ =~= base + (t + "."@ + field@));
            Ok(())
        },
        Expr::Binary { left, op, right, .. } => {
            out.append("(");
            let r = generate_expr(left, out, scope);
            proof { lemma_after(r, base, "("@, out@, gen_expr((**left)@, scope@)); }
            r?;
            let ghost l = gen_expr((**left)@, scope@)->Ok_0;
            out.append(op_str(*op));
            assert(out@ =~= base + ("("@ + l + op_text(*op)));
            let r = generate_expr(right, out, scope);
            proof { lemma_wrapped(r, base, "("@ + l + op_text(*op), out@, gen_expr((**right)@, scope@), ")"@); }
            r?;
            out.append(")");
            Ok(())
        },
        Expr::Unary { op, expr, .. } => {
            let open: &str = match op {
                UnaryOp::Not => "!(",
                UnaryOp::Neg => "-(",
            };
            assert(open@ == (if *op == UnaryOp::Not { "!("@ } else { "-("@ }));
            out.append(open);
            let r = generate_expr(expr, out, scope);
            proof { lemma_wrapped(r, base, open@, out@, gen_expr((**expr)@, scope@), ")"@); }
            r?;
            out.append(")");
            Ok(())
        },
        Expr::Ternary { condition, then_expr, else_expr, .. } => {
            out.append("(");
            let r = generate_expr(condition, out, scope);
            proof { lemma_after(r, base, "("@, out@, gen_expr((**condition)@, scope@)); }
            r?;
            let ghost c = gen_expr((**condition)@, scope@)->Ok_0;
            out.append(" ? ");
            assert(out@ =~= base + ("("@ + c + " ? "@));
            let r = generate_expr(then_expr, out, scope);
            proof { lemma_after(r, base, "("@ + c + " ? "@, out@, gen_expr((**then_expr)@, scope@)); }
            r?;
            let ghost t = gen_expr((**then_expr)@, scope@)->Ok_0;
            out.append(" : ");
            assert(out@ =~= base + ("("@ + c + " ? "@ + t + " : "@));
            let r = generate_expr(else_expr, out, scope);
            proof { lemma_wrapped(r, base, "("@ + c + " ? "@ + t + " : "@, out@, gen_expr((**else_expr)@, scope@), ")"@); }
            r?;
            out.append(")");
            Ok(())
        },
    }
}

/// The C text of a binary operator, with its surrounding spaces.
fn op_str(op: BinOp) -> (s: &'static str)
    ensures
        s@ == op_text(op),
{
    match op {
        BinOp::Add => " + ",
        BinOp::Sub => " - ",
        BinOp::Mul => " * ",
        BinOp::Div => " / ",
        BinOp::Eq => " == ",
        BinOp::NotEq => " != ",
        BinOp::Less => " < ",
        BinOp::Greater => " > ",
        BinOp::LessEq => " <= ",
        BinOp::GreaterEq => " >= ",
        BinOp::And => " && ",
        BinOp::Or => " || ",
    }
}

/// Type inference, with its message as a generation error (see `infer_g`).
pub fn infer_c(expr: &Expr, scope: &Scope, functions: &[Function], expected: Option<&Type>) -> (r: Result<Type, CodegenError>)
    ensures
        match infer_g(expr@, scope@, functions_view(functions@), match expected { Some(t) => Some(t@), None => None }) {
            Ok(t) => r matches Ok(x) && x@ == t,
            Err(f) => r matches Err(e) && e@ == f,
        },
{
    match infer_type(expr, scope, functions, expected) {
        Ok(t) => Ok(t),
        Err(m) => Err(CodegenError::Message(m)),
    }
}

} // verus!
