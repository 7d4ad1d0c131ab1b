use vstd::prelude::*;
use crate::ast::{Type, TypeV, Expr, ExprV, Stmt, StmtV, ParamV, Function, FunctionV, view_exprs, lemma_view_exprs, view_opt_type, view_stmts, lemma_view_stmts};
use crate::scope::{Scope, FrameV, scope_get, scope_declare, scope_push};
use crate::typing::{compatible, c_type, type_debug, find_function, infer, functions_view, find_function_index, type_debug_text, is_word, type_compatible, type_to_c};
use crate::text::{nat_text, push_usize};
use crate::emit::{Fault, GRes, fail, stop, halt, after, wrapped, lemma_after, lemma_wrapped, infer_g, var_name, c_name, is_array, gen_list, gen_expr, CodegenError, infer_c, emitted, generate_expr, emit_list};

verus! {

/// Whether a type is a number.
pub open spec fn is_numeric(t: TypeV) -> bool {
    t == TypeV::Int || t == TypeV::Double
}

/// Checks arguments against parameters, in order: the first argument whose
/// type does not fit its parameter is reported.
pub open spec fn check_args(name: Seq<char>, params: Seq<ParamV>, args: Seq<ExprV>, sc: Seq<FrameV>, fs: Seq<FunctionV>) -> Result<(), Fault>
    recommends
        params.len() == args.len(),
    decreases args.len(),
{
    if args.len() == 0 || params.len() != args.len() {
        Ok(())
    } else {
        match check_args(name, params.drop_last(), args.drop_last(), sc, fs) {
            Err(f) => Err(f),
            Ok(()) => {
                let p = params.last();
                match infer_g(args.last(), sc, fs, Some(p.param_type)) {
                    Err(f) => Err(f),
                    Ok(actual) => if compatible(p.param_type, actual) {
                        Ok(())
                    } else {
                        fail(
                            "Argument type mismatch in '"@ + name + "': parameter '"@ + p.name + "' expects "@
                                + type_debug(p.param_type) + ", got "@ + type_debug(actual),
                        )
                    },
                }
            },
        }
    }
}

/// The checks made before a call statement is emitted.
pub open spec fn check_call(name: Seq<char>, args: Seq<ExprV>, fs: Seq<FunctionV>, sc: Seq<FrameV>) -> Result<(), Fault> {
    if name == "push"@ || name == "pop"@ {
        if args.len() == 0 {
            Err(Fault::OutOfBounds)
        } else {
            match var_name(args[0]) {
                Err(f) => Err(f),
                Ok(arr) => match scope_get(sc, arr) {
                    None => fail("Variable '"@ + arr + "' not found"@),
                    Some(tp) => if !is_array(tp) {
                        fail("First argument of '"@ + name + "' must be an array"@)
                    } else if name == "push"@ && args.len() != 2 {
                        fail("push requires 2 arguments"@)
                    } else if name == "pop"@ && args.len() != 1 {
                        fail("pop requires 1 argument"@)
                    } else if name == "push"@ {
                        let expected = if tp == TypeV::Array { TypeV::Int } else { TypeV::Double };
                        match infer_g(args[1], sc, fs, Some(expected)) {
                            Err(f) => Err(f),
                            Ok(elem) => if compatible(expected, elem) {
                                Ok(())
                            } else {
                                fail(
                                    "push: expected "@ + (if tp == TypeV::Array { "int"@ } else { "double"@ })
                                        + " element, got "@ + type_debug(elem),
                                )
                            },
                        }
                    } else {
                        Ok(())
                    },
                },
            }
        }
    } else if name == "len"@ {
        if args.len() != 1 {
            fail("len requires 1 argument"@)
        } else {
            match infer_g(args[0], sc, fs, None) {
                Err(f) => Err(f),
                Ok(tp) => if is_array(tp) || tp == TypeV::Str {
                    Ok(())
                } else {
                    fail("len argument must be array or string"@)
                },
            }
        }
    } else if name == "time"@ || name == "rand"@ {
        if args.len() != 0 {
            fail("'"@ + name + "' takes no arguments"@)
        } else {
            Ok(())
        }
    } else if name == "sqrt"@ || name == "fabs"@ {
        if args.len() != 1 {
            fail("'"@ + name + "' requires 1 argument"@)
        } else {
            match infer_g(args[0], sc, fs, None) {
                Err(f) => Err(f),
                Ok(tp) => if is_numeric(tp) {
                    Ok(())
                } else {
                    fail("'"@ + name + "' argument must be numeric"@)
                },
            }
        }
    } else if name == "pow"@ {
        if args.len() != 2 {
            fail("pow requires 2 arguments"@)
        } else {
            match infer_g(args[0], sc, fs, None) {
                Err(f) => Err(f),
                Ok(t0) => if !is_numeric(t0) {
                    fail("pow arguments must be numeric"@)
                } else {
                    match infer_g(args[1], sc, fs, None) {
                        Err(f) => Err(f),
                        Ok(t1) => if is_numeric(t1) {
                            Ok(())
                        } else {
                            fail("pow arguments must be numeric"@)
                        },
                    }
                },
            }
        }
    } else if name == "str"@ || name == "int"@ {
        if args.len() != 1 {
            fail("'"@ + name + "' requires 1 argument"@)
        } else {
            Ok(())
        }
    } else {
        match find_function(fs, name) {
            None => fail("Function '"@ + name + "' not defined"@),
            Some(f) => if f.params.len() != args.len() {
                fail(
                    "Function '"@ + name + "' expects "@ + nat_text(f.params.len()) + " arguments, got "@
                        + nat_text(args.len()),
                )
            } else {
                check_args(name, f.params, args, sc, fs)
            },
        }
    }
}

/// A statement's text and the scope after it; or, where generation stopped,
/// the text written before it, the scope at that point and why it stopped.
pub type SRes = Result<(Seq<char>, Seq<FrameV>), (Seq<char>, Seq<FrameV>, Fault)>;

/// A generated text as a statement result that leaves the scope `sc`.
pub open spec fn in_scope(g: GRes, sc: Seq<FrameV>) -> SRes {
    match g {
        Ok(t) => Ok((t, sc)),
        Err((w, f)) => Err((w, sc, f)),
    }
}

/// The `printf` conversion for a value of type `t`.
pub open spec fn print_format(t: TypeV) -> Seq<char> {
    match t {
        TypeV::Double => "%f"@,
        TypeV::Str => "%s"@,
        _ => "%d"@,
    }
}

/// One `printf` line per argument of a print statement. An argument whose
/// type cannot be inferred stops generation after the lines before it.
pub open spec fn gen_prints(args: Seq<ExprV>, pad: Seq<char>, sc: Seq<FrameV>, fs: Seq<FunctionV>) -> GRes
    decreases args.len(),
{
    if args.len() == 0 {
        Ok(Seq::empty())
    } else {
        match gen_prints(args.drop_last(), pad, sc, fs) {
            Err(e) => Err(e),
            Ok(t) => match infer_g(args.last(), sc, fs, None) {
                Err(f) => Err((t, f)),
                Ok(tp) => wrapped(t + pad + "printf(\""@ + print_format(tp) + "\", "@, gen_expr(args.last(), sc), ");\n"@),
            },
        }
    }
}

/// The C element type of an array type.
pub open spec fn elem_c_type(t: TypeV) -> Seq<char> {
    if t == TypeV::DoubleArray { "double"@ } else { "int"@ }
}

/// The runtime function that builds an array of type `t`.
pub open spec fn create_func(t: TypeV) -> Seq<char> {
    if t == TypeV::DoubleArray { "side_arr_create_double"@ } else { "side_arr_create"@ }
}

/// The opening of the block that fills an array variable.
pub open spec fn array_init_head(t: TypeV, pad: Seq<char>) -> Seq<char> {
    pad + "{\n"@ + pad + "    "@ + elem_c_type(t) + " _arr_vals[] = {"@
}

/// The rest of that block, once the `n` values are written.
pub open spec fn array_init_tail(name: Seq<char>, t: TypeV, n: nat, pad: Seq<char>) -> Seq<char> {
    "};\n"@
        + pad + "    "@ + name + " = "@ + create_func(t) + "("@ + nat_text(n) + ", _arr_vals);\n"@
        + pad + "    "@ + name + "_size = "@ + nat_text(n) + ";\n"@
        + pad + "    "@ + name + "_cap = "@ + nat_text(n) + ";\n"@
        + pad + "}\n"@
}

/// The block that fills a new array variable from a non-empty literal.
pub open spec fn array_init(name: Seq<char>, elems: Seq<ExprV>, t: TypeV, pad: Seq<char>, sc: Seq<FrameV>) -> GRes {
    if elems.len() == 0 {
        Ok(Seq::empty())
    } else {
        wrapped(array_init_head(t, pad), gen_list(elems, sc), array_init_tail(name, t, elems.len(), pad))
    }
}

/// The pointer, size and capacity variables of an array variable.
pub open spec fn array_decl(name: Seq<char>, t: TypeV, pad: Seq<char>) -> Seq<char> {
    pad + elem_c_type(t) + "* "@ + name + " = NULL;\n"@
        + pad + "int "@ + name + "_size = 0;\n"@
        + pad + "int "@ + name + "_cap = 0;\n"@
}

/// The declaration of a variable of type `t`. An array variable becomes a
/// pointer with a size and a capacity; an array literal fills it.
pub open spec fn decl_text(name: Seq<char>, t: TypeV, value: ExprV, pad: Seq<char>, sc: Seq<FrameV>) -> GRes {
    if is_array(t) {
        match value {
            ExprV::ArrayLiteral(elems, _) => after(array_decl(name, t, pad), array_init(name, elems, t, pad, sc)),
            _ => Ok(array_decl(name, t, pad)),
        }
    } else {
        wrapped(pad + c_type(t) + " "@ + name + " = "@, gen_expr(value, sc), ";\n"@)
    }
}

/// A `let` statement: the declared type, when given, must accept the value's
/// type. The variable is bound once its declaration is written.
pub open spec fn gen_let(name: Seq<char>, var_type: Option<TypeV>, value: ExprV, pad: Seq<char>, sc: Seq<FrameV>, fs: Seq<FunctionV>) -> SRes {
    match infer_g(value, sc, fs, var_type) {
        Err(f) => Err((Seq::empty(), sc, f)),
        Ok(actual) => {
            let final_type = match var_type {
                Some(dt) => dt,
                None => actual,
            };
            if var_type is Some && !compatible(final_type, actual) {
                Err((
                    Seq::empty(),
                    sc,
                    Fault::Msg("Type mismatch: cannot assign "@ + type_debug(actual) + " to variable '"@ + name
                        + "' of type "@ + type_debug(final_type)),
                ))
            } else {
                match decl_text(name, final_type, value, pad, sc) {
                    Err((w, f)) => Err((w, sc, f)),
                    Ok(t) => Ok((t, scope_declare(sc, name, final_type))),
                }
            }
        },
    }
}

/// The array, size and capacity arguments of a runtime array call, opened.
pub open spec fn array_refs_text(arr: Seq<char>) -> Seq<char> {
    "(&"@ + arr + ", &"@ + arr + "_size, &"@ + arr + "_cap"@
}

/// A call statement, once its checks have passed.
pub open spec fn gen_call_stmt(name: Seq<char>, args: Seq<ExprV>, pad: Seq<char>, sc: Seq<FrameV>) -> GRes {
    if name == "push"@ || name == "pop"@ {
        match var_name(args[0]) {
            Err(f) => stop(f),
            Ok(arr) => match scope_get(sc, arr) {
                None => halt("Variable '"@ + arr + "' not found"@),
                Some(at) => if !is_array(at) {
                    if name == "push"@ {
                        halt("First argument of push must be an array"@)
                    } else {
                        halt("First argument of pop must be an array"@)
                    }
                } else {
                    let suffix = if at == TypeV::Array { ""@ } else { "_double"@ };
                    if name == "push"@ {
                        wrapped(pad + "side_arr_push"@ + suffix + array_refs_text(arr) + ", "@, gen_expr(args[1], sc), ");\n"@)
                    } else {
                        Ok(pad + "side_arr_pop"@ + suffix + array_refs_text(arr) + ");\n"@)
                    }
                },
            },
        }
    } else {
        wrapped(pad + c_name(name) + "("@, gen_list(args, sc), ");\n"@)
    }
}

/// Statements in C, each at the given indentation. Declarations extend the
/// innermost frame of the scope; nested blocks get frames of their own.
pub open spec fn gen_stmts(ss: Seq<StmtV>, pad: Seq<char>, sc: Seq<FrameV>, fs: Seq<FunctionV>, ret: TypeV) -> SRes
    decreases ss, 0int,
{
    if ss.len() == 0 {
        Ok((Seq::empty(), sc))
    } else {
        match gen_stmts(ss.drop_last(), pad, sc, fs, ret) {
            Err(e) => Err(e),
            Ok((t, sc1)) => match gen_stmt(ss.last(), pad, sc1, fs, ret) {
                Err((w, sc2, f)) => Err((t + w, sc2, f)),
                Ok((u, sc2)) => Ok((t + u, sc2)),
            },
        }
    }
}

/// The text of a nested block, whose declarations end with it.
pub open spec fn gen_block(ss: Seq<StmtV>, pad: Seq<char>, sc: Seq<FrameV>, fs: Seq<FunctionV>, ret: TypeV) -> GRes
    decreases ss, 1int,
{
    match gen_stmts(ss, pad + "    "@, scope_push(sc), fs, ret) {
        Err((w, _, f)) => Err((w, f)),
        Ok((t, _)) => Ok(t),
    }
}

/// An assignment to a variable.
pub open spec fn gen_assign(name: Seq<char>, value: ExprV, pad: Seq<char>, sc: Seq<FrameV>, fs: Seq<FunctionV>) -> GRes {
    match scope_get(sc, name) {
        None => halt("Variable '"@ + name + "' not declared in this scope"@),
        Some(vt) => match infer_g(value, sc, fs, Some(vt)) {
            Err(f) => stop(f),
            Ok(actual) => if !compatible(vt, actual) {
                halt("Type mismatch: cannot assign "@ + type_debug(actual) + " to variable '"@ + name
                    + "' of type "@ + type_debug(vt))
            } else {
                wrapped(pad + name + " = "@, gen_expr(value, sc), ";\n"@)
            },
        },
    }
}

/// An assignment to an array element.
pub open spec fn gen_assign_index(name: Seq<char>, index: ExprV, value: ExprV, pad: Seq<char>, sc: Seq<FrameV>, fs: Seq<FunctionV>) -> GRes {
    match scope_get(sc, name) {
        None => halt("Variable '"@ + name + "' not declared"@),
        Some(vt) => if !is_array(vt) {
            halt("Indexing non-array"@)
        } else {
            let elem = if vt == TypeV::Array { TypeV::Int } else { TypeV::Double };
            match infer_g(value, sc, fs, Some(elem)) {
                Err(f) => stop(f),
                Ok(actual) => if !compatible(elem, actual) {
                    halt("Type mismatch: cannot assign "@ + type_debug(actual) + " to element of "@ + type_debug(vt))
                } else {
                    match gen_expr(index, sc) {
                        Err((w, f)) => Err((pad + name + "["@ + w, f)),
                        Ok(i) => wrapped(pad + name + "["@ + i + "] = "@, gen_expr(value, sc), ";\n"@),
                    }
                },
            }
        },
    }
}

/// A return statement; the value must fit the function's return type `ret`.
pub open spec fn gen_return(e: ExprV, pad: Seq<char>, sc: Seq<FrameV>, fs: Seq<FunctionV>, ret: TypeV) -> GRes {
    match infer_g(e, sc, fs, Some(ret)) {
        Err(f) => stop(f),
        Ok(actual) => if !compatible(ret, actual) {
            halt("Return type mismatch: expected "@ + type_debug(ret) + ", got "@ + type_debug(actual))
        } else {
            wrapped(pad + "return "@, gen_expr(e, sc), ";\n"@)
        },
    }
}

/// An `if` statement (`s`); each branch is a block of its own.
pub open spec fn gen_if(s: StmtV, pad: Seq<char>, sc: Seq<FrameV>, fs: Seq<FunctionV>, ret: TypeV) -> GRes
    decreases s, 1int,
{
    match s {
        StmtV::If { condition, then_body, else_body, .. } => match gen_expr(condition, sc) {
            Err((w, f)) => Err((pad + "if ("@ + w, f)),
            Ok(c) => {
                let open = pad + "if ("@ + c + ") {\n"@;
                match gen_block(then_body, pad, sc, fs, ret) {
                    Err((w, f)) => Err((open + w, f)),
                    Ok(tb) => {
                        let head = open + tb + pad + "}\n"@;
                        match else_body {
                            None => Ok(head),
                            Some(eb) => after(head, wrapped(pad + "else {\n"@, gen_block(eb, pad, sc, fs, ret), pad + "}\n"@)),
                        }
                    },
                }
            },
        },
        _ => Ok(Seq::empty()),
    }
}

/// A `while` loop (`s`); its body is a block of its own.
pub open spec fn gen_while(s: StmtV, pad: Seq<char>, sc: Seq<FrameV>, fs: Seq<FunctionV>, ret: TypeV) -> GRes
    decreases s, 1int,
{
    match s {
        StmtV::While { condition, body, .. } => match gen_expr(condition, sc) {
            Err((w, f)) => Err((pad + "while ("@ + w, f)),
            Ok(c) => wrapped(pad + "while ("@ + c + ") {\n"@, gen_block(body, pad, sc, fs, ret), pad + "}\n"@),
        },
        _ => Ok(Seq::empty()),
    }
}

/// The loop of a `for` statement, from its `while` on, in the scope `fsc`
/// that holds the loop variable.
pub open spec fn gen_for_loop(var_name: Seq<char>, condition: ExprV, step: ExprV, body: Seq<StmtV>, pad: Seq<char>, fsc: Seq<FrameV>, fs: Seq<FunctionV>, ret: TypeV) -> GRes
    decreases body, 2int,
{
    let p1 = pad + "    while ("@;
    match gen_expr(condition, fsc) {
        Err((w, f)) => Err((p1 + w, f)),
        Ok(c) => {
            let p2 = p1 + c + ") {\n"@;
            match gen_block(body, pad + "    "@, fsc, fs, ret) {
                Err((w, f)) => Err((p2 + w, f)),
                Ok(b) => wrapped(
                    p2 + b + pad + "        "@ + var_name + " = "@,
                    gen_expr(step, fsc),
                    ";\n"@ + pad + "    }\n"@ + pad + "}\n"@,
                ),
            }
        },
    }
}

/// A `for` loop (`s`): a block that declares the loop variable and holds a
/// `while` loop whose body ends with the step.
pub open spec fn gen_for(s: StmtV, pad: Seq<char>, sc: Seq<FrameV>, fs: Seq<FunctionV>, ret: TypeV) -> GRes
    decreases s, 1int,
{
    match s {
        StmtV::For { var_name, start, condition, step, body, .. } => match infer_g(start, sc, fs, None) {
            Err(f) => stop(f),
            Ok(st) => {
                let p0 = pad + "{\n"@ + pad + "    "@ + c_type(st) + " "@ + var_name + " = "@;
                match gen_expr(start, sc) {
                    Err((w, f)) => Err((p0 + w, f)),
                    Ok(s0) => after(
                        p0 + s0 + ";\n"@,
                        gen_for_loop(var_name, condition, step, body, pad, scope_declare(scope_push(sc), var_name, st), fs, ret),
                    ),
                }
            },
        },
        _ => Ok(Seq::empty()),
    }
}

/// One statement in C. `ret` is the return type of the enclosing function.
/// Only a `let` changes the scope, and only once it is written.
pub open spec fn gen_stmt(s: StmtV, pad: Seq<char>, sc: Seq<FrameV>, fs: Seq<FunctionV>, ret: TypeV) -> SRes
    decreases s, 2int,
{
    match s {
        StmtV::Let { name, var_type, value, .. } => gen_let(name, var_type, value, pad, sc, fs),
        StmtV::Assign { name, value, .. } => in_scope(gen_assign(name, value, pad, sc, fs), sc),
        StmtV::AssignIndex { name, index, value, .. } => in_scope(gen_assign_index(name, index, value, pad, sc, fs), sc),
        StmtV::IoPrint(args, _) => in_scope(
            match gen_prints(args, pad, sc, fs) {
                Err(e) => Err(e),
                Ok(t) => Ok(t + pad + "printf(\"\\n\");\n"@),
            },
            sc,
        ),
        StmtV::If { .. } => in_scope(gen_if(s, pad, sc, fs, ret), sc),
        StmtV::While { .. } => in_scope(gen_while(s, pad, sc, fs, ret), sc),
        StmtV::For { .. } => in_scope(gen_for(s, pad, sc, fs, ret), sc),
        StmtV::Return(e, _) => in_scope(gen_return(e, pad, sc, fs, ret), sc),
        StmtV::Break(_) => Ok((pad + "break;\n"@, sc)),
        StmtV::Continue(_) => Ok((pad + "continue;\n"@, sc)),
        StmtV::CallStmt { name, args, .. } => match check_call(name, args, fs, sc) {
            Err(f) => Err((Seq::empty(), sc, f)),
            Ok(()) => in_scope(gen_call_stmt(name, args, pad, sc), sc),
        },
    }
}

/// Whether an exec check result matches a spec check result.
pub open spec fn checked(r: Result<(), CodegenError>, g: Result<(), Fault>) -> bool {
    match g {
        Ok(()) => r is Ok,
        Err(f) => r matches Err(e) && e@ == f,
    }
}

fn msg(m: String) -> (e: CodegenError)
    ensures
        e@ == Fault::Msg(m@),
{
    CodegenError::Message(m)
}

/// A failure at a prefix of the arguments is the failure of the whole check.
proof fn lemma_check_args_prefix_err(name: Seq<char>, params: Seq<ParamV>, args: Seq<ExprV>, k: int, sc: Seq<FrameV>, fs: Seq<FunctionV>)
    requires
        0 <= k <= args.len(),
        params.len() == args.len(),
        check_args(name, params.take(k), args.take(k), sc, fs) is Err,
    ensures
        check_args(name, params, args, sc, fs) == check_args(name, params.take(k), args.take(k), sc, fs),
    decreases args.len(),
{
    if args.len() > k {
        assert(args.drop_last().take(k) =~= args.take(k));
        assert(params.drop_last().take(k) =~= params.take(k));
        lemma_check_args_prefix_err(name, params.drop_last(), args.drop_last(), k, sc, fs);
    } else {
        assert(args.take(k) =~= args);
        assert(params.take(k) =~= params);
    }
}

/// Checks each argument of a call of `f` against its parameter.
fn check_arguments(name: &String, f: &Function, args: &Vec<Expr>, functions: &[Function], scope: &Scope) -> (r: Result<(), CodegenError>)
    requires
        f.params@.len() == args@.len(),
    ensures
        checked(r, check_args(name@, f@.params, view_exprs(args@), scope@, functions_view(functions@))),
{
    let ghost ps = f@.params;
    let ghost es = view_exprs(args@);
    let ghost fs = functions_view(functions@);
    proof {
        lemma_view_exprs(args@);
        assert(ps.take(0).len() == 0);
    }
    let mut i: usize = 0;
    while i < args.len()
        invariant
            i <= args.len(),
            ps == f@.params,
            es == view_exprs(args@),
            fs == functions_view(functions@),
            f.params@.len() == args@.len(),
            es.len() == args@.len(),
            forall|j: int| 0 <= j < args@.len() ==> #[trigger] es[j] == args@[j]@,
            check_args(name@, ps.take(i as int), es.take(i as int), scope@, fs) is Ok,
        decreases args.len() - i,
    {
        let p = &f.params[i];
        proof {
            assert(ps.take(i + 1).drop_last() =~= ps.take(i as int));
            assert(es.take(i + 1).drop_last() =~= es.take(i as int));
            assert(ps.take(i + 1).last() == p@);
            assert(es.take(i + 1).last() == args@[i as int]@);
        }
        let actual = match infer_c(&args[i], scope, functions, Some(&p.param_type)) {
            Ok(t) => t,
            Err(e) => {
                proof { lemma_check_args_prefix_err(name@, ps, es, i + 1, scope@, fs); }
                return Err(e);
            },
        };
        if !crate::typing::type_compatible(&p.param_type, &actual) {
            let mut m = String::from_str("Argument type mismatch in '");
            m.append(name.as_str());
            m.append("': parameter '");
            m.append(p.name.as_str());
            m.append("' expects ");
            m.append(type_debug_text(&p.param_type).as_str());
            m.append(", got ");
            m.append(type_debug_text(&actual).as_str());
            proof { lemma_check_args_prefix_err(name@, ps, es, i + 1, scope@, fs); }
            assert(m@ =~= "Argument type mismatch in '"@ + name@ + "': parameter '"@ + p.name@ + "' expects "@
                + type_debug(p.param_type@) + ", got "@ + type_debug(actual@));
            return Err(msg(m));
        }
        i = i + 1;
    }
    proof {
        assert(ps.take(args.len() as int) =~= ps);
        assert(es.take(args.len() as int) =~= es);
    }
    Ok(())
}

/// The name of the variable an expression is.
pub fn extract_var_name(expr: &Expr) -> (r: Result<&String, CodegenError>)
    ensures
        match var_name(expr@) {
            Ok(n) => r matches Ok(x) && x@ == n,
            Err(f) => r matches Err(e) && e@ == f,
        },
{
    match expr {
        Expr::Variable(name, _) => Ok(name),
        _ => Err(CodegenError::Message(String::from_str("Expected a variable name"))),
    }
}

fn is_array_type(t: &Type) -> (b: bool)
    ensures
        b == is_array(t@),
{
    match t {
        Type::Array | Type::DoubleArray => true,
        _ => false,
    }
}

fn is_numeric_type(t: &Type) -> (b: bool)
    ensures
        b == is_numeric(t@),
{
    match t {
        Type::Int | Type::Double => true,
        _ => false,
    }
}

/// `'name'` followed by `rest`, as a message.
fn quoted_message(name: &String, rest: &str) -> (e: CodegenError)
    ensures
        e@ == Fault::Msg("'"@ + name@ + rest@),
{
    let mut m = String::from_str("'");
    m.append(name.as_str());
    m.append(rest);
    CodegenError::Message(m)
}

/// The checks made before a call statement is emitted (see `check_call`).
pub fn check_function_call(name: &String, args: &Vec<Expr>, functions: &[Function], scope: &Scope) -> (r: Result<(), CodegenError>)
    ensures
        checked(r, check_call(name@, view_exprs(args@), functions_view(functions@), scope@)),
{
    proof { lemma_view_exprs(args@); }
    if is_word(name, "push") || is_word(name, "pop") {
        if args.len() == 0 {
            return Err(CodegenError::IndexOutOfBounds);
        }
        let arr_name = extract_var_name(&args[0])?;
        let tp = match scope.get(arr_name.as_str()) {
            Some(t) => t,
            None => {
                let mut m = String::from_str("Variable '");
                m.append(arr_name.as_str());
                m.append("' not found");
                return Err(msg(m));
            },
        };
        if !is_array_type(&tp) {
            let mut m = String::from_str("First argument of '");
            m.append(name.as_str());
            m.append("' must be an array");
            return Err(msg(m));
        }
        if is_word(name, "push") && args.len() != 2 {
            return Err(CodegenError::Message(String::from_str("push requires 2 arguments")));
        }
        if is_word(name, "pop") && args.len() != 1 {
            return Err(CodegenError::Message(String::from_str("pop requires 1 argument")));
        }
        if is_word(name, "push") {
            let int_elems = match tp {
                Type::Array => true,
                _ => false,
            };
            let expected = if int_elems { Type::Int } else { Type::Double };
            let elem = infer_c(&args[1], scope, functions, Some(&expected))?;
            if !crate::typing::type_compatible(&expected, &elem) {
                let mut m = String::from_str("push: expected ");
                m.append(if int_elems { "int" } else { "double" });
                m.append(" element, got ");
                m.append(type_debug_text(&elem).as_str());
                return Err(msg(m));
            }
        }
        Ok(())
    } else if is_word(name, "len") {
        if args.len() != 1 {
            return Err(CodegenError::Message(String::from_str("len requires 1 argument")));
        }
        let tp = infer_c(&args[0], scope, functions, None)?;
        let fits = match tp {
            Type::Array | Type::DoubleArray | Type::Str => true,
            _ => false,
        };
        if !fits {
            return Err(CodegenError::Message(String::from_str("len argument must be array or string")));
        }
        Ok(())
    } else if is_word(name, "time") || is_word(name, "rand") {
        if args.len() != 0 {
            return Err(quoted_message(name, "' takes no arguments"));
        }
        Ok(())
    } else if is_word(name, "sqrt") || is_word(name, "fabs") {
        if args.len() != 1 {
            return Err(quoted_message(name, "' requires 1 argument"));
        }
        let tp = infer_c(&args[0], scope, functions, None)?;
        if !is_numeric_type(&tp) {
            return Err(quoted_message(name, "' argument must be numeric"));
        }
        Ok(())
    } else if is_word(name, "pow") {
        if args.len() != 2 {
            return Err(CodegenError::Message(String::from_str("pow requires 2 arguments")));
        }
        let t0 = infer_c(&args[0], scope, functions, None)?;
        if !is_numeric_type(&t0) {
            return Err(CodegenError::Message(String::from_str("pow arguments must be numeric")));
        }
        let t1 = infer_c(&args[1], scope, functions, None)?;
        if !is_numeric_type(&t1) {
            return Err(CodegenError::Message(String::from_str("pow arguments must be numeric")));
        }
        Ok(())
    } else if is_word(name, "str") || is_word(name, "int") {
        if args.len() != 1 {
            return Err(quoted_message(name, "' requires 1 argument"));
        }
        Ok(())
    } else {
        match find_function_index(functions, name) {
            None => {
                let mut m = String::from_str("Function '");
                m.append(name.as_str());
                m.append("' not defined");
                Err(msg(m))
            },
            Some(i) => {
                let f = &functions[i];
                if f.params.len() != args.len() {
                    let mut m = String::from_str("Function '");
                    m.append(name.as_str());
                    m.append("' expects ");
                    push_usize(&mut m, f.params.len());
                    m.append(" arguments, got ");
                    push_usize(&mut m, args.len());
                    assert(m@ =~= "Function '"@ + name@ + "' expects "@ + nat_text(f@.params.len()) + " arguments, got "@
                        + nat_text(view_exprs(args@).len()));
                    return Err(msg(m));
                }
                check_arguments(name, f, args, functions, scope)
            },
        }
    }
}

/// Whether an exec statement result matches a spec one: the text appended to
/// `before` and the scope, after the statement or where it stopped.
pub open spec fn stmt_emitted(r: Result<(), CodegenError>, before: Seq<char>, now: Seq<char>, sc: Seq<FrameV>, g: SRes) -> bool {
    match g {
        Ok((t, sc2)) => r is Ok && now == before + t && sc == sc2,
        Err((w, sc2, f)) => r matches Err(e) && e@ == f && now == before + w && sc == sc2,
    }
}

proof fn lemma_gen_prints_prefix_err(args: Seq<ExprV>, k: int, pad: Seq<char>, sc: Seq<FrameV>, fs: Seq<FunctionV>)
    requires
        0 <= k <= args.len(),
        gen_prints(args.take(k), pad, sc, fs) is Err,
    ensures
        gen_prints(args, pad, sc, fs) == gen_prints(args.take(k), pad, sc, fs),
    decreases args.len(),
{
    if args.len() > k {
        assert(args.drop_last().take(k) =~= args.take(k));
        lemma_gen_prints_prefix_err(args.drop_last(), k, pad, sc, fs);
    } else {
        assert(args.take(k) =~= args);
    }
}

/// Appends one `printf` line per argument.
#[verifier::spinoff_prover]
fn emit_prints(args: &Vec<Expr>, out: &mut String, pad: &String, scope: &Scope, functions: &[Function]) -> (r: Result<(), CodegenError>)
    ensures
        emitted(r, old(out)@, final(out)@, gen_prints(view_exprs(args@), pad@, scope@, functions_view(functions@))),
{
    let ghost es = view_exprs(args@);
    let ghost fs = functions_view(functions@);
    let ghost base = out@;
    proof {
        lemma_view_exprs(args@);
        assert(es.take(0) =~= Seq::<ExprV>::empty());
        assert(base + Seq::<char>::empty() =~= base);
    }
    let mut i: usize = 0;
    while i < args.len()
        invariant
            i <= args.len(),
            es == view_exprs(args@),
            fs == functions_view(functions@),
            base == old(out)@,
            es.len() == args@.len(),
            forall|j: int| 0 <= j < args@.len() ==> #[trigger] es[j] == args@[j]@,
            gen_prints(es.take(i as int), pad@, scope@, fs) matches Ok(t) && out@ == base + t,
        decreases args.len() - i,
    {
        let ghost t = gen_prints(es.take(i as int), pad@, scope@, fs)->Ok_0;
        proof {
            assert(es.take(i + 1).drop_last() =~= es.take(i as int));
            assert(es.take(i + 1).last() == args@[i as int]@);
        }
        let tp = match infer_c(&args[i], scope, functions, None) {
            Ok(t) => t,
            Err(e) => {
                proof { lemma_gen_prints_prefix_err(es, i + 1, pad@, scope@, fs); }
                return Err(e);
            },
        };
        let fmt: &str = match tp {
            Type::Double => "%f",
            Type::Str => "%s",
            _ => "%d",
        };
        assert(fmt@ == print_format(tp@));
        let mut h = pad.clone();
        h.append("printf(\"");
        h.append(fmt);
        h.append("\", ");
        out.append(h.as_str());
        let ghost open = t + pad@ + "printf(\""@ + print_format(tp@) + "\", "@;
        assert(out@ =~= base + open);
        let r = generate_expr(&args[i], out, scope);
        proof { lemma_wrapped(r, base, open, out@, gen_expr(args@[i as int]@, scope@), ");\n"@); }
        match r {
            Ok(()) => {},
            Err(e) => {
                proof { lemma_gen_prints_prefix_err(es, i + 1, pad@, scope@, fs); }
                return Err(e);
            },
        }
        out.append(");\n");
        i = i + 1;
    }
    proof { assert(es.take(args.len() as int) =~= es); }
    Ok(())
}

/// The opening of the block that fills an array variable.
fn array_init_head_str(ty: &Type, pad: &String) -> (s: String)
    ensures
        s@ == array_init_head(ty@, pad@),
{
    let elem: &str = match ty {
        Type::DoubleArray => "double",
        _ => "int",
    };
    assert(elem@ == elem_c_type(ty@));
    let mut s = pad.clone();
    s.append("{\n");
    s.append(pad.as_str());
    s.append("    ");
    s.append(elem);
    s.append(" _arr_vals[] = {");
    s
}

/// The rest of that block, once the `n` values are written.
fn array_init_tail_str(name: &String, ty: &Type, n: usize, pad: &String) -> (s: String)
    ensures
        s@ == array_init_tail(name@, ty@, n as nat, pad@),
{
    let create: &str = match ty {
        Type::DoubleArray => "side_arr_create_double",
        _ => "side_arr_create",
    };
    assert(create@ == create_func(ty@));
    let mut s = String::from_str("};\n");
    s.append(pad.as_str());
    s.append("    ");
    s.append(name.as_str());
    s.append(" = ");
    s.append(create);
    s.append("(");
    push_usize(&mut s, n);
    s.append(", _arr_vals);\n");
    s.append(pad.as_str());
    s.append("    ");
    s.append(name.as_str());
    s.append("_size = ");
    push_usize(&mut s, n);
    s.append(";\n");
    s.append(pad.as_str());
    s.append("    ");
    s.append(name.as_str());
    s.append("_cap = ");
    push_usize(&mut s, n);
    s.append(";\n");
    s.append(pad.as_str());
    s.append("}\n");
    s
}

/// Appends the block that fills a new array variable from its literal (see `array_init`).
fn emit_array_init(name: &String, elems: &Vec<Expr>, ty: &Type, out: &mut String, pad: &String, scope: &Scope) -> (r: Result<(), CodegenError>)
    ensures
        emitted(r, old(out)@, final(out)@, array_init(name@, view_exprs(elems@), ty@, pad@, scope@)),
{
    proof { lemma_view_exprs(elems@); }
    let ghost base = out@;
    if elems.len() == 0 {
        assert(base + Seq::<char>::empty() =~= base);
        return Ok(());
    }
    let head = array_init_head_str(ty, pad);
    out.append(head.as_str());
    let r = emit_list(elems, out, scope);
    let tail = array_init_tail_str(name, ty, elems.len(), pad);
    proof { lemma_wrapped(r, base, head@, out@, gen_list(view_exprs(elems@), scope@), tail@); }
    r?;
    out.append(tail.as_str());
    Ok(())
}

/// The pointer, size and capacity variables of an array variable.
fn array_decl_str(name: &String, ty: &Type, pad: &String) -> (s: String)
    ensures
        s@ == array_decl(name@, ty@, pad@),
{
    let elem: &str = match ty {
        Type::DoubleArray => "double",
        _ => "int",
    };
    assert(elem@ == elem_c_type(ty@));
    let mut s = pad.clone();
    s.append(elem);
    s.append("* ");
    s.append(name.as_str());
    s.append(" = NULL;\n");
    s.append(pad.as_str());
    s.append("int ");
    s.append(name.as_str());
    s.append("_size = 0;\n");
    s.append(pad.as_str());
    s.append("int ");
    s.append(name.as_str());
    s.append("_cap = 0;\n");
    s
}

/// Appends the declaration of a variable of the given type (see `decl_text`).
#[verifier::spinoff_prover]
fn emit_decl(name: &String, final_type: &Type, value: &Expr, out: &mut String, pad: &String, scope: &Scope) -> (r: Result<(), CodegenError>)
    ensures
        emitted(r, old(out)@, final(out)@, decl_text(name@, final_type@, value@, pad@, scope@)),
{
    let ghost base = out@;
    if is_array_type(final_type) {
        let d = array_decl_str(name, final_type, pad);
        out.append(d.as_str());
        match value {
            Expr::ArrayLiteral(elems, _) => {
                let r = emit_array_init(name, elems, final_type, out, pad, scope);
                proof { lemma_after(r, base, d@, out@, array_init(name@, view_exprs(elems@), final_type@, pad@, scope@)); }
                r
            },
            _ => Ok(()),
        }
    } else {
        let mut h = pad.clone();
        h.append(type_to_c(final_type).as_str());
        h.append(" ");
        h.append(name.as_str());
        h.append(" = ");
        out.append(h.as_str());
        let r = generate_expr(value, out, scope);
        proof { lemma_wrapped(r, base, h@, out@, gen_expr(value@, scope@), ";\n"@); }
        r?;
        out.append(";\n");
        Ok(())
    }
}

/// Appends a variable declaration and binds the variable (see `gen_let`).
#[verifier::spinoff_prover]
fn emit_let(name: &String, var_type: &Option<Type>, value: &Expr, out: &mut String, pad: &String, scope: &mut Scope, functions: &[Function]) -> (r: Result<(), CodegenError>)
    ensures
        stmt_emitted(r, old(out)@, final(out)@, final(scope)@, gen_let(name@, view_opt_type(*var_type), value@, pad@, old(scope)@, functions_view(functions@))),
{
    assert(old(out)@ + Seq::<char>::empty() =~= old(out)@);
    let expected: Option<&Type> = match var_type {
        Some(t) => Some(t),
        None => None,
    };
    let actual = infer_c(value, scope, functions, expected)?;
    let final_type: Type = match var_type {
        Some(dt) => {
            if !type_compatible(dt, &actual) {
                let mut m = String::from_str("Type mismatch: cannot assign ");
                m.append(type_debug_text(&actual).as_str());
                m.append(" to variable '");
                m.append(name.as_str());
                m.append("' of type ");
                m.append(type_debug_text(dt).as_str());
                return Err(msg(m));
            }
            dt.duplicate()
        },
        None => actual,
    };
    emit_decl(name, &final_type, value, out, pad, scope)?;
    scope.declare(name.as_str(), final_type);
    Ok(())
}

/// The C name of a program function.
fn c_function_name(name: &String) -> (s: String)
    ensures
        s@ == c_name(name@),
{
    if is_word(name, "main") {
        String::from_str("side_main")
    } else {
        let mut s = String::from_str("side_");
        s.append(name.as_str());
        s
    }
}

/// The array, size and capacity arguments of a runtime array call, opened.
fn array_refs(arr: &String) -> (s: String)
    ensures
        s@ == array_refs_text(arr@),
{
    let mut s = String::from_str("(&");
    s.append(arr.as_str());
    s.append(", &");
    s.append(arr.as_str());
    s.append("_size, &");
    s.append(arr.as_str());
    s.append("_cap");
    s
}

/// Appends a call statement whose checks have passed (see `gen_call_stmt`).
#[verifier::spinoff_prover]
fn emit_call_stmt(name: &String, args: &Vec<Expr>, out: &mut String, pad: &String, scope: &Scope) -> (r: Result<(), CodegenError>)
    requires
        name@ == "push"@ ==> args@.len() == 2,
        name@ == "pop"@ ==> args@.len() == 1,
    ensures
        emitted(r, old(out)@, final(out)@, gen_call_stmt(name@, view_exprs(args@), pad@, scope@)),
{
    proof { lemma_view_exprs(args@); }
    let ghost base = out@;
    assert(base + Seq::<char>::empty() =~= base);
    let push = is_word(name, "push");
    if push || is_word(name, "pop") {
        let arr = extract_var_name(&args[0])?;
        let at = match scope.get(arr.as_str()) {
            Some(t) => t,
            None => {
                let mut m = String::from_str("Variable '");
                m.append(arr.as_str());
                m.append("' not found");
                return Err(msg(m));
            },
        };
        if !is_array_type(&at) {
            if push {
                return Err(CodegenError::Message(String::from_str("First argument of push must be an array")));
            } else {
                return Err(CodegenError::Message(String::from_str("First argument of pop must be an array")));
            }
        }
        let suffix: &str = match at {
            Type::DoubleArray => "_double",
            _ => "",
        };
        assert(suffix@ == (if at@ == TypeV::Array { ""@ } else { "_double"@ }));
        let refs = array_refs(arr);
        let mut h = pad.clone();
        if push {
            h.append("side_arr_push");
        } else {
            h.append("side_arr_pop");
        }
        h.append(suffix);
        h.append(refs.as_str());
        if push {
            h.append(", ");
            out.append(h.as_str());
            let r = generate_expr(&args[1], out, scope);
            proof { lemma_wrapped(r, base, h@, out@, gen_expr(args@[1]@, scope@), ");\n"@); }
            r?;
            out.append(");\n");
        } else {
            h.append(");\n");
            out.append(h.as_str());
        }
        Ok(())
    } else {
        let mut h = pad.clone();
        h.append(c_function_name(name).as_str());
        h.append("(");
        out.append(h.as_str());
        let r = emit_list(args, out, scope);
        proof { lemma_wrapped(r, base, h@, out@, gen_list(view_exprs(args@), scope@), ");\n"@); }
        r?;
        out.append(");\n");
        Ok(())
    }
}

/// Appends an assignment to a variable.
#[verifier::spinoff_prover]
fn emit_assign(stmt: &Stmt, out: &mut String, pad: &String, scope: &Scope, functions: &[Function], ret: &Type) -> (r: Result<(), CodegenError>)
    requires
        stmt is Assign,
    ensures
        stmt matches Stmt::Assign { name, value, .. } && emitted(r, old(out)@, final(out)@, gen_assign(name@, value@, pad@, scope@, functions_view(functions@))),
{
    let ghost base = out@;
    assert(base + Seq::<char>::empty() =~= base);
    match stmt {
        Stmt::Assign { name, value, .. } => {
            let var_type = match scope.get(name.as_str()) {
                Some(t) => t,
                None => {
                    let mut m = String::from_str("Variable '");
                    m.append(name.as_str());
                    m.append("' not declared in this scope");
                    return Err(msg(m));
                },
            };
            let actual = infer_c(value, scope, functions, Some(&var_type))?;
            if !type_compatible(&var_type, &actual) {
                let mut m = String::from_str("Type mismatch: cannot assign ");
                m.append(type_debug_text(&actual).as_str());
                m.append(" to variable '");
                m.append(name.as_str());
                m.append("' of type ");
                m.append(type_debug_text(&var_type).as_str());
                return Err(msg(m));
            }
            let mut h = pad.clone();
            h.append(name.as_str());
            h.append(" = ");
            out.append(h.as_str());
            let r = generate_expr(value, out, scope);
            proof { lemma_wrapped(r, base, h@, out@, gen_expr(value@, scope@), ";\n"@); }
            r?;
            out.append(";\n");
            Ok(())
        },
        _ => Ok(()),
    }
}

/// Appends an assignment to an array element.
#[verifier::spinoff_prover]
fn emit_assign_index(stmt: &Stmt, out: &mut String, pad: &String, scope: &Scope, functions: &[Function], ret: &Type) -> (r: Result<(), CodegenError>)
    requires
        stmt is AssignIndex,
    ensures
        stmt matches Stmt::AssignIndex { name, index, value, .. } && emitted(r, old(out)@, final(out)@, gen_assign_index(name@, index@, value@, pad@, scope@, functions_view(functions@))),
{
    let ghost base = out@;
    assert(base + Seq::<char>::empty() =~= base);
    match stmt {
        Stmt::AssignIndex { name, index, value, .. } => {
            let var_type = match scope.get(name.as_str()) {
                Some(t) => t,
                None => {
                    let mut m = String::from_str("Variable '");
                    m.append(name.as_str());
                    m.append("' not declared");
                    return Err(msg(m));
                },
            };
            let expected = match var_type {
                Type::Array => Type::Int,
                Type::DoubleArray => Type::Double,
                _ => return Err(CodegenError::Message(String::from_str("Indexing non-array"))),
            };
            let actual = infer_c(value, scope, functions, Some(&expected))?;
            if !type_compatible(&expected, &actual) {
                let mut m = String::from_str("Type mismatch: cannot assign ");
                m.append(type_debug_text(&actual).as_str());
                m.append(" to element of ");
                m.append(type_debug_text(&var_type).as_str());
                return Err(msg(m));
            }
            let mut h = pad.clone();
            h.append(name.as_str());
            h.append("[");
            out.append(h.as_str());
            let r = generate_expr(index, out, scope);
            proof { lemma_after(r, base, h@, out@, gen_expr(index@, scope@)); }
            r?;
            let ghost i = gen_expr(index@, scope@)->Ok_0;
            out.append("] = ");
            assert(out@ =~= base + (h@ + i + "] = "@));
            let r = generate_expr(value, out, scope);
            proof { lemma_wrapped(r, base, h@ + i + "] = "@, out@, gen_expr(value@, scope@), ";\n"@); }
            r?;
            out.append(";\n");
            Ok(())
        },
        _ => Ok(()),
    }
}

/// Appends a return statement; the value must fit the function's return type.
#[verifier::spinoff_prover]
fn emit_return(stmt: &Stmt, out: &mut String, pad: &String, scope: &Scope, functions: &[Function], ret: &Type) -> (r: Result<(), CodegenError>)
    requires
        stmt is Return,
    ensures
        stmt matches Stmt::Return(e, _) && emitted(r, old(out)@, final(out)@, gen_return(e@, pad@, scope@, functions_view(functions@), ret@)),
{
    let ghost base = out@;
    assert(base + Seq::<char>::empty() =~= base);
    match stmt {
        Stmt::Return(e, _) => {
            let actual = infer_c(e, scope, functions, Some(ret))?;
            if !type_compatible(ret, &actual) {
                let mut m = String::from_str("Return type mismatch: expected ");
                m.append(type_debug_text(ret).as_str());
                m.append(", got ");
                m.append(type_debug_text(&actual).as_str());
                return Err(msg(m));
            }
            let mut h = pad.clone();
            h.append("return ");
            out.append(h.as_str());
            let r = generate_expr(e, out, scope);
            proof { lemma_wrapped(r, base, h@, out@, gen_expr(e@, scope@), ";\n"@); }
            r?;
            out.append(";\n");
            Ok(())
        },
        _ => Ok(()),
    }
}

/// Appends a print statement: one `printf` per argument, then a newline.
fn emit_print(stmt: &Stmt, out: &mut String, pad: &String, scope: &Scope, functions: &[Function], ret: &Type) -> (r: Result<(), CodegenError>)
    requires
        stmt is IoPrint,
    ensures
        stmt_emitted(r, old(out)@, final(out)@, scope@, gen_stmt(stmt@, pad@, scope@, functions_view(functions@), ret@)),
{
    match stmt {
        Stmt::IoPrint(args, _) => {
            emit_prints(args, out, pad, scope, functions)?;
            let ghost t = gen_prints(view_exprs(args@), pad@, scope@, functions_view(functions@))->Ok_0;
            out.append(pad.as_str());
            out.append("printf(\"\\n\");\n");
            assert(out@ =~= old(out)@ + (t + pad@ + "printf(\"\\n\");\n"@));
            Ok(())
        },
        _ => Ok(()),
    }
}

/// Appends the `else` branch of an `if` statement.
#[verifier::spinoff_prover]
fn emit_else(eb: &Vec<Stmt>, out: &mut String, pad: &String, scope: &Scope, functions: &[Function], ret: &Type) -> (r: Result<(), CodegenError>)
    ensures
        emitted(r, old(out)@, final(out)@, wrapped(pad@ + "else {\n"@, gen_block(view_stmts(eb@), pad@, scope@, functions_view(functions@), ret@), pad@ + "}\n"@)),
    decreases eb, 2int,
{
    let ghost base = out@;
    let mut h = pad.clone();
    h.append("else {\n");
    out.append(h.as_str());
    let r = generate_block(eb, out, pad, scope, functions, ret);
    let mut close = pad.clone();
    close.append("}\n");
    proof { lemma_wrapped(r, base, h@, out@, gen_block(view_stmts(eb@), pad@, scope@, functions_view(functions@), ret@), close@); }
    r?;
    out.append(close.as_str());
    Ok(())
}

/// Appends an `if` statement; each branch gets a scope of its own.
#[verifier::spinoff_prover]
#[verifier::rlimit(40)]
fn emit_if(stmt: &Stmt, out: &mut String, pad: &String, scope: &Scope, functions: &[Function], ret: &Type) -> (r: Result<(), CodegenError>)
    requires
        stmt is If,
    ensures
        emitted(r, old(out)@, final(out)@, gen_if(stmt@, pad@, scope@, functions_view(functions@), ret@)),
    decreases stmt, 1int,
{
    let ghost base = out@;
    match stmt {
        Stmt::If { condition, then_body, else_body, .. } => {
            let mut h = pad.clone();
            h.append("if (");
            out.append(h.as_str());
            let r = generate_expr(condition, out, scope);
            proof { lemma_after(r, base, h@, out@, gen_expr(condition@, scope@)); }
            r?;
            let ghost c = gen_expr(condition@, scope@)->Ok_0;
            out.append(") {\n");
            let ghost open = h@ + c + ") {\n"@;
            assert(out@ =~= base + open);
            let r = generate_block(then_body, out, pad, scope, functions, ret);
            proof { lemma_after(r, base, open, out@, gen_block(view_stmts(then_body@), pad@, scope@, functions_view(functions@), ret@)); }
            r?;
            let ghost tb = gen_block(view_stmts(then_body@), pad@, scope@, functions_view(functions@), ret@)->Ok_0;
            out.append(pad.as_str());
            out.append("}\n");
            let ghost head = open + tb + pad@ + "}\n"@;
            assert(out@ =~= base + head);
            match else_body {
                Some(eb) => {
                    let r = emit_else(eb, out, pad, scope, functions, ret);
                    proof {
                        lemma_after(r, base, head, out@, wrapped(pad@ + "else {\n"@, gen_block(view_stmts(eb@), pad@, scope@, functions_view(functions@), ret@), pad@ + "}\n"@));
                    }
                    return r;
                },
                None => {},
            }
            Ok(())
        },
        _ => Ok(()),
    }
}

/// Appends a `while` loop; its body gets a scope of its own.
#[verifier::spinoff_prover]
fn emit_while(stmt: &Stmt, out: &mut String, pad: &String, scope: &Scope, functions: &[Function], ret: &Type) -> (r: Result<(), CodegenError>)
    requires
        stmt is While,
    ensures
        emitted(r, old(out)@, final(out)@, gen_while(stmt@, pad@, scope@, functions_view(functions@), ret@)),
    decreases stmt, 1int,
{
    let ghost base = out@;
    match stmt {
        Stmt::While { condition, body, .. } => {
            let mut h = pad.clone();
            h.append("while (");
            out.append(h.as_str());
            let r = generate_expr(condition, out, scope);
            proof { lemma_after(r, base, h@, out@, gen_expr(condition@, scope@)); }
            r?;
            let ghost c = gen_expr(condition@, scope@)->Ok_0;
            out.append(") {\n");
            assert(out@ =~= base + (h@ + c + ") {\n"@));
            let r = generate_block(body, out, pad, scope, functions, ret);
            let ghost g = gen_block(view_stmts(body@), pad@, scope@, functions_view(functions@), ret@);
            proof { lemma_wrapped(r, base, h@ + c + ") {\n"@, out@, g, pad@ + "}\n"@); }
            r?;
            let ghost now = out@;
            out.append(pad.as_str());
            out.append("}\n");
            assert(out@ =~= now + (pad@ + "}\n"@));
            Ok(())
        },
        _ => Ok(()),
    }
}

/// Appends the loop of a `for` statement, from its `while` on (see `gen_for_loop`).
#[verifier::spinoff_prover]
#[verifier::rlimit(40)]
fn emit_for_loop(var_name: &String, condition: &Expr, step: &Expr, body: &Vec<Stmt>, out: &mut String, pad: &String, for_scope: &Scope, functions: &[Function], ret: &Type) -> (r: Result<(), CodegenError>)
    ensures
        emitted(r, old(out)@, final(out)@, gen_for_loop(var_name@, condition@, step@, view_stmts(body@), pad@, for_scope@, functions_view(functions@), ret@)),
    decreases body, 2int,
{
    let ghost base = out@;
    let ghost fsc = for_scope@;
    let mut h = pad.clone();
    h.append("    while (");
    out.append(h.as_str());
    let r = generate_expr(condition, out, for_scope);
    proof { lemma_after(r, base, h@, out@, gen_expr(condition@, fsc)); }
    r?;
    let ghost c = gen_expr(condition@, fsc)->Ok_0;
    out.append(") {\n");
    let ghost p2 = h@ + c + ") {\n"@;
    assert(out@ =~= base + p2);
    let mut pad4 = pad.clone();
    pad4.append("    ");
    let r = generate_block(body, out, &pad4, for_scope, functions, ret);
    let ghost g = gen_block(view_stmts(body@), pad4@, fsc, functions_view(functions@), ret@);
    proof { lemma_after(r, base, p2, out@, g); }
    r?;
    let ghost b = g->Ok_0;
    let mut v = pad.clone();
    v.append("        ");
    v.append(var_name.as_str());
    v.append(" = ");
    out.append(v.as_str());
    let ghost p3 = p2 + b + pad@ + "        "@ + var_name@ + " = "@;
    assert(out@ =~= base + p3);
    let mut close = String::from_str(";\n");
    close.append(pad.as_str());
    close.append("    }\n");
    close.append(pad.as_str());
    close.append("}\n");
    let r = generate_expr(step, out, for_scope);
    proof { lemma_wrapped(r, base, p3, out@, gen_expr(step@, fsc), close@); }
    r?;
    out.append(close.as_str());
    Ok(())
}

/// Appends a `for` loop as a block holding the loop variable and a `while`
/// loop whose last statement is the step.
#[verifier::spinoff_prover]
fn emit_for(stmt: &Stmt, out: &mut String, pad: &String, scope: &Scope, functions: &[Function], ret: &Type) -> (r: Result<(), CodegenError>)
    requires
        stmt is For,
    ensures
        emitted(r, old(out)@, final(out)@, gen_for(stmt@, pad@, scope@, functions_view(functions@), ret@)),
    decreases stmt, 1int,
{
    let ghost base = out@;
    assert(base + Seq::<char>::empty() =~= base);
    match stmt {
        Stmt::For { var_name, start, condition, step, body, .. } => {
            let st = infer_c(start, scope, functions, None)?;
            let mut h = pad.clone();
            h.append("{\n");
            h.append(pad.as_str());
            h.append("    ");
            h.append(type_to_c(&st).as_str());
            h.append(" ");
            h.append(var_name.as_str());
            h.append(" = ");
            out.append(h.as_str());
            let r = generate_expr(start, out, scope);
            proof { lemma_after(r, base, h@, out@, gen_expr(start@, scope@)); }
            r?;
            let ghost s0 = gen_expr(start@, scope@)->Ok_0;
            let mut for_scope = scope.push();
            for_scope.declare(var_name.as_str(), st);
            out.append(";\n");
            let ghost p1 = h@ + s0 + ";\n"@;
            assert(out@ =~= base + p1);
            let r = emit_for_loop(var_name, condition, step, body, out, pad, &for_scope, functions, ret);
            proof {
                lemma_after(r, base, p1, out@, gen_for_loop(var_name@, condition@, step@, view_stmts(body@), pad@, for_scope@, functions_view(functions@), ret@));
            }
            r
        },
        _ => Ok(()),
    }
}

/// Appends a nested block at one more level of indentation, in a scope of its own.
fn generate_block(body: &Vec<Stmt>, out: &mut String, pad: &String, scope: &Scope, functions: &[Function], ret: &Type) -> (r: Result<(), CodegenError>)
    ensures
        emitted(r, old(out)@, final(out)@, gen_block(view_stmts(body@), pad@, scope@, functions_view(functions@), ret@)),
    decreases body, 1int,
{
    let mut inner = pad.clone();
    inner.append("    ");
    let mut block_scope = scope.push();
    generate_stmts(body, out, &inner, &mut block_scope, functions, ret)
}

/// A call of `push` that passes its checks has two arguments; one of `pop` has one.
proof fn lemma_check_call_arity(name: Seq<char>, args: Seq<ExprV>, fs: Seq<FunctionV>, sc: Seq<FrameV>)
    requires
        check_call(name, args, fs, sc) is Ok,
    ensures
        name == "push"@ ==> args.len() == 2,
        name == "pop"@ ==> args.len() == 1,
{
}

/// Appends one statement (see `gen_stmt`). On a stop, the text written
/// before it stays appended and the scope is left as it was.
fn generate_stmt(stmt: &Stmt, out: &mut String, pad: &String, scope: &mut Scope, functions: &[Function], ret: &Type) -> (r: Result<(), CodegenError>)
    ensures
        stmt_emitted(r, old(out)@, final(out)@, final(scope)@, gen_stmt(stmt@, pad@, old(scope)@, functions_view(functions@), ret@)),
    decreases stmt, 2int,
{
    assert(old(out)@ + Seq::<char>::empty() =~= old(out)@);
    match stmt {
        Stmt::Let { name, var_type, value, .. } => emit_let(name, var_type, value, out, pad, scope, functions),
        Stmt::Assign { .. } => emit_assign(stmt, out, pad, scope, functions, ret),
        Stmt::AssignIndex { .. } => emit_assign_index(stmt, out, pad, scope, functions, ret),
        Stmt::IoPrint(..) => emit_print(stmt, out, pad, scope, functions, ret),
        Stmt::If { .. } => emit_if(stmt, out, pad, scope, functions, ret),
        Stmt::While { .. } => emit_while(stmt, out, pad, scope, functions, ret),
        Stmt::For { .. } => emit_for(stmt, out, pad, scope, functions, ret),
        Stmt::Return(..) => emit_return(stmt, out, pad, scope, functions, ret),
        Stmt::Break(_) => {
            out.append(pad.as_str());
            out.append("break;\n");
            assert(out@ =~= old(out)@ + (pad@ + "break;\n"@));
            Ok(())
        },
        Stmt::Continue(_) => {
            out.append(pad.as_str());
            out.append("continue;\n");
            assert(out@ =~= old(out)@ + (pad@ + "continue;\n"@));
            Ok(())
        },
        Stmt::CallStmt { name, args, .. } => {
            check_function_call(name, args, functions, scope)?;
            proof {
                lemma_view_exprs(args@);
                lemma_check_call_arity(name@, view_exprs(args@), functions_view(functions@), scope@);
            }
            emit_call_stmt(name, args, out, pad, scope)
        },
    }
}

proof fn lemma_gen_stmts_prefix_err(ss: Seq<StmtV>, k: int, pad: Seq<char>, sc: Seq<FrameV>, fs: Seq<FunctionV>, ret: TypeV)
    requires
        0 <= k <= ss.len(),
        gen_stmts(ss.take(k), pad, sc, fs, ret) is Err,
    ensures
        gen_stmts(ss, pad, sc, fs, ret) == gen_stmts(ss.take(k), pad, sc, fs, ret),
    decreases ss.len(),
{
    if ss.len() > k {
        assert(ss.drop_last().take(k) =~= ss.take(k));
        lemma_gen_stmts_prefix_err(ss.drop_last(), k, pad, sc, fs, ret);
    } else {
        assert(ss.take(k) =~= ss);
    }
}

/// Appends statements in order, threading the scope through them (see
/// `gen_stmts`). On a stop, the text and the declarations of the statements
/// before it stay.
#[verifier::rlimit(40)]
pub(crate) fn generate_stmts(stmts: &Vec<Stmt>, out: &mut String, pad: &String, scope: &mut Scope, functions: &[Function], ret: &Type) -> (r: Result<(), CodegenError>)
    ensures
        stmt_emitted(r, old(out)@, final(out)@, final(scope)@, gen_stmts(view_stmts(stmts@), pad@, old(scope)@, functions_view(functions@), ret@)),
    decreases stmts, 0int,
{
    let ghost vs = view_stmts(stmts@);
    let ghost fs = functions_view(functions@);
    let ghost base = out@;
    let ghost sc0 = scope@;
    proof {
        lemma_view_stmts(stmts@);
        assert(vs.take(0) =~= Seq::<StmtV>::empty());
        assert(base + Seq::<char>::empty() =~= base);
    }
    let mut i: usize = 0;
    while i < stmts.len()
        invariant
            i <= stmts.len(),
            vs == view_stmts(stmts@),
            fs == functions_view(functions@),
            vs.len() == stmts@.len(),
            base == old(out)@,
            forall|j: int| 0 <= j < stmts@.len() ==> #[trigger] vs[j] == stmts@[j]@,
            sc0 == old(scope)@,
            gen_stmts(vs.take(i as int), pad@, sc0, fs, ret@) matches Ok((t, sc1)) && out@ == base + t && scope@ == sc1,
        decreases stmts.len() - i,
    {
        let ghost t = gen_stmts(vs.take(i as int), pad@, sc0, fs, ret@)->Ok_0.0;
        let ghost sc1 = scope@;
        proof {
            assert(vs.take(i + 1).drop_last() =~= vs.take(i as int));
            assert(vs.take(i + 1).last() == stmts@[i as int]@);
        }
        let r = generate_stmt(&stmts[i], out, pad, scope, functions, ret);
        let ghost g = gen_stmt(stmts@[i as int]@, pad@, sc1, fs, ret@);
        match r {
            Ok(()) => {
                proof { assert(out@ =~= base + (t + g->Ok_0.0)); }
            },
            Err(e) => {
                proof {
                    assert(out@ =~= base + (t + g->Err_0.0));
                    assert(gen_stmts(vs.take(i + 1), pad@, sc0, fs, ret@) == Err::<(Seq<char>, Seq<FrameV>), (Seq<char>, Seq<FrameV>, Fault)>((t + g->Err_0.0, g->Err_0.1, g->Err_0.2)));
                    lemma_gen_stmts_prefix_err(vs, i + 1, pad@, sc0, fs, ret@);
                }
                return Err(e);
            },
        }
        i = i + 1;
    }
    proof { assert(vs.take(stmts.len() as int) =~= vs); }
    Ok(())
}

/// Statement generation only ever appends: the text there before stays at
/// the start of the output, whether generation succeeds or stops.
pub proof fn statements_keep_earlier_text(r: Result<(), CodegenError>, before: Seq<char>, now: Seq<char>, sc: Seq<FrameV>, g: SRes)
    requires
        stmt_emitted(r, before, now, sc, g),
    ensures
        before.len() <= now.len(),
        now.take(before.len() as int) == before,
{
    match g {
        Ok((t, _)) => assert(now.take(before.len() as int) =~= before),
        Err((w, _, _)) => assert(now.take(before.len() as int) =~= before),
    }
}

/// The scope after top-level statements: each top-level `let` binds its name
/// to its declared type, or else to the type inferred for its value; every
/// other statement, and whatever a nested block declares, leaves it alone.
pub open spec fn top_level_scope(ss: Seq<StmtV>, sc: Seq<FrameV>, fs: Seq<FunctionV>) -> Seq<FrameV>
    decreases ss.len(),
{
    if ss.len() == 0 {
        sc
    } else {
        let prev = top_level_scope(ss.drop_last(), sc, fs);
        match ss.last() {
            StmtV::Let { name, var_type, value, .. } => scope_declare(
                prev,
                name,
                match var_type {
                    Some(t) => t,
                    None => infer(value, prev, fs, None)->Ok_0,
                },
            ),
            _ => prev,
        }
    }
}

/// A statement that stops leaves the scope as it was; one that succeeds
/// changes it only by the binding of a `let`.
pub proof fn statement_scope(s: StmtV, pad: Seq<char>, sc: Seq<FrameV>, fs: Seq<FunctionV>, ret: TypeV)
    ensures
        gen_stmt(s, pad, sc, fs, ret) matches Err((_, sc2, _)) ==> sc2 == sc,
        gen_stmt(s, pad, sc, fs, ret) matches Ok((_, sc2)) ==> sc2 == top_level_scope(seq![s], sc, fs),
{
    assert(seq![s].drop_last() =~= Seq::<StmtV>::empty());
    assert(seq![s].last() == s);
    assert(top_level_scope(Seq::<StmtV>::empty(), sc, fs) == sc);
    assert(top_level_scope(seq![s], sc, fs) == match s {
        StmtV::Let { name, var_type, value, .. } => scope_declare(
            sc,
            name,
            match var_type {
                Some(t) => t,
                None => infer(value, sc, fs, None)->Ok_0,
            },
        ),
        _ => sc,
    });
}

/// After statements that all generate, the scope holds exactly the bindings
/// of the top-level `let`s, in order; names declared in nested blocks
/// (`if`, `while`, `for` bodies and `for` variables) are not visible.
pub proof fn statements_scope(ss: Seq<StmtV>, pad: Seq<char>, sc: Seq<FrameV>, fs: Seq<FunctionV>, ret: TypeV)
    ensures
        gen_stmts(ss, pad, sc, fs, ret) matches Ok((_, sc2)) ==> sc2 == top_level_scope(ss, sc, fs),
    decreases ss.len(),
{
    if ss.len() > 0 {
        statements_scope(ss.drop_last(), pad, sc, fs, ret);
        let prev = top_level_scope(ss.drop_last(), sc, fs);
        statement_scope(ss.last(), pad, prev, fs, ret);
        assert(seq![ss.last()].drop_last() =~= Seq::<StmtV>::empty());
    }
}

/// Each argument's type, inferred against its parameter's type, fits that parameter.
pub open spec fn args_fit(params: Seq<ParamV>, args: Seq<ExprV>, sc: Seq<FrameV>, fs: Seq<FunctionV>) -> bool {
    forall|i: int|
        0 <= i < args.len() ==> (#[trigger] infer(args[i], sc, fs, Some(params[i].param_type)) matches Ok(t) && compatible(
            params[i].param_type,
            t,
        ))
}

/// The argument check passes exactly when every argument fits its parameter.
pub proof fn check_args_passes_when_args_fit(name: Seq<char>, params: Seq<ParamV>, args: Seq<ExprV>, sc: Seq<FrameV>, fs: Seq<FunctionV>)
    requires
        params.len() == args.len(),
    ensures
        check_args(name, params, args, sc, fs) is Ok <==> args_fit(params, args, sc, fs),
    decreases args.len(),
{
    if args.len() > 0 {
        let pd = params.drop_last();
        let ad = args.drop_last();
        check_args_passes_when_args_fit(name, pd, ad, sc, fs);
        let n = args.len() - 1;
        assert(args.last() == args[n] && params.last() == params[n]);
        if args_fit(params, args, sc, fs) {
            assert forall|i: int| 0 <= i < ad.len() implies (#[trigger] infer(ad[i], sc, fs, Some(pd[i].param_type)) matches Ok(
                t,
            ) && compatible(pd[i].param_type, t)) by {
                assert(ad[i] == args[i] && pd[i] == params[i]);
                assert(infer(args[i], sc, fs, Some(params[i].param_type)) matches Ok(t) && compatible(params[i].param_type, t));
            }
            assert(infer(args[n], sc, fs, Some(params[n].param_type)) matches Ok(t) && compatible(params[n].param_type, t));
        }
        if check_args(name, params, args, sc, fs) is Ok {
            assert(args_fit(pd, ad, sc, fs));
            assert forall|i: int| 0 <= i < args.len() implies (#[trigger] infer(args[i], sc, fs, Some(params[i].param_type)) matches Ok(
                t,
            ) && compatible(params[i].param_type, t)) by {
                if i < n {
                    assert(ad[i] == args[i] && pd[i] == params[i]);
                    assert(infer(ad[i], sc, fs, Some(pd[i].param_type)) matches Ok(t) && compatible(pd[i].param_type, t));
                }
            }
        }
    }
}

/// Whether a call names one of the generator's own functions.
pub open spec fn builtin_call(name: Seq<char>) -> bool {
    name == "push"@ || name == "pop"@ || name == "len"@ || name == "time"@ || name == "rand"@ || name == "sqrt"@
        || name == "fabs"@ || name == "pow"@ || name == "str"@ || name == "int"@
}

/// A call of a program function passes its checks exactly when the first
/// function of that name exists, takes as many parameters as the call has
/// arguments, and every argument fits its parameter; with no such function
/// the check reports it.
pub proof fn user_call_check(name: Seq<char>, args: Seq<ExprV>, fs: Seq<FunctionV>, sc: Seq<FrameV>)
    requires
        !builtin_call(name),
    ensures
        check_call(name, args, fs, sc) is Ok <==> (find_function(fs, name) matches Some(f) && f.params.len() == args.len()
            && args_fit(f.params, args, sc, fs)),
        find_function(fs, name) is None ==> check_call(name, args, fs, sc) == fail::<()>(
            "Function '"@ + name + "' not defined"@,
        ),
{
    if let Some(f) = find_function(fs, name) {
        if f.params.len() == args.len() {
            check_args_passes_when_args_fit(name, f.params, args, sc, fs);
        }
    }
}

} // verus!
