use vstd::prelude::*;
use crate::ast::{Expr, ExprV, ParamV, FieldV, StructDef, StructDefV, Constant, ConstantV, Function, FunctionV, Program, ProgramV};
use crate::scope::{Scope, FrameV, scope_declare, scope_new};
use crate::typing::{c_type, functions_view, type_to_c, is_word};
use crate::emit::{Fault, c_name, gen_expr, CodegenError, generate_expr};
use crate::emit_stmt::{gen_stmts, generate_stmts};

verus! {

/// The C headers every program includes.
pub const HEADER: &'static str = "#include <stdio.h>\n#include <stdlib.h>\n#include <string.h>\n#include <math.h>\n#include <time.h>\n\n";

/// The C runtime every program carries: growable arrays, input, time and
/// number-to-text conversions.
pub const RUNTIME: &'static str = "
void side_arr_push(int** arr, int* size, int* cap, int value) {
    if (*size >= *cap) { *cap = (*cap == 0) ? 2 : (*cap) * 2; *arr = realloc(*arr, (*cap) * sizeof(int)); }
    (*arr)[*size] = value; (*size)++;
}
int side_arr_pop(int** arr, int* size, int* cap) {
    if (*size <= 0) return -1; int val = (*arr)[*size - 1]; (*size)--; return val;
}
int* side_arr_create(int n, int* vals) {
    int* arr = malloc(n * sizeof(int)); for (int i = 0; i < n; i++) arr[i] = vals[i]; return arr;
}
void side_arr_push_double(double** arr, int* size, int* cap, double value) {
    if (*size >= *cap) { *cap = (*cap == 0) ? 2 : (*cap) * 2; *arr = realloc(*arr, (*cap) * sizeof(double)); }
    (*arr)[*size] = value; (*size)++;
}
double side_arr_pop_double(double** arr, int* size, int* cap) {
    if (*size <= 0) return -1.0; double val = (*arr)[*size - 1]; (*size)--; return val;
}
double* side_arr_create_double(int n, double* vals) {
    double* arr = malloc(n * sizeof(double)); for (int i = 0; i < n; i++) arr[i] = vals[i]; return arr;
}
int side_input(const char* prompt) { int val; printf(\"%s\", prompt); scanf(\"%d\", &val); return val; }
int side_time() { return (int)(clock() * 1000 / CLOCKS_PER_SEC); }
char* side_str(int n) { static char buf[20]; sprintf(buf, \"%d\", n); return buf; }
char* side_str_double(double n) { static char buf[30]; sprintf(buf, \"%f\", n); return buf; }
";

/// The C entry point, which runs the program's `main`.
pub const FOOTER: &'static str = "int main() { return side_main(); }\n";

/// The text of a part of a program, or why it cannot be generated.
pub type TextRes = Result<Seq<char>, Fault>;

/// Whether an exec result matches a spec one: on success the text is
/// appended to `before`.
pub open spec fn written(r: Result<(), CodegenError>, before: Seq<char>, now: Seq<char>, g: TextRes) -> bool {
    match g {
        Ok(t) => r is Ok && now == before + t,
        Err(f) => r matches Err(e) && e@ == f,
    }
}


/// The C type of a constant, chosen by the form of its value.
pub open spec fn const_c_type(e: ExprV) -> Seq<char> {
    match e {
        ExprV::DoubleLiteral(..) => "const double"@,
        ExprV::StringLiteral(..) => "const char*"@,
        _ => "const int"@,
    }
}

/// One C constant definition per program constant.
pub open spec fn gen_constants(cs: Seq<ConstantV>) -> TextRes
    decreases cs.len(),
{
    if cs.len() == 0 {
        Ok(Seq::empty())
    } else {
        match gen_constants(cs.drop_last()) {
            Err(f) => Err(f),
            Ok(t) => {
                let c = cs.last();
                match gen_expr(c.value, scope_new()) {
                    Err((_, f)) => Err(f),
                    Ok(v) => Ok(t + const_c_type(c.value) + " "@ + c.name + " = "@ + v + ";\n"@),
                }
            },
        }
    }
}

/// The member declarations of a struct.
pub open spec fn field_lines(fs: Seq<FieldV>) -> Seq<char>
    decreases fs.len(),
{
    if fs.len() == 0 {
        Seq::empty()
    } else {
        field_lines(fs.drop_last()) + "    "@ + c_type(fs.last().field_type) + " "@ + fs.last().name + ";\n"@
    }
}

/// A struct as a C `typedef`.
pub open spec fn struct_text(s: StructDefV) -> Seq<char> {
    "typedef struct {\n"@ + field_lines(s.fields) + "} side_"@ + s.name + ";\n\n"@
}

/// All struct definitions, in order.
pub open spec fn structs_text(ss: Seq<StructDefV>) -> Seq<char>
    decreases ss.len(),
{
    if ss.len() == 0 {
        Seq::empty()
    } else {
        structs_text(ss.drop_last()) + struct_text(ss.last())
    }
}

/// A parameter as a C declaration.
pub open spec fn param_decl(p: ParamV) -> Seq<char> {
    c_type(p.param_type) + " "@ + p.name
}

/// The parameter list, separated by `", "`.
pub open spec fn params_text(ps: Seq<ParamV>) -> Seq<char>
    decreases ps.len(),
{
    if ps.len() == 0 {
        Seq::empty()
    } else if ps.len() == 1 {
        param_decl(ps.last())
    } else {
        params_text(ps.drop_last()) + ", "@ + param_decl(ps.last())
    }
}

/// The scope a function body starts in: its parameters, in order.
pub open spec fn params_scope(ps: Seq<ParamV>) -> Seq<FrameV>
    decreases ps.len(),
{
    if ps.len() == 0 {
        scope_new()
    } else {
        scope_declare(params_scope(ps.drop_last()), ps.last().name, ps.last().param_type)
    }
}

/// A function in C. Its body ends with `return 0;`; `main` becomes `side_main`.
pub open spec fn gen_function(f: FunctionV, fs: Seq<FunctionV>) -> TextRes {
    match gen_stmts(f.body, "    "@, params_scope(f.params), fs, f.return_type) {
        Err((_, _, e)) => Err(e),
        Ok((b, _)) => Ok(c_type(f.return_type) + " "@ + c_name(f.name) + "("@ + params_text(f.params) + ") {\n"@ + b
            + "    return 0;\n}\n\n"@),
    }
}

/// The functions of `order` that are named `main` (when `main` is set) or
/// that are not (when it is not), in order; `all` is every function of the
/// program, which calls may name.
pub open spec fn gen_functions(order: Seq<FunctionV>, all: Seq<FunctionV>, main: bool) -> TextRes
    decreases order.len(),
{
    if order.len() == 0 {
        Ok(Seq::empty())
    } else {
        match gen_functions(order.drop_last(), all, main) {
            Err(f) => Err(f),
            Ok(t) => if (order.last().name == "main"@) == main {
                match gen_function(order.last(), all) {
                    Err(f) => Err(f),
                    Ok(u) => Ok(t + u),
                }
            } else {
                Ok(t)
            },
        }
    }
}

/// The C text of a program: headers, constants, struct typedefs, the
/// runtime, every function but `main`, then `main`, then the C entry point.
pub open spec fn gen_program(p: ProgramV) -> TextRes {
    match gen_constants(p.constants) {
        Err(f) => Err(f),
        Ok(cs) => match gen_functions(p.functions, p.functions, false) {
            Err(f) => Err(f),
            Ok(others) => match gen_functions(p.functions, p.functions, true) {
                Err(f) => Err(f),
                Ok(mains) => Ok(HEADER@ + cs + structs_text(p.structs) + RUNTIME@ + others + mains + FOOTER@),
            },
        },
    }
}

proof fn lemma_gen_constants_prefix_err(cs: Seq<ConstantV>, k: int)
    requires
        0 <= k <= cs.len(),
        gen_constants(cs.take(k)) is Err,
    ensures
        gen_constants(cs) == gen_constants(cs.take(k)),
    decreases cs.len(),
{
    if cs.len() > k {
        assert(cs.drop_last().take(k) =~= cs.take(k));
        lemma_gen_constants_prefix_err(cs.drop_last(), k);
    } else {
        assert(cs.take(k) =~= cs);
    }
}

/// Appends the constant definitions (see `gen_constants`).
fn emit_constants(constants: &Vec<Constant>, out: &mut String) -> (r: Result<(), CodegenError>)
    ensures
        written(r, old(out)@, final(out)@, gen_constants(constants@.map_values(|c: Constant| c@))),
{
    let ghost cs = constants@.map_values(|c: Constant| c@);
    let ghost base = out@;
    assert(cs.take(0) =~= Seq::<ConstantV>::empty());
    let mut i: usize = 0;
    while i < constants.len()
        invariant
            i <= constants.len(),
            cs == constants@.map_values(|c: Constant| c@),
            gen_constants(cs.take(i as int)) matches Ok(t) && out@ == base + t,
        decreases constants.len() - i,
    {
        let c = &constants[i];
        proof {
            assert(cs.take(i + 1).drop_last() =~= cs.take(i as int));
            assert(cs.take(i + 1).last() == c@);
        }
        let ct: &str = match &c.value {
            Expr::DoubleLiteral(..) => "const double",
            Expr::StringLiteral(..) => "const char*",
            _ => "const int",
        };
        assert(ct@ == const_c_type(c.value@));
        let mut t = String::from_str(ct);
        t.append(" ");
        t.append(c.name.as_str());
        t.append(" = ");
        let empty = Scope::new();
        match generate_expr(&c.value, &mut t, &empty) {
            Ok(()) => {},
            Err(e) => {
                proof { lemma_gen_constants_prefix_err(cs, i + 1); }
                return Err(e);
            },
        }
        t.append(";\n");
        let ghost v = gen_expr(c.value@, scope_new())->Ok_0;
        assert(t@ =~= const_c_type(c.value@) + " "@ + c.name@ + " = "@ + v + ";\n"@);
        out.append(t.as_str());
        assert(out@ =~= base + (gen_constants(cs.take(i as int))->Ok_0 + t@));
        i = i + 1;
    }
    assert(cs.take(constants.len() as int) =~= cs);
    Ok(())
}

/// Appends a struct as a C `typedef`.
fn emit_struct(s: &StructDef, out: &mut String)
    ensures
        final(out)@ == old(out)@ + struct_text(s@),
{
    let ghost fs = s@.fields;
    let mut t = String::from_str("typedef struct {\n");
    let ghost head = t@;
    assert(fs.take(0) =~= Seq::<FieldV>::empty());
    let mut i: usize = 0;
    while i < s.fields.len()
        invariant
            i <= s.fields.len(),
            fs == s@.fields,
            t@ == head + field_lines(fs.take(i as int)),
        decreases s.fields.len() - i,
    {
        let f = &s.fields[i];
        proof {
            assert(fs.take(i + 1).drop_last() =~= fs.take(i as int));
            assert(fs.take(i + 1).last() == f@);
        }
        t.append("    ");
        t.append(type_to_c(&f.field_type).as_str());
        t.append(" ");
        t.append(f.name.as_str());
        t.append(";\n");
        assert(t@ =~= head + field_lines(fs.take(i + 1)));
        i = i + 1;
    }
    assert(fs.take(s.fields.len() as int) =~= fs);
    t.append("} side_");
    t.append(s.name.as_str());
    t.append(";\n\n");
    assert(t@ =~= struct_text(s@));
    out.append(t.as_str());
}

/// Appends all struct definitions, in order.
fn emit_structs(structs: &Vec<StructDef>, out: &mut String)
    ensures
        final(out)@ == old(out)@ + structs_text(structs@.map_values(|s: StructDef| s@)),
{
    let ghost ss = structs@.map_values(|s: StructDef| s@);
    let ghost base = out@;
    assert(ss.take(0) =~= Seq::<StructDefV>::empty());
    let mut i: usize = 0;
    while i < structs.len()
        invariant
            i <= structs.len(),
            ss == structs@.map_values(|s: StructDef| s@),
            out@ == base + structs_text(ss.take(i as int)),
        decreases structs.len() - i,
    {
        proof {
            assert(ss.take(i + 1).drop_last() =~= ss.take(i as int));
            assert(ss.take(i + 1).last() == structs@[i as int]@);
        }
        emit_struct(&structs[i], out);
        assert(out@ =~= base + structs_text(ss.take(i + 1)));
        i = i + 1;
    }
    assert(ss.take(structs.len() as int) =~= ss);
}

/// Appends a function definition (see `gen_function`).
fn emit_function(func: &Function, out: &mut String, functions: &[Function]) -> (r: Result<(), CodegenError>)
    ensures
        written(r, old(out)@, final(out)@, gen_function(func@, functions_view(functions@))),
{
    let ghost ps = func@.params;
    let mut t = type_to_c(&func.return_type);
    t.append(" ");
    if is_word(&func.name, "main") {
        t.append("side_main");
    } else {
        t.append("side_");
        t.append(func.name.as_str());
    }
    t.append("(");
    let ghost head = t@;
    assert(head =~= c_type(func@.return_type) + " "@ + c_name(func@.name) + "("@);
    let mut scope = Scope::new();
    assert(ps.take(0) =~= Seq::<ParamV>::empty());
    let mut i: usize = 0;
    while i < func.params.len()
        invariant
            i <= func.params.len(),
            ps == func@.params,
            t@ == head + params_text(ps.take(i as int)),
            scope@ == params_scope(ps.take(i as int)),
        decreases func.params.len() - i,
    {
        let p = &func.params[i];
        proof {
            assert(ps.take(i + 1).drop_last() =~= ps.take(i as int));
            assert(ps.take(i + 1).last() == p@);
        }
        if i > 0 {
            t.append(", ");
        }
        t.append(type_to_c(&p.param_type).as_str());
        t.append(" ");
        t.append(p.name.as_str());
        assert(t@ =~= head + params_text(ps.take(i + 1)));
        scope.declare(p.name.as_str(), p.param_type.duplicate());
        i = i + 1;
    }
    assert(ps.take(func.params.len() as int) =~= ps);
    t.append(") {\n");
    let pad = String::from_str("    ");
    generate_stmts(&func.body, &mut t, &pad, &mut scope, functions, &func.return_type)?;
    t.append("    return 0;\n}\n\n");
    proof {
        let b = gen_stmts(func@.body, "    "@, params_scope(ps), functions_view(functions@), func@.return_type)->Ok_0.0;
        assert(t@ =~= c_type(func@.return_type) + " "@ + c_name(func@.name) + "("@ + params_text(ps) + ") {\n"@ + b
            + "    return 0;\n}\n\n"@);
    }
    out.append(t.as_str());
    Ok(())
}

proof fn lemma_gen_functions_prefix_err(order: Seq<FunctionV>, k: int, all: Seq<FunctionV>, main: bool)
    requires
        0 <= k <= order.len(),
        gen_functions(order.take(k), all, main) is Err,
    ensures
        gen_functions(order, all, main) == gen_functions(order.take(k), all, main),
    decreases order.len(),
{
    if order.len() > k {
        assert(order.drop_last().take(k) =~= order.take(k));
        lemma_gen_functions_prefix_err(order.drop_last(), k, all, main);
    } else {
        assert(order.take(k) =~= order);
    }
}

/// Appends the functions named `main`, or all the others (see `gen_functions`).
fn emit_functions(functions: &Vec<Function>, main: bool, out: &mut String) -> (r: Result<(), CodegenError>)
    ensures
        written(r, old(out)@, final(out)@, gen_functions(functions_view(functions@), functions_view(functions@), main)),
{
    let ghost fs = functions_view(functions@);
    let ghost base = out@;
    assert(fs.take(0) =~= Seq::<FunctionV>::empty());
    let mut i: usize = 0;
    while i < functions.len()
        invariant
            i <= functions.len(),
            fs == functions_view(functions@),
            gen_functions(fs.take(i as int), fs, main) matches Ok(t) && out@ == base + t,
        decreases functions.len() - i,
    {
        let f = &functions[i];
        proof {
            assert(fs.take(i + 1).drop_last() =~= fs.take(i as int));
            assert(fs.take(i + 1).last() == f@);
        }
        if is_word(&f.name, "main") == main {
            match emit_function(f, out, functions.as_slice()) {
                Ok(()) => {},
                Err(e) => {
                    proof { lemma_gen_functions_prefix_err(fs, i + 1, fs, main); }
                    return Err(e);
                },
            }
            proof {
                let t = gen_functions(fs.take(i as int), fs, main)->Ok_0;
                let u = gen_function(f@, fs)->Ok_0;
                assert(out@ =~= base + (t + u));
            }
        }
        i = i + 1;
    }
    assert(fs.take(functions.len() as int) =~= fs);
    Ok(())
}

/// Generates the C text of a program (see `gen_program`). A call of `int`, `push` or
/// `pop` with no argument gives `IndexOutOfBounds`.
pub fn try_generate(program: &Program) -> (r: Result<String, CodegenError>)
    ensures
        match gen_program(program@) {
            Ok(t) => r matches Ok(s) && s@ == t,
            Err(f) => r matches Err(e) && e@ == f,
        },
{
    let ghost p = program@;
    let mut out = String::from_str(HEADER);
    emit_constants(&program.constants, &mut out)?;
    let ghost cs = gen_constants(p.constants)->Ok_0;
    emit_structs(&program.structs, &mut out);
    out.append(RUNTIME);
    assert(p.functions == functions_view(program.functions@));
    emit_functions(&program.functions, false, &mut out)?;
    let ghost others = gen_functions(p.functions, p.functions, false)->Ok_0;
    emit_functions(&program.functions, true, &mut out)?;
    let ghost mains = gen_functions(p.functions, p.functions, true)->Ok_0;
    out.append(FOOTER);
    assert(out@ =~= HEADER@ + cs + structs_text(p.structs) + RUNTIME@ + others + mains + FOOTER@);
    Ok(out)
}

/// Generates the C text of a program, or says why it cannot be generated (see
/// `gen_program`). Every call of `int`, `push` and `pop` must have an argument.
pub fn generate(program: &Program) -> (r: Result<String, String>)
    requires
        !(gen_program(program@) matches Err(Fault::OutOfBounds)),
    ensures
        match gen_program(program@) {
            Ok(t) => r matches Ok(s) && s@ == t,
            Err(Fault::Msg(m)) => r matches Err(e) && e@ == m,
            Err(Fault::OutOfBounds) => false,
        },
{
    match try_generate(program) {
        Ok(s) => Ok(s),
        Err(CodegenError::Message(m)) => Err(m),
        Err(CodegenError::IndexOutOfBounds) => Err(String::new()),
    }
}

/// Generated C text starts with the headers and the constants, and ends with
/// the program's `main` functions and the C entry point.
pub proof fn generated_text_frame(p: ProgramV)
    requires
        gen_program(p) is Ok,
    ensures
        gen_program(p)->Ok_0.take(HEADER@.len() as int) == HEADER@,
        gen_program(p)->Ok_0.skip(gen_program(p)->Ok_0.len() - FOOTER@.len()) == FOOTER@,
        gen_constants(p.constants) is Ok,
        gen_program(p)->Ok_0.subrange(HEADER@.len() as int, (HEADER@.len() + gen_constants(p.constants)->Ok_0.len()) as int)
            == gen_constants(p.constants)->Ok_0,
{
    let t = gen_program(p)->Ok_0;
    let cs = gen_constants(p.constants)->Ok_0;
    let others = gen_functions(p.functions, p.functions, false)->Ok_0;
    let mains = gen_functions(p.functions, p.functions, true)->Ok_0;
    let mid = structs_text(p.structs) + RUNTIME@ + others + mains;
    assert(t =~= HEADER@ + cs + mid + FOOTER@);
    assert(t.take(HEADER@.len() as int) =~= HEADER@);
    assert(t.skip(t.len() - FOOTER@.len()) =~= FOOTER@);
    assert(t.subrange(HEADER@.len() as int, (HEADER@.len() + cs.len()) as int) =~= cs);
}

} // verus!
