use side_lang::ast::{Expr, Function, Program, Span, Stmt, Type};
use side_lang::codegen::try_generate;
use side_lang::driver::{mark_loaded, merge_programs, next_import, parse_source};
use side_lang::emit::{generate_expr, CodegenError};
use side_lang::scope::Scope;
use side_lang::typing::{infer_type, type_compatible, type_debug_text, type_to_c};

#[test]
fn span_merge_covers_both() {
    let a = Span::new(1, 3);
    let b = Span::new(2, 5);
    assert_eq!(a.merge(&b), Span::new(1, 5));
    assert_eq!(b.merge(&a), Span::new(1, 5));
    assert_eq!(a.merge(&a), a);
    let c = Span::new(0, 2);
    assert_eq!(a.merge(&b).merge(&c), a.merge(&b.merge(&c)));
}

#[test]
fn scope_lookups() {
    let mut s = Scope::new();
    assert_eq!(s.get("x"), None);
    s.declare("x", Type::Int);
    assert_eq!(s.get("x"), Some(Type::Int));
    assert_eq!(s.get("y"), None);
    let mut inner = s.push();
    assert_eq!(inner.get("x"), Some(Type::Int));
    inner.declare("x", Type::Double);
    inner.declare("y", Type::Str);
    assert_eq!(inner.get("x"), Some(Type::Double));
    assert_eq!(inner.get("y"), Some(Type::Str));
    assert_eq!(s.get("x"), Some(Type::Int));
    assert_eq!(s.get("y"), None);
    s.declare("x", Type::Array);
    assert_eq!(s.get("x"), Some(Type::Array));
}

#[test]
fn type_rules() {
    assert!(type_compatible(&Type::Double, &Type::Int));
    assert!(!type_compatible(&Type::Int, &Type::Double));
    assert!(!type_compatible(&Type::Array, &Type::DoubleArray));
    assert!(type_compatible(&Type::Struct("P".to_string()), &Type::Struct("P".to_string())));
    assert!(!type_compatible(&Type::Struct("P".to_string()), &Type::Struct("Q".to_string())));
    for t in [Type::Int, Type::Double, Type::Str, Type::Array, Type::DoubleArray, Type::Struct("S".to_string())] {
        assert!(type_compatible(&t, &t));
    }
    assert_eq!(type_to_c(&Type::Int), "int");
    assert_eq!(type_to_c(&Type::Double), "double");
    assert_eq!(type_to_c(&Type::Str), "const char*");
    assert_eq!(type_to_c(&Type::Array), "int*");
    assert_eq!(type_to_c(&Type::DoubleArray), "double*");
    assert_eq!(type_to_c(&Type::Struct("P".to_string())), "side_P");
    assert_eq!(type_debug_text(&Type::Struct("P".to_string())), format!("{:?}", Type::Struct("P".to_string())));
    assert_eq!(type_debug_text(&Type::DoubleArray), "DoubleArray");
}

#[test]
fn inference_of_literals_and_arithmetic() {
    let s = Scope::new();
    let p = parse_source("fn main() { let a = [1.5, 2]\n let b = 1 + 2.0\n let c = [] }").unwrap();
    let f = &p.functions;
    let value = |i: usize| match &f[0].body[i] {
        Stmt::Let { value, .. } => value,
        _ => panic!("not a let"),
    };
    assert_eq!(infer_type(value(0), &s, f, None), Ok(Type::DoubleArray));
    assert_eq!(infer_type(value(1), &s, f, None), Ok(Type::Double));
    assert_eq!(infer_type(value(2), &s, f, None), Ok(Type::Array));
    assert_eq!(infer_type(value(2), &s, f, Some(&Type::DoubleArray)), Ok(Type::DoubleArray));
}

fn program(src: &str) -> Program {
    parse_source(src).unwrap()
}

#[test]
fn merging_appends_imported_items() {
    let mut target = program("let A = 1\nstruct S { int x }\nfn a() { }");
    let imported = program("let B = 2\nstruct T { int y }\nfn b() { }");
    assert_eq!(merge_programs(&mut target, imported), Ok(()));
    let names: Vec<&str> = target.functions.iter().map(|f| f.name.as_str()).collect();
    assert_eq!(names, vec!["a", "b"]);
    let names: Vec<&str> = target.constants.iter().map(|c| c.name.as_str()).collect();
    assert_eq!(names, vec!["A", "B"]);
    let names: Vec<&str> = target.structs.iter().map(|s| s.name.as_str()).collect();
    assert_eq!(names, vec!["S", "T"]);
}

#[test]
fn merging_refuses_a_taken_function_name() {
    let mut target = program("fn a() { }");
    let imported = program("fn c() { }\nfn a() { }\nfn d() { }");
    assert_eq!(merge_programs(&mut target, imported), Err("Function 'a' already defined (import conflict)".to_string()));
    let names: Vec<&str> = target.functions.iter().map(|f| f.name.as_str()).collect();
    assert_eq!(names, vec!["a", "c"]);
}

#[test]
fn merging_refuses_a_repeated_imported_name() {
    let mut target = program("fn a() { }");
    let imported = program("let K = 1\nlet K = 2");
    assert_eq!(merge_programs(&mut target, imported), Err("Constant 'K' already defined (import conflict)".to_string()));
    assert_eq!(target.constants.len(), 1);
}

#[test]
fn merging_checks_structs_first() {
    let mut target = program("struct S { int x }\nlet K = 1");
    let imported = program("let K = 2\nstruct S { int y }");
    assert_eq!(merge_programs(&mut target, imported), Err("Struct 'S' already defined (import conflict)".to_string()));
    assert_eq!(target.constants.len(), 1);
}

#[test]
fn merging_leaves_imports_alone() {
    let mut target = program("import \"x.sd\"");
    let imported = program("import \"y.sd\"\nfn f() { }");
    assert_eq!(merge_programs(&mut target, imported), Ok(()));
    assert_eq!(target.imports, vec!["x.sd".to_string()]);
    assert_eq!(target.functions.len(), 1);
}

#[test]
fn loaded_paths_are_recorded_once() {
    let mut loaded: Vec<String> = Vec::new();
    assert!(mark_loaded(&mut loaded, &"a.sd".to_string()));
    assert!(mark_loaded(&mut loaded, &"b.sd".to_string()));
    assert!(!mark_loaded(&mut loaded, &"a.sd".to_string()));
    assert_eq!(loaded, vec!["a.sd".to_string(), "b.sd".to_string()]);
}

#[test]
fn call_statement_checks_on_a_built_program() {
    let sp = Span::new(0, 0);
    let call = Stmt::CallStmt { name: "str".to_string(), args: vec![], span: sp };
    let main = Function {
        name: "main".to_string(),
        struct_name: None,
        params: vec![],
        return_type: Type::Int,
        body: vec![call],
        span: sp,
    };
    let p = Program { imports: vec![], structs: vec![], constants: vec![], functions: vec![main] };
    assert_eq!(try_generate(&p), Err(CodegenError::Message("'str' requires 1 argument".to_string())));
    let int_call = Stmt::CallStmt { name: "int".to_string(), args: vec![Expr::Number(1, sp)], span: sp };
    let main = Function {
        name: "main".to_string(),
        struct_name: None,
        params: vec![],
        return_type: Type::Int,
        body: vec![int_call],
        span: sp,
    };
    let p = Program { imports: vec![], structs: vec![], constants: vec![], functions: vec![main] };
    let out = try_generate(&p).unwrap();
    assert!(out.contains("    side_int(1);\n"));
}

fn let_value(src: &str) -> Expr {
    let mut p = parse_source(src).unwrap();
    match p.functions[0].body.remove(0) {
        Stmt::Let { value, .. } => value,
        _ => panic!("not a let"),
    }
}

#[test]
fn len_of_each_kind_of_value() {
    let mut s = Scope::new();
    s.declare("a", Type::Array);
    s.declare("t", Type::Str);
    s.declare("n", Type::Int);
    let mut out = String::new();
    assert_eq!(generate_expr(&let_value("fn main() { let x = len(a) }"), &mut out, &s), Ok(()));
    assert_eq!(out, "a_size");
    let mut out = String::new();
    assert_eq!(generate_expr(&let_value("fn main() { let x = len(t) }"), &mut out, &s), Ok(()));
    assert_eq!(out, "strlen(t)");
    let mut out = String::new();
    assert_eq!(
        generate_expr(&let_value("fn main() { let x = len(n) }"), &mut out, &s),
        Err(CodegenError::Message("len argument must be array or string".to_string()))
    );
    assert_eq!(out, "");
}

#[test]
fn a_stop_keeps_the_text_written_before_it() {
    let mut s = Scope::new();
    s.declare("n", Type::Int);
    let mut out = "x = ".to_string();
    assert_eq!(
        generate_expr(&let_value("fn main() { let x = 1 + len(n) }"), &mut out, &s),
        Err(CodegenError::Message("len argument must be array or string".to_string()))
    );
    assert_eq!(out, "x = (1 + ");
    let mut out = String::new();
    assert_eq!(generate_expr(&let_value("fn main() { let x = int() }"), &mut out, &s), Err(CodegenError::IndexOutOfBounds));
    assert_eq!(out, "atoi(");
    let mut out = String::new();
    assert_eq!(
        generate_expr(&let_value("fn main() { let x = f(1, a.b()) }"), &mut out, &s),
        Err(CodegenError::Message("Method calls are not supported".to_string()))
    );
    assert_eq!(out, "side_f(1, ");
}

#[test]
fn imports_are_taken_once_in_order() {
    let mut loaded = vec!["a.sd".to_string()];
    let mut pending = vec!["a.sd".to_string(), "b.sd".to_string(), "a.sd".to_string(), "c.sd".to_string()];
    assert_eq!(next_import(&mut loaded, &mut pending), Some("b.sd".to_string()));
    assert_eq!(pending, vec!["a.sd".to_string(), "c.sd".to_string()]);
    assert_eq!(loaded, vec!["a.sd".to_string(), "b.sd".to_string()]);
    assert_eq!(next_import(&mut loaded, &mut pending), Some("c.sd".to_string()));
    assert_eq!(pending.len(), 0);
    assert_eq!(next_import(&mut loaded, &mut pending), None);
    let mut pending = vec!["b.sd".to_string(), "c.sd".to_string()];
    assert_eq!(next_import(&mut loaded, &mut pending), None);
    assert_eq!(pending.len(), 0);
    assert_eq!(loaded.len(), 3);
}

#[test]
fn user_call_check_success_and_unknown_function() {
    let ok = try_generate(&parse_source("fn f(double x, int y) { }\nfn main() { f(1, 2) }").unwrap());
    assert!(ok.is_ok());
    let unknown = try_generate(&parse_source("fn main() { g(1) }").unwrap());
    assert_eq!(unknown, Err(CodegenError::Message("Function 'g' not defined".to_string())));
}

