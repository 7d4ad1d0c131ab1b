use side_lang::codegen::{generate, try_generate, FOOTER, HEADER, RUNTIME};
use side_lang::driver::parse_source;
use side_lang::emit::CodegenError;

fn program_text(constants: &str, structs: &str, functions: &str) -> String {
    format!("{}{}{}{}{}{}", HEADER, constants, structs, RUNTIME, functions, FOOTER)
}

fn compile(src: &str) -> Result<String, CodegenError> {
    try_generate(&parse_source(src).unwrap())
}

fn gen_error(src: &str) -> String {
    match compile(src) {
        Err(CodegenError::Message(m)) => m,
        other => panic!("expected an error, got {:?}", other),
    }
}

#[test]
fn hello_world() {
    let out = compile("fn main() {\n    io.print(\"Hello\")\n}").unwrap();
    let main = "int side_main() {\n    printf(\"%s\", \"Hello\");\n    printf(\"\\n\");\n    return 0;\n}\n\n";
    assert_eq!(out, program_text("", "", &main));
}

#[test]
fn arithmetic_is_parenthesized() {
    let out = compile("fn main() {\n    let x = 1 + 2 * 3\n    io.print(x)\n}").unwrap();
    let main = "int side_main() {\n    int x = (1 + (2 * 3));\n    printf(\"%d\", x);\n    printf(\"\\n\");\n    return 0;\n}\n\n";
    assert_eq!(out, program_text("", "", &main));
}

#[test]
fn other_functions_come_before_main() {
    let src = "fn main() {\n    let s = add(1, 2)\n    io.print(\"sum\", s)\n}\nfn add(int a, int b) -> int {\n    return a + b\n}";
    let out = compile(src).unwrap();
    let add = "int side_add(int a, int b) {\n    return (a + b);\n    return 0;\n}\n\n";
    let main = "int side_main() {\n    int s = side_add(1, 2);\n    printf(\"%s\", \"sum\");\n    printf(\"%d\", s);\n    printf(\"\\n\");\n    return 0;\n}\n\n";
    assert_eq!(out, program_text("", "", &format!("{}{}", add, main)));
}

#[test]
fn array_variable_with_push_index_and_len() {
    let src = "fn main() {\n    let a = [1, 2, 3]\n    push(a, 4)\n    a[0] = 5\n    pop(a)\n    io.print(len(a))\n}";
    let out = compile(src).unwrap();
    let main = [
        "int side_main() {\n",
        "    int* a = NULL;\n",
        "    int a_size = 0;\n",
        "    int a_cap = 0;\n",
        "    {\n",
        "        int _arr_vals[] = {1, 2, 3};\n",
        "        a = side_arr_create(3, _arr_vals);\n",
        "        a_size = 3;\n",
        "        a_cap = 3;\n",
        "    }\n",
        "    side_arr_push(&a, &a_size, &a_cap, 4);\n",
        "    a[0] = 5;\n",
        "    side_arr_pop(&a, &a_size, &a_cap);\n",
        "    printf(\"%d\", a_size);\n",
        "    printf(\"\\n\");\n",
        "    return 0;\n",
        "}\n\n",
    ].concat();
    assert_eq!(out, program_text("", "", &main));
}

#[test]
fn empty_double_array_takes_the_declared_type() {
    let src = "fn main() {\n    let double[] d = []\n    push(d, 1)\n}";
    let out = compile(src).unwrap();
    let main = [
        "int side_main() {\n",
        "    double* d = NULL;\n",
        "    int d_size = 0;\n",
        "    int d_cap = 0;\n",
        "    side_arr_push_double(&d, &d_size, &d_cap, 1);\n",
        "    return 0;\n",
        "}\n\n",
    ].concat();
    assert_eq!(out, program_text("", "", &main));
}

#[test]
fn for_loop_becomes_a_block_with_a_while_loop() {
    let src = "fn main() {\n    for i = 0, i < 3, i = i + 1 {\n        io.print(i)\n    }\n}";
    let out = compile(src).unwrap();
    let main = [
        "int side_main() {\n",
        "    {\n",
        "        int i = 0;\n",
        "        while ((i < 3)) {\n",
        "            printf(\"%d\", i);\n",
        "            printf(\"\\n\");\n",
        "            i = (i + 1);\n",
        "        }\n",
        "    }\n",
        "    return 0;\n",
        "}\n\n",
    ].concat();
    assert_eq!(out, program_text("", "", &main));
}

#[test]
fn if_else_and_while() {
    let src = "fn main() {\n    let x = 0\n    while x < 2 {\n        x += 1\n    }\n    if x == 2 {\n        break\n    } else {\n        continue\n    }\n}";
    let out = compile(src).unwrap();
    let main = [
        "int side_main() {\n",
        "    int x = 0;\n",
        "    while ((x < 2)) {\n",
        "        x = (x + 1);\n",
        "    }\n",
        "    if ((x == 2)) {\n",
        "        break;\n",
        "    }\n",
        "    else {\n",
        "        continue;\n",
        "    }\n",
        "    return 0;\n",
        "}\n\n",
    ].concat();
    assert_eq!(out, program_text("", "", &main));
}

#[test]
fn constants_and_structs() {
    let src = "let PI = 3.140\nlet NAME = \"side\"\nlet N = 7\nstruct Point { int x double y }\nfn main() {\n    let Point p = Point { 1, 2.5 }\n    io.print(p.x)\n}";
    let out = compile(src).unwrap();
    let constants = "const double PI = 3.14;\nconst char* NAME = \"side\";\nconst int N = 7;\n";
    let structs = "typedef struct {\n    int x;\n    double y;\n} side_Point;\n\n";
    let main = [
        "int side_main() {\n",
        "    side_Point p = (side_Point){1, 2.5};\n",
        "    printf(\"%d\", p.x);\n",
        "    printf(\"\\n\");\n",
        "    return 0;\n",
        "}\n\n",
    ].concat();
    assert_eq!(out, program_text(constants, structs, &main));
}

#[test]
fn builtin_calls_and_expressions() {
    let src = "fn main() {\n    let n = io.input(\"n? \")\n    let d = sqrt(2.0)\n    io.print(str(n), str(d), -n, !n, n < 2 ? 1 : 0, time(), int(\"4\"))\n}";
    let out = compile(src).unwrap();
    let main = [
        "int side_main() {\n",
        "    int n = side_input(\"n? \");\n",
        "    double d = sqrt(2);\n",
        "    printf(\"%s\", side_str(n));\n",
        "    printf(\"%s\", side_str_double(d));\n",
        "    printf(\"%d\", -(n));\n",
        "    printf(\"%d\", !(n));\n",
        "    printf(\"%d\", ((n < 2) ? 1 : 0));\n",
        "    printf(\"%d\", side_time());\n",
        "    printf(\"%d\", atoi(\"4\"));\n",
        "    printf(\"\\n\");\n",
        "    return 0;\n",
        "}\n\n",
    ].concat();
    assert_eq!(out, program_text("", "", &main));
}

#[test]
fn int_widens_to_double() {
    let out = compile("fn f(double x) -> double {\n    return 1\n}\nfn main() {\n    let double d = 1\n    f(2)\n}").unwrap();
    let f = "double side_f(double x) {\n    return 1;\n    return 0;\n}\n\n";
    let main = "int side_main() {\n    double d = 1;\n    side_f(2);\n    return 0;\n}\n\n";
    assert_eq!(out, program_text("", "", &format!("{}{}", f, main)));
}

#[test]
fn generate_gives_the_same_text() {
    let p = parse_source("fn main() { io.print(1) }").unwrap();
    assert_eq!(generate(&p).unwrap(), try_generate(&p).unwrap());
}

#[test]
fn generated_text_starts_with_headers_and_ends_with_entry_point() {
    let out = compile("let K = 2\nfn g() { }\nfn main() { g() }").unwrap();
    assert!(out.starts_with(HEADER));
    assert!(out[HEADER.len()..].starts_with("const int K = 2;\n"));
    assert!(out.ends_with(FOOTER));
    let g_at = out.find("int side_g()").unwrap();
    let main_at = out.find("int side_main()").unwrap();
    assert!(g_at < main_at);
}

#[test]
fn undeclared_variable_in_assignment() {
    assert_eq!(gen_error("fn main() { x = 1 }"), "Variable 'x' not declared in this scope");
}

#[test]
fn undeclared_variable_in_expression() {
    assert_eq!(gen_error("fn main() { io.print(y) }"), "Variable 'y' not declared");
}

#[test]
fn declared_type_must_accept_the_value() {
    assert_eq!(gen_error("fn main() { let int x = \"a\" }"), "Type mismatch: cannot assign Str to variable 'x' of type Int");
}

#[test]
fn struct_type_in_a_message() {
    assert_eq!(
        gen_error("fn main() { let int x = Point { 1 } }"),
        "Type mismatch: cannot assign Struct(\"Point\") to variable 'x' of type Int"
    );
}

#[test]
fn assignment_must_fit_the_variable() {
    assert_eq!(
        gen_error("fn main() { let x = 1\n x = 2.5 }"),
        "Type mismatch: cannot assign Double to variable 'x' of type Int"
    );
}

#[test]
fn element_assignment_checks() {
    assert_eq!(gen_error("fn main() { a[0] = 1 }"), "Variable 'a' not declared");
    assert_eq!(gen_error("fn main() { let a = 1\n a[0] = 1 }"), "Indexing non-array");
    assert_eq!(
        gen_error("fn main() { let a = [1]\n a[0] = \"s\" }"),
        "Type mismatch: cannot assign Str to element of Array"
    );
}

#[test]
fn return_type_must_match() {
    assert_eq!(gen_error("fn f() -> str { return 1 }"), "Return type mismatch: expected Str, got Int");
}

#[test]
fn unknown_function() {
    assert_eq!(gen_error("fn main() { foo(1) }"), "Function 'foo' not defined");
    assert_eq!(gen_error("fn main() { let x = foo(1) }"), "Function 'foo' not defined");
}

#[test]
fn wrong_number_of_arguments() {
    assert_eq!(
        gen_error("fn f(int a) { return a }\nfn main() { f(1, 2) }"),
        "Function 'f' expects 1 arguments, got 2"
    );
}

#[test]
fn wrong_argument_type() {
    assert_eq!(
        gen_error("fn f(int a) { return a }\nfn main() { f(\"s\") }"),
        "Argument type mismatch in 'f': parameter 'a' expects Int, got Str"
    );
}

#[test]
fn builtin_call_statement_checks() {
    assert_eq!(gen_error("fn main() { let x = 1\n push(x, 1) }"), "First argument of 'push' must be an array");
    assert_eq!(gen_error("fn main() { push(1, 1) }"), "Expected a variable name");
    assert_eq!(gen_error("fn main() { push(q, 1) }"), "Variable 'q' not found");
    assert_eq!(gen_error("fn main() { let a = [1]\n push(a) }"), "push requires 2 arguments");
    assert_eq!(gen_error("fn main() { let a = [1]\n pop(a, 1) }"), "pop requires 1 argument");
    assert_eq!(gen_error("fn main() { let a = [1]\n push(a, \"s\") }"), "push: expected int element, got Str");
    assert_eq!(gen_error("fn main() { len(1, 2) }"), "len requires 1 argument");
    assert_eq!(gen_error("fn main() { len(1) }"), "len argument must be array or string");
    assert_eq!(gen_error("fn main() { time(1) }"), "'time' takes no arguments");
    assert_eq!(gen_error("fn main() { sqrt() }"), "'sqrt' requires 1 argument");
    assert_eq!(gen_error("fn main() { fabs(\"s\") }"), "'fabs' argument must be numeric");
    assert_eq!(gen_error("fn main() { pow(1) }"), "pow requires 2 arguments");
    assert_eq!(gen_error("fn main() { pow(1, \"s\") }"), "pow arguments must be numeric");
}

#[test]
fn builtin_expression_checks() {
    assert_eq!(gen_error("fn main() { let x = len(1) }"), "len argument must be array or string");
    assert_eq!(gen_error("fn main() { let x = len() }"), "len requires 1 argument");
    assert_eq!(gen_error("fn main() { let x = str(1, 2) }"), "str() requires 1 argument");
    assert_eq!(gen_error("fn main() { let x = 1\n let y = len(x) }"), "len argument must be array or string");
}

#[test]
fn method_calls_are_refused() {
    assert_eq!(gen_error("fn main() { let y = a.b() }"), "Method calls are not supported");
}

#[test]
fn indexing_a_scalar_is_refused() {
    assert_eq!(gen_error("fn main() { let x = 1\n let y = x[0] }"), "Indexing non-array");
}

#[test]
fn missing_argument_is_out_of_bounds() {
    assert_eq!(compile("fn main() { let x = int() }").unwrap_err(), CodegenError::IndexOutOfBounds);
    assert_eq!(compile("fn main() { push() }").unwrap_err(), CodegenError::IndexOutOfBounds);
    assert_eq!(compile("fn main() { pop() }").unwrap_err(), CodegenError::IndexOutOfBounds);
}

#[test]
fn constant_errors_come_first() {
    assert_eq!(gen_error("let K = a.b()\nfn main() { x = 1 }"), "Method calls are not supported");
}

#[test]
fn block_declarations_end_with_the_block() {
    assert_eq!(
        gen_error("fn main() {\n    if 1 {\n        let t = 1\n    }\n    t = 2\n}"),
        "Variable 't' not declared in this scope"
    );
}
