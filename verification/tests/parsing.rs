use side_lang::ast::{BinOp, Expr, Stmt, Type, UnaryOp};
use side_lang::driver::{import_error, parse_source, source_error, FrontError};
use side_lang::lexer::lex;
use side_lang::parser::Parser;

fn syntax_error(src: &str) -> String {
    match parse_source(src) {
        Err(FrontError::Syntax(m)) => m,
        other => panic!("expected a syntax error, got {:?}", other),
    }
}

#[test]
fn parses_a_small_program() {
    let p = parse_source("fn main() {\n    io.print(\"hi\")\n}").unwrap();
    assert_eq!(p.functions.len(), 1);
    let f = &p.functions[0];
    assert_eq!(f.name, "main");
    assert_eq!(f.struct_name, None);
    assert_eq!(f.return_type, Type::Int);
    assert_eq!(f.params.len(), 0);
    assert_eq!(f.body.len(), 1);
    match &f.body[0] {
        Stmt::IoPrint(args, _) => {
            assert_eq!(args.len(), 1);
            match &args[0] {
                Expr::StringLiteral(s, _) => assert_eq!(s, "hi"),
                other => panic!("unexpected {:?}", other),
            }
        },
        other => panic!("unexpected {:?}", other),
    }
}

#[test]
fn parser_new_and_parse_program_work_on_lexed_tokens() {
    let src = "import \"lib.sd\"\nlet N = 3\nstruct P { int x double y }";
    let toks = lex(src).unwrap();
    let mut parser = Parser::new(toks, src.to_string());
    let p = parser.parse_program().unwrap();
    assert_eq!(p.imports, vec!["lib.sd".to_string()]);
    assert_eq!(p.constants.len(), 1);
    assert_eq!(p.constants[0].name, "N");
    assert_eq!(p.structs.len(), 1);
    assert_eq!(p.structs[0].name, "P");
    assert_eq!(p.structs[0].fields.len(), 2);
    assert_eq!(p.structs[0].fields[0].name, "x");
    assert_eq!(p.structs[0].fields[0].field_type, Type::Int);
    assert_eq!(p.structs[0].fields[1].name, "y");
    assert_eq!(p.structs[0].fields[1].field_type, Type::Double);
}

#[test]
fn statement_spans_are_token_indices() {
    let p = parse_source("fn main() { return 1 }").unwrap();
    match &p.functions[0].body[0] {
        Stmt::Return(e, span) => {
            assert_eq!(span.start, 5);
            assert_eq!(span.end, 6);
            assert_eq!(e.span().start, 19);
            assert_eq!(e.span().end, 20);
        },
        other => panic!("unexpected {:?}", other),
    }
    assert_eq!(p.functions[0].span.start, 0);
    assert_eq!(p.functions[0].span.end, 7);
}

#[test]
fn operator_precedence_and_associativity() {
    let p = parse_source("fn main() { let x = 1 + 2 * 3 - 4 }").unwrap();
    match &p.functions[0].body[0] {
        Stmt::Let { value: Expr::Binary { left, op: BinOp::Sub, right, .. }, .. } => {
            match (&**left, &**right) {
                (Expr::Binary { op: BinOp::Add, right: inner, .. }, Expr::Number(4, _)) => match &**inner {
                    Expr::Binary { op: BinOp::Mul, .. } => {},
                    other => panic!("unexpected {:?}", other),
                },
                other => panic!("unexpected {:?}", other),
            }
        },
        other => panic!("unexpected {:?}", other),
    }
}

#[test]
fn compound_assignment_becomes_a_binary_expression() {
    let p = parse_source("fn main() { x += 2 }").unwrap();
    match &p.functions[0].body[0] {
        Stmt::Assign { name, value: Expr::Binary { left, op: BinOp::Add, right, .. }, .. } => {
            assert_eq!(name, "x");
            match (&**left, &**right) {
                (Expr::Variable(v, _), Expr::Number(2, _)) => assert_eq!(v, "x"),
                other => panic!("unexpected {:?}", other),
            }
        },
        other => panic!("unexpected {:?}", other),
    }
}

#[test]
fn unary_and_ternary_expressions() {
    let p = parse_source("fn main() { let x = !a ? -1 : 2 }").unwrap();
    match &p.functions[0].body[0] {
        Stmt::Let { value: Expr::Ternary { condition, then_expr, .. }, .. } => {
            match &**condition {
                Expr::Unary { op: UnaryOp::Not, .. } => {},
                other => panic!("unexpected {:?}", other),
            }
            match &**then_expr {
                Expr::Unary { op: UnaryOp::Neg, .. } => {},
                other => panic!("unexpected {:?}", other),
            }
        },
        other => panic!("unexpected {:?}", other),
    }
}

#[test]
fn typed_declarations_and_array_types() {
    let p = parse_source("fn f(int[] a, double[4] b, Point c, str d) -> double { let double[] e = [] }").unwrap();
    let f = &p.functions[0];
    assert_eq!(f.return_type, Type::Double);
    assert_eq!(f.params.len(), 4);
    assert_eq!(f.params[0].param_type, Type::Array);
    assert_eq!(f.params[1].param_type, Type::DoubleArray);
    assert_eq!(f.params[2].param_type, Type::Struct("Point".to_string()));
    assert_eq!(f.params[3].param_type, Type::Str);
    match &f.body[0] {
        Stmt::Let { name, var_type, .. } => {
            assert_eq!(name, "e");
            assert_eq!(var_type, &Some(Type::DoubleArray));
        },
        other => panic!("unexpected {:?}", other),
    }
}

#[test]
fn method_definition_records_its_struct() {
    let p = parse_source("fn Point.norm() { return 0 }").unwrap();
    assert_eq!(p.functions[0].name, "norm");
    assert_eq!(p.functions[0].struct_name, Some("Point".to_string()));
}

#[test]
fn else_if_nests_an_if_in_the_else_branch() {
    let p = parse_source("fn main() { if 1 { } else if 2 { } else { break } }").unwrap();
    match &p.functions[0].body[0] {
        Stmt::If { else_body: Some(e), .. } => {
            assert_eq!(e.len(), 1);
            match &e[0] {
                Stmt::If { else_body: Some(inner), .. } => {
                    assert_eq!(inner.len(), 1);
                },
                other => panic!("unexpected {:?}", other),
            }
        },
        other => panic!("unexpected {:?}", other),
    }
}

#[test]
fn for_loop_parts() {
    let p = parse_source("fn main() { for i = 0, i < 3, i = i + 1 { continue } }").unwrap();
    match &p.functions[0].body[0] {
        Stmt::For { var_name, body, .. } => {
            assert_eq!(var_name, "i");
            assert_eq!(body.len(), 1);
        },
        other => panic!("unexpected {:?}", other),
    }
}

#[test]
fn missing_variable_name_reports_line_and_column() {
    assert_eq!(syntax_error("fn main() { let = 5 }"), "Error at 1:17: Expected variable name after 'let'");
}

#[test]
fn unexpected_top_level_token() {
    assert_eq!(syntax_error("42"), "Error at 1:1: Unexpected top-level token: Some(Number(42))");
}

#[test]
fn missing_parameter_name() {
    assert_eq!(syntax_error("fn main( {"), "Error at 1:10: Expected parameter name");
}

#[test]
fn import_needs_a_string() {
    assert_eq!(syntax_error("import 5"), "Error at 1:8: Expected string literal after 'import'");
}

#[test]
fn error_past_the_last_token_has_no_position() {
    assert_eq!(syntax_error("struct P { int x"), "Error at 0:0: Expected field name");
}

#[test]
fn expected_token_message_shows_both_tokens() {
    assert_eq!(syntax_error("fn f() { while 1 }"), "Error at 1:18: Syntax error: expected LBrace, got Some(RBrace)");
}

#[test]
fn expected_token_message_at_end_of_input() {
    assert_eq!(syntax_error("fn f() {"), "Error at 0:0: Syntax error: expected RBrace, got None");
}

#[test]
fn line_numbers_count_newlines() {
    assert_eq!(syntax_error("fn main() {\n  io.print(1)\n  )\n}"), "Error at 3:3: Unexpected token at statement start: Some(RParen)");
}

#[test]
fn column_counts_characters_up_to_the_byte_offset() {
    assert_eq!(syntax_error("import \"é\" 5"), "Error at 1:13: Unexpected top-level token: Some(Number(5))");
}

#[test]
fn function_needs_a_name() {
    assert_eq!(syntax_error("fn int f() { }"), "Error at 1:4: Expected function name or struct name");
}

#[test]
fn struct_arrays_are_refused() {
    assert_eq!(syntax_error("fn f(P[] a) { }"), "Error at 1:7: Static arrays of structs are not yet supported");
}

#[test]
fn conversion_needs_parentheses() {
    assert_eq!(syntax_error("fn f() { let x = int }"), "Error at 1:22: Expected '(' after 'int'");
}

#[test]
fn lexical_error_is_reported_as_such() {
    assert_eq!(parse_source("let @").unwrap_err(), FrontError::Lexical);
}

#[test]
fn front_end_messages() {
    assert_eq!(source_error(&FrontError::Lexical), "Lexical error: unexpected characters in source");
    assert_eq!(source_error(&FrontError::Syntax("bad".to_string())), "Parse error: bad");
    assert_eq!(import_error(&"m.sd".to_string(), &FrontError::Lexical), "Lexical error in import 'm.sd'");
    assert_eq!(import_error(&"m.sd".to_string(), &FrontError::Syntax("bad".to_string())), "Parse error in import 'm.sd': bad");
}
