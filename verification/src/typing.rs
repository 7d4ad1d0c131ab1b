use vstd::prelude::*;
use crate::ast::{Type, TypeV, Expr, ExprV, Function, FunctionV, lemma_view_exprs};
use crate::scope::{Scope, FrameV, scope_get};
use crate::text::{str_debug, string_push, debug_string};

verus! {

/// Whether a value of type `actual` may be stored where `expected` is wanted:
/// the same type, or an `int` where a `double` is wanted.
pub open spec fn compatible(expected: TypeV, actual: TypeV) -> bool {
    match (expected, actual) {
        (TypeV::Int, TypeV::Int) => true,
        (TypeV::Double, TypeV::Double) => true,
        (TypeV::Double, TypeV::Int) => true,
        (TypeV::Str, TypeV::Str) => true,
        (TypeV::Array, TypeV::Array) => true,
        (TypeV::DoubleArray, TypeV::DoubleArray) => true,
        (TypeV::Struct(a), TypeV::Struct(b)) => a == b,
        _ => false,
    }
}

/// The C type that holds a value of type `t`.
pub open spec fn c_type(t: TypeV) -> Seq<char> {
    match t {
        TypeV::Int => "int"@,
        TypeV::Double => "double"@,
        TypeV::Str => "const char*"@,
        TypeV::Array => "int*"@,
        TypeV::DoubleArray => "double*"@,
        TypeV::Struct(name) => "side_"@ + name,
    }
}

/// What `{:?}` prints for a type.
pub open spec fn type_debug(t: TypeV) -> Seq<char> {
    match t {
        TypeV::Int => "Int"@,
        TypeV::Double => "Double"@,
        TypeV::Str => "Str"@,
        TypeV::Array => "Array"@,
        TypeV::DoubleArray => "DoubleArray"@,
        TypeV::Struct(name) => "Struct"@ + seq!['('] + str_debug(name) + seq![')'],
    }
}

pub open spec fn functions_view(fs: Seq<Function>) -> Seq<FunctionV> {
    fs.map_values(|f: Function| f@)
}

/// The first function at or after index `i` with the given name.
pub open spec fn find_function_from(fs: Seq<FunctionV>, name: Seq<char>, i: int) -> Option<FunctionV>
    decreases fs.len() - i,
{
    if i < 0 || i >= fs.len() {
        None
    } else if fs[i].name == name {
        Some(fs[i])
    } else {
        find_function_from(fs, name, i + 1)
    }
}

/// The first function with the given name.
pub open spec fn find_function(fs: Seq<FunctionV>, name: Seq<char>) -> Option<FunctionV> {
    find_function_from(fs, name, 0)
}

/// Calls the code generator provides itself, with the type they return.
pub open spec fn builtin_type(name: Seq<char>) -> Option<TypeV> {
    if name == "len"@ || name == "time"@ || name == "rand"@ || name == "int"@ {
        Some(TypeV::Int)
    } else if name == "sqrt"@ || name == "pow"@ || name == "fabs"@ {
        Some(TypeV::Double)
    } else if name == "str"@ {
        Some(TypeV::Str)
    } else {
        None
    }
}

/// The type of an expression. Array literals take their type from their first
/// element, or from `expected` when empty; arithmetic is `double` when either
/// side is; field access is taken to be `int`.
pub open spec fn infer(e: ExprV, sc: Seq<FrameV>, fs: Seq<FunctionV>, expected: Option<TypeV>) -> Result<TypeV, Seq<char>>
    decreases e,
{
    match e {
        ExprV::Number(..) => Ok(TypeV::Int),
        ExprV::DoubleLiteral(..) => Ok(TypeV::Double),
        ExprV::StringLiteral(..) => Ok(TypeV::Str),
        ExprV::Variable(name, _) => match scope_get(sc, name) {
            Some(t) => Ok(t),
            None => Err("Variable '"@ + name + "' not declared"@),
        },
        ExprV::Input(..) => Ok(TypeV::Int),
        ExprV::Call { name, .. } => match builtin_type(name) {
            Some(t) => Ok(t),
            None => match find_function(fs, name) {
                Some(f) => Ok(f.return_type),
                None => Err("Function '"@ + name + "' not defined"@),
            },
        },
        ExprV::StructLiteral { name, .. } => Ok(TypeV::Struct(name)),
        ExprV::ArrayLiteral(elements, _) => if elements.len() == 0 {
            match expected {
                Some(TypeV::DoubleArray) => Ok(TypeV::DoubleArray),
                _ => Ok(TypeV::Array),
            }
        } else {
            match infer(elements[0], sc, fs, None) {
                Err(m) => Err(m),
                Ok(TypeV::Double) => Ok(TypeV::DoubleArray),
                Ok(_) => Ok(TypeV::Array),
            }
        },
        ExprV::Index { array, .. } => match infer(*array, sc, fs, None) {
            Err(m) => Err(m),
            Ok(TypeV::Array) => Ok(TypeV::Int),
            Ok(TypeV::DoubleArray) => Ok(TypeV::Double),
            Ok(_) => Err("Indexing non-array"@),
        },
        ExprV::FieldAccess { .. } => Ok(TypeV::Int),
        ExprV::Binary { left, right, .. } => match infer(*left, sc, fs, None) {
            Err(m) => Err(m),
            Ok(tl) => match infer(*right, sc, fs, None) {
                Err(m) => Err(m),
                Ok(tr) => if tl == TypeV::Double || tr == TypeV::Double {
                    Ok(TypeV::Double)
                } else {
                    Ok(TypeV::Int)
                },
            },
        },
        ExprV::Unary { expr, .. } => infer(*expr, sc, fs, None),
        ExprV::MethodCall { .. } => Err("Method calls are not supported"@),
        ExprV::Ternary { then_expr, .. } => infer(*then_expr, sc, fs, expected),
    }
}

/// Whether `a` may be stored where `e` is wanted (see `compatible`).
pub fn type_compatible(expected: &Type, actual: &Type) -> (b: bool)
    ensures
        b == compatible(expected@, actual@),
{
    match (expected, actual) {
        (Type::Int, Type::Int) => true,
        (Type::Double, Type::Double) => true,
        (Type::Double, Type::Int) => true,
        (Type::Str, Type::Str) => true,
        (Type::Array, Type::Array) => true,
        (Type::DoubleArray, Type::DoubleArray) => true,
        (Type::Struct(a), Type::Struct(b)) => *a == *b,
        _ => false,
    }
}

/// The C type that holds a value of type `tp`.
pub fn type_to_c(tp: &Type) -> (s: String)
    ensures
        s@ == c_type(tp@),
{
    match tp {
        Type::Int => String::from_str("int"),
        Type::Double => String::from_str("double"),
        Type::Str => String::from_str("const char*"),
        Type::Array => String::from_str("int*"),
        Type::DoubleArray => String::from_str("double*"),
        Type::Struct(name) => {
            let mut s = String::from_str("side_");
            s.append(name.as_str());
            s
        },
    }
}

/// The `{:?}` rendering of a type.
pub fn type_debug_text(tp: &Type) -> (s: String)
    ensures
        s@ == type_debug(tp@),
{
    match tp {
        Type::Int => String::from_str("Int"),
        Type::Double => String::from_str("Double"),
        Type::Str => String::from_str("Str"),
        Type::Array => String::from_str("Array"),
        Type::DoubleArray => String::from_str("DoubleArray"),
        Type::Struct(name) => {
            let mut s = String::from_str("Struct");
            string_push(&mut s, '(');
            let d = debug_string(name);
            s.append(d.as_str());
            string_push(&mut s, ')');
            s
        },
    }
}

/// Whether a string spells the given text.
pub fn is_word(s: &String, w: &str) -> (b: bool)
    ensures
        b == (s@ == w@),
{
    *s == String::from_str(w)
}

/// The index of the first function with the given name.
pub fn find_function_index(functions: &[Function], name: &String) -> (r: Option<usize>)
    ensures
        match r {
            Some(i) => i < functions@.len() && find_function(functions_view(functions@), name@) == Some(functions@[i as int]@),
            None => find_function(functions_view(functions@), name@) is None,
        },
{
    let ghost fs = functions_view(functions@);
    let mut i: usize = 0;
    while i < functions.len()
        invariant
            i <= functions@.len(),
            fs == functions_view(functions@),
            find_function(fs, name@) == find_function_from(fs, name@, i as int),
        decreases functions.len() - i,
    {
        if functions[i].name == *name {
            return Some(i);
        }
        i = i + 1;
    }
    None
}

/// The type of an expression (see `infer`).
pub fn infer_type(expr: &Expr, scope: &Scope, functions: &[Function], expected: Option<&Type>) -> (r: Result<Type, String>)
    ensures
        match infer(expr@, scope@, functions_view(functions@), match expected { Some(t) => Some(t@), None => None }) {
            Ok(t) => r matches Ok(x) && x@ == t,
            Err(m) => r matches Err(e) && e@ == m,
        },
    decreases expr,
{
    match expr {
        Expr::Number(..) => Ok(Type::Int),
        Expr::DoubleLiteral(..) => Ok(Type::Double),
        Expr::StringLiteral(..) => Ok(Type::Str),
        Expr::Variable(name, _) => match scope.get(name.as_str()) {
            Some(t) => Ok(t),
            None => {
                let mut m = String::from_str("Variable '");
                m.append(name.as_str());
                m.append("' not declared");
                Err(m)
            },
        },
        Expr::Input(..) => Ok(Type::Int),
        Expr::Call { name, .. } => {
            if is_word(name, "len") || is_word(name, "time") || is_word(name, "rand") || is_word(name, "int") {
                Ok(Type::Int)
            } else if is_word(name, "sqrt") || is_word(name, "pow") || is_word(name, "fabs") {
                Ok(Type::Double)
            } else if is_word(name, "str") {
                Ok(Type::Str)
            } else {
                match find_function_index(functions, name) {
                    Some(i) => Ok(functions[i].return_type.duplicate()),
                    None => {
                        let mut m = String::from_str("Function '");
                        m.append(name.as_str());
                        m.append("' not defined");
                        Err(m)
                    },
                }
            }
        },
        Expr::StructLiteral { name, .. } => Ok(Type::Struct(name.clone())),
        Expr::ArrayLiteral(elements, _) => {
            proof { lemma_view_exprs(elements@); }
            if elements.len() == 0 {
                match expected {
                    Some(Type::DoubleArray) => Ok(Type::DoubleArray),
                    _ => Ok(Type::Array),
                }
            } else {
                let first_type = infer_type(&elements[0], scope, functions, None)?;
                match first_type {
                    Type::Double => Ok(Type::DoubleArray),
                    _ => Ok(Type::Array),
                }
            }
        },
        Expr::Index { array, .. } => {
            let arr_type = infer_type(array, scope, functions, None)?;
            match arr_type {
                Type::Array => Ok(Type::Int),
                Type::DoubleArray => Ok(Type::Double),
                _ => Err(String::from_str("Indexing non-array")),
            }
        },
        Expr::FieldAccess { .. } => Ok(Type::Int),
        Expr::Binary { left, right, .. } => {
            let tl = infer_type(left, scope, functions, None)?;
            let tr = infer_type(right, scope, functions, None)?;
            let either_double = match (&tl, &tr) {
                (Type::Double, _) => true,
                (_, Type::Double) => true,
                _ => false,
            };
            if either_double {
                Ok(Type::Double)
            } else {
                Ok(Type::Int)
            }
        },
        Expr::Unary { expr, .. } => infer_type(expr, scope, functions, None),
        Expr::MethodCall { .. } => Err(String::from_str("Method calls are not supported")),
        Expr::Ternary { then_expr, .. } => infer_type(then_expr, scope, functions, expected),
    }
}

/// Every type accepts values of its own type.
pub proof fn compatible_reflexive(t: TypeV)
    ensures
        compatible(t, t),
{
}

/// The one conversion allowed between different types is from `int` to `double`.
pub proof fn compatible_only_widens(expected: TypeV, actual: TypeV)
    requires
        compatible(expected, actual),
        expected != actual,
    ensures
        expected == TypeV::Double,
        actual == TypeV::Int,
{
}

} // verus!
