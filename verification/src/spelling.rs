use vstd::prelude::*;
use crate::ast::{BinOp, TypeV, ExprV};
use crate::token::TokenV;
use crate::lexer::{Class, scan, lemma_scan, lex_from, lex_spec, symbol1, symbol2, word_token, keyword, is_space, is_ident_start};
use crate::text::is_digit;
use crate::grammar::{Level, level_op, compound_op};
use crate::scope::FrameV;
use crate::typing::{c_type, infer};
use crate::emit::{op_text, is_array};
use crate::emit_stmt::{print_format, elem_c_type};

verus! {

/// The characters of each operator's C text.
spec fn op_chars(op: BinOp) -> Seq<char> {
    match op {
        BinOp::Add => seq![' ', '+', ' '],
        BinOp::Sub => seq![' ', '-', ' '],
        BinOp::Mul => seq![' ', '*', ' '],
        BinOp::Div => seq![' ', '/', ' '],
        BinOp::Eq => seq![' ', '=', '=', ' '],
        BinOp::NotEq => seq![' ', '!', '=', ' '],
        BinOp::Less => seq![' ', '<', ' '],
        BinOp::Greater => seq![' ', '>', ' '],
        BinOp::LessEq => seq![' ', '<', '=', ' '],
        BinOp::GreaterEq => seq![' ', '>', '=', ' '],
        BinOp::And => seq![' ', '&', '&', ' '],
        BinOp::Or => seq![' ', '|', '|', ' '],
    }
}

proof fn lemma_op_chars(op: BinOp)
    ensures
        op_text(op) == op_chars(op),
{
    match op {
        BinOp::Add => { reveal_strlit(" + "); assert(op_text(op) =~= op_chars(op)); },
        BinOp::Sub => { reveal_strlit(" - "); assert(op_text(op) =~= op_chars(op)); },
        BinOp::Mul => { reveal_strlit(" * "); assert(op_text(op) =~= op_chars(op)); },
        BinOp::Div => { reveal_strlit(" / "); assert(op_text(op) =~= op_chars(op)); },
        BinOp::Eq => { reveal_strlit(" == "); assert(op_text(op) =~= op_chars(op)); },
        BinOp::NotEq => { reveal_strlit(" != "); assert(op_text(op) =~= op_chars(op)); },
        BinOp::Less => { reveal_strlit(" < "); assert(op_text(op) =~= op_chars(op)); },
        BinOp::Greater => { reveal_strlit(" > "); assert(op_text(op) =~= op_chars(op)); },
        BinOp::LessEq => { reveal_strlit(" <= "); assert(op_text(op) =~= op_chars(op)); },
        BinOp::GreaterEq => { reveal_strlit(" >= "); assert(op_text(op) =~= op_chars(op)); },
        BinOp::And => { reveal_strlit(" && "); assert(op_text(op) =~= op_chars(op)); },
        BinOp::Or => { reveal_strlit(" || "); assert(op_text(op) =~= op_chars(op)); },
    }
}

/// C spells every binary operator as the source does, with a space on each
/// side: the operator that a one- or two-character symbol reads as at any
/// precedence level is written back as that symbol. Distinct operators get
/// distinct texts.
pub proof fn binary_operator_spelled_as_in_source(a: char, b: char, l: Level, op1: BinOp, op2: BinOp)
    ensures
        level_op(l, symbol2(a, b)) is Some ==> op_text(level_op(l, symbol2(a, b))->0) == seq![' ', a, b, ' '],
        level_op(l, symbol1(a)) is Some ==> op_text(level_op(l, symbol1(a))->0) == seq![' ', a, ' '],
        op1 != op2 ==> op_text(op1) != op_text(op2),
{
    if let Some(t) = symbol2(a, b) {
        if let Some(op) = level_op(l, Some(t)) {
            lemma_op_chars(op);
            assert(op_chars(op) =~= seq![' ', a, b, ' ']);
        }
    }
    if let Some(t) = symbol1(a) {
        if let Some(op) = level_op(l, Some(t)) {
            lemma_op_chars(op);
            assert(op_chars(op) =~= seq![' ', a, ' ']);
        }
    }
    lemma_op_chars(op1);
    lemma_op_chars(op2);
    if op1 != op2 {
        let x = op_chars(op1);
        let y = op_chars(op2);
        if x.len() == y.len() {
            assert(x[1] != y[1] || x[2] != y[2]);
        }
    }
}

/// A compound assignment `a op= e` applies the operator that the symbol
/// before `=` reads as on its own (`-=` subtracts, `*=` multiplies), written
/// in C as that symbol.
pub proof fn compound_operator_spelled_as_in_source(a: char, b: char)
    ensures
        compound_op(symbol2(a, b)) is Some ==> {
            &&& b == '='
            &&& op_text(compound_op(symbol2(a, b))->0) == seq![' ', a, ' ']
            &&& (level_op(Level::Mul, symbol1(a)) == compound_op(symbol2(a, b)) || level_op(Level::Add, symbol1(a))
                == compound_op(symbol2(a, b)))
        },
{
    if let Some(t) = symbol2(a, b) {
        if let Some(op) = compound_op(Some(t)) {
            lemma_op_chars(op);
            assert(op_chars(op) =~= seq![' ', a, ' ']);
        }
    }
}

/// The characters of each type's C name, as far as the laws need them.
proof fn lemma_c_type_chars(t: TypeV)
    ensures
        t == TypeV::Int ==> c_type(t) == seq!['i', 'n', 't'],
        t == TypeV::Double ==> c_type(t) == seq!['d', 'o', 'u', 'b', 'l', 'e'],
        t == TypeV::Str ==> c_type(t) == seq!['c', 'o', 'n', 's', 't', ' ', 'c', 'h', 'a', 'r', '*'],
        t == TypeV::Array ==> c_type(t) == seq!['i', 'n', 't', '*'],
        t == TypeV::DoubleArray ==> c_type(t) == seq!['d', 'o', 'u', 'b', 'l', 'e', '*'],
        t is Struct ==> c_type(t).len() > 0 && c_type(t)[0] == 's' && c_type(t).len() != 3,
{
    reveal_strlit("int");
    reveal_strlit("double");
    reveal_strlit("const char*");
    reveal_strlit("int*");
    reveal_strlit("double*");
    reveal_strlit("side_");
    match t {
        TypeV::Int => assert(c_type(t) =~= seq!['i', 'n', 't']),
        TypeV::Double => assert(c_type(t) =~= seq!['d', 'o', 'u', 'b', 'l', 'e']),
        TypeV::Str => assert(c_type(t) =~= seq!['c', 'o', 'n', 's', 't', ' ', 'c', 'h', 'a', 'r', '*']),
        TypeV::Array => assert(c_type(t) =~= seq!['i', 'n', 't', '*']),
        TypeV::DoubleArray => assert(c_type(t) =~= seq!['d', 'o', 'u', 'b', 'l', 'e', '*']),
        TypeV::Struct(n) => {
            assert(c_type(t)[0] == 's');
            assert(c_type(t).len() >= 5);
        },
    }
}

/// A printed value is converted as its C type says: `%f` for a `double`,
/// `%s` for a `const char*` string, `%d` for an `int`.
pub proof fn print_conversion_matches_c_type(t: TypeV)
    ensures
        c_type(t) == "double"@ ==> print_format(t) == "%f"@,
        c_type(t) == "const char*"@ ==> print_format(t) == "%s"@,
        c_type(t) == "int"@ ==> print_format(t) == "%d"@,
{
    reveal_strlit("double");
    reveal_strlit("const char*");
    reveal_strlit("int");
    lemma_c_type_chars(t);
    let d = seq!['d', 'o', 'u', 'b', 'l', 'e'];
    let s = seq!['c', 'o', 'n', 's', 't', ' ', 'c', 'h', 'a', 'r', '*'];
    let i = seq!['i', 'n', 't'];
    assert("double"@ =~= d);
    assert("const char*"@ =~= s);
    assert("int"@ =~= i);
    if c_type(t) == d {
        assert(t == TypeV::Double) by {
            if t != TypeV::Double {
                assert(c_type(t).len() != 6 || c_type(t)[0] != 'd' || c_type(t)[6 - 1] != 'e');
            }
        }
    }
    if c_type(t) == s {
        assert(t == TypeV::Str) by {
            if t != TypeV::Str {
                assert(c_type(t).len() != 11 || c_type(t)[0] != 'c');
            }
        }
    }
    if c_type(t) == i {
        assert(t == TypeV::Int) by {
            if t != TypeV::Int {
                assert(c_type(t).len() != 3 || c_type(t)[0] != 'i');
            }
        }
    }
}

/// Indexing an array gives a value of its element type: the element's C type
/// with `*` added is the array's C type, and it is the type the array's
/// values are declared with.
pub proof fn index_has_element_type(e: ExprV, sc: Seq<FrameV>, fs: Seq<crate::ast::FunctionV>, expected: Option<TypeV>)
    requires
        e matches ExprV::Index { array, .. } && infer(*array, sc, fs, None) matches Ok(at) && is_array(at),
    ensures
        infer(e, sc, fs, expected) matches Ok(t) && (e matches ExprV::Index { array, .. } && infer(*array, sc, fs, None) matches Ok(
            at,
        ) && c_type(t) + "*"@ == c_type(at) && elem_c_type(at) == c_type(t)),
{
    reveal_strlit("double");
    reveal_strlit("int");
    reveal_strlit("int*");
    reveal_strlit("double*");
    reveal_strlit("*");
    if let ExprV::Index { array, .. } = e {
        if let Ok(at) = infer(*array, sc, fs, None) {
            if at == TypeV::Array {
                assert("int"@ + "*"@ =~= "int*"@);
            } else {
                assert("double"@ + "*"@ =~= "double*"@);
            }
        }
    }
}

/// A character that continues a word: a letter, a digit or `_`.
pub open spec fn word_char(c: char) -> bool {
    ('a' <= c && c <= 'z') || ('A' <= c && c <= 'Z') || ('0' <= c && c <= '9') || c == '_'
}

/// What a token read from `cs` between its ends must be: an identifier is a
/// whole run of word characters (the character after it is none); a number
/// is a whole run of decimal digits not followed by `.` and a digit; a string
/// is the text between two double quotes, with no quote inside.
pub open spec fn token_read_whole(t: (TokenV, int, int), cs: Seq<char>) -> bool {
    match t.0 {
        TokenV::Identifier(w) => {
            &&& 0 <= t.1 < t.2 <= cs.len()
            &&& w == cs.subrange(t.1, t.2)
            &&& forall|m: int| t.1 <= m < t.2 ==> word_char(#[trigger] cs[m])
            &&& (t.2 == cs.len() || !word_char(cs[t.2]))
        },
        TokenV::Number(_) => {
            &&& 0 <= t.1 < t.2 <= cs.len()
            &&& forall|m: int| t.1 <= m < t.2 ==> '0' <= #[trigger] cs[m] <= '9'
            &&& (t.2 == cs.len() || !('0' <= cs[t.2] <= '9'))
            &&& !(t.2 + 1 < cs.len() && cs[t.2] == '.' && '0' <= cs[t.2 + 1] <= '9')
        },
        TokenV::StringLiteral(s) => {
            &&& 0 <= t.1 && t.1 + 2 <= t.2 <= cs.len()
            &&& cs[t.1] == '"' && cs[t.2 - 1] == '"'
            &&& s == cs.subrange(t.1 + 1, t.2 - 1)
            &&& forall|m: int| 0 <= m < s.len() ==> #[trigger] s[m] != '"'
        },
        _ => true,
    }
}

/// Every identifier, number and string token is read whole (see `token_read_whole`).
pub open spec fn tokens_read_whole(ts: Seq<(TokenV, int, int)>, cs: Seq<char>) -> bool {
    forall|k: int| 0 <= k < ts.len() ==> token_read_whole(#[trigger] ts[k], cs)
}

proof fn lemma_whole_cons(t: (TokenV, int, int), r: Seq<(TokenV, int, int)>, cs: Seq<char>)
    requires
        tokens_read_whole(r, cs),
        token_read_whole(t, cs),
    ensures
        tokens_read_whole(seq![t] + r, cs),
{
    let s = seq![t] + r;
    assert forall|k: int| 0 <= k < s.len() implies token_read_whole(#[trigger] s[k], cs) by {
        if k > 0 {
            assert(s[k] == r[k - 1]);
        }
    }
}

proof fn lemma_symbols_plain(a: char, b: char)
    ensures
        symbol2(a, b) matches Some(t) ==> !(t is Identifier) && !(t is Number) && !(t is StringLiteral),
        symbol1(a) matches Some(t) ==> !(t is Identifier) && !(t is Number) && !(t is StringLiteral),
{
}

proof fn lemma_lex_from_whole(cs: Seq<char>, i: int)
    requires
        0 <= i <= cs.len(),
    ensures
        lex_from(cs, i) matches Some(ts) ==> tokens_read_whole(ts, cs),
    decreases cs.len() - i,
{
    if i < cs.len() {
        let c = cs[i];
        if is_space(c) {
            lemma_lex_from_whole(cs, i + 1);
        } else if c == '#' && i + 1 < cs.len() && cs[i + 1] == '#' {
            let j = scan(cs, i + 2, Class::NotNewline);
            lemma_scan(cs, i + 2, Class::NotNewline);
            lemma_lex_from_whole(cs, j);
        } else if c == '"' {
            let j = scan(cs, i + 1, Class::NotQuote);
            lemma_scan(cs, i + 1, Class::NotQuote);
            if j < cs.len() {
                lemma_lex_from_whole(cs, j + 1);
                if let Some(r) = lex_from(cs, j + 1) {
                    let t = (TokenV::StringLiteral(cs.subrange(i + 1, j)), i, j + 1);
                    assert(cs[j] == '"');
                    assert forall|m: int| 0 <= m < cs.subrange(i + 1, j).len() implies #[trigger] cs.subrange(i + 1, j)[m]
                        != '"' by {
                        assert(crate::lexer::in_class(Class::NotQuote, cs[i + 1 + m]));
                    }
                    lemma_whole_cons(t, r, cs);
                }
            }
        } else if is_digit(c) {
            let j = scan(cs, i, Class::Digit);
            lemma_scan(cs, i, Class::Digit);
            if j + 1 < cs.len() && cs[j] == '.' && is_digit(cs[j + 1]) {
                let k = scan(cs, j + 1, Class::Digit);
                lemma_scan(cs, j + 1, Class::Digit);
                lemma_lex_from_whole(cs, k);
                if let Some(r) = lex_from(cs, k) {
                    lemma_whole_cons((TokenV::DoubleLiteral(cs.subrange(i, k)), i, k), r, cs);
                }
            } else {
                lemma_lex_from_whole(cs, j);
                if let Some(r) = lex_from(cs, j) {
                    let v = crate::lexer::digits_value(cs.subrange(i, j));
                    if v <= i32::MAX {
                        let t = (TokenV::Number(v as i32), i, j);
                        assert forall|m: int| i <= m < j implies '0' <= #[trigger] cs[m] <= '9' by {
                            assert(crate::lexer::in_class(Class::Digit, cs[m]));
                        }
                        lemma_whole_cons(t, r, cs);
                    }
                }
            }
        } else if is_ident_start(c) {
            let j = scan(cs, i, Class::IdentChar);
            lemma_scan(cs, i, Class::IdentChar);
            lemma_lex_from_whole(cs, j);
            if let Some(r) = lex_from(cs, j) {
                let t = (word_token(cs.subrange(i, j)), i, j);
                if t.0 is Identifier {
                    assert(keyword(cs.subrange(i, j)) is None);
                    assert forall|m: int| i <= m < j implies word_char(#[trigger] cs[m]) by {
                        assert(crate::lexer::in_class(Class::IdentChar, cs[m]));
                    }
                } else {
                    assert(keyword(cs.subrange(i, j)) is Some);
                    assert(!(t.0 is Number) && !(t.0 is StringLiteral));
                }
                lemma_whole_cons(t, r, cs);
            }
        } else if i + 1 < cs.len() && symbol2(c, cs[i + 1]) is Some {
            lemma_symbols_plain(c, cs[i + 1]);
            lemma_lex_from_whole(cs, i + 2);
            if let Some(r) = lex_from(cs, i + 2) {
                lemma_whole_cons((symbol2(c, cs[i + 1])->0, i, i + 2), r, cs);
            }
        } else if symbol1(c) is Some {
            lemma_symbols_plain(c, c);
            lemma_lex_from_whole(cs, i + 1);
            if let Some(r) = lex_from(cs, i + 1) {
                lemma_whole_cons((symbol1(c)->0, i, i + 1), r, cs);
            }
        }
    }
}

/// Identifiers, numbers and strings are read whole: an identifier covers a
/// maximal run of letters, digits and `_` (so `x1` is one identifier) and its
/// text is that run; a number covers a maximal run of digits; a string is the
/// text between its quotes.
pub proof fn words_numbers_and_strings_are_read_whole(cs: Seq<char>)
    ensures
        lex_spec(cs) matches Some(ts) ==> tokens_read_whole(ts, cs),
{
    lemma_lex_from_whole(cs, 0);
}

} // verus!
