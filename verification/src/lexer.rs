use vstd::prelude::*;
use crate::text::{is_digit, digit_value, byte_offset, char_width, string_chars, push_range, lemma_byte_offset_step, lemma_byte_offset_bound};
use crate::token::{Token, TokenV};

verus! {

/// Characters the lexer skips between tokens.
pub open spec fn is_space(c: char) -> bool {
    c == ' ' || c == '\t' || c == '\r' || c == '\n' || c == '\x0C'
}

/// Characters that may start an identifier.
pub open spec fn is_ident_start(c: char) -> bool {
    ('a' <= c && c <= 'z') || ('A' <= c && c <= 'Z') || c == '_'
}

/// Character classes that the lexer scans over.
pub enum Class {
    IdentChar,
    Digit,
    NotNewline,
    NotQuote,
}

pub open spec fn in_class(k: Class, c: char) -> bool {
    match k {
        Class::IdentChar => is_ident_start(c) || is_digit(c),
        Class::Digit => is_digit(c),
        Class::NotNewline => c != '\n',
        Class::NotQuote => c != '"',
    }
}

/// The first index at or after `i` whose character is not in class `k`.
pub open spec fn scan(cs: Seq<char>, i: int, k: Class) -> int
    decreases cs.len() - i,
{
    if 0 <= i < cs.len() && in_class(k, cs[i]) {
        scan(cs, i + 1, k)
    } else {
        i
    }
}

pub proof fn lemma_scan(cs: Seq<char>, i: int, k: Class)
    requires
        0 <= i <= cs.len(),
    ensures
        i <= scan(cs, i, k) <= cs.len(),
        forall|m: int| i <= m < scan(cs, i, k) ==> in_class(k, #[trigger] cs[m]),
        scan(cs, i, k) < cs.len() ==> !in_class(k, cs[scan(cs, i, k)]),
    decreases cs.len() - i,
{
    if i < cs.len() && in_class(k, cs[i]) {
        lemma_scan(cs, i + 1, k);
    }
}

fn class_has(k: &Class, c: char) -> (b: bool)
    ensures
        b == in_class(*k, c),
{
    match k {
        Class::IdentChar => ('a' <= c && c <= 'z') || ('A' <= c && c <= 'Z') || c == '_' || ('0' <= c && c <= '9'),
        Class::Digit => '0' <= c && c <= '9',
        Class::NotNewline => c != '\n',
        Class::NotQuote => c != '"',
    }
}

fn scan_exec(cs: &Vec<char>, i: usize, k: Class) -> (j: usize)
    requires
        i <= cs.len(),
    ensures
        j == scan(cs@, i as int, k),
        i <= j <= cs.len(),
{
    let mut j = i;
    while j < cs.len() && class_has(&k, cs[j])
        invariant
            i <= j <= cs.len(),
            scan(cs@, i as int, k) == scan(cs@, j as int, k),
        decreases cs.len() - j,
    {
        j = j + 1;
    }
    j
}

/// The value of a run of decimal digits.
pub open spec fn digits_value(s: Seq<char>) -> nat
    decreases s.len(),
{
    if s.len() == 0 {
        0
    } else {
        (digits_value(s.drop_last()) * 10 + digit_value(s.last())) as nat
    }
}

proof fn lemma_digits_value_prefix(s: Seq<char>, m: int)
    requires
        0 <= m <= s.len(),
        forall|k: int| 0 <= k < s.len() ==> is_digit(#[trigger] s[k]),
    ensures
        digits_value(s.take(m)) <= digits_value(s),
    decreases s.len(),
{
    if m < s.len() {
        assert forall|k: int| 0 <= k < s.drop_last().len() implies is_digit(#[trigger] s.drop_last()[k]) by {
            assert(s.drop_last()[k] == s[k]);
        }
        lemma_digits_value_prefix(s.drop_last(), m);
        assert(s.drop_last().take(m) =~= s.take(m));
        assert(is_digit(s[s.len() - 1]));
    } else {
        assert(s.take(m) =~= s);
    }
}

/// The keyword a word spells, if any.
pub open spec fn keyword(w: Seq<char>) -> Option<TokenV> {
    if w == seq!['f', 'n'] {
        Some(TokenV::Fn)
    } else if w == seq!['l', 'e', 't'] {
        Some(TokenV::Let)
    } else if w == seq!['i', 'f'] {
        Some(TokenV::If)
    } else if w == seq!['e', 'l', 's', 'e'] {
        Some(TokenV::Else)
    } else if w == seq!['w', 'h', 'i', 'l', 'e'] {
        Some(TokenV::While)
    } else if w == seq!['f', 'o', 'r'] {
        Some(TokenV::For)
    } else if w == seq!['r', 'e', 't', 'u', 'r', 'n'] {
        Some(TokenV::Return)
    } else if w == seq!['b', 'r', 'e', 'a', 'k'] {
        Some(TokenV::Break)
    } else if w == seq!['c', 'o', 'n', 't', 'i', 'n', 'u', 'e'] {
        Some(TokenV::Continue)
    } else if w == seq!['i', 'm', 'p', 'o', 'r', 't'] {
        Some(TokenV::Import)
    } else if w == seq!['s', 't', 'r', 'u', 'c', 't'] {
        Some(TokenV::Struct)
    } else if w == seq!['i', 'n', 't'] {
        Some(TokenV::Int)
    } else if w == seq!['d', 'o', 'u', 'b', 'l', 'e'] {
        Some(TokenV::Double)
    } else if w == seq!['s', 't', 'r'] {
        Some(TokenV::Str)
    } else if w == seq!['i', 'o'] {
        Some(TokenV::Io)
    } else if w == seq!['p', 'r', 'i', 'n', 't'] {
        Some(TokenV::Print)
    } else if w == seq!['i', 'n', 'p', 'u', 't'] {
        Some(TokenV::Input)
    } else {
        None
    }
}

/// The token a word lexes to: a keyword, or else an identifier.
pub open spec fn word_token(w: Seq<char>) -> TokenV {
    match keyword(w) {
        Some(t) => t,
        None => TokenV::Identifier(w),
    }
}

/// Two-character operators.
pub open spec fn symbol2(a: char, b: char) -> Option<TokenV> {
    if a == '=' && b == '=' {
        Some(TokenV::EqualEqual)
    } else if a == '!' && b == '=' {
        Some(TokenV::NotEqual)
    } else if a == '<' && b == '=' {
        Some(TokenV::LessEqual)
    } else if a == '>' && b == '=' {
        Some(TokenV::GreaterEqual)
    } else if a == '-' && b == '>' {
        Some(TokenV::Arrow)
    } else if a == '+' && b == '=' {
        Some(TokenV::PlusEquals)
    } else if a == '-' && b == '=' {
        Some(TokenV::MinusEquals)
    } else if a == '*' && b == '=' {
        Some(TokenV::StarEquals)
    } else if a == '/' && b == '=' {
        Some(TokenV::SlashEquals)
    } else if a == '&' && b == '&' {
        Some(TokenV::And)
    } else if a == '|' && b == '|' {
        Some(TokenV::Or)
    } else {
        None
    }
}

/// One-character punctuation and operators.
pub open spec fn symbol1(a: char) -> Option<TokenV> {
    if a == '.' {
        Some(TokenV::Dot)
    } else if a == ',' {
        Some(TokenV::Comma)
    } else if a == ':' {
        Some(TokenV::Colon)
    } else if a == '?' {
        Some(TokenV::Question)
    } else if a == '(' {
        Some(TokenV::LParen)
    } else if a == ')' {
        Some(TokenV::RParen)
    } else if a == '{' {
        Some(TokenV::LBrace)
    } else if a == '}' {
        Some(TokenV::RBrace)
    } else if a == '[' {
        Some(TokenV::LBracket)
    } else if a == ']' {
        Some(TokenV::RBracket)
    } else if a == '=' {
        Some(TokenV::Equals)
    } else if a == '<' {
        Some(TokenV::Less)
    } else if a == '>' {
        Some(TokenV::Greater)
    } else if a == '+' {
        Some(TokenV::Plus)
    } else if a == '-' {
        Some(TokenV::Minus)
    } else if a == '*' {
        Some(TokenV::Star)
    } else if a == '/' {
        Some(TokenV::Slash)
    } else if a == '!' {
        Some(TokenV::Not)
    } else {
        None
    }
}

pub open spec fn view_opt_token(o: Option<Token>) -> Option<TokenV> {
    match o {
        Some(t) => Some(t@),
        None => None,
    }
}

fn keyword_exec(cs: &Vec<char>, i: usize, j: usize) -> (r: Option<Token>)
    requires
        i <= j <= cs.len(),
    ensures
        view_opt_token(r) == keyword(cs@.subrange(i as int, j as int)),
{
    let ghost w = cs@.subrange(i as int, j as int);
    let len = j - i;
    if len == 2 && cs[i + 0] == 'f' && cs[i + 1] == 'n' {
        assert(w =~= seq!['f', 'n']);
        return Some(Token::Fn);
    }
    assert(w != seq!['f', 'n']) by {
        if w == seq!['f', 'n'] {
            assert(w.len() == 2);
            assert(w[0] == 'f');
            assert(w[1] == 'n');
        }
    }
    if len == 3 && cs[i + 0] == 'l' && cs[i + 1] == 'e' && cs[i + 2] == 't' {
        assert(w =~= seq!['l', 'e', 't']);
        return Some(Token::Let);
    }
    assert(w != seq!['l', 'e', 't']) by {
        if w == seq!['l', 'e', 't'] {
            assert(w.len() == 3);
            assert(w[0] == 'l');
            assert(w[1] == 'e');
            assert(w[2] == 't');
        }
    }
    if len == 2 && cs[i + 0] == 'i' && cs[i + 1] == 'f' {
        assert(w =~= seq!['i', 'f']);
        return Some(Token::If);
    }
    assert(w != seq!['i', 'f']) by {
        if w == seq!['i', 'f'] {
            assert(w.len() == 2);
            assert(w[0] == 'i');
            assert(w[1] == 'f');
        }
    }
    if len == 4 && cs[i + 0] == 'e' && cs[i + 1] == 'l' && cs[i + 2] == 's' && cs[i + 3] == 'e' {
        assert(w =~= seq!['e', 'l', 's', 'e']);
        return Some(Token::Else);
    }
    assert(w != seq!['e', 'l', 's', 'e']) by {
        if w == seq!['e', 'l', 's', 'e'] {
            assert(w.len() == 4);
            assert(w[0] == 'e');
            assert(w[1] == 'l');
            assert(w[2] == 's');
            assert(w[3] == 'e');
        }
    }
    if len == 5 && cs[i + 0] == 'w' && cs[i + 1] == 'h' && cs[i + 2] == 'i' && cs[i + 3] == 'l' && cs[i + 4] == 'e' {
        assert(w =~= seq!['w', 'h', 'i', 'l', 'e']);
        return Some(Token::While);
    }
    assert(w != seq!['w', 'h', 'i', 'l', 'e']) by {
        if w == seq!['w', 'h', 'i', 'l', 'e'] {
            assert(w.len() == 5);
            assert(w[0] == 'w');
            assert(w[1] == 'h');
            assert(w[2] == 'i');
            assert(w[3] == 'l');
            assert(w[4] == 'e');
        }
    }
    if len == 3 && cs[i + 0] == 'f' && cs[i + 1] == 'o' && cs[i + 2] == 'r' {
        assert(w =~= seq!['f', 'o', 'r']);
        return Some(Token::For);
    }
    assert(w != seq!['f', 'o', 'r']) by {
        if w == seq!['f', 'o', 'r'] {
            assert(w.len() == 3);
            assert(w[0] == 'f');
            assert(w[1] == 'o');
            assert(w[2] == 'r');
        }
    }
    if len == 6 && cs[i + 0] == 'r' && cs[i + 1] == 'e' && cs[i + 2] == 't' && cs[i + 3] == 'u' && cs[i + 4] == 'r' && cs[i + 5] == 'n' {
        assert(w =~= seq!['r', 'e', 't', 'u', 'r', 'n']);
        return Some(Token::Return);
    }
    assert(w != seq!['r', 'e', 't', 'u', 'r', 'n']) by {
        if w == seq!['r', 'e', 't', 'u', 'r', 'n'] {
            assert(w.len() == 6);
            assert(w[0] == 'r');
            assert(w[1] == 'e');
            assert(w[2] == 't');
            assert(w[3] == 'u');
            assert(w[4] == 'r');
            assert(w[5] == 'n');
        }
    }
    if len == 5 && cs[i + 0] == 'b' && cs[i + 1] == 'r' && cs[i + 2] == 'e' && cs[i + 3] == 'a' && cs[i + 4] == 'k' {
        assert(w =~= seq!['b', 'r', 'e', 'a', 'k']);
        return Some(Token::Break);
    }
    assert(w != seq!['b', 'r', 'e', 'a', 'k']) by {
        if w == seq!['b', 'r', 'e', 'a', 'k'] {
            assert(w.len() == 5);
            assert(w[0] == 'b');
            assert(w[1] == 'r');
            assert(w[2] == 'e');
            assert(w[3] == 'a');
            assert(w[4] == 'k');
        }
    }
    if len == 8 && cs[i + 0] == 'c' && cs[i + 1] == 'o' && cs[i + 2] == 'n' && cs[i + 3] == 't' && cs[i + 4] == 'i' && cs[i + 5] == 'n' && cs[i + 6] == 'u' && cs[i + 7] == 'e' {
        assert(w =~= seq!['c', 'o', 'n', 't', 'i', 'n', 'u', 'e']);
        return Some(Token::Continue);
    }
    assert(w != seq!['c', 'o', 'n', 't', 'i', 'n', 'u', 'e']) by {
        if w == seq!['c', 'o', 'n', 't', 'i', 'n', 'u', 'e'] {
            assert(w.len() == 8);
            assert(w[0] == 'c');
            assert(w[1] == 'o');
            assert(w[2] == 'n');
            assert(w[3] == 't');
            assert(w[4] == 'i');
            assert(w[5] == 'n');
            assert(w[6] == 'u');
            assert(w[7] == 'e');
        }
    }
    if len == 6 && cs[i + 0] == 'i' && cs[i + 1] == 'm' && cs[i + 2] == 'p' && cs[i + 3] == 'o' && cs[i + 4] == 'r' && cs[i + 5] == 't' {
        assert(w =~= seq!['i', 'm', 'p', 'o', 'r', 't']);
        return Some(Token::Import);
    }
    assert(w != seq!['i', 'm', 'p', 'o', 'r', 't']) by {
        if w == seq!['i', 'm', 'p', 'o', 'r', 't'] {
            assert(w.len() == 6);
            assert(w[0] == 'i');
            assert(w[1] == 'm');
            assert(w[2] == 'p');
            assert(w[3] == 'o');
            assert(w[4] == 'r');
            assert(w[5] == 't');
        }
    }
    if len == 6 && cs[i + 0] == 's' && cs[i + 1] == 't' && cs[i + 2] == 'r' && cs[i + 3] == 'u' && cs[i + 4] == 'c' && cs[i + 5] == 't' {
        assert(w =~= seq!['s', 't', 'r', 'u', 'c', 't']);
        return Some(Token::Struct);
    }
    assert(w != seq!['s', 't', 'r', 'u', 'c', 't']) by {
        if w == seq!['s', 't', 'r', 'u', 'c', 't'] {
            assert(w.len() == 6);
            assert(w[0] == 's');
            assert(w[1] == 't');
            assert(w[2] == 'r');
            assert(w[3] == 'u');
            assert(w[4] == 'c');
            assert(w[5] == 't');
        }
    }
    if len == 3 && cs[i + 0] == 'i' && cs[i + 1] == 'n' && cs[i + 2] == 't' {
        assert(w =~= seq!['i', 'n', 't']);
        return Some(Token::Int);
    }
    assert(w != seq!['i', 'n', 't']) by {
        if w == seq!['i', 'n', 't'] {
            assert(w.len() == 3);
            assert(w[0] == 'i');
            assert(w[1] == 'n');
            assert(w[2] == 't');
        }
    }
    if len == 6 && cs[i + 0] == 'd' && cs[i + 1] == 'o' && cs[i + 2] == 'u' && cs[i + 3] == 'b' && cs[i + 4] == 'l' && cs[i + 5] == 'e' {
        assert(w =~= seq!['d', 'o', 'u', 'b', 'l', 'e']);
        return Some(Token::Double);
    }
    assert(w != seq!['d', 'o', 'u', 'b', 'l', 'e']) by {
        if w == seq!['d', 'o', 'u', 'b', 'l', 'e'] {
            assert(w.len() == 6);
            assert(w[0] == 'd');
            assert(w[1] == 'o');
            assert(w[2] == 'u');
            assert(w[3] == 'b');
            assert(w[4] == 'l');
            assert(w[5] == 'e');
        }
    }
    if len == 3 && cs[i + 0] == 's' && cs[i + 1] == 't' && cs[i + 2] == 'r' {
        assert(w =~= seq!['s', 't', 'r']);
        return Some(Token::Str);
    }
    assert(w != seq!['s', 't', 'r']) by {
        if w == seq!['s', 't', 'r'] {
            assert(w.len() == 3);
            assert(w[0] == 's');
            assert(w[1] == 't');
            assert(w[2] == 'r');
        }
    }
    if len == 2 && cs[i + 0] == 'i' && cs[i + 1] == 'o' {
        assert(w =~= seq!['i', 'o']);
        return Some(Token::Io);
    }
    assert(w != seq!['i', 'o']) by {
        if w == seq!['i', 'o'] {
            assert(w.len() == 2);
            assert(w[0] == 'i');
            assert(w[1] == 'o');
        }
    }
    if len == 5 && cs[i + 0] == 'p' && cs[i + 1] == 'r' && cs[i + 2] == 'i' && cs[i + 3] == 'n' && cs[i + 4] == 't' {
        assert(w =~= seq!['p', 'r', 'i', 'n', 't']);
        return Some(Token::Print);
    }
    assert(w != seq!['p', 'r', 'i', 'n', 't']) by {
        if w == seq!['p', 'r', 'i', 'n', 't'] {
            assert(w.len() == 5);
            assert(w[0] == 'p');
            assert(w[1] == 'r');
            assert(w[2] == 'i');
            assert(w[3] == 'n');
            assert(w[4] == 't');
        }
    }
    if len == 5 && cs[i + 0] == 'i' && cs[i + 1] == 'n' && cs[i + 2] == 'p' && cs[i + 3] == 'u' && cs[i + 4] == 't' {
        assert(w =~= seq!['i', 'n', 'p', 'u', 't']);
        return Some(Token::Input);
    }
    assert(w != seq!['i', 'n', 'p', 'u', 't']) by {
        if w == seq!['i', 'n', 'p', 'u', 't'] {
            assert(w.len() == 5);
            assert(w[0] == 'i');
            assert(w[1] == 'n');
            assert(w[2] == 'p');
            assert(w[3] == 'u');
            assert(w[4] == 't');
        }
    }
    None
}

fn symbol2_exec(a: char, b: char) -> (r: Option<Token>)
    ensures
        view_opt_token(r) == symbol2(a, b),
{
    if a == '=' && b == '=' {
        return Some(Token::EqualEqual);
    }
    if a == '!' && b == '=' {
        return Some(Token::NotEqual);
    }
    if a == '<' && b == '=' {
        return Some(Token::LessEqual);
    }
    if a == '>' && b == '=' {
        return Some(Token::GreaterEqual);
    }
    if a == '-' && b == '>' {
        return Some(Token::Arrow);
    }
    if a == '+' && b == '=' {
        return Some(Token::PlusEquals);
    }
    if a == '-' && b == '=' {
        return Some(Token::MinusEquals);
    }
    if a == '*' && b == '=' {
        return Some(Token::StarEquals);
    }
    if a == '/' && b == '=' {
        return Some(Token::SlashEquals);
    }
    if a == '&' && b == '&' {
        return Some(Token::And);
    }
    if a == '|' && b == '|' {
        return Some(Token::Or);
    }
    None
}

fn symbol1_exec(a: char) -> (r: Option<Token>)
    ensures
        view_opt_token(r) == symbol1(a),
{
    if a == '.' {
        return Some(Token::Dot);
    }
    if a == ',' {
        return Some(Token::Comma);
    }
    if a == ':' {
        return Some(Token::Colon);
    }
    if a == '?' {
        return Some(Token::Question);
    }
    if a == '(' {
        return Some(Token::LParen);
    }
    if a == ')' {
        return Some(Token::RParen);
    }
    if a == '{' {
        return Some(Token::LBrace);
    }
    if a == '}' {
        return Some(Token::RBrace);
    }
    if a == '[' {
        return Some(Token::LBracket);
    }
    if a == ']' {
        return Some(Token::RBracket);
    }
    if a == '=' {
        return Some(Token::Equals);
    }
    if a == '<' {
        return Some(Token::Less);
    }
    if a == '>' {
        return Some(Token::Greater);
    }
    if a == '+' {
        return Some(Token::Plus);
    }
    if a == '-' {
        return Some(Token::Minus);
    }
    if a == '*' {
        return Some(Token::Star);
    }
    if a == '/' {
        return Some(Token::Slash);
    }
    if a == '!' {
        return Some(Token::Not);
    }
    None
}


/// Prepends tokens to a lexing outcome.
pub open spec fn prepend(done: Seq<(TokenV, int, int)>, rest: Option<Seq<(TokenV, int, int)>>) -> Option<Seq<(TokenV, int, int)>> {
    match rest {
        Some(r) => Some(done + r),
        None => None,
    }
}

/// The tokens of `cs` from character index `i` on, each with the character
/// indices where it starts and ends; `None` when some text matches no token.
///
/// Whitespace and `##` comments (to the end of the line) are skipped. At each
/// position the longest token wins: a run of digits followed by `.` and a digit
/// is a decimal literal, other digit runs are numbers (which must fit in `i32`),
/// words are keywords or identifiers, and two-character operators win over
/// their one-character prefixes.
pub open spec fn lex_from(cs: Seq<char>, i: int) -> Option<Seq<(TokenV, int, int)>>
    decreases cs.len() - i,
{
    if i < 0 || i >= cs.len() {
        Some(Seq::empty())
    } else {
        let c = cs[i];
        if is_space(c) {
            lex_from(cs, i + 1)
        } else if c == '#' && i + 1 < cs.len() && cs[i + 1] == '#' {
            let j = scan(cs, i + 2, Class::NotNewline);
            proof { lemma_scan(cs, i + 2, Class::NotNewline); }
            lex_from(cs, j)
        } else if c == '"' {
            let j = scan(cs, i + 1, Class::NotQuote);
            proof { lemma_scan(cs, i + 1, Class::NotQuote); }
            if j >= cs.len() {
                None
            } else {
                prepend(seq![(TokenV::StringLiteral(cs.subrange(i + 1, j)), i, j + 1)], lex_from(cs, j + 1))
            }
        } else if is_digit(c) {
            let j = scan(cs, i, Class::Digit);
            proof { lemma_scan(cs, i, Class::Digit); }
            if j + 1 < cs.len() && cs[j] == '.' && is_digit(cs[j + 1]) {
                let k = scan(cs, j + 1, Class::Digit);
                proof { lemma_scan(cs, j + 1, Class::Digit); }
                prepend(seq![(TokenV::DoubleLiteral(cs.subrange(i, k)), i, k)], lex_from(cs, k))
            } else {
                let v = digits_value(cs.subrange(i, j));
                if v > i32::MAX {
                    None
                } else {
                    prepend(seq![(TokenV::Number(v as i32), i, j)], lex_from(cs, j))
                }
            }
        } else if is_ident_start(c) {
            let j = scan(cs, i, Class::IdentChar);
            proof { lemma_scan(cs, i, Class::IdentChar); }
            prepend(seq![(word_token(cs.subrange(i, j)), i, j)], lex_from(cs, j))
        } else if i + 1 < cs.len() && symbol2(c, cs[i + 1]) is Some {
            prepend(seq![(symbol2(c, cs[i + 1])->0, i, i + 2)], lex_from(cs, i + 2))
        } else if symbol1(c) is Some {
            prepend(seq![(symbol1(c)->0, i, i + 1)], lex_from(cs, i + 1))
        } else {
            None
        }
    }
}

/// The tokens of a source text, with character positions.
pub open spec fn lex_spec(cs: Seq<char>) -> Option<Seq<(TokenV, int, int)>> {
    lex_from(cs, 0)
}

/// The lexer's output matches `ts` token by token, with each token's range
/// holding the byte offsets of its character positions.
pub open spec fn tokens_match(v: Seq<(Token, core::ops::Range<usize>)>, cs: Seq<char>, ts: Seq<(TokenV, int, int)>) -> bool {
    &&& v.len() == ts.len()
    &&& forall|k: int| 0 <= k < v.len() ==> {
        &&& (#[trigger] v[k]).0@ == ts[k].0
        &&& v[k].1.start == byte_offset(cs, ts[k].1)
        &&& v[k].1.end == byte_offset(cs, ts[k].2)
    }
}

/// Some text of the source matches no token.
#[derive(Debug, Clone, Copy, PartialEq, Eq)]
pub struct LexError;

proof fn lemma_prepend_step(done: Seq<(TokenV, int, int)>, t: (TokenV, int, int), rest: Option<Seq<(TokenV, int, int)>>)
    ensures
        prepend(done, prepend(seq![t], rest)) == prepend(done.push(t), rest),
{
    if let Some(r) = rest {
        assert(done + (seq![t] + r) =~= done.push(t) + r);
    }
}

fn bytes_to(cs: &Vec<char>, i: usize, j: usize, b: usize, total: usize) -> (e: usize)
    requires
        i <= j <= cs.len(),
        b == byte_offset(cs@, i as int),
        total == vstd::utf8::encode_utf8(cs@).len(),
    ensures
        e == byte_offset(cs@, j as int),
{
    let mut k = i;
    let mut e = b;
    while k < j
        invariant
            i <= k <= j <= cs.len(),
            e == byte_offset(cs@, k as int),
            total == vstd::utf8::encode_utf8(cs@).len(),
        decreases j - k,
    {
        proof {
            lemma_byte_offset_step(cs@, k as int);
            lemma_byte_offset_bound(cs@, k + 1);
        }
        e = e + char_width(cs[k]);
        k = k + 1;
    }
    e
}

fn range_string(cs: &Vec<char>, i: usize, j: usize) -> (s: String)
    requires
        i <= j <= cs.len(),
    ensures
        s@ == cs@.subrange(i as int, j as int),
{
    let mut s = String::new();
    push_range(&mut s, cs, i, j);
    assert(s@ =~= cs@.subrange(i as int, j as int));
    s
}

/// The value of the digits `cs[i..j]`, or `None` when it exceeds `i32::MAX`.
fn number_value(cs: &Vec<char>, i: usize, j: usize) -> (r: Option<i32>)
    requires
        i <= j <= cs.len(),
        forall|m: int| i <= m < j ==> is_digit(#[trigger] cs@[m]),
    ensures
        match r {
            Some(v) => v == digits_value(cs@.subrange(i as int, j as int)),
            None => digits_value(cs@.subrange(i as int, j as int)) > i32::MAX,
        },
{
    let ghost whole = cs@.subrange(i as int, j as int);
    let mut v: u64 = 0;
    let mut k = i;
    while k < j
        invariant
            i <= k <= j <= cs.len(),
            whole == cs@.subrange(i as int, j as int),
            forall|m: int| i <= m < j ==> is_digit(#[trigger] cs@[m]),
            v == digits_value(cs@.subrange(i as int, k as int)),
            v <= i32::MAX,
        decreases j - k,
    {
        let c = cs[k];
        assert(is_digit(cs@[k as int]));
        let d = (c as u32 - '0' as u32) as u64;
        let ghost next = cs@.subrange(i as int, k + 1);
        assert(next.drop_last() =~= cs@.subrange(i as int, k as int));
        assert(next.last() == c);
        v = v * 10 + d;
        k = k + 1;
        if v > 2147483647 {
            proof {
                assert forall|m: int| 0 <= m < whole.len() implies is_digit(#[trigger] whole[m]) by {
                    assert(whole[m] == cs@[i + m]);
                }
                lemma_digits_value_prefix(whole, k - i);
                assert(whole.take(k - i) =~= cs@.subrange(i as int, k as int));
            }
            return None;
        }
    }
    Some(v as i32)
}

/// Splits a source text into tokens, each with the byte range it covers.
/// Whitespace and `##` comments are skipped. Fails when some text matches
/// no token, or a number does not fit in `i32`.
pub fn lex(source: &str) -> (r: Result<Vec<(Token, core::ops::Range<usize>)>, LexError>)
    ensures
        match lex_spec(source@) {
            None => r is Err,
            Some(ts) => r matches Ok(v) && tokens_match(v@, source@, ts),
        },
{
    let (cs, total) = string_chars(source);
    let n = cs.len();
    let mut out: Vec<(Token, core::ops::Range<usize>)> = Vec::new();
    let ghost mut done: Seq<(TokenV, int, int)> = Seq::empty();
    let mut i: usize = 0;
    let mut b: usize = 0;
    assert(cs@.take(0) =~= Seq::<char>::empty());
    assert(vstd::utf8::encode_utf8(Seq::<char>::empty()) =~= Seq::<u8>::empty());
    while i < n
        invariant
            n == cs@.len(),
            cs@ == source@,
            total == vstd::utf8::encode_utf8(cs@).len(),
            i <= n,
            b == byte_offset(cs@, i as int),
            lex_spec(cs@) == prepend(done, lex_from(cs@, i as int)),
            tokens_match(out@, cs@, done),
            forall|k: int| 0 <= k < done.len() ==> done[k].2 <= i,
        decreases n - i,
    {
        let c = cs[i];
        if c == ' ' || c == '\t' || c == '\r' || c == '\n' || c == '\x0C' {
            b = bytes_to(&cs, i, i + 1, b, total);
            i = i + 1;
        } else if c == '#' && i + 1 < n && cs[i + 1] == '#' {
            let j = scan_exec(&cs, i + 2, Class::NotNewline);
            b = bytes_to(&cs, i, j, b, total);
            i = j;
        } else if c == '"' {
            let j = scan_exec(&cs, i + 1, Class::NotQuote);
            if j >= n {
                return Err(LexError);
            }
            let text = range_string(&cs, i + 1, j);
            let e = bytes_to(&cs, i, j + 1, b, total);
            let ghost t = (TokenV::StringLiteral(cs@.subrange(i + 1, j as int)), i as int, j + 1);
            proof {
                lemma_prepend_step(done, t, lex_from(cs@, j + 1));
                done = done.push(t);
            }
            out.push((Token::StringLiteral(text), core::ops::Range { start: b, end: e }));
            i = j + 1;
            b = e;
        } else if '0' <= c && c <= '9' {
            let j = scan_exec(&cs, i, Class::Digit);
            proof { lemma_scan(cs@, i as int, Class::Digit); }
            if j < n && j + 1 < n && cs[j] == '.' && '0' <= cs[j + 1] && cs[j + 1] <= '9' {
                let k = scan_exec(&cs, j + 1, Class::Digit);
                let text = range_string(&cs, i, k);
                let e = bytes_to(&cs, i, k, b, total);
                let ghost t = (TokenV::DoubleLiteral(cs@.subrange(i as int, k as int)), i as int, k as int);
                proof {
                    lemma_prepend_step(done, t, lex_from(cs@, k as int));
                    done = done.push(t);
                }
                out.push((Token::DoubleLiteral(text), core::ops::Range { start: b, end: e }));
                i = k;
                b = e;
            } else {
                match number_value(&cs, i, j) {
                    None => {
                        return Err(LexError);
                    },
                    Some(v) => {
                        let e = bytes_to(&cs, i, j, b, total);
                        let ghost t = (TokenV::Number(v), i as int, j as int);
                        proof {
                            lemma_prepend_step(done, t, lex_from(cs@, j as int));
                            done = done.push(t);
                        }
                        out.push((Token::Number(v), core::ops::Range { start: b, end: e }));
                        i = j;
                        b = e;
                    },
                }
            }
        } else if ('a' <= c && c <= 'z') || ('A' <= c && c <= 'Z') || c == '_' {
            let j = scan_exec(&cs, i, Class::IdentChar);
            proof { lemma_scan(cs@, i as int, Class::IdentChar); }
            let tok = match keyword_exec(&cs, i, j) {
                Some(t) => t,
                None => Token::Identifier(range_string(&cs, i, j)),
            };
            let e = bytes_to(&cs, i, j, b, total);
            let ghost t = (word_token(cs@.subrange(i as int, j as int)), i as int, j as int);
            proof {
                lemma_prepend_step(done, t, lex_from(cs@, j as int));
                done = done.push(t);
            }
            out.push((tok, core::ops::Range { start: b, end: e }));
            i = j;
            b = e;
        } else {
            let two = if i + 1 < n { symbol2_exec(c, cs[i + 1]) } else { None };
            match two {
                Some(tok) => {
                    let e = bytes_to(&cs, i, i + 2, b, total);
                    let ghost t = (tok@, i as int, i + 2);
                    proof {
                        lemma_prepend_step(done, t, lex_from(cs@, i + 2));
                        done = done.push(t);
                    }
                    out.push((tok, core::ops::Range { start: b, end: e }));
                    i = i + 2;
                    b = e;
                },
                None => {
                    match symbol1_exec(c) {
                        Some(tok) => {
                            let e = bytes_to(&cs, i, i + 1, b, total);
                            let ghost t = (tok@, i as int, i + 1);
                            proof {
                                lemma_prepend_step(done, t, lex_from(cs@, i + 1));
                                done = done.push(t);
                            }
                            out.push((tok, core::ops::Range { start: b, end: e }));
                            i = i + 1;
                            b = e;
                        },
                        None => {
                            return Err(LexError);
                        },
                    }
                },
            }
        }
    }
    assert(done + Seq::<(TokenV, int, int)>::empty() =~= done);
    Ok(out)
}

/// Tokens lie within `lo..hi` in order: each covers at least one character,
/// and each starts no earlier than the one before it ends.
pub open spec fn tokens_in_order(ts: Seq<(TokenV, int, int)>, lo: int, hi: int) -> bool {
    &&& forall|k: int| 0 <= k < ts.len() ==> lo <= #[trigger] ts[k].1 < ts[k].2 <= hi
    &&& forall|k: int| 0 <= k < ts.len() - 1 ==> #[trigger] ts[k].2 <= ts[k + 1].1
}

proof fn lemma_in_order_cons(t: (TokenV, int, int), r: Seq<(TokenV, int, int)>, lo: int, hi: int)
    requires
        lo <= t.1 < t.2 <= hi,
        tokens_in_order(r, t.2, hi),
    ensures
        tokens_in_order(seq![t] + r, lo, hi),
{
    let s = seq![t] + r;
    assert forall|k: int| 0 <= k < s.len() implies lo <= #[trigger] s[k].1 < s[k].2 <= hi by {
        if k > 0 {
            assert(s[k] == r[k - 1]);
        }
    }
    assert forall|k: int| 0 <= k < s.len() - 1 implies #[trigger] s[k].2 <= s[k + 1].1 by {
        if k > 0 {
            assert(s[k] == r[k - 1]);
            assert(s[k + 1] == r[k]);
        } else {
            assert(s[1] == r[0]);
        }
    }
}

proof fn lemma_lex_from_in_order(cs: Seq<char>, i: int)
    requires
        0 <= i <= cs.len(),
    ensures
        lex_from(cs, i) matches Some(ts) ==> tokens_in_order(ts, i, cs.len() as int),
    decreases cs.len() - i,
{
    if i < cs.len() {
        let c = cs[i];
        if is_space(c) {
            lemma_lex_from_in_order(cs, i + 1);
        } else if c == '#' && i + 1 < cs.len() && cs[i + 1] == '#' {
            lemma_scan(cs, i + 2, Class::NotNewline);
            lemma_lex_from_in_order(cs, scan(cs, i + 2, Class::NotNewline));
        } else if c == '"' {
            let j = scan(cs, i + 1, Class::NotQuote);
            lemma_scan(cs, i + 1, Class::NotQuote);
            if j < cs.len() {
                lemma_lex_from_in_order(cs, j + 1);
                if let Some(r) = lex_from(cs, j + 1) {
                    lemma_in_order_cons((TokenV::StringLiteral(cs.subrange(i + 1, j)), i, j + 1), r, i, cs.len() as int);
                }
            }
        } else if is_digit(c) {
            let j = scan(cs, i, Class::Digit);
            lemma_scan(cs, i, Class::Digit);
            if j + 1 < cs.len() && cs[j] == '.' && is_digit(cs[j + 1]) {
                let k = scan(cs, j + 1, Class::Digit);
                lemma_scan(cs, j + 1, Class::Digit);
                lemma_lex_from_in_order(cs, k);
                if let Some(r) = lex_from(cs, k) {
                    lemma_in_order_cons((TokenV::DoubleLiteral(cs.subrange(i, k)), i, k), r, i, cs.len() as int);
                }
            } else {
                let v = digits_value(cs.subrange(i, j));
                lemma_lex_from_in_order(cs, j);
                if v <= i32::MAX {
                    if let Some(r) = lex_from(cs, j) {
                        lemma_in_order_cons((TokenV::Number(v as i32), i, j), r, i, cs.len() as int);
                    }
                }
            }
        } else if is_ident_start(c) {
            let j = scan(cs, i, Class::IdentChar);
            lemma_scan(cs, i, Class::IdentChar);
            lemma_lex_from_in_order(cs, j);
            if let Some(r) = lex_from(cs, j) {
                lemma_in_order_cons((word_token(cs.subrange(i, j)), i, j), r, i, cs.len() as int);
            }
        } else if i + 1 < cs.len() && symbol2(c, cs[i + 1]) is Some {
            lemma_lex_from_in_order(cs, i + 2);
            if let Some(r) = lex_from(cs, i + 2) {
                lemma_in_order_cons((symbol2(c, cs[i + 1])->0, i, i + 2), r, i, cs.len() as int);
            }
        } else if symbol1(c) is Some {
            lemma_lex_from_in_order(cs, i + 1);
            if let Some(r) = lex_from(cs, i + 1) {
                lemma_in_order_cons((symbol1(c)->0, i, i + 1), r, i, cs.len() as int);
            }
        }
    }
}

/// The tokens of a source text lie within it in order, none of them empty.
pub proof fn lex_tokens_in_order(cs: Seq<char>)
    ensures
        lex_spec(cs) matches Some(ts) ==> tokens_in_order(ts, 0, cs.len() as int),
{
    lemma_lex_from_in_order(cs, 0);
}

} // verus!
