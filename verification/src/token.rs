use vstd::prelude::*;
use crate::text::{str_debug, int_text, double_debug, string_push, debug_string, push_i32, push_decimal_literal};

verus! {

/// A lexical token.
#[derive(Debug, PartialEq)]
pub enum Token {
    // keywords
    Fn,
    Let,
    If,
    Else,
    While,
    For,
    Return,
    Break,
    Continue,
    Import,
    Struct,
    Int,
    Double,
    Str,
    Io,
    Print,
    Input,
    // punctuation
    Dot,
    Comma,
    Colon,
    Question,
    Arrow,
    LParen,
    RParen,
    LBrace,
    RBrace,
    LBracket,
    RBracket,
    Equals,
    EqualEqual,
    NotEqual,
    Less,
    Greater,
    LessEqual,
    GreaterEqual,
    Plus,
    Minus,
    Star,
    Slash,
    PlusEquals,
    MinusEquals,
    StarEquals,
    SlashEquals,
    And,
    Or,
    Not,
    // literals
    StringLiteral(String),
    Number(i32),
    DoubleLiteral(String),
    Identifier(String),
    /// A `##` comment; the lexer skips it.
    Comment,
    /// Text that no token matches; the lexer reports it as an error instead.
    Error,
}

pub enum TokenV {
    Fn,
    Let,
    If,
    Else,
    While,
    For,
    Return,
    Break,
    Continue,
    Import,
    Struct,
    Int,
    Double,
    Str,
    Io,
    Print,
    Input,
    Dot,
    Comma,
    Colon,
    Question,
    Arrow,
    LParen,
    RParen,
    LBrace,
    RBrace,
    LBracket,
    RBracket,
    Equals,
    EqualEqual,
    NotEqual,
    Less,
    Greater,
    LessEqual,
    GreaterEqual,
    Plus,
    Minus,
    Star,
    Slash,
    PlusEquals,
    MinusEquals,
    StarEquals,
    SlashEquals,
    And,
    Or,
    Not,
    StringLiteral(Seq<char>),
    Number(i32),
    DoubleLiteral(Seq<char>),
    Identifier(Seq<char>),
    Comment,
    Error,
}

impl View for Token {
    type V = TokenV;

    open spec fn view(&self) -> TokenV {
        match self {
            Token::Fn => TokenV::Fn,
            Token::Let => TokenV::Let,
            Token::If => TokenV::If,
            Token::Else => TokenV::Else,
            Token::While => TokenV::While,
            Token::For => TokenV::For,
            Token::Return => TokenV::Return,
            Token::Break => TokenV::Break,
            Token::Continue => TokenV::Continue,
            Token::Import => TokenV::Import,
            Token::Struct => TokenV::Struct,
            Token::Int => TokenV::Int,
            Token::Double => TokenV::Double,
            Token::Str => TokenV::Str,
            Token::Io => TokenV::Io,
            Token::Print => TokenV::Print,
            Token::Input => TokenV::Input,
            Token::Dot => TokenV::Dot,
            Token::Comma => TokenV::Comma,
            Token::Colon => TokenV::Colon,
            Token::Question => TokenV::Question,
            Token::Arrow => TokenV::Arrow,
            Token::LParen => TokenV::LParen,
            Token::RParen => TokenV::RParen,
            Token::LBrace => TokenV::LBrace,
            Token::RBrace => TokenV::RBrace,
            Token::LBracket => TokenV::LBracket,
            Token::RBracket => TokenV::RBracket,
            Token::Equals => TokenV::Equals,
            Token::EqualEqual => TokenV::EqualEqual,
            Token::NotEqual => TokenV::NotEqual,
            Token::Less => TokenV::Less,
            Token::Greater => TokenV::Greater,
            Token::LessEqual => TokenV::LessEqual,
            Token::GreaterEqual => TokenV::GreaterEqual,
            Token::Plus => TokenV::Plus,
            Token::Minus => TokenV::Minus,
            Token::Star => TokenV::Star,
            Token::Slash => TokenV::Slash,
            Token::PlusEquals => TokenV::PlusEquals,
            Token::MinusEquals => TokenV::MinusEquals,
            Token::StarEquals => TokenV::StarEquals,
            Token::SlashEquals => TokenV::SlashEquals,
            Token::And => TokenV::And,
            Token::Or => TokenV::Or,
            Token::Not => TokenV::Not,
            Token::StringLiteral(s) => TokenV::StringLiteral(s@),
            Token::Number(n) => TokenV::Number(*n),
            Token::DoubleLiteral(s) => TokenV::DoubleLiteral(s@),
            Token::Identifier(s) => TokenV::Identifier(s@),
            Token::Comment => TokenV::Comment,
            Token::Error => TokenV::Error,
        }
    }
}

} // verus!
verus! {

/// The name of a token's variant, as `{:?}` prints it.
pub closed spec fn variant_name(t: TokenV) -> Seq<char> {
    match t {
        TokenV::Fn => "Fn"@,
        TokenV::Let => "Let"@,
        TokenV::If => "If"@,
        TokenV::Else => "Else"@,
        TokenV::While => "While"@,
        TokenV::For => "For"@,
        TokenV::Return => "Return"@,
        TokenV::Break => "Break"@,
        TokenV::Continue => "Continue"@,
        TokenV::Import => "Import"@,
        TokenV::Struct => "Struct"@,
        TokenV::Int => "Int"@,
        TokenV::Double => "Double"@,
        TokenV::Str => "Str"@,
        TokenV::Io => "Io"@,
        TokenV::Print => "Print"@,
        TokenV::Input => "Input"@,
        TokenV::Dot => "Dot"@,
        TokenV::Comma => "Comma"@,
        TokenV::Colon => "Colon"@,
        TokenV::Question => "Question"@,
        TokenV::Arrow => "Arrow"@,
        TokenV::LParen => "LParen"@,
        TokenV::RParen => "RParen"@,
        TokenV::LBrace => "LBrace"@,
        TokenV::RBrace => "RBrace"@,
        TokenV::LBracket => "LBracket"@,
        TokenV::RBracket => "RBracket"@,
        TokenV::Equals => "Equals"@,
        TokenV::EqualEqual => "EqualEqual"@,
        TokenV::NotEqual => "NotEqual"@,
        TokenV::Less => "Less"@,
        TokenV::Greater => "Greater"@,
        TokenV::LessEqual => "LessEqual"@,
        TokenV::GreaterEqual => "GreaterEqual"@,
        TokenV::Plus => "Plus"@,
        TokenV::Minus => "Minus"@,
        TokenV::Star => "Star"@,
        TokenV::Slash => "Slash"@,
        TokenV::PlusEquals => "PlusEquals"@,
        TokenV::MinusEquals => "MinusEquals"@,
        TokenV::StarEquals => "StarEquals"@,
        TokenV::SlashEquals => "SlashEquals"@,
        TokenV::And => "And"@,
        TokenV::Or => "Or"@,
        TokenV::Not => "Not"@,
        TokenV::Comment => "Comment"@,
        TokenV::Error => "Error"@,
        TokenV::StringLiteral(..) => "StringLiteral"@,
        TokenV::Number(..) => "Number"@,
        TokenV::DoubleLiteral(..) => "DoubleLiteral"@,
        TokenV::Identifier(..) => "Identifier"@,
    }
}

/// What `{:?}` prints for a token.
pub closed spec fn token_debug_text(t: TokenV) -> Seq<char> {
    match t {
        TokenV::StringLiteral(s) => variant_name(t) + seq!['('] + str_debug(s) + seq![')'],
        TokenV::Identifier(s) => variant_name(t) + seq!['('] + str_debug(s) + seq![')'],
        TokenV::Number(n) => variant_name(t) + seq!['('] + int_text(n as int) + seq![')'],
        TokenV::DoubleLiteral(s) => variant_name(t) + seq!['('] + double_debug(s) + seq![')'],
        _ => variant_name(t),
    }
}

/// What `{:?}` prints for an optional token.
pub closed spec fn opt_token_debug_text(t: Option<TokenV>) -> Seq<char> {
    match t {
        Some(t) => "Some"@ + seq!['('] + token_debug_text(t) + seq![')'],
        None => "None"@,
    }
}

/// The name `{:?}` prints for each token variant.
pub proof fn variant_name_is(t: TokenV)
    ensures
        variant_name(t) == match t {
            TokenV::Fn => "Fn"@,
            TokenV::Let => "Let"@,
            TokenV::If => "If"@,
            TokenV::Else => "Else"@,
            TokenV::While => "While"@,
            TokenV::For => "For"@,
            TokenV::Return => "Return"@,
            TokenV::Break => "Break"@,
            TokenV::Continue => "Continue"@,
            TokenV::Import => "Import"@,
            TokenV::Struct => "Struct"@,
            TokenV::Int => "Int"@,
            TokenV::Double => "Double"@,
            TokenV::Str => "Str"@,
            TokenV::Io => "Io"@,
            TokenV::Print => "Print"@,
            TokenV::Input => "Input"@,
            TokenV::Dot => "Dot"@,
            TokenV::Comma => "Comma"@,
            TokenV::Colon => "Colon"@,
            TokenV::Question => "Question"@,
            TokenV::Arrow => "Arrow"@,
            TokenV::LParen => "LParen"@,
            TokenV::RParen => "RParen"@,
            TokenV::LBrace => "LBrace"@,
            TokenV::RBrace => "RBrace"@,
            TokenV::LBracket => "LBracket"@,
            TokenV::RBracket => "RBracket"@,
            TokenV::Equals => "Equals"@,
            TokenV::EqualEqual => "EqualEqual"@,
            TokenV::NotEqual => "NotEqual"@,
            TokenV::Less => "Less"@,
            TokenV::Greater => "Greater"@,
            TokenV::LessEqual => "LessEqual"@,
            TokenV::GreaterEqual => "GreaterEqual"@,
            TokenV::Plus => "Plus"@,
            TokenV::Minus => "Minus"@,
            TokenV::Star => "Star"@,
            TokenV::Slash => "Slash"@,
            TokenV::PlusEquals => "PlusEquals"@,
            TokenV::MinusEquals => "MinusEquals"@,
            TokenV::StarEquals => "StarEquals"@,
            TokenV::SlashEquals => "SlashEquals"@,
            TokenV::And => "And"@,
            TokenV::Or => "Or"@,
            TokenV::Not => "Not"@,
            TokenV::Comment => "Comment"@,
            TokenV::Error => "Error"@,
            TokenV::StringLiteral(..) => "StringLiteral"@,
            TokenV::Number(..) => "Number"@,
            TokenV::DoubleLiteral(..) => "DoubleLiteral"@,
            TokenV::Identifier(..) => "Identifier"@,
        },
{
}

/// What `{:?}` prints for a token: its variant's name, followed by its
/// payload in parentheses when it has one.
pub proof fn token_debug_text_is(t: TokenV)
    ensures
        token_debug_text(t) == match t {
            TokenV::StringLiteral(s) => variant_name(t) + seq!['('] + str_debug(s) + seq![')'],
            TokenV::Identifier(s) => variant_name(t) + seq!['('] + str_debug(s) + seq![')'],
            TokenV::Number(n) => variant_name(t) + seq!['('] + int_text(n as int) + seq![')'],
            TokenV::DoubleLiteral(s) => variant_name(t) + seq!['('] + double_debug(s) + seq![')'],
            _ => variant_name(t),
        },
{
}

/// What `{:?}` prints for an optional token.
pub proof fn opt_token_debug_text_is(t: Option<TokenV>)
    ensures
        opt_token_debug_text(t) == match t {
            Some(t) => "Some"@ + seq!['('] + token_debug_text(t) + seq![')'],
            None => "None"@,
        },
{
}

fn variant_name_str(t: &Token) -> (s: &'static str)
    ensures
        s@ == variant_name(t@),
{
    match t {
        Token::Fn => "Fn",
        Token::Let => "Let",
        Token::If => "If",
        Token::Else => "Else",
        Token::While => "While",
        Token::For => "For",
        Token::Return => "Return",
        Token::Break => "Break",
        Token::Continue => "Continue",
        Token::Import => "Import",
        Token::Struct => "Struct",
        Token::Int => "Int",
        Token::Double => "Double",
        Token::Str => "Str",
        Token::Io => "Io",
        Token::Print => "Print",
        Token::Input => "Input",
        Token::Dot => "Dot",
        Token::Comma => "Comma",
        Token::Colon => "Colon",
        Token::Question => "Question",
        Token::Arrow => "Arrow",
        Token::LParen => "LParen",
        Token::RParen => "RParen",
        Token::LBrace => "LBrace",
        Token::RBrace => "RBrace",
        Token::LBracket => "LBracket",
        Token::RBracket => "RBracket",
        Token::Equals => "Equals",
        Token::EqualEqual => "EqualEqual",
        Token::NotEqual => "NotEqual",
        Token::Less => "Less",
        Token::Greater => "Greater",
        Token::LessEqual => "LessEqual",
        Token::GreaterEqual => "GreaterEqual",
        Token::Plus => "Plus",
        Token::Minus => "Minus",
        Token::Star => "Star",
        Token::Slash => "Slash",
        Token::PlusEquals => "PlusEquals",
        Token::MinusEquals => "MinusEquals",
        Token::StarEquals => "StarEquals",
        Token::SlashEquals => "SlashEquals",
        Token::And => "And",
        Token::Or => "Or",
        Token::Not => "Not",
        Token::Comment => "Comment",
        Token::Error => "Error",
        Token::StringLiteral(..) => "StringLiteral",
        Token::Number(..) => "Number",
        Token::DoubleLiteral(..) => "DoubleLiteral",
        Token::Identifier(..) => "Identifier",
    }
}

impl Token {
    /// The `{:?}` rendering of this token.
    pub fn debug_text(&self) -> (s: String)
        ensures
            s@ == token_debug_text(self@),
    {
        let mut s = String::new();
        s.append(variant_name_str(self));
        match self {
            Token::StringLiteral(v) | Token::Identifier(v) => {
                string_push(&mut s, '(');
                let d = debug_string(v);
                s.append(d.as_str());
                string_push(&mut s, ')');
            },
            Token::Number(n) => {
                string_push(&mut s, '(');
                push_i32(&mut s, *n);
                string_push(&mut s, ')');
            },
            Token::DoubleLiteral(v) => {
                string_push(&mut s, '(');
                push_decimal_literal(&mut s, v, true);
                string_push(&mut s, ')');
            },
            _ => {},
        }
        assert(s@ =~= token_debug_text(self@));
        s
    }

    /// Whether two tokens are equal: the same variant with equal contents.
    pub fn same(&self, other: &Token) -> (b: bool)
        ensures
            b == (self@ == other@),
    {
        match self {
            Token::Fn => match other {
                Token::Fn => true,
                _ => false,
            },
            Token::Let => match other {
                Token::Let => true,
                _ => false,
            },
            Token::If => match other {
                Token::If => true,
                _ => false,
            },
            Token::Else => match other {
                Token::Else => true,
                _ => false,
            },
            Token::While => match other {
                Token::While => true,
                _ => false,
            },
            Token::For => match other {
                Token::For => true,
                _ => false,
            },
            Token::Return => match other {
                Token::Return => true,
                _ => false,
            },
            Token::Break => match other {
                Token::Break => true,
                _ => false,
            },
            Token::Continue => match other {
                Token::Continue => true,
                _ => false,
            },
            Token::Import => match other {
                Token::Import => true,
                _ => false,
            },
            Token::Struct => match other {
                Token::Struct => true,
                _ => false,
            },
            Token::Int => match other {
                Token::Int => true,
                _ => false,
            },
            Token::Double => match other {
                Token::Double => true,
                _ => false,
            },
            Token::Str => match other {
                Token::Str => true,
                _ => false,
            },
            Token::Io => match other {
                Token::Io => true,
                _ => false,
            },
            Token::Print => match other {
                Token::Print => true,
                _ => false,
            },
            Token::Input => match other {
                Token::Input => true,
                _ => false,
            },
            Token::Dot => match other {
                Token::Dot => true,
                _ => false,
            },
            Token::Comma => match other {
                Token::Comma => true,
                _ => false,
            },
            Token::Colon => match other {
                Token::Colon => true,
                _ => false,
            },
            Token::Question => match other {
                Token::Question => true,
                _ => false,
            },
            Token::Arrow => match other {
                Token::Arrow => true,
                _ => false,
            },
            Token::LParen => match other {
                Token::LParen => true,
                _ => false,
            },
            Token::RParen => match other {
                Token::RParen => true,
                _ => false,
            },
            Token::LBrace => match other {
                Token::LBrace => true,
                _ => false,
            },
            Token::RBrace => match other {
                Token::RBrace => true,
                _ => false,
            },
            Token::LBracket => match other {
                Token::LBracket => true,
                _ => false,
            },
            Token::RBracket => match other {
                Token::RBracket => true,
                _ => false,
            },
            Token::Equals => match other {
                Token::Equals => true,
                _ => false,
            },
            Token::EqualEqual => match other {
                Token::EqualEqual => true,
                _ => false,
            },
            Token::NotEqual => match other {
                Token::NotEqual => true,
                _ => false,
            },
            Token::Less => match other {
                Token::Less => true,
                _ => false,
            },
            Token::Greater => match other {
                Token::Greater => true,
                _ => false,
            },
            Token::LessEqual => match other {
                Token::LessEqual => true,
                _ => false,
            },
            Token::GreaterEqual => match other {
                Token::GreaterEqual => true,
                _ => false,
            },
            Token::Plus => match other {
                Token::Plus => true,
                _ => false,
            },
            Token::Minus => match other {
                Token::Minus => true,
                _ => false,
            },
            Token::Star => match other {
                Token::Star => true,
                _ => false,
            },
            Token::Slash => match other {
                Token::Slash => true,
                _ => false,
            },
            Token::PlusEquals => match other {
                Token::PlusEquals => true,
                _ => false,
            },
            Token::MinusEquals => match other {
                Token::MinusEquals => true,
                _ => false,
            },
            Token::StarEquals => match other {
                Token::StarEquals => true,
                _ => false,
            },
            Token::SlashEquals => match other {
                Token::SlashEquals => true,
                _ => false,
            },
            Token::And => match other {
                Token::And => true,
                _ => false,
            },
            Token::Or => match other {
                Token::Or => true,
                _ => false,
            },
            Token::Not => match other {
                Token::Not => true,
                _ => false,
            },
            Token::Comment => match other {
                Token::Comment => true,
                _ => false,
            },
            Token::Error => match other {
                Token::Error => true,
                _ => false,
            },
            Token::StringLiteral(a) => match other {
                Token::StringLiteral(b) => *a == *b,
                _ => false,
            },
            Token::Number(a) => match other {
                Token::Number(b) => *a == *b,
                _ => false,
            },
            Token::DoubleLiteral(a) => match other {
                Token::DoubleLiteral(b) => *a == *b,
                _ => false,
            },
            Token::Identifier(a) => match other {
                Token::Identifier(b) => *a == *b,
                _ => false,
            },
        }
    }

    /// A copy of this token.
    pub fn duplicate(&self) -> (t: Token)
        ensures
            t@ == self@,
    {
        match self {
            Token::Fn => Token::Fn,
            Token::Let => Token::Let,
            Token::If => Token::If,
            Token::Else => Token::Else,
            Token::While => Token::While,
            Token::For => Token::For,
            Token::Return => Token::Return,
            Token::Break => Token::Break,
            Token::Continue => Token::Continue,
            Token::Import => Token::Import,
            Token::Struct => Token::Struct,
            Token::Int => Token::Int,
            Token::Double => Token::Double,
            Token::Str => Token::Str,
            Token::Io => Token::Io,
            Token::Print => Token::Print,
            Token::Input => Token::Input,
            Token::Dot => Token::Dot,
            Token::Comma => Token::Comma,
            Token::Colon => Token::Colon,
            Token::Question => Token::Question,
            Token::Arrow => Token::Arrow,
            Token::LParen => Token::LParen,
            Token::RParen => Token::RParen,
            Token::LBrace => Token::LBrace,
            Token::RBrace => Token::RBrace,
            Token::LBracket => Token::LBracket,
            Token::RBracket => Token::RBracket,
            Token::Equals => Token::Equals,
            Token::EqualEqual => Token::EqualEqual,
            Token::NotEqual => Token::NotEqual,
            Token::Less => Token::Less,
            Token::Greater => Token::Greater,
            Token::LessEqual => Token::LessEqual,
            Token::GreaterEqual => Token::GreaterEqual,
            Token::Plus => Token::Plus,
            Token::Minus => Token::Minus,
            Token::Star => Token::Star,
            Token::Slash => Token::Slash,
            Token::PlusEquals => Token::PlusEquals,
            Token::MinusEquals => Token::MinusEquals,
            Token::StarEquals => Token::StarEquals,
            Token::SlashEquals => Token::SlashEquals,
            Token::And => Token::And,
            Token::Or => Token::Or,
            Token::Not => Token::Not,
            Token::Comment => Token::Comment,
            Token::Error => Token::Error,
            Token::StringLiteral(s) => Token::StringLiteral(s.clone()),
            Token::Number(n) => Token::Number(*n),
            Token::DoubleLiteral(s) => Token::DoubleLiteral(s.clone()),
            Token::Identifier(s) => Token::Identifier(s.clone()),
        }
    }
}

/// The `{:?}` rendering of an optional token.
pub fn opt_token_debug(t: Option<&Token>) -> (s: String)
    ensures
        s@ == opt_token_debug_text(match t { Some(t) => Some(t@), None => None }),
{
    match t {
        Some(t) => {
            let mut s = String::from_str("Some");
            string_push(&mut s, '(');
            let d = t.debug_text();
            s.append(d.as_str());
            string_push(&mut s, ')');
            assert(s@ =~= opt_token_debug_text(Some(t@)));
            s
        },
        None => String::from_str("None"),
    }
}

} // verus!
