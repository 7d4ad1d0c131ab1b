use side_lang::lexer::lex;
use side_lang::token::Token;

#[test]
fn lexes_a_let_statement_with_byte_spans() {
    let toks = lex("let x = 42").unwrap();
    assert_eq!(toks.len(), 4);
    assert_eq!(toks[0].0, Token::Let);
    assert_eq!(toks[0].1, 0..3);
    assert_eq!(toks[1].0, Token::Identifier("x".to_string()));
    assert_eq!(toks[1].1, 4..5);
    assert_eq!(toks[2].0, Token::Equals);
    assert_eq!(toks[2].1, 6..7);
    assert_eq!(toks[3].0, Token::Number(42));
    assert_eq!(toks[3].1, 8..10);
}

#[test]
fn skips_comments_and_whitespace() {
    let toks = lex("## a note\n\t fn\r\n").unwrap();
    assert_eq!(toks.len(), 1);
    assert_eq!(toks[0].0, Token::Fn);
    assert_eq!(toks[0].1, 12..14);
}

#[test]
fn empty_source_has_no_tokens() {
    assert_eq!(lex("").unwrap().len(), 0);
    assert_eq!(lex("   ## only a comment").unwrap().len(), 0);
}

#[test]
fn string_literal_drops_its_quotes() {
    let toks = lex("\"hi there\"").unwrap();
    assert_eq!(toks.len(), 1);
    assert_eq!(toks[0].0, Token::StringLiteral("hi there".to_string()));
    assert_eq!(toks[0].1, 0..10);
}

#[test]
fn spans_count_bytes_of_non_ascii_text() {
    let toks = lex("\"é\" x").unwrap();
    assert_eq!(toks[0].0, Token::StringLiteral("é".to_string()));
    assert_eq!(toks[0].1, 0..4);
    assert_eq!(toks[1].0, Token::Identifier("x".to_string()));
    assert_eq!(toks[1].1, 5..6);
}

#[test]
fn unterminated_string_is_an_error() {
    assert!(lex("\"abc").is_err());
}

#[test]
fn decimal_literal_keeps_its_digits() {
    let toks = lex("3.50").unwrap();
    assert_eq!(toks.len(), 1);
    assert_eq!(toks[0].0, Token::DoubleLiteral("3.50".to_string()));
    assert_eq!(toks[0].1, 0..4);
}

#[test]
fn a_dot_without_digits_after_it_is_not_part_of_a_number() {
    let toks = lex("3.x").unwrap();
    assert_eq!(toks[0].0, Token::Number(3));
    assert_eq!(toks[1].0, Token::Dot);
    assert_eq!(toks[2].0, Token::Identifier("x".to_string()));
}

#[test]
fn largest_i32_is_a_number() {
    let toks = lex("2147483647").unwrap();
    assert_eq!(toks[0].0, Token::Number(i32::MAX));
}

#[test]
fn number_past_i32_is_an_error() {
    assert!(lex("2147483648").is_err());
}

#[test]
fn unknown_character_is_an_error() {
    assert!(lex("let @").is_err());
    assert!(lex("a ; b").is_err());
}

#[test]
fn keywords_only_match_whole_words() {
    let toks = lex("fnx fn if_ if").unwrap();
    assert_eq!(toks[0].0, Token::Identifier("fnx".to_string()));
    assert_eq!(toks[1].0, Token::Fn);
    assert_eq!(toks[2].0, Token::Identifier("if_".to_string()));
    assert_eq!(toks[3].0, Token::If);
}

#[test]
fn every_keyword_lexes_to_its_token() {
    let toks = lex("fn let if else while for return break continue import struct int double str io print input").unwrap();
    let expected = vec![
        Token::Fn, Token::Let, Token::If, Token::Else, Token::While, Token::For, Token::Return, Token::Break,
        Token::Continue, Token::Import, Token::Struct, Token::Int, Token::Double, Token::Str, Token::Io,
        Token::Print, Token::Input,
    ];
    assert_eq!(toks.len(), expected.len());
    for (i, e) in expected.iter().enumerate() {
        assert_eq!(&toks[i].0, e);
    }
}

#[test]
fn two_character_operators_win_over_their_prefixes() {
    let toks = lex("<= == != >= -> += -= *= /= && || < = ! > + - * /").unwrap();
    let expected = vec![
        Token::LessEqual, Token::EqualEqual, Token::NotEqual, Token::GreaterEqual, Token::Arrow, Token::PlusEquals,
        Token::MinusEquals, Token::StarEquals, Token::SlashEquals, Token::And, Token::Or, Token::Less, Token::Equals,
        Token::Not, Token::Greater, Token::Plus, Token::Minus, Token::Star, Token::Slash,
    ];
    assert_eq!(toks.len(), expected.len());
    for (i, e) in expected.iter().enumerate() {
        assert_eq!(&toks[i].0, e);
    }
}

#[test]
fn punctuation_tokens() {
    let toks = lex(". , : ? ( ) { } [ ]").unwrap();
    let expected = vec![
        Token::Dot, Token::Comma, Token::Colon, Token::Question, Token::LParen, Token::RParen, Token::LBrace,
        Token::RBrace, Token::LBracket, Token::RBracket,
    ];
    assert_eq!(toks.len(), expected.len());
    for (i, e) in expected.iter().enumerate() {
        assert_eq!(&toks[i].0, e);
    }
}

#[test]
fn token_spans_are_in_order_and_within_the_source() {
    let src = "fn main() {\n  let é = \"ü\" ## x\n  io.print(1 <= 2.5)\n}";
    match lex(src) {
        Ok(_) => panic!("é is no identifier"),
        Err(_) => {},
    }
    let src = "fn main() {\n  let a = \"ü\" ## x\n  io.print(1 <= 2.5)\n}";
    let toks = lex(src).unwrap();
    let mut last_end = 0;
    for (_, r) in toks.iter() {
        assert!(r.start < r.end);
        assert!(last_end <= r.start);
        assert!(r.end <= src.len());
        last_end = r.end;
    }
}

#[test]
fn debug_text_matches_the_derived_debug() {
    let samples = vec![
        Token::Number(-3),
        Token::Number(42),
        Token::Identifier("a\"b".to_string()),
        Token::StringLiteral("x\ny".to_string()),
        Token::LBrace,
        Token::GreaterEqual,
    ];
    for t in samples.iter() {
        assert_eq!(t.debug_text(), format!("{:?}", t));
    }
}

#[test]
fn debug_text_of_a_decimal_literal_prints_the_number() {
    assert_eq!(Token::DoubleLiteral("2.50".to_string()).debug_text(), "DoubleLiteral(2.5)");
    assert_eq!(Token::DoubleLiteral("2.0".to_string()).debug_text(), "DoubleLiteral(2.0)");
    assert_eq!(Token::DoubleLiteral("007.10".to_string()).debug_text(), "DoubleLiteral(7.1)");
}
