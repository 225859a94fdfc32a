use rustic::lexer::{is_id_continue, is_id_start, is_whitespace, tokenize, Cursor, LiteralKind, Token};

fn ident(s: &str) -> Token {
    Token::Identifier { id: s.to_string() }
}

fn number(s: &str) -> Token {
    Token::Number { number: s.to_string() }
}

#[test]
fn function_signature_tokens() {
    let toks = tokenize("fn add(a: i32, b: i32) -> i32 { a + b }");
    let expected = vec![
        Token::Fn,
        ident("add"),
        Token::OpenParen,
        ident("a"),
        Token::Colon,
        ident("i32"),
        Token::Comma,
        ident("b"),
        Token::Colon,
        ident("i32"),
        Token::CloseParen,
        Token::RightArrow,
        ident("i32"),
        Token::OpenBrace,
        ident("a"),
        Token::Plus,
        ident("b"),
        Token::CloseBrace,
    ];
    assert_eq!(toks, expected);
}

#[test]
fn whitespace_only_gives_no_tokens() {
    assert_eq!(tokenize("    ;"), vec![Token::Semicolon]);
    assert!(tokenize("").is_empty());
    assert!(tokenize(" \t\n\r ").is_empty());
}

#[test]
fn keywords_and_fused_operators() {
    let toks = tokenize("pub let if else == != <= >= << >> && || = < > & | ! -");
    assert_eq!(
        toks,
        vec![
            Token::Pub,
            Token::Let,
            Token::If,
            Token::Else,
            Token::EqEq,
            Token::NotEq,
            Token::LtEq,
            Token::GtEq,
            Token::ShiftLeft,
            Token::ShiftRight,
            Token::AndAnd,
            Token::OrOr,
            Token::Eq,
            Token::Lt,
            Token::Gt,
            Token::And,
            Token::Or,
            Token::Bang,
            Token::Minus,
        ]
    );
}

#[test]
fn comments_are_dropped() {
    let toks = tokenize("1 // one\n/* two */ 2 /* open");
    assert_eq!(toks, vec![number("1"), number("2")]);
}

#[test]
fn numbers_stop_at_non_digits() {
    assert_eq!(tokenize("123abc"), vec![number("123"), ident("abc")]);
    assert_eq!(tokenize("007;"), vec![number("007"), Token::Semicolon]);
}

#[test]
fn string_literals() {
    assert_eq!(
        tokenize("\"hi there\" \"open"),
        vec![
            Token::StrLiteral {
                string: "hi there".to_string(),
                literal_kind: LiteralKind::Str { terminated: true }
            },
            Token::StrLiteral {
                string: "open".to_string(),
                literal_kind: LiteralKind::Str { terminated: false }
            },
        ]
    );
}

#[test]
fn identifiers_and_unicode() {
    assert_eq!(tokenize("_x1 été"), vec![ident("_x1"), ident("été")]);
    assert_eq!(tokenize("r#raw"), vec![Token::RawIdentifier]);
    assert_eq!(tokenize("ab😀"), vec![Token::InvalidIdentifier, Token::Unknown]);
    assert_eq!(tokenize("'a"), vec![Token::Lifetime { starts_with_number: false }, ident("a")]);
    assert_eq!(tokenize("€"), vec![Token::Unknown]);
}

#[test]
fn character_classes() {
    assert!(is_whitespace(' '));
    assert!(is_whitespace('\u{2028}'));
    assert!(!is_whitespace('a'));
    assert!(is_id_start('_'));
    assert!(is_id_start('é'));
    assert!(!is_id_start('1'));
    assert!(is_id_continue('1'));
    assert!(is_id_continue('_'));
    assert!(!is_id_continue('-'));
}

#[test]
fn cursor_reads_one_token_at_a_time() {
    let mut c = Cursor::new("ab  ->");
    assert_eq!(c.first(), 'a');
    assert_eq!(c.lex(), ident("ab"));
    assert_eq!(c.lex(), Token::Whitespace);
    assert_eq!(c.first(), '-');
    assert_eq!(c.lex(), Token::RightArrow);
    assert_eq!(c.lex(), Token::Eof);
    assert_eq!(c.first(), '\0');
    assert_eq!(Token::new(Token::Dot), Token::Dot);
}
