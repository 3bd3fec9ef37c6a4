use sankode::lexer::{is_devanagari_ident_continue, is_devanagari_ident_start, LexError, Lexer};
use sankode::token::TokenKind;

#[test]
fn test_lex_hello_world() {
    let code = r#"
॥ नमस्ते जगत् ॥
क्रिया मुख्य() -> रिक्त
    मुद्रय("नमस्ते जगत्!")।
    मान गणना = १०।
इति
"#;
    let mut lexer = Lexer::new(code);
    let tokens = lexer.tokenize().expect("Tokenization failed");

    assert_eq!(tokens[0].kind, TokenKind::Kriya);
    assert_eq!(tokens[1].kind, TokenKind::Identifier("मुख्य".to_string()));
    assert_eq!(tokens[2].kind, TokenKind::LParen);
    assert_eq!(tokens[3].kind, TokenKind::RParen);
    assert_eq!(tokens[4].kind, TokenKind::Arrow);
    assert_eq!(tokens[5].kind, TokenKind::Identifier("रिक्त".to_string()));
    assert_eq!(tokens[6].kind, TokenKind::Identifier("मुद्रय".to_string()));
    assert_eq!(tokens[7].kind, TokenKind::LParen);
    assert_eq!(
        tokens[8].kind,
        TokenKind::StringLiteral("नमस्ते जगत्!".to_string())
    );
    assert_eq!(tokens[9].kind, TokenKind::RParen);
    assert_eq!(tokens[10].kind, TokenKind::Danda);
    assert_eq!(tokens[11].kind, TokenKind::Mana);
    assert_eq!(tokens[12].kind, TokenKind::Identifier("गणना".to_string()));
    assert_eq!(tokens[13].kind, TokenKind::Equal);
    assert_eq!(
        tokens[14].kind,
        TokenKind::DevanagariInteger(10, "१०".to_string())
    );
    assert_eq!(tokens[15].kind, TokenKind::Danda);
    assert_eq!(tokens[16].kind, TokenKind::Iti);
    assert_eq!(tokens[17].kind, TokenKind::Eof);
}

#[test]
fn identifier_classes() {
    assert!(is_devanagari_ident_start('क'));
    assert!(is_devanagari_ident_start('_'));
    assert!(!is_devanagari_ident_start('१'));
    assert!(is_devanagari_ident_continue('१'));
    assert!(!is_devanagari_ident_continue(' '));
}

#[test]
fn unterminated_string_is_an_error() {
    let mut lexer = Lexer::new("मुद्रय(\"abc");
    match lexer.tokenize() {
        Err(LexError::UnterminatedString(_)) => {}
        other => panic!("unexpected: {:?}", other),
    }
}

#[test]
fn stray_character_is_an_error() {
    let mut lexer = Lexer::new("मान क = $।");
    match lexer.tokenize() {
        Err(LexError::UnexpectedChar(c, _)) => assert_eq!(c, '$'),
        other => panic!("unexpected: {:?}", other),
    }
}

#[test]
fn empty_source_gives_only_eof() {
    let mut lexer = Lexer::new("   \n  ");
    let tokens = lexer.tokenize().unwrap();
    assert_eq!(tokens.len(), 1);
    assert_eq!(tokens[0].kind, TokenKind::Eof);
}

#[test]
fn latin_letters_start_identifiers() {
    let tokens = Lexer::new("abc = é").tokenize().unwrap();
    assert_eq!(tokens[0].kind, TokenKind::Identifier("abc".to_string()));
    assert_eq!(tokens[1].kind, TokenKind::Equal);
    assert_eq!(tokens[2].kind, TokenKind::Identifier("é".to_string()));
    assert_eq!(tokens[3].kind, TokenKind::Eof);
    let tokens = Lexer::new("\u{FB01}x").tokenize().unwrap();
    assert_eq!(tokens[0].kind, TokenKind::Identifier("fix".to_string()));
}

#[test]
fn ascii_digits_and_semicolons_are_refused() {
    assert!(matches!(Lexer::new("1").tokenize(), Err(LexError::UnexpectedChar('1', _))));
    assert!(matches!(Lexer::new(";").tokenize(), Err(LexError::UnexpectedChar(';', _))));
    assert!(matches!(Lexer::new("क1").tokenize(), Err(LexError::UnexpectedChar('1', _))));
    assert!(matches!(Lexer::new("abc9").tokenize(), Err(LexError::UnexpectedChar('9', _))));
    let tokens = Lexer::new("क१").tokenize().unwrap();
    assert_eq!(tokens[0].kind, TokenKind::Identifier("क१".to_string()));
}

#[test]
fn else_if_is_one_keyword() {
    let tokens = Lexer::new("अन्यथायदि अन्यथा यदि").tokenize().unwrap();
    assert_eq!(tokens[0].kind, TokenKind::AnyathaYadi);
    assert_eq!(tokens[1].kind, TokenKind::Anyatha);
    assert_eq!(tokens[2].kind, TokenKind::Yadi);
    assert_eq!(TokenKind::from_keyword("अन्यथायदि"), Some(TokenKind::AnyathaYadi));
}

#[test]
fn token_texts() {
    assert_eq!(TokenKind::Kriya.text(), "क्रिया");
    assert_eq!(TokenKind::AnyathaYadi.text(), "अन्यथायदि");
    assert_eq!(TokenKind::Arrow.text(), "->");
    assert_eq!(TokenKind::Eof.text(), "<अन्त>");
    assert_eq!(TokenKind::DevanagariInteger(42, "४२".to_string()).text(), "४२(42)");
    assert_eq!(TokenKind::DevanagariInteger(-7, "७".to_string()).text(), "७(-7)");
    assert_eq!(TokenKind::DevanagariInteger(i64::MIN, "x".to_string()).text(), "x(-9223372036854775808)");
    assert_eq!(TokenKind::StringLiteral("नमः".to_string()).text(), "\"नमः\"");
    assert_eq!(TokenKind::Identifier("क".to_string()).text(), "क");
    assert_eq!(TokenKind::DevanagariFloat("३.१४".to_string()).text(), "३.१४");
}
