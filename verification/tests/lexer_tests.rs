use pl_0::error::CompileErrorType;
use pl_0::lexer::Lexer;
use pl_0::token::Token;

#[test]
fn lexer_demo() {
    let token_list = Lexer::dbg_one_pass("1 + 2");
    assert_eq!(token_list.len(), 3);
    assert!(matches!(token_list[0], Token::Integer(1)));
    assert!(matches!(token_list[1], Token::Add));
    assert!(matches!(token_list[2], Token::Integer(2)));
}

#[test]
fn lexes_keywords_and_identifiers() {
    let toks = Lexer::dbg_one_pass("program demo; begin write end");
    assert!(matches!(toks[0], Token::Program));
    match &toks[1] {
        Token::Identifier(s) => assert_eq!(s, "demo"),
        other => panic!("expected an identifier, got {:?}", other),
    }
    assert!(matches!(toks[2], Token::Semicolon));
    assert!(matches!(toks[3], Token::Begin));
    assert!(matches!(toks[4], Token::Write));
    assert!(matches!(toks[5], Token::End));
}

#[test]
fn lexes_compound_operators() {
    let toks = Lexer::dbg_one_pass("<= >= <> < > = :=");
    assert!(matches!(toks[0], Token::Le));
    assert!(matches!(toks[1], Token::Ge));
    assert!(matches!(toks[2], Token::Ne));
    assert!(matches!(toks[3], Token::Lt));
    assert!(matches!(toks[4], Token::Gt));
    assert!(matches!(toks[5], Token::Eq));
    assert!(matches!(toks[6], Token::EqSign));
}

#[test]
fn single_colon_is_a_lexical_error() {
    let toks = Lexer::dbg_one_pass("a : b");
    assert!(matches!(toks[0], Token::Identifier(_)));
    match &toks[1] {
        Token::LexicalError(e) => {
            assert_eq!(e.error_type, CompileErrorType::LexicalError);
            assert_eq!(e.info, "':' is an undefined sign, did you mean ':='?");
        },
        other => panic!("expected a lexical error, got {:?}", other),
    }
    assert!(matches!(toks[2], Token::Identifier(_)));
}

#[test]
fn underscore_is_a_lexical_error() {
    let toks = Lexer::dbg_one_pass("a_b");
    match &toks[0] {
        Token::LexicalError(e) => {
            assert_eq!(e.info, "'_' is not supported for identifier declaration");
        },
        other => panic!("expected a lexical error, got {:?}", other),
    }
}

#[test]
fn non_ascii_character_is_a_lexical_error() {
    let toks = Lexer::dbg_one_pass("x \u{4e2d} y");
    assert!(matches!(toks[0], Token::Identifier(_)));
    assert!(matches!(toks[1], Token::LexicalError(_)));
    assert!(matches!(toks[2], Token::Identifier(_)));
}

#[test]
fn oversized_integer_literal_is_a_lexical_error() {
    // one digit past i64::MAX
    let toks = Lexer::dbg_one_pass("92233720368547758070");
    assert!(matches!(toks[0], Token::LexicalError(_)));
    // the largest representable literal still lexes
    let toks = Lexer::dbg_one_pass("9223372036854775807");
    assert!(matches!(toks[0], Token::Integer(9223372036854775807)));
}

#[test]
fn line_and_column_tracking() {
    let mut lexer = Lexer::new("a\n  b");
    assert!(lexer.next().is_some());
    assert_eq!(lexer.line_num, 1);
    assert!(lexer.next().is_some());
    assert_eq!(lexer.line_num, 2);
    assert_eq!(lexer.col_num, 3);
}

#[test]
fn peek_does_not_consume() {
    let mut lexer = Lexer::new("begin end");
    let peeked = lexer.peek();
    assert!(matches!(peeked, Some(Token::Begin)));
    let taken = lexer.next();
    assert!(matches!(taken, Some(Token::Begin)));
    assert!(matches!(lexer.next(), Some(Token::End)));
    assert!(lexer.next().is_none());
}

#[test]
fn tokens_compare_by_tag_only() {
    let a = Token::Identifier("a".to_string());
    let b = Token::Identifier("b".to_string());
    assert_eq!(a, b);
    let one = Token::Integer(1);
    let two = Token::Integer(2);
    assert_eq!(one, two);
    assert_ne!(a, one);
    assert_eq!(Token::Begin, Token::Begin);
    assert_ne!(Token::Begin, Token::End);
}
