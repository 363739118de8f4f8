use lead::ast::{Application, Expression, Literal, OperatorType, Statement};
use lead::error::LangError;
use lead::lex::Lexer;
use lead::parse::LangParser;
use lead::span::SpanFactory;
use lead::token::{Token, TokenType};

fn process(src: &str) -> Vec<TokenType> {
    let mut factory = SpanFactory::new();
    let mut lexer = Lexer::new(src);
    let result = lexer.run(&mut factory).unwrap();
    result.iter().map(|x| x.token_type().clone()).collect()
}

fn lex_err(src: &str) -> LangError {
    let mut factory = SpanFactory::new();
    let mut lexer = Lexer::new(src);
    lexer.run(&mut factory).unwrap_err()
}

#[test]
fn keywords() {
    let keyword_lexemes = ["true", "false", "let", "if", "for", "while", "yield"];
    assert_eq!(
        vec![
            TokenType::Bool(true),
            TokenType::Bool(false),
            TokenType::Let,
            TokenType::If,
            TokenType::For,
            TokenType::While,
            TokenType::Yield,
        ],
        keyword_lexemes
            .into_iter()
            .map(|keyword| {
                let mut factory = SpanFactory::new();
                let mut lexer = Lexer::new(keyword);
                let tokens = lexer.run(&mut factory).unwrap();
                tokens.first().unwrap().token_type().clone()
            })
            .collect::<Vec<TokenType>>()
    );
}

#[test]
fn simple_if() {
    let src = "if (my_var < 3) { 42 }";
    let expected: Vec<TokenType> = vec![
        TokenType::If,
        TokenType::LeftParen,
        TokenType::Identifier("my_var".to_owned()),
        TokenType::LessThan,
        TokenType::Number(3),
        TokenType::RightParen,
        TokenType::LeftBrace,
        TokenType::Number(42),
        TokenType::RightBrace,
        TokenType::EOF,
    ];
    assert_eq!(expected, process(src));
}

#[test]
fn multiline_if() {
    let src = "let my_var := 2;\nif (my_var < 3) {\n\t42\n}";
    let expected: Vec<TokenType> = vec![
        TokenType::Let,
        TokenType::Identifier("my_var".to_owned()),
        TokenType::Assign,
        TokenType::Number(2),
        TokenType::Semicolon,
        TokenType::If,
        TokenType::LeftParen,
        TokenType::Identifier("my_var".to_owned()),
        TokenType::LessThan,
        TokenType::Number(3),
        TokenType::RightParen,
        TokenType::LeftBrace,
        TokenType::Number(42),
        TokenType::RightBrace,
        TokenType::EOF,
    ];
    assert_eq!(expected, process(src));
}

#[test]
fn two_character_operators() {
    assert_eq!(
        process("a := b == c != d <= e >= f"),
        vec![
            TokenType::Identifier("a".to_owned()),
            TokenType::Assign,
            TokenType::Identifier("b".to_owned()),
            TokenType::EqEq,
            TokenType::Identifier("c".to_owned()),
            TokenType::BangEq,
            TokenType::Identifier("d".to_owned()),
            TokenType::LessThanEq,
            TokenType::Identifier("e".to_owned()),
            TokenType::GreaterThanEq,
            TokenType::Identifier("f".to_owned()),
            TokenType::EOF,
        ]
    );
}

#[test]
fn character_literals_with_escapes() {
    assert_eq!(
        process("'a' '\\n' '\\''"),
        vec![
            TokenType::Char('a'),
            TokenType::Char('\n'),
            TokenType::Char('\''),
            TokenType::EOF,
        ]
    );
}

#[test]
fn empty_source_is_one_end_token() {
    assert_eq!(process(""), vec![TokenType::EOF]);
    assert_eq!(process("   \t\n"), vec![TokenType::EOF]);
}

#[test]
fn unknown_lexeme_is_an_error() {
    match lex_err("let a := #;") {
        LangError::InvalidLexeme { lexeme, span } => {
            assert_eq!(lexeme, "#");
            assert_eq!(span.span, (9, 10));
        }
        other => panic!("expected an invalid lexeme, got {:?}", other),
    }
}

#[test]
fn lone_equals_is_an_error() {
    match lex_err("a = b") {
        LangError::InvalidLexeme { lexeme, .. } => assert_eq!(lexeme, "="),
        other => panic!("expected an invalid lexeme, got {:?}", other),
    }
}

#[test]
fn unterminated_character_literal_is_an_error() {
    match lex_err("'a") {
        LangError::InvalidCharacterLiteral { char_literal, .. } => {
            assert_eq!(char_literal, "'a")
        }
        other => panic!("expected an invalid character literal, got {:?}", other),
    }
}

#[test]
fn oversized_number_is_an_error() {
    match lex_err("99999999999999999999999999") {
        LangError::InvalidIntegerLiteral { num_literal, .. } => {
            assert_eq!(num_literal, "99999999999999999999999999")
        }
        other => panic!("expected an invalid integer literal, got {:?}", other),
    }
}

#[test]
fn token_from_maps_punctuation() {
    let mut factory = SpanFactory::new();
    let tok = Token::from(":=", 3, &mut factory).unwrap();
    assert_eq!(tok.token_type(), &TokenType::Assign);
    assert_eq!(tok.span().span, (3, 5));
    assert!(Token::from("@", 0, &mut factory).is_err());
}

#[test]
fn token_from_keyword_maps_booleans() {
    let mut factory = SpanFactory::new();
    let t = Token::from_keyword("true", 0, &mut factory).unwrap();
    assert_eq!(t.token_type(), &TokenType::Bool(true));
    assert_eq!(t.span().span, (0, 4));
    let f = Token::from_keyword("while", 2, &mut factory).unwrap();
    assert_eq!(f.token_type(), &TokenType::While);
}

#[test]
fn token_sizes_match_their_source_form() {
    assert_eq!(TokenType::Assign.size(), 2);
    assert_eq!(TokenType::LeftParen.size(), 1);
    assert_eq!(TokenType::Identifier("my_var".to_owned()).size(), 6);
    assert_eq!(TokenType::Number(1234).size(), 4);
    assert_eq!(TokenType::Number(0).size(), 1);
    assert_eq!(TokenType::Bool(true).size(), 4);
    assert_eq!(TokenType::Bool(false).size(), 5);
    assert_eq!(TokenType::While.size(), 5);
    assert_eq!(TokenType::EOF.size(), 0);
}


fn parse_source(src: &str) -> Result<Vec<Statement>, LangError> {
    let mut factory = SpanFactory::new();
    let tokens: Vec<Token> = {
        let mut lexer = Lexer::new(src);
        lexer.run(&mut factory).unwrap()
    };
    let mut parser = LangParser::new(tokens.as_slice());
    parser.parse_statement(Vec::new(), &mut factory)
}

#[test]
fn parses_let_and_yield() {
    let ast = parse_source("let a := 5; yield a;").unwrap();
    assert_eq!(ast.len(), 2);
    match &ast[0] {
        Statement::Let(l) => {
            assert_eq!(l.variable, "a");
            assert!(matches!(
                l.value,
                Expression::Literal { lit: Literal::Number { val: 5, .. } }
            ));
        }
        other => panic!("expected a let statement, got {:?}", other),
    }
    assert!(matches!(&ast[1], Statement::Yield(_)));
}

#[test]
fn binary_applications_associate_to_the_right() {
    let ast = parse_source("yield 2 * 3 + 1;").unwrap();
    // no precedence: 2 * (3 + 1)
    match &ast[0] {
        Statement::Yield(Expression::App { app }) => match app {
            Application::Binary { op, right, .. } => {
                assert!(matches!(op, OperatorType::Multiply));
                assert!(matches!(**right, Expression::App { .. }));
            }
            other => panic!("expected a binary application, got {:?}", other),
        },
        other => panic!("expected a yield of an application, got {:?}", other),
    }
}

#[test]
fn parses_if_while_and_arrays() {
    let ast = parse_source("let x := [1, 2]; if x[0] < 2 { yield 1; } while false { }")
        .unwrap();
    assert_eq!(ast.len(), 3);
    assert!(matches!(&ast[0], Statement::Let(_)));
    assert!(matches!(&ast[1], Statement::If(_)));
    assert!(matches!(&ast[2], Statement::While(_)));
}

#[test]
fn let_of_a_non_identifier_is_an_error() {
    match parse_source("let 5 := 3;") {
        Err(LangError::InvalidIdentifier { id_literal, .. }) => assert_eq!(id_literal, "5"),
        other => panic!("expected an invalid identifier, got {:?}", other),
    }
}

#[test]
fn missing_semicolon_is_an_error() {
    assert!(matches!(
        parse_source("let a := 5"),
        Err(LangError::ExpectedToken { .. })
    ));
    assert!(matches!(
        parse_source("yield"),
        Err(LangError::UnexpectedEndOfFile { .. })
    ));
}

#[test]
fn unmatched_parenthesis_is_an_error() {
    assert!(matches!(
        parse_source("yield (1 + 2];"),
        Err(LangError::UnmatchedDelimiter { .. })
    ));
}

#[test]
fn statement_cannot_start_with_an_operator() {
    assert!(matches!(
        parse_source("* 5;"),
        Err(LangError::UnexpectedToken { .. })
    ));
}

#[test]
fn number_literal_must_fit_a_signed_word() {
    assert!(matches!(
        parse_source("yield 4294967296;"),
        Err(LangError::InvalidLiteral { .. })
    ));
}

#[test]
fn bang_is_not_a_binary_operator() {
    assert!(matches!(
        parse_source("yield 1 ! 2;"),
        Err(LangError::InvalidBinaryOperator { .. })
    ));
}

