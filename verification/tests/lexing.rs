use toylang::lexer::{tokenize, LexDiagnostic, Token, TokenType};

fn tokens_of(source: &str) -> Vec<Token> {
    let (tokens, diagnostics) = tokenize(source);
    assert!(diagnostics.is_empty(), "unexpected lexical diagnostics");
    tokens
}

#[test]
fn single_character_symbols() {
    let tokens = tokens_of("+ - * / % ^ ( ) { } ; = > < !");
    assert_eq!(tokens.len(), 15);
    assert!(matches!(tokens[0].token_type, TokenType::Plus));
    assert!(matches!(tokens[1].token_type, TokenType::Minus));
    assert!(matches!(tokens[2].token_type, TokenType::Multiply));
    assert!(matches!(tokens[3].token_type, TokenType::Divide));
    assert!(matches!(tokens[4].token_type, TokenType::Modulo));
    assert!(matches!(tokens[5].token_type, TokenType::Pow));
    assert!(matches!(tokens[6].token_type, TokenType::LParen));
    assert!(matches!(tokens[7].token_type, TokenType::RParen));
    assert!(matches!(tokens[8].token_type, TokenType::LBrace));
    assert!(matches!(tokens[9].token_type, TokenType::RBrace));
    assert!(matches!(tokens[10].token_type, TokenType::Semicolon));
    assert!(matches!(tokens[11].token_type, TokenType::Equal));
    assert!(matches!(tokens[12].token_type, TokenType::GreaterThan));
    assert!(matches!(tokens[13].token_type, TokenType::LessThan));
    assert!(matches!(tokens[14].token_type, TokenType::Not));
}

#[test]
fn compound_operators_are_single_tokens() {
    let tokens = tokens_of("== != <= >= && ||");
    assert_eq!(tokens.len(), 6);
    assert!(matches!(tokens[0].token_type, TokenType::DoubleEqual));
    assert!(matches!(tokens[1].token_type, TokenType::NotEqual));
    assert!(matches!(tokens[2].token_type, TokenType::LessThanOrEqual));
    assert!(matches!(tokens[3].token_type, TokenType::GreaterThanOrEqual));
    assert!(matches!(tokens[4].token_type, TokenType::And));
    assert!(matches!(tokens[5].token_type, TokenType::Or));
}

#[test]
fn compound_operator_next_to_identifier() {
    let tokens = tokens_of("a<=b");
    assert_eq!(tokens.len(), 3);
    assert!(matches!(&tokens[0].token_type, TokenType::Variable(s) if s == "a"));
    assert!(matches!(tokens[1].token_type, TokenType::LessThanOrEqual));
    assert!(matches!(&tokens[2].token_type, TokenType::Variable(s) if s == "b"));
}

#[test]
fn keywords_and_identifiers() {
    let tokens = tokens_of("if else while let print true false iff lettuce _x x_1");
    assert!(matches!(tokens[0].token_type, TokenType::IfKeyword));
    assert!(matches!(tokens[1].token_type, TokenType::ElseKeyword));
    assert!(matches!(tokens[2].token_type, TokenType::WhileKeyword));
    assert!(matches!(tokens[3].token_type, TokenType::LetKeyword));
    assert!(matches!(tokens[4].token_type, TokenType::PrintKeyword));
    assert!(matches!(tokens[5].token_type, TokenType::TrueKeyword));
    assert!(matches!(tokens[6].token_type, TokenType::FalseKeyword));
    assert!(matches!(&tokens[7].token_type, TokenType::Variable(s) if s == "iff"));
    assert!(matches!(&tokens[8].token_type, TokenType::Variable(s) if s == "lettuce"));
    assert!(matches!(&tokens[9].token_type, TokenType::Variable(s) if s == "_x"));
    assert!(matches!(&tokens[10].token_type, TokenType::Variable(s) if s == "x_1"));
}

#[test]
fn integer_literals() {
    let tokens = tokens_of("0 7 2147483647");
    assert!(matches!(tokens[0].token_type, TokenType::Int(0)));
    assert!(matches!(tokens[1].token_type, TokenType::Int(7)));
    assert!(matches!(tokens[2].token_type, TokenType::Int(2147483647)));
}

#[test]
fn digits_then_letters_form_an_identifier() {
    let tokens = tokens_of("123abc");
    assert_eq!(tokens.len(), 1);
    assert!(matches!(&tokens[0].token_type, TokenType::Variable(s) if s == "123abc"));
}

#[test]
fn oversized_integer_is_a_diagnostic() {
    let (tokens, diagnostics) = tokenize("2147483648");
    assert!(tokens.is_empty());
    assert_eq!(diagnostics.len(), 1);
    assert!(matches!(
        diagnostics[0],
        LexDiagnostic::IntegerTooLarge { line: 0, column: 0 }
    ));
}

#[test]
fn unrecognized_character_is_a_diagnostic() {
    let (tokens, diagnostics) = tokenize("a @ b");
    assert_eq!(tokens.len(), 2);
    assert_eq!(diagnostics.len(), 1);
    assert!(matches!(
        diagnostics[0],
        LexDiagnostic::UnrecognizedCharacter { character: '@', line: 0, column: 2 }
    ));
}

#[test]
fn positions_track_lines_and_columns() {
    let tokens = tokens_of("let x\n  = 5;");
    assert_eq!((tokens[0].line, tokens[0].column), (0, 0));
    assert_eq!((tokens[1].line, tokens[1].column), (0, 4));
    assert_eq!((tokens[2].line, tokens[2].column), (1, 2));
    assert_eq!((tokens[3].line, tokens[3].column), (1, 4));
    assert_eq!((tokens[4].line, tokens[4].column), (1, 5));
}

#[test]
fn whitespace_separates_words() {
    let tokens = tokens_of("ab cd\r\nef");
    assert_eq!(tokens.len(), 3);
    assert!(matches!(&tokens[0].token_type, TokenType::Variable(s) if s == "ab"));
    assert!(matches!(&tokens[1].token_type, TokenType::Variable(s) if s == "cd"));
    assert!(matches!(&tokens[2].token_type, TokenType::Variable(s) if s == "ef"));
}

#[test]
fn tokenize_is_deterministic() {
    let source = "{ let x = 1 + 2; print(x); } @";
    let (t1, d1) = tokenize(source);
    let (t2, d2) = tokenize(source);
    assert_eq!(t1.len(), t2.len());
    assert_eq!(d1.len(), d2.len());
    for (a, b) in t1.iter().zip(t2.iter()) {
        assert_eq!((a.line, a.column), (b.line, b.column));
        assert_eq!(token_shape(a), token_shape(b));
    }
}

fn token_shape(t: &Token) -> (usize, Option<&str>, Option<i32>) {
    match &t.token_type {
        TokenType::Variable(s) => (0, Some(s.as_str()), None),
        TokenType::Int(i) => (1, None, Some(*i)),
        TokenType::Plus => (2, None, None),
        TokenType::Minus => (3, None, None),
        TokenType::Multiply => (4, None, None),
        TokenType::Divide => (5, None, None),
        TokenType::Modulo => (6, None, None),
        TokenType::Pow => (7, None, None),
        TokenType::LParen => (8, None, None),
        TokenType::RParen => (9, None, None),
        TokenType::LBrace => (10, None, None),
        TokenType::RBrace => (11, None, None),
        TokenType::Semicolon => (12, None, None),
        TokenType::Equal => (13, None, None),
        TokenType::DoubleEqual => (14, None, None),
        TokenType::NotEqual => (15, None, None),
        TokenType::GreaterThan => (16, None, None),
        TokenType::GreaterThanOrEqual => (17, None, None),
        TokenType::LessThan => (18, None, None),
        TokenType::LessThanOrEqual => (19, None, None),
        TokenType::Not => (20, None, None),
        TokenType::And => (21, None, None),
        TokenType::Or => (22, None, None),
        TokenType::TrueKeyword => (23, None, None),
        TokenType::FalseKeyword => (24, None, None),
        TokenType::IfKeyword => (25, None, None),
        TokenType::ElseKeyword => (26, None, None),
        TokenType::WhileKeyword => (27, None, None),
        TokenType::LetKeyword => (28, None, None),
        TokenType::PrintKeyword => (29, None, None),
    }
}
