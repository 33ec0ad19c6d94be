use toylang::ast::{
    ast_comp, Ast, AstCompError, BooleanCompOp, BooleanExpression, BooleanOp, Expression, Factor,
    Statement, Term,
};
use toylang::lexer::{tokenize, TokenType};
use toylang::rust_transpiler::transpile;
use toylang::semantic_analyzer::{analyze, SemanticAnalyzerError};

fn parse_ok(source: &str) -> Ast {
    let (tokens, diagnostics) = tokenize(source);
    assert!(diagnostics.is_empty(), "unexpected lexical diagnostics");
    match ast_comp(tokens) {
        Ok(ast) => ast,
        Err(e) => panic!("parse failed: {}", parse_error_name(&e)),
    }
}

fn parse_err(source: &str) -> AstCompError {
    let (tokens, diagnostics) = tokenize(source);
    assert!(diagnostics.is_empty(), "unexpected lexical diagnostics");
    match ast_comp(tokens) {
        Ok(_) => panic!("parse unexpectedly succeeded"),
        Err(e) => e,
    }
}

fn parse_error_name(e: &AstCompError) -> &'static str {
    match e {
        AstCompError::ExpectedVariable(_) => "ExpectedVariable",
        AstCompError::ExpectedEqual(_) => "ExpectedEqual",
        AstCompError::ExpectedExpression(_) => "ExpectedExpression",
        AstCompError::ExpectedSemicolon(_) => "ExpectedSemicolon",
        AstCompError::ExpectedLBrace(_) => "ExpectedLBrace",
        AstCompError::ExpectedRBrace(_) => "ExpectedRBrace",
        AstCompError::ExpectedLParen(_) => "ExpectedLParen",
        AstCompError::ExpectedRParen(_) => "ExpectedRParen",
        AstCompError::ExpectedBooleanExpression(_) => "ExpectedBooleanExpression",
        AstCompError::ExpectedIfBody(_) => "ExpectedIfBody",
        AstCompError::ExpectedElseBody(_) => "ExpectedElseBody",
        AstCompError::ExpectedWhileBody(_) => "ExpectedWhileBody",
        AstCompError::ExpectedStatement(_) => "ExpectedStatement",
        AstCompError::ExpectedPrintParenthesis(_) => "ExpectedPrintParenthesis",
        AstCompError::EndOfFileInStatement => "EndOfFileInStatement",
        AstCompError::EndOfFileInBlock => "EndOfFileInBlock",
    }
}

fn int_expr(value: i32) -> Expression {
    Expression::Term(Box::new(Term::Factor(Box::new(Factor::Int(value)))))
}

#[test]
fn precedence_term_binds_tighter_than_expr() {
    let ast = parse_ok("{ let r = 1 + 2 * 3; }");
    assert_eq!(ast.ast.len(), 1);
    match &ast.ast[0] {
        Statement::Let { variable, expr } => {
            assert_eq!(variable.as_str(), "r");
            match expr {
                Expression::Plus { expr: right, term: left } => {
                    match &**left {
                        Term::Factor(f) => assert!(matches!(&**f, Factor::Int(1))),
                        _ => panic!("left operand of + should be the factor 1"),
                    }
                    match &**right {
                        Expression::Term(t) => match &**t {
                            Term::Multiply { term, factor } => {
                                assert!(matches!(&**factor, Factor::Int(2)));
                                match &**term {
                                    Term::Factor(f) => assert!(matches!(&**f, Factor::Int(3))),
                                    _ => panic!("right operand of * should be the factor 3"),
                                }
                            },
                            _ => panic!("right side of + should be a multiplication"),
                        },
                        _ => panic!("right side of + should be a plain term"),
                    }
                },
                _ => panic!("top of the tree should be a plus"),
            }
        },
        _ => panic!("expected a let statement"),
    }
}

#[test]
fn associativity_chains_group_to_the_right() {
    let ast = parse_ok("{ let a = 10 - 3 - 2; }");
    match &ast.ast[0] {
        Statement::Let { variable: _, expr } => match expr {
            Expression::Minus { expr: right, term: left } => {
                match &**left {
                    Term::Factor(f) => assert!(matches!(&**f, Factor::Int(10))),
                    _ => panic!("left operand should be 10"),
                }
                assert!(matches!(&**right, Expression::Minus { .. }));
            },
            _ => panic!("top of the tree should be a minus"),
        },
        _ => panic!("expected a let statement"),
    }
}

#[test]
fn associativity_rendering_is_pinned() {
    let ast = parse_ok("{ let a = 10 - 3 - 2; }");
    assert_eq!(transpile(ast), "fn main() {\n    let mut a = 10 - 3 - 2;\n}\n");
}

#[test]
fn division_chains_group_to_the_right_and_render_in_source_order() {
    let ast = parse_ok("{ let a = 8 / 4 / 2; }");
    match &ast.ast[0] {
        Statement::Let { variable: _, expr } => match expr {
            Expression::Term(t) => match &**t {
                Term::Divide { term, factor } => {
                    assert!(matches!(&**factor, Factor::Int(8)));
                    assert!(matches!(&**term, Term::Divide { .. }));
                },
                _ => panic!("top of the term tree should be a division"),
            },
            _ => panic!("expression should be a plain term"),
        },
        _ => panic!("expected a let statement"),
    }
    let ast = parse_ok("{ let a = 8 / 4 / 2; }");
    assert_eq!(transpile(ast), "fn main() {\n    let mut a = 8 / 4 / 2;\n}\n");
}

#[test]
fn error_positioning_expected_equal() {
    match parse_err("{ let x 5; }") {
        AstCompError::ExpectedEqual(t) => {
            assert!(matches!(t.token_type, TokenType::Int(5)));
            assert_eq!((t.line, t.column), (0, 8));
        },
        e => panic!("wrong error: {}", parse_error_name(&e)),
    }
}

#[test]
fn end_to_end_scenario() {
    let source = "{ let x = 2; if x > 1 { print(x); } }";
    let ast = parse_ok(source);
    assert!(analyze(&ast).is_ok());
    let generated = transpile(ast);
    assert_eq!(
        generated,
        "fn main() {\n    let mut x = 2;\n    if x > 1 {\n    println!(\"{}\", x);\n}\n}\n",
    );
}

#[test]
fn undeclared_use_scenario() {
    let ast = parse_ok("{ y = 1; }");
    match analyze(&ast) {
        Err(SemanticAnalyzerError::UndefinedVariable(name)) => assert_eq!(name.as_str(), "y"),
        _ => panic!("analysis should fail with an undefined variable"),
    }
}

#[test]
fn scope_does_not_leak_out_of_if() {
    let ast = parse_ok("{ if 1 < 2 { let z = 1; } z = 3; }");
    match analyze(&ast) {
        Err(SemanticAnalyzerError::UndefinedVariable(name)) => assert_eq!(name.as_str(), "z"),
        _ => panic!("z should be undefined after the if block"),
    }
}

#[test]
fn scope_does_not_leak_out_of_while() {
    let ast = parse_ok("{ while 1 < 2 { let w = 1; } print(w); }");
    match analyze(&ast) {
        Err(SemanticAnalyzerError::UndefinedVariable(name)) => assert_eq!(name.as_str(), "w"),
        _ => panic!("w should be undefined after the while block"),
    }
}

#[test]
fn outer_variable_visible_in_nested_bodies() {
    let ast = parse_ok("{ let x = 1; if x > 0 { print(x); } while x > 0 { x = x - 1; } }");
    assert!(analyze(&ast).is_ok());
}

#[test]
fn let_initializer_sees_only_earlier_bindings() {
    let ast = parse_ok("{ let x = x + 1; }");
    match analyze(&ast) {
        Err(SemanticAnalyzerError::UndefinedVariable(name)) => assert_eq!(name.as_str(), "x"),
        _ => panic!("x should not be visible in its own initializer"),
    }
    let ast = parse_ok("{ let x = 1; if true { let x = x + 1; print(x); } }");
    assert!(analyze(&ast).is_ok());
}

#[test]
fn else_branch_parses_and_renders() {
    let source = "{ let x = 1; if x = 1 { print(1); } else { print(2); } }";
    let ast = parse_ok(source);
    assert!(analyze(&ast).is_ok());
    assert_eq!(
        transpile(ast),
        "fn main() {\n    let mut x = 1;\n    if x == 1 {\n    println!(\"{}\", 1);\n}\n    else {\n    println!(\"{}\", 2);\n}\n}\n",
    );
}

#[test]
fn branch_bindings_are_invisible_to_the_sibling_branch() {
    let ast = parse_ok("{ let c = 1; if c = 1 { let t = 1; } else { t = 2; } }");
    match analyze(&ast) {
        Err(SemanticAnalyzerError::UndefinedVariable(name)) => assert_eq!(name.as_str(), "t"),
        _ => panic!("t declared in the if branch should not be visible in else"),
    }
}

#[test]
fn while_loop_renders() {
    let source = "{ let i = 3; while i > 0 { i = i - 1; } }";
    let ast = parse_ok(source);
    assert!(analyze(&ast).is_ok());
    assert_eq!(
        transpile(ast),
        "fn main() {\n    let mut i = 3;\n    while i > 0 {\n    i = i - 1;\n}\n}\n",
    );
}

#[test]
fn generate_equal_for_structurally_equal_trees() {
    let first = Ast {
        ast: Box::new(vec![Statement::Let { variable: String::from("v"), expr: int_expr(4) }]),
    };
    let second = Ast {
        ast: Box::new(vec![Statement::Let { variable: String::from("v"), expr: int_expr(4) }]),
    };
    assert_eq!(transpile(first), transpile(second));
}

#[test]
fn pipeline_is_deterministic() {
    let source = "{ let x = 2; if x > 1 { print(x); } }";
    let run = |src: &str| {
        let (tokens, diagnostics) = tokenize(src);
        assert!(diagnostics.is_empty());
        let ast = ast_comp(tokens).unwrap_or_else(|_| panic!("parse failed"));
        assert!(analyze(&ast).is_ok());
        transpile(ast)
    };
    assert_eq!(run(source), run(source));
}

#[test]
fn hand_built_boolean_operators_render() {
    let ast = Ast {
        ast: Box::new(vec![Statement::If {
            condition: BooleanExpression::BooleanOp {
                op: BooleanOp::Xor,
                expr1: Box::new(BooleanExpression::Not {
                    expr: Box::new(BooleanExpression::Boolean(true)),
                }),
                expr2: Box::new(BooleanExpression::Parenthesis(Box::new(
                    BooleanExpression::Compare {
                        op: BooleanCompOp::LessThanOrEqual,
                        expr1: int_expr(1),
                        expr2: int_expr(2),
                    },
                ))),
            },
            body: Box::new(vec![]),
            else_body: Some(Box::new(vec![])),
        }]),
    };
    assert_eq!(
        transpile(ast),
        "fn main() {\n    if !true ^ (1 <= 2) {\n}\n    else {\n}\n}\n",
    );
}

#[test]
fn and_or_connectives_render() {
    let ast = Ast {
        ast: Box::new(vec![Statement::While {
            condition: BooleanExpression::BooleanOp {
                op: BooleanOp::And,
                expr1: Box::new(BooleanExpression::Boolean(false)),
                expr2: Box::new(BooleanExpression::BooleanOp {
                    op: BooleanOp::Or,
                    expr1: Box::new(BooleanExpression::Compare {
                        op: BooleanCompOp::NotEqual,
                        expr1: int_expr(1),
                        expr2: int_expr(2),
                    }),
                    expr2: Box::new(BooleanExpression::Compare {
                        op: BooleanCompOp::GreaterThanOrEqual,
                        expr1: int_expr(3),
                        expr2: int_expr(4),
                    }),
                }),
            },
            body: Box::new(vec![]),
        }]),
    };
    assert_eq!(
        transpile(ast),
        "fn main() {\n    while false && 1 != 2 || 3 >= 4 {\n}\n}\n",
    );
}

#[test]
fn negative_integers_render() {
    let ast = Ast {
        ast: Box::new(vec![
            Statement::Let { variable: String::from("n"), expr: int_expr(-5) },
            Statement::Let { variable: String::from("m"), expr: int_expr(i32::MIN) },
            Statement::Let { variable: String::from("z"), expr: int_expr(0) },
            Statement::Let { variable: String::from("big"), expr: int_expr(i32::MAX) },
        ]),
    };
    assert_eq!(
        transpile(ast),
        "fn main() {\n    let mut n = -5;\n    let mut m = -2147483648;\n    let mut z = 0;\n    let mut big = 2147483647;\n}\n",
    );
}

#[test]
fn parenthesized_arithmetic_renders_with_parentheses() {
    let ast = parse_ok("{ let a = (1 + 2) * 3; }");
    assert_eq!(transpile(ast), "fn main() {\n    let mut a = (1 + 2) * 3;\n}\n");
}

#[test]
fn parse_error_expected_variable() {
    match parse_err("{ let 5 = 1; }") {
        AstCompError::ExpectedVariable(t) => assert!(matches!(t.token_type, TokenType::Int(5))),
        e => panic!("wrong error: {}", parse_error_name(&e)),
    }
}

#[test]
fn parse_error_expected_expression() {
    match parse_err("{ let x = ; }") {
        AstCompError::ExpectedExpression(t) => {
            assert!(matches!(t.token_type, TokenType::Semicolon))
        },
        e => panic!("wrong error: {}", parse_error_name(&e)),
    }
}

#[test]
fn parse_error_expected_semicolon() {
    match parse_err("{ let x = 1 }") {
        AstCompError::ExpectedSemicolon(t) => assert!(matches!(t.token_type, TokenType::RBrace)),
        e => panic!("wrong error: {}", parse_error_name(&e)),
    }
}

#[test]
fn parse_error_expected_left_brace() {
    match parse_err("{ if true 5 }") {
        AstCompError::ExpectedLBrace(t) => assert!(matches!(t.token_type, TokenType::Int(5))),
        e => panic!("wrong error: {}", parse_error_name(&e)),
    }
}

#[test]
fn parse_error_expected_left_paren() {
    match parse_err("{ print 1; }") {
        AstCompError::ExpectedLParen(t) => assert!(matches!(t.token_type, TokenType::Int(1))),
        e => panic!("wrong error: {}", parse_error_name(&e)),
    }
}

#[test]
fn parse_error_expected_right_paren() {
    match parse_err("{ print(1; }") {
        AstCompError::ExpectedRParen(t) => assert!(matches!(t.token_type, TokenType::Semicolon)),
        e => panic!("wrong error: {}", parse_error_name(&e)),
    }
}

#[test]
fn parse_error_unclosed_parenthesized_expression() {
    match parse_err("{ let x = (1; }") {
        AstCompError::ExpectedRParen(t) => assert!(matches!(t.token_type, TokenType::Semicolon)),
        e => panic!("wrong error: {}", parse_error_name(&e)),
    }
    match parse_err("{ if (1 < 2 { } }") {
        AstCompError::ExpectedRParen(t) => assert!(matches!(t.token_type, TokenType::LBrace)),
        e => panic!("wrong error: {}", parse_error_name(&e)),
    }
}

#[test]
fn modulo_and_caret_are_not_arithmetic_operators() {
    match parse_err("{ let x = 1 % 2; }") {
        AstCompError::ExpectedSemicolon(t) => assert!(matches!(t.token_type, TokenType::Modulo)),
        e => panic!("wrong error: {}", parse_error_name(&e)),
    }
    match parse_err("{ let x = 1 ^ 2; }") {
        AstCompError::ExpectedSemicolon(t) => assert!(matches!(t.token_type, TokenType::Pow)),
        e => panic!("wrong error: {}", parse_error_name(&e)),
    }
}

#[test]
fn parse_error_expected_boolean_expression() {
    match parse_err("{ if 1 { } }") {
        AstCompError::ExpectedBooleanExpression(t) => {
            assert!(matches!(t.token_type, TokenType::LBrace))
        },
        e => panic!("wrong error: {}", parse_error_name(&e)),
    }
}

#[test]
fn parse_error_expected_statement() {
    match parse_err("{ ; }") {
        AstCompError::ExpectedStatement(t) => {
            assert!(matches!(t.token_type, TokenType::Semicolon))
        },
        e => panic!("wrong error: {}", parse_error_name(&e)),
    }
}

#[test]
fn parse_error_unterminated_block() {
    assert!(matches!(parse_err("{ let x = 1;"), AstCompError::EndOfFileInBlock));
    assert!(matches!(ast_comp(Vec::new()), Err(AstCompError::EndOfFileInBlock)));
}

#[test]
fn parse_error_end_of_file_in_statement() {
    assert!(matches!(parse_err("{ let x = 1"), AstCompError::EndOfFileInStatement));
    assert!(matches!(parse_err("{ let x"), AstCompError::EndOfFileInStatement));
}

#[test]
fn comparison_operators_parse_and_render() {
    let source = "{ let x = 1; if x <= 2 { print(x); } if x >= 1 { print(x); } if x != 3 { print(x); } }";
    let ast = parse_ok(source);
    assert!(analyze(&ast).is_ok());
    let generated = transpile(ast);
    assert!(generated.contains("if x <= 2 {"));
    assert!(generated.contains("if x >= 1 {"));
    assert!(generated.contains("if x != 3 {"));
}

#[test]
fn boolean_connectives_parse_and_render() {
    let ast = parse_ok("{ if true && false { print(1); } }");
    match &ast.ast[0] {
        Statement::If { condition, .. } => match condition {
            BooleanExpression::BooleanOp { op, expr1, expr2 } => {
                assert!(matches!(op, BooleanOp::And));
                assert!(matches!(&**expr1, BooleanExpression::Boolean(true)));
                assert!(matches!(&**expr2, BooleanExpression::Boolean(false)));
            },
            _ => panic!("condition should be a connective"),
        },
        _ => panic!("expected an if statement"),
    }
    assert!(analyze(&ast).is_ok());
    assert_eq!(
        transpile(ast),
        "fn main() {\n    if true && false {\n    println!(\"{}\", 1);\n}\n}\n",
    );
}

#[test]
fn connective_chains_group_to_the_right() {
    let ast = parse_ok("{ if true && false || true { } }");
    match &ast.ast[0] {
        Statement::If { condition, .. } => match condition {
            BooleanExpression::BooleanOp { op, expr1, expr2 } => {
                assert!(matches!(op, BooleanOp::And));
                assert!(matches!(&**expr1, BooleanExpression::Boolean(true)));
                match &**expr2 {
                    BooleanExpression::BooleanOp { op, .. } => assert!(matches!(op, BooleanOp::Or)),
                    _ => panic!("right operand should hold the rest of the chain"),
                }
            },
            _ => panic!("condition should be a connective"),
        },
        _ => panic!("expected an if statement"),
    }
    assert_eq!(transpile(ast), "fn main() {\n    if true && false || true {\n}\n}\n");
}

#[test]
fn caret_is_the_xor_connective() {
    let ast = parse_ok("{ if true ^ false { } }");
    match &ast.ast[0] {
        Statement::If { condition, .. } => match condition {
            BooleanExpression::BooleanOp { op, .. } => assert!(matches!(op, BooleanOp::Xor)),
            _ => panic!("condition should be a connective"),
        },
        _ => panic!("expected an if statement"),
    }
    assert_eq!(transpile(ast), "fn main() {\n    if true ^ false {\n}\n}\n");
}

#[test]
fn connectives_combine_comparisons() {
    let source = "{ let x = 1; while x < 3 && true { x = x + 1; } }";
    let ast = parse_ok(source);
    assert!(analyze(&ast).is_ok());
    assert_eq!(
        transpile(ast),
        "fn main() {\n    let mut x = 1;\n    while x < 3 && true {\n    x = x + 1;\n}\n}\n",
    );
}

#[test]
fn double_equal_is_an_equality_comparison() {
    let source = "{ let x = 1; if x == 1 { print(x); } }";
    let ast = parse_ok(source);
    assert!(analyze(&ast).is_ok());
    assert_eq!(
        transpile(ast),
        "fn main() {\n    let mut x = 1;\n    if x == 1 {\n    println!(\"{}\", x);\n}\n}\n",
    );
}

#[test]
fn negation_binds_tighter_than_connectives() {
    let ast = parse_ok("{ if !true && true { } }");
    match &ast.ast[0] {
        Statement::If { condition, .. } => match condition {
            BooleanExpression::BooleanOp { op, expr1, expr2 } => {
                assert!(matches!(op, BooleanOp::And));
                assert!(matches!(&**expr1, BooleanExpression::Not { .. }));
                assert!(matches!(&**expr2, BooleanExpression::Boolean(true)));
            },
            _ => panic!("the connective should be on top"),
        },
        _ => panic!("expected an if statement"),
    }
    assert_eq!(transpile(ast), "fn main() {\n    if !true && true {\n}\n}\n");
}

#[test]
fn negated_comparison_renders_with_grouping() {
    let ast = parse_ok("{ if !1 = 2 { } }");
    match &ast.ast[0] {
        Statement::If { condition, .. } => match condition {
            BooleanExpression::Not { expr } => {
                assert!(matches!(&**expr, BooleanExpression::Compare { .. }));
            },
            _ => panic!("condition should be a negation"),
        },
        _ => panic!("expected an if statement"),
    }
    assert_eq!(transpile(ast), "fn main() {\n    if !(1 == 2) {\n}\n}\n");
}

#[test]
fn parenthesized_boolean_keeps_its_parentheses() {
    let ast = parse_ok("{ if (true) { } }");
    match &ast.ast[0] {
        Statement::If { condition, .. } => {
            assert!(matches!(condition, BooleanExpression::Parenthesis(_)));
        },
        _ => panic!("expected an if statement"),
    }
    assert_eq!(transpile(ast), "fn main() {\n    if (true) {\n}\n}\n");
}

#[test]
fn negated_condition_parses() {
    let ast = parse_ok("{ if !(1 < 2) { print(1); } }");
    assert!(analyze(&ast).is_ok());
    assert_eq!(
        transpile(ast),
        "fn main() {\n    if !(1 < 2) {\n    println!(\"{}\", 1);\n}\n}\n",
    );
}

#[test]
fn trailing_tokens_after_the_root_block_are_ignored() {
    let (tokens, diagnostics) = tokenize("{ let x = 1; } let");
    assert!(diagnostics.is_empty());
    assert!(ast_comp(tokens).is_ok());
}
