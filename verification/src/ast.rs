//! Abstract syntax tree of the toy language, its mathematical model, and the
//! recursive-descent parser that builds it from a token sequence.

use crate::lexer::{tokens_view, SpecToken, SpecTokenKind, Token, TokenType};
use vstd::prelude::*;

verus! {

/// Additive tier of the expression grammar. The parser recurses on the right
/// operand, so `expr` holds the right operand and `term` the left one.
pub enum Expression {
    Plus { expr: Box<Expression>, term: Box<Term> },
    Minus { expr: Box<Expression>, term: Box<Term> },
    Term(Box<Term>),
}

/// Multiplicative tier: `factor` holds the left operand, `term` the right one.
pub enum Term {
    Multiply { term: Box<Term>, factor: Box<Factor> },
    Divide { term: Box<Term>, factor: Box<Factor> },
    Factor(Box<Factor>),
}

/// Atomic tier: integer literal, variable reference, or a parenthesized
/// expression.
pub enum Factor {
    Int(i32),
    Variable(String),
    Parenthesis(Box<Expression>),
}

/// Comparison operator of a boolean expression.
#[derive(PartialEq, Eq, Structural)]
pub enum BooleanCompOp {
    Equal,
    NotEqual,
    LessThan,
    LessThanOrEqual,
    GreaterThan,
    GreaterThanOrEqual,
}

/// Binary connective of two boolean expressions.
#[derive(PartialEq, Eq, Structural)]
pub enum BooleanOp {
    And,
    Or,
    Xor,
}

/// Boolean sub-grammar: literals, comparisons of two arithmetic expressions,
/// negation, binary connectives, and parenthesization.
pub enum BooleanExpression {
    Boolean(bool),
    Compare { op: BooleanCompOp, expr1: Expression, expr2: Expression },
    Not { expr: Box<BooleanExpression> },
    BooleanOp { op: BooleanOp, expr1: Box<BooleanExpression>, expr2: Box<BooleanExpression> },
    Parenthesis(Box<BooleanExpression>),
}

/// One statement of the toy language. A body is an ordered sequence of
/// statements forming one lexical scope.
pub enum Statement {
    Assignment { variable: String, expr: Expression },
    If {
        condition: BooleanExpression,
        body: Box<Vec<Statement>>,
        else_body: Option<Box<Vec<Statement>>>,
    },
    While { condition: BooleanExpression, body: Box<Vec<Statement>> },
    Print { expr: Expression },
    Let { variable: String, expr: Expression },
}

/// A whole program: the ordered sequence of top-level statements.
pub struct Ast {
    pub ast: Box<Vec<Statement>>,
}

/// Mathematical model of an `Expression`: the same tree with variable names
/// abstracted to character sequences.
pub enum SpecExpr {
    Plus { expr: Box<SpecExpr>, term: Box<SpecTerm> },
    Minus { expr: Box<SpecExpr>, term: Box<SpecTerm> },
    Term(Box<SpecTerm>),
}

/// Mathematical model of a `Term`.
pub enum SpecTerm {
    Multiply { term: Box<SpecTerm>, factor: Box<SpecFactor> },
    Divide { term: Box<SpecTerm>, factor: Box<SpecFactor> },
    Factor(Box<SpecFactor>),
}

/// Mathematical model of a `Factor`.
pub enum SpecFactor {
    Int(i32),
    Variable(Seq<char>),
    Parenthesis(Box<SpecExpr>),
}

pub open spec fn factor_view(f: Factor) -> SpecFactor
    decreases f,
{
    match f {
        Factor::Int(i) => SpecFactor::Int(i),
        Factor::Variable(s) => SpecFactor::Variable(s@),
        Factor::Parenthesis(e) => SpecFactor::Parenthesis(Box::new(expr_view(*e))),
    }
}

pub open spec fn term_view(t: Term) -> SpecTerm
    decreases t,
{
    match t {
        Term::Multiply { term, factor } => SpecTerm::Multiply {
            term: Box::new(term_view(*term)),
            factor: Box::new(factor_view(*factor)),
        },
        Term::Divide { term, factor } => SpecTerm::Divide {
            term: Box::new(term_view(*term)),
            factor: Box::new(factor_view(*factor)),
        },
        Term::Factor(f) => SpecTerm::Factor(Box::new(factor_view(*f))),
    }
}

/// Mathematical model of a `BooleanExpression`.
pub enum SpecBoolExpr {
    Boolean(bool),
    Compare { op: BooleanCompOp, expr1: SpecExpr, expr2: SpecExpr },
    Not { expr: Box<SpecBoolExpr> },
    BooleanOp { op: BooleanOp, expr1: Box<SpecBoolExpr>, expr2: Box<SpecBoolExpr> },
    Parenthesis(Box<SpecBoolExpr>),
}

/// Mathematical model of a `Statement`: bodies become sequences.
pub enum SpecStmt {
    Assignment { variable: Seq<char>, expr: SpecExpr },
    If { condition: SpecBoolExpr, body: Seq<SpecStmt>, else_body: Option<Seq<SpecStmt>> },
    While { condition: SpecBoolExpr, body: Seq<SpecStmt> },
    Print { expr: SpecExpr },
    Let { variable: Seq<char>, expr: SpecExpr },
}

pub open spec fn expr_view(e: Expression) -> SpecExpr
    decreases e,
{
    match e {
        Expression::Plus { expr, term } => SpecExpr::Plus {
            expr: Box::new(expr_view(*expr)),
            term: Box::new(term_view(*term)),
        },
        Expression::Minus { expr, term } => SpecExpr::Minus {
            expr: Box::new(expr_view(*expr)),
            term: Box::new(term_view(*term)),
        },
        Expression::Term(t) => SpecExpr::Term(Box::new(term_view(*t))),
    }
}

pub open spec fn bool_expr_view(b: BooleanExpression) -> SpecBoolExpr
    decreases b,
{
    match b {
        BooleanExpression::Boolean(v) => SpecBoolExpr::Boolean(v),
        BooleanExpression::Compare { op, expr1, expr2 } => SpecBoolExpr::Compare {
            op,
            expr1: expr_view(expr1),
            expr2: expr_view(expr2),
        },
        BooleanExpression::Not { expr } => SpecBoolExpr::Not {
            expr: Box::new(bool_expr_view(*expr)),
        },
        BooleanExpression::BooleanOp { op, expr1, expr2 } => SpecBoolExpr::BooleanOp {
            op,
            expr1: Box::new(bool_expr_view(*expr1)),
            expr2: Box::new(bool_expr_view(*expr2)),
        },
        BooleanExpression::Parenthesis(inner) => SpecBoolExpr::Parenthesis(
            Box::new(bool_expr_view(*inner)),
        ),
    }
}

pub open spec fn stmt_view(s: Statement) -> SpecStmt
    decreases s,
{
    match s {
        Statement::Assignment { variable, expr } => SpecStmt::Assignment {
            variable: variable@,
            expr: expr_view(expr),
        },
        Statement::If { condition, body, else_body } => SpecStmt::If {
            condition: bool_expr_view(condition),
            body: block_view(body@),
            else_body: match else_body {
                Some(b) => Some(block_view(b@)),
                None => None,
            },
        },
        Statement::While { condition, body } => SpecStmt::While {
            condition: bool_expr_view(condition),
            body: block_view(body@),
        },
        Statement::Print { expr } => SpecStmt::Print { expr: expr_view(expr) },
        Statement::Let { variable, expr } => SpecStmt::Let {
            variable: variable@,
            expr: expr_view(expr),
        },
    }
}

pub open spec fn block_view(ss: Seq<Statement>) -> Seq<SpecStmt>
    decreases ss,
{
    if ss.len() == 0 {
        Seq::empty()
    } else {
        seq![stmt_view(ss.first())] + block_view(ss.drop_first())
    }
}

pub open spec fn ast_view(a: Ast) -> Seq<SpecStmt> {
    block_view(a.ast@)
}

pub proof fn lemma_block_view_len(ss: Seq<Statement>)
    ensures
        block_view(ss).len() == ss.len(),
    decreases ss.len(),
{
    if ss.len() > 0 {
        lemma_block_view_len(ss.drop_first());
    }
}

pub proof fn lemma_block_view_index(ss: Seq<Statement>, k: int)
    requires
        0 <= k < ss.len(),
    ensures
        block_view(ss).len() == ss.len(),
        block_view(ss)[k] == stmt_view(ss[k]),
    decreases ss.len(),
{
    lemma_block_view_len(ss);
    if k > 0 {
        lemma_block_view_index(ss.drop_first(), k - 1);
    }
}

/// The parser's diagnostic: the grammar position that was violated, with the
/// offending token, or an end-of-input marker.
pub enum AstCompError {
    ExpectedVariable(Token),
    ExpectedEqual(Token),
    ExpectedExpression(Token),
    ExpectedSemicolon(Token),
    ExpectedLBrace(Token),
    ExpectedRBrace(Token),
    ExpectedLParen(Token),
    ExpectedRParen(Token),
    ExpectedBooleanExpression(Token),
    ExpectedIfBody(Token),
    ExpectedElseBody(Token),
    ExpectedWhileBody(Token),
    ExpectedStatement(Token),
    ExpectedPrintParenthesis(Token),
    EndOfFileInStatement,
    EndOfFileInBlock,
}

/// Mathematical model of an `AstCompError`.
pub enum SpecParseError {
    ExpectedVariable(SpecToken),
    ExpectedEqual(SpecToken),
    ExpectedExpression(SpecToken),
    ExpectedSemicolon(SpecToken),
    ExpectedLBrace(SpecToken),
    ExpectedRBrace(SpecToken),
    ExpectedLParen(SpecToken),
    ExpectedRParen(SpecToken),
    ExpectedBooleanExpression(SpecToken),
    ExpectedIfBody(SpecToken),
    ExpectedElseBody(SpecToken),
    ExpectedWhileBody(SpecToken),
    ExpectedStatement(SpecToken),
    ExpectedPrintParenthesis(SpecToken),
    EndOfFileInStatement,
    EndOfFileInBlock,
}

pub open spec fn parse_error_view(e: AstCompError) -> SpecParseError {
    match e {
        AstCompError::ExpectedVariable(t) => SpecParseError::ExpectedVariable(
            crate::lexer::token_view(t),
        ),
        AstCompError::ExpectedEqual(t) => SpecParseError::ExpectedEqual(
            crate::lexer::token_view(t),
        ),
        AstCompError::ExpectedExpression(t) => SpecParseError::ExpectedExpression(
            crate::lexer::token_view(t),
        ),
        AstCompError::ExpectedSemicolon(t) => SpecParseError::ExpectedSemicolon(
            crate::lexer::token_view(t),
        ),
        AstCompError::ExpectedLBrace(t) => SpecParseError::ExpectedLBrace(
            crate::lexer::token_view(t),
        ),
        AstCompError::ExpectedRBrace(t) => SpecParseError::ExpectedRBrace(
            crate::lexer::token_view(t),
        ),
        AstCompError::ExpectedLParen(t) => SpecParseError::ExpectedLParen(
            crate::lexer::token_view(t),
        ),
        AstCompError::ExpectedRParen(t) => SpecParseError::ExpectedRParen(
            crate::lexer::token_view(t),
        ),
        AstCompError::ExpectedBooleanExpression(t) => SpecParseError::ExpectedBooleanExpression(
            crate::lexer::token_view(t),
        ),
        AstCompError::ExpectedIfBody(t) => SpecParseError::ExpectedIfBody(
            crate::lexer::token_view(t),
        ),
        AstCompError::ExpectedElseBody(t) => SpecParseError::ExpectedElseBody(
            crate::lexer::token_view(t),
        ),
        AstCompError::ExpectedWhileBody(t) => SpecParseError::ExpectedWhileBody(
            crate::lexer::token_view(t),
        ),
        AstCompError::ExpectedStatement(t) => SpecParseError::ExpectedStatement(
            crate::lexer::token_view(t),
        ),
        AstCompError::ExpectedPrintParenthesis(t) => SpecParseError::ExpectedPrintParenthesis(
            crate::lexer::token_view(t),
        ),
        AstCompError::EndOfFileInStatement => SpecParseError::EndOfFileInStatement,
        AstCompError::EndOfFileInBlock => SpecParseError::EndOfFileInBlock,
    }
}

/// Parse of the atomic tier at `pos`: an integer literal, a variable
/// reference, or a parenthesized expression.
pub open spec fn spec_factor(toks: Seq<SpecToken>, pos: int) -> Result<
    (SpecFactor, int),
    SpecParseError,
>
    decreases toks.len() - pos, 0int,
{
    if pos < 0 || pos >= toks.len() {
        Err(SpecParseError::EndOfFileInStatement)
    } else {
        match toks[pos].kind {
            SpecTokenKind::Int(i) => Ok((SpecFactor::Int(i), pos + 1)),
            SpecTokenKind::Variable(s) => Ok((SpecFactor::Variable(s), pos + 1)),
            SpecTokenKind::LParen => match spec_expression(toks, pos + 1) {
                Err(e) => Err(e),
                Ok((e, p)) => if p < toks.len() {
                    if toks[p].kind is RParen {
                        Ok((SpecFactor::Parenthesis(Box::new(e)), p + 1))
                    } else {
                        Err(SpecParseError::ExpectedRParen(toks[p]))
                    }
                } else {
                    Err(SpecParseError::EndOfFileInStatement)
                },
            },
            _ => Err(SpecParseError::ExpectedExpression(toks[pos])),
        }
    }
}

/// Parse of the multiplicative tier at `pos`. After the left factor, a `*` or
/// `/` recurses on the right operand, so chains associate right-to-left.
pub open spec fn spec_term(toks: Seq<SpecToken>, pos: int) -> Result<
    (SpecTerm, int),
    SpecParseError,
>
    decreases toks.len() - pos, 1int,
{
    if pos < 0 || pos > toks.len() {
        Err(SpecParseError::EndOfFileInStatement)
    } else {
        match spec_factor(toks, pos) {
            Err(e) => Err(e),
            Ok((f, p)) => if pos < p <= toks.len() {
                if p < toks.len() && toks[p].kind is Multiply {
                    match spec_term(toks, p + 1) {
                        Err(e) => Err(e),
                        Ok((t, p2)) => Ok(
                            (SpecTerm::Multiply { term: Box::new(t), factor: Box::new(f) }, p2),
                        ),
                    }
                } else if p < toks.len() && toks[p].kind is Divide {
                    match spec_term(toks, p + 1) {
                        Err(e) => Err(e),
                        Ok((t, p2)) => Ok(
                            (SpecTerm::Divide { term: Box::new(t), factor: Box::new(f) }, p2),
                        ),
                    }
                } else {
                    Ok((SpecTerm::Factor(Box::new(f)), p))
                }
            } else {
                // parses always advance; this arm is unreachable
                Err(SpecParseError::EndOfFileInStatement)
            },
        }
    }
}

/// Parse of the additive tier at `pos`. After the left term, a `+` or `-`
/// recurses on the right operand, so chains associate right-to-left.
pub open spec fn spec_expression(toks: Seq<SpecToken>, pos: int) -> Result<
    (SpecExpr, int),
    SpecParseError,
>
    decreases toks.len() - pos, 2int,
{
    if pos < 0 || pos > toks.len() {
        Err(SpecParseError::EndOfFileInStatement)
    } else {
        match spec_term(toks, pos) {
            Err(e) => Err(e),
            Ok((t, p)) => if pos < p <= toks.len() {
                if p < toks.len() && toks[p].kind is Plus {
                    match spec_expression(toks, p + 1) {
                        Err(e) => Err(e),
                        Ok((e, p2)) => Ok(
                            (SpecExpr::Plus { expr: Box::new(e), term: Box::new(t) }, p2),
                        ),
                    }
                } else if p < toks.len() && toks[p].kind is Minus {
                    match spec_expression(toks, p + 1) {
                        Err(e) => Err(e),
                        Ok((e, p2)) => Ok(
                            (SpecExpr::Minus { expr: Box::new(e), term: Box::new(t) }, p2),
                        ),
                    }
                } else {
                    Ok((SpecExpr::Term(Box::new(t)), p))
                }
            } else {
                // parses always advance; this arm is unreachable
                Err(SpecParseError::EndOfFileInStatement)
            },
        }
    }
}

/// The comparison operator a token stands for, if any. The toy language
/// compares with a single `=`, as the grammar's `letStmt` also does; the
/// compound `==` is accepted as a synonym for it, and both render as the
/// host language's `==`.
pub open spec fn comp_op_kind(k: SpecTokenKind) -> Option<BooleanCompOp> {
    match k {
        SpecTokenKind::Equal => Some(BooleanCompOp::Equal),
        SpecTokenKind::DoubleEqual => Some(BooleanCompOp::Equal),
        SpecTokenKind::NotEqual => Some(BooleanCompOp::NotEqual),
        SpecTokenKind::GreaterThan => Some(BooleanCompOp::GreaterThan),
        SpecTokenKind::LessThan => Some(BooleanCompOp::LessThan),
        SpecTokenKind::GreaterThanOrEqual => Some(BooleanCompOp::GreaterThanOrEqual),
        SpecTokenKind::LessThanOrEqual => Some(BooleanCompOp::LessThanOrEqual),
        _ => None,
    }
}

/// The boolean connective a token stands for, if any. The `^` symbol serves
/// as the xor connective: it has no production in the arithmetic grammar.
pub open spec fn connective_kind(k: SpecTokenKind) -> Option<BooleanOp> {
    match k {
        SpecTokenKind::And => Some(BooleanOp::And),
        SpecTokenKind::Or => Some(BooleanOp::Or),
        SpecTokenKind::Pow => Some(BooleanOp::Xor),
        _ => None,
    }
}

/// Parse of one tightly bound boolean operand at `pos`: a literal, a
/// parenthesized boolean expression, a negation, or a comparison of two
/// arithmetic expressions. Negation binds tightest, so its operand is
/// itself an operand of this tier.
pub open spec fn spec_bool_atom(toks: Seq<SpecToken>, pos: int) -> Result<
    (SpecBoolExpr, int),
    SpecParseError,
>
    decreases toks.len() - pos, 3int,
{
    if pos < 0 || pos >= toks.len() {
        Err(SpecParseError::EndOfFileInStatement)
    } else {
        match toks[pos].kind {
            SpecTokenKind::TrueKeyword => Ok((SpecBoolExpr::Boolean(true), pos + 1)),
            SpecTokenKind::FalseKeyword => Ok((SpecBoolExpr::Boolean(false), pos + 1)),
            SpecTokenKind::LParen => match spec_boolean_expression(toks, pos + 1) {
                Err(e) => Err(e),
                Ok((b, p)) => if p < toks.len() {
                    if toks[p].kind is RParen {
                        Ok((SpecBoolExpr::Parenthesis(Box::new(b)), p + 1))
                    } else {
                        Err(SpecParseError::ExpectedRParen(toks[p]))
                    }
                } else {
                    Err(SpecParseError::EndOfFileInStatement)
                },
            },
            SpecTokenKind::Not => match spec_bool_atom(toks, pos + 1) {
                Err(e) => Err(e),
                Ok((b, p)) => Ok((SpecBoolExpr::Not { expr: Box::new(b) }, p)),
            },
            _ => match spec_expression(toks, pos) {
                Err(e) => Err(e),
                Ok((e1, p)) => if pos < p && p < toks.len() {
                    match comp_op_kind(toks[p].kind) {
                        Some(op) => match spec_expression(toks, p + 1) {
                            Err(e) => Err(e),
                            Ok((e2, p2)) => Ok(
                                (SpecBoolExpr::Compare { op, expr1: e1, expr2: e2 }, p2),
                            ),
                        },
                        None => Err(SpecParseError::ExpectedBooleanExpression(toks[p])),
                    }
                } else {
                    // the input ended before the comparison operator
                    Err(SpecParseError::EndOfFileInStatement)
                },
            },
        }
    }
}

/// Parse of the boolean sub-grammar at `pos`: operands combined by the
/// connectives `&&`, `||` and `^`, the loosest-binding tier. After the left
/// operand, a connective recurses on the right operand, so chains associate
/// right-to-left like the arithmetic tiers.
pub open spec fn spec_boolean_expression(toks: Seq<SpecToken>, pos: int) -> Result<
    (SpecBoolExpr, int),
    SpecParseError,
>
    decreases toks.len() - pos, 4int,
{
    if pos < 0 || pos > toks.len() {
        Err(SpecParseError::EndOfFileInStatement)
    } else {
        match spec_bool_atom(toks, pos) {
            Err(e) => Err(e),
            Ok((b, p)) => if pos < p <= toks.len() {
                if p < toks.len() && connective_kind(toks[p].kind) is Some {
                    match spec_boolean_expression(toks, p + 1) {
                        Err(e) => Err(e),
                        Ok((b2, p2)) => Ok(
                            (
                                SpecBoolExpr::BooleanOp {
                                    op: connective_kind(toks[p].kind)->Some_0,
                                    expr1: Box::new(b),
                                    expr2: Box::new(b2),
                                },
                                p2,
                            ),
                        ),
                    }
                } else {
                    Ok((b, p))
                }
            } else {
                // parses always advance; this arm is unreachable
                Err(SpecParseError::EndOfFileInStatement)
            },
        }
    }
}

/// Parse of one statement at `pos`, which is known not to be `}`.
pub open spec fn spec_statement(toks: Seq<SpecToken>, pos: int) -> Result<
    (SpecStmt, int),
    SpecParseError,
>
    decreases toks.len() - pos, 4int,
{
    if pos < 0 || pos >= toks.len() {
        Err(SpecParseError::EndOfFileInStatement)
    } else {
        match toks[pos].kind {
            SpecTokenKind::IfKeyword => match spec_boolean_expression(toks, pos + 1) {
                Err(e) => Err(e),
                Ok((cond, p)) => if pos < p && p <= toks.len() {
                    match spec_block(toks, p) {
                        Err(e) => Err(e),
                        Ok((body, p2)) => if pos < p2 && p2 <= toks.len() {
                            if p2 < toks.len() && toks[p2].kind is ElseKeyword {
                                match spec_block(toks, p2 + 1) {
                                    Err(e) => Err(e),
                                    Ok((else_body, p3)) => Ok(
                                        (
                                            SpecStmt::If {
                                                condition: cond,
                                                body,
                                                else_body: Some(else_body),
                                            },
                                            p3,
                                        ),
                                    ),
                                }
                            } else {
                                Ok((SpecStmt::If { condition: cond, body, else_body: None }, p2))
                            }
                        } else {
                            // parses always advance; this arm is unreachable
                            Err(SpecParseError::EndOfFileInStatement)
                        },
                    }
                } else {
                    // parses always advance; this arm is unreachable
                    Err(SpecParseError::EndOfFileInStatement)
                },
            },
            SpecTokenKind::WhileKeyword => match spec_boolean_expression(toks, pos + 1) {
                Err(e) => Err(e),
                Ok((cond, p)) => if pos < p && p <= toks.len() {
                    match spec_block(toks, p) {
                        Err(e) => Err(e),
                        Ok((body, p2)) => Ok((SpecStmt::While { condition: cond, body }, p2)),
                    }
                } else {
                    // parses always advance; this arm is unreachable
                    Err(SpecParseError::EndOfFileInStatement)
                },
            },
            SpecTokenKind::LetKeyword => if pos + 1 >= toks.len() {
                Err(SpecParseError::EndOfFileInStatement)
            } else {
                match toks[pos + 1].kind {
                    SpecTokenKind::Variable(name) => if pos + 2 >= toks.len() {
                        Err(SpecParseError::EndOfFileInStatement)
                    } else if !(toks[pos + 2].kind is Equal) {
                        Err(SpecParseError::ExpectedEqual(toks[pos + 2]))
                    } else {
                        match spec_expression(toks, pos + 3) {
                            Err(e) => Err(e),
                            Ok((e, p)) => if p < toks.len() {
                                if toks[p].kind is Semicolon {
                                    Ok((SpecStmt::Let { variable: name, expr: e }, p + 1))
                                } else {
                                    Err(SpecParseError::ExpectedSemicolon(toks[p]))
                                }
                            } else {
                                Err(SpecParseError::EndOfFileInStatement)
                            },
                        }
                    },
                    _ => Err(SpecParseError::ExpectedVariable(toks[pos + 1])),
                }
            },
            SpecTokenKind::PrintKeyword => if pos + 1 >= toks.len() {
                Err(SpecParseError::EndOfFileInStatement)
            } else if !(toks[pos + 1].kind is LParen) {
                Err(SpecParseError::ExpectedLParen(toks[pos + 1]))
            } else {
                match spec_expression(toks, pos + 2) {
                    Err(e) => Err(e),
                    Ok((e, p)) => if p >= toks.len() {
                        Err(SpecParseError::EndOfFileInStatement)
                    } else if !(toks[p].kind is RParen) {
                        Err(SpecParseError::ExpectedRParen(toks[p]))
                    } else if p + 1 >= toks.len() {
                        Err(SpecParseError::EndOfFileInStatement)
                    } else if !(toks[p + 1].kind is Semicolon) {
                        Err(SpecParseError::ExpectedSemicolon(toks[p + 1]))
                    } else {
                        Ok((SpecStmt::Print { expr: e }, p + 2))
                    },
                }
            },
            SpecTokenKind::Variable(name) => if pos + 1 >= toks.len() {
                Err(SpecParseError::EndOfFileInStatement)
            } else if !(toks[pos + 1].kind is Equal) {
                Err(SpecParseError::ExpectedEqual(toks[pos + 1]))
            } else {
                match spec_expression(toks, pos + 2) {
                    Err(e) => Err(e),
                    Ok((e, p)) => if p < toks.len() {
                        if toks[p].kind is Semicolon {
                            Ok((SpecStmt::Assignment { variable: name, expr: e }, p + 1))
                        } else {
                            Err(SpecParseError::ExpectedSemicolon(toks[p]))
                        }
                    } else {
                        Err(SpecParseError::EndOfFileInStatement)
                    },
                }
            },
            _ => Err(SpecParseError::ExpectedStatement(toks[pos])),
        }
    }
}

/// Parse of the statements of a block after its `{`, up to and including the
/// matching `}`. Input that ends before the `}` is an unterminated block.
pub open spec fn spec_statements(toks: Seq<SpecToken>, pos: int) -> Result<
    (Seq<SpecStmt>, int),
    SpecParseError,
>
    decreases toks.len() - pos, 5int,
{
    if pos < 0 || pos >= toks.len() {
        Err(SpecParseError::EndOfFileInBlock)
    } else if toks[pos].kind is RBrace {
        Ok((Seq::empty(), pos + 1))
    } else {
        match spec_statement(toks, pos) {
            Err(e) => Err(e),
            Ok((st, p)) => if pos < p && p <= toks.len() {
                match spec_statements(toks, p) {
                    Err(e) => Err(e),
                    Ok((rest, p2)) => Ok((seq![st] + rest, p2)),
                }
            } else {
                // parses always advance; this arm is unreachable
                Err(SpecParseError::EndOfFileInBlock)
            },
        }
    }
}

/// Parse of one braced block at `pos`.
pub open spec fn spec_block(toks: Seq<SpecToken>, pos: int) -> Result<
    (Seq<SpecStmt>, int),
    SpecParseError,
>
    decreases toks.len() - pos, 6int,
{
    if pos < 0 || pos >= toks.len() {
        Err(SpecParseError::EndOfFileInBlock)
    } else if !(toks[pos].kind is LBrace) {
        Err(SpecParseError::ExpectedLBrace(toks[pos]))
    } else {
        spec_statements(toks, pos + 1)
    }
}

/// Parse of a whole program: one top-level block. Tokens after its closing
/// `}` are ignored, as in the grammar the root is a single block.
pub open spec fn spec_parse(toks: Seq<SpecToken>) -> Result<Seq<SpecStmt>, SpecParseError> {
    match spec_block(toks, 0) {
        Ok((ss, _p)) => Ok(ss),
        Err(e) => Err(e),
    }
}

fn factor(toks: &Vec<Token>, pos: usize) -> (r: Result<(Factor, usize), AstCompError>)
    ensures
        (match r {
            Ok((f, p)) => pos < p <= toks@.len() && spec_factor(tokens_view(toks@), pos as int)
                == Ok::<(SpecFactor, int), SpecParseError>((factor_view(f), p as int)),
            Err(e) => spec_factor(tokens_view(toks@), pos as int) == Err::<
                (SpecFactor, int),
                SpecParseError,
            >(parse_error_view(e)),
        }),
    decreases toks@.len() - pos, 0int,
{
    if pos >= toks.len() {
        Err(AstCompError::EndOfFileInStatement)
    } else {
        match &toks[pos].token_type {
            TokenType::Int(i) => Ok((Factor::Int(*i), pos + 1)),
            TokenType::Variable(s) => Ok((Factor::Variable(s.clone()), pos + 1)),
            TokenType::LParen => match expression(toks, pos + 1) {
                Err(e) => Err(e),
                Ok((e, p)) => if p < toks.len() {
                    match &toks[p].token_type {
                        TokenType::RParen => Ok((Factor::Parenthesis(Box::new(e)), p + 1)),
                        _ => Err(AstCompError::ExpectedRParen(toks[p].clone())),
                    }
                } else {
                    Err(AstCompError::EndOfFileInStatement)
                },
            },
            _ => Err(AstCompError::ExpectedExpression(toks[pos].clone())),
        }
    }
}

fn term(toks: &Vec<Token>, pos: usize) -> (r: Result<(Term, usize), AstCompError>)
    ensures
        (match r {
            Ok((t, p)) => pos < p <= toks@.len() && spec_term(tokens_view(toks@), pos as int)
                == Ok::<(SpecTerm, int), SpecParseError>((term_view(t), p as int)),
            Err(e) => spec_term(tokens_view(toks@), pos as int) == Err::<
                (SpecTerm, int),
                SpecParseError,
            >(parse_error_view(e)),
        }),
    decreases toks@.len() - pos, 1int,
{
    match factor(toks, pos) {
        Err(e) => Err(e),
        Ok((f, p)) => if p < toks.len() && matches!(&toks[p].token_type, TokenType::Multiply) {
            match term(toks, p + 1) {
                Err(e) => Err(e),
                Ok((t, p2)) => Ok(
                    (Term::Multiply { term: Box::new(t), factor: Box::new(f) }, p2),
                ),
            }
        } else if p < toks.len() && matches!(&toks[p].token_type, TokenType::Divide) {
            match term(toks, p + 1) {
                Err(e) => Err(e),
                Ok((t, p2)) => Ok((Term::Divide { term: Box::new(t), factor: Box::new(f) }, p2)),
            }
        } else {
            Ok((Term::Factor(Box::new(f)), p))
        },
    }
}

fn expression(toks: &Vec<Token>, pos: usize) -> (r: Result<(Expression, usize), AstCompError>)
    ensures
        (match r {
            Ok((e, p)) => pos < p <= toks@.len() && spec_expression(tokens_view(toks@), pos as int)
                == Ok::<(SpecExpr, int), SpecParseError>((expr_view(e), p as int)),
            Err(err) => spec_expression(tokens_view(toks@), pos as int) == Err::<
                (SpecExpr, int),
                SpecParseError,
            >(parse_error_view(err)),
        }),
    decreases toks@.len() - pos, 2int,
{
    match term(toks, pos) {
        Err(e) => Err(e),
        Ok((t, p)) => if p < toks.len() && matches!(&toks[p].token_type, TokenType::Plus) {
            match expression(toks, p + 1) {
                Err(e) => Err(e),
                Ok((e, p2)) => Ok(
                    (Expression::Plus { expr: Box::new(e), term: Box::new(t) }, p2),
                ),
            }
        } else if p < toks.len() && matches!(&toks[p].token_type, TokenType::Minus) {
            match expression(toks, p + 1) {
                Err(e) => Err(e),
                Ok((e, p2)) => Ok(
                    (Expression::Minus { expr: Box::new(e), term: Box::new(t) }, p2),
                ),
            }
        } else {
            Ok((Expression::Term(Box::new(t)), p))
        },
    }
}

fn comp_op_token(t: &TokenType) -> (r: Option<BooleanCompOp>)
    ensures
        r == comp_op_kind(crate::lexer::token_type_view(*t)),
{
    match t {
        TokenType::Equal => Some(BooleanCompOp::Equal),
        TokenType::DoubleEqual => Some(BooleanCompOp::Equal),
        TokenType::NotEqual => Some(BooleanCompOp::NotEqual),
        TokenType::GreaterThan => Some(BooleanCompOp::GreaterThan),
        TokenType::LessThan => Some(BooleanCompOp::LessThan),
        TokenType::GreaterThanOrEqual => Some(BooleanCompOp::GreaterThanOrEqual),
        TokenType::LessThanOrEqual => Some(BooleanCompOp::LessThanOrEqual),
        _ => None,
    }
}

fn connective_token(t: &TokenType) -> (r: Option<BooleanOp>)
    ensures
        r == connective_kind(crate::lexer::token_type_view(*t)),
{
    match t {
        TokenType::And => Some(BooleanOp::And),
        TokenType::Or => Some(BooleanOp::Or),
        TokenType::Pow => Some(BooleanOp::Xor),
        _ => None,
    }
}

fn bool_atom(toks: &Vec<Token>, pos: usize) -> (r: Result<
    (BooleanExpression, usize),
    AstCompError,
>)
    ensures
        (match r {
            Ok((b, p)) => pos < p <= toks@.len() && spec_bool_atom(tokens_view(toks@), pos as int)
                == Ok::<(SpecBoolExpr, int), SpecParseError>((bool_expr_view(b), p as int)),
            Err(e) => spec_bool_atom(tokens_view(toks@), pos as int) == Err::<
                (SpecBoolExpr, int),
                SpecParseError,
            >(parse_error_view(e)),
        }),
    decreases toks@.len() - pos, 3int,
{
    if pos >= toks.len() {
        return Err(AstCompError::EndOfFileInStatement);
    }
    match &toks[pos].token_type {
        TokenType::TrueKeyword => Ok((BooleanExpression::Boolean(true), pos + 1)),
        TokenType::FalseKeyword => Ok((BooleanExpression::Boolean(false), pos + 1)),
        TokenType::LParen => match boolean_expression(toks, pos + 1) {
            Err(e) => Err(e),
            Ok((b, p)) => if p < toks.len() {
                match &toks[p].token_type {
                    TokenType::RParen => Ok(
                        (BooleanExpression::Parenthesis(Box::new(b)), p + 1),
                    ),
                    _ => Err(AstCompError::ExpectedRParen(toks[p].clone())),
                }
            } else {
                Err(AstCompError::EndOfFileInStatement)
            },
        },
        TokenType::Not => match bool_atom(toks, pos + 1) {
            Err(e) => Err(e),
            Ok((b, p)) => Ok((BooleanExpression::Not { expr: Box::new(b) }, p)),
        },
        _ => match expression(toks, pos) {
            Err(e) => Err(e),
            Ok((e1, p)) => if p < toks.len() {
                match comp_op_token(&toks[p].token_type) {
                    Some(op) => match expression(toks, p + 1) {
                        Err(e) => Err(e),
                        Ok((e2, p2)) => Ok(
                            (BooleanExpression::Compare { op, expr1: e1, expr2: e2 }, p2),
                        ),
                    },
                    None => Err(AstCompError::ExpectedBooleanExpression(toks[p].clone())),
                }
            } else {
                Err(AstCompError::EndOfFileInStatement)
            },
        },
    }
}

fn boolean_expression(toks: &Vec<Token>, pos: usize) -> (r: Result<
    (BooleanExpression, usize),
    AstCompError,
>)
    ensures
        (match r {
            Ok((b, p)) => pos < p <= toks@.len() && spec_boolean_expression(
                tokens_view(toks@),
                pos as int,
            ) == Ok::<(SpecBoolExpr, int), SpecParseError>((bool_expr_view(b), p as int)),
            Err(e) => spec_boolean_expression(tokens_view(toks@), pos as int) == Err::<
                (SpecBoolExpr, int),
                SpecParseError,
            >(parse_error_view(e)),
        }),
    decreases toks@.len() - pos, 4int,
{
    match bool_atom(toks, pos) {
        Err(e) => Err(e),
        Ok((b, p)) => if p < toks.len() {
            match connective_token(&toks[p].token_type) {
                Some(op) => match boolean_expression(toks, p + 1) {
                    Err(e) => Err(e),
                    Ok((b2, p2)) => Ok(
                        (
                            BooleanExpression::BooleanOp {
                                op,
                                expr1: Box::new(b),
                                expr2: Box::new(b2),
                            },
                            p2,
                        ),
                    ),
                },
                None => Ok((b, p)),
            }
        } else {
            Ok((b, p))
        },
    }
}

fn variable(toks: &Vec<Token>, pos: usize) -> (r: Result<(String, usize), AstCompError>)
    ensures
        (match r {
            Ok((s, p)) => p == pos + 1 && pos < toks@.len() && tokens_view(toks@)[pos as int].kind
                == SpecTokenKind::Variable(s@),
            Err(e) => if pos < toks@.len() {
                &&& !(tokens_view(toks@)[pos as int].kind is Variable)
                &&& parse_error_view(e) == SpecParseError::ExpectedVariable(
                    tokens_view(toks@)[pos as int],
                )
            } else {
                parse_error_view(e) == SpecParseError::EndOfFileInStatement
            },
        }),
{
    if pos >= toks.len() {
        return Err(AstCompError::EndOfFileInStatement);
    }
    match &toks[pos].token_type {
        TokenType::Variable(s) => Ok((s.clone(), pos + 1)),
        _ => Err(AstCompError::ExpectedVariable(toks[pos].clone())),
    }
}

#[verifier::rlimit(60)]
fn statement(toks: &Vec<Token>, pos: usize) -> (r: Result<(Statement, usize), AstCompError>)
    ensures
        (match r {
            Ok((st, p)) => pos < p <= toks@.len() && spec_statement(
                tokens_view(toks@),
                pos as int,
            ) == Ok::<(SpecStmt, int), SpecParseError>((stmt_view(st), p as int)),
            Err(e) => spec_statement(tokens_view(toks@), pos as int) == Err::<
                (SpecStmt, int),
                SpecParseError,
            >(parse_error_view(e)),
        }),
    decreases toks@.len() - pos, 4int,
{
    if pos >= toks.len() {
        return Err(AstCompError::EndOfFileInStatement);
    }
    match &toks[pos].token_type {
        TokenType::IfKeyword => {
            let (cond, p) = boolean_expression(toks, pos + 1)?;
            let (body, p2) = block(toks, p)?;
            if p2 < toks.len() && matches!(&toks[p2].token_type, TokenType::ElseKeyword) {
                let (else_body, p3) = block(toks, p2 + 1)?;
                Ok(
                    (
                        Statement::If {
                            condition: cond,
                            body: Box::new(body),
                            else_body: Some(Box::new(else_body)),
                        },
                        p3,
                    ),
                )
            } else {
                Ok(
                    (
                        Statement::If { condition: cond, body: Box::new(body), else_body: None },
                        p2,
                    ),
                )
            }
        },
        TokenType::WhileKeyword => {
            let (cond, p) = boolean_expression(toks, pos + 1)?;
            let (body, p2) = block(toks, p)?;
            Ok((Statement::While { condition: cond, body: Box::new(body) }, p2))
        },
        TokenType::LetKeyword => {
            let (name, p) = variable(toks, pos + 1)?;
            if p >= toks.len() {
                return Err(AstCompError::EndOfFileInStatement);
            }
            if !matches!(&toks[p].token_type, TokenType::Equal) {
                return Err(AstCompError::ExpectedEqual(toks[p].clone()));
            }
            let (e, p2) = expression(toks, p + 1)?;
            if p2 >= toks.len() {
                return Err(AstCompError::EndOfFileInStatement);
            }
            if !matches!(&toks[p2].token_type, TokenType::Semicolon) {
                return Err(AstCompError::ExpectedSemicolon(toks[p2].clone()));
            }
            Ok((Statement::Let { variable: name, expr: e }, p2 + 1))
        },
        TokenType::PrintKeyword => {
            if pos + 1 >= toks.len() {
                return Err(AstCompError::EndOfFileInStatement);
            }
            if !matches!(&toks[pos + 1].token_type, TokenType::LParen) {
                return Err(AstCompError::ExpectedLParen(toks[pos + 1].clone()));
            }
            let (e, p) = expression(toks, pos + 2)?;
            if p >= toks.len() {
                return Err(AstCompError::EndOfFileInStatement);
            }
            if !matches!(&toks[p].token_type, TokenType::RParen) {
                return Err(AstCompError::ExpectedRParen(toks[p].clone()));
            }
            if p + 1 >= toks.len() {
                return Err(AstCompError::EndOfFileInStatement);
            }
            if !matches!(&toks[p + 1].token_type, TokenType::Semicolon) {
                return Err(AstCompError::ExpectedSemicolon(toks[p + 1].clone()));
            }
            Ok((Statement::Print { expr: e }, p + 2))
        },
        TokenType::Variable(name) => {
            let variable = name.clone();
            if pos + 1 >= toks.len() {
                return Err(AstCompError::EndOfFileInStatement);
            }
            if !matches!(&toks[pos + 1].token_type, TokenType::Equal) {
                return Err(AstCompError::ExpectedEqual(toks[pos + 1].clone()));
            }
            let (e, p) = expression(toks, pos + 2)?;
            if p >= toks.len() {
                return Err(AstCompError::EndOfFileInStatement);
            }
            if !matches!(&toks[p].token_type, TokenType::Semicolon) {
                return Err(AstCompError::ExpectedSemicolon(toks[p].clone()));
            }
            Ok((Statement::Assignment { variable, expr: e }, p + 1))
        },
        _ => Err(AstCompError::ExpectedStatement(toks[pos].clone())),
    }
}

proof fn lemma_block_view_push(ss: Seq<Statement>, s: Statement)
    ensures
        block_view(ss.push(s)) =~= block_view(ss) + seq![stmt_view(s)],
    decreases ss.len(),
{
    if ss.len() == 0 {
        assert(ss.push(s).first() == s);
        assert(ss.push(s).drop_first() =~= Seq::<Statement>::empty());
        assert(block_view(ss.push(s).drop_first()) =~= Seq::<SpecStmt>::empty());
        assert(block_view(ss.push(s)) =~= seq![stmt_view(s)]);
        assert(block_view(ss) =~= Seq::<SpecStmt>::empty());
    } else {
        assert(ss.push(s).first() == ss.first());
        assert(ss.push(s).drop_first() =~= ss.drop_first().push(s));
        lemma_block_view_push(ss.drop_first(), s);
    }
}

fn block(toks: &Vec<Token>, pos: usize) -> (r: Result<(Vec<Statement>, usize), AstCompError>)
    ensures
        (match r {
            Ok((b, p)) => pos < p <= toks@.len() && spec_block(tokens_view(toks@), pos as int)
                == Ok::<(Seq<SpecStmt>, int), SpecParseError>((block_view(b@), p as int)),
            Err(e) => spec_block(tokens_view(toks@), pos as int) == Err::<
                (Seq<SpecStmt>, int),
                SpecParseError,
            >(parse_error_view(e)),
        }),
    decreases toks@.len() - pos, 6int,
{
    if pos >= toks.len() {
        return Err(AstCompError::EndOfFileInBlock);
    }
    if !matches!(&toks[pos].token_type, TokenType::LBrace) {
        return Err(AstCompError::ExpectedLBrace(toks[pos].clone()));
    }
    let mut statements: Vec<Statement> = Vec::new();
    let mut cur: usize = pos + 1;
    proof {
        let tv = tokens_view(toks@);
        match spec_statements(tv, pos as int + 1) {
            Ok((rest, _p)) => {
                assert(block_view(Seq::<Statement>::empty()) + rest =~= rest);
            },
            Err(_) => {},
        }
    }
    loop
        invariant
            pos < cur <= toks@.len(),
            spec_block(tokens_view(toks@), pos as int) == (match spec_statements(
                tokens_view(toks@),
                cur as int,
            ) {
                Ok((rest, p)) => Ok::<(Seq<SpecStmt>, int), SpecParseError>(
                    (block_view(statements@) + rest, p),
                ),
                Err(e) => Err::<(Seq<SpecStmt>, int), SpecParseError>(e),
            }),
        decreases toks@.len() - cur,
    {
        if cur >= toks.len() {
            return Err(AstCompError::EndOfFileInBlock);
        }
        if matches!(&toks[cur].token_type, TokenType::RBrace) {
            proof {
                assert(block_view(statements@) + Seq::<SpecStmt>::empty() =~= block_view(
                    statements@,
                ));
            }
            return Ok((statements, cur + 1));
        }
        match statement(toks, cur) {
            Err(e) => {
                return Err(e);
            },
            Ok((st, p)) => {
                proof {
                    let tv = tokens_view(toks@);
                    lemma_block_view_push(statements@, st);
                    match spec_statements(tv, p as int) {
                        Ok((rest2, _p2)) => {
                            assert((block_view(statements@) + seq![stmt_view(st)]) + rest2
                                =~= block_view(statements@) + (seq![stmt_view(st)] + rest2));
                        },
                        Err(_) => {},
                    }
                }
                statements.push(st);
                cur = p;
            },
        }
    }
}

/// Builds the abstract syntax tree of a token sequence: one top-level block,
/// parsed by recursive descent, or the first grammar violation.
pub fn ast_comp(tokens: Vec<Token>) -> (r: Result<Ast, AstCompError>)
    ensures
        (match r {
            Ok(a) => spec_parse(tokens_view(tokens@)) == Ok::<Seq<SpecStmt>, SpecParseError>(
                ast_view(a),
            ),
            Err(e) => spec_parse(tokens_view(tokens@)) == Err::<Seq<SpecStmt>, SpecParseError>(
                parse_error_view(e),
            ),
        }),
{
    match block(&tokens, 0) {
        Ok((b, _p)) => Ok(Ast { ast: Box::new(b) }),
        Err(e) => Err(e),
    }
}

} // verus!
