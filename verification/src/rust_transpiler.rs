//! Code generation: walks a validated AST and deterministically emits an
//! equivalent program in the host language, one line or matched block per
//! statement, preserving statement order and nesting. Rendering is total
//! over the AST and never fails.

use crate::ast::{
    ast_view, block_view, bool_expr_view, expr_view, factor_view, stmt_view, term_view, Ast,
    BooleanCompOp, BooleanExpression, BooleanOp, Expression, Factor, SpecBoolExpr, SpecExpr,
    SpecFactor, SpecStmt, SpecTerm, Statement, Term,
};
use vstd::prelude::*;
use vstd::string::StringExecFns;

verus! {

pub open spec fn dec_digit_char(d: int) -> char {
    if d == 0 {
        '0'
    } else if d == 1 {
        '1'
    } else if d == 2 {
        '2'
    } else if d == 3 {
        '3'
    } else if d == 4 {
        '4'
    } else if d == 5 {
        '5'
    } else if d == 6 {
        '6'
    } else if d == 7 {
        '7'
    } else if d == 8 {
        '8'
    } else {
        '9'
    }
}

/// The decimal digits of a non-negative number, most significant first.
pub open spec fn spec_dec_digits(n: int) -> Seq<char>
    decreases n,
{
    if n < 10 {
        seq![dec_digit_char(n)]
    } else {
        spec_dec_digits(n / 10).push(dec_digit_char(n % 10))
    }
}

/// The decimal rendering of an integer, as the host language writes it.
pub open spec fn spec_int_string(v: int) -> Seq<char> {
    if v < 0 {
        seq!['-'] + spec_dec_digits(-v)
    } else {
        spec_dec_digits(v)
    }
}

pub open spec fn spec_comp_op_str(op: BooleanCompOp) -> Seq<char> {
    match op {
        BooleanCompOp::Equal => "=="@,
        BooleanCompOp::NotEqual => "!="@,
        BooleanCompOp::GreaterThan => ">"@,
        BooleanCompOp::LessThan => "<"@,
        BooleanCompOp::GreaterThanOrEqual => ">="@,
        BooleanCompOp::LessThanOrEqual => "<="@,
    }
}

pub open spec fn spec_bool_op_str(op: BooleanOp) -> Seq<char> {
    match op {
        BooleanOp::And => "&&"@,
        BooleanOp::Or => "||"@,
        BooleanOp::Xor => "^"@,
    }
}

pub open spec fn spec_factor_comp(f: SpecFactor) -> Seq<char>
    decreases f,
{
    match f {
        SpecFactor::Int(i) => spec_int_string(i as int),
        SpecFactor::Variable(name) => name,
        SpecFactor::Parenthesis(e) => "("@ + spec_expr_comp(*e) + ")"@,
    }
}

/// The left operand (`factor`) is printed first: the rendered text lists the
/// operands in source order even though the tree holds the right operand in
/// `term`.
pub open spec fn spec_term_comp(t: SpecTerm) -> Seq<char>
    decreases t,
{
    match t {
        SpecTerm::Factor(f) => spec_factor_comp(*f),
        SpecTerm::Multiply { term, factor } => spec_factor_comp(*factor) + " * "@
            + spec_term_comp(*term),
        SpecTerm::Divide { term, factor } => spec_factor_comp(*factor) + " / "@ + spec_term_comp(
            *term,
        ),
    }
}

/// The left operand (`term`) is printed first, as in `spec_term_comp`.
pub open spec fn spec_expr_comp(e: SpecExpr) -> Seq<char>
    decreases e,
{
    match e {
        SpecExpr::Term(t) => spec_term_comp(*t),
        SpecExpr::Plus { expr, term } => spec_term_comp(*term) + " + "@ + spec_expr_comp(*expr),
        SpecExpr::Minus { expr, term } => spec_term_comp(*term) + " - "@ + spec_expr_comp(*expr),
    }
}

/// A `Parenthesis` node keeps the source's explicit parentheses in the
/// output, and the operand of `!` is parenthesized where the host language
/// would otherwise regroup it (a comparison or a connective), so the
/// rendered condition keeps the tree's meaning.
pub open spec fn spec_bool_comp(b: SpecBoolExpr) -> Seq<char>
    decreases b,
{
    match b {
        SpecBoolExpr::Boolean(v) => if v {
            "true"@
        } else {
            "false"@
        },
        SpecBoolExpr::Compare { op, expr1, expr2 } => spec_expr_comp(expr1) + " "@
            + spec_comp_op_str(op) + " "@ + spec_expr_comp(expr2),
        SpecBoolExpr::Not { expr } => if (*expr) is Compare || (*expr) is BooleanOp {
            "!"@ + "("@ + spec_bool_comp(*expr) + ")"@
        } else {
            "!"@ + spec_bool_comp(*expr)
        },
        SpecBoolExpr::BooleanOp { op, expr1, expr2 } => spec_bool_comp(*expr1) + " "@
            + spec_bool_op_str(op) + " "@ + spec_bool_comp(*expr2),
        SpecBoolExpr::Parenthesis(inner) => "("@ + spec_bool_comp(*inner) + ")"@,
    }
}

/// The text of one statement, indented one level, ending in a newline.
pub open spec fn spec_stmt_comp(s: SpecStmt) -> Seq<char>
    decreases s,
{
    match s {
        SpecStmt::Print { expr } => "    println!(\"{}\", "@ + spec_expr_comp(expr) + ");\n"@,
        SpecStmt::Let { variable, expr } => "    let mut "@ + variable + " = "@ + spec_expr_comp(
            expr,
        ) + ";\n"@,
        SpecStmt::Assignment { variable, expr } => "    "@ + variable + " = "@ + spec_expr_comp(
            expr,
        ) + ";\n"@,
        SpecStmt::If { condition, body, else_body } => "    if "@ + spec_bool_comp(condition)
            + " {\n"@ + spec_block_comp(body) + "}\n"@ + (match else_body {
            Some(eb) => "    else {\n"@ + spec_block_comp(eb) + "}\n"@,
            None => Seq::empty(),
        }),
        SpecStmt::While { condition, body } => "    while "@ + spec_bool_comp(condition) + " {\n"@
            + spec_block_comp(body) + "}\n"@,
    }
}

pub open spec fn spec_block_comp(ss: Seq<SpecStmt>) -> Seq<char>
    decreases ss,
{
    if ss.len() == 0 {
        Seq::empty()
    } else {
        spec_stmt_comp(ss.first()) + spec_block_comp(ss.drop_first())
    }
}

/// The text of a whole program: a single top-level entry routine holding the
/// translated statement sequence.
pub open spec fn spec_transpile(prog: Seq<SpecStmt>) -> Seq<char> {
    "fn main() {\n"@ + spec_block_comp(prog) + "}\n"@
}

fn digit_str(d: u32) -> (r: &'static str)
    requires
        d < 10,
    ensures
        r@ == seq![dec_digit_char(d as int)],
{
    proof {
        reveal_strlit("0");
        reveal_strlit("1");
        reveal_strlit("2");
        reveal_strlit("3");
        reveal_strlit("4");
        reveal_strlit("5");
        reveal_strlit("6");
        reveal_strlit("7");
        reveal_strlit("8");
        reveal_strlit("9");
    }
    if d == 0 {
        "0"
    } else if d == 1 {
        "1"
    } else if d == 2 {
        "2"
    } else if d == 3 {
        "3"
    } else if d == 4 {
        "4"
    } else if d == 5 {
        "5"
    } else if d == 6 {
        "6"
    } else if d == 7 {
        "7"
    } else if d == 8 {
        "8"
    } else {
        "9"
    }
}

fn dec_digits_string(n: u32) -> (s: String)
    ensures
        s@ == spec_dec_digits(n as int),
    decreases n,
{
    if n < 10 {
        digit_str(n).to_owned()
    } else {
        let mut s = dec_digits_string(n / 10);
        s.append(digit_str(n % 10));
        proof {
            assert(spec_dec_digits((n / 10) as int) + seq![dec_digit_char((n % 10) as int)]
                =~= spec_dec_digits((n / 10) as int).push(dec_digit_char((n % 10) as int)));
        }
        s
    }
}

fn int_to_string(value: i32) -> (s: String)
    ensures
        s@ == spec_int_string(value as int),
{
    if value < 0 {
        let magnitude: u32 = (-(value as i64)) as u32;
        let mut s = "-".to_owned();
        s.append(dec_digits_string(magnitude).as_str());
        proof {
            reveal_strlit("-");
            assert("-"@ =~= seq!['-']);
        }
        s
    } else {
        dec_digits_string(value as u32)
    }
}

fn comp_op_str(op: &BooleanCompOp) -> (r: &'static str)
    ensures
        r@ == spec_comp_op_str(*op),
{
    match op {
        BooleanCompOp::Equal => "==",
        BooleanCompOp::NotEqual => "!=",
        BooleanCompOp::GreaterThan => ">",
        BooleanCompOp::LessThan => "<",
        BooleanCompOp::GreaterThanOrEqual => ">=",
        BooleanCompOp::LessThanOrEqual => "<=",
    }
}

fn bool_op_str(op: &BooleanOp) -> (r: &'static str)
    ensures
        r@ == spec_bool_op_str(*op),
{
    match op {
        BooleanOp::And => "&&",
        BooleanOp::Or => "||",
        BooleanOp::Xor => "^",
    }
}

fn factor_comp(factor: &Factor) -> (s: String)
    ensures
        s@ == spec_factor_comp(factor_view(*factor)),
    decreases *factor, 0int,
{
    match factor {
        Factor::Int(value) => int_to_string(*value),
        Factor::Variable(name) => name.clone(),
        Factor::Parenthesis(expr) => {
            let mut s = "(".to_owned();
            s.append(expr_comp(expr).as_str());
            s.append(")");
            s
        },
    }
}

fn term_comp(term: &Term) -> (s: String)
    ensures
        s@ == spec_term_comp(term_view(*term)),
    decreases *term, 1int,
{
    match term {
        Term::Factor(factor) => factor_comp(factor),
        Term::Multiply { term, factor } => {
            let mut s = factor_comp(factor);
            s.append(" * ");
            s.append(term_comp(term).as_str());
            s
        },
        Term::Divide { term, factor } => {
            let mut s = factor_comp(factor);
            s.append(" / ");
            s.append(term_comp(term).as_str());
            s
        },
    }
}

fn expr_comp(expr: &Expression) -> (s: String)
    ensures
        s@ == spec_expr_comp(expr_view(*expr)),
    decreases *expr, 2int,
{
    match expr {
        Expression::Term(term) => term_comp(term),
        Expression::Plus { expr, term } => {
            let mut s = term_comp(term);
            s.append(" + ");
            s.append(expr_comp(expr).as_str());
            s
        },
        Expression::Minus { expr, term } => {
            let mut s = term_comp(term);
            s.append(" - ");
            s.append(expr_comp(expr).as_str());
            s
        },
    }
}

fn bool_comp(bool_expr: &BooleanExpression) -> (s: String)
    ensures
        s@ == spec_bool_comp(bool_expr_view(*bool_expr)),
    decreases *bool_expr,
{
    match bool_expr {
        BooleanExpression::Boolean(value) => if *value {
            "true".to_owned()
        } else {
            "false".to_owned()
        },
        BooleanExpression::Compare { op, expr1, expr2 } => {
            let mut s = expr_comp(expr1);
            s.append(" ");
            s.append(comp_op_str(op));
            s.append(" ");
            s.append(expr_comp(expr2).as_str());
            s
        },
        BooleanExpression::Not { expr } => {
            let mut s = "!".to_owned();
            if matches!(&**expr, BooleanExpression::Compare { .. }) || matches!(
                &**expr,
                BooleanExpression::BooleanOp { .. },
            ) {
                s.append("(");
                s.append(bool_comp(expr).as_str());
                s.append(")");
            } else {
                s.append(bool_comp(expr).as_str());
            }
            s
        },
        BooleanExpression::BooleanOp { op, expr1, expr2 } => {
            let mut s = bool_comp(expr1);
            s.append(" ");
            s.append(bool_op_str(op));
            s.append(" ");
            s.append(bool_comp(expr2).as_str());
            s
        },
        BooleanExpression::Parenthesis(inner) => {
            let mut s = "(".to_owned();
            s.append(bool_comp(inner).as_str());
            s.append(")");
            s
        },
    }
}

fn block_comp(block: &Vec<Statement>) -> (s: String)
    ensures
        s@ == spec_block_comp(block_view(block@)),
    decreases *block,
{
    let ghost full = block_view(block@);
    let mut out = String::new();
    proof {
        crate::ast::lemma_block_view_len(block@);
        assert(full.skip(0) =~= full);
    }
    let mut i: usize = 0;
    while i < block.len()
        invariant
            i <= block@.len(),
            full == block_view(block@),
            full.len() == block@.len(),
            spec_block_comp(full) =~= out@ + spec_block_comp(full.skip(i as int)),
        decreases block@.len() - i,
    {
        proof {
            crate::ast::lemma_block_view_index(block@, i as int);
            assert(full.skip(i as int).first() == stmt_view(block@[i as int]));
            assert(full.skip(i as int).drop_first() =~= full.skip(i as int + 1));
        }
        let ghost out0 = out@;
        let ghost stmt_text = spec_stmt_comp(stmt_view(block@[i as int]));
        match &block[i] {
            Statement::Print { expr } => {
                proof {
                    assert(stmt_view(block@[i as int]) == SpecStmt::Print {
                        expr: expr_view(*expr),
                    });
                }
                out.append("    println!(\"{}\", ");
                out.append(expr_comp(expr).as_str());
                out.append(");\n");
            },
            Statement::Let { variable, expr } => {
                proof {
                    assert(stmt_view(block@[i as int]) == SpecStmt::Let {
                        variable: (*variable)@,
                        expr: expr_view(*expr),
                    });
                }
                out.append("    let mut ");
                out.append(variable.as_str());
                out.append(" = ");
                out.append(expr_comp(expr).as_str());
                out.append(";\n");
            },
            Statement::Assignment { variable, expr } => {
                proof {
                    assert(stmt_view(block@[i as int]) == SpecStmt::Assignment {
                        variable: (*variable)@,
                        expr: expr_view(*expr),
                    });
                }
                out.append("    ");
                out.append(variable.as_str());
                out.append(" = ");
                out.append(expr_comp(expr).as_str());
                out.append(";\n");
            },
            Statement::If { condition, body, else_body } => {
                proof {
                    assert(stmt_view(block@[i as int]) == SpecStmt::If {
                        condition: bool_expr_view(*condition),
                        body: block_view((*body)@),
                        else_body: match *else_body {
                            Some(b) => Some(block_view(b@)),
                            None => None,
                        },
                    });
                }
                out.append("    if ");
                out.append(bool_comp(condition).as_str());
                out.append(" {\n");
                out.append(block_comp(body).as_str());
                out.append("}\n");
                if let Some(eb) = else_body {
                    out.append("    else {\n");
                    out.append(block_comp(eb).as_str());
                    out.append("}\n");
                }
            },
            Statement::While { condition, body } => {
                proof {
                    assert(stmt_view(block@[i as int]) == SpecStmt::While {
                        condition: bool_expr_view(*condition),
                        body: block_view((*body)@),
                    });
                }
                out.append("    while ");
                out.append(bool_comp(condition).as_str());
                out.append(" {\n");
                out.append(block_comp(body).as_str());
                out.append("}\n");
            },
        }
        proof {
            assert(out@ =~= out0 + stmt_text);
            assert(out0 + (stmt_text + spec_block_comp(full.skip(i as int + 1))) =~= (out0
                + stmt_text) + spec_block_comp(full.skip(i as int + 1)));
        }
        i += 1;
    }
    proof {
        assert(full.skip(i as int) =~= Seq::<SpecStmt>::empty());
        assert(out@ + Seq::<char>::empty() =~= out@);
    }
    out
}

/// Renders the whole program as host-language text: a single entry routine
/// holding the translated statements, in order.
pub fn transpile(ast: Ast) -> (s: String)
    ensures
        s@ == spec_transpile(ast_view(ast)),
{
    let mut rust_code = "fn main() {\n".to_owned();
    rust_code.append(block_comp(&ast.ast).as_str());
    rust_code.append("}\n");
    rust_code
}

} // verus!