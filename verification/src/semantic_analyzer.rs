//! Static scope analysis: a single top-down walk of the AST that checks every
//! referenced variable was declared in a visible scope before use. Each block
//! analyzes its body against a copy of the enclosing environment, so bindings
//! never leak out of the block that introduced them.

use crate::ast::{
    ast_view, block_view, bool_expr_view, expr_view, factor_view, stmt_view, term_view, Ast,
    BooleanExpression, Expression, Factor, SpecBoolExpr, SpecExpr, SpecFactor, SpecStmt, SpecTerm,
    Statement, Term,
};
use vstd::prelude::*;

verus! {

/// The analyzer's diagnostic: a reference to a variable that no visible
/// scope declares.
pub enum SemanticAnalyzerError {
    UndefinedVariable(String),
}

/// Mathematical model of a `SemanticAnalyzerError`: the undefined name.
pub open spec fn sem_err_view(e: SemanticAnalyzerError) -> Seq<char> {
    match e {
        SemanticAnalyzerError::UndefinedVariable(s) => s@,
    }
}

/// Mathematical model of a scope environment: the declared names, in order of
/// declaration, outermost first.
pub open spec fn env_view(env: Seq<String>) -> Seq<Seq<char>> {
    Seq::new(env.len(), |i: int| env[i]@)
}

/// A variable reference is valid exactly when the environment contains the
/// name; otherwise it is the undefined name the analyzer reports.
pub open spec fn spec_variable_analyze(name: Seq<char>, vars: Seq<Seq<char>>) -> Result<
    (),
    Seq<char>,
> {
    if vars.contains(name) {
        Ok(())
    } else {
        Err(name)
    }
}

pub open spec fn spec_factor_analyze(f: SpecFactor, vars: Seq<Seq<char>>) -> Result<(), Seq<char>>
    decreases f,
{
    match f {
        SpecFactor::Int(_) => Ok(()),
        SpecFactor::Variable(name) => spec_variable_analyze(name, vars),
        SpecFactor::Parenthesis(e) => spec_expr_analyze(*e, vars),
    }
}

/// The right operand (`term`) is analyzed before the left one (`factor`),
/// following the order in which the walk visits the tree.
pub open spec fn spec_term_analyze(t: SpecTerm, vars: Seq<Seq<char>>) -> Result<(), Seq<char>>
    decreases t,
{
    match t {
        SpecTerm::Factor(f) => spec_factor_analyze(*f, vars),
        SpecTerm::Multiply { term, factor } => match spec_term_analyze(*term, vars) {
            Err(e) => Err(e),
            Ok(_) => spec_factor_analyze(*factor, vars),
        },
        SpecTerm::Divide { term, factor } => match spec_term_analyze(*term, vars) {
            Err(e) => Err(e),
            Ok(_) => spec_factor_analyze(*factor, vars),
        },
    }
}

/// The right operand (`expr`) is analyzed before the left one (`term`),
/// following the order in which the walk visits the tree.
pub open spec fn spec_expr_analyze(e: SpecExpr, vars: Seq<Seq<char>>) -> Result<(), Seq<char>>
    decreases e,
{
    match e {
        SpecExpr::Term(t) => spec_term_analyze(*t, vars),
        SpecExpr::Plus { expr, term } => match spec_expr_analyze(*expr, vars) {
            Err(e) => Err(e),
            Ok(_) => spec_term_analyze(*term, vars),
        },
        SpecExpr::Minus { expr, term } => match spec_expr_analyze(*expr, vars) {
            Err(e) => Err(e),
            Ok(_) => spec_term_analyze(*term, vars),
        },
    }
}

pub open spec fn spec_bool_analyze(b: SpecBoolExpr, vars: Seq<Seq<char>>) -> Result<(), Seq<char>>
    decreases b,
{
    match b {
        SpecBoolExpr::Boolean(_) => Ok(()),
        SpecBoolExpr::Compare { op: _, expr1, expr2 } => match spec_expr_analyze(expr1, vars) {
            Err(e) => Err(e),
            Ok(_) => spec_expr_analyze(expr2, vars),
        },
        SpecBoolExpr::Not { expr } => spec_bool_analyze(*expr, vars),
        SpecBoolExpr::BooleanOp { op: _, expr1, expr2 } => match spec_bool_analyze(*expr1, vars) {
            Err(e) => Err(e),
            Ok(_) => spec_bool_analyze(*expr2, vars),
        },
        SpecBoolExpr::Parenthesis(inner) => spec_bool_analyze(*inner, vars),
    }
}

/// Analysis of one statement under `vars`. On success it returns the
/// environment for the statements that follow: only `Let` extends it; the
/// bodies of `If` and `While` are analyzed against a copy, and whatever they
/// declare is discarded, so the environment they hand back is `vars` itself.
pub open spec fn spec_stmt_analyze(s: SpecStmt, vars: Seq<Seq<char>>) -> Result<
    Seq<Seq<char>>,
    Seq<char>,
>
    decreases s,
{
    match s {
        SpecStmt::Print { expr } => match spec_expr_analyze(expr, vars) {
            Err(e) => Err(e),
            Ok(_) => Ok(vars),
        },
        SpecStmt::Let { variable, expr } => match spec_expr_analyze(expr, vars) {
            Err(e) => Err(e),
            Ok(_) => Ok(vars.push(variable)),
        },
        SpecStmt::Assignment { variable, expr } => match spec_variable_analyze(variable, vars) {
            Err(e) => Err(e),
            Ok(_) => match spec_expr_analyze(expr, vars) {
                Err(e) => Err(e),
                Ok(_) => Ok(vars),
            },
        },
        SpecStmt::If { condition, body, else_body } => match spec_bool_analyze(condition, vars) {
            Err(e) => Err(e),
            Ok(_) => match spec_block_analyze(body, vars) {
                Err(e) => Err(e),
                Ok(_) => match else_body {
                    Some(eb) => match spec_block_analyze(eb, vars) {
                        Err(e) => Err(e),
                        Ok(_) => Ok(vars),
                    },
                    None => Ok(vars),
                },
            },
        },
        SpecStmt::While { condition, body } => match spec_bool_analyze(condition, vars) {
            Err(e) => Err(e),
            Ok(_) => match spec_block_analyze(body, vars) {
                Err(e) => Err(e),
                Ok(_) => Ok(vars),
            },
        },
    }
}

/// Analysis of a statement sequence: each statement is analyzed under the
/// environment its predecessors produced; the first error stops the walk.
pub open spec fn spec_block_analyze(ss: Seq<SpecStmt>, vars: Seq<Seq<char>>) -> Result<
    (),
    Seq<char>,
>
    decreases ss,
{
    if ss.len() == 0 {
        Ok(())
    } else {
        match spec_stmt_analyze(ss.first(), vars) {
            Err(e) => Err(e),
            Ok(vars2) => spec_block_analyze(ss.drop_first(), vars2),
        }
    }
}

/// Analysis of a whole program, starting from an empty environment.
pub open spec fn spec_analyze(prog: Seq<SpecStmt>) -> Result<(), Seq<char>> {
    spec_block_analyze(prog, Seq::empty())
}

fn variable_analyze(variable: &String, variables: &Vec<String>) -> (r: Result<
    (),
    SemanticAnalyzerError,
>)
    ensures
        (match r {
            Ok(_) => spec_variable_analyze(variable@, env_view(variables@)) == Ok::<
                (),
                Seq<char>,
            >(()),
            Err(e) => spec_variable_analyze(variable@, env_view(variables@)) == Err::<
                (),
                Seq<char>,
            >(sem_err_view(e)),
        }),
{
    let mut i: usize = 0;
    while i < variables.len()
        invariant
            i <= variables@.len(),
            forall|k: int| 0 <= k < i ==> variables@[k]@ != variable@,
        decreases variables@.len() - i,
    {
        let current: &String = &variables[i];
        if current.eq(variable) {
            proof {
                assert(env_view(variables@)[i as int] == variable@);
            }
            return Ok(());
        }
        i += 1;
    }
    proof {
        assert forall|k: int| 0 <= k < env_view(variables@).len() implies env_view(variables@)[k]
            != variable@ by {
            assert(variables@[k]@ != variable@);
        }
    }
    Err(SemanticAnalyzerError::UndefinedVariable(variable.clone()))
}

fn factor_analyze(factor: &Factor, variables: &Vec<String>) -> (r: Result<
    (),
    SemanticAnalyzerError,
>)
    ensures
        (match r {
            Ok(_) => spec_factor_analyze(factor_view(*factor), env_view(variables@)) == Ok::<
                (),
                Seq<char>,
            >(()),
            Err(e) => spec_factor_analyze(factor_view(*factor), env_view(variables@)) == Err::<
                (),
                Seq<char>,
            >(sem_err_view(e)),
        }),
    decreases *factor, 0int,
{
    match factor {
        Factor::Int(_) => Ok(()),
        Factor::Variable(name) => variable_analyze(name, variables),
        Factor::Parenthesis(expr) => expr_analyze(expr, variables),
    }
}

fn term_analyze(term: &Term, variables: &Vec<String>) -> (r: Result<(), SemanticAnalyzerError>)
    ensures
        (match r {
            Ok(_) => spec_term_analyze(term_view(*term), env_view(variables@)) == Ok::<
                (),
                Seq<char>,
            >(()),
            Err(e) => spec_term_analyze(term_view(*term), env_view(variables@)) == Err::<
                (),
                Seq<char>,
            >(sem_err_view(e)),
        }),
    decreases *term, 1int,
{
    match term {
        Term::Factor(factor) => factor_analyze(factor, variables),
        Term::Multiply { term, factor } => match term_analyze(term, variables) {
            Err(e) => Err(e),
            Ok(_) => factor_analyze(factor, variables),
        },
        Term::Divide { term, factor } => match term_analyze(term, variables) {
            Err(e) => Err(e),
            Ok(_) => factor_analyze(factor, variables),
        },
    }
}

fn expr_analyze(expr: &Expression, variables: &Vec<String>) -> (r: Result<
    (),
    SemanticAnalyzerError,
>)
    ensures
        (match r {
            Ok(_) => spec_expr_analyze(expr_view(*expr), env_view(variables@)) == Ok::<
                (),
                Seq<char>,
            >(()),
            Err(e) => spec_expr_analyze(expr_view(*expr), env_view(variables@)) == Err::<
                (),
                Seq<char>,
            >(sem_err_view(e)),
        }),
    decreases *expr, 2int,
{
    match expr {
        Expression::Term(term) => term_analyze(term, variables),
        Expression::Plus { expr, term } => match expr_analyze(expr, variables) {
            Err(e) => Err(e),
            Ok(_) => term_analyze(term, variables),
        },
        Expression::Minus { expr, term } => match expr_analyze(expr, variables) {
            Err(e) => Err(e),
            Ok(_) => term_analyze(term, variables),
        },
    }
}

fn bool_analyze(bool_expr: &BooleanExpression, variables: &Vec<String>) -> (r: Result<
    (),
    SemanticAnalyzerError,
>)
    ensures
        (match r {
            Ok(_) => spec_bool_analyze(bool_expr_view(*bool_expr), env_view(variables@)) == Ok::<
                (),
                Seq<char>,
            >(()),
            Err(e) => spec_bool_analyze(bool_expr_view(*bool_expr), env_view(variables@)) == Err::<
                (),
                Seq<char>,
            >(sem_err_view(e)),
        }),
    decreases *bool_expr,
{
    match bool_expr {
        BooleanExpression::Boolean(_) => Ok(()),
        BooleanExpression::Compare { op: _, expr1, expr2 } => match expr_analyze(
            expr1,
            variables,
        ) {
            Err(e) => Err(e),
            Ok(_) => expr_analyze(expr2, variables),
        },
        BooleanExpression::Not { expr } => bool_analyze(expr, variables),
        BooleanExpression::BooleanOp { op: _, expr1, expr2 } => match bool_analyze(
            expr1,
            variables,
        ) {
            Err(e) => Err(e),
            Ok(_) => bool_analyze(expr2, variables),
        },
        BooleanExpression::Parenthesis(inner) => bool_analyze(inner, variables),
    }
}

fn block_analyze(block: &Vec<Statement>, variables: &Vec<String>) -> (r: Result<
    (),
    SemanticAnalyzerError,
>)
    ensures
        (match r {
            Ok(_) => spec_block_analyze(block_view(block@), env_view(variables@)) == Ok::<
                (),
                Seq<char>,
            >(()),
            Err(e) => spec_block_analyze(block_view(block@), env_view(variables@)) == Err::<
                (),
                Seq<char>,
            >(sem_err_view(e)),
        }),
    decreases *block,
{
    let mut local_variables: Vec<String> = variables.clone();
    proof {
        assert(local_variables@ =~= variables@);
        crate::ast::lemma_block_view_len(block@);
    }
    let ghost full = block_view(block@);
    let ghost vars0 = env_view(variables@);
    proof {
        assert(full.skip(0) =~= full);
        assert(env_view(local_variables@) =~= vars0);
    }
    let mut i: usize = 0;
    while i < block.len()
        invariant
            i <= block@.len(),
            full == block_view(block@),
            vars0 == env_view(variables@),
            full.len() == block@.len(),
            spec_block_analyze(full, vars0) == spec_block_analyze(
                full.skip(i as int),
                env_view(local_variables@),
            ),
        decreases block@.len() - i,
    {
        proof {
            crate::ast::lemma_block_view_index(block@, i as int);
            assert(full.skip(i as int).first() == stmt_view(block@[i as int]));
            assert(full.skip(i as int).drop_first() =~= full.skip(i as int + 1));
        }
        let ghost env0 = env_view(local_variables@);
        match &block[i] {
            Statement::Print { expr } => {
                proof {
                    assert(stmt_view(block@[i as int]) == SpecStmt::Print {
                        expr: expr_view(*expr),
                    });
                }
                let res = expr_analyze(expr, &local_variables);
                if let Err(e) = res {
                    proof {
                        assert(spec_stmt_analyze(stmt_view(block@[i as int]), env0) == Err::<
                            Seq<Seq<char>>,
                            Seq<char>,
                        >(sem_err_view(e)));
                    }
                    return Err(e);
                }
            },
            Statement::Let { variable, expr } => {
                proof {
                    assert(stmt_view(block@[i as int]) == SpecStmt::Let {
                        variable: (*variable)@,
                        expr: expr_view(*expr),
                    });
                }
                let res = expr_analyze(expr, &local_variables);
                if let Err(e) = res {
                    proof {
                        assert(spec_stmt_analyze(stmt_view(block@[i as int]), env0) == Err::<
                            Seq<Seq<char>>,
                            Seq<char>,
                        >(sem_err_view(e)));
                    }
                    return Err(e);
                }
                local_variables.push(variable.clone());
                proof {
                    assert(env_view(local_variables@) =~= env0.push(variable@));
                }
            },
            Statement::Assignment { variable, expr } => {
                proof {
                    assert(stmt_view(block@[i as int]) == SpecStmt::Assignment {
                        variable: (*variable)@,
                        expr: expr_view(*expr),
                    });
                }
                let res = variable_analyze(variable, &local_variables);
                if let Err(e) = res {
                    proof {
                        assert(spec_stmt_analyze(stmt_view(block@[i as int]), env0) == Err::<
                            Seq<Seq<char>>,
                            Seq<char>,
                        >(sem_err_view(e)));
                    }
                    return Err(e);
                }
                let res2 = expr_analyze(expr, &local_variables);
                if let Err(e) = res2 {
                    proof {
                        assert(spec_stmt_analyze(stmt_view(block@[i as int]), env0) == Err::<
                            Seq<Seq<char>>,
                            Seq<char>,
                        >(sem_err_view(e)));
                    }
                    return Err(e);
                }
            },
            Statement::If { condition, body, else_body } => {
                proof {
                    assert(stmt_view(block@[i as int]) == SpecStmt::If {
                        condition: bool_expr_view(*condition),
                        body: block_view((*body)@),
                        else_body: match *else_body {
                            Some(b) => Some(block_view(b@)),
                            None => None,
                        },
                    });
                }
                let res = bool_analyze(condition, &local_variables);
                if let Err(e) = res {
                    proof {
                        assert(spec_stmt_analyze(stmt_view(block@[i as int]), env0) == Err::<
                            Seq<Seq<char>>,
                            Seq<char>,
                        >(sem_err_view(e)));
                    }
                    return Err(e);
                }
                let res2 = block_analyze(body, &local_variables);
                if let Err(e) = res2 {
                    proof {
                        assert(spec_stmt_analyze(stmt_view(block@[i as int]), env0) == Err::<
                            Seq<Seq<char>>,
                            Seq<char>,
                        >(sem_err_view(e)));
                    }
                    return Err(e);
                }
                if let Some(eb) = else_body {
                    let res3 = block_analyze(eb, &local_variables);
                    if let Err(e) = res3 {
                        return Err(e);
                    }
                }
            },
            Statement::While { condition, body } => {
                proof {
                    assert(stmt_view(block@[i as int]) == SpecStmt::While {
                        condition: bool_expr_view(*condition),
                        body: block_view((*body)@),
                    });
                }
                let res = bool_analyze(condition, &local_variables);
                if let Err(e) = res {
                    proof {
                        assert(spec_stmt_analyze(stmt_view(block@[i as int]), env0) == Err::<
                            Seq<Seq<char>>,
                            Seq<char>,
                        >(sem_err_view(e)));
                    }
                    return Err(e);
                }
                let res2 = block_analyze(body, &local_variables);
                if let Err(e) = res2 {
                    proof {
                        assert(spec_stmt_analyze(stmt_view(block@[i as int]), env0) == Err::<
                            Seq<Seq<char>>,
                            Seq<char>,
                        >(sem_err_view(e)));
                    }
                    return Err(e);
                }
            },
        }
        i += 1;
    }
    proof {
        assert(full.skip(i as int) =~= Seq::<SpecStmt>::empty());
    }
    Ok(())
}

/// Checks that every variable the program references was declared by a `let`
/// in a visible scope before its use, walking the tree exactly once.
pub fn analyze(ast: &Ast) -> (r: Result<(), SemanticAnalyzerError>)
    ensures
        (match r {
            Ok(_) => spec_analyze(ast_view(*ast)) == Ok::<(), Seq<char>>(()),
            Err(e) => spec_analyze(ast_view(*ast)) == Err::<(), Seq<char>>(sem_err_view(e)),
        }),
{
    let variables: Vec<String> = Vec::new();
    proof {
        assert(env_view(variables@) =~= Seq::<Seq<char>>::empty());
    }
    block_analyze(&ast.ast, &variables)
}

} // verus!