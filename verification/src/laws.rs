//! The library's laws: properties of the pipeline that hold for every input,
//! stated over the mathematical models that the functions' contracts use and
//! proved once and for all.

use crate::ast::{ast_view, Ast, SpecBoolExpr, SpecExpr, SpecFactor, SpecStmt, SpecTerm};
use crate::lexer::{spec_tokenize, SpecToken};
use crate::rust_transpiler::spec_transpile;
use crate::semantic_analyzer::{spec_analyze, spec_block_analyze, spec_bool_analyze,
    spec_expr_analyze, spec_factor_analyze, spec_stmt_analyze, spec_term_analyze,
    spec_variable_analyze};
use crate::ast::spec_parse;
use vstd::prelude::*;

verus! {

/// An expression that is nothing but a reference to the variable `x`.
pub open spec fn var_ref(x: Seq<char>) -> SpecExpr {
    SpecExpr::Term(Box::new(SpecTerm::Factor(Box::new(SpecFactor::Variable(x)))))
}

/// Structurally equal programs render to identical host text: `transpile`
/// yields the same output for any two abstract syntax trees with the same
/// shape, whatever values they were built from.
pub proof fn lemma_generate_respects_structure(a1: Ast, a2: Ast)
    requires
        ast_view(a1) == ast_view(a2),
    ensures
        spec_transpile(ast_view(a1)) == spec_transpile(ast_view(a2)),
{
}

/// Every stage of the pipeline is a pure function of its input: identical
/// inputs give identical tokens, parse results, analysis results and
/// generated text. The executable functions return exactly these values,
/// so two runs on equal inputs agree.
pub proof fn lemma_pipeline_deterministic(
    s1: Seq<char>,
    s2: Seq<char>,
    t1: Seq<SpecToken>,
    t2: Seq<SpecToken>,
    p1: Seq<SpecStmt>,
    p2: Seq<SpecStmt>,
)
    requires
        s1 == s2,
        t1 == t2,
        p1 == p2,
    ensures
        spec_tokenize(s1) == spec_tokenize(s2),
        spec_parse(t1) == spec_parse(t2),
        spec_analyze(p1) == spec_analyze(p2),
        spec_transpile(p1) == spec_transpile(p2),
{
}

/// A conditional or loop statement that analyzes successfully hands the
/// statements after it the environment it was given: bindings made inside
/// its bodies never escape.
pub proof fn lemma_branch_leaves_env_unchanged(s: SpecStmt, vars: Seq<Seq<char>>)
    requires
        s is If || s is While,
        spec_stmt_analyze(s, vars) is Ok,
    ensures
        spec_stmt_analyze(s, vars) == Ok::<Seq<Seq<char>>, Seq<char>>(vars),
{
    match s {
        SpecStmt::If { condition, .. } => {
            assert(spec_bool_analyze(condition, vars) is Ok);
        },
        SpecStmt::While { condition, .. } => {
            assert(spec_bool_analyze(condition, vars) is Ok);
        },
        _ => {},
    }
}

/// Analyzing a bare reference to `x` succeeds exactly when the environment
/// contains `x`, and otherwise reports `x` as the undefined name.
pub proof fn lemma_var_ref_analysis(x: Seq<char>, vars: Seq<Seq<char>>)
    ensures
        spec_expr_analyze(var_ref(x), vars) == (if vars.contains(x) {
            Ok::<(), Seq<char>>(())
        } else {
            Err::<(), Seq<char>>(x)
        }),
{
    let f = SpecFactor::Variable(x);
    let t = SpecTerm::Factor(Box::new(f));
    assert(spec_factor_analyze(f, vars) == spec_variable_analyze(x, vars));
    assert(spec_term_analyze(t, vars) == spec_factor_analyze(f, vars));
    assert(spec_expr_analyze(var_ref(x), vars) == spec_term_analyze(t, vars));
}

/// Scope non-leak: whatever an `if` or `while` declares inside its bodies, a
/// variable that the enclosing scope does not know stays undefined right
/// after the block: referencing it there fails with that name.
pub proof fn lemma_scope_non_leak(branch: SpecStmt, x: Seq<char>, vars: Seq<Seq<char>>)
    requires
        branch is If || branch is While,
        spec_stmt_analyze(branch, vars) is Ok,
        !vars.contains(x),
    ensures
        spec_block_analyze(seq![branch, SpecStmt::Print { expr: var_ref(x) }], vars) == Err::<
            (),
            Seq<char>,
        >(x),
{
    let prog = seq![branch, SpecStmt::Print { expr: var_ref(x) }];
    assert(prog.first() == branch);
    assert(prog.drop_first() =~= seq![SpecStmt::Print { expr: var_ref(x) }]);
    lemma_branch_leaves_env_unchanged(branch, vars);
    let rest = prog.drop_first();
    assert(rest.first() == SpecStmt::Print { expr: var_ref(x) });
    lemma_var_ref_analysis(x, vars);
    assert(spec_stmt_analyze(SpecStmt::Print { expr: var_ref(x) }, vars) == Err::<
        Seq<Seq<char>>,
        Seq<char>,
    >(x));
    assert(spec_block_analyze(rest, vars) == Err::<(), Seq<char>>(x));
}

/// Shadowing-free visibility: a variable declared in an outer scope is
/// visible and analyzable inside the body of a nested `if` or `while`.
pub proof fn lemma_outer_visible_in_nested_body(
    cond: SpecBoolExpr,
    x: Seq<char>,
    vars: Seq<Seq<char>>,
)
    requires
        vars.contains(x),
        spec_bool_analyze(cond, vars) is Ok,
    ensures
        spec_stmt_analyze(
            SpecStmt::If {
                condition: cond,
                body: seq![SpecStmt::Print { expr: var_ref(x) }],
                else_body: None,
            },
            vars,
        ) is Ok,
        spec_stmt_analyze(
            SpecStmt::While { condition: cond, body: seq![SpecStmt::Print { expr: var_ref(x) }] },
            vars,
        ) is Ok,
{
    let body = seq![SpecStmt::Print { expr: var_ref(x) }];
    assert(body.first() == SpecStmt::Print { expr: var_ref(x) });
    assert(body.drop_first() =~= Seq::<SpecStmt>::empty());
    lemma_var_ref_analysis(x, vars);
    assert(spec_stmt_analyze(SpecStmt::Print { expr: var_ref(x) }, vars) == Ok::<
        Seq<Seq<char>>,
        Seq<char>,
    >(vars));
    assert(spec_block_analyze(body.drop_first(), vars) == Ok::<(), Seq<char>>(()));
    assert(spec_block_analyze(body, vars) == Ok::<(), Seq<char>>(()));
}

} // verus!