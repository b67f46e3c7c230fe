use vstd::prelude::*;
use crate::ast::{Expression, Program, Statement};
use crate::object::Object;

verus! {

/// The value of a statement: integer and boolean literals stand for
/// themselves, everything else is null.
pub open spec fn statement_value(s: Statement) -> Object {
    match s {
        Statement::Expression(Expression::Integer(n)) => Object::Integer(n),
        Statement::Expression(Expression::Boolean(b)) => Object::Boolean(b),
        _ => Object::Null,
    }
}

/// The value of a sequence of statements: that of the last one, or null.
pub open spec fn statements_value(ss: Seq<Statement>) -> Object {
    if ss.len() == 0 {
        Object::Null
    } else {
        statement_value(ss.last())
    }
}

/// Evaluates a program; its value is that of its last statement.
pub fn eval(program: Program) -> (r: Object)
    ensures
        r == statements_value(program.statements@),
{
    let stmts = program.statements;
    eval_statements(stmts)
}

fn eval_statements(stmts: Vec<Statement>) -> (r: Object)
    ensures
        r == statements_value(stmts@),
{
    let ghost orig = stmts@;
    let mut rest = stmts;
    let mut res = Object::Null;
    let ghost mut done: int = 0;
    while rest.len() > 0
        invariant
            0 <= done <= orig.len(),
            rest@ == orig.subrange(done, orig.len() as int),
            res == statements_value(orig.subrange(0, done)),
        decreases rest.len(),
    {
        let s = rest.remove(0);
        res = eval_statement(s);
        proof {
            done = done + 1;
        }
    }
    assert(orig.subrange(0, done) =~= orig);
    res
}

fn eval_statement(stmt: Statement) -> (r: Object)
    ensures
        r == statement_value(stmt),
{
    match stmt {
        Statement::Expression(expr) => eval_expression(expr),
        _ => Object::Null,
    }
}

fn eval_expression(expr: Expression) -> (r: Object)
    ensures
        r == statement_value(Statement::Expression(expr)),
{
    match expr {
        Expression::Integer(n) => Object::Integer(n),
        Expression::Boolean(b) => Object::Boolean(b),
        _ => Object::Null,
    }
}

} // verus!
