//! The tree rewriter: rebuilds a tree, rewriting its composite nodes part by
//! part and handing every other expression, whole, to a transform.
use vstd::prelude::*;
use crate::ast::{BlockStatement, Expression, FunctionExpression, Node, Program, Statement};
use crate::model::{
    ExprModel, block_model, expr_model, exprs_model, first_key, insert_entry, insert_position,
    keys_ascending, keys_distinct,
    lemma_array_model, lemma_hash_model, pairs_model, program_model,
    stmt_model, with_entry,
};

verus! {

broadcast use vstd::std_specs::vec::group_vec_axioms, vstd::seq::group_seq_axioms;

/// The entries that inserting `ms` one after another into an empty hash
/// gives.
pub open spec fn entries_of(ms: Seq<(ExprModel, ExprModel)>) -> Seq<(ExprModel, ExprModel)>
    decreases ms.len(),
{
    if ms.len() == 0 {
        Seq::empty()
    } else {
        with_entry(entries_of(ms.drop_last()), ms.last().0, ms.last().1)
    }
}

/// Whether the rewriter treats `e` as a unit handed to the transform.
pub open spec fn is_opaque(e: Expression) -> bool {
    !(e is Array || e is Hash || e is Prefix || e is Infix || e is If || e is Function
        || e is Index)
}

/// `out` is what rewriting `e` with `f` may give: composite expressions
/// rebuilt from their rewritten parts, every other expression replaced by
/// what `f` returned for it.
pub open spec fn rewritten_expr<F: Fn(Node) -> Node>(e: Expression, out: Expression, f: F) -> bool
    decreases e,
{
    match e {
        Expression::Array(xs) => match out {
            Expression::Array(ys) => xs.len() == ys.len() && forall|i: int|
                0 <= i < xs.len() ==> rewritten_expr(#[trigger] xs@[i], ys@[i], f),
            _ => false,
        },
        Expression::Hash(ps) => match out {
            Expression::Hash(qs) => exists|rs: Seq<(Expression, Expression)>|
                {
                    &&& rs.len() == ps.len()
                    &&& forall|i: int|
                        0 <= i < ps.len() ==> rewritten_expr(#[trigger] ps@[i].0, rs[i].0, f)
                            && rewritten_expr(ps@[i].1, rs[i].1, f)
                    &&& pairs_model(qs@) == entries_of(pairs_model(rs))
                },
            _ => false,
        },
        Expression::Prefix { operator, right } => match out {
            Expression::Prefix { operator: o2, right: r2 } => operator == o2 && rewritten_expr(
                *right,
                *r2,
                f,
            ),
            _ => false,
        },
        Expression::Infix { left, operator, right } => match out {
            Expression::Infix { left: l2, operator: o2, right: r2 } => operator == o2
                && rewritten_expr(*left, *l2, f) && rewritten_expr(*right, *r2, f),
            _ => false,
        },
        Expression::If { condition, consequence, alternative } => match out {
            Expression::If { condition: c2, consequence: t2, alternative: a2 } => rewritten_expr(
                *condition,
                *c2,
                f,
            ) && rewritten_block(consequence, t2, f) && match (alternative, a2) {
                (Some(a), Some(b)) => rewritten_block(a, b, f),
                (None, None) => true,
                _ => false,
            },
            _ => false,
        },
        Expression::Function(g) => match out {
            Expression::Function(h) => h.params == g.params && rewritten_block(g.body, h.body, f),
            _ => false,
        },
        Expression::Index { left, index } => match out {
            Expression::Index { left: l2, index: i2 } => rewritten_expr(*left, *l2, f)
                && rewritten_expr(*index, *i2, f),
            _ => false,
        },
        _ => f.ensures((Node::Expression(e),), Node::Expression(out)),
    }
}

pub open spec fn rewritten_block<F: Fn(Node) -> Node>(
    b: BlockStatement,
    out: BlockStatement,
    f: F,
) -> bool
    decreases b,
{
    b.statements.len() == out.statements.len() && forall|i: int|
        0 <= i < b.statements.len() ==> rewritten_stmt(
            #[trigger] b.statements@[i],
            out.statements@[i],
            f,
        )
}

pub open spec fn rewritten_stmt<F: Fn(Node) -> Node>(s: Statement, out: Statement, f: F) -> bool
    decreases s,
{
    match s {
        Statement::Let { identifier, expression } => match out {
            Statement::Let { identifier: i2, expression: e2 } => identifier == i2 && rewritten_expr(
                expression,
                e2,
                f,
            ),
            _ => false,
        },
        Statement::Return(e) => match out {
            Statement::Return(e2) => rewritten_expr(e, e2, f),
            _ => false,
        },
        Statement::Expression(e) => match out {
            Statement::Expression(e2) => rewritten_expr(e, e2, f),
            _ => false,
        },
        Statement::Block(b) => match out {
            Statement::Block(b2) => rewritten_block(b, b2, f),
            _ => false,
        },
    }
}

pub open spec fn rewritten_statements<F: Fn(Node) -> Node>(
    ss: Seq<Statement>,
    out: Seq<Statement>,
    f: F,
) -> bool {
    ss.len() == out.len() && forall|i: int| 0 <= i < ss.len() ==> rewritten_stmt(#[trigger] ss[i], out[i], f)
}

pub open spec fn rewritten_node<F: Fn(Node) -> Node>(n: Node, out: Node, f: F) -> bool {
    match (n, out) {
        (Node::Program(p), Node::Program(q)) => rewritten_statements(p.statements@, q.statements@, f),
        (Node::Statement(s), Node::Statement(t)) => rewritten_stmt(s, t, f),
        (Node::Expression(e), Node::Expression(d)) => rewritten_expr(e, d, f),
        _ => false,
    }
}

/// `f` turns every expression it is given into an expression.
pub open spec fn keeps_expressions<F: Fn(Node) -> Node>(f: F) -> bool {
    forall|n: Node, m: Node| n is Expression && #[trigger] f.ensures((n,), m) ==> m is Expression
}

/// `f` returned something other than an expression for some expression.
pub open spec fn dropped_expression<F: Fn(Node) -> Node>(f: F) -> bool {
    exists|n: Node, m: Node| n is Expression && #[trigger] f.ensures((n,), m) && !(m is Expression)
}

/// Rewrites `node` with `modifier`. Programs, blocks and statements are
/// rebuilt statement by statement; arrays, hashes, prefix and infix
/// expressions, ifs, function bodies and index expressions part by part;
/// every other expression (names, literals, calls, quotes, unquotes,
/// macros) goes whole to `modifier`, whose result must be an expression.
pub fn modify<F: Fn(Node) -> Node>(node: Node, modifier: F) -> (r: Result<Node, String>)
    requires
        forall|n: Node| #[trigger] modifier.requires((n,)),
    ensures
        match r {
            Ok(out) => rewritten_node(node, out, modifier),
            Err(_) => dropped_expression(modifier),
        },
        keeps_expressions(modifier) ==> r is Ok,
{
    match node {
        Node::Program(it) => match modify_program(it, &modifier) {
            Ok(p) => Ok(Node::Program(p)),
            Err(e) => Err(e),
        },
        Node::Statement(it) => match modify_statement(it, &modifier) {
            Ok(s) => Ok(Node::Statement(s)),
            Err(e) => Err(e),
        },
        Node::Expression(it) => match modify_expression(it, &modifier) {
            Ok(x) => Ok(Node::Expression(x)),
            Err(e) => Err(e),
        },
    }
}

fn modify_statements<F: Fn(Node) -> Node>(ss: Vec<Statement>, modifier: &F) -> (r: Result<
    Vec<Statement>,
    String,
>)
    requires
        forall|n: Node| #[trigger] modifier.requires((n,)),
    ensures
        match r {
            Ok(out) => rewritten_statements(ss@, out@, *modifier),
            Err(_) => dropped_expression(*modifier),
        },
        keeps_expressions(*modifier) ==> r is Ok,
    decreases ss, 1int,
{
    let ghost whole = ss;
    let ghost orig = ss@;
    let mut rest = ss;
    let mut statements: Vec<Statement> = Vec::new();
    while rest.len() > 0
        invariant
            forall|n: Node| #[trigger] modifier.requires((n,)),
            orig == whole@,
            whole == ss,
            statements.len() + rest.len() == orig.len(),
            rest@ == orig.subrange(statements.len() as int, orig.len() as int),
            forall|i: int|
                0 <= i < statements.len() ==> rewritten_stmt(
                    #[trigger] orig[i],
                    statements@[i],
                    *modifier,
                ),
        decreases rest.len(),
    {
        let stmt = rest.remove(0);
        assert(decreases_to!(whole => whole[statements.len() as int]));
        match modify_statement(stmt, modifier) {
            Ok(s) => statements.push(s),
            Err(e) => return Err(e),
        }
    }
    Ok(statements)
}

fn modify_program<F: Fn(Node) -> Node>(prog: Program, modifier: &F) -> (r: Result<
    Program,
    String,
>)
    requires
        forall|n: Node| #[trigger] modifier.requires((n,)),
    ensures
        match r {
            Ok(out) => rewritten_statements(prog.statements@, out.statements@, *modifier),
            Err(_) => dropped_expression(*modifier),
        },
        keeps_expressions(*modifier) ==> r is Ok,
{
    match modify_statements(prog.statements, modifier) {
        Ok(statements) => Ok(Program { statements }),
        Err(e) => Err(e),
    }
}

fn modify_statement<F: Fn(Node) -> Node>(stmt: Statement, modifier: &F) -> (r: Result<
    Statement,
    String,
>)
    requires
        forall|n: Node| #[trigger] modifier.requires((n,)),
    ensures
        match r {
            Ok(out) => rewritten_stmt(stmt, out, *modifier),
            Err(_) => dropped_expression(*modifier),
        },
        keeps_expressions(*modifier) ==> r is Ok,
    decreases stmt, 2int,
{
    match stmt {
        Statement::Let { identifier, expression } => match modify_expression(
            expression,
            modifier,
        ) {
            Ok(expression) => Ok(Statement::Let { identifier, expression }),
            Err(e) => Err(e),
        },
        Statement::Return(expr) => match modify_expression(expr, modifier) {
            Ok(x) => Ok(Statement::Return(x)),
            Err(e) => Err(e),
        },
        Statement::Expression(expr) => match modify_expression(expr, modifier) {
            Ok(x) => Ok(Statement::Expression(x)),
            Err(e) => Err(e),
        },
        Statement::Block(block) => match modify_block_statement(block, modifier) {
            Ok(b) => Ok(Statement::Block(b)),
            Err(e) => Err(e),
        },
    }
}

fn modify_block_statement<F: Fn(Node) -> Node>(block: BlockStatement, modifier: &F) -> (r: Result<
    BlockStatement,
    String,
>)
    requires
        forall|n: Node| #[trigger] modifier.requires((n,)),
    ensures
        match r {
            Ok(out) => rewritten_block(block, out, *modifier),
            Err(_) => dropped_expression(*modifier),
        },
        keeps_expressions(*modifier) ==> r is Ok,
    decreases block, 2int,
{
    match modify_statements(block.statements, modifier) {
        Ok(statements) => Ok(BlockStatement { statements }),
        Err(e) => Err(e),
    }
}

fn modify_expressions<F: Fn(Node) -> Node>(xs: Vec<Expression>, modifier: &F) -> (r: Result<
    Vec<Expression>,
    String,
>)
    requires
        forall|n: Node| #[trigger] modifier.requires((n,)),
    ensures
        match r {
            Ok(out) => out.len() == xs.len() && forall|i: int|
                0 <= i < xs.len() ==> rewritten_expr(#[trigger] xs@[i], out@[i], *modifier),
            Err(_) => dropped_expression(*modifier),
        },
        keeps_expressions(*modifier) ==> r is Ok,
    decreases xs, 1int,
{
    let ghost whole = xs;
    let ghost orig = xs@;
    let mut rest = xs;
    let mut elements: Vec<Expression> = Vec::new();
    while rest.len() > 0
        invariant
            forall|n: Node| #[trigger] modifier.requires((n,)),
            orig == whole@,
            whole == xs,
            elements.len() + rest.len() == orig.len(),
            rest@ == orig.subrange(elements.len() as int, orig.len() as int),
            forall|i: int|
                0 <= i < elements.len() ==> rewritten_expr(
                    #[trigger] orig[i],
                    elements@[i],
                    *modifier,
                ),
        decreases rest.len(),
    {
        let e = rest.remove(0);
        assert(e == orig[elements.len() as int]);
        assert(decreases_to!(whole => whole[elements.len() as int]));
        match modify_expression(e, modifier) {
            Ok(x) => elements.push(x),
            Err(err) => return Err(err),
        }
    }
    Ok(elements)
}

fn modify_pairs<F: Fn(Node) -> Node>(ps: Vec<(Expression, Expression)>, modifier: &F) -> (r: Result<
    Vec<(Expression, Expression)>,
    String,
>)
    requires
        forall|n: Node| #[trigger] modifier.requires((n,)),
    ensures
        match r {
            Ok(out) => exists|rs: Seq<(Expression, Expression)>|
                {
                    &&& rs.len() == ps.len()
                    &&& forall|i: int|
                        0 <= i < ps.len() ==> rewritten_expr(#[trigger] ps@[i].0, rs[i].0, *modifier)
                            && rewritten_expr(ps@[i].1, rs[i].1, *modifier)
                    &&& pairs_model(out@) == entries_of(pairs_model(rs))
                },
            Err(_) => dropped_expression(*modifier),
        },
        keeps_expressions(*modifier) ==> r is Ok,
    decreases ps, 1int,
{
    let ghost whole = ps;
    let ghost orig = ps@;
    let ghost mut rs: Seq<(Expression, Expression)> = Seq::empty();
    let mut rest = ps;
    let mut new_map: Vec<(Expression, Expression)> = Vec::new();
    assert(pairs_model(new_map@) =~= entries_of(pairs_model(rs)));
    while rest.len() > 0
        invariant
            forall|n: Node| #[trigger] modifier.requires((n,)),
            orig == whole@,
            whole == ps,
            rs.len() + rest.len() == orig.len(),
            rest@ == orig.subrange(rs.len() as int, orig.len() as int),
            forall|i: int|
                0 <= i < rs.len() ==> rewritten_expr(#[trigger] orig[i].0, rs[i].0, *modifier)
                    && rewritten_expr(orig[i].1, rs[i].1, *modifier),
            pairs_model(new_map@) == entries_of(pairs_model(rs)),
        decreases rest.len(),
    {
        let (k, v) = rest.remove(0);
        assert(k == orig[rs.len() as int].0 && v == orig[rs.len() as int].1);
        assert(decreases_to!(whole => whole[rs.len() as int]));
        assert(decreases_to!(whole[rs.len() as int] => whole[rs.len() as int].0));
        assert(decreases_to!(whole[rs.len() as int] => whole[rs.len() as int].1));
        let k = match modify_expression(k, modifier) {
            Ok(x) => x,
            Err(err) => return Err(err),
        };
        let v = match modify_expression(v, modifier) {
            Ok(x) => x,
            Err(err) => return Err(err),
        };
        let ghost before = rs;
        proof {
            rs = rs.push((k, v));
            assert(pairs_model(rs).drop_last() =~= pairs_model(before));
        }
        insert_entry(&mut new_map, k, v);
    }
    assert(rs.len() == ps@.len());
    assert(forall|i: int|
        0 <= i < ps@.len() ==> rewritten_expr(#[trigger] ps@[i].0, rs[i].0, *modifier)
            && rewritten_expr(ps@[i].1, rs[i].1, *modifier));
    Ok(new_map)
}

fn modify_expression<F: Fn(Node) -> Node>(expr: Expression, modifier: &F) -> (r: Result<
    Expression,
    String,
>)
    requires
        forall|n: Node| #[trigger] modifier.requires((n,)),
    ensures
        match r {
            Ok(out) => rewritten_expr(expr, out, *modifier),
            Err(_) => dropped_expression(*modifier),
        },
        keeps_expressions(*modifier) ==> r is Ok,
    decreases expr, 2int,
{
    match expr {
        Expression::Array(ary) => match modify_expressions(ary, modifier) {
            Ok(elements) => Ok(Expression::Array(elements)),
            Err(e) => Err(e),
        },
        Expression::Hash(map) => match modify_pairs(map, modifier) {
            Ok(new_map) => Ok(Expression::Hash(new_map)),
            Err(e) => Err(e),
        },
        Expression::Prefix { operator, right } => match modify_expression(*right, modifier) {
            Ok(right) => Ok(Expression::Prefix { operator, right: Box::new(right) }),
            Err(e) => Err(e),
        },
        Expression::Infix { left, operator, right } => {
            let left = match modify_expression(*left, modifier) {
                Ok(x) => x,
                Err(e) => return Err(e),
            };
            let right = match modify_expression(*right, modifier) {
                Ok(x) => x,
                Err(e) => return Err(e),
            };
            Ok(Expression::Infix { left: Box::new(left), operator, right: Box::new(right) })
        },
        Expression::If { condition, consequence, alternative } => {
            let condition = match modify_expression(*condition, modifier) {
                Ok(x) => x,
                Err(e) => return Err(e),
            };
            let consequence = match modify_block_statement(consequence, modifier) {
                Ok(x) => x,
                Err(e) => return Err(e),
            };
            let alternative = match alternative {
                Some(alt) => match modify_block_statement(alt, modifier) {
                    Ok(x) => Some(x),
                    Err(e) => return Err(e),
                },
                None => None,
            };
            Ok(Expression::If { condition: Box::new(condition), consequence, alternative })
        },
        Expression::Function(f) => {
            let FunctionExpression { params, body } = f;
            match modify_block_statement(body, modifier) {
                Ok(body) => Ok(Expression::Function(FunctionExpression { params, body })),
                Err(e) => Err(e),
            }
        },
        Expression::Index { left, index } => {
            let left = match modify_expression(*left, modifier) {
                Ok(x) => x,
                Err(e) => return Err(e),
            };
            let index = match modify_expression(*index, modifier) {
                Ok(x) => x,
                Err(e) => return Err(e),
            };
            Ok(Expression::Index { left: Box::new(left), index: Box::new(index) })
        },
        other => {
            let ghost given = other;
            let res = modifier(Node::Expression(other));
            let ghost got = res;
            match res.expression() {
                Ok(x) => Ok(x),
                Err(e) => {
                    assert(!(got is Expression));
                    assert(modifier.ensures((Node::Expression(given),), got));
                    Err(e)
                },
            }
        },
    }
}

/// Every hash literal in `e`, outside the parts that the rewriter hands
/// whole to the transform, has distinct keys in ascending order.
pub open spec fn expr_wf(e: Expression) -> bool
    decreases e,
{
    match e {
        Expression::Array(xs) => forall|i: int| 0 <= i < xs.len() ==> expr_wf(#[trigger] xs@[i]),
        Expression::Hash(ps) => keys_distinct(pairs_model(ps@)) && keys_ascending(pairs_model(ps@))
            && forall|i: int|
            0 <= i < ps.len() ==> expr_wf(#[trigger] ps@[i].0) && expr_wf(ps@[i].1),
        Expression::Prefix { right, .. } => expr_wf(*right),
        Expression::Infix { left, right, .. } => expr_wf(*left) && expr_wf(*right),
        Expression::If { condition, consequence, alternative } => expr_wf(*condition) && block_wf(
            consequence,
        ) && match alternative {
            Some(b) => block_wf(b),
            None => true,
        },
        Expression::Function(g) => block_wf(g.body),
        Expression::Index { left, index } => expr_wf(*left) && expr_wf(*index),
        _ => true,
    }
}

pub open spec fn block_wf(b: BlockStatement) -> bool
    decreases b,
{
    forall|i: int| 0 <= i < b.statements.len() ==> stmt_wf(#[trigger] b.statements@[i])
}

pub open spec fn stmt_wf(s: Statement) -> bool
    decreases s,
{
    match s {
        Statement::Let { expression, .. } => expr_wf(expression),
        Statement::Return(e) => expr_wf(e),
        Statement::Expression(e) => expr_wf(e),
        Statement::Block(b) => block_wf(b),
    }
}

pub open spec fn node_wf(n: Node) -> bool {
    match n {
        Node::Program(p) => forall|i: int|
            0 <= i < p.statements.len() ==> stmt_wf(#[trigger] p.statements@[i]),
        Node::Statement(s) => stmt_wf(s),
        Node::Expression(e) => expr_wf(e),
    }
}

/// `f` gives back every node it is given.
pub open spec fn is_identity<F: Fn(Node) -> Node>(f: F) -> bool {
    forall|n: Node, m: Node| #[trigger] f.ensures((n,), m) ==> m == n
}

proof fn lemma_entries_of_distinct(ms: Seq<(ExprModel, ExprModel)>)
    requires
        keys_distinct(ms),
        keys_ascending(ms),
    ensures
        entries_of(ms) == ms,
    decreases ms.len(),
{
    if ms.len() > 0 {
        let init = ms.drop_last();
        let k = ms.last().0;
        assert(keys_distinct(init));
        assert(keys_ascending(init));
        lemma_entries_of_distinct(init);
        assert forall|i: int| 0 <= i < init.len() implies (#[trigger] init[i]).0 != k
            && crate::order::expr_cmp(k, init[i].0) >= 0 by {
            assert(ms[i].0 != ms[ms.len() - 1].0);
            assert(crate::order::expr_cmp(ms[ms.len() - 1].0, ms[i].0) >= 0);
        }
        assert(!(exists|i: int| first_key(init, k, i)));
        assert(insert_position(init, k, init.len() as int));
        let c = choose|i: int| insert_position(init, k, i);
        assert(c == init.len());
        assert(init.insert(init.len() as int, (k, ms.last().1)) =~= ms);
    }
}

proof fn lemma_identity_expr<F: Fn(Node) -> Node>(e: Expression, out: Expression, f: F)
    requires
        is_identity(f),
        expr_wf(e),
        rewritten_expr(e, out, f),
    ensures
        expr_model(out) == expr_model(e),
    decreases e,
{
    match e {
        Expression::Array(xs) => {
            if let Expression::Array(ys) = out {
                assert forall|i: int| 0 <= i < xs.len() implies expr_model(ys@[i]) == expr_model(
                    #[trigger] xs@[i],
                ) by {
                    lemma_identity_expr(xs@[i], ys@[i], f);
                }
                lemma_array_model(xs);
                lemma_array_model(ys);
                assert(exprs_model(ys@) =~= exprs_model(xs@));
            }
        },
        Expression::Hash(ps) => {
            if let Expression::Hash(qs) = out {
                let rs = choose|rs: Seq<(Expression, Expression)>|
                    {
                        &&& rs.len() == ps.len()
                        &&& forall|i: int|
                            0 <= i < ps.len() ==> rewritten_expr(#[trigger] ps@[i].0, rs[i].0, f)
                                && rewritten_expr(ps@[i].1, rs[i].1, f)
                        &&& pairs_model(qs@) == entries_of(pairs_model(rs))
                    };
                assert forall|i: int| 0 <= i < ps.len() implies #[trigger] pairs_model(rs)[i]
                    == pairs_model(ps@)[i] by {
                    lemma_identity_expr(ps@[i].0, rs[i].0, f);
                    lemma_identity_expr(ps@[i].1, rs[i].1, f);
                }
                assert(pairs_model(rs) =~= pairs_model(ps@));
                lemma_entries_of_distinct(pairs_model(ps@));
                lemma_hash_model(ps);
                lemma_hash_model(qs);
            }
        },
        Expression::Prefix { right, .. } => {
            if let Expression::Prefix { right: r2, .. } = out {
                lemma_identity_expr(*right, *r2, f);
            }
        },
        Expression::Infix { left, right, .. } => {
            if let Expression::Infix { left: l2, right: r2, .. } = out {
                lemma_identity_expr(*left, *l2, f);
                lemma_identity_expr(*right, *r2, f);
            }
        },
        Expression::If { condition, consequence, alternative } => {
            if let Expression::If { condition: c2, consequence: t2, alternative: a2 } = out {
                lemma_identity_expr(*condition, *c2, f);
                lemma_identity_block(consequence, t2, f);
                if let (Some(a), Some(b)) = (alternative, a2) {
                    lemma_identity_block(a, b, f);
                }
            }
        },
        Expression::Function(g) => {
            if let Expression::Function(h) = out {
                lemma_identity_block(g.body, h.body, f);
            }
        },
        Expression::Index { left, index } => {
            if let Expression::Index { left: l2, index: i2 } = out {
                lemma_identity_expr(*left, *l2, f);
                lemma_identity_expr(*index, *i2, f);
            }
        },
        _ => {
            assert(f.ensures((Node::Expression(e),), Node::Expression(out)));
        },
    }
}

proof fn lemma_identity_block<F: Fn(Node) -> Node>(b: BlockStatement, out: BlockStatement, f: F)
    requires
        is_identity(f),
        block_wf(b),
        rewritten_block(b, out, f),
    ensures
        block_model(out) == block_model(b),
    decreases b,
{
    assert forall|i: int| 0 <= i < b.statements.len() implies stmt_model(out.statements@[i])
        == stmt_model(#[trigger] b.statements@[i]) by {
        lemma_identity_stmt(b.statements@[i], out.statements@[i], f);
    }
    assert(block_model(out) =~= block_model(b));
}

proof fn lemma_identity_stmt<F: Fn(Node) -> Node>(s: Statement, out: Statement, f: F)
    requires
        is_identity(f),
        stmt_wf(s),
        rewritten_stmt(s, out, f),
    ensures
        stmt_model(out) == stmt_model(s),
    decreases s,
{
    match s {
        Statement::Let { expression, .. } => {
            if let Statement::Let { expression: e2, .. } = out {
                lemma_identity_expr(expression, e2, f);
            }
        },
        Statement::Return(e) => {
            if let Statement::Return(e2) = out {
                lemma_identity_expr(e, e2, f);
            }
        },
        Statement::Expression(e) => {
            if let Statement::Expression(e2) = out {
                lemma_identity_expr(e, e2, f);
            }
        },
        Statement::Block(b) => {
            if let Statement::Block(b2) = out {
                lemma_identity_block(b, b2, f);
            }
        },
    }
}

/// Rewriting with a transform that gives back every node unchanged
/// succeeds, and what it returns is structurally equal to the input.
pub proof fn rewrite_identity_law<F: Fn(Node) -> Node>(node: Node, out: Node, f: F)
    requires
        is_identity(f),
        node_wf(node),
        rewritten_node(node, out, f),
    ensures
        keeps_expressions(f),
        match (node, out) {
            (Node::Program(p), Node::Program(q)) => program_model(q) == program_model(p),
            (Node::Statement(s), Node::Statement(t)) => stmt_model(t) == stmt_model(s),
            (Node::Expression(e), Node::Expression(d)) => expr_model(d) == expr_model(e),
            _ => false,
        },
{
    match (node, out) {
        (Node::Program(p), Node::Program(q)) => {
            assert forall|i: int| 0 <= i < p.statements.len() implies stmt_model(
                q.statements@[i],
            ) == stmt_model(#[trigger] p.statements@[i]) by {
                lemma_identity_stmt(p.statements@[i], q.statements@[i], f);
            }
            assert(program_model(q) =~= program_model(p));
        },
        (Node::Statement(s), Node::Statement(t)) => lemma_identity_stmt(s, t, f),
        (Node::Expression(e), Node::Expression(d)) => lemma_identity_expr(e, d, f),
        _ => {},
    }
}

} // verus!
