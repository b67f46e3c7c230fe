use vstd::prelude::*;
use crate::order::{expr_cmp, expr_compare};
use crate::ast::{
    BlockStatement, CallExpressionFunction, Expression, Identifier, InfixOperator, PrefixOperator,
    Program, Statement,
};

verus! {

/// The mathematical value of an expression: names and strings as character
/// sequences, lists as sequences.
pub enum ExprModel {
    Identifier(Seq<char>),
    Integer(i64),
    Boolean(bool),
    Str(Seq<char>),
    Array(Seq<ExprModel>),
    Hash(Seq<(ExprModel, ExprModel)>),
    Prefix(PrefixOperator, Box<ExprModel>),
    Infix(Box<ExprModel>, InfixOperator, Box<ExprModel>),
    If(Box<ExprModel>, Seq<StmtModel>, Option<Seq<StmtModel>>),
    Function(Seq<Seq<char>>, Seq<StmtModel>),
    Call(CalleeModel, Seq<ExprModel>),
    Index(Box<ExprModel>, Box<ExprModel>),
    Quote(Box<ExprModel>),
    Unquote(Box<ExprModel>),
    Macro(Seq<Seq<char>>, Seq<StmtModel>),
}

pub enum CalleeModel {
    Identifier(Seq<char>),
    Function(Seq<Seq<char>>, Seq<StmtModel>),
}

pub enum StmtModel {
    Let(Seq<char>, ExprModel),
    Return(ExprModel),
    Expression(ExprModel),
    Block(Seq<StmtModel>),
}

pub open spec fn params_model(ps: Seq<Identifier>) -> Seq<Seq<char>> {
    Seq::new(ps.len(), |i: int| ps[i].0@)
}

pub open spec fn expr_model(e: Expression) -> ExprModel
    decreases e,
{
    match e {
        Expression::Identifier(id) => ExprModel::Identifier(id.0@),
        Expression::Integer(n) => ExprModel::Integer(n),
        Expression::Boolean(b) => ExprModel::Boolean(b),
        Expression::String(s) => ExprModel::Str(s@),
        Expression::Array(xs) => ExprModel::Array(
            Seq::new(
                xs.len() as nat,
                |i: int|
                    if 0 <= i < xs.len() {
                        expr_model(xs@[i])
                    } else {
                        ExprModel::Boolean(false)
                    },
            ),
        ),
        Expression::Hash(ps) => ExprModel::Hash(
            Seq::new(
                ps.len() as nat,
                |i: int|
                    if 0 <= i < ps.len() {
                        (expr_model(ps@[i].0), expr_model(ps@[i].1))
                    } else {
                        (ExprModel::Boolean(false), ExprModel::Boolean(false))
                    },
            ),
        ),
        Expression::Prefix { operator, right } => ExprModel::Prefix(
            operator,
            Box::new(expr_model(*right)),
        ),
        Expression::Infix { left, operator, right } => ExprModel::Infix(
            Box::new(expr_model(*left)),
            operator,
            Box::new(expr_model(*right)),
        ),
        Expression::If { condition, consequence, alternative } => ExprModel::If(
            Box::new(expr_model(*condition)),
            block_model(consequence),
            match alternative {
                Some(b) => Some(block_model(b)),
                None => None,
            },
        ),
        Expression::Function(f) => ExprModel::Function(
            params_model(f.params@),
            block_model(f.body),
        ),
        Expression::Call { function, args } => ExprModel::Call(
            callee_model(function),
            Seq::new(
                args.len() as nat,
                |i: int|
                    if 0 <= i < args.len() {
                        expr_model(args@[i])
                    } else {
                        ExprModel::Boolean(false)
                    },
            ),
        ),
        Expression::Index { left, index } => ExprModel::Index(
            Box::new(expr_model(*left)),
            Box::new(expr_model(*index)),
        ),
        Expression::Quote(x) => ExprModel::Quote(Box::new(expr_model(*x))),
        Expression::Unquote(x) => ExprModel::Unquote(Box::new(expr_model(*x))),
        Expression::Macro(m) => ExprModel::Macro(params_model(m.params@), block_model(m.body)),
    }
}

pub open spec fn callee_model(c: CallExpressionFunction) -> CalleeModel
    decreases c,
{
    match c {
        CallExpressionFunction::Identifier(id) => CalleeModel::Identifier(id.0@),
        CallExpressionFunction::Function(f) => CalleeModel::Function(
            params_model(f.params@),
            block_model(f.body),
        ),
    }
}

pub open spec fn block_model(b: BlockStatement) -> Seq<StmtModel>
    decreases b,
{
    Seq::new(
        b.statements.len() as nat,
        |i: int|
            if 0 <= i < b.statements.len() {
                stmt_model(b.statements@[i])
            } else {
                StmtModel::Block(Seq::empty())
            },
    )
}

pub open spec fn stmt_model(s: Statement) -> StmtModel
    decreases s,
{
    match s {
        Statement::Let { identifier, expression } => StmtModel::Let(
            identifier.0@,
            expr_model(expression),
        ),
        Statement::Return(e) => StmtModel::Return(expr_model(e)),
        Statement::Expression(e) => StmtModel::Expression(expr_model(e)),
        Statement::Block(b) => StmtModel::Block(block_model(b)),
    }
}

pub open spec fn exprs_model(xs: Seq<Expression>) -> Seq<ExprModel> {
    Seq::new(xs.len(), |i: int| expr_model(xs[i]))
}

pub open spec fn pairs_model(ps: Seq<(Expression, Expression)>) -> Seq<(ExprModel, ExprModel)> {
    Seq::new(ps.len(), |i: int| (expr_model(ps[i].0), expr_model(ps[i].1)))
}

pub open spec fn stmts_model(ss: Seq<Statement>) -> Seq<StmtModel> {
    Seq::new(ss.len(), |i: int| stmt_model(ss[i]))
}

pub open spec fn program_model(p: Program) -> Seq<StmtModel> {
    stmts_model(p.statements@)
}

pub proof fn lemma_array_model(xs: Vec<Expression>)
    ensures
        expr_model(Expression::Array(xs)) == ExprModel::Array(exprs_model(xs@)),
{
    if let ExprModel::Array(s) = expr_model(Expression::Array(xs)) {
        assert(s =~= exprs_model(xs@));
    }
}

pub proof fn lemma_hash_model(ps: Vec<(Expression, Expression)>)
    ensures
        expr_model(Expression::Hash(ps)) == ExprModel::Hash(pairs_model(ps@)),
{
    if let ExprModel::Hash(s) = expr_model(Expression::Hash(ps)) {
        assert(s =~= pairs_model(ps@));
    }
}

pub proof fn lemma_call_model(f: CallExpressionFunction, xs: Vec<Expression>)
    ensures
        expr_model(Expression::Call { function: f, args: xs }) == ExprModel::Call(
            callee_model(f),
            exprs_model(xs@),
        ),
{
    if let ExprModel::Call(_, s) = expr_model(Expression::Call { function: f, args: xs }) {
        assert(s =~= exprs_model(xs@));
    }
}

pub proof fn lemma_block_model(ss: Vec<Statement>)
    ensures
        block_model(BlockStatement { statements: ss }) == stmts_model(ss@),
{
    assert(block_model(BlockStatement { statements: ss }) =~= stmts_model(ss@));
}

/// `i` is the first entry with key `k`.
pub open spec fn first_key(ps: Seq<(ExprModel, ExprModel)>, k: ExprModel, i: int) -> bool {
    &&& 0 <= i < ps.len()
    &&& ps[i].0 == k
    &&& forall|j: int| 0 <= j < i ==> (#[trigger] ps[j]).0 != k
}

/// `i` is where a new key `k` goes: before the first key greater than it.
pub open spec fn insert_position(ps: Seq<(ExprModel, ExprModel)>, k: ExprModel, i: int) -> bool {
    &&& 0 <= i <= ps.len()
    &&& i < ps.len() ==> expr_cmp(k, ps[i].0) < 0
    &&& forall|j: int| 0 <= j < i ==> expr_cmp(k, #[trigger] ps[j].0) >= 0
}

/// The entries after inserting `k` with `v`: where the key is present, its
/// value becomes `v`; otherwise the entry goes before the first greater
/// key, so that keys stay in ascending order.
pub open spec fn with_entry(ps: Seq<(ExprModel, ExprModel)>, k: ExprModel, v: ExprModel) -> Seq<
    (ExprModel, ExprModel),
> {
    if exists|i: int| first_key(ps, k, i) {
        let i = choose|i: int| first_key(ps, k, i);
        ps.update(i, (k, v))
    } else {
        let i = choose|i: int| insert_position(ps, k, i);
        ps.insert(i, (k, v))
    }
}

/// No key is less than a key before it.
pub open spec fn keys_ascending(ps: Seq<(ExprModel, ExprModel)>) -> bool {
    forall|a: int, b: int| 0 <= a < b < ps.len() ==> expr_cmp(#[trigger] ps[b].0, #[trigger] ps[a].0) >= 0
}

/// No key occurs twice.
pub open spec fn keys_distinct(ps: Seq<(ExprModel, ExprModel)>) -> bool {
    forall|a: int, b: int| 0 <= a < b < ps.len() ==> #[trigger] ps[a].0 != #[trigger] ps[b].0
}

fn params_eq(xs: &Vec<Identifier>, ys: &Vec<Identifier>) -> (r: bool)
    ensures
        r == (params_model(xs@) == params_model(ys@)),
{
    if xs.len() != ys.len() {
        assert(params_model(xs@).len() != params_model(ys@).len());
        return false;
    }
    let mut i: usize = 0;
    while i < xs.len()
        invariant
            i <= xs.len() == ys.len(),
            forall|j: int| 0 <= j < i ==> (#[trigger] xs@[j]).0@ == ys@[j].0@,
        decreases xs.len() - i,
    {
        if xs[i].0 != ys[i].0 {
            assert(params_model(xs@)[i as int] != params_model(ys@)[i as int]);
            return false;
        }
        i = i + 1;
    }
    assert(params_model(xs@) =~= params_model(ys@));
    true
}

fn exprs_eq(xs: &Vec<Expression>, ys: &Vec<Expression>) -> (r: bool)
    ensures
        r == (exprs_model(xs@) == exprs_model(ys@)),
    decreases xs,
{
    if xs.len() != ys.len() {
        assert(exprs_model(xs@).len() != exprs_model(ys@).len());
        return false;
    }
    let mut i: usize = 0;
    while i < xs.len()
        invariant
            i <= xs.len() == ys.len(),
            forall|j: int| 0 <= j < i ==> expr_model(#[trigger] xs@[j]) == expr_model(ys@[j]),
        decreases xs.len() - i,
    {
        if !expr_eq(&xs[i], &ys[i]) {
            assert(exprs_model(xs@)[i as int] != exprs_model(ys@)[i as int]);
            return false;
        }
        i = i + 1;
    }
    assert(exprs_model(xs@) =~= exprs_model(ys@));
    true
}

fn pairs_eq(xs: &Vec<(Expression, Expression)>, ys: &Vec<(Expression, Expression)>) -> (r: bool)
    ensures
        r == (pairs_model(xs@) == pairs_model(ys@)),
    decreases xs,
{
    if xs.len() != ys.len() {
        assert(pairs_model(xs@).len() != pairs_model(ys@).len());
        return false;
    }
    let mut i: usize = 0;
    while i < xs.len()
        invariant
            i <= xs.len() == ys.len(),
            forall|j: int|
                0 <= j < i ==> (pairs_model(xs@)[j] == #[trigger] pairs_model(ys@)[j]),
        decreases xs.len() - i,
    {
        let (k1, v1) = &xs[i];
        let (k2, v2) = &ys[i];
        if !expr_eq(k1, k2) || !expr_eq(v1, v2) {
            assert(pairs_model(xs@)[i as int] != pairs_model(ys@)[i as int]);
            return false;
        }
        assert(pairs_model(xs@)[i as int] == pairs_model(ys@)[i as int]);
        i = i + 1;
    }
    assert(pairs_model(xs@) =~= pairs_model(ys@));
    true
}

fn block_eq(a: &BlockStatement, b: &BlockStatement) -> (r: bool)
    ensures
        r == (block_model(*a) == block_model(*b)),
    decreases a,
{
    let xs = &a.statements;
    let ys = &b.statements;
    if xs.len() != ys.len() {
        assert(block_model(*a).len() != block_model(*b).len());
        return false;
    }
    let mut i: usize = 0;
    while i < xs.len()
        invariant
            xs == a.statements,
            ys == b.statements,
            i <= xs.len() == ys.len(),
            forall|j: int| 0 <= j < i ==> stmt_model(#[trigger] xs@[j]) == stmt_model(ys@[j]),
        decreases xs.len() - i,
    {
        if !statement_eq(&xs[i], &ys[i]) {
            assert(block_model(*a)[i as int] != block_model(*b)[i as int]);
            return false;
        }
        i = i + 1;
    }
    assert(block_model(*a) =~= block_model(*b));
    true
}

fn statement_eq(a: &Statement, b: &Statement) -> (r: bool)
    ensures
        r == (stmt_model(*a) == stmt_model(*b)),
    decreases a,
{
    match (a, b) {
        (
            Statement::Let { identifier: x, expression: e1 },
            Statement::Let { identifier: y, expression: e2 },
        ) => x.0 == y.0 && expr_eq(e1, e2),
        (Statement::Return(x), Statement::Return(y)) => expr_eq(x, y),
        (Statement::Expression(x), Statement::Expression(y)) => expr_eq(x, y),
        (Statement::Block(x), Statement::Block(y)) => block_eq(x, y),
        _ => false,
    }
}

fn callee_eq(a: &CallExpressionFunction, b: &CallExpressionFunction) -> (r: bool)
    ensures
        r == (callee_model(*a) == callee_model(*b)),
    decreases a,
{
    match (a, b) {
        (CallExpressionFunction::Identifier(x), CallExpressionFunction::Identifier(y)) => x.0
            == y.0,
        (CallExpressionFunction::Function(f), CallExpressionFunction::Function(g)) => params_eq(
            &f.params,
            &g.params,
        ) && block_eq(&f.body, &g.body),
        _ => false,
    }
}

/// Whether two expressions have the same model.
pub fn expr_eq(a: &Expression, b: &Expression) -> (r: bool)
    ensures
        r == (expr_model(*a) == expr_model(*b)),
    decreases a,
{
    match (a, b) {
        (Expression::Identifier(x), Expression::Identifier(y)) => x.0 == y.0,
        (Expression::Integer(x), Expression::Integer(y)) => *x == *y,
        (Expression::Boolean(x), Expression::Boolean(y)) => *x == *y,
        (Expression::String(x), Expression::String(y)) => *x == *y,
        (Expression::Array(xs), Expression::Array(ys)) => {
            proof {
                if let ExprModel::Array(s) = expr_model(*a) {
                    assert(s =~= exprs_model(xs@));
                }
                if let ExprModel::Array(s) = expr_model(*b) {
                    assert(s =~= exprs_model(ys@));
                }
            }
            exprs_eq(xs, ys)
        },
        (Expression::Hash(xs), Expression::Hash(ys)) => {
            proof {
                if let ExprModel::Hash(s) = expr_model(*a) {
                    assert(s =~= pairs_model(xs@));
                }
                if let ExprModel::Hash(s) = expr_model(*b) {
                    assert(s =~= pairs_model(ys@));
                }
            }
            pairs_eq(xs, ys)
        },
        (
            Expression::Prefix { operator: o1, right: r1 },
            Expression::Prefix { operator: o2, right: r2 },
        ) => *o1 == *o2 && expr_eq(r1, r2),
        (
            Expression::Infix { left: l1, operator: o1, right: r1 },
            Expression::Infix { left: l2, operator: o2, right: r2 },
        ) => *o1 == *o2 && expr_eq(l1, l2) && expr_eq(r1, r2),
        (
            Expression::If { condition: c1, consequence: t1, alternative: e1 },
            Expression::If { condition: c2, consequence: t2, alternative: e2 },
        ) => expr_eq(c1, c2) && block_eq(t1, t2) && match (e1, e2) {
            (Some(x), Some(y)) => block_eq(x, y),
            (None, None) => true,
            _ => false,
        },
        (Expression::Function(f), Expression::Function(g)) => params_eq(&f.params, &g.params)
            && block_eq(&f.body, &g.body),
        (Expression::Call { function: f1, args: a1 }, Expression::Call { function: f2, args: a2 }) => {
            proof {
                if let ExprModel::Call(_, s) = expr_model(*a) {
                    assert(s =~= exprs_model(a1@));
                }
                if let ExprModel::Call(_, s) = expr_model(*b) {
                    assert(s =~= exprs_model(a2@));
                }
            }
            callee_eq(f1, f2) && exprs_eq(a1, a2)
        },
        (Expression::Index { left: l1, index: i1 }, Expression::Index { left: l2, index: i2 }) =>
            expr_eq(l1, l2) && expr_eq(i1, i2),
        (Expression::Quote(x), Expression::Quote(y)) => expr_eq(x, y),
        (Expression::Unquote(x), Expression::Unquote(y)) => expr_eq(x, y),
        (Expression::Macro(f), Expression::Macro(g)) => params_eq(&f.params, &g.params) && block_eq(
            &f.body,
            &g.body,
        ),
        _ => false,
    }
}

/// Inserts `k` with `v` into the entries of a hash literal, as `with_entry`
/// says; the key already present stays.
pub fn insert_entry(ps: &mut Vec<(Expression, Expression)>, k: Expression, v: Expression)
    ensures
        pairs_model(final(ps)@) == with_entry(pairs_model(old(ps)@), expr_model(k), expr_model(v)),
{
    let ghost m = pairs_model(ps@);
    let mut i: usize = 0;
    while i < ps.len()
        invariant
            ps@ == old(ps)@,
            m == pairs_model(ps@),
            i <= ps.len(),
            forall|j: int| 0 <= j < i ==> (#[trigger] m[j]).0 != expr_model(k),
        decreases ps.len() - i,
    {
        if expr_eq(&ps[i].0, &k) {
            let (key, _) = ps.remove(i);
            ps.insert(i, (key, v));
            proof {
                assert(first_key(m, expr_model(k), i as int));
                assert(pairs_model(ps@) =~= with_entry(m, expr_model(k), expr_model(v)));
            }
            return;
        }
        i = i + 1;
    }
    let mut j: usize = 0;
    while j < ps.len() && expr_compare(&k, &ps[j].0) >= 0
        invariant
            ps@ == old(ps)@,
            m == pairs_model(ps@),
            j <= ps.len(),
            forall|l: int| 0 <= l < j ==> expr_cmp(expr_model(k), (#[trigger] m[l]).0) >= 0,
        decreases ps.len() - j,
    {
        j = j + 1;
    }
    proof {
        assert(!(exists|i: int| first_key(m, expr_model(k), i)));
        assert(insert_position(m, expr_model(k), j as int));
        let c = choose|i: int| insert_position(m, expr_model(k), i);
        assert(c == j as int);
    }
    ps.insert(j, (k, v));
    proof {
        assert(pairs_model(ps@) =~= with_entry(m, expr_model(k), expr_model(v)));
    }
}

} // verus!
