//! The order on expressions that hash literals keep their keys in:
//! variants in the order of their declaration, then their fields from first
//! to last, sequences and texts compared element by element with a shorter
//! prefix first. This is the scheme that `derive(Ord)` follows; nothing
//! here proves that the two agree.
use vstd::prelude::*;
use crate::ast::{
    BlockStatement, CallExpressionFunction, Expression, Identifier, InfixOperator, PrefixOperator,
    Statement,
};
use crate::model::{
    CalleeModel, ExprModel, StmtModel, block_model, callee_model, expr_model, exprs_model,
    lemma_array_model, lemma_call_model, lemma_hash_model, pairs_model, params_model, stmt_model,
};

verus! {

broadcast use vstd::std_specs::vec::group_vec_axioms, vstd::seq::group_seq_axioms;

/// -1, 0 or 1 as `a` is less than, equal to or greater than `b`.
pub open spec fn sign(a: int, b: int) -> int {
    if a < b {
        -1
    } else if a > b {
        1
    } else {
        0
    }
}

/// Texts compared character by character from position `i` on.
pub open spec fn chars_cmp_from(a: Seq<char>, b: Seq<char>, i: int) -> int
    decreases a.len() - i,
{
    if i < 0 || i >= a.len() || i >= b.len() {
        sign(a.len() as int, b.len() as int)
    } else if a[i] != b[i] {
        sign(a[i] as int, b[i] as int)
    } else {
        chars_cmp_from(a, b, i + 1)
    }
}

pub open spec fn chars_cmp(a: Seq<char>, b: Seq<char>) -> int {
    chars_cmp_from(a, b, 0)
}

pub open spec fn names_cmp_from(a: Seq<Seq<char>>, b: Seq<Seq<char>>, i: int) -> int
    decreases a.len() - i,
{
    if i < 0 || i >= a.len() || i >= b.len() {
        sign(a.len() as int, b.len() as int)
    } else if chars_cmp(a[i], b[i]) != 0 {
        chars_cmp(a[i], b[i])
    } else {
        names_cmp_from(a, b, i + 1)
    }
}

pub open spec fn expr_rank(m: ExprModel) -> int {
    match m {
        ExprModel::Identifier(_) => 0,
        ExprModel::Integer(_) => 1,
        ExprModel::Boolean(_) => 2,
        ExprModel::Str(_) => 3,
        ExprModel::Array(_) => 4,
        ExprModel::Hash(_) => 5,
        ExprModel::Prefix(..) => 6,
        ExprModel::Infix(..) => 7,
        ExprModel::If(..) => 8,
        ExprModel::Function(..) => 9,
        ExprModel::Call(..) => 10,
        ExprModel::Index(..) => 11,
        ExprModel::Quote(_) => 12,
        ExprModel::Unquote(_) => 13,
        ExprModel::Macro(..) => 14,
    }
}

pub open spec fn stmt_rank(m: StmtModel) -> int {
    match m {
        StmtModel::Let(..) => 0,
        StmtModel::Return(_) => 1,
        StmtModel::Expression(_) => 2,
        StmtModel::Block(_) => 3,
    }
}

pub open spec fn prefix_rank(o: PrefixOperator) -> int {
    match o {
        PrefixOperator::Bang => 0,
        PrefixOperator::Minus => 1,
    }
}

pub open spec fn infix_rank(o: InfixOperator) -> int {
    match o {
        InfixOperator::Add => 0,
        InfixOperator::Sub => 1,
        InfixOperator::Mul => 2,
        InfixOperator::Div => 3,
        InfixOperator::LT => 4,
        InfixOperator::GT => 5,
        InfixOperator::Eq => 6,
        InfixOperator::NotEq => 7,
    }
}

/// `first` unless it is 0, then `second`.
pub open spec fn then(first: int, second: int) -> int {
    if first != 0 {
        first
    } else {
        second
    }
}

pub open spec fn expr_cmp(a: ExprModel, b: ExprModel) -> int
    decreases a, 0int,
{
    if expr_rank(a) != expr_rank(b) {
        sign(expr_rank(a), expr_rank(b))
    } else {
        match (a, b) {
            (ExprModel::Identifier(x), ExprModel::Identifier(y)) => chars_cmp(x, y),
            (ExprModel::Integer(x), ExprModel::Integer(y)) => sign(x as int, y as int),
            (ExprModel::Boolean(x), ExprModel::Boolean(y)) => sign(
                if x {
                    1
                } else {
                    0
                },
                if y {
                    1
                } else {
                    0
                },
            ),
            (ExprModel::Str(x), ExprModel::Str(y)) => chars_cmp(x, y),
            (ExprModel::Array(xs), ExprModel::Array(ys)) => exprs_cmp_from(xs, ys, 0),
            (ExprModel::Hash(xs), ExprModel::Hash(ys)) => pairs_cmp_from(xs, ys, 0),
            (ExprModel::Prefix(o1, r1), ExprModel::Prefix(o2, r2)) => then(
                sign(prefix_rank(o1), prefix_rank(o2)),
                expr_cmp(*r1, *r2),
            ),
            (ExprModel::Infix(l1, o1, r1), ExprModel::Infix(l2, o2, r2)) => then(
                expr_cmp(*l1, *l2),
                then(sign(infix_rank(o1), infix_rank(o2)), expr_cmp(*r1, *r2)),
            ),
            (ExprModel::If(c1, t1, e1), ExprModel::If(c2, t2, e2)) => then(
                expr_cmp(*c1, *c2),
                then(
                    stmts_cmp_from(t1, t2, 0),
                    match (e1, e2) {
                        (Some(x), Some(y)) => stmts_cmp_from(x, y, 0),
                        (None, None) => 0,
                        (None, Some(_)) => -1,
                        (Some(_), None) => 1,
                    },
                ),
            ),
            (ExprModel::Function(p1, b1), ExprModel::Function(p2, b2)) => then(
                names_cmp_from(p1, p2, 0),
                stmts_cmp_from(b1, b2, 0),
            ),
            (ExprModel::Call(f1, a1), ExprModel::Call(f2, a2)) => then(
                callee_cmp(f1, f2),
                exprs_cmp_from(a1, a2, 0),
            ),
            (ExprModel::Index(l1, i1), ExprModel::Index(l2, i2)) => then(
                expr_cmp(*l1, *l2),
                expr_cmp(*i1, *i2),
            ),
            (ExprModel::Quote(x), ExprModel::Quote(y)) => expr_cmp(*x, *y),
            (ExprModel::Unquote(x), ExprModel::Unquote(y)) => expr_cmp(*x, *y),
            (ExprModel::Macro(p1, b1), ExprModel::Macro(p2, b2)) => then(
                names_cmp_from(p1, p2, 0),
                stmts_cmp_from(b1, b2, 0),
            ),
            _ => 0,
        }
    }
}

pub open spec fn callee_cmp(a: CalleeModel, b: CalleeModel) -> int
    decreases a, 0int,
{
    match (a, b) {
        (CalleeModel::Identifier(x), CalleeModel::Identifier(y)) => chars_cmp(x, y),
        (CalleeModel::Identifier(_), CalleeModel::Function(..)) => -1,
        (CalleeModel::Function(..), CalleeModel::Identifier(_)) => 1,
        (CalleeModel::Function(p1, b1), CalleeModel::Function(p2, b2)) => then(
            names_cmp_from(p1, p2, 0),
            stmts_cmp_from(b1, b2, 0),
        ),
    }
}

pub open spec fn stmt_cmp(a: StmtModel, b: StmtModel) -> int
    decreases a, 0int,
{
    if stmt_rank(a) != stmt_rank(b) {
        sign(stmt_rank(a), stmt_rank(b))
    } else {
        match (a, b) {
            (StmtModel::Let(x, e1), StmtModel::Let(y, e2)) => then(chars_cmp(x, y), expr_cmp(e1, e2)),
            (StmtModel::Return(x), StmtModel::Return(y)) => expr_cmp(x, y),
            (StmtModel::Expression(x), StmtModel::Expression(y)) => expr_cmp(x, y),
            (StmtModel::Block(x), StmtModel::Block(y)) => stmts_cmp_from(x, y, 0),
            _ => 0,
        }
    }
}

pub open spec fn exprs_cmp_from(a: Seq<ExprModel>, b: Seq<ExprModel>, i: int) -> int
    decreases a, a.len() - i,
{
    if i < 0 || i >= a.len() || i >= b.len() {
        sign(a.len() as int, b.len() as int)
    } else if expr_cmp(a[i], b[i]) != 0 {
        expr_cmp(a[i], b[i])
    } else {
        exprs_cmp_from(a, b, i + 1)
    }
}

pub open spec fn pairs_cmp_from(
    a: Seq<(ExprModel, ExprModel)>,
    b: Seq<(ExprModel, ExprModel)>,
    i: int,
) -> int
    decreases a, a.len() - i,
{
    if i < 0 || i >= a.len() || i >= b.len() {
        sign(a.len() as int, b.len() as int)
    } else if then(expr_cmp(a[i].0, b[i].0), expr_cmp(a[i].1, b[i].1)) != 0 {
        then(expr_cmp(a[i].0, b[i].0), expr_cmp(a[i].1, b[i].1))
    } else {
        pairs_cmp_from(a, b, i + 1)
    }
}

pub open spec fn stmts_cmp_from(a: Seq<StmtModel>, b: Seq<StmtModel>, i: int) -> int
    decreases a, a.len() - i,
{
    if i < 0 || i >= a.len() || i >= b.len() {
        sign(a.len() as int, b.len() as int)
    } else if stmt_cmp(a[i], b[i]) != 0 {
        stmt_cmp(a[i], b[i])
    } else {
        stmts_cmp_from(a, b, i + 1)
    }
}

fn sign_of(a: u64, b: u64) -> (r: i8)
    ensures
        r as int == sign(a as int, b as int),
{
    if a < b {
        -1
    } else if a > b {
        1
    } else {
        0
    }
}

/// Compares two texts, as `chars_cmp` says.
pub fn text_cmp(a: &String, b: &String) -> (r: i8)
    ensures
        r as int == chars_cmp(a@, b@),
{
    let sa = a.as_str();
    let sb = b.as_str();
    let la = sa.unicode_len();
    let lb = sb.unicode_len();
    let mut i: usize = 0;
    while i < la && i < lb
        invariant
            la == a@.len(),
            lb == b@.len(),
            sa@ == a@,
            sb@ == b@,
            i <= la,
            i <= lb,
            chars_cmp_from(a@, b@, 0) == chars_cmp_from(a@, b@, i as int),
        decreases la - i,
    {
        let ca = sa.get_char(i);
        let cb = sb.get_char(i);
        if ca != cb {
            return sign_of(ca as u64, cb as u64);
        }
        i = i + 1;
    }
    sign_of(la as u64, lb as u64)
}

fn names_cmp(xs: &Vec<Identifier>, ys: &Vec<Identifier>) -> (r: i8)
    ensures
        r as int == names_cmp_from(params_model(xs@), params_model(ys@), 0),
{
    let ghost a = params_model(xs@);
    let ghost b = params_model(ys@);
    let mut i: usize = 0;
    while i < xs.len() && i < ys.len()
        invariant
            a == params_model(xs@),
            b == params_model(ys@),
            i <= xs.len(),
            i <= ys.len(),
            names_cmp_from(a, b, 0) == names_cmp_from(a, b, i as int),
        decreases xs.len() - i,
    {
        let c = text_cmp(&xs[i].0, &ys[i].0);
        if c != 0 {
            return c;
        }
        i = i + 1;
    }
    sign_of(xs.len() as u64, ys.len() as u64)
}

fn exprs_cmp(xs: &Vec<Expression>, ys: &Vec<Expression>) -> (r: i8)
    ensures
        r as int == exprs_cmp_from(exprs_model(xs@), exprs_model(ys@), 0),
    decreases xs,
{
    let ghost a = exprs_model(xs@);
    let ghost b = exprs_model(ys@);
    let mut i: usize = 0;
    while i < xs.len() && i < ys.len()
        invariant
            a == exprs_model(xs@),
            b == exprs_model(ys@),
            i <= xs.len(),
            i <= ys.len(),
            exprs_cmp_from(a, b, 0) == exprs_cmp_from(a, b, i as int),
        decreases xs.len() - i,
    {
        let c = expr_compare(&xs[i], &ys[i]);
        if c != 0 {
            return c;
        }
        i = i + 1;
    }
    sign_of(xs.len() as u64, ys.len() as u64)
}

fn pairs_cmp(xs: &Vec<(Expression, Expression)>, ys: &Vec<(Expression, Expression)>) -> (r: i8)
    ensures
        r as int == pairs_cmp_from(pairs_model(xs@), pairs_model(ys@), 0),
    decreases xs,
{
    let ghost a = pairs_model(xs@);
    let ghost b = pairs_model(ys@);
    let mut i: usize = 0;
    while i < xs.len() && i < ys.len()
        invariant
            a == pairs_model(xs@),
            b == pairs_model(ys@),
            i <= xs.len(),
            i <= ys.len(),
            pairs_cmp_from(a, b, 0) == pairs_cmp_from(a, b, i as int),
        decreases xs.len() - i,
    {
        let (k1, v1) = &xs[i];
        let (k2, v2) = &ys[i];
        let c = expr_compare(k1, k2);
        if c != 0 {
            return c;
        }
        let d = expr_compare(v1, v2);
        if d != 0 {
            return d;
        }
        i = i + 1;
    }
    sign_of(xs.len() as u64, ys.len() as u64)
}

fn block_cmp(x: &BlockStatement, y: &BlockStatement) -> (r: i8)
    ensures
        r as int == stmts_cmp_from(block_model(*x), block_model(*y), 0),
    decreases x,
{
    let xs = &x.statements;
    let ys = &y.statements;
    let ghost a = block_model(*x);
    let ghost b = block_model(*y);
    let mut i: usize = 0;
    while i < xs.len() && i < ys.len()
        invariant
            xs == x.statements,
            ys == y.statements,
            a == block_model(*x),
            b == block_model(*y),
            i <= xs.len(),
            i <= ys.len(),
            stmts_cmp_from(a, b, 0) == stmts_cmp_from(a, b, i as int),
        decreases xs.len() - i,
    {
        let c = stmt_compare(&xs[i], &ys[i]);
        if c != 0 {
            return c;
        }
        i = i + 1;
    }
    sign_of(xs.len() as u64, ys.len() as u64)
}

fn stmt_compare(a: &Statement, b: &Statement) -> (r: i8)
    ensures
        r as int == stmt_cmp(stmt_model(*a), stmt_model(*b)),
    decreases a,
{
    match (a, b) {
        (
            Statement::Let { identifier: x, expression: e1 },
            Statement::Let { identifier: y, expression: e2 },
        ) => {
            let c = text_cmp(&x.0, &y.0);
            if c != 0 {
                c
            } else {
                expr_compare(e1, e2)
            }
        },
        (Statement::Return(x), Statement::Return(y)) => expr_compare(x, y),
        (Statement::Expression(x), Statement::Expression(y)) => expr_compare(x, y),
        (Statement::Block(x), Statement::Block(y)) => block_cmp(x, y),
        _ => sign_of(stmt_variant(a), stmt_variant(b)),
    }
}

fn stmt_variant(s: &Statement) -> (r: u64)
    ensures
        r as int == stmt_rank(stmt_model(*s)),
{
    match s {
        Statement::Let { .. } => 0,
        Statement::Return(_) => 1,
        Statement::Expression(_) => 2,
        Statement::Block(_) => 3,
    }
}

fn callee_compare(a: &CallExpressionFunction, b: &CallExpressionFunction) -> (r: i8)
    ensures
        r as int == callee_cmp(callee_model(*a), callee_model(*b)),
    decreases a,
{
    match (a, b) {
        (CallExpressionFunction::Identifier(x), CallExpressionFunction::Identifier(y)) => text_cmp(
            &x.0,
            &y.0,
        ),
        (CallExpressionFunction::Identifier(_), CallExpressionFunction::Function(_)) => -1,
        (CallExpressionFunction::Function(_), CallExpressionFunction::Identifier(_)) => 1,
        (CallExpressionFunction::Function(f), CallExpressionFunction::Function(g)) => {
            let c = names_cmp(&f.params, &g.params);
            if c != 0 {
                c
            } else {
                block_cmp(&f.body, &g.body)
            }
        },
    }
}

fn expr_variant(e: &Expression) -> (r: u64)
    ensures
        r as int == expr_rank(expr_model(*e)),
{
    match e {
        Expression::Identifier(_) => 0,
        Expression::Integer(_) => 1,
        Expression::Boolean(_) => 2,
        Expression::String(_) => 3,
        Expression::Array(_) => 4,
        Expression::Hash(_) => 5,
        Expression::Prefix { .. } => 6,
        Expression::Infix { .. } => 7,
        Expression::If { .. } => 8,
        Expression::Function(_) => 9,
        Expression::Call { .. } => 10,
        Expression::Index { .. } => 11,
        Expression::Quote(_) => 12,
        Expression::Unquote(_) => 13,
        Expression::Macro(_) => 14,
    }
}

fn prefix_variant(o: PrefixOperator) -> (r: u64)
    ensures
        r as int == prefix_rank(o),
{
    match o {
        PrefixOperator::Bang => 0,
        PrefixOperator::Minus => 1,
    }
}

fn infix_variant(o: InfixOperator) -> (r: u64)
    ensures
        r as int == infix_rank(o),
{
    match o {
        InfixOperator::Add => 0,
        InfixOperator::Sub => 1,
        InfixOperator::Mul => 2,
        InfixOperator::Div => 3,
        InfixOperator::LT => 4,
        InfixOperator::GT => 5,
        InfixOperator::Eq => 6,
        InfixOperator::NotEq => 7,
    }
}

/// Compares two expressions in the order `expr_cmp` gives: -1, 0 or 1.
pub fn expr_compare(a: &Expression, b: &Expression) -> (r: i8)
    ensures
        r as int == expr_cmp(expr_model(*a), expr_model(*b)),
    decreases a,
{
    let ra = expr_variant(a);
    let rb = expr_variant(b);
    if ra != rb {
        return sign_of(ra, rb);
    }
    match (a, b) {
        (Expression::Identifier(x), Expression::Identifier(y)) => text_cmp(&x.0, &y.0),
        (Expression::Integer(x), Expression::Integer(y)) => if *x < *y {
            -1
        } else if *x > *y {
            1
        } else {
            0
        },
        (Expression::Boolean(x), Expression::Boolean(y)) => if *x == *y {
            0
        } else if *y {
            -1
        } else {
            1
        },
        (Expression::String(x), Expression::String(y)) => text_cmp(x, y),
        (Expression::Array(xs), Expression::Array(ys)) => {
            proof {
                lemma_array_model(*xs);
                lemma_array_model(*ys);
            }
            exprs_cmp(xs, ys)
        },
        (Expression::Hash(xs), Expression::Hash(ys)) => {
            proof {
                lemma_hash_model(*xs);
                lemma_hash_model(*ys);
            }
            pairs_cmp(xs, ys)
        },
        (
            Expression::Prefix { operator: o1, right: r1 },
            Expression::Prefix { operator: o2, right: r2 },
        ) => {
            let c = sign_of(prefix_variant(*o1), prefix_variant(*o2));
            if c != 0 {
                c
            } else {
                expr_compare(r1, r2)
            }
        },
        (
            Expression::Infix { left: l1, operator: o1, right: r1 },
            Expression::Infix { left: l2, operator: o2, right: r2 },
        ) => {
            let c = expr_compare(l1, l2);
            if c != 0 {
                return c;
            }
            let d = sign_of(infix_variant(*o1), infix_variant(*o2));
            if d != 0 {
                return d;
            }
            expr_compare(r1, r2)
        },
        (
            Expression::If { condition: c1, consequence: t1, alternative: e1 },
            Expression::If { condition: c2, consequence: t2, alternative: e2 },
        ) => {
            let c = expr_compare(c1, c2);
            if c != 0 {
                return c;
            }
            let d = block_cmp(t1, t2);
            if d != 0 {
                return d;
            }
            match (e1, e2) {
                (Some(x), Some(y)) => block_cmp(x, y),
                (None, None) => 0,
                (None, Some(_)) => -1,
                (Some(_), None) => 1,
            }
        },
        (Expression::Function(f), Expression::Function(g)) => {
            let c = names_cmp(&f.params, &g.params);
            if c != 0 {
                c
            } else {
                block_cmp(&f.body, &g.body)
            }
        },
        (Expression::Call { function: f1, args: a1 }, Expression::Call { function: f2, args: a2 }) => {
            proof {
                lemma_call_model(*f1, *a1);
                lemma_call_model(*f2, *a2);
            }
            let c = callee_compare(f1, f2);
            if c != 0 {
                c
            } else {
                exprs_cmp(a1, a2)
            }
        },
        (Expression::Index { left: l1, index: i1 }, Expression::Index { left: l2, index: i2 }) => {
            let c = expr_compare(l1, l2);
            if c != 0 {
                c
            } else {
                expr_compare(i1, i2)
            }
        },
        (Expression::Quote(x), Expression::Quote(y)) => expr_compare(x, y),
        (Expression::Unquote(x), Expression::Unquote(y)) => expr_compare(x, y),
        (Expression::Macro(f), Expression::Macro(g)) => {
            let c = names_cmp(&f.params, &g.params);
            if c != 0 {
                c
            } else {
                block_cmp(&f.body, &g.body)
            }
        },
        _ => 0,
    }
}

} // verus!
