//! Expressions written out field by field, in the form `Debug` gives them,
//! for messages that must show a whole expression.
use vstd::prelude::*;
use crate::ast::{
    BlockStatement, CallExpressionFunction, Expression, Identifier, InfixOperator, PrefixOperator,
    Statement,
};
use crate::model::{
    CalleeModel, ExprModel, StmtModel, block_model, callee_model, expr_model, exprs_model,
    lemma_array_model, lemma_call_model, lemma_hash_model, pairs_model, params_model, stmt_model,
};
use crate::render::{int_string, int_text};
use crate::token::{push_quoted, quoted};

verus! {

broadcast use vstd::std_specs::vec::group_vec_axioms, vstd::seq::group_seq_axioms;

pub open spec fn name_debug(s: Seq<char>) -> Seq<char> {
    "Identifier("@ + quoted(s) + ")"@
}

pub open spec fn names_debug(ns: Seq<Seq<char>>) -> Seq<char>
    decreases ns.len(),
{
    if ns.len() == 0 {
        Seq::empty()
    } else if ns.len() == 1 {
        name_debug(ns[0])
    } else {
        names_debug(ns.drop_last()) + ", "@ + name_debug(ns.last())
    }
}

pub open spec fn prefix_debug(o: PrefixOperator) -> Seq<char> {
    match o {
        PrefixOperator::Bang => "Bang"@,
        PrefixOperator::Minus => "Minus"@,
    }
}

pub open spec fn infix_debug(o: InfixOperator) -> Seq<char> {
    match o {
        InfixOperator::Add => "Add"@,
        InfixOperator::Sub => "Sub"@,
        InfixOperator::Mul => "Mul"@,
        InfixOperator::Div => "Div"@,
        InfixOperator::LT => "LT"@,
        InfixOperator::GT => "GT"@,
        InfixOperator::Eq => "Eq"@,
        InfixOperator::NotEq => "NotEq"@,
    }
}

/// A function or macro literal: its type name, parameters and body.
pub open spec fn literal_debug(name: Seq<char>, ps: Seq<Seq<char>>, b: Seq<StmtModel>) -> Seq<
    char,
>
    decreases b, 2int,
{
    name + " { params: ["@ + names_debug(ps) + "], body: "@ + block_debug(b) + " }"@
}

pub open spec fn block_debug(b: Seq<StmtModel>) -> Seq<char>
    decreases b, 1int,
{
    "BlockStatement { statements: ["@ + stmts_debug(b) + "] }"@
}

pub open spec fn stmts_debug(ss: Seq<StmtModel>) -> Seq<char>
    decreases ss, 0int,
{
    if ss.len() == 0 {
        Seq::empty()
    } else if ss.len() == 1 {
        stmt_debug(ss[0])
    } else {
        stmts_debug(ss.drop_last()) + ", "@ + stmt_debug(ss.last())
    }
}

pub open spec fn stmt_debug(s: StmtModel) -> Seq<char>
    decreases s, 2int,
{
    match s {
        StmtModel::Let(n, e) => "Let { identifier: "@ + name_debug(n) + ", expression: "@
            + expr_debug(e) + " }"@,
        StmtModel::Return(e) => "Return("@ + expr_debug(e) + ")"@,
        StmtModel::Expression(e) => "Expression("@ + expr_debug(e) + ")"@,
        StmtModel::Block(b) => "Block("@ + block_debug(b) + ")"@,
    }
}

pub open spec fn exprs_debug(xs: Seq<ExprModel>) -> Seq<char>
    decreases xs, 0int,
{
    if xs.len() == 0 {
        Seq::empty()
    } else if xs.len() == 1 {
        expr_debug(xs[0])
    } else {
        exprs_debug(xs.drop_last()) + ", "@ + expr_debug(xs.last())
    }
}

pub open spec fn pair_debug(p: (ExprModel, ExprModel)) -> Seq<char>
    decreases p, 1int,
{
    "("@ + expr_debug(p.0) + ", "@ + expr_debug(p.1) + ")"@
}

pub open spec fn pairs_debug(ps: Seq<(ExprModel, ExprModel)>) -> Seq<char>
    decreases ps, 0int,
{
    if ps.len() == 0 {
        Seq::empty()
    } else if ps.len() == 1 {
        pair_debug(ps[0])
    } else {
        pairs_debug(ps.drop_last()) + ", "@ + pair_debug(ps.last())
    }
}

pub open spec fn callee_debug(c: CalleeModel) -> Seq<char>
    decreases c, 2int,
{
    match c {
        CalleeModel::Identifier(n) => "Identifier("@ + name_debug(n) + ")"@,
        CalleeModel::Function(ps, b) => "Function("@ + literal_debug(
            "FunctionExpression"@,
            ps,
            b,
        ) + ")"@,
    }
}

/// An expression written out as `Debug` writes it: variant and field
/// names, texts quoted and escaped.
pub open spec fn expr_debug(m: ExprModel) -> Seq<char>
    decreases m, 2int,
{
    match m {
        ExprModel::Identifier(n) => "Identifier("@ + name_debug(n) + ")"@,
        ExprModel::Integer(n) => "Integer("@ + int_text(n as int) + ")"@,
        ExprModel::Boolean(b) => if b {
            "Boolean(true)"@
        } else {
            "Boolean(false)"@
        },
        ExprModel::Str(s) => "String("@ + quoted(s) + ")"@,
        ExprModel::Array(xs) => "Array(["@ + exprs_debug(xs) + "])"@,
        ExprModel::Hash(ps) => "Hash(["@ + pairs_debug(ps) + "])"@,
        ExprModel::Prefix(o, r) => "Prefix { operator: "@ + prefix_debug(o) + ", right: "@
            + expr_debug(*r) + " }"@,
        ExprModel::Infix(l, o, r) => "Infix { left: "@ + expr_debug(*l) + ", operator: "@
            + infix_debug(o) + ", right: "@ + expr_debug(*r) + " }"@,
        ExprModel::If(c, t, e) => "If { condition: "@ + expr_debug(*c) + ", consequence: "@
            + block_debug(t) + ", alternative: "@ + match e {
            Some(b) => "Some("@ + block_debug(b) + ")"@,
            None => "None"@,
        } + " }"@,
        ExprModel::Function(ps, b) => "Function("@ + literal_debug("FunctionExpression"@, ps, b)
            + ")"@,
        ExprModel::Call(f, args) => "Call { function: "@ + callee_debug(f) + ", args: ["@
            + exprs_debug(args) + "] }"@,
        ExprModel::Index(l, i) => "Index { left: "@ + expr_debug(*l) + ", index: "@ + expr_debug(
            *i,
        ) + " }"@,
        ExprModel::Quote(x) => "Quote("@ + expr_debug(*x) + ")"@,
        ExprModel::Unquote(x) => "Unquote("@ + expr_debug(*x) + ")"@,
        ExprModel::Macro(ps, b) => "Macro("@ + literal_debug("MacroExpression"@, ps, b) + ")"@,
    }
}

fn name_string(r: &mut String, id: &Identifier)
    ensures
        final(r)@ == old(r)@ + name_debug(id.0@),
{
    r.append("Identifier(");
    push_quoted(r, id.0.as_str());
    r.append(")");
}

fn names_string(r: &mut String, ps: &Vec<Identifier>)
    ensures
        final(r)@ == old(r)@ + names_debug(params_model(ps@)),
{
    let ghost start = r@;
    let ghost m = params_model(ps@);
    let mut i: usize = 0;
    while i < ps.len()
        invariant
            m == params_model(ps@),
            i <= ps.len(),
            r@ == start + names_debug(m.subrange(0, i as int)),
        decreases ps.len() - i,
    {
        assert(m.subrange(0, i as int + 1).drop_last() =~= m.subrange(0, i as int));
        if i > 0 {
            r.append(", ");
        }
        name_string(r, &ps[i]);
        i = i + 1;
    }
    assert(m.subrange(0, i as int) =~= m);
}

fn literal_string(r: &mut String, name: &str, ps: &Vec<Identifier>, b: &BlockStatement)
    ensures
        final(r)@ == old(r)@ + literal_debug(name@, params_model(ps@), block_model(*b)),
    decreases b, 2int,
{
    r.append(name);
    r.append(" { params: [");
    names_string(r, ps);
    r.append("], body: ");
    block_string(r, b);
    r.append(" }");
}

fn block_string(r: &mut String, b: &BlockStatement)
    ensures
        final(r)@ == old(r)@ + block_debug(block_model(*b)),
    decreases b, 1int,
{
    r.append("BlockStatement { statements: [");
    let ghost start = r@;
    let ghost m = block_model(*b);
    let ss = &b.statements;
    let mut i: usize = 0;
    while i < ss.len()
        invariant
            ss == b.statements,
            m == block_model(*b),
            i <= ss.len(),
            r@ == start + stmts_debug(m.subrange(0, i as int)),
        decreases ss.len() - i,
    {
        assert(m.subrange(0, i as int + 1).drop_last() =~= m.subrange(0, i as int));
        if i > 0 {
            r.append(", ");
        }
        stmt_string(r, &ss[i]);
        i = i + 1;
    }
    assert(m.subrange(0, i as int) =~= m);
    r.append("] }");
}

fn stmt_string(r: &mut String, s: &Statement)
    ensures
        final(r)@ == old(r)@ + stmt_debug(stmt_model(*s)),
    decreases s, 3int,
{
    match s {
        Statement::Let { identifier, expression } => {
            r.append("Let { identifier: ");
            name_string(r, identifier);
            r.append(", expression: ");
            expr_string(r, expression);
            r.append(" }");
        },
        Statement::Return(e) => {
            r.append("Return(");
            expr_string(r, e);
            r.append(")");
        },
        Statement::Expression(e) => {
            r.append("Expression(");
            expr_string(r, e);
            r.append(")");
        },
        Statement::Block(b) => {
            r.append("Block(");
            block_string(r, b);
            r.append(")");
        },
    }
}

fn exprs_string(r: &mut String, xs: &Vec<Expression>)
    ensures
        final(r)@ == old(r)@ + exprs_debug(exprs_model(xs@)),
    decreases xs, 0int,
{
    let ghost start = r@;
    let ghost m = exprs_model(xs@);
    let mut i: usize = 0;
    while i < xs.len()
        invariant
            m == exprs_model(xs@),
            i <= xs.len(),
            r@ == start + exprs_debug(m.subrange(0, i as int)),
        decreases xs.len() - i,
    {
        assert(m.subrange(0, i as int + 1).drop_last() =~= m.subrange(0, i as int));
        if i > 0 {
            r.append(", ");
        }
        expr_string(r, &xs[i]);
        i = i + 1;
    }
    assert(m.subrange(0, i as int) =~= m);
}

fn pairs_string(r: &mut String, ps: &Vec<(Expression, Expression)>)
    ensures
        final(r)@ == old(r)@ + pairs_debug(pairs_model(ps@)),
    decreases ps, 0int,
{
    let ghost start = r@;
    let ghost m = pairs_model(ps@);
    let mut i: usize = 0;
    while i < ps.len()
        invariant
            m == pairs_model(ps@),
            i <= ps.len(),
            r@ == start + pairs_debug(m.subrange(0, i as int)),
        decreases ps.len() - i,
    {
        assert(m.subrange(0, i as int + 1).drop_last() =~= m.subrange(0, i as int));
        if i > 0 {
            r.append(", ");
        }
        let ghost before = r@;
        let (k, v) = &ps[i];
        assert(m[i as int] == (expr_model(*k), expr_model(*v)));
        let mut one = String::from_str("(");
        expr_string(&mut one, k);
        one.append(", ");
        expr_string(&mut one, v);
        one.append(")");
        assert(one@ =~= pair_debug(m[i as int]));
        r.append(one.as_str());
        assert(r@ =~= before + pair_debug(m[i as int]));
        i = i + 1;
    }
    assert(m.subrange(0, i as int) =~= m);
}

fn callee_string(r: &mut String, c: &CallExpressionFunction)
    ensures
        final(r)@ == old(r)@ + callee_debug(callee_model(*c)),
    decreases c, 3int,
{
    match c {
        CallExpressionFunction::Identifier(id) => {
            r.append("Identifier(");
            name_string(r, id);
            r.append(")");
        },
        CallExpressionFunction::Function(f) => {
            r.append("Function(");
            literal_string(r, "FunctionExpression", &f.params, &f.body);
            r.append(")");
        },
    }
}

fn prefix_str(o: PrefixOperator) -> (r: &'static str)
    ensures
        r@ == prefix_debug(o),
{
    match o {
        PrefixOperator::Bang => "Bang",
        PrefixOperator::Minus => "Minus",
    }
}

fn infix_str(o: InfixOperator) -> (r: &'static str)
    ensures
        r@ == infix_debug(o),
{
    match o {
        InfixOperator::Add => "Add",
        InfixOperator::Sub => "Sub",
        InfixOperator::Mul => "Mul",
        InfixOperator::Div => "Div",
        InfixOperator::LT => "LT",
        InfixOperator::GT => "GT",
        InfixOperator::Eq => "Eq",
        InfixOperator::NotEq => "NotEq",
    }
}

#[verifier::spinoff_prover]
#[verifier::rlimit(100)]
fn expr_string(r: &mut String, e: &Expression)
    ensures
        final(r)@ == old(r)@ + expr_debug(expr_model(*e)),
    decreases e, 3int,
{
    match e {
        Expression::Identifier(id) => {
            r.append("Identifier(");
            name_string(r, id);
            r.append(")");
        },
        Expression::Integer(n) => {
            r.append("Integer(");
            let t = int_string(*n);
            r.append(t.as_str());
            r.append(")");
        },
        Expression::Boolean(b) => if *b {
            r.append("Boolean(true)");
        } else {
            r.append("Boolean(false)");
        },
        Expression::String(s) => {
            r.append("String(");
            push_quoted(r, s.as_str());
            r.append(")");
        },
        Expression::Array(xs) => {
            proof {
                lemma_array_model(*xs);
            }
            r.append("Array([");
            exprs_string(r, xs);
            r.append("])");
        },
        Expression::Hash(ps) => {
            proof {
                lemma_hash_model(*ps);
            }
            r.append("Hash([");
            pairs_string(r, ps);
            r.append("])");
        },
        Expression::Prefix { operator, right } => {
            r.append("Prefix { operator: ");
            r.append(prefix_str(*operator));
            r.append(", right: ");
            expr_string(r, right);
            r.append(" }");
        },
        Expression::Infix { left, operator, right } => {
            r.append("Infix { left: ");
            expr_string(r, left);
            r.append(", operator: ");
            r.append(infix_str(*operator));
            r.append(", right: ");
            expr_string(r, right);
            r.append(" }");
        },
        Expression::If { condition, consequence, alternative } => {
            r.append("If { condition: ");
            expr_string(r, condition);
            r.append(", consequence: ");
            block_string(r, consequence);
            r.append(", alternative: ");
            match alternative {
                Some(b) => {
                    r.append("Some(");
                    block_string(r, b);
                    r.append(")");
                },
                None => r.append("None"),
            }
            r.append(" }");
        },
        Expression::Function(f) => {
            r.append("Function(");
            literal_string(r, "FunctionExpression", &f.params, &f.body);
            r.append(")");
        },
        Expression::Call { function, args } => {
            proof {
                lemma_call_model(*function, *args);
            }
            r.append("Call { function: ");
            callee_string(r, function);
            r.append(", args: [");
            exprs_string(r, args);
            r.append("] }");
        },
        Expression::Index { left, index } => {
            r.append("Index { left: ");
            expr_string(r, left);
            r.append(", index: ");
            expr_string(r, index);
            r.append(" }");
        },
        Expression::Quote(x) => {
            r.append("Quote(");
            expr_string(r, x);
            r.append(")");
        },
        Expression::Unquote(x) => {
            r.append("Unquote(");
            expr_string(r, x);
            r.append(")");
        },
        Expression::Macro(m) => {
            r.append("Macro(");
            literal_string(r, "MacroExpression", &m.params, &m.body);
            r.append(")");
        },
    }
}

/// The expression written out as `expr_debug` says.
pub fn describe_expression(e: &Expression) -> (r: String)
    ensures
        r@ == expr_debug(expr_model(*e)),
{
    let mut r = String::new();
    expr_string(&mut r, e);
    r
}

} // verus!
