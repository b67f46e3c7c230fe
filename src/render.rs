use vstd::prelude::*;
use crate::ast::{
    BlockStatement, CallExpressionFunction, Expression, Identifier, InfixOperator, PrefixOperator,
    Program, Statement,
};

verus! {

broadcast use vstd::std_specs::vec::group_vec_axioms, vstd::seq::group_seq_axioms;

/// The text of one decimal digit.
pub open spec fn digit_text(d: int) -> Seq<char> {
    if d == 0 {
        "0"@
    } else if d == 1 {
        "1"@
    } else if d == 2 {
        "2"@
    } else if d == 3 {
        "3"@
    } else if d == 4 {
        "4"@
    } else if d == 5 {
        "5"@
    } else if d == 6 {
        "6"@
    } else if d == 7 {
        "7"@
    } else if d == 8 {
        "8"@
    } else {
        "9"@
    }
}

/// The decimal text of a natural number, without leading zeros.
pub open spec fn nat_text(n: nat) -> Seq<char>
    decreases n,
{
    if n < 10 {
        digit_text(n as int)
    } else {
        nat_text(n / 10) + digit_text((n % 10) as int)
    }
}

/// The decimal text of an integer, with a leading `-` when it is negative.
pub open spec fn int_text(n: int) -> Seq<char> {
    if n < 0 {
        "-"@ + nat_text((-n) as nat)
    } else {
        nat_text(n as nat)
    }
}

pub open spec fn prefix_text(op: PrefixOperator) -> Seq<char> {
    match op {
        PrefixOperator::Bang => "!"@,
        PrefixOperator::Minus => "-"@,
    }
}

pub open spec fn infix_text(op: InfixOperator) -> Seq<char> {
    match op {
        InfixOperator::Add => "+"@,
        InfixOperator::Sub => "-"@,
        InfixOperator::Mul => "*"@,
        InfixOperator::Div => "/"@,
        InfixOperator::LT => "<"@,
        InfixOperator::GT => ">"@,
        InfixOperator::Eq => "=="@,
        InfixOperator::NotEq => "!="@,
    }
}

/// Names separated by `, `.
pub open spec fn params_text(ps: Seq<Identifier>) -> Seq<char>
    decreases ps.len(),
{
    if ps.len() == 0 {
        Seq::empty()
    } else if ps.len() == 1 {
        ps[0].0@
    } else {
        params_text(ps.drop_last()) + ", "@ + ps.last().0@
    }
}

/// The text of an expression: every prefix and infix expression in
/// parentheses, so that the text shows how the tree groups.
pub open spec fn expr_text(e: Expression) -> Seq<char>
    decreases e,
{
    match e {
        Expression::Identifier(id) => id.0@,
        Expression::Integer(n) => int_text(n as int),
        Expression::Boolean(b) => if b {
            "true"@
        } else {
            "false"@
        },
        Expression::String(s) => "\""@ + s@ + "\""@,
        Expression::Array(xs) => "["@ + list_text(xs@) + "]"@,
        Expression::Hash(ps) => "{"@ + pairs_text(ps@) + "}"@,
        Expression::Prefix { operator, right } => "("@ + prefix_text(operator) + expr_text(*right)
            + ")"@,
        Expression::Infix { left, operator, right } => "("@ + expr_text(*left) + " "@ + infix_text(
            operator,
        ) + " "@ + expr_text(*right) + ")"@,
        Expression::If { condition, consequence, alternative } => "if ("@ + expr_text(*condition)
            + ") "@ + block_text(consequence) + match alternative {
            Some(alt) => " else "@ + block_text(alt),
            None => Seq::empty(),
        },
        Expression::Function(f) => "fn("@ + params_text(f.params@) + ") "@ + block_text(f.body),
        Expression::Call { function, args } => callee_text(function) + "("@ + list_text(args@)
            + ")"@,
        Expression::Index { left, index } => "("@ + expr_text(*left) + "["@ + expr_text(*index)
            + "])"@,
        Expression::Quote(x) => "quote("@ + expr_text(*x) + ")"@,
        Expression::Unquote(x) => "unquote("@ + expr_text(*x) + ")"@,
        Expression::Macro(m) => "macro("@ + params_text(m.params@) + ") "@ + block_text(m.body),
    }
}

pub open spec fn callee_text(c: CallExpressionFunction) -> Seq<char>
    decreases c,
{
    match c {
        CallExpressionFunction::Identifier(id) => id.0@,
        CallExpressionFunction::Function(f) => "fn("@ + params_text(f.params@) + ") "@
            + block_text(f.body),
    }
}

/// Expressions separated by `, `.
pub open spec fn list_text(xs: Seq<Expression>) -> Seq<char>
    decreases xs,
{
    if xs.len() == 0 {
        Seq::empty()
    } else if xs.len() == 1 {
        expr_text(xs[0])
    } else {
        list_text(xs.drop_last()) + ", "@ + expr_text(xs.last())
    }
}

/// Entries `key: value` separated by `, `.
pub open spec fn pairs_text(ps: Seq<(Expression, Expression)>) -> Seq<char>
    decreases ps,
{
    if ps.len() == 0 {
        Seq::empty()
    } else if ps.len() == 1 {
        expr_text(ps[0].0) + ": "@ + expr_text(ps[0].1)
    } else {
        pairs_text(ps.drop_last()) + ", "@ + expr_text(ps.last().0) + ": "@ + expr_text(
            ps.last().1,
        )
    }
}

/// Statements one after another, with nothing between them.
pub open spec fn statements_text(ss: Seq<Statement>) -> Seq<char>
    decreases ss,
{
    if ss.len() == 0 {
        Seq::empty()
    } else {
        statements_text(ss.drop_last()) + statement_text(ss.last())
    }
}

pub open spec fn block_text(b: BlockStatement) -> Seq<char>
    decreases b,
{
    "{ "@ + statements_text(b.statements@) + " }"@
}

pub open spec fn statement_text(s: Statement) -> Seq<char>
    decreases s,
{
    match s {
        Statement::Let { identifier, expression } => "let "@ + identifier.0@ + " = "@ + expr_text(
            expression,
        ) + ";"@,
        Statement::Return(e) => "return "@ + expr_text(e) + ";"@,
        Statement::Expression(e) => expr_text(e),
        Statement::Block(b) => block_text(b),
    }
}

pub open spec fn program_text(p: Program) -> Seq<char> {
    statements_text(p.statements@)
}

fn digit_str(d: u64) -> (r: &'static str)
    requires
        d < 10,
    ensures
        r@ == digit_text(d as int),
{
    if d == 0 {
        "0"
    } else if d == 1 {
        "1"
    } else if d == 2 {
        "2"
    } else if d == 3 {
        "3"
    } else if d == 4 {
        "4"
    } else if d == 5 {
        "5"
    } else if d == 6 {
        "6"
    } else if d == 7 {
        "7"
    } else if d == 8 {
        "8"
    } else {
        "9"
    }
}

/// The decimal text of `n`.
pub fn nat_string(n: u64) -> (r: String)
    ensures
        r@ == nat_text(n as nat),
    decreases n,
{
    if n < 10 {
        String::from_str(digit_str(n))
    } else {
        let mut r = nat_string(n / 10);
        r.append(digit_str(n % 10));
        r
    }
}

/// The decimal text of `n`.
pub fn int_string(n: i64) -> (r: String)
    ensures
        r@ == int_text(n as int),
{
    if n < 0 {
        let m: i128 = -(n as i128);
        let mut r = String::from_str("-");
        let digits = nat_string(m as u64);
        r.append(digits.as_str());
        r
    } else {
        nat_string(n as u64)
    }
}

fn prefix_str(op: PrefixOperator) -> (r: &'static str)
    ensures
        r@ == prefix_text(op),
{
    match op {
        PrefixOperator::Bang => "!",
        PrefixOperator::Minus => "-",
    }
}

fn infix_str(op: InfixOperator) -> (r: &'static str)
    ensures
        r@ == infix_text(op),
{
    match op {
        InfixOperator::Add => "+",
        InfixOperator::Sub => "-",
        InfixOperator::Mul => "*",
        InfixOperator::Div => "/",
        InfixOperator::LT => "<",
        InfixOperator::GT => ">",
        InfixOperator::Eq => "==",
        InfixOperator::NotEq => "!=",
    }
}

fn params_string(ps: &Vec<Identifier>) -> (r: String)
    ensures
        r@ == params_text(ps@),
{
    let mut r = String::new();
    let mut i: usize = 0;
    while i < ps.len()
        invariant
            i <= ps.len(),
            r@ == params_text(ps@.subrange(0, i as int)),
        decreases ps.len() - i,
    {
        let ghost done = ps@.subrange(0, i as int);
        assert(ps@.subrange(0, i as int + 1).drop_last() =~= done);
        if i > 0 {
            r.append(", ");
        }
        r.append(ps[i].0.as_str());
        i = i + 1;
    }
    assert(ps@.subrange(0, i as int) =~= ps@);
    r
}

/// The text of an expression, as `expr_text` gives it.
pub fn render_expression(e: &Expression) -> (r: String)
    ensures
        r@ == expr_text(*e),
    decreases e,
{
    match e {
        Expression::Identifier(id) => id.0.clone(),
        Expression::Integer(n) => int_string(*n),
        Expression::Boolean(b) => if *b {
            String::from_str("true")
        } else {
            String::from_str("false")
        },
        Expression::String(s) => {
            let mut r = String::from_str("\"");
            r.append(s.as_str());
            r.append("\"");
            r
        },
        Expression::Array(xs) => {
            let mut r = String::from_str("[");
            let inner = list_string(xs);
            r.append(inner.as_str());
            r.append("]");
            r
        },
        Expression::Hash(ps) => {
            let mut r = String::from_str("{");
            let inner = pairs_string(ps);
            r.append(inner.as_str());
            r.append("}");
            r
        },
        Expression::Prefix { operator, right } => {
            let mut r = String::from_str("(");
            r.append(prefix_str(*operator));
            let x = render_expression(right);
            r.append(x.as_str());
            r.append(")");
            r
        },
        Expression::Infix { left, operator, right } => {
            let mut r = String::from_str("(");
            let x = render_expression(left);
            r.append(x.as_str());
            r.append(" ");
            r.append(infix_str(*operator));
            r.append(" ");
            let y = render_expression(right);
            r.append(y.as_str());
            r.append(")");
            r
        },
        Expression::If { condition, consequence, alternative } => {
            let mut r = String::from_str("if (");
            let c = render_expression(condition);
            r.append(c.as_str());
            r.append(") ");
            let b = render_block(consequence);
            r.append(b.as_str());
            match alternative {
                Some(alt) => {
                    r.append(" else ");
                    let a = render_block(alt);
                    r.append(a.as_str());
                },
                None => {},
            }
            r
        },
        Expression::Function(f) => {
            let mut r = String::from_str("fn(");
            let ps = params_string(&f.params);
            r.append(ps.as_str());
            r.append(") ");
            let b = render_block(&f.body);
            r.append(b.as_str());
            r
        },
        Expression::Call { function, args } => {
            let mut r = render_callee(function);
            r.append("(");
            let a = list_string(args);
            r.append(a.as_str());
            r.append(")");
            r
        },
        Expression::Index { left, index } => {
            let mut r = String::from_str("(");
            let x = render_expression(left);
            r.append(x.as_str());
            r.append("[");
            let y = render_expression(index);
            r.append(y.as_str());
            r.append("])");
            r
        },
        Expression::Quote(x) => {
            let mut r = String::from_str("quote(");
            let y = render_expression(x);
            r.append(y.as_str());
            r.append(")");
            r
        },
        Expression::Unquote(x) => {
            let mut r = String::from_str("unquote(");
            let y = render_expression(x);
            r.append(y.as_str());
            r.append(")");
            r
        },
        Expression::Macro(m) => {
            let mut r = String::from_str("macro(");
            let ps = params_string(&m.params);
            r.append(ps.as_str());
            r.append(") ");
            let b = render_block(&m.body);
            r.append(b.as_str());
            r
        },
    }
}

fn render_callee(c: &CallExpressionFunction) -> (r: String)
    ensures
        r@ == callee_text(*c),
    decreases c,
{
    match c {
        CallExpressionFunction::Identifier(id) => id.0.clone(),
        CallExpressionFunction::Function(f) => {
            let mut r = String::from_str("fn(");
            let ps = params_string(&f.params);
            r.append(ps.as_str());
            r.append(") ");
            let b = render_block(&f.body);
            r.append(b.as_str());
            r
        },
    }
}

fn list_string(xs: &Vec<Expression>) -> (r: String)
    ensures
        r@ == list_text(xs@),
    decreases xs,
{
    let mut r = String::new();
    let mut i: usize = 0;
    while i < xs.len()
        invariant
            i <= xs.len(),
            r@ == list_text(xs@.subrange(0, i as int)),
        decreases xs.len() - i,
    {
        assert(xs@.subrange(0, i as int + 1).drop_last() =~= xs@.subrange(0, i as int));
        if i > 0 {
            r.append(", ");
        }
        let x = render_expression(&xs[i]);
        r.append(x.as_str());
        i = i + 1;
    }
    assert(xs@.subrange(0, i as int) =~= xs@);
    r
}

fn pairs_string(ps: &Vec<(Expression, Expression)>) -> (r: String)
    ensures
        r@ == pairs_text(ps@),
    decreases ps,
{
    let mut r = String::new();
    let mut i: usize = 0;
    while i < ps.len()
        invariant
            i <= ps.len(),
            r@ == pairs_text(ps@.subrange(0, i as int)),
        decreases ps.len() - i,
    {
        assert(ps@.subrange(0, i as int + 1).drop_last() =~= ps@.subrange(0, i as int));
        if i > 0 {
            r.append(", ");
        }
        let k = render_expression(&ps[i].0);
        r.append(k.as_str());
        r.append(": ");
        let v = render_expression(&ps[i].1);
        r.append(v.as_str());
        i = i + 1;
    }
    assert(ps@.subrange(0, i as int) =~= ps@);
    r
}

fn statements_string(ss: &Vec<Statement>) -> (r: String)
    ensures
        r@ == statements_text(ss@),
    decreases ss,
{
    let mut r = String::new();
    let mut i: usize = 0;
    while i < ss.len()
        invariant
            i <= ss.len(),
            r@ == statements_text(ss@.subrange(0, i as int)),
        decreases ss.len() - i,
    {
        assert(ss@.subrange(0, i as int + 1).drop_last() =~= ss@.subrange(0, i as int));
        let x = render_statement(&ss[i]);
        r.append(x.as_str());
        i = i + 1;
    }
    assert(ss@.subrange(0, i as int) =~= ss@);
    r
}

fn render_block(b: &BlockStatement) -> (r: String)
    ensures
        r@ == block_text(*b),
    decreases b,
{
    let mut r = String::from_str("{ ");
    let x = statements_string(&b.statements);
    r.append(x.as_str());
    r.append(" }");
    r
}

/// The text of a statement, as `statement_text` gives it.
pub fn render_statement(s: &Statement) -> (r: String)
    ensures
        r@ == statement_text(*s),
    decreases s,
{
    match s {
        Statement::Let { identifier, expression } => {
            let mut r = String::from_str("let ");
            r.append(identifier.0.as_str());
            r.append(" = ");
            let x = render_expression(expression);
            r.append(x.as_str());
            r.append(";");
            r
        },
        Statement::Return(e) => {
            let mut r = String::from_str("return ");
            let x = render_expression(e);
            r.append(x.as_str());
            r.append(";");
            r
        },
        Statement::Expression(e) => render_expression(e),
        Statement::Block(b) => render_block(b),
    }
}

impl Program {
    /// The program's text: its statements' texts one after another.
    pub fn render(&self) -> (r: String)
        ensures
            r@ == program_text(*self),
    {
        statements_string(&self.statements)
    }
}

} // verus!
