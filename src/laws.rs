//! Properties of the grammar and of the tree rewriter, stated over all
//! inputs and proved from their definitions.
use vstd::prelude::*;
use crate::ast::{Expression, Node};
use crate::grammar::{
    finish, hash_rest, program_rest, statement_at,
    Precedence, array_at, call_at, expression_at, expression_list_at, function_parts_at, hash_at,
    infix_at, infix_operator_of, infix_rest, parameters_at, precedence_of, prefix_at, rank, tok_at,
};
use crate::model::{CalleeModel, ExprModel, first_key, insert_position, keys_distinct, with_entry};
use crate::modify::{is_opaque, rewritten_expr};
use crate::token::Token;

verus! {

/// The model of an identifier token.
pub open spec fn name_of(t: Token) -> ExprModel {
    ExprModel::Identifier(t->Identifier_0@)
}

/// A list whose terminator follows its opening token at once is empty and
/// needs no element: `[]`, `f()`, the parameters of `fn() {}`, and `{}`.
pub proof fn empty_lists_law(ts: Seq<Token>, p: int, callee: ExprModel)
    requires
        0 <= p,
        p + 1 < ts.len(),
    ensures
        ts[p] == Token::LBracket && ts[p + 1] == Token::RBracket ==> array_at(ts, p) == Ok::<
            (ExprModel, int),
            (Seq<char>, int),
        >((ExprModel::Array(Seq::empty()), p + 1)),
        ts[p] == Token::LParen && ts[p + 1] == Token::RParen && callee is Identifier ==> call_at(
            ts,
            callee,
            p,
        ) == Ok::<(ExprModel, int), (Seq<char>, int)>(
            (ExprModel::Call(CalleeModel::Identifier(callee->Identifier_0), Seq::empty()), p + 1),
        ),
        ts[p] == Token::LParen && ts[p + 1] == Token::RParen ==> parameters_at(ts, p) == Ok::<
            (Seq<Seq<char>>, int),
            (Seq<char>, int),
        >((Seq::empty(), p + 1)),
        ts[p] == Token::LBrace && ts[p + 1] == Token::RBrace ==> hash_at(ts, p) == Ok::<
            (ExprModel, int),
            (Seq<char>, int),
        >((ExprModel::Hash(Seq::empty()), p + 1)),
{
    assert(tok_at(ts, p + 1) == Some(ts[p + 1]));
    if ts[p + 1] == Token::RBracket {
        assert(expression_list_at(ts, p, Token::RBracket) == Ok::<
            (Seq<ExprModel>, int),
            (Seq<char>, int),
        >((Seq::empty(), p + 1)));
    }
    if ts[p + 1] == Token::RParen {
        assert(expression_list_at(ts, p, Token::RParen) == Ok::<
            (Seq<ExprModel>, int),
            (Seq<char>, int),
        >((Seq::empty(), p + 1)));
    }
}

/// `fn() {}` reads as a function with no parameters and an empty body.
pub proof fn empty_function_law(ts: Seq<Token>, p: int)
    requires
        0 <= p,
        p + 3 < ts.len(),
        ts[p] == Token::Function,
        ts[p + 1] == Token::LParen,
        ts[p + 2] == Token::RParen,
        ts[p + 3] == Token::LBrace,
        p + 4 < ts.len(),
        ts[p + 4] == Token::RBrace,
    ensures
        function_parts_at(ts, p, Token::Function) is Ok,
        function_parts_at(ts, p, Token::Function)->Ok_0.0 == (
            Seq::<Seq<char>>::empty(),
            Seq::<crate::model::StmtModel>::empty(),
        ),
{
    empty_lists_law(ts, p + 1, ExprModel::Boolean(false));
    assert(tok_at(ts, p + 3) == Some(Token::LBrace));
    assert(tok_at(ts, p + 4) == Some(Token::RBrace));
}

/// A name token followed by the end of the expression: the end of input,
/// a semicolon, or a closing token.
pub open spec fn ends_expression(ts: Seq<Token>, i: int) -> bool {
    tok_at(ts, i) is None || tok_at(ts, i) == Some(Token::Semicolon) || tok_at(ts, i) == Some(
        Token::RParen,
    ) || tok_at(ts, i) == Some(Token::RBrace) || tok_at(ts, i) == Some(Token::Comma)
}

/// `x o1 y o2 z`, with names `x`, `y`, `z` and binary operators `o1`, `o2`.
pub open spec fn chain(ts: Seq<Token>, p: int) -> bool {
    &&& 0 <= p
    &&& p + 4 < ts.len()
    &&& ts[p] is Identifier
    &&& ts[p + 2] is Identifier
    &&& ts[p + 4] is Identifier
    &&& infix_operator_of(Some(ts[p + 1])) is Some
    &&& infix_operator_of(Some(ts[p + 3])) is Some
    &&& ends_expression(ts, p + 5)
}

/// In `x o1 y o2 z`, an operator that binds at least as strongly on the
/// left groups first: `a - b - c` is `(a - b) - c`.
pub proof fn left_grouping_law(ts: Seq<Token>, p: int)
    requires
        chain(ts, p),
        rank(precedence_of(Some(ts[p + 3]))) <= rank(precedence_of(Some(ts[p + 1]))),
    ensures
        expression_at(ts, p, Precedence::Lowest) == Ok::<(ExprModel, int), (Seq<char>, int)>(
            (
                ExprModel::Infix(
                    Box::new(
                        ExprModel::Infix(
                            Box::new(name_of(ts[p])),
                            infix_operator_of(Some(ts[p + 1]))->Some_0,
                            Box::new(name_of(ts[p + 2])),
                        ),
                    ),
                    infix_operator_of(Some(ts[p + 3]))->Some_0,
                    Box::new(name_of(ts[p + 4])),
                ),
                p + 4,
            ),
        ),
{
    reveal_with_fuel(crate::grammar::infix_rest, 3);
    let o1 = infix_operator_of(Some(ts[p + 1]))->Some_0;
    let o2 = infix_operator_of(Some(ts[p + 3]))->Some_0;
    let p1 = precedence_of(Some(ts[p + 1]));
    let p2 = precedence_of(Some(ts[p + 3]));
    assert(tok_at(ts, p) == Some(ts[p]));
    assert(tok_at(ts, p + 1) == Some(ts[p + 1]));
    assert(tok_at(ts, p + 2) == Some(ts[p + 2]));
    assert(tok_at(ts, p + 3) == Some(ts[p + 3]));
    assert(tok_at(ts, p + 4) == Some(ts[p + 4]));
    assert(rank(precedence_of(tok_at(ts, p + 5))) == 0);
    let z = name_of(ts[p + 4]);
    assert(expression_at(ts, p + 4, p2) == Ok::<(ExprModel, int), (Seq<char>, int)>((z, p + 4)));
    let y = name_of(ts[p + 2]);
    assert(expression_at(ts, p + 2, p1) == Ok::<(ExprModel, int), (Seq<char>, int)>((y, p + 2)));
    let left = ExprModel::Infix(Box::new(name_of(ts[p])), o1, Box::new(y));
    assert(crate::grammar::infix_expression_at(ts, name_of(ts[p]), p + 1) == Ok::<
        (ExprModel, int),
        (Seq<char>, int),
    >((left, p + 2)));
    let whole = ExprModel::Infix(Box::new(left), o2, Box::new(z));
    assert(crate::grammar::infix_expression_at(ts, left, p + 3) == Ok::<
        (ExprModel, int),
        (Seq<char>, int),
    >((whole, p + 4)));
    assert(infix_at(ts, left, p + 2) == Ok::<(ExprModel, int), (Seq<char>, int)>((whole, p + 4)));
    assert(infix_rest(ts, whole, p + 4, Precedence::Lowest) == Ok::<
        (ExprModel, int),
        (Seq<char>, int),
    >((whole, p + 4)));
    assert(infix_rest(ts, left, p + 2, Precedence::Lowest) == Ok::<
        (ExprModel, int),
        (Seq<char>, int),
    >((whole, p + 4)));
    assert(infix_at(ts, name_of(ts[p]), p) == Ok::<(ExprModel, int), (Seq<char>, int)>(
        (left, p + 2),
    ));
    assert(prefix_at(ts, p) == Ok::<(ExprModel, int), (Seq<char>, int)>((name_of(ts[p]), p)));
}

/// In `x o1 y o2 z`, an operator on the right that binds more strongly
/// groups first: `a + b * c` is `a + (b * c)`.
pub proof fn right_grouping_law(ts: Seq<Token>, p: int)
    requires
        chain(ts, p),
        rank(precedence_of(Some(ts[p + 1]))) < rank(precedence_of(Some(ts[p + 3]))),
    ensures
        expression_at(ts, p, Precedence::Lowest) == Ok::<(ExprModel, int), (Seq<char>, int)>(
            (
                ExprModel::Infix(
                    Box::new(name_of(ts[p])),
                    infix_operator_of(Some(ts[p + 1]))->Some_0,
                    Box::new(
                        ExprModel::Infix(
                            Box::new(name_of(ts[p + 2])),
                            infix_operator_of(Some(ts[p + 3]))->Some_0,
                            Box::new(name_of(ts[p + 4])),
                        ),
                    ),
                ),
                p + 4,
            ),
        ),
{
    reveal_with_fuel(crate::grammar::infix_rest, 3);
    let o1 = infix_operator_of(Some(ts[p + 1]))->Some_0;
    let o2 = infix_operator_of(Some(ts[p + 3]))->Some_0;
    let p1 = precedence_of(Some(ts[p + 1]));
    let p2 = precedence_of(Some(ts[p + 3]));
    assert(tok_at(ts, p) == Some(ts[p]));
    assert(tok_at(ts, p + 1) == Some(ts[p + 1]));
    assert(tok_at(ts, p + 2) == Some(ts[p + 2]));
    assert(tok_at(ts, p + 3) == Some(ts[p + 3]));
    assert(tok_at(ts, p + 4) == Some(ts[p + 4]));
    assert(rank(precedence_of(tok_at(ts, p + 5))) == 0);
    let z = name_of(ts[p + 4]);
    assert(expression_at(ts, p + 4, p2) == Ok::<(ExprModel, int), (Seq<char>, int)>((z, p + 4)));
    let y = name_of(ts[p + 2]);
    let right = ExprModel::Infix(Box::new(y), o2, Box::new(z));
    assert(crate::grammar::infix_expression_at(ts, y, p + 3) == Ok::<
        (ExprModel, int),
        (Seq<char>, int),
    >((right, p + 4)));
    assert(expression_at(ts, p + 2, p1) == Ok::<(ExprModel, int), (Seq<char>, int)>(
        (right, p + 4),
    ));
    let whole = ExprModel::Infix(Box::new(name_of(ts[p])), o1, Box::new(right));
    assert(infix_at(ts, name_of(ts[p]), p) == Ok::<(ExprModel, int), (Seq<char>, int)>(
        (whole, p + 4),
    ));
    assert(infix_rest(ts, whole, p + 4, Precedence::Lowest) == Ok::<
        (ExprModel, int),
        (Seq<char>, int),
    >((whole, p + 4)));
    assert(prefix_at(ts, p) == Ok::<(ExprModel, int), (Seq<char>, int)>((name_of(ts[p]), p)));
}

/// Messages are only ever added: reading on from a state that holds
/// messages fails, and keeps them, in order, at the front.
pub proof fn messages_kept_law(
    ts: Seq<Token>,
    stmts: Seq<crate::model::StmtModel>,
    errs: Seq<Seq<char>>,
    p: int,
)
    ensures
        program_rest(ts, stmts, errs, p) is Ok ==> errs.len() == 0,
        program_rest(ts, stmts, errs, p) is Err ==> ({
            let es = program_rest(ts, stmts, errs, p)->Err_0;
            errs.len() <= es.len() && forall|i: int| 0 <= i < errs.len() ==> es[i] == errs[i]
        }),
    decreases ts.len() + 1 - p,
{
    if 0 <= p < ts.len() {
        let (stmts2, errs2, next) = match statement_at(ts, p) {
            Ok((s, q)) => (stmts.push(s), errs, q + 1),
            Err((m, q)) => (stmts, errs.push(m), q + 1),
        };
        if p < next <= ts.len() + 1 {
            messages_kept_law(ts, stmts2, errs2, next);
        }
        assert(forall|i: int| 0 <= i < errs.len() ==> errs2[i] == errs[i]);
    }
}

/// Reading on from a state that holds messages gives those messages
/// followed by the ones that reading on from the same place without them
/// gives.
pub proof fn messages_append_law(
    ts: Seq<Token>,
    stmts: Seq<crate::model::StmtModel>,
    errs: Seq<Seq<char>>,
    p: int,
)
    ensures
        program_rest(ts, stmts, errs, p) == match program_rest(ts, stmts, Seq::empty(), p) {
            Ok(done) => finish(done, errs),
            Err(es) => Err::<Seq<crate::model::StmtModel>, Seq<Seq<char>>>(errs + es),
        },
    decreases ts.len() + 1 - p,
{
    if 0 <= p < ts.len() {
        match statement_at(ts, p) {
            Ok((s, q)) => {
                if p < q + 1 <= ts.len() + 1 {
                    messages_append_law(ts, stmts.push(s), errs, q + 1);
                } else {
                    assert(errs + Seq::<Seq<char>>::empty() =~= errs);
                }
            },
            Err((m, q)) => {
                let one = Seq::<Seq<char>>::empty().push(m);
                if p < q + 1 <= ts.len() + 1 {
                    messages_append_law(ts, stmts, errs.push(m), q + 1);
                    messages_append_law(ts, stmts, one, q + 1);
                    match program_rest(ts, stmts, Seq::empty(), q + 1) {
                        Ok(_) => {
                            assert(errs.push(m) =~= errs + one);
                        },
                        Err(es) => {
                            assert(errs.push(m) + es =~= errs + (one + es));
                        },
                    }
                } else {
                    assert(errs.push(m) =~= errs + one);
                }
            },
        }
    } else {
        assert(errs + Seq::<Seq<char>>::empty() =~= errs);
    }
}

/// Two malformed statements, the second starting where reading resumes
/// after the first, give two messages, in order: the parser does not stop
/// at the first failure. When the rest reads without error, those two are
/// all the messages added.
pub proof fn two_failures_law(
    ts: Seq<Token>,
    stmts: Seq<crate::model::StmtModel>,
    errs: Seq<Seq<char>>,
    p: int,
)
    requires
        0 <= p < ts.len(),
        statement_at(ts, p) is Err,
        p <= statement_at(ts, p)->Err_0.1 < ts.len() - 1,
        statement_at(ts, statement_at(ts, p)->Err_0.1 + 1) is Err,
        statement_at(ts, p)->Err_0.1 + 1 <= statement_at(
            ts,
            statement_at(ts, p)->Err_0.1 + 1,
        )->Err_0.1 <= ts.len(),
    ensures
        program_rest(ts, stmts, errs, p) is Err,
        program_rest(ts, stmts, errs, p)->Err_0.len() >= errs.len() + 2,
        program_rest(ts, stmts, errs, p)->Err_0[errs.len() as int] == statement_at(ts, p)->Err_0.0,
        program_rest(ts, stmts, errs, p)->Err_0[errs.len() + 1int] == statement_at(
            ts,
            statement_at(ts, p)->Err_0.1 + 1,
        )->Err_0.0,
        program_rest(
            ts,
            stmts,
            Seq::empty(),
            statement_at(ts, statement_at(ts, p)->Err_0.1 + 1)->Err_0.1 + 1,
        ) is Ok ==> program_rest(ts, stmts, errs, p)->Err_0 == errs.push(
            statement_at(ts, p)->Err_0.0,
        ).push(statement_at(ts, statement_at(ts, p)->Err_0.1 + 1)->Err_0.0),
{
    let (m1, q1) = statement_at(ts, p)->Err_0;
    let (m2, q2) = statement_at(ts, q1 + 1)->Err_0;
    let errs2 = errs.push(m1).push(m2);
    assert(program_rest(ts, stmts, errs.push(m1), q1 + 1) == program_rest(ts, stmts, errs2, q2 + 1));
    messages_kept_law(ts, stmts, errs2, q2 + 1);
    messages_append_law(ts, stmts, errs2, q2 + 1);
    assert(errs2[errs.len() as int] == m1);
    assert(errs2[errs.len() + 1int] == m2);
}

/// Inserting into entries whose keys are distinct keeps them distinct.
pub proof fn with_entry_distinct_law(ps: Seq<(ExprModel, ExprModel)>, k: ExprModel, v: ExprModel)
    requires
        keys_distinct(ps),
    ensures
        keys_distinct(with_entry(ps, k, v)),
{
    if exists|i: int| first_key(ps, k, i) {
        let i = choose|i: int| first_key(ps, k, i);
        let r = ps.update(i, (k, v));
        assert forall|a: int, b: int| 0 <= a < b < r.len() implies #[trigger] r[a].0
            != #[trigger] r[b].0 by {
            assert(ps[a].0 != ps[b].0);
        }
    } else {
        lemma_insert_position_exists(ps, k, 0);
        let i = choose|i: int| insert_position(ps, k, i);
        let r = ps.insert(i, (k, v));
        assert forall|a: int, b: int| 0 <= a < b < r.len() implies #[trigger] r[a].0
            != #[trigger] r[b].0 by {
            if a < i && b < i {
                assert(ps[a].0 != ps[b].0);
            } else if a > i {
                assert(ps[a - 1].0 != ps[b - 1].0);
            } else if a < i && b > i {
                assert(ps[a].0 != ps[b - 1].0);
            } else if a == i {
                assert(!first_key(ps, k, b - 1));
                assert(forall|j: int| 0 <= j < ps.len() ==> #[trigger] ps[j].0 != k) by {
                    if exists|j: int| 0 <= j < ps.len() && ps[j].0 == k {
                        let j0 = choose|j: int| 0 <= j < ps.len() && ps[j].0 == k;
                        lemma_first_key_exists(ps, k, j0);
                    }
                }
            } else {
                assert(forall|j: int| 0 <= j < ps.len() ==> #[trigger] ps[j].0 != k) by {
                    if exists|j: int| 0 <= j < ps.len() && ps[j].0 == k {
                        let j0 = choose|j: int| 0 <= j < ps.len() && ps[j].0 == k;
                        lemma_first_key_exists(ps, k, j0);
                    }
                }
            }
        }
    }
}

proof fn lemma_insert_position_exists(ps: Seq<(ExprModel, ExprModel)>, k: ExprModel, n: int)
    requires
        0 <= n <= ps.len(),
        forall|j: int| 0 <= j < n ==> crate::order::expr_cmp(k, #[trigger] ps[j].0) >= 0,
    ensures
        exists|i: int| insert_position(ps, k, i),
    decreases ps.len() - n,
{
    if n == ps.len() || crate::order::expr_cmp(k, ps[n].0) < 0 {
        assert(insert_position(ps, k, n));
    } else {
        lemma_insert_position_exists(ps, k, n + 1);
    }
}

proof fn lemma_first_key_exists(ps: Seq<(ExprModel, ExprModel)>, k: ExprModel, j: int)
    requires
        0 <= j < ps.len(),
        ps[j].0 == k,
    ensures
        exists|i: int| first_key(ps, k, i),
    decreases j,
{
    if exists|i: int| 0 <= i < j && ps[i].0 == k {
        let i = choose|i: int| 0 <= i < j && ps[i].0 == k;
        lemma_first_key_exists(ps, k, i);
    } else {
        assert(first_key(ps, k, j));
    }
}

proof fn lemma_hash_rest_distinct(ts: Seq<Token>, acc: Seq<(ExprModel, ExprModel)>, k: int)
    requires
        keys_distinct(acc),
    ensures
        hash_rest(ts, acc, k) matches Ok((ExprModel::Hash(es), _)) ==> keys_distinct(es),
    decreases ts.len() - k,
{
    if let Ok((key, q)) = expression_at(ts, k, Precedence::Lowest) {
        if k <= q {
            if let Ok((v, r)) = expression_at(ts, q + 2, Precedence::Lowest) {
                let acc2 = with_entry(acc, key, v);
                with_entry_distinct_law(acc, key, v);
                if tok_at(ts, r + 1) == Some(Token::Comma) && k <= r {
                    lemma_hash_rest_distinct(ts, acc2, r + 2);
                }
            }
        }
    }
}

/// A hash literal that reads without error never holds a key twice.
pub proof fn hash_keys_distinct_law(ts: Seq<Token>, p: int)
    ensures
        hash_at(ts, p) matches Ok((ExprModel::Hash(es), _)) ==> keys_distinct(es),
{
    lemma_hash_rest_distinct(ts, Seq::empty(), p + 1);
}

/// The rewriter hands an expression that it does not take apart (a name,
/// a literal, a call, a quote, an unquote, a macro) whole to the
/// transform: the result is exactly what the transform gave for it, and
/// nothing inside it, such as a call's arguments, is visited on its own.
pub proof fn opaque_rewrite_law<F: Fn(Node) -> Node>(e: Expression, out: Expression, f: F)
    requires
        is_opaque(e),
    ensures
        rewritten_expr(e, out, f) == f.ensures((Node::Expression(e),), Node::Expression(out)),
{
}

} // verus!
