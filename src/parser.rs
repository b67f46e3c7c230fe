use vstd::prelude::*;
use itertools::Itertools;
use crate::ast::{
    BlockStatement, CallExpressionFunction, Expression, FunctionExpression, Identifier,
    InfixOperator, MacroExpression, PrefixOperator, Program, Statement,
};
use crate::grammar::{
    Precedence, Step, block_at, callee_message, expect_current, expect_peek,
    expression_at, expression_list_at, expression_list_rest, function_parts_at, hash_at,
    hash_rest, identifier_at, int_literal_value, parameters_at,
    parameters_rest, parse_message, parse_tokens, precedence_of, prefix_at, program_rest, rank,
    skip_semicolon, statement_at, tok_at, token_message, wrapped_at, block_rest,
    infix_rest, let_at, return_at, expr_statement_at, array_at, prefix_expression_at,
    infix_expression_at, infix_at, grouped_at, if_at, function_at, macro_at, quote_at, unquote_at, call_at,
    index_at,
};
use crate::describe::describe_expression;
use crate::lexer::Lexer;
use crate::model::{
    ExprModel, StmtModel, block_model, expr_model, exprs_model, insert_entry,
    lemma_array_model, lemma_block_model, lemma_call_model, lemma_hash_model, pairs_model,
    params_model, program_model, stmt_model, stmts_model,
};
use crate::token::{Token, describe_opt_exec, is_plain};

verus! {

broadcast use vstd::std_specs::vec::group_vec_axioms, vstd::seq::group_seq_axioms;

/// The messages of a failed parse, one for each statement that failed.
#[derive(Debug, PartialEq, Eq, Clone)]
pub struct Errors(pub Vec<String>);

pub open spec fn texts(v: Seq<String>) -> Seq<Seq<char>> {
    Seq::new(v.len(), |i: int| v[i]@)
}

/// The parts with `sep` between each two.
pub open spec fn joined(parts: Seq<Seq<char>>, sep: Seq<char>) -> Seq<char>
    decreases parts.len(),
{
    if parts.len() == 0 {
        Seq::empty()
    } else if parts.len() == 1 {
        parts[0]
    } else {
        joined(parts.drop_last(), sep) + sep + parts.last()
    }
}

/// Relies on itertools' `Itertools::join`: each item's text, with the
/// separator written between each two.
#[verifier::external_body]
fn join_lines(parts: &Vec<String>) -> (r: String)
    ensures
        r@ == joined(texts(parts@), "\n"@),
{
    parts.iter().join("\n")
}

impl Errors {
    /// All messages, one per line.
    pub fn message(&self) -> (r: String)
        ensures
            r@ == joined(texts(self.0@), "\n"@),
    {
        join_lines(&self.0)
    }
}

pub open spec fn deref_opt(t: Option<&Token>) -> Option<Token> {
    match t {
        Some(t) => Some(*t),
        None => None,
    }
}

pub open spec fn pos_step(r: Result<usize, (String, usize)>) -> Result<int, (Seq<char>, int)> {
    match r {
        Ok(q) => Ok(q as int),
        Err((m, q)) => Err((m@, q as int)),
    }
}

pub open spec fn end_of<T>(r: Result<(T, usize), (String, usize)>) -> int {
    match r {
        Ok((_, q)) => q as int,
        Err((_, q)) => q as int,
    }
}

pub open spec fn expr_step(r: Result<(Expression, usize), (String, usize)>) -> Step<ExprModel> {
    match r {
        Ok((e, q)) => Ok((expr_model(e), q as int)),
        Err((m, q)) => Err((m@, q as int)),
    }
}

pub open spec fn stmt_step(r: Result<(Statement, usize), (String, usize)>) -> Step<StmtModel> {
    match r {
        Ok((s, q)) => Ok((stmt_model(s), q as int)),
        Err((m, q)) => Err((m@, q as int)),
    }
}

pub open spec fn block_step(r: Result<(BlockStatement, usize), (String, usize)>) -> Step<
    Seq<StmtModel>,
> {
    match r {
        Ok((b, q)) => Ok((block_model(b), q as int)),
        Err((m, q)) => Err((m@, q as int)),
    }
}

pub open spec fn exprs_step(r: Result<(Vec<Expression>, usize), (String, usize)>) -> Step<
    Seq<ExprModel>,
> {
    match r {
        Ok((v, q)) => Ok((exprs_model(v@), q as int)),
        Err((m, q)) => Err((m@, q as int)),
    }
}

pub open spec fn params_step(r: Result<(Vec<Identifier>, usize), (String, usize)>) -> Step<
    Seq<Seq<char>>,
> {
    match r {
        Ok((v, q)) => Ok((params_model(v@), q as int)),
        Err((m, q)) => Err((m@, q as int)),
    }
}

pub open spec fn parts_step(
    r: Result<((Vec<Identifier>, BlockStatement), usize), (String, usize)>,
) -> Step<(Seq<Seq<char>>, Seq<StmtModel>)> {
    match r {
        Ok(((v, b), q)) => Ok(((params_model(v@), block_model(b)), q as int)),
        Err((m, q)) => Err((m@, q as int)),
    }
}

fn token_error(expected: &Token, got: Option<&Token>) -> (r: String)
    ensures
        r@ == token_message(*expected, deref_opt(got)),
{
    let mut r = String::from_str("expected token to be ");
    let e = expected.describe();
    r.append(e.as_str());
    r.append(", got ");
    let g = describe_opt_exec(got);
    r.append(g.as_str());
    r.append(" instead");
    r
}

fn parse_error(got: Option<&Token>, what: &str) -> (r: String)
    ensures
        r@ == parse_message(deref_opt(got), what@),
{
    let mut r = String::from_str("could not parse ");
    let g = describe_opt_exec(got);
    r.append(g.as_str());
    r.append(" as ");
    r.append(what);
    r
}

fn callee_error(e: &Expression) -> (r: String)
    ensures
        r@ == callee_message(expr_model(*e)),
{
    let mut r = String::from_str("could not parse ");
    let d = describe_expression(e);
    r.append(d.as_str());
    r.append(" as call expression function");
    r
}

/// Relies on `i64`'s `FromStr`: an optional `+` or `-` followed by one or
/// more decimal digits, accepted only when the value fits in `i64`.
#[verifier::external_body]
fn parse_i64(s: &str) -> (r: Option<i64>)
    ensures
        r == int_literal_value(s@),
{
    s.parse::<i64>().ok()
}

/// Parses a whole token source into a program, or fails with the message
/// of every statement that could not be parsed.
pub fn parse(lexer: Lexer) -> (r: Result<Program, Errors>)
    ensures
        match (r, parse_tokens(lexer.tokens())) {
            (Ok(prog), Ok(m)) => program_model(prog) == m,
            (Err(es), Err(ms)) => texts(es.0@) == ms,
            _ => false,
        },
{
    let parser = Parser::new(lexer);
    parser.parse()
}

struct Parser {
    tokens: Vec<Token>,
}

impl Parser {
    fn new(lexer: Lexer) -> (r: Parser)
        ensures
            r.tokens@ == lexer.tokens(),
    {
        Parser { tokens: lexer.into_tokens() }
    }

    fn current_token(&self, p: usize) -> (r: Option<&Token>)
        ensures
            deref_opt(r) == tok_at(self.tokens@, p as int),
    {
        if p < self.tokens.len() {
            Some(&self.tokens[p])
        } else {
            None
        }
    }

    fn peek_token(&self, p: usize) -> (r: Option<&Token>)
        ensures
            deref_opt(r) == tok_at(self.tokens@, p + 1),
    {
        if p < self.tokens.len() && p + 1 < self.tokens.len() {
            Some(&self.tokens[p + 1])
        } else {
            None
        }
    }

    fn peek_is(&self, p: usize, t: &Token) -> (r: bool)
        requires
            is_plain(*t),
        ensures
            r == (tok_at(self.tokens@, p + 1) == Some(*t)),
    {
        match self.peek_token(p) {
            Some(n) => n.is(t),
            None => false,
        }
    }

    fn parse(&self) -> (r: Result<Program, Errors>)
        ensures
            match (r, parse_tokens(self.tokens@)) {
                (Ok(prog), Ok(m)) => program_model(prog) == m,
                (Err(es), Err(ms)) => texts(es.0@) == ms,
                _ => false,
            },
    {
        let ghost ts = self.tokens@;
        let mut statements: Vec<Statement> = Vec::new();
        let mut errors: Vec<String> = Vec::new();
        let mut p: usize = 0;
        assert(stmts_model(statements@) =~= Seq::<StmtModel>::empty());
        assert(texts(errors@) =~= Seq::<Seq<char>>::empty());
        while p < self.tokens.len()
            invariant
                ts == self.tokens@,
                p <= ts.len(),
                program_rest(ts, stmts_model(statements@), texts(errors@), p as int)
                    == parse_tokens(ts),
            decreases self.tokens.len() - p,
        {
            let q: usize;
            match self.parse_statement(p) {
                Ok((s, e)) => {
                    let ghost before = statements@;
                    statements.push(s);
                    assert(stmts_model(statements@) =~= stmts_model(before).push(stmt_model(s)));
                    q = e;
                },
                Err((m, e)) => {
                    let ghost before = errors@;
                    errors.push(m);
                    assert(texts(errors@) =~= texts(before).push(m@));
                    q = e;
                },
            }
            if q < self.tokens.len() {
                p = q + 1;
            } else {
                assert(program_rest(ts, stmts_model(statements@), texts(errors@), q + 1)
                    == program_rest(ts, stmts_model(statements@), texts(errors@), q as int));
                p = self.tokens.len();
            }
        }
        if errors.len() == 0 {
            let prog = Program { statements };
            Ok(prog)
        } else {
            Err(Errors(errors))
        }
    }

    fn parse_statement(&self, p: usize) -> (r: Result<(Statement, usize), (String, usize)>)
        requires
            p <= self.tokens.len(),
        ensures
            stmt_step(r) == statement_at(self.tokens@, p as int),
            p <= end_of(r) <= self.tokens.len(),
        decreases self.tokens.len() - p, 9int,
    {
        match self.current_token(p) {
            Some(Token::Let) => self.parse_let_statement(p),
            Some(Token::Return) => self.parse_return_statement(p),
            Some(_) => self.parse_expression_statement(p),
            None => Err((parse_error(None, "statement"), p)),
        }
    }

    fn expect_current_token(&self, p: usize, expected: Token) -> (r: Result<usize, (String, usize)>)
        requires
            is_plain(expected),
        ensures
            pos_step(r) == expect_current(self.tokens@, p as int, expected),
    {
        match self.current_token(p) {
            Some(t) => if t.is(&expected) {
                return Ok(p);
            },
            None => {},
        }
        let got = self.peek_token(p);
        Err((token_error(&expected, got), p))
    }

    fn expect_peek_token(&self, p: usize, expected: Token) -> (r: Result<usize, (String, usize)>)
        requires
            is_plain(expected),
        ensures
            pos_step(r) == expect_peek(self.tokens@, p as int, expected),
            r is Ok ==> p + 1 < self.tokens.len(),
    {
        if p < self.tokens.len() && self.peek_is(p, &expected) {
            Ok(p + 1)
        } else {
            let got = self.peek_token(p);
            Err((token_error(&expected, got), p))
        }
    }

    fn parse_identifier(&self, i: usize) -> (r: Result<Identifier, String>)
        ensures
            match r {
                Ok(id) => identifier_at(self.tokens@, i as int) == Ok::<Seq<char>, Seq<char>>(
                    id.0@,
                ),
                Err(m) => identifier_at(self.tokens@, i as int) == Err::<Seq<char>, Seq<char>>(
                    m@,
                ),
            },
    {
        match self.current_token(i) {
            Some(Token::Identifier(s)) => Ok(Identifier(s.clone())),
            t => Err(parse_error(t, "identifier")),
        }
    }

    fn skip_semicolon(&self, q: usize) -> (r: usize)
        requires
            q <= self.tokens.len(),
        ensures
            r == skip_semicolon(self.tokens@, q as int),
            q <= r <= self.tokens.len(),
    {
        if self.peek_is(q, &Token::Semicolon) {
            q + 1
        } else {
            q
        }
    }

    fn parse_let_statement(&self, p: usize) -> (r: Result<(Statement, usize), (String, usize)>)
        requires
            p <= self.tokens.len(),
        ensures
            stmt_step(r) == let_at(self.tokens@, p as int),
            p <= end_of(r) <= self.tokens.len(),
        decreases self.tokens.len() - p, 8int,
    {
        match self.expect_current_token(p, Token::Let) {
            Err(e) => return Err(e),
            Ok(_) => {},
        }
        let identifier = match self.parse_identifier(p + 1) {
            Err(m) => return Err((m, p + 1)),
            Ok(id) => id,
        };
        match self.expect_peek_token(p + 1, Token::Assign) {
            Err(e) => return Err(e),
            Ok(_) => {},
        }
        match self.parse_expression(p + 3, Precedence::Lowest) {
            Err(e) => Err(e),
            Ok((expression, q)) => {
                let q = self.skip_semicolon(q);
                Ok((Statement::Let { identifier, expression }, q))
            },
        }
    }

    fn parse_return_statement(&self, p: usize) -> (r: Result<(Statement, usize), (String, usize)>)
        requires
            p <= self.tokens.len(),
        ensures
            stmt_step(r) == return_at(self.tokens@, p as int),
            p <= end_of(r) <= self.tokens.len(),
        decreases self.tokens.len() - p, 8int,
    {
        match self.expect_current_token(p, Token::Return) {
            Err(e) => return Err(e),
            Ok(_) => {},
        }
        match self.parse_expression(p + 1, Precedence::Lowest) {
            Err(e) => Err(e),
            Ok((e, q)) => {
                let q = self.skip_semicolon(q);
                Ok((Statement::Return(e), q))
            },
        }
    }

    fn parse_expression_statement(&self, p: usize) -> (r: Result<(Statement, usize), (String, usize)>)
        requires
            p <= self.tokens.len(),
        ensures
            stmt_step(r) == expr_statement_at(self.tokens@, p as int),
            p <= end_of(r) <= self.tokens.len(),
        decreases self.tokens.len() - p, 8int,
    {
        match self.parse_expression(p, Precedence::Lowest) {
            Err(e) => Err(e),
            Ok((e, q)) => {
                let q = self.skip_semicolon(q);
                Ok((Statement::Expression(e), q))
            },
        }
    }

    fn parse_block_statement(&self, p: usize) -> (r: Result<(BlockStatement, usize), (String, usize)>)
        requires
            p <= self.tokens.len(),
        ensures
            block_step(r) == block_at(self.tokens@, p as int),
            p <= end_of(r) <= self.tokens.len(),
        decreases self.tokens.len() - p, 4int,
    {
        let ghost ts = self.tokens@;
        match self.expect_current_token(p, Token::LBrace) {
            Err(e) => return Err(e),
            Ok(_) => {},
        }
        let mut statements: Vec<Statement> = Vec::new();
        let mut q: usize = p + 1;
        assert(stmts_model(statements@) =~= Seq::<StmtModel>::empty());
        while q < self.tokens.len() && !self.tokens[q].is(&Token::RBrace)
            invariant
                ts == self.tokens@,
                p < q <= ts.len(),
                block_rest(ts, stmts_model(statements@), q as int) == block_at(ts, p as int),
            decreases self.tokens.len() - q,
        {
            match self.parse_statement(q) {
                Err(e) => return Err(e),
                Ok((s, r)) => {
                    let ghost before = statements@;
                    statements.push(s);
                    assert(stmts_model(statements@) =~= stmts_model(before).push(stmt_model(s)));
                    if r < self.tokens.len() {
                        q = r + 1;
                    } else {
                        return Err((token_error(&Token::RBrace, None), r));
                    }
                },
            }
        }
        if q >= self.tokens.len() {
            return Err((token_error(&Token::RBrace, None), q));
        }
        proof {
            lemma_block_model(statements);
        }
        Ok((BlockStatement { statements }, q))
    }

    fn infix_continues(&self, q: usize, prec: Precedence) -> (r: bool)
        ensures
            r == ({
                let next = tok_at(self.tokens@, q + 1);
                next is Some && next != Some(Token::Semicolon) && rank(prec) < rank(
                    precedence_of(next),
                )
            }),
    {
        match self.peek_token(q) {
            None => false,
            Some(t) => !t.is(&Token::Semicolon) && precedence_rank(prec) < precedence_rank(
                token_precedence(Some(t)),
            ),
        }
    }

    fn parse_expression(&self, p: usize, prec: Precedence) -> (r: Result<
        (Expression, usize),
        (String, usize),
    >)
        requires
            p <= self.tokens.len(),
        ensures
            expr_step(r) == expression_at(self.tokens@, p as int, prec),
            p <= end_of(r) <= self.tokens.len(),
        decreases self.tokens.len() - p, 7int,
    {
        let ghost ts = self.tokens@;
        let (mut left, mut q) = match self.parse_prefix(p) {
            Err(e) => return Err(e),
            Ok(x) => x,
        };
        while self.infix_continues(q, prec)
            invariant
                ts == self.tokens@,
                p <= q <= ts.len(),
                infix_rest(ts, expr_model(left), q as int, prec) == expression_at(
                    ts,
                    p as int,
                    prec,
                ),
            decreases self.tokens.len() - q,
        {
            match self.parse_infix(left, q) {
                Err(e) => return Err(e),
                Ok((e, r)) => {
                    if r == q {
                        return Ok((e, r));
                    }
                    left = e;
                    q = r;
                },
            }
        }
        Ok((left, q))
    }

    fn parse_infix(&self, left: Expression, q: usize) -> (r: Result<
        (Expression, usize),
        (String, usize),
    >)
        requires
            q <= self.tokens.len(),
        ensures
            expr_step(r) == infix_at(self.tokens@, expr_model(left), q as int),
            q <= end_of(r) <= self.tokens.len(),
        decreases self.tokens.len() - q, 5int,
    {
        match self.peek_token(q) {
            Some(Token::LParen) => self.parse_call_expression(left, q + 1),
            Some(Token::LBracket) => self.parse_index_expression(left, q + 1),
            Some(Token::Plus) | Some(Token::Minus) | Some(Token::Asterisk) | Some(Token::Slash)
            | Some(Token::LT) | Some(Token::GT) | Some(Token::Eq) | Some(Token::NotEq) => {
                self.parse_infix_expression(left, q + 1)
            },
            _ => Ok((left, q)),
        }
    }

    fn parse_identifier_expression(&self, p: usize) -> (r: Result<
        (Expression, usize),
        (String, usize),
    >)
        requires
            tok_at(self.tokens@, p as int) matches Some(Token::Identifier(_)),
        ensures
            expr_step(r) == prefix_at(self.tokens@, p as int),
            p == end_of(r),
    {
        match self.parse_identifier(p) {
            Ok(id) => Ok((Expression::Identifier(id), p)),
            Err(m) => Err((m, p)),
        }
    }

    fn parse_integer_expression(&self, p: usize) -> (r: Result<
        (Expression, usize),
        (String, usize),
    >)
        requires
            tok_at(self.tokens@, p as int) matches Some(Token::Int(_)),
        ensures
            expr_step(r) == prefix_at(self.tokens@, p as int),
            p == end_of(r),
    {
        match self.current_token(p) {
            Some(Token::Int(s)) => match parse_i64(s.as_str()) {
                Some(n) => Ok((Expression::Integer(n), p)),
                None => Err((parse_error(self.current_token(p), "integer"), p)),
            },
            t => Err((parse_error(t, "integer"), p)),
        }
    }

    fn parse_boolean_expression(&self, p: usize) -> (r: Result<
        (Expression, usize),
        (String, usize),
    >)
        requires
            tok_at(self.tokens@, p as int) matches Some(Token::True | Token::False),
        ensures
            expr_step(r) == prefix_at(self.tokens@, p as int),
            p == end_of(r),
    {
        match self.current_token(p) {
            Some(Token::True) => Ok((Expression::Boolean(true), p)),
            Some(Token::False) => Ok((Expression::Boolean(false), p)),
            t => Err((parse_error(t, "boolean"), p)),
        }
    }

    fn parse_string_expression(&self, p: usize) -> (r: Result<
        (Expression, usize),
        (String, usize),
    >)
        requires
            tok_at(self.tokens@, p as int) matches Some(Token::String(_)),
        ensures
            expr_step(r) == prefix_at(self.tokens@, p as int),
            p == end_of(r),
    {
        match self.current_token(p) {
            Some(Token::String(s)) => Ok((Expression::String(s.clone()), p)),
            t => Err((parse_error(t, "string"), p)),
        }
    }

    fn parse_prefix(&self, p: usize) -> (r: Result<(Expression, usize), (String, usize)>)
        requires
            p <= self.tokens.len(),
        ensures
            expr_step(r) == prefix_at(self.tokens@, p as int),
            p <= end_of(r) <= self.tokens.len(),
        decreases self.tokens.len() - p, 6int,
    {
        match self.current_token(p) {
            Some(Token::Identifier(_)) => self.parse_identifier_expression(p),
            Some(Token::Int(_)) => self.parse_integer_expression(p),
            Some(Token::True) | Some(Token::False) => self.parse_boolean_expression(p),
            Some(Token::String(_)) => self.parse_string_expression(p),
            Some(Token::LBracket) => self.parse_array_expression(p),
            Some(Token::LBrace) => self.parse_hash_expression(p),
            Some(Token::Bang) => self.parse_prefix_expression(p),
            Some(Token::Minus) => self.parse_prefix_expression(p),
            Some(Token::LParen) => self.parse_grouped_expression(p),
            Some(Token::If) => self.parse_if_expression(p),
            Some(Token::Function) => self.parse_function_expression(p),
            Some(Token::Quote) => self.parse_quote_expression(p),
            Some(Token::Unquote) => self.parse_unquote_expression(p),
            Some(Token::Macro) => self.parse_macro_expression(p),
            t => Err((parse_error(t, "prefix expression"), p)),
        }
    }

    fn parse_array_expression(&self, p: usize) -> (r: Result<(Expression, usize), (String, usize)>)
        requires
            p <= self.tokens.len(),
        ensures
            expr_step(r) == array_at(self.tokens@, p as int),
            p <= end_of(r) <= self.tokens.len(),
        decreases self.tokens.len() - p, 4int,
    {
        match self.expect_current_token(p, Token::LBracket) {
            Err(e) => return Err(e),
            Ok(_) => {},
        }
        match self.parse_expression_list(p, Token::RBracket) {
            Err(e) => Err(e),
            Ok((xs, q)) => {
                proof {
                    lemma_array_model(xs);
                }
                Ok((Expression::Array(xs), q))
            },
        }
    }

    fn parse_expression_list(&self, p: usize, end: Token) -> (r: Result<
        (Vec<Expression>, usize),
        (String, usize),
    >)
        requires
            p < self.tokens.len(),
            is_plain(end),
        ensures
            exprs_step(r) == expression_list_at(self.tokens@, p as int, end),
            p <= end_of(r) <= self.tokens.len(),
        decreases self.tokens.len() - p, 3int,
    {
        let ghost ts = self.tokens@;
        if self.peek_is(p, &end) {
            let v: Vec<Expression> = Vec::new();
            assert(exprs_model(v@) =~= Seq::<ExprModel>::empty());
            return Ok((v, p + 1));
        }
        let (first, mut q) = match self.parse_expression(p + 1, Precedence::Lowest) {
            Err(e) => return Err(e),
            Ok(x) => x,
        };
        let ghost m0 = expr_model(first);
        let mut res: Vec<Expression> = Vec::new();
        res.push(first);
        assert(exprs_model(res@) =~= seq![m0]);
        while self.peek_is(q, &Token::Comma)
            invariant
                ts == self.tokens@,
                is_plain(end),
                p < q <= ts.len(),
                expression_list_rest(ts, exprs_model(res@), q as int, end) == expression_list_at(
                    ts,
                    p as int,
                    end,
                ),
            decreases self.tokens.len() - q,
        {
            match self.parse_expression(q + 2, Precedence::Lowest) {
                Err(e) => return Err(e),
                Ok((e, r)) => {
                    let ghost before = res@;
                    res.push(e);
                    assert(exprs_model(res@) =~= exprs_model(before).push(expr_model(e)));
                    q = r;
                },
            }
        }
        match self.expect_peek_token(q, end) {
            Err(e) => Err(e),
            Ok(r) => Ok((res, r)),
        }
    }

    fn parse_hash_expression(&self, p: usize) -> (r: Result<(Expression, usize), (String, usize)>)
        requires
            p <= self.tokens.len(),
        ensures
            expr_step(r) == hash_at(self.tokens@, p as int),
            p <= end_of(r) <= self.tokens.len(),
        decreases self.tokens.len() - p, 4int,
    {
        let ghost ts = self.tokens@;
        match self.expect_current_token(p, Token::LBrace) {
            Err(e) => return Err(e),
            Ok(_) => {},
        }
        if self.peek_is(p, &Token::RBrace) {
            let empty: Vec<(Expression, Expression)> = Vec::new();
            proof {
                lemma_hash_model(empty);
                assert(pairs_model(empty@) =~= Seq::<(ExprModel, ExprModel)>::empty());
            }
            return Ok((Expression::Hash(empty), p + 1));
        }
        let mut map: Vec<(Expression, Expression)> = Vec::new();
        let mut k: usize = p + 1;
        assert(pairs_model(map@) =~= Seq::<(ExprModel, ExprModel)>::empty());
        loop
            invariant
                ts == self.tokens@,
                p < k <= ts.len(),
                hash_rest(ts, pairs_model(map@), k as int) == hash_at(ts, p as int),
            decreases self.tokens.len() - k,
        {
            let (key, kq) = match self.parse_expression(k, Precedence::Lowest) {
                Err(e) => return Err(e),
                Ok(x) => x,
            };
            match self.expect_peek_token(kq, Token::Colon) {
                Err(e) => return Err(e),
                Ok(_) => {},
            }
            let (value, vq) = match self.parse_expression(kq + 2, Precedence::Lowest) {
                Err(e) => return Err(e),
                Ok(x) => x,
            };
            insert_entry(&mut map, key, value);
            if vq < self.tokens.len() && self.peek_is(vq, &Token::Comma) {
                k = vq + 2;
            } else {
                match self.expect_peek_token(vq, Token::RBrace) {
                    Err(e) => return Err(e),
                    Ok(r) => {
                        proof {
                            lemma_hash_model(map);
                        }
                        return Ok((Expression::Hash(map), r));
                    },
                }
            }
        }
    }

    fn parse_prefix_expression(&self, p: usize) -> (r: Result<(Expression, usize), (String, usize)>)
        requires
            p <= self.tokens.len(),
        ensures
            expr_step(r) == prefix_expression_at(self.tokens@, p as int),
            p <= end_of(r) <= self.tokens.len(),
        decreases self.tokens.len() - p, 4int,
    {
        let operator = match self.current_token(p) {
            Some(Token::Bang) => PrefixOperator::Bang,
            Some(Token::Minus) => PrefixOperator::Minus,
            t => return Err((parse_error(t, "prefix operator"), p)),
        };
        match self.parse_expression(p + 1, Precedence::Prefix) {
            Err(e) => Err(e),
            Ok((right, q)) => Ok((Expression::Prefix { operator, right: Box::new(right) }, q)),
        }
    }

    fn parse_infix_expression(&self, left: Expression, p: usize) -> (r: Result<
        (Expression, usize),
        (String, usize),
    >)
        requires
            p <= self.tokens.len(),
        ensures
            expr_step(r) == infix_expression_at(self.tokens@, expr_model(left), p as int),
            p <= end_of(r) <= self.tokens.len(),
        decreases self.tokens.len() - p, 4int,
    {
        let operator = match self.current_token(p) {
            Some(Token::Plus) => InfixOperator::Add,
            Some(Token::Minus) => InfixOperator::Sub,
            Some(Token::Asterisk) => InfixOperator::Mul,
            Some(Token::Slash) => InfixOperator::Div,
            Some(Token::LT) => InfixOperator::LT,
            Some(Token::GT) => InfixOperator::GT,
            Some(Token::Eq) => InfixOperator::Eq,
            Some(Token::NotEq) => InfixOperator::NotEq,
            t => return Err((parse_error(t, "infix operator"), p)),
        };
        let precedence = token_precedence(self.current_token(p));
        match self.parse_expression(p + 1, precedence) {
            Err(e) => Err(e),
            Ok((right, q)) => Ok(
                (Expression::Infix { left: Box::new(left), operator, right: Box::new(right) }, q),
            ),
        }
    }

    fn parse_grouped_expression(&self, p: usize) -> (r: Result<(Expression, usize), (String, usize)>)
        requires
            p <= self.tokens.len(),
        ensures
            expr_step(r) == grouped_at(self.tokens@, p as int),
            p <= end_of(r) <= self.tokens.len(),
        decreases self.tokens.len() - p, 4int,
    {
        match self.expect_current_token(p, Token::LParen) {
            Err(e) => return Err(e),
            Ok(_) => {},
        }
        match self.parse_expression(p + 1, Precedence::Lowest) {
            Err(e) => Err(e),
            Ok((e, q)) => match self.expect_peek_token(q, Token::RParen) {
                Err(err) => Err(err),
                Ok(r) => Ok((e, r)),
            },
        }
    }

    fn parse_if_expression(&self, p: usize) -> (r: Result<(Expression, usize), (String, usize)>)
        requires
            p <= self.tokens.len(),
        ensures
            expr_step(r) == if_at(self.tokens@, p as int),
            p <= end_of(r) <= self.tokens.len(),
        decreases self.tokens.len() - p, 4int,
    {
        match self.expect_current_token(p, Token::If) {
            Err(e) => return Err(e),
            Ok(_) => {},
        }
        match self.expect_peek_token(p, Token::LParen) {
            Err(e) => return Err(e),
            Ok(_) => {},
        }
        let (condition, q) = match self.parse_expression(p + 2, Precedence::Lowest) {
            Err(e) => return Err(e),
            Ok(x) => x,
        };
        match self.expect_peek_token(q, Token::RParen) {
            Err(e) => return Err(e),
            Ok(_) => {},
        }
        match self.expect_peek_token(q + 1, Token::LBrace) {
            Err(e) => return Err(e),
            Ok(_) => {},
        }
        let (consequence, r) = match self.parse_block_statement(q + 2) {
            Err(e) => return Err(e),
            Ok(x) => x,
        };
        if self.peek_is(r, &Token::Else) {
            match self.expect_peek_token(r + 1, Token::LBrace) {
                Err(e) => return Err(e),
                Ok(_) => {},
            }
            match self.parse_block_statement(r + 2) {
                Err(e) => Err(e),
                Ok((alt, s)) => Ok(
                    (
                        Expression::If {
                            condition: Box::new(condition),
                            consequence,
                            alternative: Some(alt),
                        },
                        s,
                    ),
                ),
            }
        } else {
            Ok(
                (
                    Expression::If {
                        condition: Box::new(condition),
                        consequence,
                        alternative: None,
                    },
                    r,
                ),
            )
        }
    }

    fn parse_function_parameters(&self, p: usize) -> (r: Result<
        (Vec<Identifier>, usize),
        (String, usize),
    >)
        requires
            p <= self.tokens.len(),
        ensures
            params_step(r) == parameters_at(self.tokens@, p as int),
            p <= end_of(r) <= self.tokens.len(),
    {
        let ghost ts = self.tokens@;
        match self.expect_current_token(p, Token::LParen) {
            Err(e) => return Err(e),
            Ok(_) => {},
        }
        if self.peek_is(p, &Token::RParen) {
            let v: Vec<Identifier> = Vec::new();
            assert(params_model(v@) =~= Seq::<Seq<char>>::empty());
            return Ok((v, p + 1));
        }
        let first = match self.parse_identifier(p + 1) {
            Err(m) => return Err((m, p + 1)),
            Ok(id) => id,
        };
        let mut res: Vec<Identifier> = Vec::new();
        res.push(first);
        let mut q: usize = p + 1;
        assert(params_model(res@) =~= seq![first.0@]);
        while self.peek_is(q, &Token::Comma)
            invariant
                ts == self.tokens@,
                p < q <= ts.len(),
                parameters_rest(ts, params_model(res@), q as int) == parameters_at(ts, p as int),
            decreases self.tokens.len() - q,
        {
            match self.parse_identifier(q + 2) {
                Err(m) => return Err((m, q + 2)),
                Ok(id) => {
                    let ghost before = res@;
                    let ghost name = id.0@;
                    res.push(id);
                    assert(params_model(res@) =~= params_model(before).push(name));
                },
            }
            q = q + 2;
        }
        match self.expect_peek_token(q, Token::RParen) {
            Err(e) => Err(e),
            Ok(r) => Ok((res, r)),
        }
    }

    fn parse_function_parts(&self, p: usize, keyword: Token) -> (r: Result<
        ((Vec<Identifier>, BlockStatement), usize),
        (String, usize),
    >)
        requires
            p <= self.tokens.len(),
            is_plain(keyword),
        ensures
            parts_step(r) == function_parts_at(self.tokens@, p as int, keyword),
            p <= end_of(r) <= self.tokens.len(),
        decreases self.tokens.len() - p, 3int,
    {
        match self.expect_current_token(p, keyword) {
            Err(e) => return Err(e),
            Ok(_) => {},
        }
        match self.expect_peek_token(p, Token::LParen) {
            Err(e) => return Err(e),
            Ok(_) => {},
        }
        let (params, q) = match self.parse_function_parameters(p + 1) {
            Err(e) => return Err(e),
            Ok(x) => x,
        };
        match self.expect_peek_token(q, Token::LBrace) {
            Err(e) => return Err(e),
            Ok(_) => {},
        }
        match self.parse_block_statement(q + 1) {
            Err(e) => Err(e),
            Ok((body, r)) => Ok(((params, body), r)),
        }
    }

    fn parse_function_expression(&self, p: usize) -> (r: Result<
        (Expression, usize),
        (String, usize),
    >)
        requires
            p <= self.tokens.len(),
        ensures
            expr_step(r) == function_at(self.tokens@, p as int),
            p <= end_of(r) <= self.tokens.len(),
        decreases self.tokens.len() - p, 4int,
    {
        match self.parse_function_parts(p, Token::Function) {
            Err(e) => Err(e),
            Ok(((params, body), r)) => Ok((Expression::Function(FunctionExpression { params, body }), r)),
        }
    }

    fn parse_macro_expression(&self, p: usize) -> (r: Result<(Expression, usize), (String, usize)>)
        requires
            p <= self.tokens.len(),
        ensures
            expr_step(r) == macro_at(self.tokens@, p as int),
            p <= end_of(r) <= self.tokens.len(),
        decreases self.tokens.len() - p, 4int,
    {
        match self.parse_function_parts(p, Token::Macro) {
            Err(e) => Err(e),
            Ok(((params, body), r)) => Ok((Expression::Macro(MacroExpression { params, body }), r)),
        }
    }

    fn parse_wrapped(&self, p: usize, keyword: Token) -> (r: Result<
        (Expression, usize),
        (String, usize),
    >)
        requires
            p <= self.tokens.len(),
            is_plain(keyword),
        ensures
            expr_step(r) == wrapped_at(self.tokens@, p as int, keyword),
            p <= end_of(r) <= self.tokens.len(),
        decreases self.tokens.len() - p, 3int,
    {
        match self.expect_current_token(p, keyword) {
            Err(e) => return Err(e),
            Ok(_) => {},
        }
        match self.expect_peek_token(p, Token::LParen) {
            Err(e) => return Err(e),
            Ok(_) => {},
        }
        match self.parse_expression(p + 2, Precedence::Lowest) {
            Err(e) => Err(e),
            Ok((e, q)) => match self.expect_peek_token(q, Token::RParen) {
                Err(err) => Err(err),
                Ok(r) => Ok((e, r)),
            },
        }
    }

    fn parse_quote_expression(&self, p: usize) -> (r: Result<(Expression, usize), (String, usize)>)
        requires
            p <= self.tokens.len(),
        ensures
            expr_step(r) == quote_at(self.tokens@, p as int),
            p <= end_of(r) <= self.tokens.len(),
        decreases self.tokens.len() - p, 4int,
    {
        match self.parse_wrapped(p, Token::Quote) {
            Err(e) => Err(e),
            Ok((e, r)) => Ok((Expression::Quote(Box::new(e)), r)),
        }
    }

    fn parse_unquote_expression(&self, p: usize) -> (r: Result<
        (Expression, usize),
        (String, usize),
    >)
        requires
            p <= self.tokens.len(),
        ensures
            expr_step(r) == unquote_at(self.tokens@, p as int),
            p <= end_of(r) <= self.tokens.len(),
        decreases self.tokens.len() - p, 4int,
    {
        match self.parse_wrapped(p, Token::Unquote) {
            Err(e) => Err(e),
            Ok((e, r)) => Ok((Expression::Unquote(Box::new(e)), r)),
        }
    }

    fn parse_call_expression(&self, function: Expression, p: usize) -> (r: Result<
        (Expression, usize),
        (String, usize),
    >)
        requires
            p < self.tokens.len(),
        ensures
            expr_step(r) == call_at(self.tokens@, expr_model(function), p as int),
            p <= end_of(r) <= self.tokens.len(),
        decreases self.tokens.len() - p, 4int,
    {
        let function = match function {
            Expression::Identifier(id) => CallExpressionFunction::Identifier(id),
            Expression::Function(f) => CallExpressionFunction::Function(f),
            other => return Err((callee_error(&other), p)),
        };
        match self.parse_expression_list(p, Token::RParen) {
            Err(e) => Err(e),
            Ok((args, q)) => {
                proof {
                    lemma_call_model(function, args);
                }
                Ok((Expression::Call { function, args }, q))
            },
        }
    }

    fn parse_index_expression(&self, left: Expression, p: usize) -> (r: Result<
        (Expression, usize),
        (String, usize),
    >)
        requires
            p <= self.tokens.len(),
        ensures
            expr_step(r) == index_at(self.tokens@, expr_model(left), p as int),
            p <= end_of(r) <= self.tokens.len(),
        decreases self.tokens.len() - p, 4int,
    {
        match self.expect_current_token(p, Token::LBracket) {
            Err(e) => return Err(e),
            Ok(_) => {},
        }
        match self.parse_expression(p + 1, Precedence::Lowest) {
            Err(e) => Err(e),
            Ok((index, q)) => match self.expect_peek_token(q, Token::RBracket) {
                Err(err) => Err(err),
                Ok(r) => Ok(
                    (Expression::Index { left: Box::new(left), index: Box::new(index) }, r),
                ),
            },
        }
    }
}

fn precedence_rank(p: Precedence) -> (r: u8)
    ensures
        r as int == rank(p),
{
    match p {
        Precedence::Lowest => 0,
        Precedence::Equals => 1,
        Precedence::LessGreater => 2,
        Precedence::Sum => 3,
        Precedence::Product => 4,
        Precedence::Prefix => 5,
        Precedence::Call => 6,
        Precedence::Index => 7,
    }
}

fn token_precedence(t: Option<&Token>) -> (r: Precedence)
    ensures
        r == precedence_of(deref_opt(t)),
{
    match t {
        Some(Token::Plus) | Some(Token::Minus) => Precedence::Sum,
        Some(Token::Asterisk) | Some(Token::Slash) => Precedence::Product,
        Some(Token::LT) | Some(Token::GT) => Precedence::LessGreater,
        Some(Token::Eq) | Some(Token::NotEq) => Precedence::Equals,
        Some(Token::LParen) => Precedence::Call,
        Some(Token::LBracket) => Precedence::Index,
        _ => Precedence::Lowest,
    }
}

} // verus!
