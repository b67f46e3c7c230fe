//! The grammar as spec functions over a token sequence. Each function
//! takes the position of the current token and gives either the model of
//! what it read with the position of the last token it used, or an error
//! message with the position at which reading stopped. A step never ends
//! before the position it starts at; the comparisons of positions that
//! guard some recursive calls only make that visible to the termination
//! check, and their other branches are never taken.
use vstd::prelude::*;
use crate::model::{CalleeModel, ExprModel, StmtModel, with_entry};
use crate::token::{Token, describe, describe_opt};
use crate::ast::{InfixOperator, PrefixOperator};
use crate::describe::expr_debug;

verus! {

/// Binding strength, weakest first.
#[derive(Debug, PartialEq, Eq, Structural, Clone, Copy)]
pub enum Precedence {
    Lowest,
    Equals,
    LessGreater,
    Sum,
    Product,
    Prefix,
    Call,
    Index,
}

pub open spec fn rank(p: Precedence) -> int {
    match p {
        Precedence::Lowest => 0,
        Precedence::Equals => 1,
        Precedence::LessGreater => 2,
        Precedence::Sum => 3,
        Precedence::Product => 4,
        Precedence::Prefix => 5,
        Precedence::Call => 6,
        Precedence::Index => 7,
    }
}

/// How strongly a token binds as an infix operator, a call or an index.
pub open spec fn precedence_of(t: Option<Token>) -> Precedence {
    match t {
        Some(Token::Plus) | Some(Token::Minus) => Precedence::Sum,
        Some(Token::Asterisk) | Some(Token::Slash) => Precedence::Product,
        Some(Token::LT) | Some(Token::GT) => Precedence::LessGreater,
        Some(Token::Eq) | Some(Token::NotEq) => Precedence::Equals,
        Some(Token::LParen) => Precedence::Call,
        Some(Token::LBracket) => Precedence::Index,
        _ => Precedence::Lowest,
    }
}

/// The value of an integer literal: an optional sign, then one or more
/// decimal digits, within the range of `i64`.
pub open spec fn int_literal_value(s: Seq<char>) -> Option<i64> {
    let neg = s.len() > 0 && s[0] == '-';
    let ds = if s.len() > 0 && (s[0] == '-' || s[0] == '+') {
        s.subrange(1, s.len() as int)
    } else {
        s
    };
    let v = if neg {
        -digits_value(ds)
    } else {
        digits_value(ds)
    };
    if ds.len() > 0 && (forall|i: int| 0 <= i < ds.len() ==> '0' <= #[trigger] ds[i] <= '9')
        && i64::MIN <= v <= i64::MAX {
        Some(v as i64)
    } else {
        None
    }
}

pub open spec fn digits_value(ds: Seq<char>) -> int
    decreases ds.len(),
{
    if ds.len() == 0 {
        0
    } else {
        digits_value(ds.drop_last()) * 10 + (ds.last() as int - '0' as int)
    }
}

pub open spec fn token_message(expected: Token, got: Option<Token>) -> Seq<char> {
    "expected token to be "@ + describe(expected) + ", got "@ + describe_opt(got) + " instead"@
}

pub open spec fn parse_message(got: Option<Token>, what: Seq<char>) -> Seq<char> {
    "could not parse "@ + describe_opt(got) + " as "@ + what
}

pub open spec fn callee_message(m: ExprModel) -> Seq<char> {
    "could not parse "@ + expr_debug(m) + " as call expression function"@
}

/// The outcome of reading one construct.
pub type Step<T> = Result<(T, int), (Seq<char>, int)>;

pub open spec fn tok_at(ts: Seq<Token>, i: int) -> Option<Token> {
    if 0 <= i < ts.len() {
        Some(ts[i])
    } else {
        None
    }
}

/// The next token must be `expected`; on success, its position.
pub open spec fn expect_peek(ts: Seq<Token>, p: int, expected: Token) -> Result<int, (Seq<char>, int)> {
    if tok_at(ts, p + 1) == Some(expected) {
        Ok(p + 1)
    } else {
        Err((token_message(expected, tok_at(ts, p + 1)), p))
    }
}

/// The current token must be `expected`; a failure names the next token.
pub open spec fn expect_current(ts: Seq<Token>, p: int, expected: Token) -> Result<int, (Seq<char>, int)> {
    if tok_at(ts, p) == Some(expected) {
        Ok(p)
    } else {
        Err((token_message(expected, tok_at(ts, p + 1)), p))
    }
}

pub open spec fn identifier_at(ts: Seq<Token>, i: int) -> Result<Seq<char>, Seq<char>> {
    match tok_at(ts, i) {
        Some(Token::Identifier(s)) => Ok(s@),
        t => Err(parse_message(t, "identifier"@)),
    }
}

/// The position after an optional semicolon that follows `q`.
pub open spec fn skip_semicolon(ts: Seq<Token>, q: int) -> int {
    if tok_at(ts, q + 1) == Some(Token::Semicolon) {
        q + 1
    } else {
        q
    }
}

pub open spec fn statement_at(ts: Seq<Token>, p: int) -> Step<StmtModel>
    decreases ts.len() - p, 9int,
{
    match tok_at(ts, p) {
        Some(Token::Let) => let_at(ts, p),
        Some(Token::Return) => return_at(ts, p),
        Some(_) => expr_statement_at(ts, p),
        None => Err((parse_message(None, "statement"@), p)),
    }
}

pub open spec fn let_at(ts: Seq<Token>, p: int) -> Step<StmtModel>
    decreases ts.len() - p, 8int,
{
    match expect_current(ts, p, Token::Let) {
        Err(e) => Err(e),
        Ok(_) => match identifier_at(ts, p + 1) {
            Err(m) => Err((m, p + 1)),
            Ok(name) => match expect_peek(ts, p + 1, Token::Assign) {
                Err(e) => Err(e),
                Ok(_) => match expression_at(ts, p + 3, Precedence::Lowest) {
                    Err(e) => Err(e),
                    Ok((e, q)) => Ok((StmtModel::Let(name, e), skip_semicolon(ts, q))),
                },
            },
        },
    }
}

pub open spec fn return_at(ts: Seq<Token>, p: int) -> Step<StmtModel>
    decreases ts.len() - p, 8int,
{
    match expect_current(ts, p, Token::Return) {
        Err(e) => Err(e),
        Ok(_) => match expression_at(ts, p + 1, Precedence::Lowest) {
            Err(e) => Err(e),
            Ok((e, q)) => Ok((StmtModel::Return(e), skip_semicolon(ts, q))),
        },
    }
}

pub open spec fn expr_statement_at(ts: Seq<Token>, p: int) -> Step<StmtModel>
    decreases ts.len() - p, 8int,
{
    match expression_at(ts, p, Precedence::Lowest) {
        Err(e) => Err(e),
        Ok((e, q)) => Ok((StmtModel::Expression(e), skip_semicolon(ts, q))),
    }
}

/// A braced block: statements up to the closing brace, which must come
/// before the end of input.
pub open spec fn block_at(ts: Seq<Token>, p: int) -> Step<Seq<StmtModel>>
    decreases ts.len() - p, 4int,
{
    match expect_current(ts, p, Token::LBrace) {
        Err(e) => Err(e),
        Ok(_) => block_rest(ts, Seq::empty(), p + 1),
    }
}

pub open spec fn block_rest(ts: Seq<Token>, acc: Seq<StmtModel>, p: int) -> Step<Seq<StmtModel>>
    decreases ts.len() - p, 10int,
{
    if tok_at(ts, p) is None {
        Err((token_message(Token::RBrace, None), p))
    } else if tok_at(ts, p) == Some(Token::RBrace) {
        Ok((acc, p))
    } else {
        match statement_at(ts, p) {
            Err(e) => Err(e),
            Ok((s, q)) => if p <= q < ts.len() {
                block_rest(ts, acc.push(s), q + 1)
            } else {
                Err((token_message(Token::RBrace, None), q))
            },
        }
    }
}

/// An expression whose infix operators all bind more strongly than `prec`.
pub open spec fn expression_at(ts: Seq<Token>, p: int, prec: Precedence) -> Step<ExprModel>
    decreases ts.len() - p, 7int,
{
    match prefix_at(ts, p) {
        Err(e) => Err(e),
        Ok((left, q)) => if p <= q <= ts.len() {
            infix_rest(ts, left, q, prec)
        } else {
            Ok((left, q))
        },
    }
}

/// Extends `left`, which ends at `q`, while the next token binds more
/// strongly than `prec`.
pub open spec fn infix_rest(ts: Seq<Token>, left: ExprModel, q: int, prec: Precedence) -> Step<
    ExprModel,
>
    decreases ts.len() - q, 5int,
{
    let next = tok_at(ts, q + 1);
    if next is Some && next != Some(Token::Semicolon) && rank(prec) < rank(precedence_of(next)) {
        match infix_at(ts, left, q) {
            Err(e) => Err(e),
            Ok((e, r)) => if q < r <= ts.len() {
                infix_rest(ts, e, r, prec)
            } else {
                Ok((e, r))
            },
        }
    } else {
        Ok((left, q))
    }
}

/// One infix step on `left`, chosen by the token after `q`: a call, an
/// index, or a binary operator. With no next token, or one that has no
/// infix rule, `left` comes back as it is and nothing is read.
pub open spec fn infix_at(ts: Seq<Token>, left: ExprModel, q: int) -> Step<ExprModel>
    decreases ts.len() - q, 4int,
{
    let next = tok_at(ts, q + 1);
    if next == Some(Token::LParen) {
        call_at(ts, left, q + 1)
    } else if next == Some(Token::LBracket) {
        index_at(ts, left, q + 1)
    } else if infix_operator_of(next) is Some {
        infix_expression_at(ts, left, q + 1)
    } else {
        Ok((left, q))
    }
}

pub open spec fn prefix_at(ts: Seq<Token>, p: int) -> Step<ExprModel>
    decreases ts.len() - p, 6int,
{
    match tok_at(ts, p) {
        Some(Token::Identifier(s)) => Ok((ExprModel::Identifier(s@), p)),
        Some(Token::Int(s)) => match int_literal_value(s@) {
            Some(n) => Ok((ExprModel::Integer(n), p)),
            None => Err((parse_message(tok_at(ts, p), "integer"@), p)),
        },
        Some(Token::True) => Ok((ExprModel::Boolean(true), p)),
        Some(Token::False) => Ok((ExprModel::Boolean(false), p)),
        Some(Token::String(s)) => Ok((ExprModel::Str(s@), p)),
        Some(Token::LBracket) => array_at(ts, p),
        Some(Token::LBrace) => hash_at(ts, p),
        Some(Token::Bang) => prefix_expression_at(ts, p),
        Some(Token::Minus) => prefix_expression_at(ts, p),
        Some(Token::LParen) => grouped_at(ts, p),
        Some(Token::If) => if_at(ts, p),
        Some(Token::Function) => function_at(ts, p),
        Some(Token::Quote) => quote_at(ts, p),
        Some(Token::Unquote) => unquote_at(ts, p),
        Some(Token::Macro) => macro_at(ts, p),
        t => Err((parse_message(t, "prefix expression"@), p)),
    }
}

pub open spec fn array_at(ts: Seq<Token>, p: int) -> Step<ExprModel>
    decreases ts.len() - p, 4int,
{
    match expect_current(ts, p, Token::LBracket) {
        Err(e) => Err(e),
        Ok(_) => match expression_list_at(ts, p, Token::RBracket) {
            Err(e) => Err(e),
            Ok((xs, q)) => Ok((ExprModel::Array(xs), q)),
        },
    }
}

/// Comma-separated expressions after `p`, up to the token `end`.
pub open spec fn expression_list_at(ts: Seq<Token>, p: int, end: Token) -> Step<Seq<ExprModel>>
    decreases ts.len() - p, 3int,
{
    if tok_at(ts, p + 1) == Some(end) {
        Ok((Seq::empty(), p + 1))
    } else if p < ts.len() {
        match expression_at(ts, p + 1, Precedence::Lowest) {
            Err(e) => Err(e),
            Ok((e, q)) => if p < q <= ts.len() {
                expression_list_rest(ts, seq![e], q, end)
            } else {
                Ok((seq![e], q))
            },
        }
    } else {
        Err((parse_message(None, "prefix expression"@), p + 1))
    }
}

pub open spec fn expression_list_rest(
    ts: Seq<Token>,
    acc: Seq<ExprModel>,
    q: int,
    end: Token,
) -> Step<Seq<ExprModel>>
    decreases ts.len() - q, 2int,
{
    if tok_at(ts, q + 1) == Some(Token::Comma) {
        match expression_at(ts, q + 2, Precedence::Lowest) {
            Err(e) => Err(e),
            Ok((e, r)) => if q < r <= ts.len() {
                expression_list_rest(ts, acc.push(e), r, end)
            } else {
                Ok((acc.push(e), r))
            },
        }
    } else {
        match expect_peek(ts, q, end) {
            Err(e) => Err(e),
            Ok(r) => Ok((acc, r)),
        }
    }
}

/// `{}`, or entries `key: value` separated by commas and closed by `}`;
/// a comma must be followed by another entry.
pub open spec fn hash_at(ts: Seq<Token>, p: int) -> Step<ExprModel>
    decreases ts.len() - p, 4int,
{
    match expect_current(ts, p, Token::LBrace) {
        Err(e) => Err(e),
        Ok(_) => if tok_at(ts, p + 1) == Some(Token::RBrace) {
            Ok((ExprModel::Hash(Seq::empty()), p + 1))
        } else {
            hash_rest(ts, Seq::empty(), p + 1)
        },
    }
}

/// The entries from the key at `k` on, added to `acc`.
pub open spec fn hash_rest(ts: Seq<Token>, acc: Seq<(ExprModel, ExprModel)>, k: int) -> Step<
    ExprModel,
>
    decreases ts.len() - k, 8int,
{
    match expression_at(ts, k, Precedence::Lowest) {
        Err(e) => Err(e),
        Ok((key, q)) => match expect_peek(ts, q, Token::Colon) {
            Err(e) => Err(e),
            Ok(_) => if k <= q {
                match expression_at(ts, q + 2, Precedence::Lowest) {
                    Err(e) => Err(e),
                    Ok((value, r)) => {
                        let acc2 = with_entry(acc, key, value);
                        if tok_at(ts, r + 1) == Some(Token::Comma) && k <= r {
                            hash_rest(ts, acc2, r + 2)
                        } else {
                            match expect_peek(ts, r, Token::RBrace) {
                                Err(e) => Err(e),
                                Ok(e) => Ok((ExprModel::Hash(acc2), e)),
                            }
                        }
                    },
                }
            } else {
                Ok((ExprModel::Hash(acc), q))
            },
        },
    }
}

pub open spec fn prefix_expression_at(ts: Seq<Token>, p: int) -> Step<ExprModel>
    decreases ts.len() - p, 4int,
{
    let op = match tok_at(ts, p) {
        Some(Token::Bang) => Some(PrefixOperator::Bang),
        Some(Token::Minus) => Some(PrefixOperator::Minus),
        _ => None,
    };
    match op {
        None => Err((parse_message(tok_at(ts, p), "prefix operator"@), p)),
        Some(op) => match expression_at(ts, p + 1, Precedence::Prefix) {
            Err(e) => Err(e),
            Ok((right, q)) => Ok((ExprModel::Prefix(op, Box::new(right)), q)),
        },
    }
}

pub open spec fn infix_operator_of(t: Option<Token>) -> Option<InfixOperator> {
    match t {
        Some(Token::Plus) => Some(InfixOperator::Add),
        Some(Token::Minus) => Some(InfixOperator::Sub),
        Some(Token::Asterisk) => Some(InfixOperator::Mul),
        Some(Token::Slash) => Some(InfixOperator::Div),
        Some(Token::LT) => Some(InfixOperator::LT),
        Some(Token::GT) => Some(InfixOperator::GT),
        Some(Token::Eq) => Some(InfixOperator::Eq),
        Some(Token::NotEq) => Some(InfixOperator::NotEq),
        _ => None,
    }
}

/// The operator at `p` and its right operand, read at the operator's own
/// precedence, so that equal operators group to the left.
pub open spec fn infix_expression_at(ts: Seq<Token>, left: ExprModel, p: int) -> Step<ExprModel>
    decreases ts.len() - p, 4int,
{
    match infix_operator_of(tok_at(ts, p)) {
        None => Err((parse_message(tok_at(ts, p), "infix operator"@), p)),
        Some(op) => match expression_at(ts, p + 1, precedence_of(tok_at(ts, p))) {
            Err(e) => Err(e),
            Ok((right, q)) => Ok((ExprModel::Infix(Box::new(left), op, Box::new(right)), q)),
        },
    }
}

pub open spec fn grouped_at(ts: Seq<Token>, p: int) -> Step<ExprModel>
    decreases ts.len() - p, 4int,
{
    match expect_current(ts, p, Token::LParen) {
        Err(e) => Err(e),
        Ok(_) => match expression_at(ts, p + 1, Precedence::Lowest) {
            Err(e) => Err(e),
            Ok((e, q)) => match expect_peek(ts, q, Token::RParen) {
                Err(err) => Err(err),
                Ok(r) => Ok((e, r)),
            },
        },
    }
}

pub open spec fn if_at(ts: Seq<Token>, p: int) -> Step<ExprModel>
    decreases ts.len() - p, 4int,
{
    match expect_current(ts, p, Token::If) {
        Err(e) => Err(e),
        Ok(_) => match expect_peek(ts, p, Token::LParen) {
            Err(e) => Err(e),
            Ok(_) => match expression_at(ts, p + 2, Precedence::Lowest) {
                Err(e) => Err(e),
                Ok((c, q)) => match expect_peek(ts, q, Token::RParen) {
                    Err(e) => Err(e),
                    Ok(_) => match expect_peek(ts, q + 1, Token::LBrace) {
                        Err(e) => Err(e),
                        Ok(_) => if p <= q {
                            match block_at(ts, q + 2) {
                                Err(e) => Err(e),
                                Ok((b, r)) => if tok_at(ts, r + 1) == Some(Token::Else) && p
                                    <= r {
                                    match expect_peek(ts, r + 1, Token::LBrace) {
                                        Err(e) => Err(e),
                                        Ok(_) => match block_at(ts, r + 2) {
                                            Err(e) => Err(e),
                                            Ok((alt, s)) => Ok(
                                                (
                                                    ExprModel::If(Box::new(c), b, Some(alt)),
                                                    s,
                                                ),
                                            ),
                                        },
                                    }
                                } else {
                                    Ok((ExprModel::If(Box::new(c), b, None), r))
                                },
                            }
                        } else {
                            Ok((ExprModel::If(Box::new(c), Seq::empty(), None), q))
                        },
                    },
                },
            },
        },
    }
}

/// Comma-separated names in parentheses, the `(` at `p`.
pub open spec fn parameters_at(ts: Seq<Token>, p: int) -> Step<Seq<Seq<char>>> {
    match expect_current(ts, p, Token::LParen) {
        Err(e) => Err(e),
        Ok(_) => if tok_at(ts, p + 1) == Some(Token::RParen) {
            Ok((Seq::empty(), p + 1))
        } else {
            match identifier_at(ts, p + 1) {
                Err(m) => Err((m, p + 1)),
                Ok(name) => parameters_rest(ts, seq![name], p + 1),
            }
        },
    }
}

pub open spec fn parameters_rest(ts: Seq<Token>, acc: Seq<Seq<char>>, q: int) -> Step<
    Seq<Seq<char>>,
>
    decreases ts.len() - q,
{
    if tok_at(ts, q + 1) == Some(Token::Comma) {
        match identifier_at(ts, q + 2) {
            Err(m) => Err((m, q + 2)),
            Ok(name) => parameters_rest(ts, acc.push(name), q + 2),
        }
    } else {
        match expect_peek(ts, q, Token::RParen) {
            Err(e) => Err(e),
            Ok(r) => Ok((acc, r)),
        }
    }
}

/// `fn` or `macro` at `p`, then parameters and a block.
pub open spec fn function_parts_at(ts: Seq<Token>, p: int, keyword: Token) -> Step<
    (Seq<Seq<char>>, Seq<StmtModel>),
>
    decreases ts.len() - p, 3int,
{
    match expect_current(ts, p, keyword) {
        Err(e) => Err(e),
        Ok(_) => match expect_peek(ts, p, Token::LParen) {
            Err(e) => Err(e),
            Ok(_) => match parameters_at(ts, p + 1) {
                Err(e) => Err(e),
                Ok((ps, q)) => match expect_peek(ts, q, Token::LBrace) {
                    Err(e) => Err(e),
                    Ok(_) => if p <= q {
                        match block_at(ts, q + 1) {
                            Err(e) => Err(e),
                            Ok((b, r)) => Ok(((ps, b), r)),
                        }
                    } else {
                        Ok(((ps, Seq::empty()), q))
                    },
                },
            },
        },
    }
}

pub open spec fn function_at(ts: Seq<Token>, p: int) -> Step<ExprModel>
    decreases ts.len() - p, 4int,
{
    match function_parts_at(ts, p, Token::Function) {
        Err(e) => Err(e),
        Ok(((ps, b), r)) => Ok((ExprModel::Function(ps, b), r)),
    }
}

pub open spec fn macro_at(ts: Seq<Token>, p: int) -> Step<ExprModel>
    decreases ts.len() - p, 4int,
{
    match function_parts_at(ts, p, Token::Macro) {
        Err(e) => Err(e),
        Ok(((ps, b), r)) => Ok((ExprModel::Macro(ps, b), r)),
    }
}

/// `keyword ( <expression> )` at `p`.
pub open spec fn wrapped_at(ts: Seq<Token>, p: int, keyword: Token) -> Step<ExprModel>
    decreases ts.len() - p, 3int,
{
    match expect_current(ts, p, keyword) {
        Err(e) => Err(e),
        Ok(_) => match expect_peek(ts, p, Token::LParen) {
            Err(e) => Err(e),
            Ok(_) => match expression_at(ts, p + 2, Precedence::Lowest) {
                Err(e) => Err(e),
                Ok((e, q)) => match expect_peek(ts, q, Token::RParen) {
                    Err(err) => Err(err),
                    Ok(r) => Ok((e, r)),
                },
            },
        },
    }
}

pub open spec fn quote_at(ts: Seq<Token>, p: int) -> Step<ExprModel>
    decreases ts.len() - p, 4int,
{
    match wrapped_at(ts, p, Token::Quote) {
        Err(e) => Err(e),
        Ok((e, r)) => Ok((ExprModel::Quote(Box::new(e)), r)),
    }
}

pub open spec fn unquote_at(ts: Seq<Token>, p: int) -> Step<ExprModel>
    decreases ts.len() - p, 4int,
{
    match wrapped_at(ts, p, Token::Unquote) {
        Err(e) => Err(e),
        Ok((e, r)) => Ok((ExprModel::Unquote(Box::new(e)), r)),
    }
}

/// A call of `callee`, whose `(` is at `p`.
pub open spec fn call_at(ts: Seq<Token>, callee: ExprModel, p: int) -> Step<ExprModel>
    decreases ts.len() - p, 4int,
{
    let function = match callee {
        ExprModel::Identifier(name) => Some(CalleeModel::Identifier(name)),
        ExprModel::Function(ps, b) => Some(CalleeModel::Function(ps, b)),
        _ => None,
    };
    match function {
        None => Err((callee_message(callee), p)),
        Some(f) => match expression_list_at(ts, p, Token::RParen) {
            Err(e) => Err(e),
            Ok((args, q)) => Ok((ExprModel::Call(f, args), q)),
        },
    }
}

/// An index into `left`, whose `[` is at `p`.
pub open spec fn index_at(ts: Seq<Token>, left: ExprModel, p: int) -> Step<ExprModel>
    decreases ts.len() - p, 4int,
{
    match expect_current(ts, p, Token::LBracket) {
        Err(e) => Err(e),
        Ok(_) => match expression_at(ts, p + 1, Precedence::Lowest) {
            Err(e) => Err(e),
            Ok((i, q)) => match expect_peek(ts, q, Token::RBracket) {
                Err(err) => Err(err),
                Ok(r) => Ok((ExprModel::Index(Box::new(left), Box::new(i)), r)),
            },
        },
    }
}

/// The outcome once reading stops: the statements if nothing failed,
/// otherwise every message.
pub open spec fn finish(stmts: Seq<StmtModel>, errs: Seq<Seq<char>>) -> Result<
    Seq<StmtModel>,
    Seq<Seq<char>>,
> {
    if errs.len() == 0 {
        Ok(stmts)
    } else {
        Err(errs)
    }
}

/// Reads statements from `p` to the end of input. A statement that fails
/// adds its message, and reading goes on one token after where it stopped.
pub open spec fn program_rest(
    ts: Seq<Token>,
    stmts: Seq<StmtModel>,
    errs: Seq<Seq<char>>,
    p: int,
) -> Result<Seq<StmtModel>, Seq<Seq<char>>>
    decreases ts.len() + 1 - p,
{
    if 0 <= p < ts.len() {
        let (stmts2, errs2, next) = match statement_at(ts, p) {
            Ok((s, q)) => (stmts.push(s), errs, q + 1),
            Err((m, q)) => (stmts, errs.push(m), q + 1),
        };
        if p < next <= ts.len() + 1 {
            program_rest(ts, stmts2, errs2, next)
        } else {
            finish(stmts2, errs2)
        }
    } else {
        finish(stmts, errs)
    }
}

/// The statements of a whole token sequence, or every message collected.
pub open spec fn parse_tokens(ts: Seq<Token>) -> Result<Seq<StmtModel>, Seq<Seq<char>>> {
    program_rest(ts, Seq::empty(), Seq::empty(), 0)
}

} // verus!
