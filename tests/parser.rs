use monkey_front::ast::{
    BlockStatement, CallExpressionFunction, Expression, FunctionExpression, Identifier,
    InfixOperator, MacroExpression, PrefixOperator, Program, Statement,
};
use monkey_front::evaluator::eval;
use monkey_front::lexer::Lexer;
use monkey_front::object::Object;
use monkey_front::order::expr_compare;
use monkey_front::describe::describe_expression;
use monkey_front::parser::{parse, Errors};
use monkey_front::token::Token;

type Result<T> = std::result::Result<T, Box<dyn std::error::Error>>;

// Turns source text into tokens, standing in for the language's lexer.
fn lex(input: &str) -> Lexer {
    let chars: Vec<char> = input.chars().collect();
    let mut tokens = Vec::new();
    let mut i = 0;
    while i < chars.len() {
        let c = chars[i];
        if c.is_whitespace() {
            i += 1;
            continue;
        }
        let next = if i + 1 < chars.len() { Some(chars[i + 1]) } else { None };
        let tok = if c == '=' && next == Some('=') {
            i += 1;
            Token::Eq
        } else if c == '!' && next == Some('=') {
            i += 1;
            Token::NotEq
        } else if c == '"' {
            let start = i + 1;
            let mut j = start;
            while j < chars.len() && chars[j] != '"' {
                j += 1;
            }
            let s: String = chars[start..j].iter().collect();
            i = j;
            Token::String(s)
        } else if c.is_ascii_alphabetic() || c == '_' {
            let start = i;
            let mut j = i;
            while j < chars.len() && (chars[j].is_ascii_alphanumeric() || chars[j] == '_') {
                j += 1;
            }
            let word: String = chars[start..j].iter().collect();
            i = j - 1;
            match word.as_str() {
                "fn" => Token::Function,
                "let" => Token::Let,
                "true" => Token::True,
                "false" => Token::False,
                "if" => Token::If,
                "else" => Token::Else,
                "return" => Token::Return,
                "macro" => Token::Macro,
                "quote" => Token::Quote,
                "unquote" => Token::Unquote,
                _ => Token::Identifier(word),
            }
        } else if c.is_ascii_digit() {
            let start = i;
            let mut j = i;
            while j < chars.len() && chars[j].is_ascii_digit() {
                j += 1;
            }
            i = j - 1;
            Token::Int(chars[start..j].iter().collect())
        } else {
            match c {
                '=' => Token::Assign,
                '+' => Token::Plus,
                '-' => Token::Minus,
                '!' => Token::Bang,
                '*' => Token::Asterisk,
                '/' => Token::Slash,
                '<' => Token::LT,
                '>' => Token::GT,
                ',' => Token::Comma,
                ';' => Token::Semicolon,
                ':' => Token::Colon,
                '(' => Token::LParen,
                ')' => Token::RParen,
                '{' => Token::LBrace,
                '}' => Token::RBrace,
                '[' => Token::LBracket,
                ']' => Token::RBracket,
                other => Token::Illegal(other.to_string()),
            }
        };
        tokens.push(tok);
        i += 1;
    }
    Lexer::from_tokens(tokens)
}

fn parse_ok(input: &str) -> Result<Program> {
    parse(lex(input)).map_err(|e| e.message().into())
}

fn ident(name: &str) -> Expression {
    Expression::Identifier(Identifier(name.to_string()))
}

fn new_string_expr(s: &str) -> Expression {
    Expression::String(s.to_string())
}

fn new_int_expr(n: i64) -> Expression {
    Expression::Integer(n)
}

fn hash_get<'a>(v: &'a [(Expression, Expression)], key: &Expression) -> &'a Expression {
    &v.iter().find(|(k, _)| k == key).expect("key present").1
}

fn parse_expression_statement<F>(s: &Statement, f: F)
where
    F: FnOnce(&Expression),
{
    match s {
        Statement::Expression(expr) => f(expr),
        _ => panic!("statement is not `Expression`. got={:?}", s),
    };
}

fn test_let_statement(s: &Statement, id: &str, value: Expression) {
    match s {
        Statement::Let { identifier, expression } => {
            test_identifier(identifier, id);
            assert_eq!(expression, &value);
        }
        _ => panic!("statement not `let`. got={:?}", s),
    };
}

fn test_return_statement(s: &Statement, expr: Expression) {
    match s {
        Statement::Return(e) => assert_eq!(e, &expr),
        _ => panic!("statement not `return`. got={:?}", s),
    };
}

fn test_identifier_expression(expr: &Expression, name: &str) {
    match expr {
        Expression::Identifier(id) => test_identifier(id, name),
        _ => panic!("expression not identifier. got={:?}", expr),
    };
}

fn test_identifier(id: &Identifier, name: &str) {
    assert_eq!(id.0, name);
}

fn test_integer_expression(expr: &Expression, n: i64) {
    match expr {
        Expression::Integer(v) => assert_eq!(*v, n),
        _ => panic!("expression not integer. got={:?}", expr),
    };
}

fn test_infix_expression(expr: &Expression, l: Expression, op: InfixOperator, r: Expression) {
    match expr {
        Expression::Infix { left, operator, right } => {
            assert_eq!(**left, l);
            assert_eq!(*operator, op);
            assert_eq!(**right, r);
        }
        _ => panic!("expression not infix. got={:?}", expr),
    };
}

fn test_prefix_expression(expr: &Expression, op: PrefixOperator, r: Expression) {
    match expr {
        Expression::Prefix { operator, right } => {
            assert_eq!(*operator, op);
            assert_eq!(**right, r);
        }
        _ => panic!("expression not prefix. got={:?}", expr),
    };
}

fn single_expression(input: &str) -> Expression {
    let program = parse_ok(input).unwrap();
    assert_eq!(program.statements.len(), 1);
    match program.statements.into_iter().next().unwrap() {
        Statement::Expression(e) => e,
        s => panic!("statement is not `Expression`. got={:?}", s),
    }
}

fn messages(input: &str) -> Vec<String> {
    match parse(lex(input)) {
        Ok(p) => panic!("parse succeeded: {:?}", p),
        Err(Errors(v)) => v,
    }
}

#[test]
fn parse_let_statement() -> Result<()> {
    // (input, identifer, value)
    let cases = vec![
        ("let x = 5;", "x", Expression::Integer(5)),
        ("let y = true;", "y", Expression::Boolean(true)),
        ("let foobar = y;", "foobar", Expression::from(Identifier("y".to_string()))),
    ];
    for (input, id, value) in cases {
        let program = parse_ok(input)?;
        assert_eq!(program.statements.len(), 1);
        let s = &program.statements[0];
        test_let_statement(s, id, value);
    }
    Ok(())
}

#[test]
fn parse_return_statement() -> Result<()> {
    // (input, expression)
    let cases = vec![
        ("return 5;", Expression::Integer(5)),
        ("return true;", Expression::Boolean(true)),
        (
            "return 1 + foo;",
            Expression::Infix {
                left: Box::new(Expression::Integer(1)),
                operator: InfixOperator::Add,
                right: Box::new(Expression::from(Identifier("foo".to_string()))),
            },
        ),
    ];
    for (input, expression) in cases {
        let program = parse_ok(input)?;
        assert_eq!(program.statements.len(), 1);
        let s = &program.statements[0];
        test_return_statement(s, expression);
    }
    Ok(())
}

#[test]
fn parse_identifier_expression() -> Result<()> {
    let input = r#"
        foobar;
        "#;
    let program = parse_ok(input)?;
    assert_eq!(program.statements.len(), 1);
    let s = &program.statements[0];
    parse_expression_statement(s, |expr| test_identifier_expression(expr, "foobar"));
    Ok(())
}

#[test]
fn parse_integer_expression() -> Result<()> {
    let input = r#"
        5;
        "#;
    let program = parse_ok(input)?;
    assert_eq!(program.statements.len(), 1);
    let s = &program.statements[0];
    parse_expression_statement(s, |expr| test_integer_expression(expr, 5));
    Ok(())
}

#[test]
fn parse_string_expression() -> Result<()> {
    // (input, expected)
    let tests = vec![(r#""foobar""#, "foobar"), (r#""foo bar""#, "foo bar"), (r#""""#, "")];
    for (input, expected) in tests {
        let program = parse_ok(input)?;
        assert_eq!(program.statements.len(), 1);
        let s = &program.statements[0];
        parse_expression_statement(s, |expr| match expr {
            Expression::String(s) => assert_eq!(s, &expected),
            _ => panic!("expression is not string. got={:?}", expr),
        });
    }
    Ok(())
}

#[test]
fn parse_array_expression() -> Result<()> {
    let input = r#"[1, 2 * 2, 3 + 3]"#;
    let program = parse_ok(input)?;
    assert_eq!(program.statements.len(), 1);
    let s = &program.statements[0];
    parse_expression_statement(s, |expr| match expr {
        Expression::Array(v) => {
            assert_eq!(v.len(), 3);
            test_integer_expression(&v[0], 1);
            test_infix_expression(
                &v[1],
                Expression::Integer(2),
                InfixOperator::Mul,
                Expression::Integer(2),
            );
            test_infix_expression(
                &v[2],
                Expression::Integer(3),
                InfixOperator::Add,
                Expression::Integer(3),
            );
        }
        _ => panic!("expression is not array. got={:?}", expr),
    });
    Ok(())
}

#[test]
fn parse_hash_string_key_expression() -> Result<()> {
    let input = r#"{"one": 1, "two": 2, "three": 3}"#;
    let program = parse_ok(input)?;
    assert_eq!(program.statements.len(), 1);
    let s = &program.statements[0];
    parse_expression_statement(s, |expr| match expr {
        Expression::Hash(v) => {
            assert_eq!(v.len(), 3);
            test_integer_expression(hash_get(v, &new_string_expr("one")), 1);
            test_integer_expression(hash_get(v, &new_string_expr("two")), 2);
            test_integer_expression(hash_get(v, &new_string_expr("three")), 3);
        }
        _ => panic!("expression is not hash. got={:?}", expr),
    });
    Ok(())
}

#[test]
fn parse_empty_hash_expression() -> Result<()> {
    let input = r#"{}"#;
    let program = parse_ok(input)?;
    assert_eq!(program.statements.len(), 1);
    let s = &program.statements[0];
    parse_expression_statement(s, |expr| match expr {
        Expression::Hash(v) => {
            assert!(v.is_empty());
        }
        _ => panic!("expression is not hash. got={:?}", expr),
    });
    Ok(())
}

#[test]
fn parse_hash_expr_value_expression() -> Result<()> {
    let input = r#"{"one": 0 + 1, "two": 10 - 8, "three": 15 / 5}"#;
    let program = parse_ok(input)?;
    assert_eq!(program.statements.len(), 1);
    let s = &program.statements[0];
    parse_expression_statement(s, |expr| match expr {
        Expression::Hash(v) => {
            assert_eq!(v.len(), 3);
            test_infix_expression(
                hash_get(v, &new_string_expr("one")),
                new_int_expr(0),
                InfixOperator::Add,
                new_int_expr(1),
            );
            test_infix_expression(
                hash_get(v, &new_string_expr("two")),
                new_int_expr(10),
                InfixOperator::Sub,
                new_int_expr(8),
            );
            test_infix_expression(
                hash_get(v, &new_string_expr("three")),
                new_int_expr(15),
                InfixOperator::Div,
                new_int_expr(5),
            );
        }
        _ => panic!("expression is not hash. got={:?}", expr),
    });
    Ok(())
}

#[test]
fn parse_prefix_expression() -> Result<()> {
    // (input, operator, right)
    let cases = vec![
        ("!5;", PrefixOperator::Bang, Expression::Integer(5)),
        ("-15;", PrefixOperator::Minus, Expression::Integer(15)),
        ("!true;", PrefixOperator::Bang, Expression::Boolean(true)),
        ("!false;", PrefixOperator::Bang, Expression::Boolean(false)),
    ];
    for (input, op, r) in cases {
        let program = parse_ok(input)?;
        assert_eq!(program.statements.len(), 1);
        let s = &program.statements[0];
        parse_expression_statement(s, |expr| match expr {
            Expression::Prefix { .. } => {
                test_prefix_expression(expr, op, r);
            }
            _ => panic!("expression not prefix. got={:?}", expr),
        });
    }
    Ok(())
}

#[test]
fn parse_infix_expression() -> Result<()> {
    // (input, left, operator, right)
    let cases = vec![
        ("5 + 5;", Expression::Integer(5), InfixOperator::Add, Expression::Integer(5)),
        ("5 - 5;", Expression::Integer(5), InfixOperator::Sub, Expression::Integer(5)),
        ("5 * 5;", Expression::Integer(5), InfixOperator::Mul, Expression::Integer(5)),
        ("5 / 5;", Expression::Integer(5), InfixOperator::Div, Expression::Integer(5)),
        ("5 > 5;", Expression::Integer(5), InfixOperator::GT, Expression::Integer(5)),
        ("5 < 5;", Expression::Integer(5), InfixOperator::LT, Expression::Integer(5)),
        ("5 == 5;", Expression::Integer(5), InfixOperator::Eq, Expression::Integer(5)),
        ("5 != 5;", Expression::Integer(5), InfixOperator::NotEq, Expression::Integer(5)),
        ("true == true;", Expression::Boolean(true), InfixOperator::Eq, Expression::Boolean(true)),
        (
            "true != false;",
            Expression::Boolean(true),
            InfixOperator::NotEq,
            Expression::Boolean(false),
        ),
        (
            "false == false;",
            Expression::Boolean(false),
            InfixOperator::Eq,
            Expression::Boolean(false),
        ),
    ];
    for (input, l, op, r) in cases {
        let program = parse_ok(input)?;
        assert_eq!(program.statements.len(), 1);
        let s = &program.statements[0];
        parse_expression_statement(s, |expr| match expr {
            Expression::Infix { .. } => {
                test_infix_expression(expr, l, op, r);
            }
            _ => panic!("expression not infix. got={:?}", expr),
        });
    }
    Ok(())
}

#[test]
fn parse_if_expression() -> Result<()> {
    let input = r#"
        if (x < y) { x }
        "#;
    let program = parse_ok(input)?;
    assert_eq!(program.statements.len(), 1);
    let s = &program.statements[0];
    parse_expression_statement(s, |expr| match expr {
        Expression::If { condition, consequence, .. } => {
            test_infix_expression(condition, ident("x"), InfixOperator::LT, ident("y"));
            assert_eq!(consequence.statements.len(), 1);
            let s = &consequence.statements[0];
            match s {
                Statement::Expression(expr) => test_identifier_expression(expr, "x"),
                _ => panic!("statement not `<expr>`. got={:?}", s),
            };
        }
        _ => panic!("expression not if. got={:?}", expr),
    });
    Ok(())
}

#[test]
fn parse_if_else_expression() -> Result<()> {
    let input = r#"
        if (x < y) { x } else { y }
        "#;
    let program = parse_ok(input)?;
    assert_eq!(program.statements.len(), 1);
    let s = &program.statements[0];
    parse_expression_statement(s, |expr| match expr {
        Expression::If { condition, consequence, alternative } => {
            test_infix_expression(condition, ident("x"), InfixOperator::LT, ident("y"));
            assert_eq!(consequence.statements.len(), 1);
            let s = &consequence.statements[0];
            match s {
                Statement::Expression(expr) => test_identifier_expression(expr, "x"),
                _ => panic!("statement not `<expr>`. got={:?}", s),
            };
            assert!(alternative.is_some());
            let alternative = alternative.as_ref().unwrap();
            assert_eq!(alternative.statements.len(), 1);
            let s = &alternative.statements[0];
            match s {
                Statement::Expression(expr) => test_identifier_expression(expr, "y"),
                _ => panic!("statement not `<expr>`. got={:?}", s),
            };
        }
        _ => panic!("expression not if. got={:?}", expr),
    });
    Ok(())
}

#[test]
fn parse_function_expression() -> Result<()> {
    let input = r#"
        fn(x, y) { x + y; }
        "#;
    let program = parse_ok(input)?;
    assert_eq!(program.statements.len(), 1);
    let s = &program.statements[0];
    parse_expression_statement(s, |expr| match expr {
        Expression::Function(FunctionExpression { params, body }) => {
            assert_eq!(params.len(), 2);
            test_identifier(&params[0], "x");
            test_identifier(&params[1], "y");
            assert_eq!(body.statements.len(), 1);
            let s = &body.statements[0];
            match s {
                Statement::Expression(expr) => {
                    test_infix_expression(expr, ident("x"), InfixOperator::Add, ident("y"))
                }
                _ => panic!("statement not `<expr>`. got={:?}", s),
            };
        }
        _ => panic!("expression not function. got={:?}", expr),
    });
    Ok(())
}

#[test]
fn parse_call_expression() -> Result<()> {
    let input = r#"
        add(1, 2 * 3, 4 + 5);
        "#;
    let program = parse_ok(input)?;
    assert_eq!(program.statements.len(), 1);
    let s = &program.statements[0];
    parse_expression_statement(s, |expr| match expr {
        Expression::Call { function, args } => {
            match function {
                CallExpressionFunction::Identifier(id) => test_identifier(id, "add"),
                _ => panic!("function is not identifier. got={:?}", function),
            }
            assert_eq!(args.len(), 3);
            test_integer_expression(&args[0], 1);
            test_infix_expression(
                &args[1],
                Expression::Integer(2),
                InfixOperator::Mul,
                Expression::Integer(3),
            );
            test_infix_expression(
                &args[2],
                Expression::Integer(4),
                InfixOperator::Add,
                Expression::Integer(5),
            );
        }
        _ => panic!("expression not function. got={:?}", expr),
    });
    Ok(())
}

#[test]
fn parse_index_expression() -> Result<()> {
    let input = r#"myArray[1 + 1]"#;
    let program = parse_ok(input)?;
    assert_eq!(program.statements.len(), 1);
    let s = &program.statements[0];
    parse_expression_statement(s, |expr| match expr {
        Expression::Index { left, index } => {
            test_identifier_expression(left, "myArray");
            test_infix_expression(
                index,
                Expression::Integer(1),
                InfixOperator::Add,
                Expression::Integer(1),
            );
        }
        _ => panic!("expression is not array. got={:?}", expr),
    });
    Ok(())
}

#[test]
fn parse_macro_expression() -> Result<()> {
    let input = r#"
        macro(x, y) { x + y; }
        "#;
    let program = parse_ok(input)?;
    assert_eq!(program.statements.len(), 1);
    let s = &program.statements[0];
    parse_expression_statement(s, |expr| match expr {
        Expression::Macro(m) => {
            let MacroExpression { params, body } = m;
            assert_eq!(params.len(), 2);
            test_identifier(&params[0], "x");
            test_identifier(&params[1], "y");
            assert_eq!(body.statements.len(), 1);
            let s = &body.statements[0];
            match s {
                Statement::Expression(expr) => {
                    test_infix_expression(expr, ident("x"), InfixOperator::Add, ident("y"))
                }
                _ => panic!("statement not `<expr>`. got={:?}", s),
            };
        }
        _ => panic!("expression not macro. got={:?}", expr),
    });
    Ok(())
}

#[test]
fn parse_precedence() -> Result<()> {
    // (input, expected)
    let cases = vec![
        ("-a * b", "((-a) * b)"),
        ("!-a", "(!(-a))"),
        ("a + b + c", "((a + b) + c)"),
        ("a + b - c", "((a + b) - c)"),
        ("a * b * c", "((a * b) * c)"),
        ("a * b / c", "((a * b) / c)"),
        ("a + b / c", "(a + (b / c))"),
        ("a + b * c + d / e - f", "(((a + (b * c)) + (d / e)) - f)"),
        ("3 + 4; -5 * 5", "(3 + 4)((-5) * 5)"),
        ("5 > 4 == 3 < 4", "((5 > 4) == (3 < 4))"),
        ("5 > 4 != 3 < 4", "((5 > 4) != (3 < 4))"),
        ("3 + 4 * 5 == 3 * 1 + 4 * 5", "((3 + (4 * 5)) == ((3 * 1) + (4 * 5)))"),
        ("true", "true"),
        ("false", "false"),
        ("3 > 5 == false", "((3 > 5) == false)"),
        ("3 < 5 == true", "((3 < 5) == true)"),
        ("1 + (2 + 3) + 4", "((1 + (2 + 3)) + 4)"),
        ("(5 + 5) * 2", "((5 + 5) * 2)"),
        ("2 / (5 + 5)", "(2 / (5 + 5))"),
        ("-(5 + 5)", "(-(5 + 5))"),
        ("!(true == true)", "(!(true == true))"),
        ("a + add(b * c) + d", "((a + add((b * c))) + d)"),
        (
            "add(a, b, 1, 2 * 3, 4 + 5, add(6, 7 * 8))",
            "add(a, b, 1, (2 * 3), (4 + 5), add(6, (7 * 8)))",
        ),
        ("add(a + b + c * d / f + g)", "add((((a + b) + ((c * d) / f)) + g))"),
        ("a * [1, 2, 3, 4][b * c] * d", "((a * ([1, 2, 3, 4][(b * c)])) * d)"),
        (
            "add(a * b[2], b[1], 2 * [1, 2][1])",
            "add((a * (b[2])), (b[1]), (2 * ([1, 2][1])))",
        ),
    ];
    for (input, expected) in cases {
        let program = parse_ok(input)?;
        let s = program.render();
        assert_eq!(s, expected);
    }
    Ok(())
}

#[test]
fn display() {
    let program = Program {
        statements: vec![Statement::Let {
            identifier: Identifier("my_var".to_string()),
            expression: Identifier("another_var".to_string()).into(),
        }],
    };
    let source = program.render();
    assert_eq!(source, "let my_var = another_var;".to_string());
}

#[test]
fn eval_integer_expression() {
    let cases = vec![("5", 5), ("10", 10)];
    for (input, expected) in cases {
        let v = eval(parse_ok(input).unwrap());
        match v {
            Object::Integer(n) => assert_eq!(n, expected),
            _ => panic!("object is not Integer. got={:?}", v),
        }
    }
}

#[test]
fn eval_boolean_expression() {
    let cases = vec![("true", true), ("false", false)];
    for (input, expected) in cases {
        let v = eval(parse_ok(input).unwrap());
        match v {
            Object::Boolean(b) => assert_eq!(b, expected),
            _ => panic!("object is not Boolean. got={:?}", v),
        }
    }
}

#[test]
fn eval_takes_last_statement_and_null_otherwise() {
    assert_eq!(eval(parse_ok("1; 2; true").unwrap()), Object::Boolean(true));
    assert_eq!(eval(parse_ok("let x = 5;").unwrap()), Object::Null);
    assert_eq!(eval(parse_ok("1 + 2").unwrap()), Object::Null);
    assert_eq!(eval(Program { statements: Vec::new() }), Object::Null);
}

#[test]
fn parse_associativity() {
    assert_eq!(parse_ok("a - b - c").unwrap().render(), "((a - b) - c)");
    assert_eq!(parse_ok("a + b * c").unwrap().render(), "(a + (b * c))");
    assert_eq!(
        single_expression("a - b - c"),
        Expression::Infix {
            left: Box::new(Expression::Infix {
                left: Box::new(ident("a")),
                operator: InfixOperator::Sub,
                right: Box::new(ident("b")),
            }),
            operator: InfixOperator::Sub,
            right: Box::new(ident("c")),
        }
    );
}

#[test]
fn parse_empty_lists() {
    assert_eq!(
        single_expression("f()"),
        Expression::Call {
            function: CallExpressionFunction::Identifier(Identifier("f".to_string())),
            args: Vec::new(),
        }
    );
    assert_eq!(
        single_expression("fn() {}"),
        Expression::Function(FunctionExpression {
            params: Vec::new(),
            body: BlockStatement { statements: Vec::new() },
        })
    );
    assert_eq!(single_expression("[]"), Expression::Array(Vec::new()));
}

#[test]
fn parse_hash_repeated_key_keeps_last_value() {
    assert_eq!(
        single_expression("{1: 2, 3: 4, 1: 5}"),
        Expression::Hash(vec![(new_int_expr(1), new_int_expr(5)), (new_int_expr(3), new_int_expr(4))])
    );
}

#[test]
fn parse_quote_and_unquote() {
    assert_eq!(
        single_expression("quote(unquote(1 + 2))"),
        Expression::Quote(Box::new(Expression::Unquote(Box::new(Expression::Infix {
            left: Box::new(new_int_expr(1)),
            operator: InfixOperator::Add,
            right: Box::new(new_int_expr(2)),
        }))))
    );
}

#[test]
fn parse_collects_one_error_per_statement() {
    let errs = messages("let = 5; let = 6;");
    assert_eq!(
        errs,
        vec![
            "could not parse Assign as identifier".to_string(),
            "could not parse Assign as identifier".to_string()
        ]
    );
    let joined = Errors(errs).message();
    assert_eq!(joined, "could not parse Assign as identifier\ncould not parse Assign as identifier");
}

#[test]
fn parse_error_messages() {
    assert_eq!(messages("(1 + 2"), vec!["expected token to be RParen, got EOF instead".to_string()]);
    assert_eq!(messages(")"), vec!["could not parse RParen as prefix expression".to_string()]);
    assert_eq!(
        messages("1(2)"),
        vec![
            "could not parse Integer(1) as call expression function".to_string(),
            "could not parse RParen as prefix expression".to_string()
        ]
    );
    assert_eq!(
        messages("99999999999999999999"),
        vec!["could not parse Int(\"99999999999999999999\") as integer".to_string()]
    );
    assert_eq!(
        messages("{1 2}"),
        vec![
            "expected token to be Colon, got Int(\"2\") instead".to_string(),
            "could not parse RBrace as prefix expression".to_string()
        ]
    );
}

#[test]
fn parse_integer_literal_with_sign() {
    let lexer = Lexer::from_tokens(vec![Token::Int("+7".to_string())]);
    let program = parse(lexer).unwrap();
    assert_eq!(program.statements, vec![Statement::Expression(new_int_expr(7))]);
    let lexer = Lexer::from_tokens(vec![Token::Int("9223372036854775807".to_string())]);
    let program = parse(lexer).unwrap();
    assert_eq!(program.statements, vec![Statement::Expression(new_int_expr(i64::MAX))]);
}

#[test]
fn parse_empty_input() {
    let program = parse(Lexer::from_tokens(Vec::new())).unwrap();
    assert!(program.statements.is_empty());
}

#[test]
fn render_other_forms() {
    let program = parse_ok(r#"if (x) { "a" } else { return -1; } fn(a, b) { a }; {"k": [1]}"#).unwrap();
    assert_eq!(
        program.render(),
        r#"if (x) { "a" } else { return (-1); }fn(a, b) { a }{"k": [1]}"#
    );
}

#[test]
fn parse_hash_keys_in_ascending_order() {
    let e = single_expression(r#"{"two": 2, "one": 1, "three": 3, true: 0, 7: 1}"#);
    match e {
        Expression::Hash(v) => {
            let keys: Vec<&Expression> = v.iter().map(|(k, _)| k).collect();
            assert_eq!(
                keys,
                vec![
                    &new_int_expr(7),
                    &Expression::Boolean(true),
                    &new_string_expr("one"),
                    &new_string_expr("three"),
                    &new_string_expr("two")
                ]
            );
            assert!(v.windows(2).all(|w| w[0].0 < w[1].0));
        }
        _ => panic!("expression is not hash. got={:?}", e),
    }
}

#[test]
fn compare_agrees_with_ord() {
    let samples = vec![
        ident("a"),
        ident("ab"),
        ident("b"),
        new_int_expr(-3),
        new_int_expr(4),
        Expression::Boolean(false),
        new_string_expr(""),
        new_string_expr("z"),
        Expression::Array(vec![new_int_expr(1)]),
        Expression::Array(vec![new_int_expr(1), new_int_expr(0)]),
        single_expression("-x"),
        single_expression("!x"),
        single_expression("a + b"),
        single_expression("a * b"),
        single_expression("f(1)"),
        single_expression("fn(x) { x }(1)"),
        single_expression("if (x) { 1 }"),
        single_expression("if (x) { 1 } else { 2 }"),
        single_expression("quote(1)"),
        single_expression("{1: 2}"),
    ];
    for a in &samples {
        for b in &samples {
            let expected = match a.cmp(b) {
                std::cmp::Ordering::Less => -1,
                std::cmp::Ordering::Equal => 0,
                std::cmp::Ordering::Greater => 1,
            };
            assert_eq!(expr_compare(a, b), expected, "{:?} vs {:?}", a, b);
        }
    }
}

#[test]
fn parse_hash_rejects_trailing_comma() {
    assert_eq!(messages("{1: 2,}"), vec!["could not parse RBrace as prefix expression".to_string()]);
    assert_eq!(
        messages("{1: 2 3}"),
        vec![
            "expected token to be RBrace, got Int(\"3\") instead".to_string(),
            "could not parse RBrace as prefix expression".to_string()
        ]
    );
}

#[test]
fn parse_block_needs_closing_brace() {
    assert_eq!(
        messages("if (x) { 1"),
        vec!["expected token to be RBrace, got EOF instead".to_string()]
    );
    assert_eq!(messages("fn(a) {"), vec!["expected token to be RBrace, got EOF instead".to_string()]);
}

#[test]
fn call_error_shows_whole_callee() {
    let callee = Expression::Infix {
        left: Box::new(new_int_expr(3)),
        operator: InfixOperator::Add,
        right: Box::new(new_int_expr(4)),
    };
    let errs = messages("(3 + 4)(5)");
    assert_eq!(errs[0], format!("could not parse {:?} as call expression function", callee));
    assert_eq!(
        errs[0],
        "could not parse Infix { left: Integer(3), operator: Add, right: Integer(4) } as call expression function"
    );
}

#[test]
fn token_text_is_escaped_in_messages() {
    let tok = Token::String("a\"b\\c\n".to_string());
    let lexer = Lexer::from_tokens(vec![Token::Let, Token::String("a\"b\\c\n".to_string())]);
    match parse(lexer) {
        Err(Errors(v)) => assert_eq!(v, vec![format!("could not parse {:?} as identifier", tok)]),
        Ok(p) => panic!("parse succeeded: {:?}", p),
    }
}

#[test]
fn describe_matches_debug() {
    let samples = vec![
        Expression::String("a\"b\\c\n\t".to_string()),
        single_expression(r#"{"k": [1, -2], true: fn(x, y) { let z = x; return z; }}"#),
        single_expression("if (a < b) { !c } else { d[0] }"),
        single_expression("f(1, macro(q) { quote(unquote(q)) })"),
        single_expression("fn() { x }(2)"),
        single_expression("[]"),
    ];
    for e in &samples {
        assert_eq!(describe_expression(e), format!("{:?}", e));
    }
}
