use monkey_front::ast::{
    BlockStatement, CallExpressionFunction, Expression, FunctionExpression, Identifier,
    InfixOperator, Node, PrefixOperator, Program, Statement,
};
use monkey_front::modify::modify;

fn one() -> Expression {
    Expression::Integer(1)
}

fn two() -> Expression {
    Expression::Integer(2)
}

fn turn_one_into_two(node: Node) -> Node {
    if let Node::Expression(expr) = &node {
        if let Expression::Integer(it) = expr {
            if it == &1 {
                return Expression::Integer(2).into();
            }
        }
    }
    node
}

#[test]
fn modify_integer_expression() -> Result<(), Box<dyn std::error::Error>> {
    let node = Node::from(one());
    let expected = two().into();
    let res = modify(node, turn_one_into_two)?;
    assert_eq!(res, expected);
    Ok(())
}

#[test]
fn modify_array_expression() -> Result<(), Box<dyn std::error::Error>> {
    let tests = vec![(
        Expression::Array(vec![one(), one()]),
        Expression::Array(vec![two(), two()]),
    )];
    for (expr, expected) in tests {
        let node = Node::from(expr);
        let res = modify(node, turn_one_into_two)?;
        assert_eq!(res, expected.into());
    }
    Ok(())
}

#[test]
fn modify_hash_expression() -> Result<(), Box<dyn std::error::Error>> {
    let tests = vec![(
        Expression::Hash(vec![(one(), one())]),
        Expression::Hash(vec![(two(), two())]),
    )];
    for (expr, expected) in tests {
        let node = Node::from(expr);
        let res = modify(node, turn_one_into_two)?;
        assert_eq!(res, expected.into());
    }
    Ok(())
}

#[test]
fn modify_prefix_expression() -> Result<(), Box<dyn std::error::Error>> {
    let tests = vec![(
        Expression::Prefix {
            operator: PrefixOperator::Minus,
            right: one().into(),
        },
        Expression::Prefix {
            operator: PrefixOperator::Minus,
            right: two().into(),
        },
    )];
    for (expr, expected) in tests {
        let node = Node::from(expr);
        let res = modify(node, turn_one_into_two)?;
        assert_eq!(res, expected.into());
    }
    Ok(())
}

#[test]
fn modify_infix_expression() -> Result<(), Box<dyn std::error::Error>> {
    let tests = vec![
        (
            Expression::Infix {
                left: one().into(),
                operator: InfixOperator::Add,
                right: two().into(),
            },
            Expression::Infix {
                left: two().into(),
                operator: InfixOperator::Add,
                right: two().into(),
            },
        ),
        (
            Expression::Infix {
                left: two().into(),
                operator: InfixOperator::Add,
                right: one().into(),
            },
            Expression::Infix {
                left: two().into(),
                operator: InfixOperator::Add,
                right: two().into(),
            },
        ),
    ];
    for (expr, expected) in tests {
        let node = Node::from(expr);
        let res = modify(node, turn_one_into_two)?;
        assert_eq!(res, expected.into());
    }
    Ok(())
}

#[test]
fn modify_if_expression() -> Result<(), Box<dyn std::error::Error>> {
    let tests = vec![(
        Expression::If {
            condition: one().into(),
            consequence: BlockStatement {
                statements: vec![Statement::Expression(one())],
            },
            alternative: Some(BlockStatement {
                statements: vec![Statement::Expression(one())],
            }),
        },
        Expression::If {
            condition: two().into(),
            consequence: BlockStatement {
                statements: vec![Statement::Expression(two())],
            },
            alternative: Some(BlockStatement {
                statements: vec![Statement::Expression(two())],
            }),
        },
    )];
    for (expr, expected) in tests {
        let node = Node::from(expr);
        let res = modify(node, turn_one_into_two)?;
        assert_eq!(res, expected.into());
    }
    Ok(())
}

#[test]
fn modify_function_expression() -> Result<(), Box<dyn std::error::Error>> {
    let tests = vec![(
        Expression::Function(FunctionExpression {
            params: Vec::new(),
            body: BlockStatement {
                statements: vec![Statement::Expression(one())],
            },
        }),
        Expression::Function(FunctionExpression {
            params: Vec::new(),
            body: BlockStatement {
                statements: vec![Statement::Expression(two())],
            },
        }),
    )];
    for (expr, expected) in tests {
        let node = Node::from(expr);
        let res = modify(node, turn_one_into_two)?;
        assert_eq!(res, expected.into());
    }
    Ok(())
}

#[test]
fn modify_index_expression() -> Result<(), Box<dyn std::error::Error>> {
    let tests = vec![(
        Expression::Index {
            left: one().into(),
            index: one().into(),
        },
        Expression::Index {
            left: two().into(),
            index: two().into(),
        },
    )];
    for (expr, expected) in tests {
        let node = Node::from(expr);
        let res = modify(node, turn_one_into_two)?;
        assert_eq!(res, expected.into());
    }
    Ok(())
}

#[test]
fn modify_program_statement() -> Result<(), Box<dyn std::error::Error>> {
    let node = Program {
        statements: vec![Statement::Expression(one())],
    }
    .into();
    let expected = Program {
        statements: vec![Statement::Expression(two())],
    }
    .into();
    let res = modify(node, turn_one_into_two)?;
    assert_eq!(res, expected);
    Ok(())
}

#[test]
fn modify_let_statement() -> Result<(), Box<dyn std::error::Error>> {
    let tests = vec![(
        Statement::Let {
            identifier: Identifier("foo".to_string()),
            expression: one(),
        },
        Statement::Let {
            identifier: Identifier("foo".to_string()),
            expression: two(),
        },
    )];
    for (expr, expected) in tests {
        let node = Node::from(expr);
        let res = modify(node, turn_one_into_two)?;
        assert_eq!(res, expected.into());
    }
    Ok(())
}

#[test]
fn modify_return_statement() -> Result<(), Box<dyn std::error::Error>> {
    let tests = vec![(Statement::Return(one()), Statement::Return(two()))];
    for (expr, expected) in tests {
        let node = Node::from(expr);
        let res = modify(node, turn_one_into_two)?;
        assert_eq!(res, expected.into());
    }
    Ok(())
}

#[test]
fn modify_with_identity_keeps_tree() {
    let expr = Expression::If {
        condition: Box::new(Expression::Infix {
            left: one().into(),
            operator: InfixOperator::LT,
            right: two().into(),
        }),
        consequence: BlockStatement {
            statements: vec![Statement::Expression(Expression::Array(vec![one(), two()]))],
        },
        alternative: None,
    };
    let copy = Expression::If {
        condition: Box::new(Expression::Infix {
            left: one().into(),
            operator: InfixOperator::LT,
            right: two().into(),
        }),
        consequence: BlockStatement {
            statements: vec![Statement::Expression(Expression::Array(vec![one(), two()]))],
        },
        alternative: None,
    };
    let res = modify(Node::from(expr), |n: Node| n).unwrap();
    assert_eq!(res, Node::from(copy));
}

#[test]
fn modify_does_not_enter_call_arguments() {
    let call = || Expression::Call {
        function: CallExpressionFunction::Identifier(Identifier("f".to_string())),
        args: vec![one()],
    };
    let res = modify(Node::from(call()), turn_one_into_two).unwrap();
    assert_eq!(res, Node::from(call()));
}

#[test]
fn modify_does_not_enter_quote() {
    let res = modify(Node::from(Expression::Quote(one().into())), turn_one_into_two).unwrap();
    assert_eq!(res, Node::from(Expression::Quote(one().into())));
}

#[test]
fn modify_hash_with_colliding_keys_keeps_one_entry() {
    let expr = Expression::Hash(vec![(one(), one()), (two(), Expression::Boolean(true))]);
    let res = modify(Node::from(expr), turn_one_into_two).unwrap();
    assert_eq!(
        res,
        Node::from(Expression::Hash(vec![(two(), Expression::Boolean(true))]))
    );
}

#[test]
fn modify_fails_when_transform_leaves_expressions() {
    let to_program = |_n: Node| Node::Program(Program { statements: Vec::new() });
    let res = modify(Node::from(Statement::Return(one())), to_program);
    assert!(res.is_err());
}
