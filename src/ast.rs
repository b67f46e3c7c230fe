use vstd::prelude::*;

verus! {

/// A name, used both for bindings and for expressions that refer to them.
#[derive(Debug, PartialEq, Eq, PartialOrd, Ord, Clone)]
pub struct Identifier(pub String);

#[derive(Debug, PartialEq, Eq, Structural, PartialOrd, Ord, Clone, Copy)]
pub enum PrefixOperator {
    Bang,
    Minus,
}

#[derive(Debug, PartialEq, Eq, Structural, PartialOrd, Ord, Clone, Copy)]
pub enum InfixOperator {
    Add,
    Sub,
    Mul,
    Div,
    LT,
    GT,
    Eq,
    NotEq,
}

/// The parse root: statements in source order.
#[derive(Debug, PartialEq, Eq, PartialOrd, Ord)]
pub struct Program {
    pub statements: Vec<Statement>,
}

/// A braced sequence of statements, the body of a function or a branch.
#[derive(Debug, PartialEq, Eq, PartialOrd, Ord)]
pub struct BlockStatement {
    pub statements: Vec<Statement>,
}

#[derive(Debug, PartialEq, Eq, PartialOrd, Ord)]
pub enum Statement {
    Let { identifier: Identifier, expression: Expression },
    Return(Expression),
    Expression(Expression),
    Block(BlockStatement),
}

#[derive(Debug, PartialEq, Eq, PartialOrd, Ord)]
pub struct FunctionExpression {
    pub params: Vec<Identifier>,
    pub body: BlockStatement,
}

#[derive(Debug, PartialEq, Eq, PartialOrd, Ord)]
pub struct MacroExpression {
    pub params: Vec<Identifier>,
    pub body: BlockStatement,
}

/// What a call may call: a name or a function literal.
#[derive(Debug, PartialEq, Eq, PartialOrd, Ord)]
pub enum CallExpressionFunction {
    Identifier(Identifier),
    Function(FunctionExpression),
}

/// An expression. A `Hash` built by the parser or the rewriter holds each
/// key at most once, and `insert_entry` places new keys in ascending order
/// of `expr_cmp` (see the `order` module).
#[derive(Debug, PartialEq, Eq, PartialOrd, Ord)]
pub enum Expression {
    Identifier(Identifier),
    Integer(i64),
    Boolean(bool),
    String(String),
    Array(Vec<Expression>),
    Hash(Vec<(Expression, Expression)>),
    Prefix { operator: PrefixOperator, right: Box<Expression> },
    Infix { left: Box<Expression>, operator: InfixOperator, right: Box<Expression> },
    If {
        condition: Box<Expression>,
        consequence: BlockStatement,
        alternative: Option<BlockStatement>,
    },
    Function(FunctionExpression),
    Call { function: CallExpressionFunction, args: Vec<Expression> },
    Index { left: Box<Expression>, index: Box<Expression> },
    Quote(Box<Expression>),
    Unquote(Box<Expression>),
    Macro(MacroExpression),
}

/// Any of the three levels of the tree, for passes that treat them alike.
#[derive(Debug, PartialEq, Eq, PartialOrd, Ord)]
pub enum Node {
    Program(Program),
    Statement(Statement),
    Expression(Expression),
}

impl Node {
    /// The expression this node holds; an error for the other levels.
    pub fn expression(self) -> (r: Result<Expression, String>)
        ensures
            match self {
                Node::Expression(e) => r == Ok::<Expression, String>(e),
                _ => r is Err,
            },
    {
        match self {
            Node::Expression(e) => Ok(e),
            _ => Err(String::from_str("node is not an expression")),
        }
    }
}

impl From<Program> for Node {
    fn from(v: Program) -> Node {
        Node::Program(v)
    }
}

impl vstd::std_specs::convert::FromSpecImpl<Program> for Node {
    open spec fn obeys_from_spec() -> bool {
        true
    }

    open spec fn from_spec(v: Program) -> Node {
        Node::Program(v)
    }
}

impl From<Statement> for Node {
    fn from(v: Statement) -> Node {
        Node::Statement(v)
    }
}

impl vstd::std_specs::convert::FromSpecImpl<Statement> for Node {
    open spec fn obeys_from_spec() -> bool {
        true
    }

    open spec fn from_spec(v: Statement) -> Node {
        Node::Statement(v)
    }
}

impl From<Expression> for Node {
    fn from(v: Expression) -> Node {
        Node::Expression(v)
    }
}

impl vstd::std_specs::convert::FromSpecImpl<Expression> for Node {
    open spec fn obeys_from_spec() -> bool {
        true
    }

    open spec fn from_spec(v: Expression) -> Node {
        Node::Expression(v)
    }
}

impl From<Identifier> for Expression {
    fn from(v: Identifier) -> Expression {
        Expression::Identifier(v)
    }
}

impl vstd::std_specs::convert::FromSpecImpl<Identifier> for Expression {
    open spec fn obeys_from_spec() -> bool {
        true
    }

    open spec fn from_spec(v: Identifier) -> Expression {
        Expression::Identifier(v)
    }
}

impl From<FunctionExpression> for Expression {
    fn from(v: FunctionExpression) -> Expression {
        Expression::Function(v)
    }
}

impl vstd::std_specs::convert::FromSpecImpl<FunctionExpression> for Expression {
    open spec fn obeys_from_spec() -> bool {
        true
    }

    open spec fn from_spec(v: FunctionExpression) -> Expression {
        Expression::Function(v)
    }
}

impl From<MacroExpression> for Expression {
    fn from(v: MacroExpression) -> Expression {
        Expression::Macro(v)
    }
}

impl vstd::std_specs::convert::FromSpecImpl<MacroExpression> for Expression {
    open spec fn obeys_from_spec() -> bool {
        true
    }

    open spec fn from_spec(v: MacroExpression) -> Expression {
        Expression::Macro(v)
    }
}

impl From<BlockStatement> for Statement {
    fn from(v: BlockStatement) -> Statement {
        Statement::Block(v)
    }
}

impl vstd::std_specs::convert::FromSpecImpl<BlockStatement> for Statement {
    open spec fn obeys_from_spec() -> bool {
        true
    }

    open spec fn from_spec(v: BlockStatement) -> Statement {
        Statement::Block(v)
    }
}

} // verus!
