use vstd::prelude::*;

verus! {

/// An arithmetic expression, as `$(( ... ))` and `let` take it.
#[derive(Debug)]
pub enum ArithmeticExpr {
    Literal(i64),
    Variable(String),
    UnaryOp { op: UnaryOperator, expr: Box<ArithmeticExpr> },
    BinaryOp { op: BinaryOperator, lhs: Box<ArithmeticExpr>, rhs: Box<ArithmeticExpr> },
    Assignment { var: String, value: Box<ArithmeticExpr> },
}

/// `-x`, `!x`, `~x`.
#[derive(Debug, Clone, Copy)]
pub enum UnaryOperator {
    Negate,
    Not,
    BitNot,
}

/// The binary operators of arithmetic expressions.
#[derive(Debug, Clone, Copy)]
pub enum BinaryOperator {
    Add,
    Sub,
    Mul,
    Div,
    Mod,
    Eq,
    Neq,
    Lt,
    Gt,
    Le,
    Ge,
    BitAnd,
    BitOr,
    BitXor,
    ShiftLeft,
    ShiftRight,
    LogicalAnd,
    LogicalOr,
}

/// The kinds of redirection: `<`, `>`, `>>`, `<<`, `<<<`, `<&n`, `>&n`.
#[derive(Debug, Clone)]
pub enum RedirectKind {
    Input,
    Output,
    Append,
    HereDoc,
    HereString,
    DupInput,
    DupOutput,
}

/// A redirection on a descriptor, with its target as text.
#[derive(Debug, Clone)]
pub struct Redirect {
    pub fd: Option<u8>,
    pub kind: RedirectKind,
    pub target: String,
}

/// The syntax tree of a command line whose words are plain text.
#[derive(Debug)]
pub enum AstNode {
    SimpleCommand { assignments: Vec<(String, String)>, words: Vec<String>, redirects: Vec<Redirect> },
    Pipeline(Vec<AstNode>),
    Sequence(Vec<AstNode>),
    And(Box<AstNode>, Box<AstNode>),
    Or(Box<AstNode>, Box<AstNode>),
    Not(Box<AstNode>),
    Background(Box<AstNode>),
    Subshell(Box<AstNode>),
    Group(Box<AstNode>),
    If { condition: Box<AstNode>, then_branch: Box<AstNode>, else_branch: Option<Box<AstNode>> },
    While { condition: Box<AstNode>, body: Box<AstNode> },
    Until { condition: Box<AstNode>, body: Box<AstNode> },
    For { var: String, values: Vec<String>, body: Box<AstNode> },
    Case { word: String, arms: Vec<(Vec<String>, AstNode)> },
    FunctionDef { name: String, body: Box<AstNode> },
    ArithmeticCommand(ArithmeticExpr),
}

} // verus!
