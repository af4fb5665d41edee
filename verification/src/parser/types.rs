use vstd::prelude::*;
use crate::lexer::types::{parts_view, Word, WordV};

verus! {

/// Arithmetic expression tree.
#[derive(Debug)]
pub enum ArithmeticExpr {
    Literal(i64),
    Variable(String),
    UnaryOp { op: UnaryOperator, expr: Box<ArithmeticExpr> },
    BinaryOp { op: BinaryOperator, lhs: Box<ArithmeticExpr>, rhs: Box<ArithmeticExpr> },
    Assignment { var: String, value: Box<ArithmeticExpr> },
}

#[derive(Debug, Clone, Copy, PartialEq, Eq, Structural)]
pub enum UnaryOperator {
    Negate,
    Not,
    BitNot,
}

#[derive(Debug, Clone, Copy, PartialEq, Eq, Structural)]
pub enum BinaryOperator {
    Add,
    Sub,
    Mul,
    Div,
    Mod,
    Eq,
    Neq,
    Lt,
    Gt,
    Le,
    Ge,
    BitAnd,
    BitOr,
    BitXor,
    ShiftLeft,
    ShiftRight,
    LogicalAnd,
    LogicalOr,
}

/// The kind of an I/O redirection.
#[derive(Debug, Clone, Copy, PartialEq, Eq, Structural)]
pub enum RedirectOp {
    /// `>`: redirect stdout to a file (overwrite)
    Write,
    /// `>>`: redirect stdout to a file (append)
    Append,
    /// `<`: redirect stdin from a file
    Read,
    /// `<<`: here-document
    HereDoc,
    /// `<>`: open file for read and write
    ReadWrite,
}

/// An I/O redirection of a command or group.
#[derive(Debug, Clone, PartialEq)]
pub struct Redirect {
    pub fd: Option<u64>,
    pub kind: RedirectOp,
    pub target: Word,
}

/// The syntax tree of a command line.
#[derive(Debug)]
pub enum AstNode {
    Command { cmd: Word, args: Vec<Word>, assignments: Vec<(String, Word)>, redirects: Vec<Redirect> },
    Pipeline(Vec<AstNode>),
    Sequence(Vec<AstNode>),
    And(Box<AstNode>, Box<AstNode>),
    Or(Box<AstNode>, Box<AstNode>),
    Not(Box<AstNode>),
    Background(Box<AstNode>),
    Subshell(Box<AstNode>),
    Group { commands: Vec<AstNode>, redirects: Vec<Redirect> },
    If {
        condition: Box<AstNode>,
        then_branch: Box<AstNode>,
        elif: Vec<(Box<AstNode>, Box<AstNode>)>,
        else_branch: Option<Box<AstNode>>,
    },
    While { condition: Box<AstNode>, body: Box<AstNode> },
    Until { condition: Box<AstNode>, body: Box<AstNode> },
    For { var: String, values: Vec<Word>, body: Box<AstNode> },
    Case { word: String, arms: Vec<(Vec<String>, AstNode)> },
    FunctionDef { name: Word, body: Box<AstNode> },
    Break(Option<Word>),
    Continue(Option<Word>),
    ArithmeticCommand(ArithmeticExpr),
}

/// The value of an `ArithmeticExpr`.
pub enum ArithmeticExprV {
    Literal(i64),
    Variable(Seq<char>),
    UnaryOp { op: UnaryOperator, expr: Box<ArithmeticExprV> },
    BinaryOp { op: BinaryOperator, lhs: Box<ArithmeticExprV>, rhs: Box<ArithmeticExprV> },
    Assignment { var: Seq<char>, value: Box<ArithmeticExprV> },
}

/// The value of a `Redirect`.
pub struct RedirectV {
    pub fd: Option<u64>,
    pub kind: RedirectOp,
    pub target: WordV,
}

/// The value of an `AstNode`.
pub enum AstNodeV {
    Command {
        cmd: WordV,
        args: Seq<WordV>,
        assignments: Seq<(Seq<char>, WordV)>,
        redirects: Seq<RedirectV>,
    },
    Pipeline(Seq<AstNodeV>),
    Sequence(Seq<AstNodeV>),
    And(Box<AstNodeV>, Box<AstNodeV>),
    Or(Box<AstNodeV>, Box<AstNodeV>),
    Not(Box<AstNodeV>),
    Background(Box<AstNodeV>),
    Subshell(Box<AstNodeV>),
    Group { commands: Seq<AstNodeV>, redirects: Seq<RedirectV> },
    If {
        condition: Box<AstNodeV>,
        then_branch: Box<AstNodeV>,
        elif: Seq<(AstNodeV, AstNodeV)>,
        else_branch: Option<Box<AstNodeV>>,
    },
    While { condition: Box<AstNodeV>, body: Box<AstNodeV> },
    Until { condition: Box<AstNodeV>, body: Box<AstNodeV> },
    For { var: Seq<char>, values: Seq<WordV>, body: Box<AstNodeV> },
    Case { word: Seq<char>, arms: Seq<(Seq<Seq<char>>, AstNodeV)> },
    FunctionDef { name: WordV, body: Box<AstNodeV> },
    Break(Option<WordV>),
    Continue(Option<WordV>),
    ArithmeticCommand(ArithmeticExprV),
}

pub open spec fn arith_view(e: ArithmeticExpr) -> ArithmeticExprV
    decreases e,
{
    match e {
        ArithmeticExpr::Literal(n) => ArithmeticExprV::Literal(n),
        ArithmeticExpr::Variable(s) => ArithmeticExprV::Variable(s@),
        ArithmeticExpr::UnaryOp { op, expr } => ArithmeticExprV::UnaryOp {
            op,
            expr: Box::new(arith_view(*expr)),
        },
        ArithmeticExpr::BinaryOp { op, lhs, rhs } => ArithmeticExprV::BinaryOp {
            op,
            lhs: Box::new(arith_view(*lhs)),
            rhs: Box::new(arith_view(*rhs)),
        },
        ArithmeticExpr::Assignment { var, value } => ArithmeticExprV::Assignment {
            var: var@,
            value: Box::new(arith_view(*value)),
        },
    }
}

impl View for ArithmeticExpr {
    type V = ArithmeticExprV;

    open spec fn view(&self) -> ArithmeticExprV {
        arith_view(*self)
    }
}

impl View for Redirect {
    type V = RedirectV;

    open spec fn view(&self) -> RedirectV {
        RedirectV { fd: self.fd, kind: self.kind, target: self.target@ }
    }
}

pub open spec fn words_view(v: Seq<Word>) -> Seq<WordV> {
    v.map_values(|w: Word| w@)
}

pub open spec fn redirects_view(v: Seq<Redirect>) -> Seq<RedirectV> {
    v.map_values(|r: Redirect| r@)
}

pub open spec fn assignments_view(v: Seq<(String, Word)>) -> Seq<(Seq<char>, WordV)> {
    v.map_values(|a: (String, Word)| (a.0@, a.1@))
}

pub open spec fn strings_view(v: Seq<String>) -> Seq<Seq<char>> {
    v.map_values(|s: String| s@)
}

pub open spec fn ast_view(n: AstNode) -> AstNodeV
    decreases n,
{
    match n {
        AstNode::Command { cmd, args, assignments, redirects } => AstNodeV::Command {
            cmd: cmd@,
            args: words_view(args@),
            assignments: assignments_view(assignments@),
            redirects: redirects_view(redirects@),
        },
        AstNode::Pipeline(v) => AstNodeV::Pipeline(asts_view(v@)),
        AstNode::Sequence(v) => AstNodeV::Sequence(asts_view(v@)),
        AstNode::And(a, b) => AstNodeV::And(Box::new(ast_view(*a)), Box::new(ast_view(*b))),
        AstNode::Or(a, b) => AstNodeV::Or(Box::new(ast_view(*a)), Box::new(ast_view(*b))),
        AstNode::Not(a) => AstNodeV::Not(Box::new(ast_view(*a))),
        AstNode::Background(a) => AstNodeV::Background(Box::new(ast_view(*a))),
        AstNode::Subshell(a) => AstNodeV::Subshell(Box::new(ast_view(*a))),
        AstNode::Group { commands, redirects } => AstNodeV::Group {
            commands: asts_view(commands@),
            redirects: redirects_view(redirects@),
        },
        AstNode::If { condition, then_branch, elif, else_branch } => AstNodeV::If {
            condition: Box::new(ast_view(*condition)),
            then_branch: Box::new(ast_view(*then_branch)),
            elif: elifs_view(elif@),
            else_branch: match else_branch {
                Some(b) => Some(Box::new(ast_view(*b))),
                None => None,
            },
        },
        AstNode::While { condition, body } => AstNodeV::While {
            condition: Box::new(ast_view(*condition)),
            body: Box::new(ast_view(*body)),
        },
        AstNode::Until { condition, body } => AstNodeV::Until {
            condition: Box::new(ast_view(*condition)),
            body: Box::new(ast_view(*body)),
        },
        AstNode::For { var, values, body } => AstNodeV::For {
            var: var@,
            values: words_view(values@),
            body: Box::new(ast_view(*body)),
        },
        AstNode::Case { word, arms } => AstNodeV::Case { word: word@, arms: arms_view(arms@) },
        AstNode::FunctionDef { name, body } => AstNodeV::FunctionDef {
            name: name@,
            body: Box::new(ast_view(*body)),
        },
        AstNode::Break(w) => AstNodeV::Break(
            match w {
                Some(w) => Some(w@),
                None => None,
            },
        ),
        AstNode::Continue(w) => AstNodeV::Continue(
            match w {
                Some(w) => Some(w@),
                None => None,
            },
        ),
        AstNode::ArithmeticCommand(e) => AstNodeV::ArithmeticCommand(e@),
    }
}

pub open spec fn asts_view(v: Seq<AstNode>) -> Seq<AstNodeV>
    decreases v,
{
    if v.len() == 0 {
        Seq::empty()
    } else {
        asts_view(v.subrange(0, v.len() - 1)).push(ast_view(v[v.len() - 1]))
    }
}

pub open spec fn elifs_view(v: Seq<(Box<AstNode>, Box<AstNode>)>) -> Seq<(AstNodeV, AstNodeV)>
    decreases v,
{
    if v.len() == 0 {
        Seq::empty()
    } else {
        elifs_view(v.subrange(0, v.len() - 1)).push(
            (ast_view(*v[v.len() - 1].0), ast_view(*v[v.len() - 1].1)),
        )
    }
}

pub open spec fn arms_view(v: Seq<(Vec<String>, AstNode)>) -> Seq<(Seq<Seq<char>>, AstNodeV)>
    decreases v,
{
    if v.len() == 0 {
        Seq::empty()
    } else {
        arms_view(v.subrange(0, v.len() - 1)).push(
            (strings_view(v[v.len() - 1].0@), ast_view(v[v.len() - 1].1)),
        )
    }
}

impl View for AstNode {
    type V = AstNodeV;

    open spec fn view(&self) -> AstNodeV {
        ast_view(*self)
    }
}

} // verus!

verus! {

pub proof fn lemma_asts_push(v: Seq<AstNode>, x: AstNode)
    ensures
        asts_view(v.push(x)) == asts_view(v).push(ast_view(x)),
{
    assert(v.push(x).subrange(0, v.len() as int) =~= v);
}

pub proof fn lemma_elifs_push(v: Seq<(Box<AstNode>, Box<AstNode>)>, x: (Box<AstNode>, Box<AstNode>))
    ensures
        elifs_view(v.push(x)) == elifs_view(v).push((ast_view(*x.0), ast_view(*x.1))),
{
    assert(v.push(x).subrange(0, v.len() as int) =~= v);
}

pub proof fn lemma_asts_single(v: Seq<AstNode>)
    requires
        v.len() == 1,
    ensures
        asts_view(v) == seq![ast_view(v[0])],
{
    assert(v.subrange(0, 0) =~= Seq::<AstNode>::empty());
    assert(asts_view(v.subrange(0, 0)) == Seq::<AstNodeV>::empty());
}

} // verus!

verus! {

pub proof fn lemma_asts_len(v: Seq<AstNode>)
    ensures
        asts_view(v).len() == v.len(),
    decreases v.len(),
{
    if v.len() > 0 {
        lemma_asts_len(v.subrange(0, v.len() - 1));
    }
}

} // verus!

verus! {

pub proof fn lemma_asts_index(v: Seq<AstNode>, i: int)
    requires
        0 <= i < v.len(),
    ensures
        asts_view(v).len() == v.len(),
        asts_view(v)[i] == ast_view(v[i]),
        asts_view(v.subrange(0, i)) == asts_view(v).subrange(0, i),
    decreases v.len(),
{
    lemma_asts_len(v);
    let t = v.subrange(0, v.len() - 1);
    if i < v.len() - 1 {
        lemma_asts_index(t, i);
        assert(t.subrange(0, i) =~= v.subrange(0, i));
        assert(asts_view(t).subrange(0, i) =~= asts_view(v).subrange(0, i));
    } else {
        lemma_asts_len(t);
        assert(asts_view(t) =~= asts_view(v).subrange(0, i));
    }
}

pub proof fn lemma_elifs_index(v: Seq<(Box<AstNode>, Box<AstNode>)>, i: int)
    requires
        0 <= i < v.len(),
    ensures
        elifs_view(v).len() == v.len(),
        elifs_view(v)[i] == (ast_view(*v[i].0), ast_view(*v[i].1)),
        elifs_view(v.subrange(0, i)) == elifs_view(v).subrange(0, i),
    decreases v.len(),
{
    let t = v.subrange(0, v.len() - 1);
    lemma_elifs_len(v);
    if i < v.len() - 1 {
        lemma_elifs_index(t, i);
        assert(t.subrange(0, i) =~= v.subrange(0, i));
        assert(elifs_view(t).subrange(0, i) =~= elifs_view(v).subrange(0, i));
    } else {
        lemma_elifs_len(t);
        assert(elifs_view(t) =~= elifs_view(v).subrange(0, i));
    }
}

pub proof fn lemma_elifs_len(v: Seq<(Box<AstNode>, Box<AstNode>)>)
    ensures
        elifs_view(v).len() == v.len(),
    decreases v.len(),
{
    if v.len() > 0 {
        lemma_elifs_len(v.subrange(0, v.len() - 1));
    }
}

pub proof fn lemma_arms_len(v: Seq<(Vec<String>, AstNode)>)
    ensures
        arms_view(v).len() == v.len(),
    decreases v.len(),
{
    if v.len() > 0 {
        lemma_arms_len(v.subrange(0, v.len() - 1));
    }
}

pub proof fn lemma_arms_index(v: Seq<(Vec<String>, AstNode)>, i: int)
    requires
        0 <= i < v.len(),
    ensures
        arms_view(v).len() == v.len(),
        arms_view(v)[i] == (strings_view(v[i].0@), ast_view(v[i].1)),
        arms_view(v.subrange(0, i)) == arms_view(v).subrange(0, i),
    decreases v.len(),
{
    let t = v.subrange(0, v.len() - 1);
    lemma_arms_len(v);
    if i < v.len() - 1 {
        lemma_arms_index(t, i);
        assert(t.subrange(0, i) =~= v.subrange(0, i));
        assert(arms_view(t).subrange(0, i) =~= arms_view(v).subrange(0, i));
    } else {
        lemma_arms_len(t);
        assert(arms_view(t) =~= arms_view(v).subrange(0, i));
    }
}

} // verus!
