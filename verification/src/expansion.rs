use vstd::prelude::*;
use crate::envirement::ShellEnv;

verus! {

/// A token of an arithmetic expression, as found inside `$(( ... ))`.
#[derive(Debug, PartialEq)]
pub enum ArithmeticToken {
    Number(i64),
    Variable(String),
    Substitution(Vec<ArithmeticToken>),
    Increment,
    Decrement,
    AddAssign,
    SubAssign,
    MulAssign,
    DivAssign,
    ModAssign,
    Equal,
    NotEqual,
    LessEqual,
    GreaterEqual,
    LogicalAnd,
    LogicalOr,
    ShiftLeft,
    ShiftRight,
    Plus,
    Minus,
    Multiply,
    Divide,
    Modulo,
    Assign,
    Less,
    Greater,
    LogicalNot,
    BitAnd,
    BitOr,
    BitXor,
    BitNot,
    QuestionMark,
    Colon,
    LParen,
    RParen,
}

/// The value of an `ArithmeticToken`.
pub enum ArithTokV {
    Number(i64),
    Variable(Seq<char>),
    Substitution(Seq<ArithTokV>),
    Increment,
    Decrement,
    AddAssign,
    SubAssign,
    MulAssign,
    DivAssign,
    ModAssign,
    Equal,
    NotEqual,
    LessEqual,
    GreaterEqual,
    LogicalAnd,
    LogicalOr,
    ShiftLeft,
    ShiftRight,
    Plus,
    Minus,
    Multiply,
    Divide,
    Modulo,
    Assign,
    Less,
    Greater,
    LogicalNot,
    BitAnd,
    BitOr,
    BitXor,
    BitNot,
    QuestionMark,
    Colon,
    LParen,
    RParen,
}

pub open spec fn arith_tok_view(t: ArithmeticToken) -> ArithTokV
    decreases t,
{
    match t {
        ArithmeticToken::Number(n) => ArithTokV::Number(n),
        ArithmeticToken::Variable(s) => ArithTokV::Variable(s@),
        ArithmeticToken::Substitution(v) => ArithTokV::Substitution(arith_toks_view(v@)),
        ArithmeticToken::Increment => ArithTokV::Increment,
        ArithmeticToken::Decrement => ArithTokV::Decrement,
        ArithmeticToken::AddAssign => ArithTokV::AddAssign,
        ArithmeticToken::SubAssign => ArithTokV::SubAssign,
        ArithmeticToken::MulAssign => ArithTokV::MulAssign,
        ArithmeticToken::DivAssign => ArithTokV::DivAssign,
        ArithmeticToken::ModAssign => ArithTokV::ModAssign,
        ArithmeticToken::Equal => ArithTokV::Equal,
        ArithmeticToken::NotEqual => ArithTokV::NotEqual,
        ArithmeticToken::LessEqual => ArithTokV::LessEqual,
        ArithmeticToken::GreaterEqual => ArithTokV::GreaterEqual,
        ArithmeticToken::LogicalAnd => ArithTokV::LogicalAnd,
        ArithmeticToken::LogicalOr => ArithTokV::LogicalOr,
        ArithmeticToken::ShiftLeft => ArithTokV::ShiftLeft,
        ArithmeticToken::ShiftRight => ArithTokV::ShiftRight,
        ArithmeticToken::Plus => ArithTokV::Plus,
        ArithmeticToken::Minus => ArithTokV::Minus,
        ArithmeticToken::Multiply => ArithTokV::Multiply,
        ArithmeticToken::Divide => ArithTokV::Divide,
        ArithmeticToken::Modulo => ArithTokV::Modulo,
        ArithmeticToken::Assign => ArithTokV::Assign,
        ArithmeticToken::Less => ArithTokV::Less,
        ArithmeticToken::Greater => ArithTokV::Greater,
        ArithmeticToken::LogicalNot => ArithTokV::LogicalNot,
        ArithmeticToken::BitAnd => ArithTokV::BitAnd,
        ArithmeticToken::BitOr => ArithTokV::BitOr,
        ArithmeticToken::BitXor => ArithTokV::BitXor,
        ArithmeticToken::BitNot => ArithTokV::BitNot,
        ArithmeticToken::QuestionMark => ArithTokV::QuestionMark,
        ArithmeticToken::Colon => ArithTokV::Colon,
        ArithmeticToken::LParen => ArithTokV::LParen,
        ArithmeticToken::RParen => ArithTokV::RParen,
    }
}

pub open spec fn arith_toks_view(v: Seq<ArithmeticToken>) -> Seq<ArithTokV>
    decreases v,
{
    if v.len() == 0 {
        Seq::empty()
    } else {
        arith_toks_view(v.subrange(0, v.len() - 1)).push(arith_tok_view(v[v.len() - 1]))
    }
}

impl View for ArithmeticToken {
    type V = ArithTokV;

    open spec fn view(&self) -> ArithTokV {
        arith_tok_view(*self)
    }
}

pub proof fn lemma_arith_toks_push(v: Seq<ArithmeticToken>, x: ArithmeticToken)
    ensures
        arith_toks_view(v.push(x)) == arith_toks_view(v).push(arith_tok_view(x)),
{
    assert(v.push(x).subrange(0, v.len() as int) =~= v);
}

/// Expands `$VAR`, `${VAR:-default}` and `$((...))` in `input`. No
/// expansion is carried out yet: the result is always the empty string.
pub fn expand(input: &str, env: &ShellEnv) -> (r: String)
    ensures
        r@ == Seq::<char>::empty(),
{
    String::new()
}

} // verus!

