use vstd::prelude::*;

verus! {

/// `std::io::Error`, carried through as it is.
#[verifier::external_type_specification]
#[verifier::external_body]
pub struct ExIoError(std::io::Error);

/// Errors raised while tokenizing, parsing or running a command line.
#[derive(Debug)]
pub enum ShellError {
    Io(std::io::Error),
    Syntax(String),
    Parse(String),
    Eval(String),
    Exec(String),
    Expansion(String),
    UnexpectedEof,
    UnclosedQuote,
    InvalidVariable(String),
    InvalidVariableSyntax,
    DivisionByZero,
}

/// The mathematical value of a `ShellError`: each message taken by its characters.
pub enum ShellErrorV {
    Io,
    Syntax(Seq<char>),
    Parse(Seq<char>),
    Eval(Seq<char>),
    Exec(Seq<char>),
    Expansion(Seq<char>),
    UnexpectedEof,
    UnclosedQuote,
    InvalidVariable(Seq<char>),
    InvalidVariableSyntax,
    DivisionByZero,
}

impl View for ShellError {
    type V = ShellErrorV;

    open spec fn view(&self) -> ShellErrorV {
        match self {
            ShellError::Io(_) => ShellErrorV::Io,
            ShellError::Syntax(s) => ShellErrorV::Syntax(s@),
            ShellError::Parse(s) => ShellErrorV::Parse(s@),
            ShellError::Eval(s) => ShellErrorV::Eval(s@),
            ShellError::Exec(s) => ShellErrorV::Exec(s@),
            ShellError::Expansion(s) => ShellErrorV::Expansion(s@),
            ShellError::UnexpectedEof => ShellErrorV::UnexpectedEof,
            ShellError::UnclosedQuote => ShellErrorV::UnclosedQuote,
            ShellError::InvalidVariable(s) => ShellErrorV::InvalidVariable(s@),
            ShellError::InvalidVariableSyntax => ShellErrorV::InvalidVariableSyntax,
            ShellError::DivisionByZero => ShellErrorV::DivisionByZero,
        }
    }
}

/// An I/O error becomes `ShellError::Io`.
impl From<std::io::Error> for ShellError {
    fn from(err: std::io::Error) -> (r: Self) {
        ShellError::Io(err)
    }
}

impl vstd::std_specs::convert::FromSpecImpl<std::io::Error> for ShellError {
    open spec fn obeys_from_spec() -> bool {
        true
    }

    open spec fn from_spec(err: std::io::Error) -> Self {
        ShellError::Io(err)
    }
}

} // verus!
