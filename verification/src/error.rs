//! The ways in which a compilation can stop.

use vstd::prelude::*;
use vstd::string::StringExecFns;

verus! {

/// Why a compilation stopped. The first failure ends the run: nothing is
/// collected and no partial output is produced.
#[derive(Debug, Clone, PartialEq, Eq)]
pub enum CompileError {
    /// The source file could not be read.
    ReadError,
    /// The text is not a well-formed syntax tree.
    SyntaxError,
    /// An identifier was used that no binding and no builtin provides.
    UnboundIdentifier(String),
    /// The chain of top-level bindings ends in an expression that cannot be
    /// the program's final action.
    UnsupportedTerminal,
}

/// The mathematical value of a [`CompileError`].
pub enum Failure {
    ReadError,
    SyntaxError,
    UnboundIdentifier(Seq<char>),
    UnsupportedTerminal,
}

impl View for CompileError {
    type V = Failure;

    open spec fn view(&self) -> Failure {
        match self {
            CompileError::ReadError => Failure::ReadError,
            CompileError::SyntaxError => Failure::SyntaxError,
            CompileError::UnboundIdentifier(name) => Failure::UnboundIdentifier(name@),
            CompileError::UnsupportedTerminal => Failure::UnsupportedTerminal,
        }
    }
}

impl Failure {
    /// The report of a failure: the stage that failed and, for an unbound
    /// identifier, its name.
    pub open spec fn message(self) -> Seq<char> {
        match self {
            Failure::ReadError => "read: the source file could not be read"@,
            Failure::SyntaxError => "parse: the syntax tree is malformed"@,
            Failure::UnboundIdentifier(name) => "lower: unbound identifier "@ + name,
            Failure::UnsupportedTerminal => "lower: the program ends in an unsupported expression"@,
        }
    }
}

impl CompileError {
    /// The report of this failure, for the error channel.
    pub fn message(&self) -> (text: String)
        ensures
            text@ == self@.message(),
    {
        match self {
            CompileError::ReadError => String::from_str("read: the source file could not be read"),
            CompileError::SyntaxError => String::from_str("parse: the syntax tree is malformed"),
            CompileError::UnboundIdentifier(name) => {
                let mut text = String::from_str("lower: unbound identifier ");
                text.append(name.as_str());
                text
            },
            CompileError::UnsupportedTerminal => String::from_str(
                "lower: the program ends in an unsupported expression",
            ),
        }
    }
}

/// The outcome that is the text `text`.
pub open spec fn emitted(text: Seq<char>) -> Result<Seq<char>, Failure> {
    Ok(text)
}

/// The outcome that is the failure `failure`.
pub open spec fn refused(failure: Failure) -> Result<Seq<char>, Failure> {
    Err(failure)
}

/// Whether a result holds the text, or the failure, that `want` names.
pub open spec fn text_result_is(got: Result<String, CompileError>, want: Result<
    Seq<char>,
    Failure,
>) -> bool {
    match want {
        Ok(text) => got matches Ok(s) && s@ == text,
        Err(failure) => got matches Err(e) && e@ == failure,
    }
}

} // verus!
