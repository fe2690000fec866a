//! Error types of the parser and the code generator.
//!
//! Parse errors carry the expected-token set, the found token and a 1-based
//! (line, column) position.  Lowering errors are a tagged union so that a
//! caller can tell an undeclared name from an unsupported construct.

use vstd::prelude::*;
use vstd::string::*;

use crate::ast::Type;
use crate::lexer::{Token, Tokens};

verus! {

/// Classification of parse errors.
#[derive(Clone, Copy, PartialEq, Eq, Structural, Debug)]
pub enum ParserErrorCode {
    /// Unused.
    E0001,
    /// Expected another symbol.
    E0002,
    /// Unspecified error.
    E9999,
}

/// A parse error: a rendered message, a position, a code, and the
/// structured expectation that produced it.
#[derive(Debug)]
pub struct ParserError {
    /// Rendered description of the error.
    pub message: String,
    /// 1-based (line, column) of the token the error points at.
    pub position: (usize, usize),
    /// Classification of the error.
    pub code: ParserErrorCode,
    /// The tokens that would have been accepted, when known.
    pub expected: Vec<Token>,
    /// The token actually found, when known.
    pub found: Option<Token>,
}

impl ParserError {
    /// Creates an error from a message, a code and a position.
    pub fn new(message: &str, code: ParserErrorCode, position: (usize, usize)) -> (r:
        ParserError)
        ensures
            r.message@ == message@,
            r.code == code,
            r.position == position,
            r.expected@.len() == 0,
            r.found is None,
    {
        ParserError {
            message: message.to_owned(),
            position,
            code,
            expected: Vec::new(),
            found: None,
        }
    }

    /// Creates an unclassified error from a message and a position.
    pub fn error(message: &str, position: (usize, usize)) -> (r: ParserError)
        ensures
            r.message@ == message@,
            r.code == ParserErrorCode::E9999,
            r.position == position,
            r.expected@.len() == 0,
            r.found is None,
    {
        ParserError::new(message, ParserErrorCode::E9999, position)
    }

    /// Creates an expectation error: the given tokens would have been
    /// accepted, but `found` was seen at `position`.
    pub fn expected(expected: Vec<Token>, found: Token, position: (usize, usize)) -> (r:
        ParserError)
        ensures
            r.code == ParserErrorCode::E0002,
            r.position == position,
            r.expected@ == expected@,
            r.found == Some(found),
            r.message@ == "Expected "@ + crate::lexer::describe_text(expected@) + ", found: "@
                + crate::lexer::token_text(found),
    {
        let tokens = Tokens::new(expected);
        let mut message = "Expected ".to_owned();
        message.append(tokens.describe().as_str());
        message.append(", found: ");
        message.append(found.text().as_str());
        proof {
            assert(message@ =~= "Expected "@ + crate::lexer::describe_text(expected@)
                + ", found: "@ + crate::lexer::token_text(found));
        }
        ParserError {
            message,
            position,
            code: ParserErrorCode::E0002,
            expected: tokens.0,
            found: Some(found),
        }
    }

    /// The rendered message.
    pub fn message(&self) -> (r: &str)
        ensures
            r@ == self.message@,
    {
        self.message.as_str()
    }

    /// The error's classification.
    pub fn code(&self) -> (r: &ParserErrorCode)
        ensures
            r == self.code,
    {
        &self.code
    }
}

/// A lowering error.  Every failure of the code generator is one of these
/// variants, so that the offending name survives to the caller.
#[derive(Debug, PartialEq)]
pub enum CodegenError {
    /// A variable was read before any declaration bound it.
    UndeclaredVariable(String),
    /// A call named a function absent from the environment.
    UndeclaredFunction(String),
    /// A construct the generator does not lower.
    UnsupportedConstruct(String),
}

impl CodegenError {
    /// Creates an error carrying a plain description.
    pub fn new(message: &str) -> (r: CodegenError)
        ensures
            r matches CodegenError::UnsupportedConstruct(m) && m@ == message@,
    {
        CodegenError::UnsupportedConstruct(message.to_owned())
    }

    /// Creates an error carrying a plain description.
    pub fn error(message: &str) -> (r: CodegenError)
        ensures
            r matches CodegenError::UnsupportedConstruct(m) && m@ == message@,
    {
        CodegenError::new(message)
    }
}


/// Classification of type analysis errors.
#[derive(Clone, Copy, PartialEq, Eq, Structural, Debug)]
pub enum TypeSystemErrorCode {
    /// Type mismatch.
    E0001,
    /// Unspecified error.
    E9999,
}

/// A type analysis error: a rendered message and a classification.
#[derive(Debug)]
pub struct TypeSystemError {
    /// Rendered description of the error.
    pub message: String,
    /// Classification of the error.
    pub code: TypeSystemErrorCode,
}

impl TypeSystemError {
    /// Creates an error from a message and a code.
    pub fn new(message: &str, code: TypeSystemErrorCode) -> (r: TypeSystemError)
        ensures
            r.message@ == message@,
            r.code == code,
    {
        TypeSystemError { message: message.to_owned(), code }
    }

    /// Creates an unclassified error from a message.
    pub fn error(message: &str) -> (r: TypeSystemError)
        ensures
            r.message@ == message@,
            r.code == TypeSystemErrorCode::E9999,
    {
        TypeSystemError::new(message, TypeSystemErrorCode::E9999)
    }

    /// Creates a mismatch error naming the acceptable types and the type
    /// found.
    pub fn type_mismatch(expected: Vec<Type>, found: Type) -> (r: TypeSystemError)
        ensures
            r.code == TypeSystemErrorCode::E0001,
    {
        let mut message = "Expected types:".to_owned();
        let mut i: usize = 0;
        while i < expected.len()
            decreases expected@.len() - i,
        {
            message.append(" ");
            message.append(expected[i].text().as_str());
            i = i + 1;
        }
        message.append(", found: ");
        message.append(found.text().as_str());
        TypeSystemError { message, code: TypeSystemErrorCode::E0001 }
    }

    /// The rendered message.
    pub fn message(&self) -> (r: &str)
        ensures
            r@ == self.message@,
    {
        self.message.as_str()
    }

    /// The error's classification.
    pub fn code(&self) -> (r: &TypeSystemErrorCode)
        ensures
            r == self.code,
    {
        &self.code
    }
}

} // verus!
