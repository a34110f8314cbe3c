//! The ways in which scanning fails.

use vstd::prelude::*;
use vstd::string::*;
use crate::common::text::{push_char, push_decimal, push_text, spec_decimal};

verus! {

/// A character that can neither start nor continue any token.
#[derive(Debug, Clone, Copy)]
pub struct InvalidCharError {
    pub character: char,
    pub line: usize,
    pub column: usize,
}

impl InvalidCharError {
    pub fn new(character: char, line: usize, column: usize) -> (r: Self)
        ensures
            r.character == character,
            r.line == line,
            r.column == column,
    {
        Self { character, line, column }
    }
}

/// The automaton found itself in a state that it does not have. This is a
/// fault of the scanner, never of the source text.
#[derive(Debug)]
pub struct InvalidStateError {
    pub message: String,
    pub line: usize,
    pub column: usize,
}

impl InvalidStateError {
    pub fn new(message: &str, line: usize, column: usize) -> (r: Self)
        ensures
            r.message@ == message@,
            r.line == line,
            r.column == column,
    {
        Self { message: String::from_str(message), line, column }
    }
}

impl Clone for InvalidStateError {
    fn clone(&self) -> (r: Self)
        ensures
            r == *self,
    {
        Self { message: self.message.clone(), line: self.line, column: self.column }
    }
}

/// Why a scan stopped.
#[derive(Debug)]
pub enum LexicalError {
    /// A character was asked for after the last one had been read.
    EndOfInput,
    InvalidChar(InvalidCharError),
    /// A line ended inside a `{ ... }` comment that started on `line`.
    UnclosedComment { line: usize },
    InvalidState(InvalidStateError),
}

/// A lexical error, as plain values.
pub enum LexicalErrorView {
    EndOfInput,
    InvalidChar { character: char, line: nat, column: nat },
    UnclosedComment { line: nat },
    InvalidState { message: Seq<char>, line: nat, column: nat },
}

impl View for LexicalError {
    type V = LexicalErrorView;

    open spec fn view(&self) -> LexicalErrorView {
        match self {
            LexicalError::EndOfInput => LexicalErrorView::EndOfInput,
            LexicalError::InvalidChar(e) => LexicalErrorView::InvalidChar {
                character: e.character,
                line: e.line as nat,
                column: e.column as nat,
            },
            LexicalError::UnclosedComment { line } => LexicalErrorView::UnclosedComment {
                line: *line as nat,
            },
            LexicalError::InvalidState(e) => LexicalErrorView::InvalidState {
                message: e.message@,
                line: e.line as nat,
                column: e.column as nat,
            },
        }
    }
}

impl LexicalErrorView {
    /// The error as it reads in a message, with the place where it occurred.
    pub open spec fn message(self) -> Seq<char> {
        match self {
            LexicalErrorView::EndOfInput => "EOF"@,
            LexicalErrorView::InvalidChar {
                character,
                line,
                column,
            } => "The invalid character '"@.push(character) + "' was found at line "@
                + spec_decimal(line) + ", column "@ + spec_decimal(column),
            LexicalErrorView::UnclosedComment { line } => "Unclosed comment at line "@
                + spec_decimal(line),
            LexicalErrorView::InvalidState {
                message,
                line,
                column,
            } => "An error occurred at line "@ + spec_decimal(line) + ", column "@ + spec_decimal(
                column,
            ) + ".\n"@ + message,
        }
    }
}

impl InvalidCharError {
    /// The error as it reads in a message.
    pub fn to_string(&self) -> (r: String)
        ensures
            r@ == LexicalError::InvalidChar(*self)@.message(),
    {
        let mut text = String::from_str("The invalid character '");
        push_char(&mut text, self.character);
        push_text(&mut text, "' was found at line ");
        push_decimal(&mut text, self.line);
        push_text(&mut text, ", column ");
        push_decimal(&mut text, self.column);
        text
    }
}

impl InvalidStateError {
    /// The error as it reads in a message.
    pub fn to_string(&self) -> (r: String)
        ensures
            r@ == (LexicalErrorView::InvalidState {
                message: self.message@,
                line: self.line as nat,
                column: self.column as nat,
            }).message(),
    {
        let mut text = String::from_str("An error occurred at line ");
        push_decimal(&mut text, self.line);
        push_text(&mut text, ", column ");
        push_decimal(&mut text, self.column);
        push_text(&mut text, ".\n");
        push_text(&mut text, self.message.as_str());
        text
    }
}

impl LexicalError {
    /// The error as it reads in a message.
    pub fn to_string(&self) -> (r: String)
        ensures
            r@ == self@.message(),
    {
        match self {
            LexicalError::EndOfInput => String::from_str("EOF"),
            LexicalError::InvalidChar(e) => e.to_string(),
            LexicalError::UnclosedComment { line } => {
                let mut text = String::from_str("Unclosed comment at line ");
                push_decimal(&mut text, *line);
                text
            },
            LexicalError::InvalidState(e) => e.to_string(),
        }
    }
}

} // verus!
