//! The ways in which parsing fails.

use vstd::prelude::*;
use vstd::string::*;
use crate::common::text::{push_place, push_text, spec_place};
use crate::common::token::{Token, TokenType, TokenView};

verus! {

/// What the parser was looking for when it met a token that does not fit.
#[derive(Debug)]
pub enum Expectation {
    /// The token with this category and this lexeme.
    Exactly { category: TokenType, lexeme: String },
    /// Any identifier.
    Identifier,
    /// Any token of this category.
    Category(TokenType),
    /// A keyword where the name of a type is due.
    TypeKeyword,
    /// One of `integer`, `real`, `boolean`.
    TypeName,
    /// The `;` between two groups of parameters, or the `)` after the last.
    ParameterSeparator,
    /// One of the signs `+` and `-`.
    Sign,
}

/// An expectation, as plain values.
pub enum ExpectationView {
    Exactly { category: TokenType, lexeme: Seq<char> },
    Identifier,
    Category(TokenType),
    TypeKeyword,
    TypeName,
    ParameterSeparator,
    Sign,
}

impl View for Expectation {
    type V = ExpectationView;

    open spec fn view(&self) -> ExpectationView {
        match self {
            Expectation::Exactly { category, lexeme } => ExpectationView::Exactly {
                category: *category,
                lexeme: lexeme@,
            },
            Expectation::Identifier => ExpectationView::Identifier,
            Expectation::Category(category) => ExpectationView::Category(*category),
            Expectation::TypeKeyword => ExpectationView::TypeKeyword,
            Expectation::TypeName => ExpectationView::TypeName,
            Expectation::ParameterSeparator => ExpectationView::ParameterSeparator,
            Expectation::Sign => ExpectationView::Sign,
        }
    }
}

/// The four families of type rules.
#[derive(Debug, Clone, Copy, PartialEq, Eq, Structural)]
pub enum Operation {
    /// `+ - * /`
    Arithmetic,
    /// `= < > <= >= <>`
    Relational,
    /// `:=`
    Assignment,
    /// `and`, `or`, `not`
    Logic,
}

/// A broken invariant of the parser itself, as opposed to a fault of the
/// program that is being parsed.
#[derive(Debug, Clone, Copy, PartialEq, Eq, Structural)]
pub enum Fault {
    /// A scope was to be closed and the symbol table holds no scope marker.
    ScopeUnderflow,
    /// More identifiers await their type than the symbol table has entries
    /// to spare.
    PendingBeyondTable,
    /// A production left more tokens than it was given.
    InputGrew,
}

/// Why a parse stopped.
#[derive(Debug)]
pub enum SyntaxError {
    /// The tokens ran out where one more was needed.
    UnexpectedEndOfFile,
    /// `found` stands where something else was expected.
    UnexpectedToken { expected: Expectation, found: Token },
    /// The name is declared already in the same scope, by `declaration`.
    AlreadyDeclared { declaration: Token },
    /// The program's own name is used as a value.
    ProgramNameUsed { line: usize, column: usize },
    /// `reference` names nothing that is declared in any enclosing scope.
    UndeclaredIdentifier { reference: Token },
    /// `=` stands where the assignment `:=` was due.
    EqualsInsteadOfAssignment { line: usize, column: usize },
    /// A type rule was to be applied and fewer than two types were at hand.
    MissingOperand { operation: Operation, line: usize, column: usize },
    /// The operand types do not fit the operator at the given place. For an
    /// assignment `left` is the type of the variable and `right` the type of
    /// the value.
    OperandMismatch {
        operation: Operation,
        left: String,
        right: String,
        line: usize,
        column: usize,
    },
    Internal(Fault),
}

/// A syntax error, as plain values.
pub enum SyntaxErrorView {
    UnexpectedEndOfFile,
    UnexpectedToken { expected: ExpectationView, found: TokenView },
    AlreadyDeclared { declaration: TokenView },
    ProgramNameUsed { line: nat, column: nat },
    UndeclaredIdentifier { reference: TokenView },
    EqualsInsteadOfAssignment { line: nat, column: nat },
    MissingOperand { operation: Operation, line: nat, column: nat },
    OperandMismatch {
        operation: Operation,
        left: Seq<char>,
        right: Seq<char>,
        line: nat,
        column: nat,
    },
    Internal(Fault),
}

impl View for SyntaxError {
    type V = SyntaxErrorView;

    open spec fn view(&self) -> SyntaxErrorView {
        match self {
            SyntaxError::UnexpectedEndOfFile => SyntaxErrorView::UnexpectedEndOfFile,
            SyntaxError::UnexpectedToken { expected, found } => SyntaxErrorView::UnexpectedToken {
                expected: expected@,
                found: found@,
            },
            SyntaxError::AlreadyDeclared { declaration } => SyntaxErrorView::AlreadyDeclared {
                declaration: declaration@,
            },
            SyntaxError::ProgramNameUsed { line, column } => SyntaxErrorView::ProgramNameUsed {
                line: *line as nat,
                column: *column as nat,
            },
            SyntaxError::UndeclaredIdentifier { reference } => SyntaxErrorView::UndeclaredIdentifier {
                reference: reference@,
            },
            SyntaxError::EqualsInsteadOfAssignment {
                line,
                column,
            } => SyntaxErrorView::EqualsInsteadOfAssignment {
                line: *line as nat,
                column: *column as nat,
            },
            SyntaxError::MissingOperand { operation, line, column } => SyntaxErrorView::MissingOperand {
                operation: *operation,
                line: *line as nat,
                column: *column as nat,
            },
            SyntaxError::OperandMismatch {
                operation,
                left,
                right,
                line,
                column,
            } => SyntaxErrorView::OperandMismatch {
                operation: *operation,
                left: left@,
                right: right@,
                line: *line as nat,
                column: *column as nat,
            },
            SyntaxError::Internal(fault) => SyntaxErrorView::Internal(*fault),
        }
    }
}

impl Operation {
    /// The family's name as it reads in messages.
    pub open spec fn spec_name(self) -> Seq<char> {
        match self {
            Operation::Arithmetic => "arithmetic"@,
            Operation::Relational => "relational"@,
            Operation::Assignment => "assignment"@,
            Operation::Logic => "logic"@,
        }
    }

    pub fn name(&self) -> (r: &'static str)
        ensures
            r@ == self.spec_name(),
    {
        match self {
            Operation::Arithmetic => "arithmetic",
            Operation::Relational => "relational",
            Operation::Assignment => "assignment",
            Operation::Logic => "logic",
        }
    }
}

impl Fault {
    /// The fault as it reads in messages.
    pub open spec fn spec_name(self) -> Seq<char> {
        match self {
            Fault::ScopeUnderflow => "no scope is open"@,
            Fault::PendingBeyondTable => "more identifiers await a type than are declared"@,
            Fault::InputGrew => "tokens came back"@,
        }
    }

    pub fn name(&self) -> (r: &'static str)
        ensures
            r@ == self.spec_name(),
    {
        match self {
            Fault::ScopeUnderflow => "no scope is open",
            Fault::PendingBeyondTable => "more identifiers await a type than are declared",
            Fault::InputGrew => "tokens came back",
        }
    }
}

impl ExpectationView {
    /// What was expected, as it reads in messages.
    pub open spec fn text(self) -> Seq<char> {
        match self {
            ExpectationView::Exactly { category, lexeme } => category.spec_name() + " '"@ + lexeme
                + "'"@,
            ExpectationView::Identifier => "an identifier"@,
            ExpectationView::Category(category) => category.spec_name(),
            ExpectationView::TypeKeyword => "a keyword: 'integer', 'real' or 'boolean'"@,
            ExpectationView::TypeName => "'integer', 'real' or 'boolean'"@,
            ExpectationView::ParameterSeparator => "';'"@,
            ExpectationView::Sign => "a sign '+' or '-'"@,
        }
    }
}

impl Expectation {
    /// What was expected, as it reads in messages.
    pub fn to_string(&self) -> (r: String)
        ensures
            r@ == self@.text(),
    {
        match self {
            Expectation::Exactly { category, lexeme } => {
                let mut text = String::from_str(category.name());
                push_text(&mut text, " '");
                push_text(&mut text, lexeme.as_str());
                push_text(&mut text, "'");
                text
            },
            Expectation::Identifier => String::from_str("an identifier"),
            Expectation::Category(category) => String::from_str(category.name()),
            Expectation::TypeKeyword => String::from_str(
                "a keyword: 'integer', 'real' or 'boolean'",
            ),
            Expectation::TypeName => String::from_str("'integer', 'real' or 'boolean'"),
            Expectation::ParameterSeparator => String::from_str("';'"),
            Expectation::Sign => String::from_str("a sign '+' or '-'"),
        }
    }
}

impl SyntaxErrorView {
    /// The error as it reads in a message. But for the end of the input and
    /// the faults of the parser itself, every message names the line and the
    /// column where the error was found.
    pub open spec fn message(self) -> Seq<char> {
        match self {
            SyntaxErrorView::UnexpectedEndOfFile => "Syntactic error. Unexpected end of file."@,
            SyntaxErrorView::UnexpectedToken { expected, found } => "Expected "@ + expected.text()
                + ". Instead got '"@ + found.lexeme + "' of type "@ + found.category.spec_name()
                + spec_place(found.line, found.column) + "."@,
            SyntaxErrorView::AlreadyDeclared { declaration } => "Identifier '"@
                + declaration.lexeme + "' already declared"@ + spec_place(
                declaration.line,
                declaration.column,
            ) + "."@,
            SyntaxErrorView::ProgramNameUsed { line, column } => "Use of the program name"@
                + spec_place(line, column) + "."@,
            SyntaxErrorView::UndeclaredIdentifier {
                reference,
            } => "Use of the undeclared identifier '"@ + reference.lexeme + "'"@ + spec_place(
                reference.line,
                reference.column,
            ) + "."@,
            SyntaxErrorView::EqualsInsteadOfAssignment {
                line,
                column,
            } => "Invalid operator. Got '='"@ + spec_place(line, column)
                + ", didn't you mean ':='?"@,
            SyntaxErrorView::MissingOperand {
                operation,
                line,
                column,
            } => "Unable to check the types of the "@ + operation.spec_name() + " operation"@
                + spec_place(line, column) + "."@,
            SyntaxErrorView::OperandMismatch { operation, left, right, line, column } => {
                if operation == Operation::Assignment {
                    "Invalid assignment"@ + spec_place(line, column)
                        + ".\nCannot assign a value of type '"@ + right
                        + "' to a variable of type '"@ + left + "'."@
                } else {
                    "Invalid type between operands in "@ + operation.spec_name() + " operation"@
                        + spec_place(line, column) + ".\nCannot execute "@ + operation.spec_name()
                        + " operations between '"@ + left + "' and '"@ + right + "'."@
                }
            },
            SyntaxErrorView::Internal(fault) => "Internal error: "@ + fault.spec_name() + "."@,
        }
    }
}

impl SyntaxError {
    /// The error as it reads in a message.
    pub fn to_string(&self) -> (r: String)
        ensures
            r@ == self@.message(),
    {
        match self {
            SyntaxError::UnexpectedEndOfFile => String::from_str(
                "Syntactic error. Unexpected end of file.",
            ),
            SyntaxError::UnexpectedToken { expected, found } => {
                let mut text = String::from_str("Expected ");
                let what = expected.to_string();
                push_text(&mut text, what.as_str());
                push_text(&mut text, ". Instead got '");
                push_text(&mut text, found.get_lexeme());
                push_text(&mut text, "' of type ");
                push_text(&mut text, found.get_type().name());
                push_place(&mut text, found.get_line(), found.get_column());
                push_text(&mut text, ".");
                text
            },
            SyntaxError::AlreadyDeclared { declaration } => {
                let mut text = String::from_str("Identifier '");
                push_text(&mut text, declaration.get_lexeme());
                push_text(&mut text, "' already declared");
                push_place(&mut text, declaration.get_line(), declaration.get_column());
                push_text(&mut text, ".");
                text
            },
            SyntaxError::ProgramNameUsed { line, column } => {
                let mut text = String::from_str("Use of the program name");
                push_place(&mut text, *line, *column);
                push_text(&mut text, ".");
                text
            },
            SyntaxError::UndeclaredIdentifier { reference } => {
                let mut text = String::from_str("Use of the undeclared identifier '");
                push_text(&mut text, reference.get_lexeme());
                push_text(&mut text, "'");
                push_place(&mut text, reference.get_line(), reference.get_column());
                push_text(&mut text, ".");
                text
            },
            SyntaxError::EqualsInsteadOfAssignment { line, column } => {
                let mut text = String::from_str("Invalid operator. Got '='");
                push_place(&mut text, *line, *column);
                push_text(&mut text, ", didn't you mean ':='?");
                text
            },
            SyntaxError::MissingOperand { operation, line, column } => {
                let mut text = String::from_str("Unable to check the types of the ");
                push_text(&mut text, operation.name());
                push_text(&mut text, " operation");
                push_place(&mut text, *line, *column);
                push_text(&mut text, ".");
                text
            },
            SyntaxError::OperandMismatch { operation, left, right, line, column } => {
                if *operation == Operation::Assignment {
                    let mut text = String::from_str("Invalid assignment");
                    push_place(&mut text, *line, *column);
                    push_text(&mut text, ".\nCannot assign a value of type '");
                    push_text(&mut text, right.as_str());
                    push_text(&mut text, "' to a variable of type '");
                    push_text(&mut text, left.as_str());
                    push_text(&mut text, "'.");
                    text
                } else {
                    let mut text = String::from_str("Invalid type between operands in ");
                    push_text(&mut text, operation.name());
                    push_text(&mut text, " operation");
                    push_place(&mut text, *line, *column);
                    push_text(&mut text, ".\nCannot execute ");
                    push_text(&mut text, operation.name());
                    push_text(&mut text, " operations between '");
                    push_text(&mut text, left.as_str());
                    push_text(&mut text, "' and '");
                    push_text(&mut text, right.as_str());
                    push_text(&mut text, "'.");
                    text
                }
            },
            SyntaxError::Internal(fault) => {
                let mut text = String::from_str("Internal error: ");
                push_text(&mut text, fault.name());
                push_text(&mut text, ".");
                text
            },
        }
    }
}

} // verus!
