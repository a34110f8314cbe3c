//! The grammar, one function per production.
//!
//! Each production maps the state in which it starts to the state in which it
//! ends, or to the error that stops the parse. Declarations fill the symbol
//! table as they are read, and every expression leaves its type on the type
//! stack, where the operators check their operands.

use vstd::prelude::*;
use crate::common::token::TokenType;
use crate::common::utils::spec_is_type_name;
use crate::syntactic::error::{ExpectationView, Operation, SyntaxErrorView};
use crate::syntactic::model::{bounded, shortened, Outcome, ParserView, BOOLEAN, INTEGER, REAL};
use crate::syntactic::scope::untyped;

verus! {

/// programa → program vars_declaration subprograms_declaration
/// compound_command `.`
///
/// The final `.` closes the global scope.
pub open spec fn programa(s: ParserView) -> Outcome {
    match program(s) {
        Err(e) => Err(e),
        Ok(s1) => match vars_declaration(s1) {
            Err(e) => Err(e),
            Ok(s2) => match subprograms_declaration(s2) {
                Err(e) => Err(e),
                Ok(s3) => match compound_command(s3) {
                    Err(e) => Err(e),
                    Ok(s4) => match s4.expect(TokenType::Delimiter, "."@) {
                        Err(e) => Err(e),
                        Ok(s5) => s5.remove_scope(),
                    },
                },
            },
        },
    }
}

/// program → `program` identifier `;`
///
/// Opens the global scope and declares the program's name in it.
pub open spec fn program(s: ParserView) -> Outcome {
    match s.expect(TokenType::Keyword, "program"@) {
        Err(e) => Err(e),
        Ok(s1) => match s1.open_scope().consume_identifiers() {
            Err(e) => Err(e),
            Ok((name, s2)) => match s2.named(name.lexeme).add_symbol(untyped(name)) {
                Err(e) => Err(e),
                Ok(s3) => s3.expect(TokenType::Delimiter, ";"@),
            },
        },
    }
}

/// identifier, declared in the current scope and counted among those that
/// await their type.
pub open spec fn declare_next(s: ParserView) -> Outcome {
    match s.consume_identifiers() {
        Err(e) => Err(e),
        Ok((name, s1)) => s1.one_more_pending().add_symbol(untyped(name)),
    }
}

/// list_of_identifiers → identifier list_of_identifiers_prime
pub open spec fn list_of_identifiers(s: ParserView) -> Outcome {
    match declare_next(s) {
        Err(e) => Err(e),
        Ok(s1) => list_of_identifiers_prime(s1),
    }
}

/// list_of_identifiers_prime → `,` identifier list_of_identifiers_prime | ε
pub open spec fn list_of_identifiers_prime(s: ParserView) -> Outcome
    decreases s.tokens.len(),
{
    match s.peek() {
        Err(e) => Err(e),
        Ok(next) => if next.lexeme == ","@ {
            match declare_next(s.advance()) {
                Err(e) => Err(e),
                Ok(s1) => list_of_identifiers_prime(s1),
            }
        } else {
            Ok(s)
        },
    }
}

/// types → `integer` | `real` | `boolean`
///
/// Gives the name of the type.
pub open spec fn types(s: ParserView) -> Result<(Seq<char>, ParserView), SyntaxErrorView> {
    match s.peek() {
        Err(e) => Err(e),
        Ok(next) => if next.category != TokenType::Keyword {
            Err(
                SyntaxErrorView::UnexpectedToken {
                    expected: ExpectationView::TypeKeyword,
                    found: next,
                },
            )
        } else if !spec_is_type_name(next.lexeme) {
            Err(
                SyntaxErrorView::UnexpectedToken { expected: ExpectationView::TypeName, found: next },
            )
        } else {
            Ok((next.lexeme, s.advance()))
        },
    }
}

/// vars_declaration → `var` list_of_vars_declaration | ε
pub open spec fn vars_declaration(s: ParserView) -> Outcome {
    match s.peek() {
        Err(e) => Err(e),
        Ok(next) => if next.lexeme == "var"@ {
            list_of_vars_declaration(s.advance())
        } else {
            Ok(s)
        },
    }
}

/// list_of_identifiers `:` types `;`
///
/// Once the type is read, the identifiers that await their type get it.
pub open spec fn declaration_group(s: ParserView) -> Outcome {
    match list_of_identifiers(s) {
        Err(e) => Err(e),
        Ok(s1) => match s1.expect(TokenType::Delimiter, ":"@) {
            Err(e) => Err(e),
            Ok(s2) => match types(s2) {
                Err(e) => Err(e),
                Ok((type_text, s3)) => match s3.update_symbols_type(type_text) {
                    Err(e) => Err(e),
                    Ok(s4) => s4.expect(TokenType::Delimiter, ";"@),
                },
            },
        },
    }
}

/// list_of_vars_declaration → list_of_identifiers `:` types `;`
/// list_of_vars_declaration_prime
pub open spec fn list_of_vars_declaration(s: ParserView) -> Outcome {
    match declaration_group(s) {
        Err(e) => Err(e),
        Ok(s1) => list_of_vars_declaration_prime(s1),
    }
}

/// list_of_vars_declaration_prime → list_of_identifiers `:` types `;`
/// list_of_vars_declaration_prime | ε
pub open spec fn list_of_vars_declaration_prime(s: ParserView) -> Outcome
    decreases s.tokens.len(),
{
    match s.peek() {
        Err(e) => Err(e),
        Ok(next) => if next.category == TokenType::Identifier {
            match shortened(s, declaration_group(s)) {
                Err(e) => Err(e),
                Ok(s1) => list_of_vars_declaration_prime(s1),
            }
        } else {
            Ok(s)
        },
    }
}

/// subprograms_declaration → subprogram_declaration `;`
/// subprograms_declaration | ε
pub open spec fn subprograms_declaration(s: ParserView) -> Outcome
    decreases s.tokens.len(), 1nat,
{
    match s.peek() {
        Err(e) => Err(e),
        Ok(next) => if next.category == TokenType::Keyword && next.lexeme == "procedure"@ {
            match bounded(s, subprogram_declaration(s)) {
                Err(e) => Err(e),
                Ok(s1) => match s1.expect(TokenType::Delimiter, ";"@) {
                    Err(e) => Err(e),
                    Ok(s2) => subprograms_declaration(s2),
                },
            }
        } else {
            Ok(s)
        },
    }
}

/// subprogram_declaration → `procedure` identifier arguments `;`
/// vars_declaration subprograms_declaration compound_command
///
/// The procedure's name is declared in the scope around it; its parameters
/// and everything declared in its body live in a scope of their own, which
/// closes with the body.
pub open spec fn subprogram_declaration(s: ParserView) -> Outcome
    decreases s.tokens.len(), 0nat,
{
    match s.expect(TokenType::Keyword, "procedure"@) {
        Err(e) => Err(e),
        Ok(s1) => match s1.consume_identifiers() {
            Err(e) => Err(e),
            Ok((name, s2)) => match s2.add_symbol(untyped(name)) {
                Err(e) => Err(e),
                Ok(s3) => match subprogram_body(s3.open_scope()) {
                    Err(e) => Err(e),
                    Ok(s4) => s4.remove_scope(),
                },
            },
        },
    }
}

/// arguments `;` vars_declaration subprograms_declaration compound_command
///
/// What follows the name of a procedure, in the scope of the procedure.
pub open spec fn subprogram_body(s: ParserView) -> Outcome
    decreases s.tokens.len(), 0nat,
{
    match bounded(s, arguments(s)) {
        Err(e) => Err(e),
        Ok(s1) => match s1.expect(TokenType::Delimiter, ";"@) {
            Err(e) => Err(e),
            Ok(s2) => match bounded(s2, vars_declaration(s2)) {
                Err(e) => Err(e),
                Ok(s3) => match subprograms_declaration(s3) {
                    Err(e) => Err(e),
                    Ok(s4) => compound_command(s4),
                },
            },
        },
    }
}

/// arguments → `(` list_of_parameters `)` | ε
pub open spec fn arguments(s: ParserView) -> Outcome {
    match s.peek() {
        Err(e) => Err(e),
        Ok(next) => if next.category == TokenType::Delimiter && next.lexeme == "("@ {
            match list_of_parameters(s.advance()) {
                Err(e) => Err(e),
                Ok(s1) => s1.expect(TokenType::Delimiter, ")"@),
            }
        } else {
            Ok(s)
        },
    }
}

/// list_of_identifiers `:` types
///
/// The parameters are declared and counted among the identifiers that await
/// their type; the type that follows them is read and let go.
pub open spec fn parameter_group(s: ParserView) -> Outcome {
    match list_of_identifiers(s) {
        Err(e) => Err(e),
        Ok(s1) => match s1.expect(TokenType::Delimiter, ":"@) {
            Err(e) => Err(e),
            Ok(s2) => match types(s2) {
                Err(e) => Err(e),
                Ok((_, s3)) => Ok(s3),
            },
        },
    }
}

/// list_of_parameters → list_of_identifiers `:` types list_of_parameters_prime
pub open spec fn list_of_parameters(s: ParserView) -> Outcome {
    match parameter_group(s) {
        Err(e) => Err(e),
        Ok(s1) => list_of_parameters_prime(s1),
    }
}

/// list_of_parameters_prime → `;` list_of_identifiers `:` types
/// list_of_parameters_prime | ε
///
/// The empty alternative is taken only before `)`.
pub open spec fn list_of_parameters_prime(s: ParserView) -> Outcome
    decreases s.tokens.len(),
{
    match s.peek() {
        Err(e) => Err(e),
        Ok(next) => if next.category == TokenType::Delimiter && next.lexeme == ";"@ {
            match bounded(s.advance(), parameter_group(s.advance())) {
                Err(e) => Err(e),
                Ok(s1) => list_of_parameters_prime(s1),
            }
        } else if next.lexeme != ")"@ {
            Err(
                SyntaxErrorView::UnexpectedToken {
                    expected: ExpectationView::ParameterSeparator,
                    found: next,
                },
            )
        } else {
            Ok(s)
        },
    }
}

/// compound_command → `begin` optional_commands `end`
pub open spec fn compound_command(s: ParserView) -> Outcome
    decreases s.tokens.len(), 0nat,
{
    match s.expect(TokenType::Keyword, "begin"@) {
        Err(e) => Err(e),
        Ok(s1) => match optional_commands(s1) {
            Err(e) => Err(e),
            Ok(s2) => s2.expect(TokenType::Keyword, "end"@),
        },
    }
}

/// optional_commands → list_of_commands | ε
pub open spec fn optional_commands(s: ParserView) -> Outcome
    decreases s.tokens.len(), 3nat,
{
    match s.peek() {
        Err(e) => Err(e),
        Ok(next) => if (next.category == TokenType::Keyword && (next.lexeme == "if"@ || next.lexeme
            == "var"@ || next.lexeme == "while"@ || next.lexeme == "begin"@)) || next.category
            == TokenType::Identifier {
            list_of_commands(s)
        } else {
            Ok(s)
        },
    }
}

/// list_of_commands → commands list_of_commands_prime
pub open spec fn list_of_commands(s: ParserView) -> Outcome
    decreases s.tokens.len(), 2nat,
{
    match bounded(s, commands(s)) {
        Err(e) => Err(e),
        Ok(s1) => list_of_commands_prime(s1),
    }
}

/// list_of_commands_prime → `;` commands list_of_commands_prime | ε
pub open spec fn list_of_commands_prime(s: ParserView) -> Outcome
    decreases s.tokens.len(), 0nat,
{
    match s.peek() {
        Err(e) => Err(e),
        Ok(next) => if next.lexeme == ";"@ {
            match s.expect(TokenType::Delimiter, ";"@) {
                Err(e) => Err(e),
                Ok(s1) => match bounded(s1, commands(s1)) {
                    Err(e) => Err(e),
                    Ok(s2) => list_of_commands_prime(s2),
                },
            }
        } else {
            Ok(s)
        },
    }
}

/// commands → identifier command_dual_prime | compound_command
/// | `if` expression `then` commands else_part
/// | `while` expression `do` commands | ε
pub open spec fn commands(s: ParserView) -> Outcome
    decreases s.tokens.len(), 1nat,
{
    match s.peek() {
        Err(e) => Err(e),
        Ok(next) => if next.category == TokenType::Identifier {
            command_prime(s)
        } else if next.lexeme == "begin"@ {
            compound_command(s)
        } else if next.lexeme == "if"@ {
            match s.expect(TokenType::Keyword, "if"@) {
                Err(e) => Err(e),
                Ok(s1) => match bounded(s1, expression(s1)) {
                    Err(e) => Err(e),
                    Ok(s2) => match s2.expect(TokenType::Keyword, "then"@) {
                        Err(e) => Err(e),
                        Ok(s3) => match bounded(s3, commands(s3)) {
                            Err(e) => Err(e),
                            Ok(s4) => else_part(s4),
                        },
                    },
                },
            }
        } else if next.lexeme == "while"@ {
            match s.expect(TokenType::Keyword, "while"@) {
                Err(e) => Err(e),
                Ok(s1) => match bounded(s1, expression(s1)) {
                    Err(e) => Err(e),
                    Ok(s2) => match s2.expect(TokenType::Keyword, "do"@) {
                        Err(e) => Err(e),
                        Ok(s3) => commands(s3),
                    },
                },
            }
        } else {
            Ok(s)
        },
    }
}

/// else_part → `else` commands | ε
pub open spec fn else_part(s: ParserView) -> Outcome
    decreases s.tokens.len(), 0nat,
{
    match s.peek() {
        Err(e) => Err(e),
        Ok(next) => if next.lexeme == "else"@ {
            match s.expect(TokenType::Keyword, "else"@) {
                Err(e) => Err(e),
                Ok(s1) => commands(s1),
            }
        } else {
            Ok(s)
        },
    }
}

/// The identifier that starts a command: it must be declared, and its type
/// goes on the type stack as the left side of a possible assignment.
pub open spec fn command_prime(s: ParserView) -> Outcome {
    match s.consume_identifiers() {
        Err(e) => Err(e),
        Ok((name, s1)) => match s1.find_symbol(untyped(name)) {
            Err(e) => Err(e),
            Ok(found) => command_dual_prime(s1.push_type(found->identifier_type)),
        },
    }
}

/// command_dual_prime → `:=` expression | `(` list_of_expressions `)` | ε
///
/// An assignment checks the type of the expression against the type of the
/// variable. A call lets the type of the called name go. `=` in place of
/// `:=` has an error of its own.
pub open spec fn command_dual_prime(s: ParserView) -> Outcome {
    match s.peek() {
        Err(e) => Err(e),
        Ok(next) => if next.category == TokenType::Assignment {
            match s.expect(TokenType::Assignment, ":="@) {
                Err(e) => Err(e),
                Ok(s1) => match expression(s1) {
                    Err(e) => Err(e),
                    Ok(s2) => s2.check(Operation::Assignment, next.line, next.column),
                },
            }
        } else if next.lexeme == "("@ {
            match s.pop_type().expect(TokenType::Delimiter, "("@) {
                Err(e) => Err(e),
                Ok(s1) => match list_of_expressions(s1) {
                    Err(e) => Err(e),
                    Ok(s2) => s2.expect(TokenType::Delimiter, ")"@),
                },
            }
        } else if next.lexeme == "="@ {
            Err(
                SyntaxErrorView::EqualsInsteadOfAssignment {
                    line: next.line,
                    column: next.column,
                },
            )
        } else {
            Ok(s)
        },
    }
}

/// procedure_activation → identifier procedure_activation_prime
///
/// The identifier must be declared.
pub open spec fn procedure_activation(s: ParserView) -> Outcome
    decreases s.tokens.len(), 5nat,
{
    match s.consume_identifiers() {
        Err(e) => Err(e),
        Ok((name, s1)) => match s1.find_symbol(untyped(name)) {
            Err(e) => Err(e),
            Ok(_) => procedure_activation_prime(s1),
        },
    }
}

/// procedure_activation_prime → `(` list_of_expressions `)` | ε
pub open spec fn procedure_activation_prime(s: ParserView) -> Outcome
    decreases s.tokens.len(), 4nat,
{
    match s.peek() {
        Err(e) => Err(e),
        Ok(next) => if next.category == TokenType::Delimiter && next.lexeme == "("@ {
            match s.expect(TokenType::Delimiter, "("@) {
                Err(e) => Err(e),
                Ok(s1) => match list_of_expressions(s1) {
                    Err(e) => Err(e),
                    Ok(s2) => s2.expect(TokenType::Delimiter, ")"@),
                },
            }
        } else {
            Ok(s)
        },
    }
}

/// list_of_expressions → expression list_of_expressions_prime
pub open spec fn list_of_expressions(s: ParserView) -> Outcome
    decreases s.tokens.len(), 10nat,
{
    match bounded(s, expression(s)) {
        Err(e) => Err(e),
        Ok(s1) => list_of_expressions_prime(s1),
    }
}

/// list_of_expressions_prime → `,` expression list_of_expressions_prime | ε
pub open spec fn list_of_expressions_prime(s: ParserView) -> Outcome
    decreases s.tokens.len(), 0nat,
{
    match s.peek() {
        Err(e) => Err(e),
        Ok(next) => if next.category == TokenType::Delimiter && next.lexeme == ","@ {
            match s.expect(TokenType::Delimiter, ","@) {
                Err(e) => Err(e),
                Ok(s1) => match bounded(s1, expression(s1)) {
                    Err(e) => Err(e),
                    Ok(s2) => list_of_expressions_prime(s2),
                },
            }
        } else {
            Ok(s)
        },
    }
}

/// expression → simple_expression expression_prime
pub open spec fn expression(s: ParserView) -> Outcome
    decreases s.tokens.len(), 9nat,
{
    match bounded(s, simple_expression(s)) {
        Err(e) => Err(e),
        Ok(s1) => expression_prime(s1),
    }
}

/// expression_prime → relational_op simple_expression | ε
///
/// A comparison takes two numbers and gives a `boolean`.
pub open spec fn expression_prime(s: ParserView) -> Outcome
    decreases s.tokens.len(), 1nat,
{
    match s.peek() {
        Err(e) => Err(e),
        Ok(next) => if next.category == TokenType::RelationalOperators {
            match simple_expression(s.advance()) {
                Err(e) => Err(e),
                Ok(s1) => s1.check(Operation::Relational, next.line, next.column),
            }
        } else {
            Ok(s)
        },
    }
}

/// simple_expression → signal term simple_expression_prime
/// | term simple_expression_prime
pub open spec fn simple_expression(s: ParserView) -> Outcome
    decreases s.tokens.len(), 8nat,
{
    match s.peek() {
        Err(e) => Err(e),
        Ok(next) => if next.lexeme == "+"@ || next.lexeme == "-"@ {
            match bounded(s.advance(), term(s.advance())) {
                Err(e) => Err(e),
                Ok(s1) => simple_expression_prime(s1),
            }
        } else {
            match bounded(s, term(s)) {
                Err(e) => Err(e),
                Ok(s1) => simple_expression_prime(s1),
            }
        },
    }
}

/// The family of rules that an additive operator checks its operands by:
/// `or` is logical, `+` and `-` are arithmetic.
pub open spec fn additive_operation(lexeme: Seq<char>) -> Operation {
    if lexeme == "or"@ {
        Operation::Logic
    } else {
        Operation::Arithmetic
    }
}

/// The family of rules that a multiplicative operator checks its operands
/// by: `and` is logical, `*` and `/` are arithmetic.
pub open spec fn multiplicative_operation(lexeme: Seq<char>) -> Operation {
    if lexeme == "and"@ {
        Operation::Logic
    } else {
        Operation::Arithmetic
    }
}

/// simple_expression_prime → additive_op term simple_expression_prime | ε
///
/// Each operator is checked as soon as its right operand is read.
pub open spec fn simple_expression_prime(s: ParserView) -> Outcome
    decreases s.tokens.len(), 2nat,
{
    match s.peek() {
        Err(e) => Err(e),
        Ok(next) => if next.category == TokenType::AdditiveOperators {
            match bounded(s.advance(), term(s.advance())) {
                Err(e) => Err(e),
                Ok(s1) => match s1.check(additive_operation(next.lexeme), next.line, next.column) {
                    Err(e) => Err(e),
                    Ok(s2) => simple_expression_prime(s2),
                },
            }
        } else {
            Ok(s)
        },
    }
}

/// signal → `+` | `-`
pub open spec fn signal(s: ParserView) -> Outcome {
    match s.consume_if(
        s.tokens.len() > 0 && (s.tokens[0].lexeme == "+"@ || s.tokens[0].lexeme == "-"@),
        ExpectationView::Sign,
    ) {
        Err(e) => Err(e),
        Ok((_, s1)) => Ok(s1),
    }
}

/// term → factor term_prime
pub open spec fn term(s: ParserView) -> Outcome
    decreases s.tokens.len(), 7nat,
{
    match bounded(s, factor(s)) {
        Err(e) => Err(e),
        Ok(s1) => term_prime(s1),
    }
}

/// term_prime → multiplicative_op factor term_prime | ε
///
/// An operator is checked after the operators to its right.
pub open spec fn term_prime(s: ParserView) -> Outcome
    decreases s.tokens.len(), 3nat,
{
    match s.peek() {
        Err(e) => Err(e),
        Ok(next) => if next.category == TokenType::MultiplicativeOperators {
            match bounded(s.advance(), factor(s.advance())) {
                Err(e) => Err(e),
                Ok(s1) => match term_prime(s1) {
                    Err(e) => Err(e),
                    Ok(s2) => s2.check(
                        multiplicative_operation(next.lexeme),
                        next.line,
                        next.column,
                    ),
                },
            }
        } else {
            Ok(s)
        },
    }
}

/// factor → identifier | identifier `(` list_of_expressions `)` | integer
/// | real | boolean | `(` expression `)` | `not` factor | ε
///
/// Every factor leaves its type on the type stack: a literal the type of
/// its category, an identifier the type that it was declared with.
pub open spec fn factor(s: ParserView) -> Outcome
    decreases s.tokens.len(), 6nat,
{
    match s.peek() {
        Err(e) => Err(e),
        Ok(next) => if next.category == TokenType::Identifier {
            match procedure_activation(s) {
                Err(e) => Err(e),
                Ok(s1) => match s1.find_symbol(untyped(next)) {
                    Err(e) => Err(e),
                    Ok(found) => Ok(s1.push_type(found->identifier_type)),
                },
            }
        } else if next.category == TokenType::Integer {
            Ok(s.advance().push_type(INTEGER@))
        } else if next.category == TokenType::Real {
            Ok(s.advance().push_type(REAL@))
        } else if next.category == TokenType::Boolean {
            Ok(s.advance().push_type(BOOLEAN@))
        } else if next.lexeme == "("@ {
            match s.expect(TokenType::Delimiter, "("@) {
                Err(e) => Err(e),
                Ok(s1) => match expression(s1) {
                    Err(e) => Err(e),
                    Ok(s2) => s2.expect(TokenType::Delimiter, ")"@),
                },
            }
        } else if next.category == TokenType::Keyword && next.lexeme == "not"@ {
            match factor(s.advance().push_type(BOOLEAN@)) {
                Err(e) => Err(e),
                Ok(s1) => s1.check(Operation::Logic, next.line, next.column),
            }
        } else {
            Ok(s)
        },
    }
}

/// The outcome of parsing `tokens` as a whole program.
pub open spec fn parse(tokens: Seq<crate::common::token::TokenView>) -> Outcome {
    programa(ParserView::initial(tokens))
}

} // verus!
