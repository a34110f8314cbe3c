//! The productions of the grammar, as methods of the parser.
//!
//! Each method consumes the tokens of one production and does to the symbol
//! table and the type stack what the grammar says of that production.

use vstd::prelude::*;
use vstd::string::*;
use crate::common::symbol::Symbol;
use crate::common::text::str_eq;
use crate::common::token::{token_views, Token, TokenType};
use crate::common::utils::is_type_name;
use crate::syntactic::error::{Expectation, Fault, SyntaxError, SyntaxErrorView};
use crate::syntactic::progress::lemma_programa_is_orderly;
use crate::syntactic::scope::grown_from;
use crate::syntactic::grammar;
use crate::syntactic::model::{BOOLEAN, INTEGER, REAL};
use crate::syntactic::{agrees, follows, Parser};

verus! {

/// A copy of the name of the type of a declared identifier.
fn declared_type(found: &Symbol) -> (r: String)
    requires
        found@ is Identifier,
    ensures
        r@ == found@->identifier_type,
{
    match found {
        Symbol::Identifier(s) => s.identifier_type.clone(),
        Symbol::EOS => String::new(),
    }
}

impl Parser {
    /// Parses a whole program. On success the global scope has closed with
    /// the final `.`, and nothing that the program declared is left in the
    /// symbol table. A parse never fails because tokens came back or because
    /// no scope was open.
    pub fn init(&mut self) -> (r: Result<bool, SyntaxError>)
        requires
            old(self).wf(),
        ensures
            final(self).wf(),
            match grammar::programa(old(self)@) {
                Ok(s) => r == Ok::<bool, SyntaxError>(true) && final(self)@ == s,
                Err(e) => r is Err && r->Err_0@ == e,
            },
            r is Ok ==> final(self)@.symbols.len() == old(self)@.symbols.len() && grown_from(
                final(self)@.symbols,
                old(self)@.symbols,
            ),
            r is Err ==> r->Err_0@ != SyntaxErrorView::Internal(Fault::InputGrew) && r->Err_0@
                != SyntaxErrorView::Internal(Fault::ScopeUnderflow),
    {
        proof {
            lemma_programa_is_orderly(self@);
        }
        match self.programa() {
            Ok(()) => Ok(true),
            Err(e) => Err(e),
        }
    }

    /// The whole program: heading, declarations, procedures, the main compound
    /// command and the final `.`, which closes the global scope.
    pub fn programa(&mut self) -> (r: Result<(), SyntaxError>)
        requires
            old(self).wf(),
        ensures
            follows(old(self)@, grammar::programa(old(self)@), r, final(self)@),
    {
        self.program()?;
        self.vars_declaration()?;
        self.subprograms_declaration()?;
        self.compound_command()?;
        self.consume(TokenType::Delimiter, ".")?;
        self.remove_scope()
    }

    /// The heading `program` identifier `;`. Opens the global scope and
    /// declares the program's name in it.
    pub fn program(&mut self) -> (r: Result<(), SyntaxError>)
        requires
            old(self).wf(),
        ensures
            follows(old(self)@, grammar::program(old(self)@), r, final(self)@),
    {
        self.consume(TokenType::Keyword, "program")?;
        self.open_scope();
        let token = self.consume_identifiers()?;
        self.set_program_name(String::from_str(token.get_lexeme()));
        self.add_symbol(Symbol::new(token))?;
        self.consume(TokenType::Delimiter, ";")?;
        Ok(())
    }

    /// The declarations of variables that `var` introduces, if `var` comes next.
    pub fn vars_declaration(&mut self) -> (r: Result<(), SyntaxError>)
        requires
            old(self).wf(),
        ensures
            follows(old(self)@, grammar::vars_declaration(old(self)@), r, final(self)@),
    {
        let var = self.peek()?;
        if str_eq(var.get_lexeme(), "var") {
            self.pop();
            self.list_of_vars_declaration()?;
        }
        Ok(())
    }

    /// One group of a declaration: its identifiers, `:`, their type, `;`.
    pub fn declaration_group(&mut self) -> (r: Result<(), SyntaxError>)
        requires
            old(self).wf(),
        ensures
            follows(old(self)@, grammar::declaration_group(old(self)@), r, final(self)@),
            r is Ok ==> final(self)@.tokens.len() < old(self)@.tokens.len(),
    {
        self.list_of_identifiers()?;
        self.consume(TokenType::Delimiter, ":")?;
        let symbol_type = self.types()?;
        self.update_symbols_type(symbol_type.as_str())?;
        self.consume(TokenType::Delimiter, ";")?;
        Ok(())
    }

    /// One group of a declaration and the groups that follow it.
    pub fn list_of_vars_declaration(&mut self) -> (r: Result<(), SyntaxError>)
        requires
            old(self).wf(),
        ensures
            follows(old(self)@, grammar::list_of_vars_declaration(old(self)@), r, final(self)@),
    {
        self.declaration_group()?;
        self.list_of_vars_declaration_prime()
    }

    /// The further groups of a declaration, as long as an identifier comes next.
    pub fn list_of_vars_declaration_prime(&mut self) -> (r: Result<(), SyntaxError>)
        requires
            old(self).wf(),
        ensures
            follows(
                old(self)@,
                grammar::list_of_vars_declaration_prime(old(self)@),
                r,
                final(self)@,
            ),
        decreases old(self)@.tokens.len(),
    {
        let next = self.peek()?;
        if next.is_type_of(TokenType::Identifier) {
            self.declaration_group()?;
            self.list_of_vars_declaration_prime()?;
        }
        Ok(())
    }

    /// Consumes an identifier, counts it among those that await their type
    /// and declares it in the current scope.
    pub fn declare_next(&mut self) -> (r: Result<(), SyntaxError>)
        requires
            old(self).wf(),
        ensures
            follows(old(self)@, grammar::declare_next(old(self)@), r, final(self)@),
            r is Ok ==> final(self)@.tokens.len() < old(self)@.tokens.len(),
    {
        let token = self.consume_identifiers()?;
        self.one_more_pending();
        self.add_symbol(Symbol::new(token))
    }

    /// An identifier and the identifiers that follow it, each after a `,`.
    pub fn list_of_identifiers(&mut self) -> (r: Result<(), SyntaxError>)
        requires
            old(self).wf(),
        ensures
            follows(old(self)@, grammar::list_of_identifiers(old(self)@), r, final(self)@),
            r is Ok ==> final(self)@.tokens.len() < old(self)@.tokens.len(),
    {
        self.declare_next()?;
        self.list_of_identifiers_prime()
    }

    /// The further identifiers of a list, as long as a `,` comes next.
    pub fn list_of_identifiers_prime(&mut self) -> (r: Result<(), SyntaxError>)
        requires
            old(self).wf(),
        ensures
            follows(old(self)@, grammar::list_of_identifiers_prime(old(self)@), r, final(self)@),
        decreases old(self)@.tokens.len(),
    {
        let comma = self.peek()?;
        if str_eq(comma.get_lexeme(), ",") {
            self.pop();
            self.declare_next()?;
            self.list_of_identifiers_prime()?;
        }
        Ok(())
    }

    /// Consumes the name of a type and gives it back.
    pub fn types(&mut self) -> (r: Result<String, SyntaxError>)
        requires
            old(self).wf(),
        ensures
            final(self).wf(),
            match grammar::types(old(self)@) {
                Ok((type_text, s)) => r is Ok && r->Ok_0@ == type_text && final(self)@ == s,
                Err(e) => r is Err && r->Err_0@ == e,
            },
    {
        match self.pop() {
            None => Err(SyntaxError::UnexpectedEndOfFile),
            Some(value) => {
                if !value.is_type_of(TokenType::Keyword) {
                    return Err(
                        SyntaxError::UnexpectedToken {
                            expected: Expectation::TypeKeyword,
                            found: value,
                        },
                    );
                }
                if !is_type_name(value.get_lexeme()) {
                    return Err(
                        SyntaxError::UnexpectedToken {
                            expected: Expectation::TypeName,
                            found: value,
                        },
                    );
                }
                Ok(String::from_str(value.get_lexeme()))
            },
        }
    }

    /// The declarations of procedures, each closed by `;`, as long as `procedure`
    /// comes next.
    pub fn subprograms_declaration(&mut self) -> (r: Result<(), SyntaxError>)
        requires
            old(self).wf(),
        ensures
            follows(old(self)@, grammar::subprograms_declaration(old(self)@), r, final(self)@),
        decreases old(self)@.tokens.len(), 1nat,
    {
        let next = self.peek()?;
        if next.is_type_of(TokenType::Keyword) && str_eq(next.get_lexeme(), "procedure") {
            self.subprogram_declaration()?;
            self.consume(TokenType::Delimiter, ";")?;
            self.subprograms_declaration()?;
        }
        Ok(())
    }

    /// One procedure: its name, declared in the scope around it, and in a scope
    /// of its own its parameters, variables, procedures and compound command.
    pub fn subprogram_declaration(&mut self) -> (r: Result<(), SyntaxError>)
        requires
            old(self).wf(),
        ensures
            follows(old(self)@, grammar::subprogram_declaration(old(self)@), r, final(self)@),
        decreases old(self)@.tokens.len(), 0nat,
    {
        self.consume(TokenType::Keyword, "procedure")?;
        let token = self.consume_identifiers()?;
        self.add_symbol(Symbol::new(token))?;
        self.open_scope();
        self.arguments()?;
        self.consume(TokenType::Delimiter, ";")?;
        self.vars_declaration()?;
        self.subprograms_declaration()?;
        self.compound_command()?;
        self.remove_scope()
    }

    /// The parameters of a procedure between `(` and `)`, if `(` comes next.
    pub fn arguments(&mut self) -> (r: Result<(), SyntaxError>)
        requires
            old(self).wf(),
        ensures
            follows(old(self)@, grammar::arguments(old(self)@), r, final(self)@),
    {
        let next = self.peek()?;
        if next.is_type_of(TokenType::Delimiter) && str_eq(next.get_lexeme(), "(") {
            self.consume(TokenType::Delimiter, "(")?;
            self.list_of_parameters()?;
            self.consume(TokenType::Delimiter, ")")?;
        }
        Ok(())
    }

    /// One group of parameters: its identifiers, `:`, their type.
    pub fn parameter_group(&mut self) -> (r: Result<(), SyntaxError>)
        requires
            old(self).wf(),
        ensures
            follows(old(self)@, grammar::parameter_group(old(self)@), r, final(self)@),
    {
        self.list_of_identifiers()?;
        self.consume(TokenType::Delimiter, ":")?;
        self.types()?;
        Ok(())
    }

    /// One group of parameters and the groups that follow it.
    pub fn list_of_parameters(&mut self) -> (r: Result<(), SyntaxError>)
        requires
            old(self).wf(),
        ensures
            follows(old(self)@, grammar::list_of_parameters(old(self)@), r, final(self)@),
    {
        self.parameter_group()?;
        self.list_of_parameters_prime()
    }

    /// The further groups of parameters, each after a `;`, up to the `)`.
    pub fn list_of_parameters_prime(&mut self) -> (r: Result<(), SyntaxError>)
        requires
            old(self).wf(),
        ensures
            follows(old(self)@, grammar::list_of_parameters_prime(old(self)@), r, final(self)@),
        decreases old(self)@.tokens.len(),
    {
        let next = self.peek()?;
        if next.is_type_of(TokenType::Delimiter) && str_eq(next.get_lexeme(), ";") {
            self.consume(TokenType::Delimiter, ";")?;
            self.parameter_group()?;
            self.list_of_parameters_prime()?;
        } else if !str_eq(next.get_lexeme(), ")") {
            return Err(
                SyntaxError::UnexpectedToken {
                    expected: Expectation::ParameterSeparator,
                    found: next,
                },
            );
        }
        Ok(())
    }

    /// `begin`, commands or none, `end`.
    pub fn compound_command(&mut self) -> (r: Result<(), SyntaxError>)
        requires
            old(self).wf(),
        ensures
            follows(old(self)@, grammar::compound_command(old(self)@), r, final(self)@),
        decreases old(self)@.tokens.len(), 0nat,
    {
        self.consume(TokenType::Keyword, "begin")?;
        self.optional_commands()?;
        self.consume(TokenType::Keyword, "end")?;
        Ok(())
    }

    /// A list of commands, if a command comes next.
    pub fn optional_commands(&mut self) -> (r: Result<(), SyntaxError>)
        requires
            old(self).wf(),
        ensures
            follows(old(self)@, grammar::optional_commands(old(self)@), r, final(self)@),
        decreases old(self)@.tokens.len(), 3nat,
    {
        let value = self.peek()?;
        let lexeme = value.get_lexeme();
        if (value.is_type_of(TokenType::Keyword) && (str_eq(lexeme, "if") || str_eq(lexeme, "var")
            || str_eq(lexeme, "while") || str_eq(lexeme, "begin"))) || value.is_type_of(
            TokenType::Identifier,
        ) {
            self.list_of_commands()?;
        }
        Ok(())
    }

    /// A command and the commands that follow it, each after a `;`.
    pub fn list_of_commands(&mut self) -> (r: Result<(), SyntaxError>)
        requires
            old(self).wf(),
        ensures
            follows(old(self)@, grammar::list_of_commands(old(self)@), r, final(self)@),
        decreases old(self)@.tokens.len(), 2nat,
    {
        self.commands()?;
        self.list_of_commands_prime()
    }

    /// The further commands of a list, as long as a `;` comes next.
    pub fn list_of_commands_prime(&mut self) -> (r: Result<(), SyntaxError>)
        requires
            old(self).wf(),
        ensures
            follows(old(self)@, grammar::list_of_commands_prime(old(self)@), r, final(self)@),
        decreases old(self)@.tokens.len(), 0nat,
    {
        let next = self.peek()?;
        if str_eq(next.get_lexeme(), ";") {
            self.consume(TokenType::Delimiter, ";")?;
            self.commands()?;
            self.list_of_commands_prime()?;
        }
        Ok(())
    }

    /// One command: an assignment or a call, a compound command, an `if` or a
    /// `while`; or nothing.
    pub fn commands(&mut self) -> (r: Result<(), SyntaxError>)
        requires
            old(self).wf(),
        ensures
            follows(old(self)@, grammar::commands(old(self)@), r, final(self)@),
        decreases old(self)@.tokens.len(), 1nat,
    {
        let next = self.peek()?;
        if next.is_type_of(TokenType::Identifier) {
            self.command_prime()?;
        } else if str_eq(next.get_lexeme(), "begin") {
            self.compound_command()?;
        } else if str_eq(next.get_lexeme(), "if") {
            self.consume(TokenType::Keyword, "if")?;
            self.expression()?;
            self.consume(TokenType::Keyword, "then")?;
            self.commands()?;
            self.else_part()?;
        } else if str_eq(next.get_lexeme(), "while") {
            self.consume(TokenType::Keyword, "while")?;
            self.expression()?;
            self.consume(TokenType::Keyword, "do")?;
            self.commands()?;
        }
        Ok(())
    }

    /// `else` and its command, if `else` comes next.
    pub fn else_part(&mut self) -> (r: Result<(), SyntaxError>)
        requires
            old(self).wf(),
        ensures
            follows(old(self)@, grammar::else_part(old(self)@), r, final(self)@),
        decreases old(self)@.tokens.len(), 0nat,
    {
        let next = self.peek()?;
        if str_eq(next.get_lexeme(), "else") {
            self.consume(TokenType::Keyword, "else")?;
            self.commands()?;
        }
        Ok(())
    }

    /// The identifier that starts a command, which must be declared, and what
    /// follows it.
    pub fn command_prime(&mut self) -> (r: Result<(), SyntaxError>)
        requires
            old(self).wf(),
        ensures
            follows(old(self)@, grammar::command_prime(old(self)@), r, final(self)@),
    {
        let token = self.consume_identifiers()?;
        let temp = self.find_symbol(&Symbol::new(token))?;
        self.push_type(declared_type(&temp));
        self.command_dual_prime()
    }

    /// What follows the identifier of a command: `:=` and an expression of the
    /// variable's type, or the arguments of a call, or nothing.
    pub fn command_dual_prime(&mut self) -> (r: Result<(), SyntaxError>)
        requires
            old(self).wf(),
        ensures
            follows(old(self)@, grammar::command_dual_prime(old(self)@), r, final(self)@),
    {
        let next = self.peek()?;
        if next.is_type_of(TokenType::Assignment) {
            self.consume(TokenType::Assignment, ":=")?;
            self.expression()?;
            self.check_atribuation(next.get_line(), next.get_column())?;
        } else if str_eq(next.get_lexeme(), "(") {
            self.pop_type();
            self.consume(TokenType::Delimiter, "(")?;
            self.list_of_expressions()?;
            self.consume(TokenType::Delimiter, ")")?;
        } else if str_eq(next.get_lexeme(), "=") {
            return Err(
                SyntaxError::EqualsInsteadOfAssignment {
                    line: next.get_line(),
                    column: next.get_column(),
                },
            );
        }
        Ok(())
    }

    /// An identifier, which must be declared, with arguments or without.
    pub fn procedure_activation(&mut self) -> (r: Result<(), SyntaxError>)
        requires
            old(self).wf(),
        ensures
            follows(old(self)@, grammar::procedure_activation(old(self)@), r, final(self)@),
        decreases old(self)@.tokens.len(), 5nat,
    {
        let token = self.consume_identifiers()?;
        self.find_symbol(&Symbol::new(token))?;
        self.procedure_activation_prime()
    }

    /// The arguments of a call between `(` and `)`, if `(` comes next.
    pub fn procedure_activation_prime(&mut self) -> (r: Result<(), SyntaxError>)
        requires
            old(self).wf(),
        ensures
            follows(old(self)@, grammar::procedure_activation_prime(old(self)@), r, final(self)@),
        decreases old(self)@.tokens.len(), 4nat,
    {
        let next = self.peek()?;
        if next.is_type_of(TokenType::Delimiter) && str_eq(next.get_lexeme(), "(") {
            self.consume(TokenType::Delimiter, "(")?;
            self.list_of_expressions()?;
            self.consume(TokenType::Delimiter, ")")?;
        }
        Ok(())
    }

    /// An expression and the expressions that follow it, each after a `,`.
    pub fn list_of_expressions(&mut self) -> (r: Result<(), SyntaxError>)
        requires
            old(self).wf(),
        ensures
            follows(old(self)@, grammar::list_of_expressions(old(self)@), r, final(self)@),
        decreases old(self)@.tokens.len(), 10nat,
    {
        self.expression()?;
        self.list_of_expressions_prime()
    }

    /// The further expressions of a list, as long as a `,` comes next.
    pub fn list_of_expressions_prime(&mut self) -> (r: Result<(), SyntaxError>)
        requires
            old(self).wf(),
        ensures
            follows(old(self)@, grammar::list_of_expressions_prime(old(self)@), r, final(self)@),
        decreases old(self)@.tokens.len(), 0nat,
    {
        let next = self.peek()?;
        if next.is_type_of(TokenType::Delimiter) && str_eq(next.get_lexeme(), ",") {
            self.consume(TokenType::Delimiter, ",")?;
            self.expression()?;
            self.list_of_expressions_prime()?;
        }
        Ok(())
    }

    /// A simple expression, compared with another or alone.
    pub fn expression(&mut self) -> (r: Result<(), SyntaxError>)
        requires
            old(self).wf(),
        ensures
            follows(old(self)@, grammar::expression(old(self)@), r, final(self)@),
        decreases old(self)@.tokens.len(), 9nat,
    {
        self.simple_expression()?;
        self.expression_prime()
    }

    /// A relational operator and its right operand, if such an operator comes
    /// next. The operands must be numbers; the result is `boolean`.
    pub fn expression_prime(&mut self) -> (r: Result<(), SyntaxError>)
        requires
            old(self).wf(),
        ensures
            follows(old(self)@, grammar::expression_prime(old(self)@), r, final(self)@),
        decreases old(self)@.tokens.len(), 1nat,
    {
        let next = self.peek()?;
        if next.is_type_of(TokenType::RelationalOperators) {
            self.relational_op()?;
            self.simple_expression()?;
            self.check_relational(next.get_line(), next.get_column())?;
        }
        Ok(())
    }

    /// Terms joined by additive operators, with a sign before the first or
    /// without.
    pub fn simple_expression(&mut self) -> (r: Result<(), SyntaxError>)
        requires
            old(self).wf(),
        ensures
            follows(old(self)@, grammar::simple_expression(old(self)@), r, final(self)@),
        decreases old(self)@.tokens.len(), 8nat,
    {
        let next = self.peek()?;
        if str_eq(next.get_lexeme(), "+") || str_eq(next.get_lexeme(), "-") {
            self.signal()?;
            self.term()?;
            self.simple_expression_prime()?;
        } else {
            self.term()?;
            self.simple_expression_prime()?;
        }
        Ok(())
    }

    /// An additive operator and its right operand, checked against the left
    /// one, and the operators that follow.
    pub fn simple_expression_prime(&mut self) -> (r: Result<(), SyntaxError>)
        requires
            old(self).wf(),
        ensures
            follows(old(self)@, grammar::simple_expression_prime(old(self)@), r, final(self)@),
        decreases old(self)@.tokens.len(), 2nat,
    {
        let next = self.peek()?;
        if next.is_type_of(TokenType::AdditiveOperators) {
            let operator = self.additive_op()?;
            self.term()?;
            if str_eq(operator.get_lexeme(), "or") {
                self.check_logic(next.get_line(), next.get_column())?;
            } else {
                self.check_arithmetics(next.get_line(), next.get_column())?;
            }
            self.simple_expression_prime()?;
        }
        Ok(())
    }

    /// One of the signs `+` and `-`.
    pub fn signal(&mut self) -> (r: Result<(), SyntaxError>)
        requires
            old(self).wf(),
        ensures
            follows(old(self)@, grammar::signal(old(self)@), r, final(self)@),
    {
        match self.pop() {
            None => {
                return Err(SyntaxError::UnexpectedEndOfFile);
            },
            Some(value) => {
                if !(str_eq(value.get_lexeme(), "+") || str_eq(value.get_lexeme(), "-")) {
                    return Err(
                        SyntaxError::UnexpectedToken { expected: Expectation::Sign, found: value },
                    );
                }
            },
        }
        Ok(())
    }

    /// Factors joined by multiplicative operators.
    pub fn term(&mut self) -> (r: Result<(), SyntaxError>)
        requires
            old(self).wf(),
        ensures
            follows(old(self)@, grammar::term(old(self)@), r, final(self)@),
        decreases old(self)@.tokens.len(), 7nat,
    {
        self.factor()?;
        self.term_prime()
    }

    /// A multiplicative operator and its right operand, and the operators that
    /// follow; the operator is checked after those to its right.
    pub fn term_prime(&mut self) -> (r: Result<(), SyntaxError>)
        requires
            old(self).wf(),
        ensures
            follows(old(self)@, grammar::term_prime(old(self)@), r, final(self)@),
        decreases old(self)@.tokens.len(), 3nat,
    {
        let next = self.peek()?;
        if next.is_type_of(TokenType::MultiplicativeOperators) {
            let operator = self.multiplicative_op()?;
            self.factor()?;
            self.term_prime()?;
            if str_eq(operator.get_lexeme(), "and") {
                self.check_logic(next.get_line(), next.get_column())?;
            } else {
                self.check_arithmetics(next.get_line(), next.get_column())?;
            }
        }
        Ok(())
    }

    /// One operand: an identifier, a call, a literal, an expression in
    /// parentheses or a negated factor; or nothing. It leaves its type on the
    /// type stack.
    pub fn factor(&mut self) -> (r: Result<(), SyntaxError>)
        requires
            old(self).wf(),
        ensures
            follows(old(self)@, grammar::factor(old(self)@), r, final(self)@),
        decreases old(self)@.tokens.len(), 6nat,
    {
        let next = self.peek()?;
        if next.is_type_of(TokenType::Identifier) {
            self.procedure_activation()?;
            let temp = self.find_symbol(&Symbol::new(next))?;
            let symbol_type = declared_type(&temp);
            self.push_type(symbol_type);
        } else if next.is_type_of(TokenType::Integer) {
            self.consume_by_type(TokenType::Integer)?;
            self.push_type(String::from_str(INTEGER));
        } else if next.is_type_of(TokenType::Real) {
            self.consume_by_type(TokenType::Real)?;
            self.push_type(String::from_str(REAL));
        } else if next.is_type_of(TokenType::Boolean) {
            self.consume_by_type(TokenType::Boolean)?;
            self.push_type(String::from_str(BOOLEAN));
        } else if str_eq(next.get_lexeme(), "(") {
            self.consume(TokenType::Delimiter, "(")?;
            self.expression()?;
            self.consume(TokenType::Delimiter, ")")?;
        } else if next.is_type_of(TokenType::Keyword) && str_eq(next.get_lexeme(), "not") {
            self.consume(TokenType::Keyword, "not")?;
            self.push_type(String::from_str(BOOLEAN));
            self.factor()?;
            self.check_logic(next.get_line(), next.get_column())?;
        }
        Ok(())
    }

    /// Consumes a relational operator.
    pub fn relational_op(&mut self) -> (r: Result<(), SyntaxError>)
        requires
            old(self).wf(),
        ensures
            final(self).wf(),
            agrees(
                match old(self)@.consume_by_type(TokenType::RelationalOperators) {
                    Ok((_, s)) => Ok(s),
                    Err(e) => Err(e),
                },
                r,
                final(self)@,
            ),
    {
        self.consume_by_type(TokenType::RelationalOperators)?;
        Ok(())
    }

    /// Consumes an additive operator and gives it back.
    pub fn additive_op(&mut self) -> (r: Result<Token, SyntaxError>)
        requires
            old(self).wf(),
        ensures
            final(self).wf(),
            crate::syntactic::agrees_on_token(
                old(self)@.consume_by_type(TokenType::AdditiveOperators),
                r,
                final(self)@,
            ),
    {
        self.consume_by_type(TokenType::AdditiveOperators)
    }

    /// Consumes a multiplicative operator and gives it back.
    pub fn multiplicative_op(&mut self) -> (r: Result<Token, SyntaxError>)
        requires
            old(self).wf(),
        ensures
            final(self).wf(),
            crate::syntactic::agrees_on_token(
                old(self)@.consume_by_type(TokenType::MultiplicativeOperators),
                r,
                final(self)@,
            ),
    {
        self.consume_by_type(TokenType::MultiplicativeOperators)
    }
}

/// Parses `tokens` as a whole program. A program that is accepted leaves the
/// symbol table empty.
pub fn parse(tokens: &Vec<Token>) -> (r: Result<bool, SyntaxError>)
    ensures
        match grammar::parse(token_views(tokens@)) {
            Ok(s) => r == Ok::<bool, SyntaxError>(true) && s.symbols.len() == 0,
            Err(e) => r is Err && r->Err_0@ == e,
        },
        r is Err ==> r->Err_0@ != SyntaxErrorView::Internal(Fault::InputGrew) && r->Err_0@
            != SyntaxErrorView::Internal(Fault::ScopeUnderflow),
{
    let mut parser = Parser::new(tokens);
    parser.init()
}

} // verus!
