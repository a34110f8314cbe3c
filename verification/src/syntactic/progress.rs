//! Productions only ever consume tokens, and scopes are strictly nested.
//!
//! Where one production follows another, the grammar lets the parse go on
//! only if the first has not left more tokens than it was given, and a scope
//! can be closed only if one is open. The lemmas below show, production by
//! production, that both always hold: no parse ever stops for want of
//! either. They show as well that a production leaves in the symbol table
//! what it found there, and adds to it nothing but declarations of the scope
//! in which it started: every scope that it opens it closes again.

use vstd::prelude::*;
use crate::common::symbol::SymbolView;
use crate::common::token::{TokenType, TokenView};
use crate::syntactic::error::{Fault, SyntaxErrorView};
use crate::syntactic::grammar::{
    additive_operation, arguments, command_dual_prime, command_prime, commands, compound_command,
    declaration_group, declare_next, else_part, expression, expression_prime, factor,
    list_of_commands, list_of_commands_prime, list_of_expressions, list_of_expressions_prime,
    list_of_identifiers, list_of_identifiers_prime, list_of_parameters, list_of_parameters_prime,
    list_of_vars_declaration, list_of_vars_declaration_prime, optional_commands,
    parameter_group, procedure_activation, procedure_activation_prime, program, programa,
    simple_expression, simple_expression_prime, subprogram_body, subprogram_declaration,
    subprograms_declaration, term, term_prime, types, vars_declaration,
};
use crate::syntactic::model::{Outcome, ParserView, BOOLEAN};
use crate::syntactic::scope::{
    close_scope, grown_from, lemma_collision_is_identifier, lemma_grown_by_declaration,
    lemma_grown_by_types, lemma_grown_scope_closes, lemma_grown_transitive,
    lemma_names_distinct_whatever_the_types, lemma_names_stay_distinct, names_distinct, untyped,
    with_types,
};

verus! {

/// `after` is an orderly outcome of a production that started in `before`:
/// if it is a state, it holds no more tokens than `before`, its symbol table
/// has grown from that of `before`, and the names of every scope are
/// distinct if they were so in `before`; if it is an error, it is neither
/// the one for tokens that came back nor the one for a scope that was not
/// there to be closed.
pub open spec fn orderly(before: ParserView, after: Outcome) -> bool {
    match after {
        Ok(s) => {
            &&& s.tokens.len() <= before.tokens.len()
            &&& grown_from(s.symbols, before.symbols)
            &&& names_distinct(before.symbols) ==> names_distinct(s.symbols)
        },
        Err(e) => e != SyntaxErrorView::Internal(Fault::InputGrew) && e
            != SyntaxErrorView::Internal(Fault::ScopeUnderflow),
    }
}

/// As `orderly`, and at least one token has been consumed.
pub open spec fn orderly_and_shorter(before: ParserView, after: Outcome) -> bool {
    orderly(before, after) && (after matches Ok(s) ==> s.tokens.len() < before.tokens.len())
}

/// Declaring an identifier opens and closes no scope.
pub proof fn lemma_add_symbol_is_orderly(s: ParserView, name: TokenView)
    ensures
        orderly(s, s.add_symbol(untyped(name))),
{
    lemma_grown_by_declaration(s.symbols, untyped(name));
    lemma_collision_is_identifier(s.symbols, untyped(name));
    if names_distinct(s.symbols) {
        lemma_names_stay_distinct(s.symbols, untyped(name));
    }
}

pub proof fn lemma_declare_next_is_orderly(s: ParserView)
    ensures
        orderly_and_shorter(s, declare_next(s)),
{
    if let Ok((name, s1)) = s.consume_identifiers() {
        lemma_add_symbol_is_orderly(s1.one_more_pending(), name);
    }
}

/// The heading of a program opens the global scope and declares the
/// program's name in it.
pub proof fn lemma_program_opens_a_scope(s: ParserView)
    ensures
        match program(s) {
            Ok(t) => {
                &&& t.tokens.len() <= s.tokens.len()
                &&& grown_from(t.symbols, s.symbols.push(SymbolView::EOS))
                &&& names_distinct(s.symbols) ==> names_distinct(t.symbols)
            },
            Err(e) => e != SyntaxErrorView::Internal(Fault::InputGrew) && e
                != SyntaxErrorView::Internal(Fault::ScopeUnderflow),
        },
{
    if let Ok(s1) = s.expect(TokenType::Keyword, "program"@) {
        if names_distinct(s.symbols) {
            lemma_names_stay_distinct(s.symbols, SymbolView::EOS);
        }
        if let Ok((name, s2)) = s1.open_scope().consume_identifiers() {
            lemma_add_symbol_is_orderly(s2.named(name.lexeme), name);
        }
    }
}

pub proof fn lemma_list_of_identifiers_prime_is_orderly(s: ParserView)
    ensures
        orderly(s, list_of_identifiers_prime(s)),
    decreases s.tokens.len(),
{
    if s.peek() is Ok && s.peek()->Ok_0.lexeme == ","@ {
        lemma_declare_next_is_orderly(s.advance());
        if let Ok(s1) = declare_next(s.advance()) {
            lemma_list_of_identifiers_prime_is_orderly(s1);
        }
    }
}

pub proof fn lemma_list_of_identifiers_is_orderly(s: ParserView)
    ensures
        orderly_and_shorter(s, list_of_identifiers(s)),
{
    lemma_declare_next_is_orderly(s);
    if let Ok(s1) = declare_next(s) {
        lemma_list_of_identifiers_prime_is_orderly(s1);
    }
}

pub proof fn lemma_declaration_group_is_orderly(s: ParserView)
    ensures
        orderly_and_shorter(s, declaration_group(s)),
{
    lemma_list_of_identifiers_is_orderly(s);
    if let Ok(s1) = list_of_identifiers(s) {
        if let Ok(s2) = s1.expect(TokenType::Delimiter, ":"@) {
            if let Ok((type_text, s3)) = types(s2) {
                if s3.pending < s3.symbols.len() {
                    lemma_grown_by_types(s3.symbols, type_text, s3.pending);
                    if names_distinct(s3.symbols) {
                        lemma_names_distinct_whatever_the_types(
                            with_types(s3.symbols, type_text, s3.pending),
                            s3.symbols,
                        );
                    }
                }
            }
        }
    }
}

pub proof fn lemma_list_of_vars_declaration_prime_is_orderly(s: ParserView)
    ensures
        orderly(s, list_of_vars_declaration_prime(s)),
    decreases s.tokens.len(),
{
    if s.peek() is Ok && s.peek()->Ok_0.category == TokenType::Identifier {
        lemma_declaration_group_is_orderly(s);
        if let Ok(s1) = declaration_group(s) {
            lemma_list_of_vars_declaration_prime_is_orderly(s1);
        }
    }
}

pub proof fn lemma_list_of_vars_declaration_is_orderly(s: ParserView)
    ensures
        orderly(s, list_of_vars_declaration(s)),
{
    lemma_declaration_group_is_orderly(s);
    if let Ok(s1) = declaration_group(s) {
        lemma_list_of_vars_declaration_prime_is_orderly(s1);
    }
}

pub proof fn lemma_vars_declaration_is_orderly(s: ParserView)
    ensures
        orderly(s, vars_declaration(s)),
{
    if s.peek() is Ok && s.peek()->Ok_0.lexeme == "var"@ {
        lemma_list_of_vars_declaration_is_orderly(s.advance());
    }
}

pub proof fn lemma_parameter_group_is_orderly(s: ParserView)
    ensures
        orderly_and_shorter(s, parameter_group(s)),
{
    lemma_list_of_identifiers_is_orderly(s);
}

pub proof fn lemma_list_of_parameters_prime_is_orderly(s: ParserView)
    ensures
        orderly(s, list_of_parameters_prime(s)),
    decreases s.tokens.len(),
{
    if s.peek() is Ok {
        let next = s.peek()->Ok_0;
        if next.category == TokenType::Delimiter && next.lexeme == ";"@ {
            lemma_parameter_group_is_orderly(s.advance());
            if let Ok(s1) = parameter_group(s.advance()) {
                lemma_list_of_parameters_prime_is_orderly(s1);
            }
        }
    }
}

pub proof fn lemma_list_of_parameters_is_orderly(s: ParserView)
    ensures
        orderly(s, list_of_parameters(s)),
{
    lemma_parameter_group_is_orderly(s);
    if let Ok(s1) = parameter_group(s) {
        lemma_list_of_parameters_prime_is_orderly(s1);
    }
}

pub proof fn lemma_arguments_is_orderly(s: ParserView)
    ensures
        orderly(s, arguments(s)),
{
    if s.peek() is Ok {
        let next = s.peek()->Ok_0;
        if next.category == TokenType::Delimiter && next.lexeme == "("@ {
            lemma_list_of_parameters_is_orderly(s.advance());
        }
    }
}

pub proof fn lemma_list_of_expressions_is_orderly(s: ParserView)
    ensures
        orderly(s, list_of_expressions(s)),
    decreases s.tokens.len(), 10nat,
{
    lemma_expression_is_orderly(s);
    if let Ok(s1) = expression(s) {
        lemma_list_of_expressions_prime_is_orderly(s1);
    }
}

pub proof fn lemma_list_of_expressions_prime_is_orderly(s: ParserView)
    ensures
        orderly(s, list_of_expressions_prime(s)),
    decreases s.tokens.len(), 0nat,
{
    if s.peek() is Ok {
        let next = s.peek()->Ok_0;
        if next.category == TokenType::Delimiter && next.lexeme == ","@ {
            let s1 = s.advance();
            lemma_expression_is_orderly(s1);
            if let Ok(s2) = expression(s1) {
                lemma_list_of_expressions_prime_is_orderly(s2);
            }
        }
    }
}

pub proof fn lemma_expression_is_orderly(s: ParserView)
    ensures
        orderly(s, expression(s)),
    decreases s.tokens.len(), 9nat,
{
    lemma_simple_expression_is_orderly(s);
    if let Ok(s1) = simple_expression(s) {
        lemma_expression_prime_is_orderly(s1);
    }
}

pub proof fn lemma_expression_prime_is_orderly(s: ParserView)
    ensures
        orderly(s, expression_prime(s)),
    decreases s.tokens.len(), 1nat,
{
    if s.peek() is Ok && s.peek()->Ok_0.category == TokenType::RelationalOperators {
        lemma_simple_expression_is_orderly(s.advance());
    }
}

pub proof fn lemma_simple_expression_is_orderly(s: ParserView)
    ensures
        orderly(s, simple_expression(s)),
    decreases s.tokens.len(), 8nat,
{
    if s.peek() is Ok {
        let next = s.peek()->Ok_0;
        let s0 = if next.lexeme == "+"@ || next.lexeme == "-"@ {
            s.advance()
        } else {
            s
        };
        lemma_term_is_orderly(s0);
        if let Ok(s1) = term(s0) {
            lemma_simple_expression_prime_is_orderly(s1);
        }
    }
}

pub proof fn lemma_simple_expression_prime_is_orderly(s: ParserView)
    ensures
        orderly(s, simple_expression_prime(s)),
    decreases s.tokens.len(), 2nat,
{
    if s.peek() is Ok {
        let next = s.peek()->Ok_0;
        if next.category == TokenType::AdditiveOperators {
            lemma_term_is_orderly(s.advance());
            if let Ok(s1) = term(s.advance()) {
                if let Ok(s2) = s1.check(additive_operation(next.lexeme), next.line, next.column) {
                    lemma_simple_expression_prime_is_orderly(s2);
                }
            }
        }
    }
}

pub proof fn lemma_term_is_orderly(s: ParserView)
    ensures
        orderly(s, term(s)),
    decreases s.tokens.len(), 7nat,
{
    lemma_factor_is_orderly(s);
    if let Ok(s1) = factor(s) {
        lemma_term_prime_is_orderly(s1);
    }
}

pub proof fn lemma_term_prime_is_orderly(s: ParserView)
    ensures
        orderly(s, term_prime(s)),
    decreases s.tokens.len(), 3nat,
{
    if s.peek() is Ok && s.peek()->Ok_0.category == TokenType::MultiplicativeOperators {
        lemma_factor_is_orderly(s.advance());
        if let Ok(s1) = factor(s.advance()) {
            lemma_term_prime_is_orderly(s1);
        }
    }
}

pub proof fn lemma_factor_is_orderly(s: ParserView)
    ensures
        orderly(s, factor(s)),
    decreases s.tokens.len(), 6nat,
{
    if s.peek() is Ok {
        let next = s.peek()->Ok_0;
        if next.category == TokenType::Identifier {
            lemma_procedure_activation_is_orderly(s);
        } else if next.category == TokenType::Integer {
        } else if next.category == TokenType::Real {
        } else if next.category == TokenType::Boolean {
        } else if next.lexeme == "("@ {
            if let Ok(s1) = s.expect(TokenType::Delimiter, "("@) {
                lemma_expression_is_orderly(s1);
            }
        } else if next.category == TokenType::Keyword && next.lexeme == "not"@ {
            lemma_factor_is_orderly(s.advance().push_type(BOOLEAN@));
        }
    }
}

pub proof fn lemma_procedure_activation_is_orderly(s: ParserView)
    ensures
        orderly(s, procedure_activation(s)),
    decreases s.tokens.len(), 5nat,
{
    if let Ok((_, s1)) = s.consume_identifiers() {
        lemma_procedure_activation_prime_is_orderly(s1);
    }
}

pub proof fn lemma_procedure_activation_prime_is_orderly(s: ParserView)
    ensures
        orderly(s, procedure_activation_prime(s)),
    decreases s.tokens.len(), 4nat,
{
    if let Ok(s1) = s.expect(TokenType::Delimiter, "("@) {
        lemma_list_of_expressions_is_orderly(s1);
    }
}

pub proof fn lemma_command_dual_prime_is_orderly(s: ParserView)
    ensures
        orderly(s, command_dual_prime(s)),
{
    if let Ok(s1) = s.expect(TokenType::Assignment, ":="@) {
        lemma_expression_is_orderly(s1);
    }
    if let Ok(s1) = s.pop_type().expect(TokenType::Delimiter, "("@) {
        lemma_list_of_expressions_is_orderly(s1);
    }
}

pub proof fn lemma_command_prime_is_orderly(s: ParserView)
    ensures
        orderly(s, command_prime(s)),
{
    if let Ok((name, s1)) = s.consume_identifiers() {
        if let Ok(found) = s1.find_symbol(untyped(name)) {
            lemma_command_dual_prime_is_orderly(s1.push_type(found->identifier_type));
        }
    }
}

pub proof fn lemma_compound_command_is_orderly(s: ParserView)
    ensures
        orderly(s, compound_command(s)),
    decreases s.tokens.len(), 0nat,
{
    if let Ok(s1) = s.expect(TokenType::Keyword, "begin"@) {
        lemma_optional_commands_is_orderly(s1);
    }
}

pub proof fn lemma_optional_commands_is_orderly(s: ParserView)
    ensures
        orderly(s, optional_commands(s)),
    decreases s.tokens.len(), 3nat,
{
    lemma_list_of_commands_is_orderly(s);
}

pub proof fn lemma_list_of_commands_is_orderly(s: ParserView)
    ensures
        orderly(s, list_of_commands(s)),
    decreases s.tokens.len(), 2nat,
{
    lemma_commands_is_orderly(s);
    if let Ok(s1) = commands(s) {
        lemma_list_of_commands_prime_is_orderly(s1);
    }
}

pub proof fn lemma_list_of_commands_prime_is_orderly(s: ParserView)
    ensures
        orderly(s, list_of_commands_prime(s)),
    decreases s.tokens.len(), 0nat,
{
    if s.peek() is Ok && s.peek()->Ok_0.lexeme == ";"@ {
        if let Ok(s1) = s.expect(TokenType::Delimiter, ";"@) {
            lemma_commands_is_orderly(s1);
            if let Ok(s2) = commands(s1) {
                lemma_list_of_commands_prime_is_orderly(s2);
            }
        }
    }
}

pub proof fn lemma_commands_is_orderly(s: ParserView)
    ensures
        orderly(s, commands(s)),
    decreases s.tokens.len(), 1nat,
{
    if s.peek() is Ok {
        let next = s.peek()->Ok_0;
        if next.category == TokenType::Identifier {
            lemma_command_prime_is_orderly(s);
        } else if next.lexeme == "begin"@ {
            lemma_compound_command_is_orderly(s);
        } else if next.lexeme == "if"@ {
            if let Ok(s1) = s.expect(TokenType::Keyword, "if"@) {
                lemma_expression_is_orderly(s1);
                if let Ok(s2) = expression(s1) {
                    if let Ok(s3) = s2.expect(TokenType::Keyword, "then"@) {
                        lemma_commands_is_orderly(s3);
                        if let Ok(s4) = commands(s3) {
                            lemma_else_part_is_orderly(s4);
                        }
                    }
                }
            }
        } else if next.lexeme == "while"@ {
            if let Ok(s1) = s.expect(TokenType::Keyword, "while"@) {
                lemma_expression_is_orderly(s1);
                if let Ok(s2) = expression(s1) {
                    if let Ok(s3) = s2.expect(TokenType::Keyword, "do"@) {
                        lemma_commands_is_orderly(s3);
                    }
                }
            }
        }
    }
}

pub proof fn lemma_else_part_is_orderly(s: ParserView)
    ensures
        orderly(s, else_part(s)),
    decreases s.tokens.len(), 0nat,
{
    if s.peek() is Ok && s.peek()->Ok_0.lexeme == "else"@ {
        if let Ok(s1) = s.expect(TokenType::Keyword, "else"@) {
            lemma_commands_is_orderly(s1);
        }
    }
}

pub proof fn lemma_subprograms_declaration_is_orderly(s: ParserView)
    ensures
        orderly(s, subprograms_declaration(s)),
    decreases s.tokens.len(), 1nat,
{
    if s.peek() is Ok {
        let next = s.peek()->Ok_0;
        if next.category == TokenType::Keyword && next.lexeme == "procedure"@ {
            lemma_subprogram_declaration_is_orderly(s);
            if let Ok(s1) = subprogram_declaration(s) {
                if let Ok(s2) = s1.expect(TokenType::Delimiter, ";"@) {
                    lemma_subprograms_declaration_is_orderly(s2);
                }
            }
        }
    }
}

/// The body of a procedure, from its parameters to the end of its compound
/// command, leaves the scopes as it found them.
pub proof fn lemma_subprogram_body_is_orderly(s: ParserView)
    ensures
        orderly(s, subprogram_body(s)),
    decreases s.tokens.len(), 0nat,
{
    lemma_arguments_is_orderly(s);
    if let Ok(s4) = arguments(s) {
        if let Ok(s5) = s4.expect(TokenType::Delimiter, ";"@) {
            lemma_vars_declaration_is_orderly(s5);
            if let Ok(s6) = vars_declaration(s5) {
                lemma_subprograms_declaration_is_orderly(s6);
                if let Ok(s7) = subprograms_declaration(s6) {
                    lemma_compound_command_is_orderly(s7);
                }
            }
        }
    }
}

pub proof fn lemma_subprogram_declaration_is_orderly(s: ParserView)
    ensures
        orderly(s, subprogram_declaration(s)),
    decreases s.tokens.len(), 0nat,
{
    if let Ok(s1) = s.expect(TokenType::Keyword, "procedure"@) {
        if let Ok((name, s2)) = s1.consume_identifiers() {
            lemma_add_symbol_is_orderly(s2, name);
            if let Ok(s3) = s2.add_symbol(untyped(name)) {
                if names_distinct(s3.symbols) {
                    lemma_names_stay_distinct(s3.symbols, SymbolView::EOS);
                }
                lemma_subprogram_body_is_orderly(s3.open_scope());
                if let Ok(s8) = subprogram_body(s3.open_scope()) {
                    if names_distinct(s8.symbols) {
                        lemma_names_stay_distinct(s8.symbols, SymbolView::EOS);
                    }
                    lemma_grown_scope_closes(s8.symbols, s3.symbols);
                    lemma_grown_transitive(close_scope(s8.symbols), s3.symbols, s.symbols);
                }
            }
        }
    }
}

/// A whole program is read without a token ever coming back, and the scope
/// that its final `.` closes is always there: it is the global scope, and
/// with it everything leaves the symbol table that the program has declared.
pub proof fn lemma_programa_is_orderly(s: ParserView)
    ensures
        orderly(s, programa(s)),
        programa(s) matches Ok(t) ==> t.symbols.len() == s.symbols.len(),
{
    lemma_program_opens_a_scope(s);
    if let Ok(s1) = program(s) {
        lemma_vars_declaration_is_orderly(s1);
        if let Ok(s2) = vars_declaration(s1) {
            lemma_subprograms_declaration_is_orderly(s2);
            if let Ok(s3) = subprograms_declaration(s2) {
                lemma_compound_command_is_orderly(s3);
                if let Ok(s4) = compound_command(s3) {
                    lemma_grown_transitive(s2.symbols, s1.symbols, s.symbols.push(SymbolView::EOS));
                    lemma_grown_transitive(s3.symbols, s2.symbols, s.symbols.push(SymbolView::EOS));
                    lemma_grown_transitive(s4.symbols, s3.symbols, s.symbols.push(SymbolView::EOS));
                    lemma_grown_scope_closes(s4.symbols, s.symbols);
                    if names_distinct(s4.symbols) {
                        lemma_names_stay_distinct(s4.symbols, SymbolView::EOS);
                    }
                }
            }
        }
    }
}

} // verus!
