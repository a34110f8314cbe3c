use pascal_frontend::common::symbol::Symbol;
use pascal_frontend::common::token::{Token, TokenType};
use pascal_frontend::lexical::error::LexicalError;
use pascal_frontend::lexical::Scanner;
use pascal_frontend::syntactic::error::{Expectation, Fault, Operation, SyntaxError};
use pascal_frontend::syntactic::productions::parse as parse_tokens;
use pascal_frontend::syntactic::Parser;

fn parse(source: &str) -> Result<bool, SyntaxError> {
    let tokens = Scanner::new(source).init().unwrap();
    Parser::new(&tokens).init()
}

fn identifier(lexeme: &str, line: usize, column: usize) -> Symbol {
    Symbol::new(Token::new(lexeme, TokenType::Identifier, line, column))
}

#[test]
fn accepts_a_minimal_program() {
    assert_eq!(parse("program P; var x : integer; begin x := 1 end.").unwrap(), true);
}

#[test]
fn symbol_table_is_empty_after_a_successful_parse() {
    let tokens = Scanner::new("program P; var x : integer; begin x := 1 end.")
        .init()
        .unwrap();
    let mut parser = Parser::new(&tokens);
    assert!(parser.init().is_ok());
    assert!(parser.symbol_table().is_empty());
}

#[test]
fn rejects_real_assigned_to_integer() {
    match parse("program P; var x : integer; begin x := 1.5 end.") {
        Err(SyntaxError::OperandMismatch { operation, left, right, line, column }) => {
            assert_eq!(operation, Operation::Assignment);
            assert_eq!(left, "integer");
            assert_eq!(right, "real");
            assert_eq!(line, 1);
            assert_eq!(column, 37);
        }
        other => panic!("unexpected result: {:?}", other),
    }
}

#[test]
fn rejects_integer_assigned_to_real() {
    let source = "program P; var x : real; y : integer; begin x := y end.";
    match parse(source) {
        Err(SyntaxError::OperandMismatch { operation, left, right, .. }) => {
            assert_eq!(operation, Operation::Assignment);
            assert_eq!(left, "real");
            assert_eq!(right, "integer");
        }
        other => panic!("unexpected result: {:?}", other),
    }
}

#[test]
fn accepts_real_assigned_to_real() {
    assert!(parse("program P; var x, y : real; begin x := y + 1.5 end.").is_ok());
}

#[test]
fn rejects_an_undeclared_identifier() {
    match parse("program P; begin y := 1 end.") {
        Err(SyntaxError::UndeclaredIdentifier { reference }) => {
            assert_eq!(reference.get_lexeme(), "y");
            assert_eq!(reference.get_line(), 1);
            assert_eq!(reference.get_column(), 18);
        }
        other => panic!("unexpected result: {:?}", other),
    }
}

#[test]
fn rejects_a_duplicate_declaration() {
    match parse("program P; var x, x : integer; begin end.") {
        Err(SyntaxError::AlreadyDeclared { declaration }) => {
            assert_eq!(declaration.get_lexeme(), "x");
            assert_eq!(declaration.get_line(), 1);
            assert_eq!(declaration.get_column(), 16);
        }
        other => panic!("unexpected result: {:?}", other),
    }
}

#[test]
fn rejects_an_invalid_character_at_its_place() {
    let mut scanner = Scanner::new("program P;\nbegin\n  x := @ end.");
    match scanner.init() {
        Err(LexicalError::InvalidChar(e)) => {
            assert_eq!(e.character, '@');
            assert_eq!(e.line, 3);
            assert_eq!(e.column, 8);
        }
        other => panic!("unexpected result: {:?}", other),
    }
}

#[test]
fn inner_declaration_shadows_outer_one() {
    let source = "program P; var x : integer; \
                  procedure q; var x : real; begin x := 1.5 end; \
                  begin x := 1 end.";
    assert!(parse(source).is_ok());
}

#[test]
fn inner_scope_sees_outer_declarations() {
    let source = "program P; var x : integer; \
                  procedure q; begin x := 1 end; \
                  begin x := 2 end.";
    assert!(parse(source).is_ok());
}

#[test]
fn inner_declaration_is_gone_after_its_scope() {
    let source = "program P; \
                  procedure q; var x : real; begin x := 1.5 end; \
                  begin x := 1 end.";
    match parse(source) {
        Err(SyntaxError::UndeclaredIdentifier { reference }) => {
            assert_eq!(reference.get_lexeme(), "x");
        }
        other => panic!("unexpected result: {:?}", other),
    }
}

#[test]
fn program_name_cannot_be_used_as_a_value() {
    match parse("program P; var x : integer; begin x := P end.") {
        Err(SyntaxError::ProgramNameUsed { line, column }) => {
            assert_eq!(line, 1);
            assert_eq!(column, 40);
        }
        other => panic!("unexpected result: {:?}", other),
    }
}

#[test]
fn equals_in_place_of_assignment_has_its_own_error() {
    match parse("program P; var x : integer; begin x = 1 end.") {
        Err(SyntaxError::EqualsInsteadOfAssignment { line, column }) => {
            assert_eq!(line, 1);
            assert_eq!(column, 37);
        }
        other => panic!("unexpected result: {:?}", other),
    }
}

#[test]
fn end_of_input_is_reported() {
    assert!(matches!(
        parse("program P; begin"),
        Err(SyntaxError::UnexpectedEndOfFile)
    ));
}

#[test]
fn unexpected_token_names_what_was_expected() {
    match parse("program ; begin end.") {
        Err(SyntaxError::UnexpectedToken { expected, found }) => {
            assert!(matches!(expected, Expectation::Identifier));
            assert_eq!(found.get_lexeme(), ";");
            assert_eq!(found.get_type(), TokenType::Delimiter);
        }
        other => panic!("unexpected result: {:?}", other),
    }
    match parse("program P begin end.") {
        Err(SyntaxError::UnexpectedToken { expected, found }) => {
            match expected {
                Expectation::Exactly { category, lexeme } => {
                    assert_eq!(category, TokenType::Delimiter);
                    assert_eq!(lexeme, ";");
                }
                other => panic!("unexpected expectation: {:?}", other),
            }
            assert_eq!(found.get_lexeme(), "begin");
        }
        other => panic!("unexpected result: {:?}", other),
    }
}

#[test]
fn type_of_a_declaration_must_be_a_type_name() {
    match parse("program P; var x : y; begin end.") {
        Err(SyntaxError::UnexpectedToken { expected, .. }) => {
            assert!(matches!(expected, Expectation::TypeKeyword));
        }
        other => panic!("unexpected result: {:?}", other),
    }
    match parse("program P; var x : begin; begin end.") {
        Err(SyntaxError::UnexpectedToken { expected, .. }) => {
            assert!(matches!(expected, Expectation::TypeName));
        }
        other => panic!("unexpected result: {:?}", other),
    }
}

#[test]
fn parameters_are_separated_by_semicolons() {
    match parse("program P; procedure q(a : integer, b : real); begin end; begin end.") {
        Err(SyntaxError::UnexpectedToken { expected, found }) => {
            assert!(matches!(expected, Expectation::ParameterSeparator));
            assert_eq!(found.get_lexeme(), ",");
        }
        other => panic!("unexpected result: {:?}", other),
    }
    assert!(
        parse("program P; procedure q(a : integer; b : real); begin end; begin end.").is_ok()
    );
}

#[test]
fn arithmetic_on_mixed_numbers_is_real() {
    assert!(parse("program P; var x : real; begin x := 1 + 2.5 end.").is_ok());
    assert!(parse("program P; var x : integer; begin x := 1 + 2 end.").is_ok());
    assert!(parse("program P; var x : integer; begin x := 1 + 2.5 end.").is_err());
}

#[test]
fn arithmetic_on_a_boolean_fails() {
    match parse("program P; var x : integer; begin x := true + 1 end.") {
        Err(SyntaxError::OperandMismatch { operation, left, right, line, column }) => {
            assert_eq!(operation, Operation::Arithmetic);
            assert_eq!(left, "boolean");
            assert_eq!(right, "integer");
            assert_eq!(line, 1);
            assert_eq!(column, 45);
        }
        other => panic!("unexpected result: {:?}", other),
    }
}

#[test]
fn comparison_of_numbers_is_boolean() {
    assert!(parse("program P; var b : boolean; begin b := 1 < 2.5 end.").is_ok());
    match parse("program P; var b : boolean; begin b := true < 2 end.") {
        Err(SyntaxError::OperandMismatch { operation, .. }) => {
            assert_eq!(operation, Operation::Relational);
        }
        other => panic!("unexpected result: {:?}", other),
    }
}

#[test]
fn logical_operators_take_booleans() {
    assert!(parse("program P; var b : boolean; begin b := true and false end.").is_ok());
    assert!(parse("program P; var b : boolean; begin b := true or false end.").is_ok());
    assert!(parse("program P; var b : boolean; begin b := not true end.").is_ok());
    match parse("program P; var b : boolean; begin b := 1 and true end.") {
        Err(SyntaxError::OperandMismatch { operation, left, right, .. }) => {
            assert_eq!(operation, Operation::Logic);
            assert_eq!(left, "integer");
            assert_eq!(right, "boolean");
        }
        other => panic!("unexpected result: {:?}", other),
    }
    match parse("program P; var b : boolean; begin b := 1 or 2 end.") {
        Err(SyntaxError::OperandMismatch { operation, .. }) => {
            assert_eq!(operation, Operation::Logic);
        }
        other => panic!("unexpected result: {:?}", other),
    }
}

#[test]
fn missing_operand_is_reported() {
    match parse("program P; var x : integer; begin x := end.") {
        Err(SyntaxError::MissingOperand { operation, line, column }) => {
            assert_eq!(operation, Operation::Assignment);
            assert_eq!(line, 1);
            assert_eq!(column, 37);
        }
        other => panic!("unexpected result: {:?}", other),
    }
}

#[test]
fn control_flow_statements_parse() {
    let source = "program P; var x : integer; b : boolean; \
                  begin \
                    if x < 1 then x := 1 else x := 2; \
                    while b do begin x := x * 2; b := x > 100 end \
                  end.";
    assert!(parse(source).is_ok());
}

#[test]
fn procedure_call_arguments_are_not_matched_against_parameters() {
    let source = "program P; var x : integer; \
                  procedure q(a : integer); begin end; \
                  begin q(1, 2.5, true); x := 1 end.";
    assert!(parse(source).is_ok());
}

#[test]
fn add_symbol_rejects_a_name_twice_in_one_scope() {
    let mut parser = Parser::new(&Vec::new());
    parser.open_scope();
    assert!(parser.add_symbol(identifier("x", 1, 1)).is_ok());
    match parser.add_symbol(identifier("x", 2, 5)) {
        Err(SyntaxError::AlreadyDeclared { declaration }) => {
            assert_eq!(declaration.get_line(), 1);
            assert_eq!(declaration.get_column(), 1);
        }
        other => panic!("unexpected result: {:?}", other),
    }
}

#[test]
fn add_symbol_accepts_a_name_again_in_an_inner_scope() {
    let mut parser = Parser::new(&Vec::new());
    parser.open_scope();
    assert!(parser.add_symbol(identifier("x", 1, 1)).is_ok());
    parser.open_scope();
    assert!(parser.add_symbol(identifier("x", 2, 1)).is_ok());
    let found = parser.find_symbol(&identifier("x", 9, 9)).unwrap();
    assert_eq!(found.as_token().unwrap().get_line(), 2);
    assert!(parser.remove_scope().is_ok());
    let found = parser.find_symbol(&identifier("x", 9, 9)).unwrap();
    assert_eq!(found.as_token().unwrap().get_line(), 1);
}

#[test]
fn remove_scope_without_a_scope_is_an_internal_fault() {
    let mut parser = Parser::new(&Vec::new());
    assert!(matches!(
        parser.remove_scope(),
        Err(SyntaxError::Internal(Fault::ScopeUnderflow))
    ));
}

#[test]
fn update_symbols_type_fills_the_pending_identifiers() {
    let mut parser = Parser::new(&Vec::new());
    parser.open_scope();
    assert!(parser.add_symbol(identifier("a", 1, 1)).is_ok());
    parser.one_more_pending();
    assert!(parser.add_symbol(identifier("b", 1, 4)).is_ok());
    parser.one_more_pending();
    assert!(parser.add_symbol(identifier("c", 1, 7)).is_ok());
    assert!(parser.update_symbols_type("real").is_ok());
    let table = parser.symbol_table();
    assert_eq!(table.len(), 4);
    assert!(table[0].is_eos());
    assert_eq!(table[1].get_type().unwrap(), "");
    assert_eq!(table[2].get_type().unwrap(), "real");
    assert_eq!(table[3].get_type().unwrap(), "real");
}

#[test]
fn update_symbols_type_fails_beyond_the_table() {
    let mut parser = Parser::new(&Vec::new());
    parser.one_more_pending();
    assert!(matches!(
        parser.update_symbols_type("real"),
        Err(SyntaxError::Internal(Fault::PendingBeyondTable))
    ));
}

#[test]
fn tokens_after_the_final_point_are_not_read() {
    assert!(parse("program P; begin end. and more").is_ok());
}

#[test]
fn parameters_get_no_type_from_their_own_group() {
    let source = "program P; procedure q(a : integer); begin a := 1 end; begin end.";
    match parse(source) {
        Err(SyntaxError::OperandMismatch { operation, left, right, .. }) => {
            assert_eq!(operation, Operation::Assignment);
            assert_eq!(left, "");
            assert_eq!(right, "integer");
        }
        other => panic!("unexpected result: {:?}", other),
    }
}

#[test]
fn parameters_get_the_type_of_the_next_declaration_group() {
    let source = "program P; procedure q(a : integer); var b : real; \
                  begin a := 1.5; b := a end; begin end.";
    assert!(parse(source).is_ok());
}

#[test]
fn pending_identifiers_beyond_the_table_are_an_internal_fault() {
    let source = "program P; \
                  procedure q(a, b, c, d, e, f : integer); begin end; \
                  procedure r; var x : integer; begin end; \
                  begin end.";
    assert!(matches!(
        parse(source),
        Err(SyntaxError::Internal(Fault::PendingBeyondTable))
    ));
}

#[test]
fn procedure_name_is_declared_in_the_enclosing_scope() {
    let source = "program P; procedure q; begin end; begin q end.";
    assert!(parse(source).is_ok());
    let source = "program P; var q : integer; procedure q; begin end; begin end.";
    assert!(matches!(
        parse(source),
        Err(SyntaxError::AlreadyDeclared { .. })
    ));
}

#[test]
fn program_name_is_declared_in_the_global_scope() {
    match parse("program P; var P : integer; begin end.") {
        Err(SyntaxError::AlreadyDeclared { declaration }) => {
            assert_eq!(declaration.get_lexeme(), "P");
            assert_eq!(declaration.get_column(), 9);
        }
        other => panic!("unexpected result: {:?}", other),
    }
}

#[test]
fn signed_and_parenthesized_expressions() {
    assert!(parse("program P; var x : integer; begin x := -(1 + 2) * 3 end.").is_ok());
    assert!(parse("program P; var x : real; begin x := +1.5 / 2 end.").is_ok());
    match parse("program P; var x : integer; begin x := (1 + 2 end.") {
        Err(SyntaxError::UnexpectedToken { expected, found }) => {
            match expected {
                Expectation::Exactly { category, lexeme } => {
                    assert_eq!(category, TokenType::Delimiter);
                    assert_eq!(lexeme, ")");
                }
                other => panic!("unexpected expectation: {:?}", other),
            }
            assert_eq!(found.get_lexeme(), "end");
        }
        other => panic!("unexpected result: {:?}", other),
    }
}

#[test]
fn check_functions_apply_the_type_rules() {
    let mut parser = Parser::new(&Vec::new());
    parser.push_type("integer".to_string());
    parser.push_type("real".to_string());
    assert!(parser.check_arithmetics(1, 1).is_ok());
    assert_eq!(parser.pop_type().unwrap(), "real");
    assert!(parser.pop_type().is_none());

    parser.push_type("integer".to_string());
    parser.push_type("integer".to_string());
    assert!(parser.check_arithmetics(1, 1).is_ok());
    assert_eq!(parser.pop_type().unwrap(), "integer");

    parser.push_type("real".to_string());
    parser.push_type("integer".to_string());
    assert!(parser.check_relational(1, 1).is_ok());
    assert_eq!(parser.pop_type().unwrap(), "boolean");

    parser.push_type("boolean".to_string());
    parser.push_type("boolean".to_string());
    assert!(parser.check_logic(1, 1).is_ok());
    assert_eq!(parser.pop_type().unwrap(), "boolean");

    parser.push_type("real".to_string());
    parser.push_type("real".to_string());
    assert!(parser.check_atribuation(1, 1).is_ok());
    assert!(parser.pop_type().is_none());

    parser.push_type("real".to_string());
    parser.push_type("integer".to_string());
    assert!(matches!(
        parser.check_atribuation(2, 3),
        Err(SyntaxError::OperandMismatch { operation: Operation::Assignment, line: 2, column: 3, .. })
    ));

    parser.push_type("boolean".to_string());
    assert!(matches!(
        parser.check_logic(4, 5),
        Err(SyntaxError::MissingOperand { operation: Operation::Logic, line: 4, column: 5 })
    ));
}

#[test]
fn consume_checks_category_and_lexeme() {
    let tokens = vec![
        Token::new("begin", TokenType::Keyword, 1, 1),
        Token::new("x", TokenType::Identifier, 1, 7),
        Token::new("1", TokenType::Integer, 1, 9),
    ];
    let mut parser = Parser::new(&tokens);
    assert_eq!(parser.peek().unwrap().get_lexeme(), "begin");
    assert_eq!(parser.consume(TokenType::Keyword, "begin").unwrap().get_column(), 1);
    assert_eq!(parser.consume_identifiers().unwrap().get_lexeme(), "x");
    assert_eq!(parser.consume_by_type(TokenType::Integer).unwrap().get_lexeme(), "1");
    assert!(matches!(parser.peek(), Err(SyntaxError::UnexpectedEndOfFile)));
    assert!(matches!(
        parser.consume(TokenType::Keyword, "end"),
        Err(SyntaxError::UnexpectedEndOfFile)
    ));
    let mut parser = Parser::new(&tokens);
    assert!(matches!(
        parser.consume(TokenType::Keyword, "end"),
        Err(SyntaxError::UnexpectedToken { .. })
    ));
    let mut parser = Parser::new(&tokens);
    assert!(matches!(
        parser.consume_by_type(TokenType::Real),
        Err(SyntaxError::UnexpectedToken { expected: Expectation::Category(TokenType::Real), .. })
    ));
}

#[test]
fn signal_takes_a_sign_only() {
    let tokens = vec![
        Token::new("-", TokenType::AdditiveOperators, 1, 1),
        Token::new("or", TokenType::AdditiveOperators, 1, 3),
    ];
    let mut parser = Parser::new(&tokens);
    assert!(parser.signal().is_ok());
    match parser.signal() {
        Err(SyntaxError::UnexpectedToken { expected, found }) => {
            assert!(matches!(expected, Expectation::Sign));
            assert_eq!(found.get_lexeme(), "or");
        }
        other => panic!("unexpected result: {:?}", other),
    }
    assert!(matches!(parser.signal(), Err(SyntaxError::UnexpectedEndOfFile)));
}

#[test]
fn types_gives_the_name_of_the_type() {
    let tokens = vec![
        Token::new("real", TokenType::Keyword, 1, 1),
        Token::new("integer", TokenType::Identifier, 1, 6),
    ];
    let mut parser = Parser::new(&tokens);
    assert_eq!(parser.types().unwrap(), "real");
    assert!(matches!(
        parser.types(),
        Err(SyntaxError::UnexpectedToken { expected: Expectation::TypeKeyword, .. })
    ));
    assert!(matches!(parser.types(), Err(SyntaxError::UnexpectedEndOfFile)));
}

#[test]
fn expression_leaves_its_type_on_the_stack() {
    let tokens = Scanner::new("1 + 2.5 * 3 < 4 ;").init().unwrap();
    let mut parser = Parser::new(&tokens);
    assert!(parser.expression().is_ok());
    assert_eq!(parser.pop_type().unwrap(), "boolean");
    assert!(parser.pop_type().is_none());
    assert_eq!(parser.peek().unwrap().get_lexeme(), ";");
}

#[test]
fn parse_takes_the_tokens_of_a_program() {
    let tokens = Scanner::new("program P; begin end.").init().unwrap();
    assert_eq!(parse_tokens(&tokens).unwrap(), true);
    assert!(matches!(
        parse_tokens(&Vec::new()),
        Err(SyntaxError::UnexpectedEndOfFile)
    ));
}
