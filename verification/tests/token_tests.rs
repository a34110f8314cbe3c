use pascal_frontend::common::chars::{is_alphanumeric, is_digit, is_letter, is_whitespace, is_word_part, is_word_start};
use pascal_frontend::common::symbol::Symbol;
use pascal_frontend::common::text::{digit_char, push_decimal, push_place, to_chars, trim};
use pascal_frontend::common::token::{clone_tokens, Token, TokenType};
use pascal_frontend::common::utils::{is_keyword, is_type_name};
use pascal_frontend::syntactic::error::{Expectation, Fault, Operation, SyntaxError};

#[test]
fn token_new_trims_the_lexeme() {
    let token = Token::new("  begin \n", TokenType::Keyword, 3, 5);
    assert_eq!(token.get_lexeme(), "begin");
    assert_eq!(token.get_type(), TokenType::Keyword);
    assert_eq!(token.get_line(), 3);
    assert_eq!(token.get_column(), 5);
    assert!(token.is_type_of(TokenType::Keyword));
    assert!(!token.is_type_of(TokenType::Identifier));
    assert_eq!(Token::new(" \t ", TokenType::Invalid, 1, 1).get_lexeme(), "");
    assert_eq!(Token::new("a b", TokenType::Invalid, 1, 1).get_lexeme(), "a b");
}

#[test]
fn token_equality_ignores_the_place() {
    let a = Token::new("x", TokenType::Identifier, 1, 1);
    let b = Token::new("x", TokenType::Identifier, 7, 9);
    let c = Token::new("x", TokenType::Keyword, 1, 1);
    let d = Token::new("y", TokenType::Identifier, 1, 1);
    assert!(a == b);
    assert!(a != c);
    assert!(a != d);
}

#[test]
fn token_default_is_invalid() {
    let token = Token::default();
    assert_eq!(token.get_lexeme(), "");
    assert_eq!(token.get_type(), TokenType::Invalid);
    assert_eq!(TokenType::default(), TokenType::Invalid);
}

#[test]
fn token_clone_is_the_same_token_at_the_same_place() {
    let token = Token::new("x", TokenType::Identifier, 4, 2);
    let copy = token.clone();
    assert!(copy == token);
    assert_eq!(copy.get_line(), 4);
    assert_eq!(copy.get_column(), 2);
    let copies = clone_tokens(&vec![token, Token::new("y", TokenType::Identifier, 5, 1)]);
    assert_eq!(copies.len(), 2);
    assert_eq!(copies[1].get_lexeme(), "y");
}

#[test]
fn token_reads_as_text() {
    let token = Token::new(":=", TokenType::Assignment, 12, 340);
    assert_eq!(token.to_string(), "[':=', Assignment, line: 12, column: 340]");
}

#[test]
fn token_type_names() {
    assert_eq!(TokenType::Keyword.to_string(), "Keyword");
    assert_eq!(TokenType::Identifier.to_string(), "Identifier");
    assert_eq!(TokenType::Integer.to_string(), "Integer");
    assert_eq!(TokenType::Real.to_string(), "Real");
    assert_eq!(TokenType::Boolean.to_string(), "Boolean");
    assert_eq!(TokenType::Delimiter.to_string(), "Delimiter");
    assert_eq!(TokenType::RelationalOperators.to_string(), "Relational Operators");
    assert_eq!(TokenType::Assignment.to_string(), "Assignment");
    assert_eq!(TokenType::AdditiveOperators.to_string(), "Additive Operators");
    assert_eq!(
        TokenType::MultiplicativeOperators.to_string(),
        "Multiplicative Operators"
    );
    assert_eq!(TokenType::Invalid.to_string(), "Invalid");
    assert_eq!(TokenType::Real.name(), "Real");
}

#[test]
fn symbol_starts_without_a_type() {
    let symbol = Symbol::new(Token::new("x", TokenType::Identifier, 1, 1));
    assert!(symbol.is_identifier());
    assert!(!symbol.is_eos());
    assert_eq!(symbol.get_type().unwrap(), "");
    assert_eq!(symbol.as_token().unwrap().get_lexeme(), "x");
    assert_eq!(symbol.get_lexeme(), "x");
    assert_eq!(symbol.to_string(), "x");
    assert_eq!(Symbol::EOS.to_string(), "EOS");
}

#[test]
fn symbol_type_is_filled_in_later() {
    let mut symbol = Symbol::new(Token::new("x", TokenType::Identifier, 1, 1));
    symbol.change_type("real");
    assert_eq!(symbol.get_type().unwrap(), "real");
    symbol.change_type("integer");
    assert_eq!(symbol.get_type().unwrap(), "integer");
}

#[test]
fn scope_marker_has_neither_token_nor_type() {
    let mut marker = Symbol::EOS;
    assert!(marker.is_eos());
    assert!(!marker.is_identifier());
    assert!(marker.as_token().is_none());
    assert!(marker.get_type().is_none());
    marker.change_type("real");
    assert!(marker.get_type().is_none());
    assert_eq!(marker.get_lexeme(), "");
}

#[test]
fn symbol_equality_is_by_lexeme() {
    let a = Symbol::new(Token::new("x", TokenType::Identifier, 1, 1));
    let mut b = Symbol::new(Token::new("x", TokenType::Identifier, 9, 9));
    b.change_type("real");
    let c = Symbol::new(Token::new("y", TokenType::Identifier, 1, 1));
    assert!(a == b);
    assert!(a != c);
    assert!(Symbol::EOS == Symbol::EOS);
    assert!(a != Symbol::EOS);
    assert!(Symbol::EOS != a);
}

#[test]
fn symbol_of_another_category_is_no_identifier() {
    let a = Symbol::new(Token::new("begin", TokenType::Keyword, 1, 1));
    let b = Symbol::new(Token::new("begin", TokenType::Keyword, 1, 1));
    assert!(!a.is_identifier());
    assert!(a != b);
}

#[test]
fn symbol_clone_keeps_token_and_type() {
    let mut symbol = Symbol::new(Token::new("x", TokenType::Identifier, 2, 3));
    symbol.change_type("boolean");
    let copy = symbol.clone();
    assert_eq!(copy.get_type().unwrap(), "boolean");
    assert_eq!(copy.as_token().unwrap().get_column(), 3);
}

#[test]
fn keyword_set() {
    for word in [
        "program", "var", "integer", "real", "boolean", "procedure", "begin", "end", "if", "then",
        "else", "while", "do", "not",
    ] {
        assert!(is_keyword(word));
    }
    for word in ["and", "or", "true", "false", "Program", "x", "", "beginning"] {
        assert!(!is_keyword(word));
    }
    assert!(is_type_name("integer"));
    assert!(is_type_name("real"));
    assert!(is_type_name("boolean"));
    assert!(!is_type_name("var"));
}

#[test]
fn character_classes() {
    assert!(is_digit('0') && is_digit('9') && !is_digit('a') && !is_digit('٣'));
    assert!(is_letter('a') && is_letter('Z') && is_letter('é') && !is_letter('1') && !is_letter('_'));
    assert!(is_alphanumeric('a') && is_alphanumeric('7') && is_alphanumeric('٣') && !is_alphanumeric('_'));
    assert!(is_whitespace(' ') && is_whitespace('\n') && is_whitespace('\t') && is_whitespace('\u{a0}'));
    assert!(!is_whitespace('a') && !is_whitespace('\u{200b}'));
    assert!(is_word_start('_') && is_word_start('q') && !is_word_start('1'));
    assert!(is_word_part('_') && is_word_part('1') && !is_word_part('-'));
}

#[test]
fn text_helpers() {
    assert_eq!(to_chars("aé"), vec!['a', 'é']);
    assert_eq!(trim("  a b \n"), "a b");
    assert_eq!(trim("\u{a0}x\u{a0}"), "x");
    assert_eq!(trim(""), "");
    assert_eq!(digit_char(0), '0');
    assert_eq!(digit_char(7), '7');
    let mut text = String::from("n=");
    push_decimal(&mut text, 0);
    push_decimal(&mut text, 9);
    push_decimal(&mut text, 10);
    push_decimal(&mut text, 4096);
    assert_eq!(text, "n=09104096");
    let mut text = String::from("x");
    push_place(&mut text, 3, 21);
    assert_eq!(text, "x at line 3 column 21");
}

#[test]
fn syntax_errors_read_as_messages() {
    let found = Token::new("begin", TokenType::Keyword, 2, 7);
    assert_eq!(
        SyntaxError::UnexpectedEndOfFile.to_string(),
        "Syntactic error. Unexpected end of file."
    );
    assert_eq!(
        SyntaxError::UnexpectedToken {
            expected: Expectation::Exactly {
                category: TokenType::Delimiter,
                lexeme: ";".to_string()
            },
            found: found.clone()
        }
        .to_string(),
        "Expected Delimiter ';'. Instead got 'begin' of type Keyword at line 2 column 7."
    );
    assert_eq!(
        SyntaxError::UnexpectedToken {
            expected: Expectation::Identifier,
            found: found.clone()
        }
        .to_string(),
        "Expected an identifier. Instead got 'begin' of type Keyword at line 2 column 7."
    );
    assert_eq!(
        Expectation::Category(TokenType::Integer).to_string(),
        "Integer"
    );
    assert_eq!(
        Expectation::TypeKeyword.to_string(),
        "a keyword: 'integer', 'real' or 'boolean'"
    );
    assert_eq!(Expectation::TypeName.to_string(), "'integer', 'real' or 'boolean'");
    assert_eq!(Expectation::ParameterSeparator.to_string(), "';'");
    assert_eq!(Expectation::Sign.to_string(), "a sign '+' or '-'");
    assert_eq!(
        SyntaxError::AlreadyDeclared {
            declaration: Token::new("x", TokenType::Identifier, 1, 16)
        }
        .to_string(),
        "Identifier 'x' already declared at line 1 column 16."
    );
    assert_eq!(
        SyntaxError::ProgramNameUsed { line: 4, column: 2 }.to_string(),
        "Use of the program name at line 4 column 2."
    );
    assert_eq!(
        SyntaxError::UndeclaredIdentifier {
            reference: Token::new("y", TokenType::Identifier, 1, 18)
        }
        .to_string(),
        "Use of the undeclared identifier 'y' at line 1 column 18."
    );
    assert_eq!(
        SyntaxError::EqualsInsteadOfAssignment { line: 1, column: 37 }.to_string(),
        "Invalid operator. Got '=' at line 1 column 37, didn't you mean ':='?"
    );
    assert_eq!(
        SyntaxError::MissingOperand {
            operation: Operation::Logic,
            line: 5,
            column: 6
        }
        .to_string(),
        "Unable to check the types of the logic operation at line 5 column 6."
    );
    assert_eq!(
        SyntaxError::OperandMismatch {
            operation: Operation::Arithmetic,
            left: "boolean".to_string(),
            right: "integer".to_string(),
            line: 1,
            column: 45
        }
        .to_string(),
        "Invalid type between operands in arithmetic operation at line 1 column 45.\n\
         Cannot execute arithmetic operations between 'boolean' and 'integer'."
    );
    assert_eq!(
        SyntaxError::OperandMismatch {
            operation: Operation::Assignment,
            left: "integer".to_string(),
            right: "real".to_string(),
            line: 1,
            column: 37
        }
        .to_string(),
        "Invalid assignment at line 1 column 37.\n\
         Cannot assign a value of type 'real' to a variable of type 'integer'."
    );
    assert_eq!(
        SyntaxError::Internal(Fault::ScopeUnderflow).to_string(),
        "Internal error: no scope is open."
    );
    assert_eq!(Operation::Relational.name(), "relational");
    assert_eq!(Fault::InputGrew.name(), "tokens came back");
}
