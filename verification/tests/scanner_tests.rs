use pascal_frontend::common::token::{Token, TokenType};
use pascal_frontend::lexical::error::{InvalidCharError, InvalidStateError, LexicalError};
use pascal_frontend::lexical::{tokenize, word_category, Scanner};

fn scan(input: &str) -> Vec<Token> {
    Scanner::new(input).init().unwrap()
}

fn shape(tokens: &[Token]) -> Vec<(String, TokenType, usize, usize)> {
    tokens
        .iter()
        .map(|t| {
            (
                t.get_lexeme().to_string(),
                t.get_type(),
                t.get_line(),
                t.get_column(),
            )
        })
        .collect()
}

fn entry(lexeme: &str, category: TokenType, line: usize, column: usize) -> (String, TokenType, usize, usize) {
    (lexeme.to_string(), category, line, column)
}

#[test]
fn keywords_keep_their_lexemes_and_places() {
    let tokens = scan("program var\n  begin end");
    assert_eq!(
        shape(&tokens),
        vec![
            entry("program", TokenType::Keyword, 1, 1),
            entry("var", TokenType::Keyword, 1, 9),
            entry("begin", TokenType::Keyword, 2, 3),
            entry("end", TokenType::Keyword, 2, 9),
        ]
    );
}

#[test]
fn identifiers_may_hold_digits_and_underscores() {
    let tokens = scan("a a1 a_b _x x9_ programs");
    assert_eq!(tokens.len(), 6);
    assert!(tokens.iter().all(|t| t.is_type_of(TokenType::Identifier)));
    assert_eq!(tokens[5].get_lexeme(), "programs");
}

#[test]
fn boolean_literals_and_word_operators() {
    let tokens = scan("true false and or not");
    assert_eq!(
        shape(&tokens),
        vec![
            entry("true", TokenType::Boolean, 1, 1),
            entry("false", TokenType::Boolean, 1, 6),
            entry("and", TokenType::MultiplicativeOperators, 1, 12),
            entry("or", TokenType::AdditiveOperators, 1, 16),
            entry("not", TokenType::Keyword, 1, 19),
        ]
    );
}

#[test]
fn word_category_classifies_words() {
    assert_eq!(word_category("while"), TokenType::Keyword);
    assert_eq!(word_category("and"), TokenType::MultiplicativeOperators);
    assert_eq!(word_category("or"), TokenType::AdditiveOperators);
    assert_eq!(word_category("true"), TokenType::Boolean);
    assert_eq!(word_category("false"), TokenType::Boolean);
    assert_eq!(word_category("whiles"), TokenType::Identifier);
}

#[test]
fn integers_and_reals() {
    let tokens = scan("12 3. 4.75 0");
    assert_eq!(
        shape(&tokens),
        vec![
            entry("12", TokenType::Integer, 1, 1),
            entry("3.", TokenType::Real, 1, 4),
            entry("4.75", TokenType::Real, 1, 7),
            entry("0", TokenType::Integer, 1, 12),
        ]
    );
}

#[test]
fn a_second_point_ends_a_real() {
    let tokens = scan("1.5.");
    assert_eq!(
        shape(&tokens),
        vec![
            entry("1.5", TokenType::Real, 1, 1),
            entry(".", TokenType::Delimiter, 1, 4),
        ]
    );
}

#[test]
fn two_character_operators_are_single_tokens() {
    let tokens = scan("a:=b<=c>=d<>e");
    assert_eq!(
        shape(&tokens),
        vec![
            entry("a", TokenType::Identifier, 1, 1),
            entry(":=", TokenType::Assignment, 1, 2),
            entry("b", TokenType::Identifier, 1, 4),
            entry("<=", TokenType::RelationalOperators, 1, 5),
            entry("c", TokenType::Identifier, 1, 7),
            entry(">=", TokenType::RelationalOperators, 1, 8),
            entry("d", TokenType::Identifier, 1, 10),
            entry("<>", TokenType::RelationalOperators, 1, 11),
            entry("e", TokenType::Identifier, 1, 13),
        ]
    );
}

#[test]
fn separated_characters_are_two_tokens() {
    let tokens = scan(": = < >");
    assert_eq!(
        shape(&tokens),
        vec![
            entry(":", TokenType::Delimiter, 1, 1),
            entry("=", TokenType::RelationalOperators, 1, 3),
            entry("<", TokenType::RelationalOperators, 1, 5),
            entry(">", TokenType::RelationalOperators, 1, 7),
        ]
    );
}

#[test]
fn operator_at_the_end_of_the_input_is_emitted() {
    assert_eq!(shape(&scan("a >")).last().unwrap(), &entry(">", TokenType::RelationalOperators, 1, 3));
    assert_eq!(shape(&scan("a <")).last().unwrap(), &entry("<", TokenType::RelationalOperators, 1, 3));
    assert_eq!(shape(&scan("a :")).last().unwrap(), &entry(":", TokenType::Delimiter, 1, 3));
}

#[test]
fn arithmetic_operators_and_delimiters() {
    let tokens = scan("(a+b)*c/d-e;");
    let categories: Vec<TokenType> = tokens.iter().map(|t| t.get_type()).collect();
    assert_eq!(
        categories,
        vec![
            TokenType::Delimiter,
            TokenType::Identifier,
            TokenType::AdditiveOperators,
            TokenType::Identifier,
            TokenType::Delimiter,
            TokenType::MultiplicativeOperators,
            TokenType::Identifier,
            TokenType::MultiplicativeOperators,
            TokenType::Identifier,
            TokenType::AdditiveOperators,
            TokenType::Identifier,
            TokenType::Delimiter,
        ]
    );
}

#[test]
fn comment_on_one_line_yields_no_token() {
    let tokens = scan("a { b c := 1 @ } d");
    assert_eq!(
        shape(&tokens),
        vec![
            entry("a", TokenType::Identifier, 1, 1),
            entry("d", TokenType::Identifier, 1, 18),
        ]
    );
    assert!(scan("{ nothing here }").is_empty());
}

#[test]
fn comment_across_a_line_break_is_fatal() {
    match Scanner::new("a\n{ open\n}").init() {
        Err(LexicalError::UnclosedComment { line }) => assert_eq!(line, 2),
        other => panic!("unexpected result: {:?}", other),
    }
}

#[test]
fn comment_open_at_the_end_of_the_input_is_not_an_error() {
    let tokens = scan("a { open");
    assert_eq!(tokens.len(), 1);
}

#[test]
fn invalid_character_is_reported_with_its_place() {
    match Scanner::new("a := 1;\n b @ c").init() {
        Err(LexicalError::InvalidChar(e)) => {
            assert_eq!(e.character, '@');
            assert_eq!(e.line, 2);
            assert_eq!(e.column, 4);
        }
        other => panic!("unexpected result: {:?}", other),
    }
}

#[test]
fn empty_input_has_no_character_to_read() {
    assert!(matches!(
        Scanner::new("").init(),
        Err(LexicalError::EndOfInput)
    ));
}

#[test]
fn blanks_alone_give_no_token() {
    assert!(scan(" \t\r\n  \n").is_empty());
}

#[test]
fn letters_beyond_ascii_continue_a_word() {
    let tokens = scan("ação := 1");
    assert_eq!(
        shape(&tokens),
        vec![
            entry("ação", TokenType::Identifier, 1, 1),
            entry(":=", TokenType::Assignment, 1, 6),
            entry("1", TokenType::Integer, 1, 9),
        ]
    );
}

#[test]
fn blanks_beyond_ascii_separate_tokens() {
    let tokens = scan("a\u{a0}b");
    assert_eq!(tokens.len(), 2);
    assert_eq!(tokens[1].get_column(), 3);
}

#[test]
fn transition_reads_one_character() {
    let mut scanner = Scanner::new("ab");
    assert!(scanner.transition().is_ok());
    assert!(scanner.transition().is_ok());
    assert!(matches!(
        scanner.transition(),
        Err(LexicalError::EndOfInput)
    ));
}

#[test]
fn a_second_scan_finds_nothing_left() {
    let mut scanner = Scanner::new("a b");
    assert_eq!(scanner.init().unwrap().len(), 2);
    assert!(matches!(scanner.init(), Err(LexicalError::EndOfInput)));
}

#[test]
fn tokenize_scans_the_whole_text() {
    let tokens = tokenize("x := x + 1").unwrap();
    assert_eq!(tokens.len(), 5);
    assert!(matches!(
        tokenize("x ? y"),
        Err(LexicalError::InvalidChar(_))
    ));
}

#[test]
fn lexical_errors_read_as_messages() {
    let e = InvalidCharError::new('@', 3, 14);
    assert_eq!(
        e.to_string(),
        "The invalid character '@' was found at line 3, column 14"
    );
    assert_eq!(LexicalError::InvalidChar(e).to_string(), e.to_string());
    let e = InvalidStateError::new("lost", 120, 7);
    assert_eq!(e.message, "lost");
    assert_eq!(e.to_string(), "An error occurred at line 120, column 7.\nlost");
    assert_eq!(
        LexicalError::UnclosedComment { line: 10 }.to_string(),
        "Unclosed comment at line 10"
    );
    assert_eq!(LexicalError::EndOfInput.to_string(), "EOF");
}
