//! The lexical scanner: source text in, tokens out.

pub mod automaton;
pub mod error;
pub mod laws;

use vstd::prelude::*;
use vstd::string::*;
use crate::common::chars::{is_digit, is_whitespace, is_word_part, is_word_start};
use crate::common::text::{push_char, spec_trim, str_eq, to_chars};
use crate::common::token::{clone_tokens, token_views, Token, TokenType};
use crate::common::utils::is_keyword;
use crate::lexical::automaton::{
    classify_word, is_symbol, lemma_run_ends_between_tokens, lemma_symbol_is_trimmed, scan,
    ScannerView, INVALID_STATE_MESSAGE, STATE_ASSIGN, STATE_COMMENT,
    STATE_FRACTION, STATE_GREATER_EQUAL, STATE_INTEGER, STATE_LESS_EQUAL, STATE_NOT_EQUAL,
    STATE_POINT, STATE_START, STATE_WORD,
};
use crate::lexical::error::{InvalidCharError, InvalidStateError, LexicalError, LexicalErrorView};

verus! {

/// A scanner over one source text. It is driven one character at a time by
/// `transition`, or to the end of the text by `init`.
pub struct Scanner {
    input: Vec<char>,
    /// How many characters have been consumed.
    position: usize,
    tokens: Vec<Token>,
    current_state: usize,
    identifier_buffer: String,
    /// How many line breaks have been consumed.
    line: usize,
    /// How many characters of the current line have been consumed.
    column: usize,
}

impl View for Scanner {
    type V = ScannerView;

    closed spec fn view(&self) -> ScannerView {
        ScannerView {
            input: self.input@,
            position: self.position as nat,
            tokens: token_views(self.tokens@),
            state: self.current_state as nat,
            buffer: self.identifier_buffer@,
            line: (self.line + 1) as nat,
            column: (self.column + 1) as nat,
        }
    }
}

/// The category of the finished word `word`.
pub fn word_category(word: &str) -> (r: TokenType)
    ensures
        r == classify_word(word@),
{
    if is_keyword(word) {
        TokenType::Keyword
    } else if str_eq(word, "and") {
        TokenType::MultiplicativeOperators
    } else if str_eq(word, "or") {
        TokenType::AdditiveOperators
    } else if str_eq(word, "true") || str_eq(word, "false") {
        TokenType::Boolean
    } else {
        TokenType::Identifier
    }
}

impl Scanner {
    /// The scanner's configuration is one that scanning can reach.
    pub open spec fn wf(&self) -> bool {
        self@.wf() && self@.input.len() <= usize::MAX
    }

    /// A scanner that has read nothing of `input` yet.
    pub fn new(input: &str) -> (r: Self)
        ensures
            r.wf(),
            r@ == ScannerView::initial(input@),
    {
        let r = Self {
            input: to_chars(input),
            position: 0,
            tokens: Vec::new(),
            current_state: STATE_START,
            identifier_buffer: String::new(),
            line: 0,
            column: 0,
        };
        proof {
            assert(r@.tokens =~= Seq::empty());
        }
        r
    }

    /// Scans what is left of the input: the tokens in source order, or the
    /// first failure. At least one character is asked for, so a scanner with
    /// nothing left to read fails. A scan that succeeds has read all of the
    /// input and holds no unfinished token; one that fails never does so for
    /// a state that the automaton does not have.
    pub fn init(&mut self) -> (r: Result<Vec<Token>, LexicalError>)
        requires
            old(self).wf(),
        ensures
            final(self).wf(),
            match old(self)@.run() {
                Ok(s) => r is Ok && final(self)@ == s && token_views(r->Ok_0@) == s.tokens,
                Err(e) => r is Err && r->Err_0@ == e,
            },
            r is Ok ==> final(self)@.exhausted() && final(self)@.buffer.len() == 0,
            r is Err ==> !(r->Err_0@ is InvalidState) && (r->Err_0@ is EndOfInput <==> old(
                self,
            )@.exhausted()),
    {
        let ghost start = self@;
        let mut done = false;
        while !done
            invariant
                start == old(self)@,
                start.wf(),
                self.wf(),
                !done ==> self@.run() == start.run(),
                done ==> start.run() == Ok::<ScannerView, LexicalErrorView>(self@),
            decreases self@.input.len() - self@.position + (if done { 0int } else { 1int }),
        {
            match self.transition() {
                Ok(()) => {},
                Err(e) => {
                    proof {
                        lemma_run_ends_between_tokens(start);
                    }
                    return Err(e);
                },
            }
            if self.position >= self.input.len() {
                done = true;
            }
        }
        proof {
            lemma_run_ends_between_tokens(start);
        }
        Ok(clone_tokens(&self.tokens))
    }

    /// Emits a token that starts on the current line at `column`, empties
    /// the buffer and returns to the start state.
    fn emit(&mut self, lexeme: &str, category: TokenType, column: usize)
        requires
            old(self).wf(),
            !old(self)@.exhausted(),
        ensures
            final(self)@ == old(self)@.emit(spec_trim(lexeme@), category, column as nat),
    {
        let token = Token::new(lexeme, category, self.line + 1, column);
        self.tokens.push(token);
        self.identifier_buffer = String::new();
        self.current_state = STATE_START;
        proof {
            assert(token_views(self.tokens@) =~= token_views(old(self).tokens@).push(token@));
        }
    }

    /// Emits a one-character operator or delimiter at the current place.
    fn emit_here(&mut self, lexeme: &str, category: TokenType)
        requires
            old(self).wf(),
            !old(self)@.exhausted(),
            is_symbol(lexeme@),
        ensures
            final(self)@ == old(self)@.emit(lexeme@, category, old(self)@.column),
    {
        proof {
            lemma_symbol_is_trimmed(lexeme@);
        }
        self.emit(lexeme, category, self.column + 1);
    }

    /// Emits a two-character operator whose second character is the current
    /// one.
    fn emit_pair(&mut self, lexeme: &str, category: TokenType)
        requires
            old(self).wf(),
            !old(self)@.exhausted(),
            old(self)@.column >= 2,
            is_symbol(lexeme@),
        ensures
            final(self)@ == old(self)@.emit(lexeme@, category, (old(self)@.column - 1) as nat),
    {
        proof {
            lemma_symbol_is_trimmed(lexeme@);
        }
        self.emit(lexeme, category, self.column);
    }

    /// Appends the current character to the buffer and moves to `state`.
    fn buffer_and_goto(&mut self, current: char, state: usize)
        requires
            !old(self)@.exhausted(),
            current == old(self)@.current(),
        ensures
            final(self)@ == old(self)@.buffer_and_goto(state),
    {
        push_char(&mut self.identifier_buffer, current);
        self.current_state = state;
    }

    /// Appends the current character to the buffer and emits the buffer as
    /// one token, of the given category or, with none given, of the category
    /// that the buffered word has.
    fn emit_buffered(&mut self, current: char, category: Option<TokenType>)
        requires
            old(self).wf(),
            !old(self)@.exhausted(),
            current == old(self)@.current(),
        ensures
            final(self)@ == old(self)@.emit_buffered(
                match category {
                    Some(c) => c,
                    None => classify_word(old(self)@.buffered()),
                },
            ),
    {
        let length = self.identifier_buffer.as_str().unicode_len();
        let mut lexeme = self.identifier_buffer.clone();
        push_char(&mut lexeme, current);
        let category = match category {
            Some(c) => c,
            None => word_category(lexeme.as_str()),
        };
        self.emit(lexeme.as_str(), category, self.column + 1 - length);
    }

    /// One transition of the automaton: consumes the current character and
    /// reacts to it. A failed transition leaves the scanner as it was.
    pub fn transition(&mut self) -> (r: Result<(), LexicalError>)
        requires
            old(self).wf(),
        ensures
            final(self).wf(),
            match old(self)@.step() {
                Ok(s) => r is Ok && final(self)@ == s,
                Err(e) => r is Err && r->Err_0@ == e && final(self)@ == old(self)@,
            },
    {
        if self.position >= self.input.len() {
            return Err(LexicalError::EndOfInput);
        }
        let current = self.input[self.position];
        let next = if self.position + 1 < self.input.len() {
            self.input[self.position + 1]
        } else {
            ' '
        };
        let mut line_break = false;
        if self.current_state == STATE_START {
            if current == '\n' {
                line_break = true;
            } else if is_whitespace(current) {
            } else if is_word_start(current) {
                if !is_word_part(next) {
                    self.emit_buffered(current, Some(TokenType::Identifier));
                } else {
                    self.buffer_and_goto(current, STATE_WORD);
                }
            } else if is_digit(current) {
                if next == '.' {
                    self.buffer_and_goto(current, STATE_POINT);
                } else if !is_digit(next) {
                    self.emit_buffered(current, Some(TokenType::Integer));
                } else {
                    self.buffer_and_goto(current, STATE_INTEGER);
                }
            } else if current == '+' {
                self.emit_here("+", TokenType::AdditiveOperators);
            } else if current == '-' {
                self.emit_here("-", TokenType::AdditiveOperators);
            } else if current == '*' {
                self.emit_here("*", TokenType::MultiplicativeOperators);
            } else if current == '/' {
                self.emit_here("/", TokenType::MultiplicativeOperators);
            } else if current == '=' {
                self.emit_here("=", TokenType::RelationalOperators);
            } else if current == '>' {
                if next == '=' {
                    self.current_state = STATE_GREATER_EQUAL;
                } else {
                    self.emit_here(">", TokenType::RelationalOperators);
                }
            } else if current == '<' {
                if next == '=' {
                    self.current_state = STATE_LESS_EQUAL;
                } else if next == '>' {
                    self.current_state = STATE_NOT_EQUAL;
                } else {
                    self.emit_here("<", TokenType::RelationalOperators);
                }
            } else if current == ':' {
                if next == '=' {
                    self.current_state = STATE_ASSIGN;
                } else {
                    self.emit_here(":", TokenType::Delimiter);
                }
            } else if current == ',' {
                self.emit_here(",", TokenType::Delimiter);
            } else if current == '.' {
                self.emit_here(".", TokenType::Delimiter);
            } else if current == ';' {
                self.emit_here(";", TokenType::Delimiter);
            } else if current == '(' {
                self.emit_here("(", TokenType::Delimiter);
            } else if current == ')' {
                self.emit_here(")", TokenType::Delimiter);
            } else if current == '{' {
                self.current_state = STATE_COMMENT;
            } else {
                return Err(
                    LexicalError::InvalidChar(
                        InvalidCharError::new(current, self.line + 1, self.column + 1),
                    ),
                );
            }
        } else if self.current_state == STATE_WORD {
            if !is_word_part(current) || !is_word_part(next) {
                self.emit_buffered(current, None);
            } else {
                self.buffer_and_goto(current, STATE_WORD);
            }
        } else if self.current_state == STATE_INTEGER {
            if current == '.' || next == '.' {
                self.buffer_and_goto(current, STATE_POINT);
            } else if !is_digit(next) {
                self.emit_buffered(current, Some(TokenType::Integer));
            } else {
                self.buffer_and_goto(current, STATE_INTEGER);
            }
        } else if self.current_state == STATE_POINT {
            if is_digit(next) {
                self.buffer_and_goto(current, STATE_FRACTION);
            } else {
                self.emit_buffered(current, Some(TokenType::Real));
            }
        } else if self.current_state == STATE_FRACTION {
            if !is_digit(next) {
                self.emit_buffered(current, Some(TokenType::Real));
            } else {
                self.buffer_and_goto(current, STATE_FRACTION);
            }
        } else if self.current_state == STATE_GREATER_EQUAL {
            if current == '=' {
                self.emit_pair(">=", TokenType::RelationalOperators);
            }
        } else if self.current_state == STATE_LESS_EQUAL {
            if current == '=' {
                self.emit_pair("<=", TokenType::RelationalOperators);
            }
        } else if self.current_state == STATE_NOT_EQUAL {
            if current == '>' {
                self.emit_pair("<>", TokenType::RelationalOperators);
            }
        } else if self.current_state == STATE_ASSIGN {
            self.emit_pair(":=", TokenType::Assignment);
        } else if self.current_state == STATE_COMMENT {
            if current == '}' {
                self.current_state = STATE_START;
            } else if current == '\n' {
                return Err(LexicalError::UnclosedComment { line: self.line + 1 });
            }
        } else {
            return Err(
                LexicalError::InvalidState(
                    InvalidStateError::new(INVALID_STATE_MESSAGE, self.line + 1, self.column + 1),
                ),
            );
        }
        self.position += 1;
        if line_break {
            self.line += 1;
            self.column = 0;
        } else {
            self.column += 1;
        }
        Ok(())
    }
}

/// Scans `input` from its first character to its last.
pub fn tokenize(input: &str) -> (r: Result<Vec<Token>, LexicalError>)
    ensures
        match scan(input@) {
            Ok(tokens) => r is Ok && token_views(r->Ok_0@) == tokens,
            Err(e) => r is Err && r->Err_0@ == e,
        },
        r is Err ==> !(r->Err_0@ is InvalidState) && (r->Err_0@ is EndOfInput <==> input@.len()
            == 0),
{
    let mut scanner = Scanner::new(input);
    scanner.init()
}

} // verus!
