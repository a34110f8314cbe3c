//! The scanner's finite automaton, as a function from one configuration to
//! the next.
//!
//! A configuration is the input with a read position, the tokens emitted so
//! far, the automaton's state, the characters buffered for the token under
//! construction, and the line and column of the character about to be read.
//! Each step consumes exactly one character and may look at the one after it.

use vstd::prelude::*;
use crate::common::chars::{
    spec_is_digit, spec_is_whitespace, spec_is_word_part, spec_is_word_start,
};
use crate::common::text::{lemma_trim_identity, spec_trim};
use crate::common::token::{TokenType, TokenView};
use crate::common::utils::spec_is_keyword;
use crate::lexical::error::LexicalErrorView;

verus! {

/// Between tokens.
pub const STATE_START: usize = 0;

/// Buffering an identifier or a keyword.
pub const STATE_WORD: usize = 1;

/// Buffering the digits of an integer.
pub const STATE_INTEGER: usize = 2;

/// About to read the decimal point of a real.
pub const STATE_POINT: usize = 3;

/// Buffering the digits after the decimal point.
pub const STATE_FRACTION: usize = 4;

/// Read `>`, about to read `=`.
pub const STATE_GREATER_EQUAL: usize = 9;

/// Read `<`, about to read `=`.
pub const STATE_LESS_EQUAL: usize = 11;

/// Read `<`, about to read `>`.
pub const STATE_NOT_EQUAL: usize = 12;

/// Read `:`, about to read `=`.
pub const STATE_ASSIGN: usize = 14;

/// Inside a `{ ... }` comment.
pub const STATE_COMMENT: usize = 15;

/// The message of the error for a state that the automaton does not have.
pub const INVALID_STATE_MESSAGE: &'static str = "Reached an invalid end state on lexical analysis.";

/// The operators and delimiters that are not spelled with letters.
pub open spec fn is_symbol(lexeme: Seq<char>) -> bool {
    ||| lexeme == "+"@
    ||| lexeme == "-"@
    ||| lexeme == "*"@
    ||| lexeme == "/"@
    ||| lexeme == "="@
    ||| lexeme == ">"@
    ||| lexeme == "<"@
    ||| lexeme == ":"@
    ||| lexeme == ","@
    ||| lexeme == "."@
    ||| lexeme == ";"@
    ||| lexeme == "("@
    ||| lexeme == ")"@
    ||| lexeme == ">="@
    ||| lexeme == "<="@
    ||| lexeme == "<>"@
    ||| lexeme == ":="@
}

/// No operator and no delimiter begins or ends with a blank.
pub proof fn lemma_symbol_is_trimmed(lexeme: Seq<char>)
    requires
        is_symbol(lexeme),
    ensures
        spec_trim(lexeme) == lexeme,
{
    reveal_strlit("+");
    reveal_strlit("-");
    reveal_strlit("*");
    reveal_strlit("/");
    reveal_strlit("=");
    reveal_strlit(">");
    reveal_strlit("<");
    reveal_strlit(":");
    reveal_strlit(",");
    reveal_strlit(".");
    reveal_strlit(";");
    reveal_strlit("(");
    reveal_strlit(")");
    reveal_strlit(">=");
    reveal_strlit("<=");
    reveal_strlit("<>");
    reveal_strlit(":=");
    lemma_trim_identity(lexeme);
}

/// A configuration of the scanner.
pub struct ScannerView {
    pub input: Seq<char>,
    /// How many characters have been consumed.
    pub position: nat,
    pub tokens: Seq<TokenView>,
    pub state: nat,
    pub buffer: Seq<char>,
    /// Line of the character at `position`, counted from 1.
    pub line: nat,
    /// Column of the character at `position`, counted from 1.
    pub column: nat,
}

/// The category of a finished word: a keyword, one of the operators and
/// literals that are spelled with letters, or else an identifier.
pub open spec fn classify_word(word: Seq<char>) -> TokenType {
    if spec_is_keyword(word) {
        TokenType::Keyword
    } else if word == "and"@ {
        TokenType::MultiplicativeOperators
    } else if word == "or"@ {
        TokenType::AdditiveOperators
    } else if word == "true"@ || word == "false"@ {
        TokenType::Boolean
    } else {
        TokenType::Identifier
    }
}

impl ScannerView {
    /// The configuration before anything of `input` has been read.
    pub open spec fn initial(input: Seq<char>) -> ScannerView {
        ScannerView {
            input,
            position: 0,
            tokens: Seq::empty(),
            state: STATE_START as nat,
            buffer: Seq::empty(),
            line: 1,
            column: 1,
        }
    }

    /// The state is one that the automaton has.
    pub open spec fn known_state(self) -> bool {
        ||| self.state == STATE_START
        ||| self.state == STATE_WORD
        ||| self.state == STATE_INTEGER
        ||| self.state == STATE_POINT
        ||| self.state == STATE_FRACTION
        ||| self.state == STATE_GREATER_EQUAL
        ||| self.state == STATE_LESS_EQUAL
        ||| self.state == STATE_NOT_EQUAL
        ||| self.state == STATE_ASSIGN
        ||| self.state == STATE_COMMENT
    }

    /// The character `c` is what the state was entered for: every state but
    /// the start state and the comment state is entered on the strength of
    /// the lookahead.
    pub open spec fn awaits(self, c: char) -> bool {
        if self.state == STATE_WORD {
            spec_is_word_part(c)
        } else if self.state == STATE_INTEGER || self.state == STATE_FRACTION {
            spec_is_digit(c)
        } else if self.state == STATE_POINT {
            c == '.'
        } else if self.state == STATE_GREATER_EQUAL || self.state == STATE_LESS_EQUAL || self.state
            == STATE_ASSIGN {
            c == '='
        } else if self.state == STATE_NOT_EQUAL {
            c == '>'
        } else {
            true
        }
    }

    /// What every configuration that the scanner reaches satisfies: the place
    /// lies within what has been read, the buffered characters all stand on
    /// the current line, only the buffering states hold a buffer, and a
    /// state that was entered for the next character finds it there.
    pub open spec fn wf(self) -> bool {
        &&& self.position <= self.input.len()
        &&& 1 <= self.line <= self.position + 1
        &&& 1 <= self.column <= self.position + 1
        &&& self.buffer.len() < self.column
        &&& !(1 <= self.state <= 4) ==> self.buffer.len() == 0
        &&& (self.state == STATE_GREATER_EQUAL || self.state == STATE_LESS_EQUAL || self.state
            == STATE_NOT_EQUAL || self.state == STATE_ASSIGN) ==> self.column >= 2
        &&& self.known_state()
        &&& (self.state != STATE_START && self.state != STATE_COMMENT) ==> !self.exhausted()
            && self.awaits(self.current())
    }

    /// Nothing is left to read.
    pub open spec fn exhausted(self) -> bool {
        self.position >= self.input.len()
    }

    /// The character about to be consumed.
    pub open spec fn current(self) -> char
        recommends
            !self.exhausted(),
    {
        self.input[self.position as int]
    }

    /// The character after the current one; a space stands in for it at the
    /// end of the input.
    pub open spec fn lookahead(self) -> char {
        if self.position + 1 < self.input.len() {
            self.input[self.position as int + 1]
        } else {
            ' '
        }
    }

    /// The buffer with the current character appended.
    pub open spec fn buffered(self) -> Seq<char> {
        self.buffer.push(self.current())
    }

    /// The column of the first buffered character, the current character
    /// being the last one.
    pub open spec fn buffer_column(self) -> nat {
        (self.column - self.buffer.len()) as nat
    }

    /// The automaton moves to `state` and nothing else changes.
    pub open spec fn goto(self, state: usize) -> ScannerView {
        ScannerView { state: state as nat, ..self }
    }

    /// The automaton moves to `state`, keeping the current character.
    pub open spec fn buffer_and_goto(self, state: usize) -> ScannerView {
        ScannerView { state: state as nat, buffer: self.buffered(), ..self }
    }

    /// A token on the current line is emitted; the buffer is emptied and the
    /// automaton returns to the start state.
    pub open spec fn emit(self, lexeme: Seq<char>, category: TokenType, column: nat) -> ScannerView {
        ScannerView {
            tokens: self.tokens.push(TokenView { lexeme, category, line: self.line, column }),
            state: STATE_START as nat,
            buffer: Seq::empty(),
            ..self
        }
    }

    /// The buffer, the current character included, is emitted as one token.
    /// A token's lexeme is trimmed text.
    pub open spec fn emit_buffered(self, category: TokenType) -> ScannerView {
        self.emit(spec_trim(self.buffered()), category, self.buffer_column())
    }

    /// The reaction of the start state to the current character.
    pub open spec fn react_start(self) -> Result<ScannerView, LexicalErrorView> {
        let c = self.current();
        let next = self.lookahead();
        if c == '\n' {
            Ok(ScannerView { line: self.line + 1, column: 0, ..self })
        } else if spec_is_whitespace(c) {
            Ok(self)
        } else if spec_is_word_start(c) {
            if !spec_is_word_part(next) {
                Ok(self.emit_buffered(TokenType::Identifier))
            } else {
                Ok(self.buffer_and_goto(STATE_WORD))
            }
        } else if spec_is_digit(c) {
            if next == '.' {
                Ok(self.buffer_and_goto(STATE_POINT))
            } else if !spec_is_digit(next) {
                Ok(self.emit_buffered(TokenType::Integer))
            } else {
                Ok(self.buffer_and_goto(STATE_INTEGER))
            }
        } else if c == '+' {
            Ok(self.emit("+"@, TokenType::AdditiveOperators, self.column))
        } else if c == '-' {
            Ok(self.emit("-"@, TokenType::AdditiveOperators, self.column))
        } else if c == '*' {
            Ok(self.emit("*"@, TokenType::MultiplicativeOperators, self.column))
        } else if c == '/' {
            Ok(self.emit("/"@, TokenType::MultiplicativeOperators, self.column))
        } else if c == '=' {
            Ok(self.emit("="@, TokenType::RelationalOperators, self.column))
        } else if c == '>' {
            if next == '=' {
                Ok(self.goto(STATE_GREATER_EQUAL))
            } else {
                Ok(self.emit(">"@, TokenType::RelationalOperators, self.column))
            }
        } else if c == '<' {
            if next == '=' {
                Ok(self.goto(STATE_LESS_EQUAL))
            } else if next == '>' {
                Ok(self.goto(STATE_NOT_EQUAL))
            } else {
                Ok(self.emit("<"@, TokenType::RelationalOperators, self.column))
            }
        } else if c == ':' {
            if next == '=' {
                Ok(self.goto(STATE_ASSIGN))
            } else {
                Ok(self.emit(":"@, TokenType::Delimiter, self.column))
            }
        } else if c == ',' {
            Ok(self.emit(","@, TokenType::Delimiter, self.column))
        } else if c == '.' {
            Ok(self.emit("."@, TokenType::Delimiter, self.column))
        } else if c == ';' {
            Ok(self.emit(";"@, TokenType::Delimiter, self.column))
        } else if c == '(' {
            Ok(self.emit("("@, TokenType::Delimiter, self.column))
        } else if c == ')' {
            Ok(self.emit(")"@, TokenType::Delimiter, self.column))
        } else if c == '{' {
            Ok(self.goto(STATE_COMMENT))
        } else {
            Err(LexicalErrorView::InvalidChar { character: c, line: self.line, column: self.column })
        }
    }

    /// The reaction of the automaton to the current character: the
    /// configuration with tokens, state, buffer and line brought up to date,
    /// before the place moves on.
    pub open spec fn react(self) -> Result<ScannerView, LexicalErrorView>
        recommends
            !self.exhausted(),
    {
        let c = self.current();
        let next = self.lookahead();
        if self.state == STATE_START {
            self.react_start()
        } else if self.state == STATE_WORD {
            if !spec_is_word_part(c) || !spec_is_word_part(next) {
                Ok(self.emit_buffered(classify_word(self.buffered())))
            } else {
                Ok(self.buffer_and_goto(STATE_WORD))
            }
        } else if self.state == STATE_INTEGER {
            if c == '.' || next == '.' {
                Ok(self.buffer_and_goto(STATE_POINT))
            } else if !spec_is_digit(next) {
                Ok(self.emit_buffered(TokenType::Integer))
            } else {
                Ok(self.buffer_and_goto(STATE_INTEGER))
            }
        } else if self.state == STATE_POINT {
            if spec_is_digit(next) {
                Ok(self.buffer_and_goto(STATE_FRACTION))
            } else {
                Ok(self.emit_buffered(TokenType::Real))
            }
        } else if self.state == STATE_FRACTION {
            if !spec_is_digit(next) {
                Ok(self.emit_buffered(TokenType::Real))
            } else {
                Ok(self.buffer_and_goto(STATE_FRACTION))
            }
        } else if self.state == STATE_GREATER_EQUAL {
            if c == '=' {
                Ok(self.emit(">="@, TokenType::RelationalOperators, (self.column - 1) as nat))
            } else {
                Ok(self)
            }
        } else if self.state == STATE_LESS_EQUAL {
            if c == '=' {
                Ok(self.emit("<="@, TokenType::RelationalOperators, (self.column - 1) as nat))
            } else {
                Ok(self)
            }
        } else if self.state == STATE_NOT_EQUAL {
            if c == '>' {
                Ok(self.emit("<>"@, TokenType::RelationalOperators, (self.column - 1) as nat))
            } else {
                Ok(self)
            }
        } else if self.state == STATE_ASSIGN {
            Ok(self.emit(":="@, TokenType::Assignment, (self.column - 1) as nat))
        } else if self.state == STATE_COMMENT {
            if c == '}' {
                Ok(self.goto(STATE_START))
            } else if c == '\n' {
                Err(LexicalErrorView::UnclosedComment { line: self.line })
            } else {
                Ok(self)
            }
        } else {
            Err(
                LexicalErrorView::InvalidState {
                    message: INVALID_STATE_MESSAGE@,
                    line: self.line,
                    column: self.column,
                },
            )
        }
    }

    /// One transition: the current character is consumed, the automaton
    /// reacts to it, and the place moves one column on. With nothing left to
    /// consume the transition fails.
    pub open spec fn step(self) -> Result<ScannerView, LexicalErrorView> {
        if self.exhausted() {
            Err(LexicalErrorView::EndOfInput)
        } else {
            match self.react() {
                Ok(t) => Ok(
                    ScannerView {
                        input: self.input,
                        position: self.position + 1,
                        column: t.column + 1,
                        ..t
                    },
                ),
                Err(e) => Err(e),
            }
        }
    }

    /// `count` transitions in a row.
    pub open spec fn steps(self, count: nat) -> Result<ScannerView, LexicalErrorView>
        decreases count,
    {
        if count == 0 {
            Ok(self)
        } else {
            match self.step() {
                Ok(t) => t.steps((count - 1) as nat),
                Err(e) => Err(e),
            }
        }
    }

    /// The configuration between tokens that is reached from this one, which
    /// is between tokens too, by reading one token with the given lexeme and
    /// category and nothing else.
    pub open spec fn after_token(self, lexeme: Seq<char>, category: TokenType) -> ScannerView {
        ScannerView {
            position: self.position + lexeme.len(),
            column: self.column + lexeme.len(),
            tokens: self.tokens.push(
                TokenView { lexeme, category, line: self.line, column: self.column },
            ),
            ..self
        }
    }

    /// The configuration reached from this one by reading `count` characters
    /// of the current line that leave no trace but in the place.
    pub open spec fn after_skipping(self, count: nat) -> ScannerView {
        ScannerView { position: self.position + count, column: self.column + count, ..self }
    }

    /// Transitions are taken, at least one, until the input is exhausted or
    /// one of them fails.
    pub open spec fn run(self) -> Result<ScannerView, LexicalErrorView>
        decreases self.input.len() - self.position,
    {
        match self.step() {
            Ok(t) => if t.exhausted() {
                Ok(t)
            } else {
                t.run()
            },
            Err(e) => Err(e),
        }
    }
}

/// The tokens of `input` in source order, or the reason why scanning stopped
/// at the first character that fits no token.
pub open spec fn scan(input: Seq<char>) -> Result<Seq<TokenView>, LexicalErrorView> {
    match ScannerView::initial(input).run() {
        Ok(s) => Ok(s.tokens),
        Err(e) => Err(e),
    }
}

/// A transition that succeeds keeps the configuration well formed.
pub proof fn lemma_step_wf(s: ScannerView)
    requires
        s.wf(),
        s.step() is Ok,
    ensures
        s.step()->Ok_0.wf(),
        s.step()->Ok_0.input == s.input,
        s.step()->Ok_0.position == s.position + 1,
{
}

/// A transition fails for one of three reasons only: nothing is left to
/// read, the character fits no token, or a line ends inside a comment. The
/// automaton never finds itself in a state that it does not have.
pub proof fn lemma_step_fails_by_input(s: ScannerView)
    requires
        s.wf(),
        s.step() is Err,
    ensures
        !(s.step()->Err_0 is InvalidState),
        s.step()->Err_0 is EndOfInput <==> s.exhausted(),
{
}

/// A scan ends with all of the input read and with no token in the making:
/// the automaton is between tokens, or inside a comment that the input
/// leaves open. Nothing that was buffered is lost. A scan that fails does so
/// for one of the three reasons for which a transition fails.
pub proof fn lemma_run_ends_between_tokens(s: ScannerView)
    requires
        s.wf(),
    ensures
        match s.run() {
            Ok(t) => {
                &&& t.wf()
                &&& t.input == s.input
                &&& t.position == t.input.len()
                &&& t.state == STATE_START || t.state == STATE_COMMENT
                &&& t.buffer.len() == 0
            },
            Err(e) => !(e is InvalidState) && (e is EndOfInput <==> s.exhausted()),
        },
    decreases s.input.len() - s.position,
{
    match s.step() {
        Ok(t) => {
            lemma_step_wf(s);
            if !t.exhausted() {
                lemma_run_ends_between_tokens(t);
            }
        },
        Err(_) => {
            lemma_step_fails_by_input(s);
        },
    }
}

} // verus!
