//! The parser's state as plain values, and what each of its elementary
//! operations does to it.

use vstd::prelude::*;
use crate::common::symbol::SymbolView;
use crate::common::token::{TokenType, TokenView};
use crate::syntactic::error::{ExpectationView, Fault, Operation, SyntaxErrorView};
use crate::syntactic::scope::{close_scope, declared_in_scope, has_scope, lookup, with_types};

verus! {

/// The state of a parse.
pub struct ParserView {
    /// The tokens not consumed yet, the next one first.
    pub tokens: Seq<TokenView>,
    /// The symbol table, the bottom of the stack first.
    pub symbols: Seq<SymbolView>,
    /// The type stack, the bottom of the stack first.
    pub types: Seq<Seq<char>>,
    pub program_name: Seq<char>,
    /// How many declared identifiers await their type.
    pub pending: nat,
}

/// The state after a step of the parse, or the error that ended it.
pub type Outcome = Result<ParserView, SyntaxErrorView>;

/// A consumed token with the state after it, or the error that ended the
/// parse.
pub type Consumed = Result<(TokenView, ParserView), SyntaxErrorView>;

/// The type of whole numbers.
pub const INTEGER: &'static str = "integer";

/// The type of numbers with a fraction.
pub const REAL: &'static str = "real";

/// The type of truth values.
pub const BOOLEAN: &'static str = "boolean";

/// `type_text` is one of the two number types.
pub open spec fn is_number(type_text: Seq<char>) -> bool {
    type_text == INTEGER@ || type_text == REAL@
}

/// The type of an arithmetic operation on operands of types `left` and
/// `right`: none unless both are numbers; the common type if they agree;
/// `real` if they are mixed.
pub open spec fn arithmetic_type(left: Seq<char>, right: Seq<char>) -> Option<Seq<char>> {
    if !is_number(left) || !is_number(right) {
        None
    } else if left == right {
        Some(left)
    } else {
        Some(REAL@)
    }
}

/// The type of a comparison: `boolean`, provided both operands are numbers.
pub open spec fn relational_type(left: Seq<char>, right: Seq<char>) -> Option<Seq<char>> {
    if is_number(left) && is_number(right) {
        Some(BOOLEAN@)
    } else {
        None
    }
}

/// The type of a logical operation: `boolean`, provided both operands are.
pub open spec fn logic_type(left: Seq<char>, right: Seq<char>) -> Option<Seq<char>> {
    if left == BOOLEAN@ && right == BOOLEAN@ {
        Some(BOOLEAN@)
    } else {
        None
    }
}

/// The type that a binary operation of the given family gives on operands
/// of types `left` and `right`, if it takes them.
pub open spec fn result_type(operation: Operation, left: Seq<char>, right: Seq<char>) -> Option<
    Seq<char>,
> {
    match operation {
        Operation::Arithmetic => arithmetic_type(left, right),
        Operation::Relational => relational_type(left, right),
        Operation::Logic => logic_type(left, right),
        Operation::Assignment => if left == right {
            Some(left)
        } else {
            None
        },
    }
}

/// `after`, provided it holds no more tokens than `before`. Productions only
/// ever consume tokens; where one production follows another the grammar
/// says so, which is what makes its recursion well founded.
pub open spec fn bounded(before: ParserView, after: Outcome) -> Outcome {
    match after {
        Ok(s) => if s.tokens.len() <= before.tokens.len() {
            Ok(s)
        } else {
            Err(SyntaxErrorView::Internal(Fault::InputGrew))
        },
        Err(e) => Err(e),
    }
}

/// `after`, provided it holds fewer tokens than `before`.
pub open spec fn shortened(before: ParserView, after: Outcome) -> Outcome {
    match after {
        Ok(s) => if s.tokens.len() < before.tokens.len() {
            Ok(s)
        } else {
            Err(SyntaxErrorView::Internal(Fault::InputGrew))
        },
        Err(e) => Err(e),
    }
}

impl ParserView {
    /// The state before anything of `tokens` has been consumed.
    pub open spec fn initial(tokens: Seq<TokenView>) -> ParserView {
        ParserView {
            tokens,
            symbols: Seq::empty(),
            types: Seq::empty(),
            program_name: Seq::empty(),
            pending: 0,
        }
    }

    /// The counters of a parser in this state cannot overflow: every
    /// identifier that awaits its type was a token once.
    pub open spec fn wf(self) -> bool {
        self.pending + self.tokens.len() <= usize::MAX
    }

    /// The next token, which stays where it is.
    pub open spec fn peek(self) -> Result<TokenView, SyntaxErrorView> {
        if self.tokens.len() == 0 {
            Err(SyntaxErrorView::UnexpectedEndOfFile)
        } else {
            Ok(self.tokens[0])
        }
    }

    /// The state with the next token consumed.
    pub open spec fn advance(self) -> ParserView
        recommends
            self.tokens.len() > 0,
    {
        ParserView { tokens: self.tokens.drop_first(), ..self }
    }

    /// Consumes the next token, which must fit `fits`; `expected` is what
    /// the error names otherwise.
    pub open spec fn consume_if(self, fits: bool, expected: ExpectationView) -> Consumed {
        if self.tokens.len() == 0 {
            Err(SyntaxErrorView::UnexpectedEndOfFile)
        } else if !fits {
            Err(SyntaxErrorView::UnexpectedToken { expected, found: self.tokens[0] })
        } else {
            Ok((self.tokens[0], self.advance()))
        }
    }

    /// Consumes the token with this category and this lexeme.
    pub open spec fn consume(self, category: TokenType, lexeme: Seq<char>) -> Consumed {
        self.consume_if(
            self.tokens.len() > 0 && self.tokens[0].category == category && self.tokens[0].lexeme
                == lexeme,
            ExpectationView::Exactly { category, lexeme },
        )
    }

    /// Consumes an identifier.
    pub open spec fn consume_identifiers(self) -> Consumed {
        self.consume_if(
            self.tokens.len() > 0 && self.tokens[0].category == TokenType::Identifier,
            ExpectationView::Identifier,
        )
    }

    /// Consumes a token of the given category.
    pub open spec fn consume_by_type(self, category: TokenType) -> Consumed {
        self.consume_if(
            self.tokens.len() > 0 && self.tokens[0].category == category,
            ExpectationView::Category(category),
        )
    }

    /// Consumes the token with this category and this lexeme, and lets it go.
    pub open spec fn expect(self, category: TokenType, lexeme: Seq<char>) -> Outcome {
        match self.consume(category, lexeme) {
            Ok((_, s)) => Ok(s),
            Err(e) => Err(e),
        }
    }

    /// One more declared identifier awaits its type.
    pub open spec fn one_more_pending(self) -> ParserView {
        ParserView { pending: self.pending + 1, ..self }
    }

    /// The program is called `name`.
    pub open spec fn named(self, name: Seq<char>) -> ParserView {
        ParserView { program_name: name, ..self }
    }

    /// A new scope is opened on top of the symbol table.
    pub open spec fn open_scope(self) -> ParserView {
        ParserView { symbols: self.symbols.push(SymbolView::EOS), ..self }
    }

    /// `symbol` is declared in the current scope, unless the scope declares
    /// its name already.
    pub open spec fn add_symbol(self, symbol: SymbolView) -> Outcome {
        match declared_in_scope(self.symbols, symbol) {
            Some(found) => Err(SyntaxErrorView::AlreadyDeclared { declaration: found->token }),
            None => Ok(ParserView { symbols: self.symbols.push(symbol), ..self }),
        }
    }

    /// The identifiers that await their type get `type_text`: they are the
    /// topmost entries of the symbol table, as many as are pending.
    pub open spec fn update_symbols_type(self, type_text: Seq<char>) -> Outcome {
        if self.pending >= self.symbols.len() {
            Err(SyntaxErrorView::Internal(Fault::PendingBeyondTable))
        } else {
            Ok(
                ParserView {
                    symbols: with_types(self.symbols, type_text, self.pending),
                    pending: 0,
                    ..self
                },
            )
        }
    }

    /// The declaration that the reference `symbol` resolves to: the nearest
    /// one, innermost scope first. The program's own name resolves to
    /// nothing.
    pub open spec fn find_symbol(self, symbol: SymbolView) -> Result<SymbolView, SyntaxErrorView>
        recommends
            symbol is Identifier,
    {
        let token = symbol->token;
        if token.lexeme == self.program_name {
            Err(SyntaxErrorView::ProgramNameUsed { line: token.line, column: token.column })
        } else {
            match lookup(self.symbols, symbol) {
                Some(found) => Ok(found),
                None => Err(SyntaxErrorView::UndeclaredIdentifier { reference: token }),
            }
        }
    }

    /// The current scope is closed: its declarations and its marker leave
    /// the symbol table.
    pub open spec fn remove_scope(self) -> Outcome {
        if has_scope(self.symbols) {
            Ok(ParserView { symbols: close_scope(self.symbols), ..self })
        } else {
            Err(SyntaxErrorView::Internal(Fault::ScopeUnderflow))
        }
    }

    /// `type_text` is pushed on the type stack.
    pub open spec fn push_type(self, type_text: Seq<char>) -> ParserView {
        ParserView { types: self.types.push(type_text), ..self }
    }

    /// The topmost type leaves the type stack, if there is one.
    pub open spec fn pop_type(self) -> ParserView {
        if self.types.len() == 0 {
            self
        } else {
            ParserView { types: self.types.drop_last(), ..self }
        }
    }

    /// The type rule of `operation` is applied to the two topmost types of
    /// the stack, the left operand below the right one. Both leave the
    /// stack, and but for an assignment the type of the result takes their
    /// place. `line` and `column` are the operator's, for the error.
    pub open spec fn check(self, operation: Operation, line: nat, column: nat) -> Outcome {
        if self.types.len() < 2 {
            Err(SyntaxErrorView::MissingOperand { operation, line, column })
        } else {
            let right = self.types[self.types.len() - 1];
            let left = self.types[self.types.len() - 2];
            let rest = self.types.take(self.types.len() - 2);
            match result_type(operation, left, right) {
                None => Err(
                    SyntaxErrorView::OperandMismatch { operation, left, right, line, column },
                ),
                Some(result) => Ok(
                    ParserView {
                        types: if operation == Operation::Assignment {
                            rest
                        } else {
                            rest.push(result)
                        },
                        ..self
                    },
                ),
            }
        }
    }
}

} // verus!
