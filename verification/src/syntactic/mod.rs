//! The parser: syntax, scopes and types in one traversal of the tokens.

pub mod error;
pub mod grammar;
pub mod laws;
pub mod model;
pub mod productions;
pub mod progress;
pub mod scope;
pub mod symbols;

use vstd::prelude::*;
use vstd::string::*;
use crate::common::symbol::{symbol_views, Symbol, SymbolView};
use crate::common::text::str_eq;
use crate::common::token::{token_views, Token, TokenType, TokenView};
use crate::syntactic::error::{Expectation, Fault, Operation, SyntaxError, SyntaxErrorView};
use crate::syntactic::model::{Consumed, Outcome, ParserView, BOOLEAN, INTEGER, REAL};
use crate::syntactic::scope::{close_scope, declared_in_scope, has_scope, lookup, with_types};

verus! {

/// A parser over one sequence of tokens. It owns the symbol table and the
/// type stack of the parse.
pub struct Parser {
    /// The tokens not consumed yet, the next one last.
    tokens_buffer: Vec<Token>,
    symbol_table: Vec<Symbol>,
    control_type_stack: Vec<String>,
    program_name: String,
    /// How many declared identifiers await their type.
    amount: usize,
}

/// The views of a stack of type names, in the same order.
pub open spec fn type_views(types: Seq<String>) -> Seq<Seq<char>> {
    types.map_values(|t: String| t@)
}

/// The views of a buffer of tokens, the last one first.
pub open spec fn reversed_views(buffer: Seq<Token>) -> Seq<TokenView> {
    Seq::new(buffer.len(), |i: int| buffer[buffer.len() - 1 - i]@)
}

impl View for Parser {
    type V = ParserView;

    closed spec fn view(&self) -> ParserView {
        ParserView {
            tokens: reversed_views(self.tokens_buffer@),
            symbols: symbol_views(self.symbol_table@),
            types: type_views(self.control_type_stack@),
            program_name: self.program_name@,
            pending: self.amount as nat,
        }
    }
}

/// The result `r` and the state `after` are what `expected` says: the same
/// state on success, the same error on failure.
pub open spec fn agrees(expected: Outcome, r: Result<(), SyntaxError>, after: ParserView) -> bool {
    match expected {
        Ok(s) => r is Ok && after == s,
        Err(e) => r is Err && r->Err_0@ == e,
    }
}

/// The token `r` and the state `after` are what `expected` says: the same
/// token and state on success, the same error on failure.
pub open spec fn agrees_on_token(
    expected: Consumed,
    r: Result<Token, SyntaxError>,
    after: ParserView,
) -> bool {
    match expected {
        Ok((token, s)) => r is Ok && r->Ok_0@ == token && after == s,
        Err(e) => r is Err && r->Err_0@ == e,
    }
}

/// What every production owes: the parser stays well formed, result and
/// state are what the grammar says, and no token has come back.
pub open spec fn follows(
    before: ParserView,
    expected: Outcome,
    r: Result<(), SyntaxError>,
    after: ParserView,
) -> bool {
    &&& after.wf()
    &&& agrees(expected, r, after)
    &&& r is Ok ==> after.tokens.len() <= before.tokens.len()
}

impl Parser {
    /// The counters of the parser cannot overflow.
    pub open spec fn wf(&self) -> bool {
        self@.wf()
    }

    /// A parser that has consumed nothing of `tokens` yet.
    pub fn new(tokens: &Vec<Token>) -> (r: Self)
        ensures
            r.wf(),
            r@ == ParserView::initial(token_views(tokens@)),
    {
        let mut buffer: Vec<Token> = Vec::new();
        let mut i: usize = tokens.len();
        while i > 0
            invariant
                i <= tokens.len(),
                buffer@.len() == tokens.len() - i,
                forall|k: int| 0 <= k < buffer@.len() ==> buffer@[k] == tokens@[tokens.len() - 1 - k],
            decreases i,
        {
            i -= 1;
            buffer.push(tokens[i].clone());
        }
        let r = Self {
            tokens_buffer: buffer,
            symbol_table: Vec::new(),
            control_type_stack: Vec::new(),
            program_name: String::new(),
            amount: 0,
        };
        proof {
            assert(r@.tokens =~= token_views(tokens@));
            assert(r@.symbols =~= Seq::empty());
            assert(r@.types =~= Seq::empty());
        }
        r
    }

    /// A copy of the symbol table, the bottom of the stack first.
    pub fn symbol_table(&self) -> (r: Vec<Symbol>)
        ensures
            symbol_views(r@) == self@.symbols,
    {
        let mut r: Vec<Symbol> = Vec::new();
        let mut i: usize = 0;
        while i < self.symbol_table.len()
            invariant
                i <= self.symbol_table.len(),
                r@ == self.symbol_table@.take(i as int),
            decreases self.symbol_table.len() - i,
        {
            r.push(self.symbol_table[i].clone());
            proof {
                assert(r@ =~= self.symbol_table@.take(i + 1));
            }
            i += 1;
        }
        proof {
            assert(self.symbol_table@.take(self.symbol_table.len() as int) =~= self.symbol_table@);
        }
        r
    }

    /// A copy of the next token, which stays where it is.
    pub fn peek(&self) -> (r: Result<Token, SyntaxError>)
        ensures
            match self@.peek() {
                Ok(token) => r is Ok && r->Ok_0@ == token,
                Err(e) => r is Err && r->Err_0@ == e,
            },
    {
        let n = self.tokens_buffer.len();
        if n == 0 {
            Err(SyntaxError::UnexpectedEndOfFile)
        } else {
            Ok(self.tokens_buffer[n - 1].clone())
        }
    }

    /// Takes the next token, if there is one.
    pub fn pop(&mut self) -> (r: Option<Token>)
        requires
            old(self).wf(),
        ensures
            final(self).wf(),
            match r {
                Some(token) => old(self)@.tokens.len() > 0 && token@ == old(self)@.tokens[0]
                    && final(self)@ == old(self)@.advance(),
                None => old(self)@.tokens.len() == 0 && final(self)@ == old(self)@,
            },
    {
        let r = self.tokens_buffer.pop();
        proof {
            if r is Some {
                assert(self@.tokens =~= old(self)@.tokens.drop_first());
            } else {
                assert(self@.tokens =~= old(self)@.tokens);
            }
        }
        r
    }

    /// Consumes the next token, which must have the given category and
    /// lexeme.
    pub fn consume(&mut self, expected_type: TokenType, expected_lexeme: &str) -> (r: Result<
        Token,
        SyntaxError,
    >)
        requires
            old(self).wf(),
        ensures
            final(self).wf(),
            agrees_on_token(old(self)@.consume(expected_type, expected_lexeme@), r, final(self)@),
    {
        match self.pop() {
            None => Err(SyntaxError::UnexpectedEndOfFile),
            Some(value) => {
                if !(value.is_type_of(expected_type) && str_eq(value.get_lexeme(), expected_lexeme)) {
                    return Err(
                        SyntaxError::UnexpectedToken {
                            expected: Expectation::Exactly {
                                category: expected_type,
                                lexeme: String::from_str(expected_lexeme),
                            },
                            found: value,
                        },
                    );
                }
                Ok(value)
            },
        }
    }

    /// Consumes the next token, which must be an identifier.
    pub fn consume_identifiers(&mut self) -> (r: Result<Token, SyntaxError>)
        requires
            old(self).wf(),
        ensures
            final(self).wf(),
            agrees_on_token(old(self)@.consume_identifiers(), r, final(self)@),
    {
        match self.pop() {
            None => Err(SyntaxError::UnexpectedEndOfFile),
            Some(value) => {
                if !value.is_type_of(TokenType::Identifier) {
                    return Err(
                        SyntaxError::UnexpectedToken {
                            expected: Expectation::Identifier,
                            found: value,
                        },
                    );
                }
                Ok(value)
            },
        }
    }

    /// Consumes the next token, which must have the given category.
    pub fn consume_by_type(&mut self, expected_type: TokenType) -> (r: Result<Token, SyntaxError>)
        requires
            old(self).wf(),
        ensures
            final(self).wf(),
            agrees_on_token(old(self)@.consume_by_type(expected_type), r, final(self)@),
    {
        match self.pop() {
            None => Err(SyntaxError::UnexpectedEndOfFile),
            Some(value) => {
                if !value.is_type_of(expected_type) {
                    return Err(
                        SyntaxError::UnexpectedToken {
                            expected: Expectation::Category(expected_type),
                            found: value,
                        },
                    );
                }
                Ok(value)
            },
        }
    }

    /// Opens a new scope on top of the symbol table.
    pub fn open_scope(&mut self)
        ensures
            final(self)@ == old(self)@.open_scope(),
    {
        self.symbol_table.push(Symbol::EOS);
        proof {
            assert(self@.symbols =~= old(self)@.symbols.push(SymbolView::EOS));
        }
    }

    /// Declares `symbol` in the current scope. Fails, naming the earlier
    /// declaration, if the scope declares the same name already.
    pub fn add_symbol(&mut self, symbol: Symbol) -> (r: Result<(), SyntaxError>)
        requires
            symbol@ is Identifier,
        ensures
            agrees(old(self)@.add_symbol(symbol@), r, final(self)@),
            final(self)@.tokens == old(self)@.tokens,
            final(self)@.pending == old(self)@.pending,
    {
        let mut i: usize = self.symbol_table.len();
        let mut in_scope = true;
        proof {
            assert(self@.symbols.take(i as int) =~= self@.symbols);
        }
        while i > 0 && in_scope
            invariant
                self@ == old(self)@,
                i <= self.symbol_table.len(),
                in_scope ==> declared_in_scope(self@.symbols, symbol@) == declared_in_scope(
                    self@.symbols.take(i as int),
                    symbol@,
                ),
                !in_scope ==> declared_in_scope(self@.symbols, symbol@) is None,
            decreases i,
        {
            proof {
                assert(self@.symbols.take(i as int).drop_last() =~= self@.symbols.take(i - 1));
                assert(self@.symbols.take(i as int).last() == self.symbol_table@[i - 1]@);
            }
            i -= 1;
            match &self.symbol_table[i] {
                Symbol::EOS => {
                    in_scope = false;
                },
                Symbol::Identifier(declared) => {
                    if self.symbol_table[i] == symbol {
                        return Err(
                            SyntaxError::AlreadyDeclared { declaration: declared.token.clone() },
                        );
                    }
                },
            }
        }
        self.symbol_table.push(symbol);
        proof {
            assert(self@.symbols =~= old(self)@.symbols.push(symbol@));
        }
        Ok(())
    }

    /// Gives the identifiers that await their type the type `symbol_type`:
    /// they are the topmost entries of the symbol table, as many as are
    /// pending. Fails if the table has not more entries than that.
    pub fn update_symbols_type(&mut self, symbol_type: &str) -> (r: Result<(), SyntaxError>)
        requires
            old(self).wf(),
        ensures
            final(self).wf(),
            agrees(old(self)@.update_symbols_type(symbol_type@), r, final(self)@),
            final(self)@.tokens == old(self)@.tokens,
    {
        let n: usize = self.symbol_table.len();
        if self.amount >= n {
            return Err(SyntaxError::Internal(Fault::PendingBeyondTable));
        }
        let total: usize = self.amount;
        let mut done: usize = 0;
        while done < total
            invariant
                n == self.symbol_table.len(),
                done <= total < n,
                self.amount == total,
                self@.tokens == old(self)@.tokens,
                self@.types == old(self)@.types,
                self@.program_name == old(self)@.program_name,
                self@.pending == old(self)@.pending,
                old(self)@.symbols.len() == n,
                self@.symbols == with_types(old(self)@.symbols, symbol_type@, done as nat),
            decreases total - done,
        {
            let index: usize = n - 1 - done;
            let ghost before = self@.symbols;
            let mut entry = self.symbol_table[index].clone();
            entry.change_type(symbol_type);
            self.symbol_table.set(index, entry);
            done += 1;
            proof {
                let after = with_types(old(self)@.symbols, symbol_type@, done as nat);
                assert(before[index as int] == old(self)@.symbols[index as int]);
                assert(self@.symbols =~= before.update(index as int, entry@));
                assert forall|k: int| 0 <= k < n implies self@.symbols[k] == after[k] by {
                    if k != index {
                        assert(self@.symbols[k] == before[k]);
                    }
                }
                assert(self@.symbols =~= after);
            }
        }
        self.amount = 0;
        Ok(())
    }

    /// Resolves the reference `symbol` to the nearest declaration of its
    /// name, innermost scope first. The program's own name is refused.
    pub fn find_symbol(&self, symbol: &Symbol) -> (r: Result<Symbol, SyntaxError>)
        requires
            symbol@ is Identifier,
        ensures
            match self@.find_symbol(symbol@) {
                Ok(found) => r is Ok && r->Ok_0@ == found && found.same_symbol(symbol@),
                Err(e) => r is Err && r->Err_0@ == e,
            },
    {
        let reference = match symbol {
            Symbol::Identifier(s) => s.token.clone(),
            Symbol::EOS => Token::default(),
        };
        if str_eq(reference.get_lexeme(), self.program_name.as_str()) {
            return Err(
                SyntaxError::ProgramNameUsed {
                    line: reference.get_line(),
                    column: reference.get_column(),
                },
            );
        }
        let mut i: usize = self.symbol_table.len();
        proof {
            assert(self@.symbols.take(i as int) =~= self@.symbols);
        }
        while i > 0
            invariant
                i <= self.symbol_table.len(),
                symbol@ is Identifier,
                reference@ == symbol@->token,
                reference@.lexeme != self@.program_name,
                lookup(self@.symbols, symbol@) == lookup(self@.symbols.take(i as int), symbol@),
            decreases i,
        {
            proof {
                assert(self@.symbols.take(i as int).drop_last() =~= self@.symbols.take(i - 1));
                assert(self@.symbols.take(i as int).last() == self.symbol_table@[i - 1]@);
            }
            i -= 1;
            if self.symbol_table[i] == *symbol {
                return Ok(self.symbol_table[i].clone());
            }
        }
        Err(SyntaxError::UndeclaredIdentifier { reference })
    }

    /// Closes the current scope: pops the symbol table down to and
    /// including the topmost scope marker. Fails if there is none.
    pub fn remove_scope(&mut self) -> (r: Result<(), SyntaxError>)
        ensures
            agrees(old(self)@.remove_scope(), r, final(self)@),
            final(self)@.tokens == old(self)@.tokens,
            final(self)@.pending == old(self)@.pending,
    {
        loop
            invariant
                self@.tokens == old(self)@.tokens,
                self@.types == old(self)@.types,
                self@.program_name == old(self)@.program_name,
                self@.pending == old(self)@.pending,
                has_scope(self@.symbols) == has_scope(old(self)@.symbols),
                close_scope(self@.symbols) == close_scope(old(self)@.symbols),
            decreases self.symbol_table.len(),
        {
            let ghost before = self@.symbols;
            match self.symbol_table.pop() {
                None => {
                    return Err(SyntaxError::Internal(Fault::ScopeUnderflow));
                },
                Some(entry) => {
                    proof {
                        assert(self@.symbols =~= before.drop_last());
                        assert(entry@ == before.last());
                    }
                    if entry.is_eos() {
                        return Ok(());
                    }
                },
            }
        }
    }

    /// Pushes the type `type_text` on the type stack.
    pub fn push_type(&mut self, type_text: String)
        ensures
            final(self)@ == old(self)@.push_type(type_text@),
    {
        self.control_type_stack.push(type_text);
        proof {
            assert(self@.types =~= old(self)@.types.push(type_text@));
        }
    }

    /// Drops the topmost type of the type stack, if there is one.
    pub fn pop_type(&mut self) -> (r: Option<String>)
        ensures
            final(self)@ == old(self)@.pop_type(),
            match r {
                Some(t) => old(self)@.types.len() > 0 && t@ == old(self)@.types.last(),
                None => old(self)@.types.len() == 0,
            },
    {
        let r = self.control_type_stack.pop();
        proof {
            if r is Some {
                assert(self@.types =~= old(self)@.types.drop_last());
            } else {
                assert(self@.types =~= old(self)@.types);
            }
        }
        r
    }

    /// Takes the two operands of an operator off the type stack: the right
    /// one, which lies on top, and the left one below it.
    fn pop_operands(&mut self, operation: Operation, line: usize, column: usize) -> (r: Result<
        (String, String),
        SyntaxError,
    >)
        ensures
            final(self)@.tokens == old(self)@.tokens,
            final(self)@.symbols == old(self)@.symbols,
            final(self)@.program_name == old(self)@.program_name,
            final(self)@.pending == old(self)@.pending,
            match r {
                Ok((first, second)) => {
                    &&& old(self)@.types.len() >= 2
                    &&& first@ == old(self)@.types[old(self)@.types.len() - 1]
                    &&& second@ == old(self)@.types[old(self)@.types.len() - 2]
                    &&& final(self)@.types == old(self)@.types.take(old(self)@.types.len() - 2)
                },
                Err(e) => old(self)@.types.len() < 2 && e@ == (SyntaxErrorView::MissingOperand {
                    operation,
                    line: line as nat,
                    column: column as nat,
                }),
            },
    {
        let first = match self.pop_type() {
            None => {
                return Err(SyntaxError::MissingOperand { operation, line, column });
            },
            Some(t) => t,
        };
        let second = match self.pop_type() {
            None => {
                return Err(SyntaxError::MissingOperand { operation, line, column });
            },
            Some(t) => t,
        };
        proof {
            let types = old(self)@.types;
            assert(self@.types =~= types.take(types.len() - 2));
        }
        Ok((first, second))
    }

    /// Applies the rule of the arithmetic operators to the two topmost
    /// types: both must be numbers; the result is their common type, or
    /// `real` if they are mixed.
    pub fn check_arithmetics(&mut self, line: usize, column: usize) -> (r: Result<(), SyntaxError>)
        ensures
            agrees(old(self)@.check(Operation::Arithmetic, line as nat, column as nat), r, final(self)@),
            final(self)@.tokens == old(self)@.tokens,
            final(self)@.pending == old(self)@.pending,
    {
        let (first, second) = match self.pop_operands(Operation::Arithmetic, line, column) {
            Err(e) => {
                return Err(e);
            },
            Ok(pair) => pair,
        };
        let first_is_integer = str_eq(first.as_str(), INTEGER);
        let first_is_real = str_eq(first.as_str(), REAL);
        let second_is_integer = str_eq(second.as_str(), INTEGER);
        let second_is_real = str_eq(second.as_str(), REAL);
        if (first_is_integer || first_is_real) && first == second {
            self.push_type(first);
        } else if first_is_integer && second_is_real {
            self.push_type(second);
        } else if first_is_real && second_is_integer {
            self.push_type(first);
        } else {
            return Err(
                SyntaxError::OperandMismatch {
                    operation: Operation::Arithmetic,
                    left: second,
                    right: first,
                    line,
                    column,
                },
            );
        }
        Ok(())
    }

    /// Applies the rule of the relational operators to the two topmost
    /// types: both must be numbers; the result is `boolean`.
    pub fn check_relational(&mut self, line: usize, column: usize) -> (r: Result<(), SyntaxError>)
        ensures
            agrees(old(self)@.check(Operation::Relational, line as nat, column as nat), r, final(self)@),
            final(self)@.tokens == old(self)@.tokens,
            final(self)@.pending == old(self)@.pending,
    {
        let (first, second) = match self.pop_operands(Operation::Relational, line, column) {
            Err(e) => {
                return Err(e);
            },
            Ok(pair) => pair,
        };
        if (str_eq(first.as_str(), INTEGER) || str_eq(first.as_str(), REAL)) && (str_eq(
            second.as_str(),
            INTEGER,
        ) || str_eq(second.as_str(), REAL)) {
            self.push_type(String::from_str(BOOLEAN));
            return Ok(());
        }
        Err(
            SyntaxError::OperandMismatch {
                operation: Operation::Relational,
                left: second,
                right: first,
                line,
                column,
            },
        )
    }

    /// Applies the rule of the assignment to the two topmost types: the type
    /// of the value, on top, must be the type of the variable below it. Both
    /// leave the stack.
    pub fn check_atribuation(&mut self, line: usize, column: usize) -> (r: Result<(), SyntaxError>)
        ensures
            agrees(old(self)@.check(Operation::Assignment, line as nat, column as nat), r, final(self)@),
            final(self)@.tokens == old(self)@.tokens,
            final(self)@.pending == old(self)@.pending,
    {
        let (first, second) = match self.pop_operands(Operation::Assignment, line, column) {
            Err(e) => {
                return Err(e);
            },
            Ok(pair) => pair,
        };
        if first != second {
            return Err(
                SyntaxError::OperandMismatch {
                    operation: Operation::Assignment,
                    left: second,
                    right: first,
                    line,
                    column,
                },
            );
        }
        Ok(())
    }

    /// Applies the rule of the logical operators to the two topmost types:
    /// both must be `boolean`, and so is the result.
    pub fn check_logic(&mut self, line: usize, column: usize) -> (r: Result<(), SyntaxError>)
        ensures
            agrees(old(self)@.check(Operation::Logic, line as nat, column as nat), r, final(self)@),
            final(self)@.tokens == old(self)@.tokens,
            final(self)@.pending == old(self)@.pending,
    {
        let (first, second) = match self.pop_operands(Operation::Logic, line, column) {
            Err(e) => {
                return Err(e);
            },
            Ok(pair) => pair,
        };
        if !str_eq(first.as_str(), BOOLEAN) || !str_eq(second.as_str(), BOOLEAN) {
            return Err(
                SyntaxError::OperandMismatch {
                    operation: Operation::Logic,
                    left: second,
                    right: first,
                    line,
                    column,
                },
            );
        }
        self.push_type(first);
        Ok(())
    }

    /// Counts one more declared identifier that awaits its type.
    pub fn one_more_pending(&mut self)
        requires
            old(self)@.pending + old(self)@.tokens.len() < usize::MAX,
        ensures
            final(self)@ == old(self)@.one_more_pending(),
    {
        self.amount += 1;
    }

    /// Records the name of the program.
    pub fn set_program_name(&mut self, name: String)
        ensures
            final(self)@ == old(self)@.named(name@),
    {
        self.program_name = name;
    }
}

} // verus!
