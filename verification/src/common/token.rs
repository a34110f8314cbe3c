//! Tokens, the unit that the scanner hands to the parser.

use vstd::prelude::*;
use vstd::string::*;
use crate::common::text::{push_decimal, push_text, spec_decimal, spec_trim, trim};

verus! {

/// The category of a token.
#[derive(Debug, Copy, Clone, PartialEq, Eq, Structural)]
pub enum TokenType {
    /// program, var, integer, real, boolean, procedure, begin, end, if, then,
    /// else, while, do, not
    Keyword,
    Identifier,
    Integer,
    Real,
    /// true, false
    Boolean,
    /// ; . : ( ) ,
    Delimiter,
    /// = < > <= >= <>
    RelationalOperators,
    /// :=
    Assignment,
    /// + - or
    AdditiveOperators,
    /// * / and
    MultiplicativeOperators,
    /// No category determined yet; the scanner never emits it.
    Invalid,
}

impl Default for TokenType {
    fn default() -> (r: Self)
        ensures
            r == TokenType::Invalid,
    {
        TokenType::Invalid
    }
}

impl TokenType {
    /// The category's name as it appears in messages.
    pub open spec fn spec_name(self) -> Seq<char> {
        match self {
            TokenType::Keyword => "Keyword"@,
            TokenType::Identifier => "Identifier"@,
            TokenType::Integer => "Integer"@,
            TokenType::Real => "Real"@,
            TokenType::Boolean => "Boolean"@,
            TokenType::Delimiter => "Delimiter"@,
            TokenType::RelationalOperators => "Relational Operators"@,
            TokenType::Assignment => "Assignment"@,
            TokenType::AdditiveOperators => "Additive Operators"@,
            TokenType::MultiplicativeOperators => "Multiplicative Operators"@,
            TokenType::Invalid => "Invalid"@,
        }
    }

    pub fn name(&self) -> (r: &'static str)
        ensures
            r@ == self.spec_name(),
    {
        match self {
            TokenType::Keyword => "Keyword",
            TokenType::Identifier => "Identifier",
            TokenType::Integer => "Integer",
            TokenType::Real => "Real",
            TokenType::Boolean => "Boolean",
            TokenType::Delimiter => "Delimiter",
            TokenType::RelationalOperators => "Relational Operators",
            TokenType::Assignment => "Assignment",
            TokenType::AdditiveOperators => "Additive Operators",
            TokenType::MultiplicativeOperators => "Multiplicative Operators",
            TokenType::Invalid => "Invalid",
        }
    }

    pub fn to_string(&self) -> (r: String)
        ensures
            r@ == self.spec_name(),
    {
        String::from_str(self.name())
    }
}

/// A lexeme with its category and the place where it starts.
#[derive(Debug)]
pub struct Token {
    lexeme: String,
    category: TokenType,
    line: usize,
    column: usize,
}

/// What a token holds, as plain values.
pub struct TokenView {
    pub lexeme: Seq<char>,
    pub category: TokenType,
    /// 1-based line of the lexeme.
    pub line: nat,
    /// 1-based column of the first character of the lexeme.
    pub column: nat,
}

impl View for Token {
    type V = TokenView;

    closed spec fn view(&self) -> TokenView {
        TokenView {
            lexeme: self.lexeme@,
            category: self.category,
            line: self.line as nat,
            column: self.column as nat,
        }
    }
}

/// The views of a sequence of tokens, in the same order.
pub open spec fn token_views(tokens: Seq<Token>) -> Seq<TokenView> {
    tokens.map_values(|t: Token| t@)
}

impl TokenView {
    /// The token as it reads when printed.
    pub open spec fn text(self) -> Seq<char> {
        "['"@ + self.lexeme + "', "@ + self.category.spec_name() + ", line: "@ + spec_decimal(
            self.line,
        ) + ", column: "@ + spec_decimal(self.column) + "]"@
    }

    /// Two tokens are the same token when lexeme and category agree; where
    /// they stand in the source does not count.
    pub open spec fn same_token(self, other: TokenView) -> bool {
        self.lexeme == other.lexeme && self.category == other.category
    }
}

impl Token {
    /// A token of the given category at the given place. White space around
    /// the lexeme is dropped.
    pub fn new(lexeme: &str, category: TokenType, line: usize, column: usize) -> (r: Self)
        ensures
            r@ == (TokenView {
                lexeme: spec_trim(lexeme@),
                category,
                line: line as nat,
                column: column as nat,
            }),
    {
        Token { lexeme: trim(lexeme), category, line, column }
    }

    pub fn is_type_of(&self, token_type: TokenType) -> (r: bool)
        ensures
            r == (self@.category == token_type),
    {
        self.category == token_type
    }

    pub fn get_lexeme(&self) -> (r: &str)
        ensures
            r@ == self@.lexeme,
    {
        self.lexeme.as_str()
    }

    pub fn get_type(&self) -> (r: TokenType)
        ensures
            r == self@.category,
    {
        self.category
    }

    pub fn get_line(&self) -> (r: usize)
        ensures
            r == self@.line,
    {
        self.line
    }

    pub fn get_column(&self) -> (r: usize)
        ensures
            r == self@.column,
    {
        self.column
    }

    /// The token as it reads when printed: lexeme, category and place.
    pub fn to_string(&self) -> (r: String)
        ensures
            r@ == self@.text(),
    {
        let mut text = String::from_str("['");
        push_text(&mut text, self.lexeme.as_str());
        push_text(&mut text, "', ");
        push_text(&mut text, self.category.name());
        push_text(&mut text, ", line: ");
        push_decimal(&mut text, self.line);
        push_text(&mut text, ", column: ");
        push_decimal(&mut text, self.column);
        push_text(&mut text, "]");
        text
    }
}

/// A copy of every token of `tokens`, in the same order.
pub fn clone_tokens(tokens: &Vec<Token>) -> (r: Vec<Token>)
    ensures
        r@ == tokens@,
{
    let mut r: Vec<Token> = Vec::new();
    let mut i: usize = 0;
    while i < tokens.len()
        invariant
            i <= tokens.len(),
            r@ == tokens@.take(i as int),
        decreases tokens.len() - i,
    {
        r.push(tokens[i].clone());
        proof {
            assert(r@ =~= tokens@.take(i + 1));
        }
        i += 1;
    }
    proof {
        assert(tokens@.take(tokens.len() as int) =~= tokens@);
    }
    r
}

impl Clone for Token {
    fn clone(&self) -> (r: Self)
        ensures
            r == *self,
    {
        Token {
            lexeme: self.lexeme.clone(),
            category: self.category,
            line: self.line,
            column: self.column,
        }
    }
}

impl Default for Token {
    fn default() -> (r: Self)
        ensures
            r@ == (TokenView {
                lexeme: Seq::<char>::empty(),
                category: TokenType::Invalid,
                line: 0,
                column: 0,
            }),
    {
        Token { lexeme: String::new(), category: TokenType::Invalid, line: 0, column: 0 }
    }
}

impl PartialEq for Token {
    fn eq(&self, other: &Self) -> (r: bool) {
        self.lexeme == other.lexeme && self.category == other.category
    }
}

impl vstd::std_specs::cmp::PartialEqSpecImpl for Token {
    open spec fn obeys_eq_spec() -> bool {
        true
    }

    open spec fn eq_spec(&self, other: &Self) -> bool {
        self@.same_token(other@)
    }
}

} // verus!
