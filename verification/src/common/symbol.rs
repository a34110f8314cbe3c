//! Entries of the symbol table.

use vstd::prelude::*;
use vstd::string::*;
use crate::common::token::{Token, TokenType, TokenView};

verus! {

/// An entry of the symbol table: a declared identifier, or the marker that
/// separates one scope from the scope around it.
#[derive(Debug)]
pub enum Symbol {
    Identifier(SymbolIdentifier),
    /// End of scope.
    EOS,
}

/// A declared name: the token that declared it and the name of its type, which
/// stays empty until the declaration's type has been read.
#[derive(PartialEq, Debug)]
pub struct SymbolIdentifier {
    pub token: Token,
    pub identifier_type: String,
}

/// What a symbol holds, as plain values.
pub enum SymbolView {
    Identifier { token: TokenView, identifier_type: Seq<char> },
    EOS,
}

impl SymbolView {
    /// The entry wraps a token of category `Identifier`.
    pub open spec fn is_identifier(self) -> bool {
        match self {
            SymbolView::Identifier { token, .. } => token.category == TokenType::Identifier,
            SymbolView::EOS => false,
        }
    }

    /// The lexeme of the declaring token; empty for the scope marker.
    pub open spec fn lexeme(self) -> Seq<char> {
        match self {
            SymbolView::Identifier { token, .. } => token.lexeme,
            SymbolView::EOS => Seq::empty(),
        }
    }

    /// The entry as it reads when printed: the declared name, or `EOS` for
    /// the scope marker.
    pub open spec fn text(self) -> Seq<char> {
        match self {
            SymbolView::Identifier { token, .. } => token.lexeme,
            SymbolView::EOS => "EOS"@,
        }
    }

    /// The same entry with `new_type` as the name of its type. The scope
    /// marker has no type and stays as it is.
    pub open spec fn with_type(self, new_type: Seq<char>) -> SymbolView {
        match self {
            SymbolView::Identifier { token, .. } => SymbolView::Identifier {
                token,
                identifier_type: new_type,
            },
            SymbolView::EOS => SymbolView::EOS,
        }
    }

    /// Identity of symbols: two scope markers are the same; two identifiers
    /// are the same when their lexemes agree, whatever their types; nothing
    /// else is.
    pub open spec fn same_symbol(self, other: SymbolView) -> bool {
        if self is EOS && other is EOS {
            true
        } else if self.is_identifier() && other.is_identifier() {
            self.lexeme() == other.lexeme()
        } else {
            false
        }
    }
}

impl View for SymbolIdentifier {
    type V = SymbolView;

    open spec fn view(&self) -> SymbolView {
        SymbolView::Identifier { token: self.token@, identifier_type: self.identifier_type@ }
    }
}

impl View for Symbol {
    type V = SymbolView;

    open spec fn view(&self) -> SymbolView {
        match self {
            Symbol::Identifier(s) => s@,
            Symbol::EOS => SymbolView::EOS,
        }
    }
}

/// The views of a sequence of symbols, in the same order.
pub open spec fn symbol_views(symbols: Seq<Symbol>) -> Seq<SymbolView> {
    symbols.map_values(|s: Symbol| s@)
}

impl Clone for SymbolIdentifier {
    fn clone(&self) -> (r: Self)
        ensures
            r == *self,
    {
        SymbolIdentifier {
            token: self.token.clone(),
            identifier_type: self.identifier_type.clone(),
        }
    }
}

impl Clone for Symbol {
    fn clone(&self) -> (r: Self)
        ensures
            r == *self,
    {
        match self {
            Symbol::Identifier(s) => Symbol::Identifier(s.clone()),
            Symbol::EOS => Symbol::EOS,
        }
    }
}

impl Symbol {
    /// The entry for a name that `token` declares; its type is not known yet.
    pub fn new(token: Token) -> (r: Self)
        ensures
            r@ == (SymbolView::Identifier { token: token@, identifier_type: Seq::<char>::empty() }),
    {
        Symbol::Identifier(SymbolIdentifier { token, identifier_type: String::new() })
    }

    /// A copy of the declaring token; the scope marker has none.
    pub fn as_token(&self) -> (r: Option<Token>)
        ensures
            match self@ {
                SymbolView::Identifier { token, .. } => r is Some && r->0@ == token,
                SymbolView::EOS => r is None,
            },
    {
        match self {
            Symbol::Identifier(s) => Some(s.token.clone()),
            Symbol::EOS => None,
        }
    }

    /// Sets the name of the identifier's type; does nothing to the scope marker.
    pub fn change_type(&mut self, new_type: &str)
        ensures
            final(self)@ == old(self)@.with_type(new_type@),
    {
        match self {
            Symbol::Identifier(s) => {
                s.identifier_type = String::from_str(new_type);
            },
            Symbol::EOS => {},
        }
    }

    pub fn is_eos(&self) -> (r: bool)
        ensures
            r == (self@ is EOS),
    {
        match self {
            Symbol::Identifier(_) => false,
            Symbol::EOS => true,
        }
    }

    pub fn is_identifier(&self) -> (r: bool)
        ensures
            r == self@.is_identifier(),
    {
        match self {
            Symbol::Identifier(s) => s.token.is_type_of(TokenType::Identifier),
            Symbol::EOS => false,
        }
    }

    /// A copy of the name of the identifier's type; the scope marker has none.
    pub fn get_type(&self) -> (r: Option<String>)
        ensures
            match self@ {
                SymbolView::Identifier { identifier_type, .. } => r is Some && r->0@
                    == identifier_type,
                SymbolView::EOS => r is None,
            },
    {
        match self {
            Symbol::Identifier(s) => Some(s.identifier_type.clone()),
            Symbol::EOS => None,
        }
    }

    /// The entry as it reads when printed: the declared name, or `EOS` for
    /// the scope marker.
    pub fn to_string(&self) -> (r: String)
        ensures
            r@ == self@.text(),
    {
        match self {
            Symbol::Identifier(s) => String::from_str(s.token.get_lexeme()),
            Symbol::EOS => String::from_str("EOS"),
        }
    }

    /// The lexeme of the declaring token; empty for the scope marker.
    pub fn get_lexeme(&self) -> (r: &str)
        ensures
            r@ == self@.lexeme(),
    {
        match self {
            Symbol::Identifier(s) => s.token.get_lexeme(),
            Symbol::EOS => {
                proof {
                    reveal_strlit("");
                    assert(""@ =~= Seq::<char>::empty());
                }
                ""
            },
        }
    }
}

impl PartialEq for Symbol {
    fn eq(&self, other: &Self) -> (r: bool) {
        if self.is_eos() && other.is_eos() {
            true
        } else if self.is_identifier() && other.is_identifier() {
            crate::common::text::str_eq(self.get_lexeme(), other.get_lexeme())
        } else {
            false
        }
    }
}

impl vstd::std_specs::cmp::PartialEqSpecImpl for Symbol {
    open spec fn obeys_eq_spec() -> bool {
        true
    }

    open spec fn eq_spec(&self, other: &Self) -> bool {
        self@.same_symbol(other@)
    }
}

} // verus!
