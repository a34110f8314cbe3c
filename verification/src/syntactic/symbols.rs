//! Grammar symbols.

use vstd::prelude::*;

verus! {

/// A symbol of the grammar.
#[derive(Debug)]
pub enum Symbol {
    Initial,
    Id(String),
    Terminal(Terminal),
}

/// A terminal of the grammar.
#[derive(Debug)]
pub enum Terminal {
    Program,
    Semicolon,
}

} // verus!
