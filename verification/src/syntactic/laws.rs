//! What the scope discipline and the type rules guarantee.

use vstd::prelude::*;
use crate::common::symbol::SymbolView;
use crate::common::token::{TokenType, TokenView};
use crate::syntactic::error::{Operation, SyntaxErrorView};
use crate::syntactic::model::{
    arithmetic_type, logic_type, relational_type, result_type, ParserView, BOOLEAN, INTEGER, REAL,
};
use crate::syntactic::scope::{close_scope, declared_in_scope, has_scope, lookup, untyped};

verus! {

/// None of `entries` is a scope marker.
pub open spec fn all_identifiers(entries: Seq<SymbolView>) -> bool {
    forall|i: int| 0 <= i < entries.len() ==> #[trigger] entries[i] is Identifier
}

/// Closing a scope undoes opening it: whatever was declared in the scope
/// leaves the table with the scope's marker, and the table is again what it
/// was before the scope was opened.
pub proof fn lemma_close_scope_restores(table: Seq<SymbolView>, declared: Seq<SymbolView>)
    requires
        all_identifiers(declared),
    ensures
        has_scope(table.push(SymbolView::EOS) + declared),
        close_scope(table.push(SymbolView::EOS) + declared) == table,
    decreases declared.len(),
{
    let whole = table.push(SymbolView::EOS) + declared;
    if declared.len() == 0 {
        assert(whole =~= table.push(SymbolView::EOS));
        assert(whole.drop_last() =~= table);
    } else {
        assert(whole.last() == declared.last());
        assert(whole.drop_last() =~= table.push(SymbolView::EOS) + declared.drop_last());
        lemma_close_scope_restores(table, declared.drop_last());
    }
}

/// Declarations outside the current scope never collide with a new one:
/// whether a name is taken depends on the current scope alone.
pub proof fn lemma_outer_scopes_do_not_collide(
    table: Seq<SymbolView>,
    declared: Seq<SymbolView>,
    symbol: SymbolView,
)
    requires
        all_identifiers(declared),
    ensures
        declared_in_scope(table.push(SymbolView::EOS) + declared, symbol) == declared_in_scope(
            declared,
            symbol,
        ),
    decreases declared.len(),
{
    let whole = table.push(SymbolView::EOS) + declared;
    if declared.len() == 0 {
        assert(whole.last() is EOS);
    } else {
        assert(whole.last() == declared.last());
        assert(whole.drop_last() =~= table.push(SymbolView::EOS) + declared.drop_last());
        lemma_outer_scopes_do_not_collide(table, declared.drop_last(), symbol);
    }
}

/// A reference resolves to the nearest declaration: to the topmost entry of
/// its name among the entries on top, and only if there is none among them
/// to what it resolves to in the table below.
pub proof fn lemma_nearest_declaration_wins(
    table: Seq<SymbolView>,
    on_top: Seq<SymbolView>,
    reference: SymbolView,
)
    ensures
        lookup(table + on_top, reference) == match lookup(on_top, reference) {
            Some(found) => Some(found),
            None => lookup(table, reference),
        },
    decreases on_top.len(),
{
    let whole = table + on_top;
    if on_top.len() == 0 {
        assert(whole =~= table);
    } else {
        assert(whole.last() == on_top.last());
        assert(whole.drop_last() =~= table + on_top.drop_last());
        lemma_nearest_declaration_wins(table, on_top.drop_last(), reference);
    }
}

/// Declaring the same identifier twice in one scope fails, and the error
/// names the first declaration.
pub proof fn lemma_duplicate_in_scope_fails(s: ParserView, first: TokenView, second: TokenView)
    requires
        first.category == TokenType::Identifier,
        second.category == TokenType::Identifier,
        first.lexeme == second.lexeme,
        s.add_symbol(untyped(first)) is Ok,
    ensures
        s.add_symbol(untyped(first))->Ok_0.add_symbol(untyped(second)) == Err::<
            ParserView,
            SyntaxErrorView,
        >(SyntaxErrorView::AlreadyDeclared { declaration: first }),
{
    let table = s.symbols.push(untyped(first));
    assert(table.last().same_symbol(untyped(second)));
}

/// Declaring an identifier in a scope that has just been opened succeeds,
/// whatever the scopes around it declare.
pub proof fn lemma_inner_scope_accepts_any_name(s: ParserView, name: TokenView)
    ensures
        s.open_scope().add_symbol(untyped(name)) == Ok::<ParserView, SyntaxErrorView>(
            ParserView { symbols: s.symbols.push(SymbolView::EOS).push(untyped(name)), ..s },
        ),
{
    assert(s.open_scope().symbols.last() is EOS);
}

/// An identifier declared in an outer scope and again in an inner one does
/// not collide. A reference in the inner scope resolves to the inner
/// declaration; once the inner scope is closed, the table is what it was
/// before, and the reference resolves to the outer declaration.
pub proof fn lemma_shadowing(s: ParserView, outer: TokenView, inner: TokenView, reference: TokenView)
    requires
        outer.category == TokenType::Identifier,
        inner.category == TokenType::Identifier,
        reference.category == TokenType::Identifier,
        outer.lexeme == reference.lexeme,
        inner.lexeme == reference.lexeme,
        reference.lexeme != s.program_name,
        s.add_symbol(untyped(outer)) is Ok,
    ensures
        ({
            let around = s.add_symbol(untyped(outer))->Ok_0;
            let within = around.open_scope().add_symbol(untyped(inner));
            &&& within is Ok
            &&& within->Ok_0.find_symbol(untyped(reference)) == Ok::<SymbolView, SyntaxErrorView>(
                untyped(inner),
            )
            &&& within->Ok_0.remove_scope() == Ok::<ParserView, SyntaxErrorView>(around)
            &&& around.find_symbol(untyped(reference)) == Ok::<SymbolView, SyntaxErrorView>(
                untyped(outer),
            )
        }),
{
    let around = s.add_symbol(untyped(outer))->Ok_0;
    lemma_inner_scope_accepts_any_name(around, inner);
    let within = around.open_scope().add_symbol(untyped(inner))->Ok_0;
    assert(within.symbols.last().same_symbol(untyped(reference)));
    assert(around.symbols.last().same_symbol(untyped(reference)));
    assert(within.symbols =~= around.symbols.push(SymbolView::EOS) + seq![untyped(inner)]);
    lemma_close_scope_restores(around.symbols, seq![untyped(inner)]);
}

/// The type rules on the three types: mixed numbers give `real`, equal
/// numbers their own type, and a `boolean` is no operand of arithmetic;
/// comparisons take numbers and give `boolean`; logical operators take and
/// give `boolean`; an assignment takes equal types only, so that an
/// `integer` is not widened to a `real`.
pub proof fn lemma_type_rules()
    ensures
        arithmetic_type(INTEGER@, INTEGER@) == Some(INTEGER@),
        arithmetic_type(REAL@, REAL@) == Some(REAL@),
        arithmetic_type(INTEGER@, REAL@) == Some(REAL@),
        arithmetic_type(REAL@, INTEGER@) == Some(REAL@),
        forall|other: Seq<char>|
            arithmetic_type(BOOLEAN@, other) is None && arithmetic_type(other, BOOLEAN@) is None,
        forall|left: Seq<char>, right: Seq<char>|
            relational_type(left, right) is Some ==> #[trigger] relational_type(left, right)
                == Some(BOOLEAN@),
        relational_type(INTEGER@, REAL@) == Some(BOOLEAN@),
        forall|other: Seq<char>|
            relational_type(BOOLEAN@, other) is None && relational_type(other, BOOLEAN@) is None,
        logic_type(BOOLEAN@, BOOLEAN@) == Some(BOOLEAN@),
        forall|other: Seq<char>|
            other != BOOLEAN@ ==> logic_type(other, BOOLEAN@) is None && logic_type(
                BOOLEAN@,
                other,
            ) is None,
        result_type(Operation::Assignment, REAL@, INTEGER@) is None,
        result_type(Operation::Assignment, INTEGER@, REAL@) is None,
        result_type(Operation::Assignment, REAL@, REAL@) is Some,
{
    reveal_strlit("integer");
    reveal_strlit("real");
    reveal_strlit("boolean");
    assert(INTEGER@ != REAL@) by {
        assert(INTEGER@.len() != REAL@.len());
    }
    assert(INTEGER@ != BOOLEAN@) by {
        assert(INTEGER@[0] != BOOLEAN@[0]);
    }
    assert(REAL@ != BOOLEAN@) by {
        assert(REAL@.len() != BOOLEAN@.len());
    }
}

/// Every type rule takes two types off the type stack, and every rule but
/// the assignment's puts one back: an expression that has been reduced
/// leaves exactly one type where its operands left two.
pub proof fn lemma_check_reduces(s: ParserView, operation: Operation, line: nat, column: nat)
    requires
        s.check(operation, line, column) is Ok,
    ensures
        s.types.len() >= 2,
        s.check(operation, line, column)->Ok_0.types.len() == (if operation
            == Operation::Assignment {
            s.types.len() - 2
        } else {
            s.types.len() - 1
        }),
        s.check(operation, line, column)->Ok_0.types.take(s.types.len() - 2) == s.types.take(
            s.types.len() - 2,
        ),
{
    let after = s.check(operation, line, column)->Ok_0;
    assert(after.types.take(s.types.len() - 2) =~= s.types.take(s.types.len() - 2));
}

} // verus!
