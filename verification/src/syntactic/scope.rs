//! The symbol table as a sequence of entries, the bottom of the stack first.
//!
//! A scope marker opens each scope; the identifiers above the topmost marker
//! are the declarations of the current scope.

use vstd::prelude::*;
use crate::common::symbol::SymbolView;
use crate::common::token::TokenView;

verus! {

/// The entry that stands for `symbol` in the current scope of `table`, if
/// there is one: the search runs from the top down and stops at the first
/// scope marker.
pub open spec fn declared_in_scope(table: Seq<SymbolView>, symbol: SymbolView) -> Option<
    SymbolView,
>
    decreases table.len(),
{
    if table.len() == 0 || table.last() is EOS {
        None
    } else if table.last().same_symbol(symbol) {
        Some(table.last())
    } else {
        declared_in_scope(table.drop_last(), symbol)
    }
}

/// The entry that `symbol` resolves to: the topmost one that stands for it,
/// in whatever scope.
pub open spec fn lookup(table: Seq<SymbolView>, symbol: SymbolView) -> Option<SymbolView>
    decreases table.len(),
{
    if table.len() == 0 {
        None
    } else if table.last().same_symbol(symbol) {
        Some(table.last())
    } else {
        lookup(table.drop_last(), symbol)
    }
}

/// The table holds a scope marker, so there is a scope to close.
pub open spec fn has_scope(table: Seq<SymbolView>) -> bool
    decreases table.len(),
{
    table.len() > 0 && (table.last() is EOS || has_scope(table.drop_last()))
}

/// The table without its current scope: everything below the topmost scope
/// marker. Without a marker nothing is left.
pub open spec fn close_scope(table: Seq<SymbolView>) -> Seq<SymbolView>
    decreases table.len(),
{
    if table.len() == 0 {
        table
    } else if table.last() is EOS {
        table.drop_last()
    } else {
        close_scope(table.drop_last())
    }
}

/// The table with `type_text` as the type of its `count` topmost entries;
/// a scope marker among them stays as it is.
pub open spec fn with_types(table: Seq<SymbolView>, type_text: Seq<char>, count: nat) -> Seq<
    SymbolView,
>
    recommends
        count <= table.len(),
{
    Seq::new(
        table.len(),
        |i: int|
            if i >= table.len() - count {
                table[i].with_type(type_text)
            } else {
                table[i]
            },
    )
}

/// The entry that declares the name of `token`, its type not known yet.
pub open spec fn untyped(token: TokenView) -> SymbolView {
    SymbolView::Identifier { token, identifier_type: Seq::empty() }
}

/// Two entries are the same declaration: they differ in their type at most.
pub open spec fn same_declaration(a: SymbolView, b: SymbolView) -> bool {
    a.with_type(Seq::empty()) == b.with_type(Seq::empty())
}

/// `after` has grown from `before`: every entry of `before` is still in its
/// place, with its type filled in at most, and what has come on top of them
/// are declared identifiers. No scope has been opened or closed for good.
pub open spec fn grown_from(after: Seq<SymbolView>, before: Seq<SymbolView>) -> bool {
    &&& before.len() <= after.len()
    &&& forall|i: int| 0 <= i < before.len() ==> same_declaration(#[trigger] after[i], before[i])
    &&& forall|i: int| before.len() <= i < after.len() ==> #[trigger] after[i] is Identifier
}

/// What has grown from a table that has grown from another has grown from
/// that other table.
pub proof fn lemma_grown_transitive(
    last: Seq<SymbolView>,
    middle: Seq<SymbolView>,
    first: Seq<SymbolView>,
)
    requires
        grown_from(last, middle),
        grown_from(middle, first),
    ensures
        grown_from(last, first),
{
    assert forall|i: int| 0 <= i < first.len() implies same_declaration(
        #[trigger] last[i],
        first[i],
    ) by {
        assert(same_declaration(last[i], middle[i]));
        assert(same_declaration(middle[i], first[i]));
    }
    assert forall|i: int| first.len() <= i < last.len() implies #[trigger] last[i] is Identifier by {
        if i < middle.len() {
            assert(same_declaration(last[i], middle[i]));
            assert(middle[i] is Identifier);
        }
    }
}

/// A table grows by the declaration of an identifier.
pub proof fn lemma_grown_by_declaration(table: Seq<SymbolView>, entry: SymbolView)
    requires
        entry is Identifier,
    ensures
        grown_from(table.push(entry), table),
{
}

/// A table grows, though not in length, when entries get their type.
pub proof fn lemma_grown_by_types(table: Seq<SymbolView>, type_text: Seq<char>, count: nat)
    ensures
        grown_from(with_types(table, type_text, count), table),
        with_types(table, type_text, count).len() == table.len(),
{
}

/// Closing the scope undoes what has grown since the scope was opened, and
/// the opening itself: the table is as long as it was before the scope was
/// opened, and has grown from what it was then by the types of its entries
/// at most.
pub proof fn lemma_grown_scope_closes(after: Seq<SymbolView>, before: Seq<SymbolView>)
    requires
        grown_from(after, before.push(SymbolView::EOS)),
    ensures
        has_scope(after),
        close_scope(after).len() == before.len(),
        grown_from(close_scope(after), before),
    decreases after.len(),
{
    let opened = before.push(SymbolView::EOS);
    if after.len() == opened.len() {
        assert(same_declaration(after[before.len() as int], opened[before.len() as int]));
        assert(after.last() is EOS);
        assert forall|i: int| 0 <= i < before.len() implies same_declaration(
            #[trigger] after.drop_last()[i],
            before[i],
        ) by {
            assert(same_declaration(after[i], opened[i]));
        }
    } else {
        assert(after.last() is Identifier);
        assert forall|i: int| 0 <= i < opened.len() implies same_declaration(
            #[trigger] after.drop_last()[i],
            opened[i],
        ) by {
            assert(same_declaration(after[i], opened[i]));
        }
        let below = after.drop_last();
        assert forall|i: int| opened.len() <= i < below.len() implies #[trigger] below[i] is Identifier by {
            assert(after[i] is Identifier);
        }
        lemma_grown_scope_closes(after.drop_last(), before);
    }
}

/// Within one scope no two identifiers share a name: no identifier of the
/// table collides with the entries that lie below it in its scope.
pub open spec fn names_distinct(table: Seq<SymbolView>) -> bool
    decreases table.len(),
{
    table.len() == 0 || {
        &&& names_distinct(table.drop_last())
        &&& table.last() is EOS || declared_in_scope(table.drop_last(), table.last()) is None
    }
}

/// Whether a name is taken in the current scope does not depend on the
/// types of the entries, nor on the type of the symbol that asks.
pub proof fn lemma_types_do_not_collide(
    after: Seq<SymbolView>,
    before: Seq<SymbolView>,
    symbol: SymbolView,
    other: SymbolView,
)
    requires
        after.len() == before.len(),
        forall|i: int| 0 <= i < before.len() ==> same_declaration(#[trigger] after[i], before[i]),
        same_declaration(symbol, other),
    ensures
        declared_in_scope(after, symbol) is None <==> declared_in_scope(before, other) is None,
    decreases before.len(),
{
    if before.len() > 0 {
        assert(same_declaration(after.last(), before.last()));
        assert forall|i: int| 0 <= i < before.drop_last().len() implies same_declaration(
            #[trigger] after.drop_last()[i],
            before.drop_last()[i],
        ) by {
            assert(same_declaration(after[i], before[i]));
        }
        lemma_types_do_not_collide(after.drop_last(), before.drop_last(), symbol, other);
    }
}

/// What lies below the top of a table of distinct names is a table of
/// distinct names.
pub proof fn lemma_names_distinct_below(table: Seq<SymbolView>, length: int)
    requires
        names_distinct(table),
        0 <= length <= table.len(),
    ensures
        names_distinct(table.take(length)),
    decreases table.len(),
{
    if length < table.len() {
        assert(table.drop_last().take(length) =~= table.take(length));
        lemma_names_distinct_below(table.drop_last(), length);
    } else {
        assert(table.take(length) =~= table);
    }
}

/// Names stay distinct when entries get their types.
pub proof fn lemma_names_distinct_whatever_the_types(
    after: Seq<SymbolView>,
    before: Seq<SymbolView>,
)
    requires
        names_distinct(before),
        after.len() == before.len(),
        forall|i: int| 0 <= i < before.len() ==> same_declaration(#[trigger] after[i], before[i]),
    ensures
        names_distinct(after),
    decreases before.len(),
{
    if before.len() > 0 {
        assert(same_declaration(after.last(), before.last()));
        assert forall|i: int| 0 <= i < before.drop_last().len() implies same_declaration(
            #[trigger] after.drop_last()[i],
            before.drop_last()[i],
        ) by {
            assert(same_declaration(after[i], before[i]));
        }
        lemma_names_distinct_whatever_the_types(after.drop_last(), before.drop_last());
        lemma_types_do_not_collide(
            after.drop_last(),
            before.drop_last(),
            after.last(),
            before.last(),
        );
    }
}

/// What is left when a scope closes is what lay below its marker.
pub proof fn lemma_close_scope_is_below(table: Seq<SymbolView>)
    ensures
        close_scope(table) == table.take(close_scope(table).len() as int),
        close_scope(table).len() <= table.len(),
    decreases table.len(),
{
    if table.len() > 0 {
        if table.last() is EOS {
            assert(table.drop_last() =~= table.take(table.len() - 1));
        } else {
            lemma_close_scope_is_below(table.drop_last());
            let length = close_scope(table).len() as int;
            assert(table.drop_last().take(length) =~= table.take(length));
        }
    } else {
        assert(table.take(0) =~= table);
    }
}

/// What a name collides with is a declared identifier, never a scope marker.
pub proof fn lemma_collision_is_identifier(table: Seq<SymbolView>, symbol: SymbolView)
    ensures
        declared_in_scope(table, symbol) matches Some(entry) ==> entry is Identifier,
    decreases table.len(),
{
    if table.len() > 0 && !(table.last() is EOS) && !table.last().same_symbol(symbol) {
        lemma_collision_is_identifier(table.drop_last(), symbol);
    }
}

/// Declaring, opening a scope and closing one keep the names of every scope
/// distinct.
pub proof fn lemma_names_stay_distinct(table: Seq<SymbolView>, symbol: SymbolView)
    requires
        names_distinct(table),
    ensures
        names_distinct(table.push(SymbolView::EOS)),
        declared_in_scope(table, symbol) is None ==> names_distinct(table.push(symbol)),
        names_distinct(close_scope(table)),
{
    assert(table.push(SymbolView::EOS).drop_last() =~= table);
    assert(table.push(symbol).drop_last() =~= table);
    lemma_close_scope_is_below(table);
    lemma_names_distinct_below(table, close_scope(table).len() as int);
}

} // verus!
