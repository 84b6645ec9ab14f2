//! Undoing an edit right after making it gives back the movie it was made on.
use vstd::prelude::*;
use crate::movie::{
    MovieView, SymbolView, lemma_with_placed, lemma_with_placed_itself, lemma_with_placed_twice,
};
use crate::movie_edit::{MovieEdit, slot_ok};
use crate::removal_laws::{lemma_undo_remove_symbol, removal_undoable};

verus! {

/// The values an edit keeps for undoing itself are those of the movie it is
/// made on, and undoing can put back what the edit takes off: a timeline
/// that gets a placed symbol has room for one more, and a removed movieclip
/// does not place itself.
pub open spec fn undo_restores(edit: MovieEdit, m: MovieView) -> bool {
    match edit {
        MovieEdit::EditMovieProperties(e) => e.before == m.properties,
        MovieEdit::AddMovieClip(_) => true,
        MovieEdit::RemoveSymbol(e) => {
            &&& m.symbols.len() <= usize::MAX
            &&& e.symbol@ == m.symbols[e.symbol_index as int]
            &&& removal_undoable(m, e.symbol_index)
        },
        MovieEdit::EditBitmapProperties(e) => m.symbols[e.editing_symbol_index as int]
            == SymbolView::Bitmap(e.before),
        MovieEdit::EditMovieClipProperties(e) => m.symbols[e.editing_symbol_index as int]->MovieClip_0
            == e.before@,
        MovieEdit::EditPlacedSymbol(e) => m.placed(e.editing_symbol_index)[e.placed_symbol_index as int]
            == e.start,
        MovieEdit::MovePlacedSymbol(e) => m.placed(
            e.editing_symbol_index,
        )[e.placed_symbol_index as int].transform == e.start,
        MovieEdit::AddPlacedSymbol(e) => m.placed(e.editing_symbol_index).len() < usize::MAX,
        MovieEdit::RemovePlacedSymbol(e) => m.placed(
            e.editing_symbol_index,
        )[e.placed_symbol_index as int] == e.placed_symbol,
    }
}

/// An edit made on a movie, as it stands after recording what it did, can be
/// undone, and undoing it gives back the movie, when the values it keeps for
/// undoing are those of the movie.
pub proof fn lemma_undo_after_edit(before: MovieEdit, after: MovieEdit, m: MovieView)
    requires
        before.edit_ok(m),
        before.records(after, m),
        undo_restores(before, m),
    ensures
        after.undo_ok(before.edited(m)),
        after.undone(before.edited(m)) == m,
{
    let m1 = before.edited(m);
    match (before, after) {
        (MovieEdit::EditMovieProperties(_), _) => {},
        (MovieEdit::AddMovieClip(a), _) => {
            assert(m1.symbols.drop_last() =~= m.symbols);
        },
        (MovieEdit::RemoveSymbol(a), MovieEdit::RemoveSymbol(b)) => {
            lemma_undo_remove_symbol(m, a.symbol_index);
        },
        (MovieEdit::EditBitmapProperties(a), _) => {
            assert(m1.symbols.update(a.editing_symbol_index as int, SymbolView::Bitmap(a.before))
                =~= m.symbols);
        },
        (MovieEdit::EditMovieClipProperties(a), _) => {
            let i = a.editing_symbol_index as int;
            assert(m1.symbols.update(
                i,
                SymbolView::MovieClip(a.before@, m1.symbols[i]->MovieClip_1),
            ) =~= m.symbols);
        },
        (MovieEdit::EditPlacedSymbol(a), _) => {
            let (e, p) = (a.editing_symbol_index, a.placed_symbol_index as int);
            let l1 = m.placed(e).update(p, a.end);
            lemma_with_placed(m, e, l1);
            lemma_with_placed_twice(m, e, l1, l1.update(p, a.start));
            assert(l1.update(p, a.start) =~= m.placed(e));
            lemma_with_placed_itself(m, e);
        },
        (MovieEdit::MovePlacedSymbol(a), _) => {
            let (e, p) = (a.editing_symbol_index, a.placed_symbol_index as int);
            let l1 = m.placed(e).update(p, m1.placed(e)[p]);
            lemma_with_placed(m, e, l1);
            let l2 = l1.update(p, m.placed(e)[p]);
            lemma_with_placed_twice(m, e, l1, l2);
            assert(l2 =~= m.placed(e));
            lemma_with_placed_itself(m, e);
        },
        (MovieEdit::AddPlacedSymbol(a), MovieEdit::AddPlacedSymbol(b)) => {
            let e = a.editing_symbol_index;
            let l1 = m.placed(e).push(a.placed_symbol);
            lemma_with_placed(m, e, l1);
            lemma_with_placed_twice(m, e, l1, l1.remove(m.placed(e).len() as int));
            assert(l1.remove(m.placed(e).len() as int) =~= m.placed(e));
            lemma_with_placed_itself(m, e);
        },
        (MovieEdit::RemovePlacedSymbol(a), _) => {
            let (e, p) = (a.editing_symbol_index, a.placed_symbol_index as int);
            let l1 = m.placed(e).remove(p);
            lemma_with_placed(m, e, l1);
            lemma_with_placed_twice(m, e, l1, l1.insert(p, a.placed_symbol));
            assert(l1.insert(p, a.placed_symbol) =~= m.placed(e));
            lemma_with_placed_itself(m, e);
        },
        _ => {},
    }
}

} // verus!
