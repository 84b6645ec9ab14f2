//! What the editor has selected: the timeline on the stage, the symbol whose
//! properties are shown, and the placed symbols selected on the stage; and
//! the removals that deleting the selection makes.
use vstd::prelude::*;
use crate::movie::{Movie, MovieView, PlaceSymbol, PlacedSymbolIndex, SymbolIndexOrRoot};
use crate::movie::lemma_with_placed;
use crate::movie::lemma_with_placed_twice;
use crate::movie_edit::{RemovePlacedSymbolEdit, slot_ok};
use crate::edits::{MovieAction, MovieActionView, MovieChange, PlacedSymbolAction};
use crate::undo::{EditMessageView, EditView, UndoStack, UndoStackView};

verus! {

pub struct Selection {
    /// the timeline shown on the stage
    pub stage_symbol_index: SymbolIndexOrRoot,
    /// the symbol whose properties are shown
    pub properties_symbol_index: SymbolIndexOrRoot,
    /// the selected placed symbols of the stage's timeline
    pub placed_symbols: Vec<PlacedSymbolIndex>,
}

impl Default for Selection {
    fn default() -> (r: Self)
        ensures
            r.stage_symbol_index is None,
            r.properties_symbol_index is None,
            r.placed_symbols@ == Seq::<PlacedSymbolIndex>::empty(),
    {
        Selection {
            stage_symbol_index: None,
            properties_symbol_index: None,
            placed_symbols: Vec::new(),
        }
    }
}

/// How many times `x` is in `s`.
pub open spec fn occurrences(s: Seq<PlacedSymbolIndex>, x: int) -> nat
    decreases s.len(),
{
    if s.len() == 0 {
        0
    } else {
        occurrences(s.drop_last(), x) + if s.last() == x {
            1nat
        } else {
            0nat
        }
    }
}

/// The selected positions below `p`, from the highest down, each as often
/// as it is selected: the selection sorted and walked backwards.
pub open spec fn descending_below(s: Seq<PlacedSymbolIndex>, p: int) -> Seq<PlacedSymbolIndex>
    decreases p,
{
    if p <= 0 {
        Seq::empty()
    } else {
        Seq::new(occurrences(s, p - 1), |i: int| (p - 1) as usize) + descending_below(s, p - 1)
    }
}

/// The removals that delete the selected placed symbols of a timeline,
/// from the last position to the first, so that each removal leaves the
/// positions of those still to come where they are.
pub open spec fn deletion_edits(
    e: SymbolIndexOrRoot,
    placed: Seq<PlaceSymbol>,
    selection: Seq<PlacedSymbolIndex>,
) -> Seq<RemovePlacedSymbolEdit> {
    descending_below(selection, placed.len() as int).map_values(
        |p: PlacedSymbolIndex|
            RemovePlacedSymbolEdit {
                editing_symbol_index: e,
                placed_symbol_index: p,
                placed_symbol: placed[p as int],
            },
    )
}

impl Selection {
    /// Selects a symbol of the library, or the root timeline. A movieclip
    /// or the root also goes onto the stage, and the result says so (the
    /// stage's camera is then reset). The placed symbols are unselected.
    /// Selecting the timeline on the stage again changes nothing.
    pub fn change_selected_symbol(&mut self, movie: &Movie, symbol_index: SymbolIndexOrRoot) -> (r:
        bool)
        requires
            movie@.valid_target(symbol_index),
        ensures
            symbol_index == old(self).stage_symbol_index ==> !r && final(self).stage_symbol_index
                == old(self).stage_symbol_index && final(self).properties_symbol_index == old(
                self,
            ).properties_symbol_index && final(self).placed_symbols@ == old(self).placed_symbols@,
            symbol_index != old(self).stage_symbol_index ==> {
                &&& r == (symbol_index is None || movie@.is_movieclip(symbol_index))
                &&& final(self).stage_symbol_index == if r {
                    symbol_index
                } else {
                    old(self).stage_symbol_index
                }
                &&& final(self).properties_symbol_index == symbol_index
                &&& final(self).placed_symbols@ == Seq::<PlacedSymbolIndex>::empty()
            },
    {
        if symbol_index == self.stage_symbol_index {
            return false;
        }
        let to_stage = match symbol_index {
            None => true,
            Some(i) => movie.symbols[i].is_movieclip(),
        };
        if to_stage {
            self.stage_symbol_index = symbol_index;
            self.change_selected_placed_symbols(Vec::new());
        }
        // the properties panel always follows
        self.properties_symbol_index = symbol_index;
        self.placed_symbols = Vec::new();
        to_stage
    }

    /// Selects placed symbols of the stage's timeline; the properties shown
    /// are then those of the stage.
    pub fn change_selected_placed_symbols(&mut self, items: Vec<PlacedSymbolIndex>)
        ensures
            final(self).placed_symbols@ == items@,
            final(self).stage_symbol_index == old(self).stage_symbol_index,
            final(self).properties_symbol_index == old(self).stage_symbol_index,
    {
        self.placed_symbols = items;
        self.properties_symbol_index = self.stage_symbol_index;
    }

    /// Selects every placed symbol of the stage's timeline.
    pub fn select_all(&mut self, movie: &Movie)
        requires
            movie@.valid_target(old(self).stage_symbol_index),
        ensures
            final(self).placed_symbols@ == Seq::new(
                movie@.placed(old(self).stage_symbol_index).len(),
                |i: int| i as usize,
            ),
            final(self).stage_symbol_index == old(self).stage_symbol_index,
            final(self).properties_symbol_index == old(self).stage_symbol_index,
    {
        let n = movie.get_placed_symbols(self.stage_symbol_index).len();
        let mut items: Vec<PlacedSymbolIndex> = Vec::new();
        let mut i: usize = 0;
        while i < n
            invariant
                i <= n,
                items@ == Seq::new(i as nat, |j: int| j as usize),
            decreases n - i,
        {
            items.push(i);
            i = i + 1;
            assert(items@ =~= Seq::new(i as nat, |j: int| j as usize));
        }
        self.change_selected_placed_symbols(items);
    }

    /// Unselects everything on the stage and gives the removals that delete
    /// what was selected, from the last position to the first; nothing when
    /// nothing was selected.
    pub fn delete_selection(&mut self, movie: &Movie) -> (r: Vec<RemovePlacedSymbolEdit>)
        requires
            movie@.valid_target(old(self).stage_symbol_index),
            forall|k: int|
                0 <= k < old(self).placed_symbols@.len() ==> #[trigger] old(
                    self,
                ).placed_symbols@[k] < movie@.placed(old(self).stage_symbol_index).len(),
        ensures
            final(self).stage_symbol_index == old(self).stage_symbol_index,
            final(self).properties_symbol_index == old(self).properties_symbol_index,
            final(self).placed_symbols@ == Seq::<PlacedSymbolIndex>::empty(),
            r@ == deletion_edits(
                old(self).stage_symbol_index,
                movie@.placed(old(self).stage_symbol_index),
                old(self).placed_symbols@,
            ),
    {
        let e = self.stage_symbol_index;
        let placed = movie.get_placed_symbols(e);
        let ghost sel = self.placed_symbols@;
        let ghost pv = placed@;
        if self.placed_symbols.len() == 0 {
            proof {
                lemma_descending_empty(sel, pv.len() as int);
            }
            let r: Vec<RemovePlacedSymbolEdit> = Vec::new();
            assert(r@ =~= deletion_edits(e, pv, sel));
            return r;
        }
        let mut selection: Vec<PlacedSymbolIndex> = Vec::new();
        std::mem::swap(&mut selection, &mut self.placed_symbols);
        let mut edits: Vec<RemovePlacedSymbolEdit> = Vec::new();
        let mut p: usize = placed.len();
        // from the last position to the first, so that removing a placed
        // symbol leaves the positions still to remove as they are
        while p > 0
            invariant
                p <= pv.len(),
                pv == placed@,
                sel == selection@,
                edits@ + descending_below(sel, p as int).map_values(
                    |q: PlacedSymbolIndex|
                        RemovePlacedSymbolEdit {
                            editing_symbol_index: e,
                            placed_symbol_index: q,
                            placed_symbol: pv[q as int],
                        },
                ) == deletion_edits(e, pv, sel),
            decreases p,
        {
            p = p - 1;
            let ghost before = edits@;
            let ghost f = |q: PlacedSymbolIndex|
                RemovePlacedSymbolEdit {
                    editing_symbol_index: e,
                    placed_symbol_index: q,
                    placed_symbol: pv[q as int],
                };
            // as many removals as the position is selected
            let mut k: usize = 0;
            let ghost mut emitted: nat = 0;
            while k < selection.len()
                invariant
                    k <= selection.len(),
                    sel == selection@,
                    pv == placed@,
                    p < pv.len(),
                    emitted == occurrences(sel.take(k as int), p as int),
                    edits@ == before + Seq::new(
                        emitted,
                        |i: int|
                            RemovePlacedSymbolEdit {
                                editing_symbol_index: e,
                                placed_symbol_index: p,
                                placed_symbol: pv[p as int],
                            },
                    ),
                decreases selection.len() - k,
            {
                assert(sel.take(k + 1).drop_last() =~= sel.take(k as int));
                if selection[k] == p {
                    edits.push(
                        RemovePlacedSymbolEdit {
                            editing_symbol_index: e,
                            placed_symbol_index: p,
                            placed_symbol: placed[p].clone(),
                        },
                    );
                    proof {
                        emitted = emitted + 1;
                    }
                    assert(edits@ =~= before + Seq::new(
                        emitted,
                        |i: int|
                            RemovePlacedSymbolEdit {
                                editing_symbol_index: e,
                                placed_symbol_index: p,
                                placed_symbol: pv[p as int],
                            },
                    ));
                }
                k = k + 1;
            }
            assert(sel.take(k as int) =~= sel);
            proof {
                let rest = descending_below(sel, p as int);
                assert(descending_below(sel, p + 1) == Seq::new(
                    occurrences(sel, p as int),
                    |i: int| p,
                ) + rest);
                assert((Seq::new(occurrences(sel, p as int), |i: int| p) + rest).map_values(f)
                    =~= Seq::new(emitted, |i: int| f(p)) + rest.map_values(f));
                assert(edits@ + rest.map_values(f) =~= before + descending_below(
                    sel,
                    p + 1,
                ).map_values(f));
            }
        }
        proof {
            lemma_descending_empty(sel, 0);
        }
        assert(edits@ =~= deletion_edits(e, pv, sel));
        edits
    }
}

proof fn lemma_descending_empty(s: Seq<PlacedSymbolIndex>, p: int)
    requires
        s.len() == 0 || p <= 0,
    ensures
        descending_below(s, p) == Seq::<PlacedSymbolIndex>::empty(),
    decreases p,
{
    if p > 0 {
        assert(occurrences(s, p - 1) == 0);
        lemma_descending_empty(s, p - 1);
        assert(Seq::new(0, |i: int| (p - 1) as usize) =~= Seq::<PlacedSymbolIndex>::empty());
    }
}

/// The movie after one removal.
pub open spec fn remove_one(m: MovieView, r: RemovePlacedSymbolEdit) -> MovieView {
    m.with_placed(
        r.editing_symbol_index,
        m.placed(r.editing_symbol_index).remove(r.placed_symbol_index as int),
    )
}

/// The movie after the removals, one after the other.
pub open spec fn apply_removals(m: MovieView, edits: Seq<RemovePlacedSymbolEdit>) -> MovieView
    decreases edits.len(),
{
    if edits.len() == 0 {
        m
    } else {
        apply_removals(remove_one(m, edits[0]), edits.drop_first())
    }
}

/// Each removal, when its turn comes, finds its position on its timeline
/// and there the placed symbol it records (which its undo puts back).
pub open spec fn removals_apply(m: MovieView, edits: Seq<RemovePlacedSymbolEdit>) -> bool
    decreases edits.len(),
{
    edits.len() == 0 || {
        let r = edits[0];
        &&& slot_ok(m, r.editing_symbol_index, r.placed_symbol_index)
        &&& m.placed(r.editing_symbol_index)[r.placed_symbol_index as int] == r.placed_symbol
        &&& removals_apply(remove_one(m, r), edits.drop_first())
    }
}

/// The placed symbols whose positions are not selected, in order.
pub open spec fn without_positions(s: Seq<PlaceSymbol>, selection: Seq<PlacedSymbolIndex>) -> Seq<
    PlaceSymbol,
>
    decreases s.len(),
{
    if s.len() == 0 {
        s
    } else {
        without_positions(s.drop_last(), selection) + if selection.contains(
            (s.len() - 1) as usize,
        ) {
            Seq::empty()
        } else {
            seq![s.last()]
        }
    }
}

spec fn remove_each(s: Seq<PlaceSymbol>, d: Seq<PlacedSymbolIndex>) -> Seq<PlaceSymbol>
    decreases d.len(),
{
    if d.len() == 0 {
        s
    } else {
        remove_each(s.remove(d[0] as int), d.drop_first())
    }
}

spec fn fits(t: Seq<PlaceSymbol>, d: Seq<PlacedSymbolIndex>, orig: Seq<PlaceSymbol>) -> bool
    decreases d.len(),
{
    d.len() == 0 || (d[0] < t.len() && t[d[0] as int] == orig[d[0] as int] && fits(
        t.remove(d[0] as int),
        d.drop_first(),
        orig,
    ))
}

proof fn lemma_occurrences(s: Seq<PlacedSymbolIndex>, x: PlacedSymbolIndex)
    requires
        s.no_duplicates(),
    ensures
        occurrences(s, x as int) <= 1,
        occurrences(s, x as int) == 1 <==> s.contains(x),
    decreases s.len(),
{
    if s.len() > 0 {
        let r = s.drop_last();
        assert(r.no_duplicates());
        lemma_occurrences(r, x);
        if s.last() == x {
            assert(!r.contains(x)) by {
                if r.contains(x) {
                    let j = choose|j: int| 0 <= j < r.len() && r[j] == x;
                    assert(s[j] == s[s.len() - 1]);
                }
            }
            assert(s.contains(x)) by {
                assert(s[s.len() - 1] == x);
            }
        } else {
            assert(s.contains(x) <==> r.contains(x)) by {
                if s.contains(x) {
                    let j = choose|j: int| 0 <= j < s.len() && s[j] == x;
                    assert(j != s.len() - 1);
                    assert(r[j] == x);
                }
                if r.contains(x) {
                    let j = choose|j: int| 0 <= j < r.len() && r[j] == x;
                    assert(s[j] == x);
                }
            }
        }
    }
}

proof fn lemma_remove_below(
    t: Seq<PlaceSymbol>,
    orig: Seq<PlaceSymbol>,
    selection: Seq<PlacedSymbolIndex>,
    p: int,
)
    requires
        selection.no_duplicates(),
        0 <= p <= t.len(),
        p <= orig.len(),
        t.len() <= usize::MAX,
        t.take(p) == orig.take(p),
    ensures
        fits(t, descending_below(selection, p), orig),
        remove_each(t, descending_below(selection, p)) == without_positions(orig.take(p), selection)
            + t.skip(p),
    decreases p,
{
    if p == 0 {
        assert(orig.take(0) =~= Seq::<PlaceSymbol>::empty());
        assert(t.skip(0) =~= t);
        assert(without_positions(orig.take(0), selection) =~= Seq::<PlaceSymbol>::empty());
    } else {
        let q = p - 1;
        lemma_occurrences(selection, q as usize);
        let d = descending_below(selection, p);
        let rest = descending_below(selection, q);
        assert(orig.take(p).drop_last() =~= orig.take(q));
        assert(t.take(q) =~= orig.take(q)) by {
            assert forall|i: int| 0 <= i < q implies t.take(q)[i] == orig.take(q)[i] by {
                assert(t.take(p)[i] == orig.take(p)[i]);
            }
        }
        assert(t[q] == orig[q]) by {
            assert(t.take(p)[q] == t[q]);
            assert(orig.take(p)[q] == orig[q]);
        }
        if occurrences(selection, q) == 0 {
            assert(d =~= rest);
            lemma_remove_below(t, orig, selection, q);
            assert(!selection.contains(q as usize));
            assert(without_positions(orig.take(p), selection) == without_positions(
                orig.take(q),
                selection,
            ) + seq![orig[q]]);
            assert(t.skip(q) =~= seq![t[q]] + t.skip(p));
        } else {
            assert(d =~= seq![q as usize] + rest);
            assert(d[0] == q as usize);
            assert(d.drop_first() =~= rest);
            let t2 = t.remove(q);
            assert(t2.take(q) =~= orig.take(q)) by {
                assert forall|i: int| 0 <= i < q implies t2.take(q)[i] == orig.take(q)[i] by {
                    assert(t.take(q)[i] == orig.take(q)[i]);
                }
            }
            lemma_remove_below(t2, orig, selection, q);
            assert(selection.contains(q as usize));
            assert(without_positions(orig.take(p), selection) =~= without_positions(
                orig.take(q),
                selection,
            ));
            assert(t2.skip(q) =~= t.skip(p));
        }
    }
}

proof fn lemma_apply_removals(
    m: MovieView,
    e: SymbolIndexOrRoot,
    d: Seq<PlacedSymbolIndex>,
    orig: Seq<PlaceSymbol>,
)
    requires
        m.valid_target(e),
        fits(m.placed(e), d, orig),
    ensures
        ({
            let edits = d.map_values(
                |q: PlacedSymbolIndex|
                    RemovePlacedSymbolEdit {
                        editing_symbol_index: e,
                        placed_symbol_index: q,
                        placed_symbol: orig[q as int],
                    },
            );
            &&& removals_apply(m, edits)
            &&& apply_removals(m, edits) == m.with_placed(e, remove_each(m.placed(e), d))
        }),
    decreases d.len(),
{
    let f = |q: PlacedSymbolIndex|
        RemovePlacedSymbolEdit {
            editing_symbol_index: e,
            placed_symbol_index: q,
            placed_symbol: orig[q as int],
        };
    let edits = d.map_values(f);
    if d.len() == 0 {
        crate::movie::lemma_with_placed_itself(m, e);
    } else {
        let t = m.placed(e);
        let t2 = t.remove(d[0] as int);
        let m1 = remove_one(m, edits[0]);
        assert(edits[0] == f(d[0]));
        lemma_with_placed(m, e, t2);
        assert(m1 == m.with_placed(e, t2));
        assert(edits.drop_first() =~= d.drop_first().map_values(f));
        lemma_apply_removals(m1, e, d.drop_first(), orig);
        lemma_with_placed_twice(m, e, t2, remove_each(t2, d.drop_first()));
    }
}

/// Deleting a selection without repeated positions: each removal, in its
/// turn, finds at its position the placed symbol it records, and together
/// they leave the timeline with exactly the unselected placed symbols, in
/// their order.
pub proof fn lemma_deletion_removes_selected(
    m: MovieView,
    e: SymbolIndexOrRoot,
    selection: Seq<PlacedSymbolIndex>,
)
    requires
        m.valid_target(e),
        m.placed(e).len() <= usize::MAX,
        selection.no_duplicates(),
        forall|k: int| 0 <= k < selection.len() ==> #[trigger] selection[k] < m.placed(e).len(),
    ensures
        removals_apply(m, deletion_edits(e, m.placed(e), selection)),
        apply_removals(m, deletion_edits(e, m.placed(e), selection)) == m.with_placed(
            e,
            without_positions(m.placed(e), selection),
        ),
{
    let s = m.placed(e);
    let n = s.len() as int;
    assert(s.take(n) =~= s);
    lemma_remove_below(s, s, selection, n);
    assert(s.skip(n) =~= Seq::<PlaceSymbol>::empty());
    assert(without_positions(s, selection) + s.skip(n) =~= without_positions(s, selection));
    lemma_apply_removals(m, e, descending_below(selection, n), s);
}

impl Selection {
    /// Deleting the selection, as the editor records it: nothing when no
    /// placed symbol is selected; otherwise the selection is emptied and
    /// the removals of what was selected become one action of the history.
    pub fn delete_selection_action(&mut self, movie: &Movie) -> (r: Option<MovieAction>)
        requires
            movie@.valid_target(old(self).stage_symbol_index),
            forall|k: int|
                0 <= k < old(self).placed_symbols@.len() ==> #[trigger] old(
                    self,
                ).placed_symbols@[k] < movie@.placed(old(self).stage_symbol_index).len(),
        ensures
            old(self).placed_symbols@.len() == 0 ==> r is None && *final(self) == *old(self),
            old(self).placed_symbols@.len() > 0 ==> {
                &&& final(self).stage_symbol_index == old(self).stage_symbol_index
                &&& final(self).properties_symbol_index == old(self).properties_symbol_index
                &&& final(self).placed_symbols@ == Seq::<PlacedSymbolIndex>::empty()
                &&& r matches Some(a) && a@ == MovieActionView::RemovePlacedSymbols(
                    removals_action(
                        deletion_edits(
                            old(self).stage_symbol_index,
                            movie@.placed(old(self).stage_symbol_index),
                            old(self).placed_symbols@,
                        ),
                    ),
                )
            },
    {
        if self.placed_symbols.len() == 0 {
            return None;
        }
        let removals = self.delete_selection(movie);
        Some(deletion_action(&removals))
    }
}

/// A removal as an action of the history.
pub open spec fn as_action(r: RemovePlacedSymbolEdit) -> PlacedSymbolAction {
    PlacedSymbolAction {
        editing_symbol_index: r.editing_symbol_index,
        placed_symbol: r.placed_symbol,
        placed_symbol_index: r.placed_symbol_index,
    }
}

/// The removals, as one action of the history that removes the last of
/// its placed symbols first.
pub open spec fn removals_action(removals: Seq<RemovePlacedSymbolEdit>) -> Seq<PlacedSymbolAction> {
    removals.reverse().map_values(|r: RemovePlacedSymbolEdit| as_action(r))
}

/// Makes the removals of a deletion one entry of the history: an action
/// that removes them in the same order and, undone, puts them all back.
pub fn deletion_action(removals: &Vec<RemovePlacedSymbolEdit>) -> (r: MovieAction)
    ensures
        r@ == MovieActionView::RemovePlacedSymbols(removals_action(removals@)),
{
    let mut acts: Vec<PlacedSymbolAction> = Vec::new();
    let mut k: usize = removals.len();
    while k > 0
        invariant
            k <= removals.len(),
            acts@ == removals@.subrange(k as int, removals.len() as int).reverse().map_values(
                |r: RemovePlacedSymbolEdit| as_action(r),
            ),
        decreases k,
    {
        k = k - 1;
        let r = &removals[k];
        acts.push(
            PlacedSymbolAction {
                editing_symbol_index: r.editing_symbol_index,
                placed_symbol: r.placed_symbol.clone(),
                placed_symbol_index: r.placed_symbol_index,
            },
        );
        assert(acts@ =~= removals@.subrange(k as int, removals.len() as int).reverse().map_values(
            |r: RemovePlacedSymbolEdit| as_action(r),
        ));
    }
    assert(removals@.subrange(0, removals.len() as int) =~= removals@);
    MovieAction::RemovePlacedSymbols(acts)
}

/// Removals that apply one after the other make an action that applies,
/// finds what it records, and leaves the same movie.
proof fn lemma_removals_action(m: MovieView, d: Seq<RemovePlacedSymbolEdit>)
    requires
        removals_apply(m, d),
    ensures
        crate::edits::remove_all_matches(m, removals_action(d)),
        crate::edits::remove_all_ok(m, removals_action(d)),
        crate::edits::remove_all(m, removals_action(d)) == apply_removals(m, d),
    decreases d.len(),
{
    if d.len() > 0 {
        let acts = removals_action(d);
        let r = d[0];
        let m1 = remove_one(m, r);
        lemma_removals_action(m1, d.drop_first());
        assert(acts.last() == as_action(r));
        assert(acts.drop_last() =~= removals_action(d.drop_first()));
        assert(crate::edits::remove_one(m, as_action(r)) == m1);
    } else {
        assert(removals_action(d) =~= Seq::<PlacedSymbolAction>::empty());
    }
}

/// Deleting a selection without repeated positions, recorded in the
/// history as one action: the timeline loses exactly the selected placed
/// symbols, the history gains that one entry, and undoing it gives back
/// the movie.
pub proof fn lemma_deletion_undo(
    s: UndoStackView<<MovieChange as View>::V, MovieActionView>,
    m: MovieView,
    e: SymbolIndexOrRoot,
    selection: Seq<PlacedSymbolIndex>,
)
    requires
        m.valid_target(e),
        m.placed(e).len() <= usize::MAX,
        selection.no_duplicates(),
        forall|k: int| 0 <= k < selection.len() ==> #[trigger] selection[k] < m.placed(e).len(),
    ensures
        ({
            let a = MovieActionView::RemovePlacedSymbols(
                removals_action(deletion_edits(e, m.placed(e), selection)),
            );
            let (s1, m1) = UndoStack::<MovieChange, MovieAction>::step(
                s,
                m,
                EditMessageView::Action(a),
            );
            &&& UndoStack::<MovieChange, MovieAction>::step_ok(s, m, EditMessageView::Action(a))
            &&& m1 == m.with_placed(e, without_positions(m.placed(e), selection))
            &&& s1.undo == s.undo.push(EditView::Action(a))
            &&& UndoStack::<MovieChange, MovieAction>::step_ok(s1, m1, EditMessageView::Undo)
            &&& UndoStack::<MovieChange, MovieAction>::step(s1, m1, EditMessageView::Undo).1 == m
        }),
{
    let d = deletion_edits(e, m.placed(e), selection);
    lemma_deletion_removes_selected(m, e, selection);
    lemma_removals_action(m, d);
    let a = MovieActionView::RemovePlacedSymbols(removals_action(d));
    UndoStack::<MovieChange, MovieAction>::lemma_undo_after_action(s, m, a);
}

pub open spec fn other_than(clicked: PlacedSymbolIndex) -> spec_fn(PlacedSymbolIndex) -> bool {
    |i: PlacedSymbolIndex| i != clicked
}

/// The selection after clicking a placed symbol on the stage: without
/// shift, a click on an unselected symbol selects it alone; with shift it
/// is added, and a selected one is unselected (every time it is listed).
pub open spec fn clicked_selection(
    selection: Seq<PlacedSymbolIndex>,
    clicked: PlacedSymbolIndex,
    shift: bool,
) -> Seq<PlacedSymbolIndex> {
    if selection.contains(clicked) {
        if shift {
            selection.filter(other_than(clicked))
        } else {
            selection
        }
    } else if shift {
        selection.push(clicked)
    } else {
        seq![clicked]
    }
}

pub fn click_selection(selection: &Vec<PlacedSymbolIndex>, clicked: PlacedSymbolIndex, shift: bool) -> (r:
    Vec<PlacedSymbolIndex>)
    ensures
        r@ == clicked_selection(selection@, clicked, shift),
{
    let mut already_selected = false;
    let mut k: usize = 0;
    while k < selection.len()
        invariant
            k <= selection.len(),
            already_selected == selection@.take(k as int).contains(clicked),
        decreases selection.len() - k,
    {
        proof {
            let t = selection@.take(k as int);
            let t2 = selection@.take(k + 1);
            if selection@[k as int] == clicked {
                assert(t2[k as int] == clicked);
            }
            if t.contains(clicked) {
                let w = choose|w: int| 0 <= w < t.len() && t[w] == clicked;
                assert(t2[w] == clicked);
            }
            if t2.contains(clicked) && selection@[k as int] != clicked {
                let w = choose|w: int| 0 <= w < t2.len() && t2[w] == clicked;
                assert(w < k);
                assert(t[w] == clicked);
            }
        }
        if selection[k] == clicked {
            already_selected = true;
        }
        k = k + 1;
    }
    assert(selection@.take(k as int) =~= selection@);
    let mut result: Vec<PlacedSymbolIndex> = Vec::new();
    if !shift && !already_selected {
        // a new selection
    } else if already_selected && shift {
        let mut j: usize = 0;
        while j < selection.len()
            invariant
                j <= selection.len(),
                result@ == selection@.take(j as int).filter(other_than(clicked)),
            decreases selection.len() - j,
        {
            let ghost t = selection@.take(j as int);
            assert(selection@.take(j + 1).drop_last() =~= t);
            proof {
                t.lemma_filter_push(selection@[j as int], other_than(clicked));
            }
            assert(selection@.take(j + 1) =~= t.push(selection@[j as int]));
            if selection[j] != clicked {
                result.push(selection[j]);
            }
            j = j + 1;
        }
        assert(selection@.take(j as int) =~= selection@);
    } else {
        result = selection.clone();
        assert(result@ =~= selection@);
    }
    if !already_selected {
        result.push(clicked);
    }
    assert(result@ =~= clicked_selection(selection@, clicked, shift));
    result
}

/// Whether a position is in the list.
fn contains_index(v: &Vec<PlacedSymbolIndex>, x: PlacedSymbolIndex) -> (r: bool)
    ensures
        r == v@.contains(x),
{
    let mut k: usize = 0;
    while k < v.len()
        invariant
            k <= v.len(),
            forall|j: int| 0 <= j < k ==> v@[j] != x,
        decreases v.len() - k,
    {
        if v[k] == x {
            assert(v@[k as int] == x);
            return true;
        }
        k = k + 1;
    }
    false
}

/// A placed symbol that the box selected before and that now lies outside
/// the box.
pub open spec fn left_the_box(
    box_items: Seq<PlacedSymbolIndex>,
    inside: Seq<Option<bool>>,
    x: PlacedSymbolIndex,
) -> bool {
    box_items.contains(x) && x < inside.len() && inside[x as int] == Some(false)
}

pub open spec fn stays_selected(box_items: Seq<PlacedSymbolIndex>, inside: Seq<Option<bool>>) -> spec_fn(
    PlacedSymbolIndex,
) -> bool {
    |x: PlacedSymbolIndex| !left_the_box(box_items, inside, x)
}

pub open spec fn enters_selection(
    selection: Seq<PlacedSymbolIndex>,
    inside: Seq<Option<bool>>,
) -> spec_fn(PlacedSymbolIndex) -> bool {
    |i: PlacedSymbolIndex| i < inside.len() && inside[i as int] == Some(true) && !selection.contains(i)
}

/// The placed symbols inside the box that are not selected yet, in order.
pub open spec fn box_additions(selection: Seq<PlacedSymbolIndex>, inside: Seq<Option<bool>>) -> Seq<
    PlacedSymbolIndex,
> {
    Seq::new(inside.len(), |i: int| i as PlacedSymbolIndex).filter(enters_selection(selection, inside))
}

/// A placed symbol that the box selected lies outside it now.
pub open spec fn some_left_the_box(box_items: Seq<PlacedSymbolIndex>, inside: Seq<Option<bool>>) -> bool {
    exists|j: int|
        0 <= j < box_items.len() && #[trigger] inside[box_items[j] as int] == Some(false)
}

/// Dragging a selection box over the stage: given for each placed symbol
/// of the stage's timeline whether its bounds lie inside the box (`None`
/// where it has no bounds), the placed symbols inside that are not selected
/// yet are added to the selection and to the box's own items, and those
/// the box selected before that now lie outside leave the selection. The
/// new selection is given where the box changed something: where it adds a
/// placed symbol or one of its items lies outside.
pub fn box_selection_update(
    selection: &Vec<PlacedSymbolIndex>,
    box_items: &Vec<PlacedSymbolIndex>,
    inside: &Vec<Option<bool>>,
) -> (r: (Option<Vec<PlacedSymbolIndex>>, Vec<PlacedSymbolIndex>))
    requires
        forall|j: int| 0 <= j < box_items.len() ==> #[trigger] box_items@[j] < inside.len(),
    ensures
        r.1@ == box_items@ + box_additions(selection@, inside@),
        (box_additions(selection@, inside@).len() > 0 || some_left_the_box(box_items@, inside@))
            ==> (r.0 matches Some(s) && s@ == selection@.filter(
            stays_selected(box_items@, inside@),
        ) + box_additions(selection@, inside@)),
        !(box_additions(selection@, inside@).len() > 0 || some_left_the_box(box_items@, inside@))
            ==> r.0 is None,
{
    // the placed symbols inside the box that are not selected yet
    let mut additions: Vec<PlacedSymbolIndex> = Vec::new();
    let mut i: usize = 0;
    while i < inside.len()
        invariant
            i <= inside.len(),
            additions@ == Seq::new(i as nat, |k: int| k as PlacedSymbolIndex).filter(
                enters_selection(selection@, inside@),
            ),
        decreases inside.len() - i,
    {
        let ghost t = Seq::new(i as nat, |k: int| k as PlacedSymbolIndex);
        proof {
            t.lemma_filter_push(i, enters_selection(selection@, inside@));
            assert(Seq::new((i + 1) as nat, |k: int| k as PlacedSymbolIndex) =~= t.push(i));
        }
        let is_inside = match inside[i] {
            Some(b) => b,
            None => false,
        };
        if is_inside && !contains_index(selection, i) {
            additions.push(i);
        }
        i = i + 1;
    }
    // whether one of the box's items lies outside it now
    let mut any_left = false;
    let mut j: usize = 0;
    while j < box_items.len()
        invariant
            j <= box_items.len(),
            forall|k: int| 0 <= k < box_items.len() ==> #[trigger] box_items@[k] < inside.len(),
            any_left == exists|k: int|
                0 <= k < j && #[trigger] inside@[box_items@[k] as int] == Some(false),
        decreases box_items.len() - j,
    {
        let outside = match inside[box_items[j]] {
            Some(b) => !b,
            None => false,
        };
        if outside {
            assert(inside@[box_items@[j as int] as int] == Some(false));
            any_left = true;
        }
        j = j + 1;
    }
    let mut items = box_items.clone();
    let ghost items0 = items@;
    assert(items0 =~= box_items@);
    let mut a: usize = 0;
    while a < additions.len()
        invariant
            a <= additions.len(),
            items@ == box_items@ + additions@.take(a as int),
        decreases additions.len() - a,
    {
        items.push(additions[a]);
        a = a + 1;
        assert(items@ =~= box_items@ + additions@.take(a as int));
    }
    assert(additions@.take(a as int) =~= additions@);
    assert(Seq::new(inside@.len(), |k: int| k as PlacedSymbolIndex) =~= Seq::new(
        i as nat,
        |k: int| k as PlacedSymbolIndex,
    ));
    if additions.len() == 0 && !any_left {
        return (None, items);
    }
    // what stays selected, then what the box adds
    let mut result: Vec<PlacedSymbolIndex> = Vec::new();
    let mut k: usize = 0;
    while k < selection.len()
        invariant
            k <= selection.len(),
            result@ == selection@.take(k as int).filter(stays_selected(box_items@, inside@)),
        decreases selection.len() - k,
    {
        let x = selection[k];
        let ghost t = selection@.take(k as int);
        proof {
            t.lemma_filter_push(x, stays_selected(box_items@, inside@));
            assert(selection@.take(k + 1) =~= t.push(x));
        }
        let mut leaves = false;
        if x < inside.len() && contains_index(box_items, x) {
            leaves = match inside[x] {
                Some(b) => !b,
                None => false,
            };
        }
        if !leaves {
            result.push(x);
        }
        k = k + 1;
    }
    assert(selection@.take(k as int) =~= selection@);
    let mut a2: usize = 0;
    let ghost kept = result@;
    while a2 < additions.len()
        invariant
            a2 <= additions.len(),
            result@ == kept + additions@.take(a2 as int),
        decreases additions.len() - a2,
    {
        result.push(additions[a2]);
        a2 = a2 + 1;
        assert(result@ =~= kept + additions@.take(a2 as int));
    }
    assert(additions@.take(a2 as int) =~= additions@);
    (Some(result), items)
}

} // verus!
