//! Removing a symbol from the library and undoing it.
//!
//! Removing records the placements it takes off each timeline from the last
//! position to the first; undoing puts them back the other way round, the
//! first position first, so that each goes back where it was, in front of
//! the placements that followed it. This restores the movie unless the
//! removed symbol is a movieclip that places itself: its kept copy still
//! holds those placements, and undoing would add them a second time.
use vstd::prelude::*;
use crate::movie::{
    MovieView, PlaceSymbol, SymbolIndex, SymbolIndexOrRoot, SymbolView, lemma_with_placed,
    lemma_with_placed_itself, lemma_with_placed_twice,
};
use crate::movie_edit::{
    RemovePlacedSymbolEdit, can_raise, lowered, movie_with_symbol, movie_without_symbol, raised,
    raised_symbol, recorded_removals, reinsert, reinsert_back, reinsert_back_ok, reinsert_ok,
    removals_from, removals_of_symbols, stripped_from, stripped_symbol,
};

verus! {

/// The number of placements of a symbol at positions from `i` on.
pub open spec fn count_from(l: Seq<PlaceSymbol>, s: SymbolIndex, i: int) -> nat
    decreases l.len() - i,
{
    if i >= l.len() || i < 0 {
        0
    } else if l[i].symbol_index == s {
        1 + count_from(l, s, i + 1)
    } else {
        count_from(l, s, i + 1)
    }
}

/// The timelines' lengths fit in `usize`, and the symbol, when it is a
/// movieclip, does not place itself.
pub open spec fn removal_undoable(m: MovieView, s: SymbolIndex) -> bool {
    &&& m.root.len() <= usize::MAX
    &&& forall|j: int|
        0 <= j < m.symbols.len() && #[trigger] m.symbols[j] is MovieClip
            ==> m.symbols[j]->MovieClip_1.len() <= usize::MAX
    &&& m.symbols[s as int] is MovieClip ==> count_from(m.symbols[s as int]->MovieClip_1, s, 0) == 0
}

/// Renumbering a placement down and up again gives it back, unless it
/// placed the removed symbol.
proof fn lemma_raise_lower(ps: PlaceSymbol, s: SymbolIndex)
    requires
        ps.symbol_index != s,
    ensures
        raised(lowered(ps, s), s) == ps,
{
}

/// A timeline without placements of the symbol from position `i` on keeps
/// that part once stripped and renumbered back, and records no removal.
proof fn lemma_no_occurrence(l: Seq<PlaceSymbol>, e: SymbolIndexOrRoot, s: SymbolIndex, i: int)
    requires
        0 <= i <= l.len(),
        count_from(l, s, i) == 0,
    ensures
        stripped_from(l, s, i).map_values(|ps: PlaceSymbol| raised(ps, s)) == l.skip(i),
        removals_from(l, e, s, i) == Seq::<RemovePlacedSymbolEdit>::empty(),
    decreases l.len() - i,
{
    if i < l.len() {
        lemma_no_occurrence(l, e, s, i + 1);
        lemma_raise_lower(l[i], s);
        let rest = stripped_from(l, s, i + 1);
        assert((seq![lowered(l[i], s)] + rest).map_values(|ps: PlaceSymbol| raised(ps, s))
            =~= seq![raised(lowered(l[i], s), s)] + rest.map_values(
            |ps: PlaceSymbol| raised(ps, s),
        ));
        assert(l.skip(i) =~= seq![l[i]] + l.skip(i + 1));
    } else {
        assert(l.skip(i) =~= Seq::<PlaceSymbol>::empty());
        assert(Seq::<PlaceSymbol>::empty().map_values(|ps: PlaceSymbol| raised(ps, s))
            =~= Seq::<PlaceSymbol>::empty());
    }
}

/// The placements of a stripped timeline can all be renumbered upwards.
proof fn lemma_stripped_bounded(l: Seq<PlaceSymbol>, s: SymbolIndex, i: int)
    requires
        0 <= i <= l.len(),
        s < usize::MAX,
    ensures
        forall|p: int|
            0 <= p < stripped_from(l, s, i).len() ==> #[trigger] stripped_from(
                l,
                s,
                i,
            )[p].symbol_index < usize::MAX,
    decreases l.len() - i,
{
    if i < l.len() {
        lemma_stripped_bounded(l, s, i + 1);
        if l[i].symbol_index != s {
            let rest = stripped_from(l, s, i + 1);
            assert forall|p: int|
                0 <= p < stripped_from(l, s, i).len() implies #[trigger] stripped_from(
                l,
                s,
                i,
            )[p].symbol_index < usize::MAX by {
                if p > 0 {
                    assert(stripped_from(l, s, i)[p] == rest[p - 1]);
                }
            }
        }
    }
}

/// The timeline part from position `i` on, without the placements of the
/// removed symbol: what stripping it and renumbering it back gives.
pub open spec fn kept_from(l: Seq<PlaceSymbol>, s: SymbolIndex, i: int) -> Seq<PlaceSymbol> {
    stripped_from(l, s, i).map_values(|ps: PlaceSymbol| raised(ps, s))
}

proof fn lemma_kept_step(l: Seq<PlaceSymbol>, s: SymbolIndex, i: int)
    requires
        0 <= i < l.len(),
    ensures
        l[i].symbol_index == s ==> kept_from(l, s, i) == kept_from(l, s, i + 1),
        l[i].symbol_index != s ==> kept_from(l, s, i) == seq![l[i]] + kept_from(l, s, i + 1),
{
    if l[i].symbol_index != s {
        lemma_raise_lower(l[i], s);
        let rest = stripped_from(l, s, i + 1);
        assert((seq![lowered(l[i], s)] + rest).map_values(|ps: PlaceSymbol| raised(ps, s))
            =~= seq![l[i]] + rest.map_values(|ps: PlaceSymbol| raised(ps, s)));
    }
}

/// Putting back a list with one more removal at its end puts that one back
/// first.
proof fn lemma_reinsert_back_push(
    m: MovieView,
    a: Seq<RemovePlacedSymbolEdit>,
    x: RemovePlacedSymbolEdit,
)
    ensures
        reinsert_back(m, a.push(x)) == reinsert_back(reinsert(m, x), a),
        reinsert_back_ok(m, a.push(x)) == (reinsert_ok(m, x) && reinsert_back_ok(
            reinsert(m, x),
            a,
        )),
    decreases a.len(),
{
    let ax = a.push(x);
    if a.len() == 0 {
        assert(ax.drop_first() =~= Seq::<RemovePlacedSymbolEdit>::empty());
        assert(ax.first() == x);
        assert(reinsert_back(m, ax.drop_first()) == m);
        assert(reinsert_back_ok(m, ax.drop_first()));
        assert(reinsert_back(reinsert(m, x), a) == reinsert(m, x));
        assert(reinsert_back_ok(reinsert(m, x), a));
    } else {
        lemma_reinsert_back_push(m, a.drop_first(), x);
        assert(ax.drop_first() =~= a.drop_first().push(x));
        assert(ax.first() == a.first());
    }
}

/// Putting back two lists one after the other: the second one first.
proof fn lemma_reinsert_back_append(
    m: MovieView,
    a: Seq<RemovePlacedSymbolEdit>,
    b: Seq<RemovePlacedSymbolEdit>,
)
    ensures
        reinsert_back(m, a + b) == reinsert_back(reinsert_back(m, b), a),
        reinsert_back_ok(m, a + b) == (reinsert_back_ok(m, b) && reinsert_back_ok(
            reinsert_back(m, b),
            a,
        )),
    decreases a.len(),
{
    if a.len() == 0 {
        assert(a + b =~= b);
    } else {
        lemma_reinsert_back_append(m, a.drop_first(), b);
        assert((a + b).drop_first() =~= a.drop_first() + b);
    }
}

/// Putting back the removals recorded on one timeline, from position `i`
/// on, where the timeline holds its first `i` placements and then those
/// that stayed: the timeline comes back whole.
proof fn lemma_timeline_back(
    m: MovieView,
    e: SymbolIndexOrRoot,
    l: Seq<PlaceSymbol>,
    s: SymbolIndex,
    i: int,
)
    requires
        m.valid_target(e),
        0 <= i <= l.len(),
        l.len() <= usize::MAX,
        m.placed(e) == l.take(i) + kept_from(l, s, i),
    ensures
        reinsert_back_ok(m, removals_from(l, e, s, i)),
        reinsert_back(m, removals_from(l, e, s, i)) == m.with_placed(e, l),
    decreases l.len() - i,
{
    if i == l.len() {
        assert(kept_from(l, s, i) =~= Seq::<PlaceSymbol>::empty());
        assert(l.take(i) + Seq::<PlaceSymbol>::empty() =~= l);
        lemma_with_placed_itself(m, e);
    } else {
        lemma_kept_step(l, s, i);
        if l[i].symbol_index == s {
            let r = RemovePlacedSymbolEdit {
                editing_symbol_index: e,
                placed_symbol_index: i as usize,
                placed_symbol: l[i],
            };
            let t = l.take(i + 1) + kept_from(l, s, i + 1);
            assert(m.placed(e).insert(i, l[i]) =~= t);
            let m1 = reinsert(m, r);
            lemma_with_placed(m, e, t);
            lemma_timeline_back(m1, e, l, s, i + 1);
            lemma_reinsert_back_push(m, removals_from(l, e, s, i + 1), r);
            lemma_with_placed_twice(m, e, t, l);
        } else {
            assert(l.take(i) + (seq![l[i]] + kept_from(l, s, i + 1)) =~= l.take(i + 1) + kept_from(
                l,
                s,
                i + 1,
            ));
            lemma_timeline_back(m, e, l, s, i + 1);
        }
    }
}

/// The movie after removing a symbol and putting it back with its
/// placements renumbered, symbol by symbol.
proof fn lemma_rebuilt_symbols(m: MovieView, s: SymbolIndex, sym: SymbolView)
    requires
        s < m.symbols.len(),
    ensures
        ({
            let m2 = movie_with_symbol(movie_without_symbol(m, s), s, sym);
            &&& m2.symbols.len() == m.symbols.len()
            &&& m2.properties == m.properties
            &&& m2.root == stripped_from(m.root, s, 0).map_values(|ps: PlaceSymbol| raised(ps, s))
            &&& forall|j: int|
                0 <= j < m.symbols.len() ==> #[trigger] m2.symbols[j] == if j == s {
                    sym
                } else {
                    raised_symbol(stripped_symbol(m.symbols[j], s), s)
                }
        }),
{
    let x = m.symbols.map_values(|v: SymbolView| stripped_symbol(v, s));
    let y = x.remove(s as int);
    let z = y.map_values(|v: SymbolView| raised_symbol(v, s));
    let m2 = movie_with_symbol(movie_without_symbol(m, s), s, sym);
    assert forall|j: int| 0 <= j < m.symbols.len() implies #[trigger] m2.symbols[j] == if j == s {
        sym
    } else {
        raised_symbol(stripped_symbol(m.symbols[j], s), s)
    } by {
        if j < s {
            assert(z[j] == raised_symbol(y[j], s));
            assert(y[j] == x[j]);
        } else if j > s {
            assert(z[j - 1] == raised_symbol(y[j - 1], s));
            assert(y[j - 1] == x[j]);
        }
    }
}

/// The movie with the symbols from `k` on restored and the others as
/// rebuilt.
pub open spec fn restored_from(m: MovieView, m2: MovieView, k: int) -> MovieView {
    MovieView {
        properties: m.properties,
        root: m2.root,
        symbols: Seq::new(
            m.symbols.len(),
            |j: int|
                if j >= k {
                    m.symbols[j]
                } else {
                    m2.symbols[j]
                },
        ),
    }
}

/// Putting back the removals recorded on the timelines of the first `k`
/// symbols, the last symbol's first, restores those symbols.
proof fn lemma_restore_symbols(m: MovieView, s: SymbolIndex, k: int)
    requires
        s < m.symbols.len(),
        m.symbols.len() <= usize::MAX,
        0 <= k <= m.symbols.len(),
        removal_undoable(m, s),
    ensures
        ({
            let m2 = movie_with_symbol(movie_without_symbol(m, s), s, m.symbols[s as int]);
            &&& reinsert_back_ok(restored_from(m, m2, k), removals_of_symbols(m.symbols, s, k))
            &&& reinsert_back(restored_from(m, m2, k), removals_of_symbols(m.symbols, s, k))
                == restored_from(m, m2, 0)
        }),
    decreases k,
{
    let m2 = movie_with_symbol(movie_without_symbol(m, s), s, m.symbols[s as int]);
    lemma_rebuilt_symbols(m, s, m.symbols[s as int]);
    if k > 0 {
        let j = k - 1;
        let cur = restored_from(m, m2, k);
        let next = restored_from(m, m2, j);
        let rs = match m.symbols[j] {
            SymbolView::MovieClip(_, l) => removals_from(l, Some(j as usize), s, 0),
            _ => Seq::empty(),
        };
        assert(removals_of_symbols(m.symbols, s, k) == removals_of_symbols(m.symbols, s, j) + rs);
        lemma_reinsert_back_append(cur, removals_of_symbols(m.symbols, s, j), rs);
        if let SymbolView::MovieClip(p, l) = m.symbols[j] {
            assert(cur.is_movieclip(Some(j as usize)));
            if j == s {
                lemma_no_occurrence(l, Some(j as usize), s, 0);
                assert(l.skip(0) =~= l);
                lemma_with_placed_itself(cur, Some(j as usize));
                assert(cur.symbols =~= next.symbols);
            } else {
                assert(cur.placed(Some(j as usize)) == kept_from(l, s, 0));
                assert(l.take(0) + kept_from(l, s, 0) =~= kept_from(l, s, 0));
                lemma_timeline_back(cur, Some(j as usize), l, s, 0);
                assert(cur.with_placed(Some(j as usize), l).symbols =~= next.symbols);
            }
        } else {
            assert(rs =~= Seq::<RemovePlacedSymbolEdit>::empty());
            assert(cur.symbols =~= next.symbols);
        }
        lemma_restore_symbols(m, s, j);
    } else {
        assert(removals_of_symbols(m.symbols, s, 0) =~= Seq::<RemovePlacedSymbolEdit>::empty());
    }
}

/// Undoing the removal of a symbol, with the copy of the symbol the
/// removal keeps, restores the movie, unless the symbol is a movieclip that
/// places itself.
pub proof fn lemma_undo_remove_symbol(m: MovieView, s: SymbolIndex)
    requires
        s < m.symbols.len(),
        m.symbols.len() <= usize::MAX,
        removal_undoable(m, s),
    ensures
        ({
            let m1 = movie_without_symbol(m, s);
            let m2 = movie_with_symbol(m1, s, m.symbols[s as int]);
            let rs = recorded_removals(m, s);
            &&& s <= m1.symbols.len()
            &&& can_raise(m1)
            &&& reinsert_back_ok(m2, rs)
            &&& reinsert_back(m2, rs) == m
        }),
{
    let m1 = movie_without_symbol(m, s);
    let m2 = movie_with_symbol(m1, s, m.symbols[s as int]);
    let rs_root = removals_from(m.root, None, s, 0);
    let rs_symbols = removals_of_symbols(m.symbols, s, m.symbols.len() as int);
    lemma_rebuilt_symbols(m, s, m.symbols[s as int]);
    // the removed movie can be renumbered upwards
    lemma_stripped_bounded(m.root, s, 0);
    let x = m.symbols.map_values(|v: SymbolView| stripped_symbol(v, s));
    assert forall|i: int, p: int|
        0 <= i < m1.symbols.len() && m1.symbols[i] is MovieClip && 0 <= p
            < m1.symbols[i]->MovieClip_1.len() implies #[trigger] m1.symbols[i]->MovieClip_1[p].symbol_index
        < usize::MAX by {
        let o = if i < s {
            i
        } else {
            i + 1
        };
        assert(m1.symbols[i] == x[o]);
        lemma_stripped_bounded(m.symbols[o]->MovieClip_1, s, 0);
    }
    // the timelines of the movieclips first, the last one first
    lemma_reinsert_back_append(m2, rs_root, rs_symbols);
    assert(restored_from(m, m2, m.symbols.len() as int).symbols =~= m2.symbols);
    assert(restored_from(m, m2, m.symbols.len() as int) == m2);
    lemma_restore_symbols(m, s, m.symbols.len() as int);
    // then the root timeline
    let r0 = restored_from(m, m2, 0);
    assert(r0.symbols =~= m.symbols);
    assert(m.root.take(0) + kept_from(m.root, s, 0) =~= m2.root);
    lemma_timeline_back(r0, None, m.root, s, 0);
}

} // verus!
