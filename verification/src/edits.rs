//! The edits of a movie that the undo history records: changes of
//! properties and of placed symbols, and actions that add or remove
//! movieclips and placed symbols.
use vstd::prelude::*;
use crate::movie::{
    BitmapProperties, Movie, MovieClipProperties, MovieClipPropertiesView, MovieProperties,
    MovieView, PlaceSymbol, PlacedSymbolIndex, SymbolIndex, SymbolIndexOrRoot, SymbolView,
    lemma_same_frame_ext, lemma_with_placed, lemma_with_placed_itself, lemma_with_placed_twice,
};
use crate::undo::{ActionEdit, ChangeEdit};

verus! {

/// A new value for one placed symbol.
pub struct PlacedSymbolChange {
    pub editing_symbol_index: SymbolIndexOrRoot,
    pub placed_symbol_index: PlacedSymbolIndex,
    pub placed_symbol: PlaceSymbol,
}

impl Clone for PlacedSymbolChange {
    fn clone(&self) -> (r: Self)
        ensures
            r == *self,
    {
        PlacedSymbolChange {
            editing_symbol_index: self.editing_symbol_index,
            placed_symbol_index: self.placed_symbol_index,
            placed_symbol: self.placed_symbol.clone(),
        }
    }
}

pub enum MovieChange {
    MovieProperties(MovieProperties),
    BitmapProperties(SymbolIndex, BitmapProperties),
    MovieClipProperties(SymbolIndex, MovieClipProperties),
    PlacedSymbols(Vec<PlacedSymbolChange>),
}

pub enum MovieChangeView {
    MovieProperties(MovieProperties),
    BitmapProperties(SymbolIndex, BitmapProperties),
    MovieClipProperties(SymbolIndex, MovieClipPropertiesView),
    PlacedSymbols(Seq<PlacedSymbolChange>),
}

impl View for MovieChange {
    type V = MovieChangeView;

    open spec fn view(&self) -> MovieChangeView {
        match self {
            MovieChange::MovieProperties(p) => MovieChangeView::MovieProperties(*p),
            MovieChange::BitmapProperties(i, p) => MovieChangeView::BitmapProperties(*i, *p),
            MovieChange::MovieClipProperties(i, p) => MovieChangeView::MovieClipProperties(*i, p@),
            MovieChange::PlacedSymbols(c) => MovieChangeView::PlacedSymbols(c@),
        }
    }
}

/// The placed symbol that a change sets exists.
pub open spec fn change_slot_ok(m: MovieView, c: PlacedSymbolChange) -> bool {
    &&& m.valid_target(c.editing_symbol_index)
    &&& c.placed_symbol_index < m.placed(c.editing_symbol_index).len()
}

/// The movie with one placed symbol set.
pub open spec fn set_one(m: MovieView, c: PlacedSymbolChange) -> MovieView {
    m.with_placed(
        c.editing_symbol_index,
        m.placed(c.editing_symbol_index).update(c.placed_symbol_index as int, c.placed_symbol),
    )
}

/// The movie with the placed symbols set one after the other.
pub open spec fn set_all(m: MovieView, cs: Seq<PlacedSymbolChange>) -> MovieView
    decreases cs.len(),
{
    if cs.len() == 0 {
        m
    } else {
        set_one(set_all(m, cs.drop_last()), cs.last())
    }
}

/// The changes that set the same placed symbols to their values in `m`.
pub open spec fn existing_changes(m: MovieView, cs: Seq<PlacedSymbolChange>) -> Seq<
    PlacedSymbolChange,
> {
    cs.map_values(
        |c: PlacedSymbolChange|
            PlacedSymbolChange {
                editing_symbol_index: c.editing_symbol_index,
                placed_symbol_index: c.placed_symbol_index,
                placed_symbol: m.placed(c.editing_symbol_index)[c.placed_symbol_index as int],
            },
    )
}

/// A change sets the placed symbol at position `p` of timeline `e`.
pub open spec fn targets(m: MovieView, c: PlacedSymbolChange, e: SymbolIndexOrRoot, p: int) -> bool {
    m.same_timeline(c.editing_symbol_index, e) && c.placed_symbol_index == p
}

impl ChangeEdit for MovieChange {
    type Model = Movie;

    open spec fn applicable(change: MovieChangeView, model: MovieView) -> bool {
        match change {
            MovieChangeView::MovieProperties(_) => true,
            MovieChangeView::BitmapProperties(i, _) => i < model.symbols.len()
                && model.symbols[i as int] is Bitmap,
            MovieChangeView::MovieClipProperties(i, _) => i < model.symbols.len()
                && model.symbols[i as int] is MovieClip,
            MovieChangeView::PlacedSymbols(cs) => {
                &&& model.symbols.len() <= usize::MAX
                &&& forall|k: int| 0 <= k < cs.len() ==> change_slot_ok(model, #[trigger] cs[k])
            },
        }
    }

    open spec fn apply_spec(change: MovieChangeView, model: MovieView) -> MovieView {
        match change {
            MovieChangeView::MovieProperties(p) => MovieView { properties: p, ..model },
            MovieChangeView::BitmapProperties(i, p) => MovieView {
                symbols: model.symbols.update(i as int, SymbolView::Bitmap(p)),
                ..model
            },
            MovieChangeView::MovieClipProperties(i, p) => MovieView {
                symbols: model.symbols.update(
                    i as int,
                    SymbolView::MovieClip(p, model.symbols[i as int]->MovieClip_1),
                ),
                ..model
            },
            MovieChangeView::PlacedSymbols(cs) => set_all(model, cs),
        }
    }

    open spec fn existing_spec(change: MovieChangeView, model: MovieView) -> MovieChangeView {
        match change {
            MovieChangeView::MovieProperties(_) => MovieChangeView::MovieProperties(
                model.properties,
            ),
            MovieChangeView::BitmapProperties(i, _) => MovieChangeView::BitmapProperties(
                i,
                model.symbols[i as int]->Bitmap_0,
            ),
            MovieChangeView::MovieClipProperties(i, _) => MovieChangeView::MovieClipProperties(
                i,
                model.symbols[i as int]->MovieClip_0,
            ),
            MovieChangeView::PlacedSymbols(cs) => MovieChangeView::PlacedSymbols(
                existing_changes(model, cs),
            ),
        }
    }

    open spec fn variant(change: MovieChangeView) -> nat {
        match change {
            MovieChangeView::MovieProperties(_) => 0,
            MovieChangeView::BitmapProperties(_, _) => 1,
            MovieChangeView::MovieClipProperties(_, _) => 2,
            MovieChangeView::PlacedSymbols(_) => 3,
        }
    }

    fn apply(&self, model: &mut Movie)
        ensures
            self matches MovieChange::BitmapProperties(i, p) ==> final(model).caches()
                == old(model).caches().update(
                i as int,
                Some(
                    {
                        let b = old(model).symbols@[i as int]->Bitmap_0;
                        if b.properties.path@ != p.path@ || !crate::movie::same_animation(
                            b.properties.animation,
                            p.animation,
                        ) {
                            crate::movie::BitmapCacheStatus::Uncached
                        } else {
                            b.cache
                        }
                    },
                ),
            ),
            !(self is BitmapProperties) ==> final(model).caches() == old(model).caches(),
    {
        match self {
            MovieChange::MovieProperties(movie_properties) => {
                model.properties = *movie_properties;
                assert(model@.symbols =~= old(model)@.symbols);
            },
            MovieChange::BitmapProperties(symbol_index, bitmap_properties) => {
                model.set_bitmap_properties(*symbol_index, bitmap_properties.clone());
            },
            MovieChange::MovieClipProperties(symbol_index, movieclip_properties) => {
                model.set_movieclip_properties(*symbol_index, movieclip_properties.clone());
            },
            MovieChange::PlacedSymbols(changes) => {
                let ghost m0 = model@;
                assert(self@->PlacedSymbols_0 == changes@);
                let mut k: usize = 0;
                while k < changes.len()
                    invariant
                        k <= changes.len(),
                        m0.symbols.len() <= usize::MAX,
                        forall|j: int| 0 <= j < changes.len() ==> change_slot_ok(m0, #[trigger] changes@[j]),
                        model@ == set_all(m0, changes@.take(k as int)),
                        model@.same_frame(m0),
                        model.caches() == old(model).caches(),
                    decreases changes.len() - k,
                {
                    let change = &changes[k];
                    proof {
                        lemma_same_frame_facts(m0, model@);
                        assert(change_slot_ok(m0, changes@[k as int]));
                    }
                    model.set_placed_symbol(
                        change.editing_symbol_index,
                        change.placed_symbol_index,
                        change.placed_symbol.clone(),
                    );
                    proof {
                        let ghost prev = set_all(m0, changes@.take(k as int));
                        lemma_set_one_frame(prev, changes@[k as int]);
                        lemma_same_frame_trans(m0, prev, model@);
                        assert(changes@.take(k + 1).drop_last() =~= changes@.take(k as int));
                    }
                    k = k + 1;
                }
                assert(changes@.take(changes.len() as int) =~= changes@);
            },
        }
    }

    fn existing_value(&self, model: &Movie) -> (r: Self) {
        match self {
            MovieChange::MovieProperties(_) => MovieChange::MovieProperties(model.properties),
            MovieChange::BitmapProperties(symbol_index, _) => {
                match &model.symbols[*symbol_index] {
                    crate::movie::Symbol::Bitmap(bitmap) => MovieChange::BitmapProperties(
                        *symbol_index,
                        bitmap.properties.clone(),
                    ),
                    // not reached: the symbol is a bitmap
                    _ => MovieChange::MovieProperties(model.properties),
                }
            },
            MovieChange::MovieClipProperties(symbol_index, _) => {
                match &model.symbols[*symbol_index] {
                    crate::movie::Symbol::MovieClip(movieclip) => MovieChange::MovieClipProperties(
                        *symbol_index,
                        movieclip.properties.clone(),
                    ),
                    // not reached: the symbol is a movieclip
                    _ => MovieChange::MovieProperties(model.properties),
                }
            },
            MovieChange::PlacedSymbols(changes) => {
                let mut existing: Vec<PlacedSymbolChange> = Vec::with_capacity(
                    changes.len(),
                );
                assert(self@->PlacedSymbols_0 == changes@);
                let mut k: usize = 0;
                while k < changes.len()
                    invariant
                        k <= changes.len(),
                        forall|j: int| 0 <= j < changes.len() ==> change_slot_ok(model@, #[trigger] changes@[j]),
                        existing@ == existing_changes(model@, changes@).take(k as int),
                    decreases changes.len() - k,
                {
                    let change = &changes[k];
                    assert(change_slot_ok(model@, changes@[k as int]));
                    let placed_symbols = model.get_placed_symbols(change.editing_symbol_index);
                    let symbol = &placed_symbols[change.placed_symbol_index];
                    existing.push(
                        PlacedSymbolChange {
                            editing_symbol_index: change.editing_symbol_index,
                            placed_symbol_index: change.placed_symbol_index,
                            placed_symbol: symbol.clone(),
                        },
                    );
                    k = k + 1;
                    assert(existing@ =~= existing_changes(model@, changes@).take(
                        k as int,
                    ));
                }
                assert(existing_changes(model@, changes@).take(changes.len() as int)
                    =~= existing_changes(model@, changes@));
                MovieChange::PlacedSymbols(existing)
            },
        }
    }

    fn duplicate(&self) -> (r: Self) {
        match self {
            MovieChange::MovieProperties(p) => MovieChange::MovieProperties(*p),
            MovieChange::BitmapProperties(i, p) => MovieChange::BitmapProperties(*i, p.clone()),
            MovieChange::MovieClipProperties(i, p) => MovieChange::MovieClipProperties(
                *i,
                p.clone(),
            ),
            MovieChange::PlacedSymbols(changes) => {
                let mut r: Vec<PlacedSymbolChange> = Vec::new();
                let mut k: usize = 0;
                while k < changes.len()
                    invariant
                        k <= changes.len(),
                        r@ == changes@.take(k as int),
                    decreases changes.len() - k,
                {
                    r.push(changes[k].clone());
                    k = k + 1;
                    assert(r@ =~= changes@.take(k as int));
                }
                assert(changes@.take(changes.len() as int) =~= changes@);
                MovieChange::PlacedSymbols(r)
            },
        }
    }

    proof fn lemma_existing_restores(change: MovieChangeView, model: MovieView) {
        match change {
            MovieChangeView::MovieProperties(_) => {
                let m1 = Self::apply_spec(change, model);
                let e = Self::existing_spec(change, model);
                assert(Self::applicable(e, m1));
            },
            MovieChangeView::BitmapProperties(i, _) => {
                let m1 = Self::apply_spec(change, model);
                let e = Self::existing_spec(change, model);
                assert(Self::apply_spec(e, m1).symbols =~= model.symbols);
            },
            MovieChangeView::MovieClipProperties(i, _) => {
                let m1 = Self::apply_spec(change, model);
                let e = Self::existing_spec(change, model);
                assert(Self::apply_spec(e, m1).symbols =~= model.symbols);
            },
            MovieChangeView::PlacedSymbols(cs) => {
                lemma_set_all_restores(model, cs);
            },
        }
    }
}

/// Two movies of the same frame agree on which indexes name timelines and
/// on the lengths of those timelines.
pub proof fn lemma_same_frame_facts(a: MovieView, b: MovieView)
    requires
        a.same_frame(b),
    ensures
        b.same_frame(a),
        a.symbols.len() == b.symbols.len(),
        forall|e: SymbolIndexOrRoot| #[trigger] a.valid_target(e) == b.valid_target(e),
        forall|e: SymbolIndexOrRoot| #[trigger] a.is_movieclip(e) == b.is_movieclip(e),
        forall|e: SymbolIndexOrRoot, f: SymbolIndexOrRoot| #[trigger]
            a.same_timeline(e, f) == b.same_timeline(e, f),
        forall|e: SymbolIndexOrRoot|
            a.valid_target(e) ==> #[trigger] a.placed(e).len() == b.placed(e).len(),
{
    assert forall|e: SymbolIndexOrRoot| #[trigger] a.is_movieclip(e) == b.is_movieclip(e) by {
        if let Some(i) = e {
            if i < a.symbols.len() {
                assert(a.symbols[i as int] is MovieClip == b.symbols[i as int] is MovieClip);
            }
        }
    }
    assert forall|e: SymbolIndexOrRoot|
        a.valid_target(e) implies #[trigger] a.placed(e).len() == b.placed(e).len() by {
        if let Some(i) = e {
            if i < a.symbols.len() {
                assert(a.symbols[i as int] is MovieClip == b.symbols[i as int] is MovieClip);
            }
        }
    }
    assert forall|i: int| 0 <= i < b.symbols.len() implies match (
        #[trigger] b.symbols[i],
        a.symbols[i],
    ) {
        (SymbolView::MovieClip(p, s), SymbolView::MovieClip(q, t)) => p == q && s.len() == t.len(),
        (SymbolView::MovieClip(_, _), _) => false,
        (_, SymbolView::MovieClip(_, _)) => false,
        (x, y) => x == y,
    } by {
        assert(a.symbols[i] is MovieClip == b.symbols[i] is MovieClip);
    }
}

pub proof fn lemma_same_frame_trans(a: MovieView, b: MovieView, c: MovieView)
    requires
        a.same_frame(b),
        b.same_frame(c),
    ensures
        a.same_frame(c),
{
    assert forall|i: int| 0 <= i < a.symbols.len() implies match (
        #[trigger] a.symbols[i],
        c.symbols[i],
    ) {
        (SymbolView::MovieClip(p, s), SymbolView::MovieClip(q, t)) => p == q && s.len() == t.len(),
        (SymbolView::MovieClip(_, _), _) => false,
        (_, SymbolView::MovieClip(_, _)) => false,
        (x, y) => x == y,
    } by {
        assert(a.symbols[i] is MovieClip == b.symbols[i] is MovieClip);
        assert(b.symbols[i] is MovieClip == c.symbols[i] is MovieClip);
    }
}

/// Setting one placed symbol keeps the frame of the movie and changes the
/// placed symbol it targets only.
pub proof fn lemma_set_one_frame(m: MovieView, c: PlacedSymbolChange)
    requires
        change_slot_ok(m, c),
    ensures
        m.same_frame(set_one(m, c)),
        forall|e: SymbolIndexOrRoot, p: int|
            m.valid_target(e) && 0 <= p < m.placed(e).len() ==> #[trigger] set_one(m, c).placed(
                e,
            )[p] == if targets(m, c, e, p) {
                c.placed_symbol
            } else {
                m.placed(e)[p]
            },
{
    let s = m.placed(c.editing_symbol_index).update(
        c.placed_symbol_index as int,
        c.placed_symbol,
    );
    lemma_with_placed(m, c.editing_symbol_index, s);
    assert forall|e: SymbolIndexOrRoot, p: int|
        m.valid_target(e) && 0 <= p < m.placed(e).len() implies #[trigger] set_one(m, c).placed(
        e,
    )[p] == if targets(m, c, e, p) {
        c.placed_symbol
    } else {
        m.placed(e)[p]
    } by {
        if m.same_timeline(c.editing_symbol_index, e) {
            assert(m.placed(e) == m.placed(c.editing_symbol_index));
        }
    }
}

/// Setting placed symbols one after the other keeps the frame of the movie.
pub proof fn lemma_set_all_frame(m: MovieView, cs: Seq<PlacedSymbolChange>)
    requires
        forall|k: int| 0 <= k < cs.len() ==> change_slot_ok(m, #[trigger] cs[k]),
    ensures
        m.same_frame(set_all(m, cs)),
    decreases cs.len(),
{
    if cs.len() == 0 {
        assert forall|i: int| 0 <= i < m.symbols.len() implies match (
            #[trigger] m.symbols[i],
            m.symbols[i],
        ) {
            (SymbolView::MovieClip(p, s), SymbolView::MovieClip(q, t)) => p == q && s.len()
                == t.len(),
            (SymbolView::MovieClip(_, _), _) => false,
            (_, SymbolView::MovieClip(_, _)) => false,
            (x, y) => x == y,
        } by {}
    } else {
        let pre = cs.drop_last();
        assert forall|k: int| 0 <= k < pre.len() implies change_slot_ok(m, #[trigger] pre[k]) by {
            assert(pre[k] == cs[k]);
        }
        lemma_set_all_frame(m, pre);
        let x = set_all(m, pre);
        lemma_same_frame_facts(m, x);
        assert(change_slot_ok(m, cs[cs.len() - 1]));
        lemma_set_one_frame(x, cs.last());
        lemma_same_frame_trans(m, x, set_all(m, cs));
    }
}

/// A placed symbol that none of the changes targets keeps its value.
pub proof fn lemma_set_all_untouched(
    m: MovieView,
    cs: Seq<PlacedSymbolChange>,
    e: SymbolIndexOrRoot,
    p: int,
)
    requires
        forall|k: int| 0 <= k < cs.len() ==> change_slot_ok(m, #[trigger] cs[k]),
        m.valid_target(e),
        0 <= p < m.placed(e).len(),
        forall|k: int| 0 <= k < cs.len() ==> !targets(m, #[trigger] cs[k], e, p),
    ensures
        set_all(m, cs).placed(e)[p] == m.placed(e)[p],
    decreases cs.len(),
{
    if cs.len() > 0 {
        let pre = cs.drop_last();
        assert forall|k: int| 0 <= k < pre.len() implies change_slot_ok(m, #[trigger] pre[k]) by {
            assert(pre[k] == cs[k]);
        }
        assert forall|k: int| 0 <= k < pre.len() implies !targets(m, #[trigger] pre[k], e, p) by {
            assert(pre[k] == cs[k]);
        }
        lemma_set_all_untouched(m, pre, e, p);
        lemma_set_all_frame(m, pre);
        let x = set_all(m, pre);
        lemma_same_frame_facts(m, x);
        assert(change_slot_ok(m, cs[cs.len() - 1]));
        assert(!targets(m, cs[cs.len() - 1], e, p));
        lemma_set_one_frame(x, cs.last());
    }
}

/// A placed symbol that some change targets, where every change that
/// targets it writes `v`, ends up as `v`.
pub proof fn lemma_set_all_written(
    m: MovieView,
    cs: Seq<PlacedSymbolChange>,
    e: SymbolIndexOrRoot,
    p: int,
    v: PlaceSymbol,
)
    requires
        forall|k: int| 0 <= k < cs.len() ==> change_slot_ok(m, #[trigger] cs[k]),
        m.valid_target(e),
        0 <= p < m.placed(e).len(),
        exists|k: int| 0 <= k < cs.len() && targets(m, #[trigger] cs[k], e, p),
        forall|k: int|
            0 <= k < cs.len() && targets(m, #[trigger] cs[k], e, p) ==> cs[k].placed_symbol == v,
    ensures
        set_all(m, cs).placed(e)[p] == v,
    decreases cs.len(),
{
    let pre = cs.drop_last();
    let l = cs.last();
    assert forall|k: int| 0 <= k < pre.len() implies change_slot_ok(m, #[trigger] pre[k]) by {
        assert(pre[k] == cs[k]);
    }
    lemma_set_all_frame(m, pre);
    let x = set_all(m, pre);
    lemma_same_frame_facts(m, x);
    assert(change_slot_ok(m, cs[cs.len() - 1]));
    lemma_set_one_frame(x, l);
    if !targets(m, l, e, p) {
        let k0 = choose|k: int| 0 <= k < cs.len() && targets(m, #[trigger] cs[k], e, p);
        assert(k0 < cs.len() - 1);
        assert(pre[k0] == cs[k0]);
        assert forall|k: int|
            0 <= k < pre.len() && targets(m, #[trigger] pre[k], e, p) implies pre[k].placed_symbol
            == v by {
            assert(pre[k] == cs[k]);
        }
        lemma_set_all_written(m, pre, e, p, v);
    }
}

/// Setting back the placed symbols that changes replaced restores the movie.
pub proof fn lemma_set_all_restores(m: MovieView, cs: Seq<PlacedSymbolChange>)
    requires
        m.symbols.len() <= usize::MAX,
        forall|k: int| 0 <= k < cs.len() ==> change_slot_ok(m, #[trigger] cs[k]),
    ensures
        forall|k: int|
            0 <= k < cs.len() ==> change_slot_ok(
                set_all(m, cs),
                #[trigger] existing_changes(m, cs)[k],
            ),
        set_all(set_all(m, cs), existing_changes(m, cs)) == m,
        m.same_frame(set_all(m, cs)),
        set_all(m, cs).symbols.len() == m.symbols.len(),
{
    let m1 = set_all(m, cs);
    let ex = existing_changes(m, cs);
    lemma_set_all_frame(m, cs);
    lemma_same_frame_facts(m, m1);
    assert forall|k: int| 0 <= k < ex.len() implies change_slot_ok(m1, #[trigger] ex[k]) by {
        assert(change_slot_ok(m, cs[k]));
    }
    lemma_set_all_frame(m1, ex);
    let m2 = set_all(m1, ex);
    lemma_same_frame_facts(m1, m2);
    lemma_same_frame_trans(m, m1, m2);
    lemma_same_frame_facts(m, m2);
    assert forall|e: SymbolIndexOrRoot, p: int|
        m.valid_target(e) && 0 <= p < m.placed(e).len() implies #[trigger] m.placed(e)[p]
        == m2.placed(e)[p] by {
        if exists|k: int| 0 <= k < cs.len() && targets(m, #[trigger] cs[k], e, p) {
            let k0 = choose|k: int| 0 <= k < cs.len() && targets(m, #[trigger] cs[k], e, p);
            assert(targets(m1, ex[k0], e, p));
            assert forall|k: int|
                0 <= k < ex.len() && targets(m1, #[trigger] ex[k], e, p) implies ex[k].placed_symbol
                == m.placed(e)[p] by {
                assert(m.placed(cs[k].editing_symbol_index) == m.placed(e));
            }
            lemma_set_all_written(m1, ex, e, p, m.placed(e)[p]);
        } else {
            lemma_set_all_untouched(m, cs, e, p);
            assert forall|k: int| 0 <= k < ex.len() implies !targets(m1, #[trigger] ex[k], e, p) by {
                assert(!targets(m, cs[k], e, p));
            }
            lemma_set_all_untouched(m1, ex, e, p);
        }
    }
    lemma_same_frame_facts(m2, m);
    lemma_same_frame_ext(m, m2);
}


/// A placed symbol added to, or taken off, a timeline at a position.
pub struct PlacedSymbolAction {
    pub editing_symbol_index: SymbolIndexOrRoot,
    pub placed_symbol: PlaceSymbol,
    pub placed_symbol_index: PlacedSymbolIndex,
}

impl Clone for PlacedSymbolAction {
    fn clone(&self) -> (r: Self)
        ensures
            r == *self,
    {
        PlacedSymbolAction {
            editing_symbol_index: self.editing_symbol_index,
            placed_symbol: self.placed_symbol.clone(),
            placed_symbol_index: self.placed_symbol_index,
        }
    }
}

pub enum MovieAction {
    AddMovieClip(String),
    /// The inverse of `AddMovieClip`: the newest movieclip cannot be in use
    /// yet. It has no inverse of its own.
    RemoveNewestMovieClip,
    AddPlacedSymbols(Vec<PlacedSymbolAction>),
    RemovePlacedSymbols(Vec<PlacedSymbolAction>),
}

pub enum MovieActionView {
    AddMovieClip(String),
    RemoveNewestMovieClip,
    AddPlacedSymbols(Seq<PlacedSymbolAction>),
    RemovePlacedSymbols(Seq<PlacedSymbolAction>),
}

impl View for MovieAction {
    type V = MovieActionView;

    open spec fn view(&self) -> MovieActionView {
        match self {
            MovieAction::AddMovieClip(n) => MovieActionView::AddMovieClip(*n),
            MovieAction::RemoveNewestMovieClip => MovieActionView::RemoveNewestMovieClip,
            MovieAction::AddPlacedSymbols(a) => MovieActionView::AddPlacedSymbols(a@),
            MovieAction::RemovePlacedSymbols(a) => MovieActionView::RemovePlacedSymbols(a@),
        }
    }
}

/// The position of an insertion exists.
pub open spec fn insert_ok(m: MovieView, a: PlacedSymbolAction) -> bool {
    &&& m.valid_target(a.editing_symbol_index)
    &&& a.placed_symbol_index <= m.placed(a.editing_symbol_index).len()
}

pub open spec fn add_one(m: MovieView, a: PlacedSymbolAction) -> MovieView {
    m.with_placed(
        a.editing_symbol_index,
        m.placed(a.editing_symbol_index).insert(a.placed_symbol_index as int, a.placed_symbol),
    )
}

/// The placed symbols inserted one after the other, the first one first.
pub open spec fn add_all(m: MovieView, acts: Seq<PlacedSymbolAction>) -> MovieView
    decreases acts.len(),
{
    if acts.len() == 0 {
        m
    } else {
        add_one(add_all(m, acts.drop_last()), acts.last())
    }
}

pub open spec fn add_ok(m: MovieView, acts: Seq<PlacedSymbolAction>) -> bool
    decreases acts.len(),
{
    if acts.len() == 0 {
        true
    } else {
        add_ok(m, acts.drop_last()) && insert_ok(add_all(m, acts.drop_last()), acts.last())
    }
}

/// The placed symbol to remove exists.
pub open spec fn remove_ok(m: MovieView, a: PlacedSymbolAction) -> bool {
    &&& m.valid_target(a.editing_symbol_index)
    &&& a.placed_symbol_index < m.placed(a.editing_symbol_index).len()
}

pub open spec fn remove_one(m: MovieView, a: PlacedSymbolAction) -> MovieView {
    m.with_placed(
        a.editing_symbol_index,
        m.placed(a.editing_symbol_index).remove(a.placed_symbol_index as int),
    )
}

/// The placed symbols removed one after the other, the last one first, so
/// that removing one does not move those before it.
pub open spec fn remove_all(m: MovieView, acts: Seq<PlacedSymbolAction>) -> MovieView
    decreases acts.len(),
{
    if acts.len() == 0 {
        m
    } else {
        remove_all(remove_one(m, acts.last()), acts.drop_last())
    }
}

pub open spec fn remove_all_ok(m: MovieView, acts: Seq<PlacedSymbolAction>) -> bool
    decreases acts.len(),
{
    if acts.len() == 0 {
        true
    } else {
        remove_ok(m, acts.last()) && remove_all_ok(remove_one(m, acts.last()), acts.drop_last())
    }
}

/// Each removal takes off the placed symbol that the action records.
pub open spec fn remove_all_matches(m: MovieView, acts: Seq<PlacedSymbolAction>) -> bool
    decreases acts.len(),
{
    if acts.len() == 0 {
        true
    } else {
        let a = acts.last();
        &&& remove_ok(m, a)
        &&& m.placed(a.editing_symbol_index)[a.placed_symbol_index as int] == a.placed_symbol
        &&& remove_all_matches(remove_one(m, a), acts.drop_last())
    }
}

pub open spec fn new_movieclip(name: String) -> SymbolView {
    SymbolView::MovieClip(
        MovieClipPropertiesView { name: name@, class_name: Seq::empty() },
        Seq::empty(),
    )
}

impl ActionEdit for MovieAction {
    type Model = Movie;

    open spec fn applicable(action: MovieActionView, model: MovieView) -> bool {
        match action {
            MovieActionView::AddPlacedSymbols(acts) => add_ok(model, acts),
            MovieActionView::RemovePlacedSymbols(acts) => remove_all_ok(model, acts),
            _ => true,
        }
    }

    open spec fn apply_spec(action: MovieActionView, model: MovieView) -> MovieView {
        match action {
            MovieActionView::AddMovieClip(name) => MovieView {
                symbols: model.symbols.push(new_movieclip(name)),
                ..model
            },
            MovieActionView::RemoveNewestMovieClip => if model.symbols.len() > 0 {
                MovieView { symbols: model.symbols.drop_last(), ..model }
            } else {
                model
            },
            MovieActionView::AddPlacedSymbols(acts) => add_all(model, acts),
            MovieActionView::RemovePlacedSymbols(acts) => remove_all(model, acts),
        }
    }

    open spec fn invertible(action: MovieActionView) -> bool {
        !(action is RemoveNewestMovieClip)
    }

    open spec fn invert_spec(action: MovieActionView) -> MovieActionView {
        match action {
            MovieActionView::AddMovieClip(_) => MovieActionView::RemoveNewestMovieClip,
            MovieActionView::RemoveNewestMovieClip => MovieActionView::RemoveNewestMovieClip,
            MovieActionView::AddPlacedSymbols(acts) => MovieActionView::RemovePlacedSymbols(acts),
            MovieActionView::RemovePlacedSymbols(acts) => MovieActionView::AddPlacedSymbols(acts),
        }
    }

    open spec fn reversible(action: MovieActionView, model: MovieView) -> bool {
        match action {
            MovieActionView::AddMovieClip(_) => true,
            MovieActionView::RemoveNewestMovieClip => false,
            MovieActionView::AddPlacedSymbols(acts) => add_ok(model, acts),
            MovieActionView::RemovePlacedSymbols(acts) => remove_all_matches(model, acts),
        }
    }

    fn apply(&self, model: &mut Movie)
        ensures
            final(model).caches() == (match self {
                MovieAction::AddMovieClip(_) => old(model).caches().push(None),
                MovieAction::RemoveNewestMovieClip => if old(model).symbols.len() > 0 {
                    old(model).caches().drop_last()
                } else {
                    old(model).caches()
                },
                _ => old(model).caches(),
            }),
    {
        match self {
            MovieAction::AddMovieClip(name) => {
                model.symbols.push(
                    crate::movie::Symbol::MovieClip(
                        crate::movie::MovieClip {
                            properties: MovieClipProperties {
                                name: name.clone(),
                                class_name: String::new(),
                            },
                            place_symbols: Vec::new(),
                        },
                    ),
                );
                assert(model@.symbols =~= old(model)@.symbols.push(new_movieclip(*name)));
                assert(model.caches() =~= old(model).caches().push(None));
            },
            MovieAction::RemoveNewestMovieClip => {
                model.symbols.pop();
                assert(model@.symbols =~= (if old(model).symbols.len() > 0 {
                    old(model)@.symbols.drop_last()
                } else {
                    old(model)@.symbols
                }));
                assert(model.caches() =~= (if old(model).symbols.len() > 0 {
                    old(model).caches().drop_last()
                } else {
                    old(model).caches()
                }));
            },
            MovieAction::AddPlacedSymbols(actions) => {
                let ghost m0 = model@;
                assert(self@->AddPlacedSymbols_0 == actions@);
                let mut k: usize = 0;
                while k < actions.len()
                    invariant
                        k <= actions.len(),
                        add_ok(m0, actions@),
                        model@ == add_all(m0, actions@.take(k as int)),
                        model.caches() == old(model).caches(),
                    decreases actions.len() - k,
                {
                    proof {
                        lemma_add_ok_prefix(m0, actions@, k + 1);
                        assert(actions@.take(k + 1).drop_last() =~= actions@.take(k as int));
                    }
                    let action = &actions[k];
                    model.insert_placed_symbol(
                        action.editing_symbol_index,
                        action.placed_symbol_index,
                        action.placed_symbol.clone(),
                    );
                    k = k + 1;
                }
                assert(actions@.take(actions.len() as int) =~= actions@);
            },
            MovieAction::RemovePlacedSymbols(actions) => {
                // from the last one to the first, so that the positions of the
                // ones still to remove do not move (this assumes that the
                // positions on one timeline come in increasing order)
                let ghost m0 = model@;
                assert(self@->RemovePlacedSymbols_0 == actions@);
                assert(actions@.take(actions.len() as int) =~= actions@);
                let mut k: usize = actions.len();
                while k > 0
                    invariant
                        k <= actions.len(),
                        remove_all_ok(model@, actions@.take(k as int)),
                        remove_all(model@, actions@.take(k as int)) == remove_all(m0, actions@),
                        model.caches() == old(model).caches(),
                    decreases k,
                {
                    proof {
                        assert(actions@.take(k as int).drop_last() =~= actions@.take(k - 1));
                    }
                    let action = &actions[k - 1];
                    model.remove_placed_symbol(
                        action.editing_symbol_index,
                        action.placed_symbol_index,
                    );
                    k = k - 1;
                }
            },
        }
    }

    fn invert(self) -> (r: Self) {
        match self {
            MovieAction::AddMovieClip(_) => MovieAction::RemoveNewestMovieClip,
            // not reached: it has no inverse
            MovieAction::RemoveNewestMovieClip => MovieAction::RemoveNewestMovieClip,
            MovieAction::AddPlacedSymbols(actions) => MovieAction::RemovePlacedSymbols(actions),
            MovieAction::RemovePlacedSymbols(actions) => MovieAction::AddPlacedSymbols(actions),
        }
    }

    fn duplicate(&self) -> (r: Self) {
        match self {
            MovieAction::AddMovieClip(name) => MovieAction::AddMovieClip(name.clone()),
            MovieAction::RemoveNewestMovieClip => MovieAction::RemoveNewestMovieClip,
            MovieAction::AddPlacedSymbols(actions) => MovieAction::AddPlacedSymbols(
                clone_placed_symbol_actions(actions),
            ),
            MovieAction::RemovePlacedSymbols(actions) => MovieAction::RemovePlacedSymbols(
                clone_placed_symbol_actions(actions),
            ),
        }
    }

    proof fn lemma_inverse_undoes(action: MovieActionView, model: MovieView) {
        match action {
            MovieActionView::AddMovieClip(name) => {
                let m1 = Self::apply_spec(action, model);
                assert(m1.symbols.drop_last() =~= model.symbols);
            },
            MovieActionView::RemoveNewestMovieClip => {},
            MovieActionView::AddPlacedSymbols(acts) => {
                lemma_add_then_remove(model, acts);
            },
            MovieActionView::RemovePlacedSymbols(acts) => {
                lemma_remove_then_add(model, acts);
            },
        }
    }
}

pub fn clone_placed_symbol_actions(v: &Vec<PlacedSymbolAction>) -> (r: Vec<PlacedSymbolAction>)
    ensures
        r@ == v@,
{
    let mut r: Vec<PlacedSymbolAction> = Vec::new();
    let mut k: usize = 0;
    while k < v.len()
        invariant
            k <= v.len(),
            r@ == v@.take(k as int),
        decreases v.len() - k,
    {
        r.push(v[k].clone());
        k = k + 1;
        assert(r@ =~= v@.take(k as int));
    }
    assert(v@.take(v.len() as int) =~= v@);
    r
}

/// The insertions of a prefix of the actions can be made.
pub proof fn lemma_add_ok_prefix(m: MovieView, acts: Seq<PlacedSymbolAction>, j: int)
    requires
        add_ok(m, acts),
        0 <= j <= acts.len(),
    ensures
        add_ok(m, acts.take(j)),
    decreases acts.len() - j,
{
    if j == acts.len() {
        assert(acts.take(j) =~= acts);
    } else {
        lemma_add_ok_prefix(m, acts, j + 1);
        assert(acts.take(j + 1).drop_last() =~= acts.take(j));
    }
}

/// Inserting a placed symbol and removing it again leaves the movie as it was.
pub proof fn lemma_remove_one_add_one(m: MovieView, a: PlacedSymbolAction)
    requires
        insert_ok(m, a),
    ensures
        remove_ok(add_one(m, a), a),
        remove_one(add_one(m, a), a) == m,
{
    let e = a.editing_symbol_index;
    let s = m.placed(e).insert(a.placed_symbol_index as int, a.placed_symbol);
    lemma_with_placed(m, e, s);
    lemma_with_placed_twice(m, e, s, s.remove(a.placed_symbol_index as int));
    assert(s.remove(a.placed_symbol_index as int) =~= m.placed(e));
    lemma_with_placed_itself(m, e);
}

/// Removing the placed symbol an action records and inserting it again
/// leaves the movie as it was.
pub proof fn lemma_add_one_remove_one(m: MovieView, a: PlacedSymbolAction)
    requires
        remove_ok(m, a),
        m.placed(a.editing_symbol_index)[a.placed_symbol_index as int] == a.placed_symbol,
    ensures
        insert_ok(remove_one(m, a), a),
        add_one(remove_one(m, a), a) == m,
{
    let e = a.editing_symbol_index;
    let s = m.placed(e).remove(a.placed_symbol_index as int);
    lemma_with_placed(m, e, s);
    lemma_with_placed_twice(m, e, s, s.insert(a.placed_symbol_index as int, a.placed_symbol));
    assert(s.insert(a.placed_symbol_index as int, a.placed_symbol) =~= m.placed(e));
    lemma_with_placed_itself(m, e);
}

/// Removing the placed symbols that were just added restores the movie.
pub proof fn lemma_add_then_remove(m: MovieView, acts: Seq<PlacedSymbolAction>)
    requires
        add_ok(m, acts),
    ensures
        remove_all_ok(add_all(m, acts), acts),
        remove_all(add_all(m, acts), acts) == m,
    decreases acts.len(),
{
    if acts.len() > 0 {
        let pre = acts.drop_last();
        lemma_add_then_remove(m, pre);
        lemma_remove_one_add_one(add_all(m, pre), acts.last());
    }
}

/// Adding back the placed symbols that were just removed restores the movie,
/// when the actions record the placed symbols they remove.
pub proof fn lemma_remove_then_add(m: MovieView, acts: Seq<PlacedSymbolAction>)
    requires
        remove_all_matches(m, acts),
    ensures
        remove_all_ok(m, acts),
        add_ok(remove_all(m, acts), acts),
        add_all(remove_all(m, acts), acts) == m,
    decreases acts.len(),
{
    if acts.len() > 0 {
        let pre = acts.drop_last();
        let l = acts.last();
        lemma_remove_then_add(remove_one(m, l), pre);
        lemma_add_one_remove_one(m, l);
    }
}

} // verus!
