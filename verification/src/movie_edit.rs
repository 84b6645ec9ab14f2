//! Reversible edits of a movie, each with an `edit` and an `undo`, and the
//! part of the editor that each one asks to show afterwards.
//!
//! Removing a symbol is the intricate one: every placement of the symbol is
//! taken off the timelines that hold it, the placements of the symbols after
//! it are renumbered, and undoing it puts all of that back.
use vstd::prelude::*;
use crate::movie::{
    BitmapCacheStatus, BitmapProperties, EditorTransform, Movie, MovieClip, MovieClipProperties,
    MovieClipPropertiesView, MovieProperties, MovieView, PlaceSymbol, PlacedSymbolIndex, Symbol,
    SymbolIndex, SymbolIndexOrRoot, SymbolView, lemma_with_placed,
};

verus! {

/// The part of the editor to show after an edit.
#[derive(PartialEq, Eq, Structural)]
pub enum MoviePropertiesOutput {
    Stage(SymbolIndexOrRoot),
    Properties(SymbolIndexOrRoot),
    PlacedSymbolProperties(SymbolIndexOrRoot, PlacedSymbolIndex),
    /// the selection is to be reset
    RemovedPlacedSymbol(SymbolIndexOrRoot),
}

pub struct AddMovieClipEdit {
    pub name: String,
}

impl AddMovieClipEdit {
    pub open spec fn edited(&self, m: MovieView) -> MovieView {
        MovieView {
            symbols: m.symbols.push(
                SymbolView::MovieClip(
                    MovieClipPropertiesView { name: self.name@, class_name: Seq::empty() },
                    Seq::empty(),
                ),
            ),
            ..m
        }
    }

    pub open spec fn undone(&self, m: MovieView) -> MovieView {
        if m.symbols.len() > 0 {
            MovieView { symbols: m.symbols.drop_last(), ..m }
        } else {
            m
        }
    }

    /// Adds an empty movieclip with the name and shows its stage.
    pub fn edit(&mut self, target: &mut Movie) -> (r: MoviePropertiesOutput)
        ensures
            *final(self) == *old(self),
            final(target)@ == old(self).edited(old(target)@),
            final(target).caches() == old(target).caches().push(None),
            r == MoviePropertiesOutput::Stage(Some(old(target).symbols.len() as usize)),
    {
        target.symbols.push(
            Symbol::MovieClip(
                MovieClip {
                    properties: MovieClipProperties {
                        name: self.name.clone(),
                        class_name: String::new(),
                    },
                    place_symbols: Vec::new(),
                },
            ),
        );
        assert(target@.symbols =~= self.edited(old(target)@).symbols);
        assert(target.caches() =~= old(target).caches().push(None));
        MoviePropertiesOutput::Stage(Some(target.symbols.len() - 1))
    }

    /// Takes the newest symbol off the library.
    pub fn undo(&mut self, target: &mut Movie) -> (r: MoviePropertiesOutput)
        ensures
            *final(self) == *old(self),
            final(target)@ == old(self).undone(old(target)@),
            r == MoviePropertiesOutput::Stage(None),
    {
        target.symbols.pop();
        assert(target@.symbols =~= self.undone(old(target)@).symbols);
        MoviePropertiesOutput::Stage(None)
    }
}

pub struct MoviePropertiesEdit {
    pub before: MovieProperties,
    pub after: MovieProperties,
}

impl MoviePropertiesEdit {
    pub fn edit(&mut self, target: &mut Movie) -> (r: MoviePropertiesOutput)
        ensures
            *final(self) == *old(self),
            final(target)@ == (MovieView { properties: old(self).after, ..old(target)@ }),
            final(target).caches() == old(target).caches(),
            r == MoviePropertiesOutput::Properties(None),
    {
        target.properties = self.after;
        assert(target@.symbols =~= old(target)@.symbols);
        MoviePropertiesOutput::Properties(None)
    }

    pub fn undo(&mut self, target: &mut Movie) -> (r: MoviePropertiesOutput)
        ensures
            *final(self) == *old(self),
            final(target)@ == (MovieView { properties: old(self).before, ..old(target)@ }),
            final(target).caches() == old(target).caches(),
            r == MoviePropertiesOutput::Properties(None),
    {
        target.properties = self.before;
        assert(target@.symbols =~= old(target)@.symbols);
        MoviePropertiesOutput::Properties(None)
    }
}

/// Sets the properties of a bitmap and drops its decoded image.
fn set_bitmap_properties_uncached(
    target: &mut Movie,
    symbol_index: SymbolIndex,
    properties: BitmapProperties,
)
    requires
        symbol_index < old(target).symbols.len(),
        old(target).symbols@[symbol_index as int] is Bitmap,
    ensures
        final(target)@ == (MovieView {
            symbols: old(target)@.symbols.update(symbol_index as int, SymbolView::Bitmap(properties)),
            ..old(target)@
        }),
        final(target).caches() == old(target).caches().update(
            symbol_index as int,
            Some(BitmapCacheStatus::Uncached),
        ),
{
    let ghost old_target = *target;
    match &mut target.symbols[symbol_index] {
        Symbol::Bitmap(bitmap) => {
            bitmap.invalidate_cache();
            bitmap.properties = properties;
        },
        _ => {},
    }
    assert(target@.symbols =~= old_target@.symbols.update(
        symbol_index as int,
        SymbolView::Bitmap(properties),
    ));
    assert(target.caches() =~= old_target.caches().update(
        symbol_index as int,
        Some(BitmapCacheStatus::Uncached),
    ));
}

pub struct BitmapPropertiesEdit {
    pub editing_symbol_index: SymbolIndex,
    pub before: BitmapProperties,
    pub after: BitmapProperties,
}

impl BitmapPropertiesEdit {
    pub fn edit(&mut self, target: &mut Movie) -> (r: MoviePropertiesOutput)
        requires
            old(self).editing_symbol_index < old(target).symbols.len(),
            old(target).symbols@[old(self).editing_symbol_index as int] is Bitmap,
        ensures
            *final(self) == *old(self),
            final(target)@ == (MovieView {
                symbols: old(target)@.symbols.update(
                    old(self).editing_symbol_index as int,
                    SymbolView::Bitmap(old(self).after),
                ),
                ..old(target)@
            }),
            final(target).caches() == old(target).caches().update(
                old(self).editing_symbol_index as int,
                Some(BitmapCacheStatus::Uncached),
            ),
            r == MoviePropertiesOutput::Properties(Some(old(self).editing_symbol_index)),
    {
        set_bitmap_properties_uncached(target, self.editing_symbol_index, self.after.clone());
        MoviePropertiesOutput::Properties(Some(self.editing_symbol_index))
    }

    pub fn undo(&mut self, target: &mut Movie) -> (r: MoviePropertiesOutput)
        requires
            old(self).editing_symbol_index < old(target).symbols.len(),
            old(target).symbols@[old(self).editing_symbol_index as int] is Bitmap,
        ensures
            *final(self) == *old(self),
            final(target)@ == (MovieView {
                symbols: old(target)@.symbols.update(
                    old(self).editing_symbol_index as int,
                    SymbolView::Bitmap(old(self).before),
                ),
                ..old(target)@
            }),
            final(target).caches() == old(target).caches().update(
                old(self).editing_symbol_index as int,
                Some(BitmapCacheStatus::Uncached),
            ),
            r == MoviePropertiesOutput::Properties(Some(old(self).editing_symbol_index)),
    {
        set_bitmap_properties_uncached(target, self.editing_symbol_index, self.before.clone());
        MoviePropertiesOutput::Properties(Some(self.editing_symbol_index))
    }
}

pub struct MovieClipPropertiesEdit {
    pub editing_symbol_index: SymbolIndex,
    pub before: MovieClipProperties,
    pub after: MovieClipProperties,
}

impl MovieClipPropertiesEdit {
    pub fn edit(&mut self, target: &mut Movie) -> (r: MoviePropertiesOutput)
        requires
            old(self).editing_symbol_index < old(target).symbols.len(),
            old(target).symbols@[old(self).editing_symbol_index as int] is MovieClip,
        ensures
            *final(self) == *old(self),
            final(target)@ == (MovieView {
                symbols: old(target)@.symbols.update(
                    old(self).editing_symbol_index as int,
                    SymbolView::MovieClip(
                        old(self).after@,
                        old(target)@.symbols[old(self).editing_symbol_index as int]->MovieClip_1,
                    ),
                ),
                ..old(target)@
            }),
            final(target).caches() == old(target).caches(),
            r == MoviePropertiesOutput::Properties(Some(old(self).editing_symbol_index)),
    {
        target.set_movieclip_properties(self.editing_symbol_index, self.after.clone());
        MoviePropertiesOutput::Properties(Some(self.editing_symbol_index))
    }

    pub fn undo(&mut self, target: &mut Movie) -> (r: MoviePropertiesOutput)
        requires
            old(self).editing_symbol_index < old(target).symbols.len(),
            old(target).symbols@[old(self).editing_symbol_index as int] is MovieClip,
        ensures
            *final(self) == *old(self),
            final(target)@ == (MovieView {
                symbols: old(target)@.symbols.update(
                    old(self).editing_symbol_index as int,
                    SymbolView::MovieClip(
                        old(self).before@,
                        old(target)@.symbols[old(self).editing_symbol_index as int]->MovieClip_1,
                    ),
                ),
                ..old(target)@
            }),
            final(target).caches() == old(target).caches(),
            r == MoviePropertiesOutput::Properties(Some(old(self).editing_symbol_index)),
    {
        target.set_movieclip_properties(self.editing_symbol_index, self.before.clone());
        MoviePropertiesOutput::Properties(Some(self.editing_symbol_index))
    }
}

/// The placed symbol an edit addresses exists.
pub open spec fn slot_ok(m: MovieView, e: SymbolIndexOrRoot, p: PlacedSymbolIndex) -> bool {
    m.valid_target(e) && p < m.placed(e).len()
}

pub struct PlacedSymbolEdit {
    pub editing_symbol_index: SymbolIndexOrRoot,
    pub placed_symbol_index: PlacedSymbolIndex,
    pub start: PlaceSymbol,
    pub end: PlaceSymbol,
}

impl PlacedSymbolEdit {
    pub fn edit(&mut self, target: &mut Movie) -> (r: MoviePropertiesOutput)
        requires
            slot_ok(old(target)@, old(self).editing_symbol_index, old(self).placed_symbol_index),
        ensures
            *final(self) == *old(self),
            final(target)@ == old(target)@.with_placed(
                old(self).editing_symbol_index,
                old(target)@.placed(old(self).editing_symbol_index).update(
                    old(self).placed_symbol_index as int,
                    old(self).end,
                ),
            ),
            final(target).caches() == old(target).caches(),
            r == MoviePropertiesOutput::PlacedSymbolProperties(
                old(self).editing_symbol_index,
                old(self).placed_symbol_index,
            ),
    {
        target.set_placed_symbol(
            self.editing_symbol_index,
            self.placed_symbol_index,
            self.end.clone(),
        );
        MoviePropertiesOutput::PlacedSymbolProperties(
            self.editing_symbol_index,
            self.placed_symbol_index,
        )
    }

    pub fn undo(&mut self, target: &mut Movie) -> (r: MoviePropertiesOutput)
        requires
            slot_ok(old(target)@, old(self).editing_symbol_index, old(self).placed_symbol_index),
        ensures
            *final(self) == *old(self),
            final(target)@ == old(target)@.with_placed(
                old(self).editing_symbol_index,
                old(target)@.placed(old(self).editing_symbol_index).update(
                    old(self).placed_symbol_index as int,
                    old(self).start,
                ),
            ),
            final(target).caches() == old(target).caches(),
            r == MoviePropertiesOutput::PlacedSymbolProperties(
                old(self).editing_symbol_index,
                old(self).placed_symbol_index,
            ),
    {
        target.set_placed_symbol(
            self.editing_symbol_index,
            self.placed_symbol_index,
            self.start.clone(),
        );
        MoviePropertiesOutput::PlacedSymbolProperties(
            self.editing_symbol_index,
            self.placed_symbol_index,
        )
    }
}

/// Moves a placed symbol: sets its transform.
pub struct MovePlacedSymbolEdit {
    pub editing_symbol_index: SymbolIndexOrRoot,
    pub placed_symbol_index: PlacedSymbolIndex,
    pub start: EditorTransform,
    pub end: EditorTransform,
}

/// Sets the transform of a placed symbol.
fn set_transform(
    target: &mut Movie,
    e: SymbolIndexOrRoot,
    p: PlacedSymbolIndex,
    transform: EditorTransform,
)
    requires
        slot_ok(old(target)@, e, p),
    ensures
        final(target)@ == old(target)@.with_placed(
            e,
            old(target)@.placed(e).update(
                p as int,
                PlaceSymbol { transform, ..old(target)@.placed(e)[p as int] },
            ),
        ),
        final(target).caches() == old(target).caches(),
{
    let symbol = PlaceSymbol::from_transform(&target.get_placed_symbols(e)[p], transform);
    target.set_placed_symbol(e, p, symbol);
}

impl MovePlacedSymbolEdit {
    pub fn edit(&mut self, target: &mut Movie) -> (r: MoviePropertiesOutput)
        requires
            slot_ok(old(target)@, old(self).editing_symbol_index, old(self).placed_symbol_index),
        ensures
            *final(self) == *old(self),
            final(target)@ == old(target)@.with_placed(
                old(self).editing_symbol_index,
                old(target)@.placed(old(self).editing_symbol_index).update(
                    old(self).placed_symbol_index as int,
                    PlaceSymbol {
                        transform: old(self).end,
                        ..old(target)@.placed(
                            old(self).editing_symbol_index,
                        )[old(self).placed_symbol_index as int]
                    },
                ),
            ),
            final(target).caches() == old(target).caches(),
            r == MoviePropertiesOutput::Stage(old(self).editing_symbol_index),
    {
        set_transform(target, self.editing_symbol_index, self.placed_symbol_index, self.end);
        MoviePropertiesOutput::Stage(self.editing_symbol_index)
    }

    pub fn undo(&mut self, target: &mut Movie) -> (r: MoviePropertiesOutput)
        requires
            slot_ok(old(target)@, old(self).editing_symbol_index, old(self).placed_symbol_index),
        ensures
            *final(self) == *old(self),
            final(target)@ == old(target)@.with_placed(
                old(self).editing_symbol_index,
                old(target)@.placed(old(self).editing_symbol_index).update(
                    old(self).placed_symbol_index as int,
                    PlaceSymbol {
                        transform: old(self).start,
                        ..old(target)@.placed(
                            old(self).editing_symbol_index,
                        )[old(self).placed_symbol_index as int]
                    },
                ),
            ),
            final(target).caches() == old(target).caches(),
            r == MoviePropertiesOutput::Stage(old(self).editing_symbol_index),
    {
        set_transform(target, self.editing_symbol_index, self.placed_symbol_index, self.start);
        MoviePropertiesOutput::Stage(self.editing_symbol_index)
    }
}

pub struct AddPlacedSymbolEdit {
    pub editing_symbol_index: SymbolIndexOrRoot,
    pub placed_symbol: PlaceSymbol,
    /// where the symbol was placed, to take it off when undoing
    pub placed_symbol_index: Option<PlacedSymbolIndex>,
}

impl AddPlacedSymbolEdit {
    /// Places the symbol at the end of the timeline and remembers where.
    pub fn edit(&mut self, target: &mut Movie) -> (r: MoviePropertiesOutput)
        requires
            old(target)@.valid_target(old(self).editing_symbol_index),
        ensures
            final(target)@ == old(target)@.with_placed(
                old(self).editing_symbol_index,
                old(target)@.placed(old(self).editing_symbol_index).push(old(self).placed_symbol),
            ),
            final(target).caches() == old(target).caches(),
            *final(self) == (AddPlacedSymbolEdit {
                placed_symbol_index: Some(
                    old(target)@.placed(old(self).editing_symbol_index).len() as usize,
                ),
                ..*old(self)
            }),
            r == MoviePropertiesOutput::PlacedSymbolProperties(
                old(self).editing_symbol_index,
                old(target)@.placed(old(self).editing_symbol_index).len() as usize,
            ),
    {
        target.push_placed_symbol(self.editing_symbol_index, self.placed_symbol.clone());
        proof {
            lemma_with_placed(
                old(target)@,
                self.editing_symbol_index,
                old(target)@.placed(self.editing_symbol_index).push(self.placed_symbol),
            );
        }
        let placed_symbol_index = target.get_placed_symbols(self.editing_symbol_index).len() - 1;
        self.placed_symbol_index = Some(placed_symbol_index);
        MoviePropertiesOutput::PlacedSymbolProperties(
            self.editing_symbol_index,
            placed_symbol_index,
        )
    }

    /// Takes the symbol off where it was placed.
    pub fn undo(&mut self, target: &mut Movie) -> (r: MoviePropertiesOutput)
        requires
            old(self).placed_symbol_index is Some,
            slot_ok(
                old(target)@,
                old(self).editing_symbol_index,
                old(self).placed_symbol_index->0,
            ),
        ensures
            *final(self) == *old(self),
            final(target)@ == old(target)@.with_placed(
                old(self).editing_symbol_index,
                old(target)@.placed(old(self).editing_symbol_index).remove(
                    old(self).placed_symbol_index->0 as int,
                ),
            ),
            final(target).caches() == old(target).caches(),
            r == MoviePropertiesOutput::RemovedPlacedSymbol(old(self).editing_symbol_index),
    {
        match self.placed_symbol_index {
            Some(placed_symbol_index) => {
                target.remove_placed_symbol(self.editing_symbol_index, placed_symbol_index);
            },
            None => {},
        }
        MoviePropertiesOutput::RemovedPlacedSymbol(self.editing_symbol_index)
    }
}

pub struct RemovePlacedSymbolEdit {
    pub editing_symbol_index: SymbolIndexOrRoot,
    pub placed_symbol_index: PlacedSymbolIndex,
    /// the placed symbol, to put back when undoing
    pub placed_symbol: PlaceSymbol,
}

impl Clone for RemovePlacedSymbolEdit {
    fn clone(&self) -> (r: Self)
        ensures
            r == *self,
    {
        RemovePlacedSymbolEdit {
            editing_symbol_index: self.editing_symbol_index,
            placed_symbol_index: self.placed_symbol_index,
            placed_symbol: self.placed_symbol.clone(),
        }
    }
}

/// The movie with a placed symbol put back where a removal took it from.
pub open spec fn reinsert(m: MovieView, r: RemovePlacedSymbolEdit) -> MovieView {
    m.with_placed(
        r.editing_symbol_index,
        m.placed(r.editing_symbol_index).insert(r.placed_symbol_index as int, r.placed_symbol),
    )
}

pub open spec fn reinsert_ok(m: MovieView, r: RemovePlacedSymbolEdit) -> bool {
    m.valid_target(r.editing_symbol_index) && r.placed_symbol_index <= m.placed(
        r.editing_symbol_index,
    ).len()
}

impl RemovePlacedSymbolEdit {
    pub fn edit(&mut self, target: &mut Movie) -> (r: MoviePropertiesOutput)
        requires
            slot_ok(old(target)@, old(self).editing_symbol_index, old(self).placed_symbol_index),
        ensures
            *final(self) == *old(self),
            final(target)@ == old(target)@.with_placed(
                old(self).editing_symbol_index,
                old(target)@.placed(old(self).editing_symbol_index).remove(
                    old(self).placed_symbol_index as int,
                ),
            ),
            final(target).caches() == old(target).caches(),
            r == MoviePropertiesOutput::RemovedPlacedSymbol(old(self).editing_symbol_index),
    {
        target.remove_placed_symbol(self.editing_symbol_index, self.placed_symbol_index);
        MoviePropertiesOutput::RemovedPlacedSymbol(self.editing_symbol_index)
    }

    pub fn undo(&mut self, target: &mut Movie) -> (r: MoviePropertiesOutput)
        requires
            reinsert_ok(old(target)@, *old(self)),
        ensures
            *final(self) == *old(self),
            final(target)@ == reinsert(old(target)@, *old(self)),
            final(target).caches() == old(target).caches(),
            r == MoviePropertiesOutput::PlacedSymbolProperties(
                old(self).editing_symbol_index,
                old(self).placed_symbol_index,
            ),
    {
        target.insert_placed_symbol(
            self.editing_symbol_index,
            self.placed_symbol_index,
            self.placed_symbol.clone(),
        );
        MoviePropertiesOutput::PlacedSymbolProperties(
            self.editing_symbol_index,
            self.placed_symbol_index,
        )
    }
}


/// A placement of a symbol after the removed one moves down one index.
pub open spec fn lowered(ps: PlaceSymbol, removed: SymbolIndex) -> PlaceSymbol {
    if ps.symbol_index > removed {
        PlaceSymbol { symbol_index: (ps.symbol_index - 1) as usize, ..ps }
    } else {
        ps
    }
}

/// A placement of the reinserted symbol or of one after it moves up one index.
pub open spec fn raised(ps: PlaceSymbol, reinserted: SymbolIndex) -> PlaceSymbol {
    if ps.symbol_index >= reinserted {
        PlaceSymbol { symbol_index: (ps.symbol_index + 1) as usize, ..ps }
    } else {
        ps
    }
}

/// The placements of `l` from position `i` on, without those of the removed
/// symbol and with the others renumbered.
pub open spec fn stripped_from(l: Seq<PlaceSymbol>, removed: SymbolIndex, i: int) -> Seq<
    PlaceSymbol,
>
    decreases l.len() - i,
{
    if i >= l.len() || i < 0 {
        Seq::empty()
    } else if l[i].symbol_index == removed {
        stripped_from(l, removed, i + 1)
    } else {
        seq![lowered(l[i], removed)] + stripped_from(l, removed, i + 1)
    }
}

/// The removals of the placements of the removed symbol at positions from
/// `i` on, the last position first.
pub open spec fn removals_from(
    l: Seq<PlaceSymbol>,
    e: SymbolIndexOrRoot,
    removed: SymbolIndex,
    i: int,
) -> Seq<RemovePlacedSymbolEdit>
    decreases l.len() - i,
{
    if i >= l.len() || i < 0 {
        Seq::empty()
    } else if l[i].symbol_index == removed {
        removals_from(l, e, removed, i + 1).push(
            RemovePlacedSymbolEdit {
                editing_symbol_index: e,
                placed_symbol_index: i as usize,
                placed_symbol: l[i],
            },
        )
    } else {
        removals_from(l, e, removed, i + 1)
    }
}

pub open spec fn stripped_symbol(s: SymbolView, removed: SymbolIndex) -> SymbolView {
    match s {
        SymbolView::MovieClip(p, l) => SymbolView::MovieClip(p, stripped_from(l, removed, 0)),
        _ => s,
    }
}

/// The removals of the first `n` symbols' timelines, in the order of the
/// symbols.
pub open spec fn removals_of_symbols(symbols: Seq<SymbolView>, removed: SymbolIndex, n: int) -> Seq<
    RemovePlacedSymbolEdit,
>
    decreases n,
{
    if n <= 0 {
        Seq::empty()
    } else {
        removals_of_symbols(symbols, removed, n - 1) + match symbols[n - 1] {
            SymbolView::MovieClip(_, l) => removals_from(l, Some((n - 1) as usize), removed, 0),
            _ => Seq::empty(),
        }
    }
}

/// The movie once every placement of the removed symbol is taken off, the
/// other placements renumbered, and the symbol itself taken out of the
/// library.
pub open spec fn movie_without_symbol(m: MovieView, removed: SymbolIndex) -> MovieView {
    MovieView {
        properties: m.properties,
        symbols: m.symbols.map_values(|s: SymbolView| stripped_symbol(s, removed)).remove(
            removed as int,
        ),
        root: stripped_from(m.root, removed, 0),
    }
}

/// The removals of placed symbols that removing a symbol records: those of
/// the root timeline, then those of each movieclip in the order of the
/// library.
pub open spec fn recorded_removals(m: MovieView, removed: SymbolIndex) -> Seq<
    RemovePlacedSymbolEdit,
> {
    removals_from(m.root, None, removed, 0) + removals_of_symbols(
        m.symbols,
        removed,
        m.symbols.len() as int,
    )
}

pub open spec fn raised_symbol(s: SymbolView, reinserted: SymbolIndex) -> SymbolView {
    match s {
        SymbolView::MovieClip(p, l) => SymbolView::MovieClip(
            p,
            l.map_values(|ps: PlaceSymbol| raised(ps, reinserted)),
        ),
        _ => s,
    }
}

/// The placed symbols put back one after the other, the last one first:
/// the removals of a timeline are recorded from its last position to its
/// first, so each goes back in front of those that follow it.
pub open spec fn reinsert_back(m: MovieView, rs: Seq<RemovePlacedSymbolEdit>) -> MovieView
    decreases rs.len(),
{
    if rs.len() == 0 {
        m
    } else {
        reinsert(reinsert_back(m, rs.drop_first()), rs.first())
    }
}

pub open spec fn reinsert_back_ok(m: MovieView, rs: Seq<RemovePlacedSymbolEdit>) -> bool
    decreases rs.len(),
{
    if rs.len() == 0 {
        true
    } else {
        reinsert_back_ok(m, rs.drop_first()) && reinsert_ok(
            reinsert_back(m, rs.drop_first()),
            rs.first(),
        )
    }
}

/// The movie with every placement renumbered for the symbol put back at
/// `reinserted`, and that symbol put back into the library.
pub open spec fn movie_with_symbol(m: MovieView, reinserted: SymbolIndex, s: SymbolView) -> MovieView {
    MovieView {
        properties: m.properties,
        symbols: m.symbols.map_values(|x: SymbolView| raised_symbol(x, reinserted)).insert(
            reinserted as int,
            s,
        ),
        root: m.root.map_values(|ps: PlaceSymbol| raised(ps, reinserted)),
    }
}

/// No placement would overflow when renumbered upwards.
pub open spec fn can_raise(m: MovieView) -> bool {
    &&& forall|p: int| 0 <= p < m.root.len() ==> #[trigger] m.root[p].symbol_index < usize::MAX
    &&& forall|i: int, p: int|
        0 <= i < m.symbols.len() && m.symbols[i] is MovieClip && 0 <= p
            < m.symbols[i]->MovieClip_1.len() ==> #[trigger] m.symbols[i]->MovieClip_1[p].symbol_index
            < usize::MAX
}

/// Removes a symbol from the library, with every placement of it.
pub struct RemoveSymbolEdit {
    pub symbol_index: SymbolIndex,
    /// a copy of the symbol, to put back when undoing
    pub symbol: Symbol,
    pub remove_place_symbol_edits: Vec<RemovePlacedSymbolEdit>,
}

impl RemoveSymbolEdit {
    /// Takes the placements of the removed symbol off one timeline, from the
    /// last position to the first, and renumbers the placements of the
    /// symbols after it.
    fn remove_placed_symbols(&mut self, target: &mut Movie, symbol_index: SymbolIndexOrRoot)
        requires
            old(target)@.valid_target(symbol_index),
        ensures
            final(self).symbol_index == old(self).symbol_index,
            final(self).symbol == old(self).symbol,
            final(self).remove_place_symbol_edits@ == old(self).remove_place_symbol_edits@
                + removals_from(
                old(target)@.placed(symbol_index),
                symbol_index,
                old(self).symbol_index,
                0,
            ),
            final(target)@ == old(target)@.with_placed(
                symbol_index,
                stripped_from(old(target)@.placed(symbol_index), old(self).symbol_index, 0),
            ),
            final(target).caches() == old(target).caches(),
    {
        let ghost old_target = *target;
        let ghost l = old(target)@.placed(symbol_index);
        let removed = self.symbol_index;
        let ghost edits0 = self.remove_place_symbol_edits@;
        let placed_symbols = target.get_placed_symbols_mut(symbol_index);
        let mut i: usize = placed_symbols.len();
        assert(l.take(i as int) =~= l);
        while i > 0
            invariant
                i <= l.len(),
                placed_symbols@ == l.take(i as int) + stripped_from(l, removed, i as int),
                self.remove_place_symbol_edits@ == edits0 + removals_from(
                    l,
                    symbol_index,
                    removed,
                    i as int,
                ),
                self.symbol_index == removed,
                self.symbol == old(self).symbol,
            decreases i,
        {
            let q = i - 1;
            assert(placed_symbols@[q as int] == l[q as int]);
            if placed_symbols[q].symbol_index == removed {
                self.remove_place_symbol_edits.push(
                    RemovePlacedSymbolEdit {
                        editing_symbol_index: symbol_index,
                        placed_symbol_index: q,
                        placed_symbol: placed_symbols[q].clone(),
                    },
                );
                placed_symbols.remove(q);
                assert(placed_symbols@ =~= l.take(q as int) + stripped_from(l, removed, q as int));
            } else if placed_symbols[q].symbol_index > removed {
                // the symbols after the removed one move down one index
                let mut placed_symbol = placed_symbols[q].clone();
                placed_symbol.symbol_index = placed_symbol.symbol_index - 1;
                placed_symbols.set(q, placed_symbol);
                assert(placed_symbols@ =~= l.take(q as int) + stripped_from(l, removed, q as int));
            } else {
                assert(placed_symbols@ =~= l.take(q as int) + stripped_from(l, removed, q as int));
            }
            i = q;
        }
        assert(placed_symbols@ =~= stripped_from(l, removed, 0));
        proof {
            Movie::lemma_placed_mut(&old_target, target, symbol_index, placed_symbols);
        }
    }

    /// Removes the symbol: takes every placement of it off the root timeline
    /// and off the timelines of the movieclips, records those removals,
    /// renumbers the placements of the symbols after it, and takes it out of
    /// the library.
    pub fn edit(&mut self, target: &mut Movie) -> (r: MoviePropertiesOutput)
        requires
            old(self).symbol_index < old(target).symbols.len(),
        ensures
            final(self).symbol_index == old(self).symbol_index,
            final(self).symbol == old(self).symbol,
            final(self).remove_place_symbol_edits@ == recorded_removals(
                old(target)@,
                old(self).symbol_index,
            ),
            final(target)@ == movie_without_symbol(old(target)@, old(self).symbol_index),
            final(target).caches() == old(target).caches().remove(old(self).symbol_index as int),
            r == MoviePropertiesOutput::Stage(None),
    {
        let ghost m0 = target@;
        let ghost removed = self.symbol_index;
        self.remove_place_symbol_edits = Vec::new();
        self.remove_placed_symbols(target, None);
        let ghost m1 = target@;
        assert(self.remove_place_symbol_edits@ =~= removals_from(m0.root, None, removed, 0));
        let mut i: usize = 0;
        while i < target.symbols.len()
            invariant
                self.symbol_index == removed,
                self.symbol == old(self).symbol,
                i <= m0.symbols.len(),
                removed < m0.symbols.len(),
                target.symbols.len() == m0.symbols.len(),
                target@.properties == m0.properties,
                target@.root == stripped_from(m0.root, removed, 0),
                forall|j: int|
                    0 <= j < m0.symbols.len() ==> #[trigger] target@.symbols[j] == if j < i {
                        stripped_symbol(m0.symbols[j], removed)
                    } else {
                        m0.symbols[j]
                    },
                self.remove_place_symbol_edits@ == removals_from(m0.root, None, removed, 0)
                    + removals_of_symbols(m0.symbols, removed, i as int),
                target.caches() == old(target).caches(),
            decreases m0.symbols.len() - i,
        {
            let ghost before = target@;
            let ghost edits_before = self.remove_place_symbol_edits@;
            if target.symbols[i].is_movieclip() {
                assert(before.is_movieclip(Some(i)));
                self.remove_placed_symbols(target, Some(i));
                proof {
                    lemma_with_placed(
                        before,
                        Some(i),
                        stripped_from(before.placed(Some(i)), removed, 0),
                    );
                    assert(target@.symbols[i as int] == stripped_symbol(m0.symbols[i as int], removed));
                    assert forall|j: int| 0 <= j < m0.symbols.len() && j != i implies #[trigger]
                        target@.symbols[j] == before.symbols[j] by {}
                    assert(self.remove_place_symbol_edits@ =~= removals_from(m0.root, None, removed, 0)
                        + removals_of_symbols(m0.symbols, removed, i + 1));
                }
            } else {
                assert(removals_of_symbols(m0.symbols, removed, i + 1) =~= removals_of_symbols(
                    m0.symbols,
                    removed,
                    i as int,
                ));
            }
            i = i + 1;
        }
        let ghost stripped = target@.symbols;
        assert(stripped =~= m0.symbols.map_values(|s: SymbolView| stripped_symbol(s, removed)));
        target.symbols.remove(self.symbol_index);
        assert(target@.symbols =~= stripped.remove(removed as int));
        assert(target.caches() =~= old(target).caches().remove(removed as int));
        MoviePropertiesOutput::Stage(None)
    }

    /// Renumbers the placements of one timeline to make room for the symbol
    /// put back at its index.
    fn increase_placed_symbols(&self, placed_symbols: &mut Vec<PlaceSymbol>)
        requires
            forall|p: int|
                0 <= p < old(placed_symbols).len() ==> #[trigger] old(
                    placed_symbols,
                )@[p].symbol_index < usize::MAX,
        ensures
            final(placed_symbols)@ == old(placed_symbols)@.map_values(
                |ps: PlaceSymbol| raised(ps, self.symbol_index),
            ),
    {
        let ghost l = placed_symbols@;
        let mut i: usize = placed_symbols.len();
        while i > 0
            invariant
                i <= l.len(),
                placed_symbols@.len() == l.len(),
                forall|p: int|
                    0 <= p < l.len() ==> #[trigger] placed_symbols@[p] == if p < i {
                        l[p]
                    } else {
                        raised(l[p], self.symbol_index)
                    },
                forall|p: int| 0 <= p < l.len() ==> #[trigger] l[p].symbol_index < usize::MAX,
            decreases i,
        {
            let q = i - 1;
            if placed_symbols[q].symbol_index >= self.symbol_index {
                let mut placed_symbol = placed_symbols[q].clone();
                placed_symbol.symbol_index = placed_symbol.symbol_index + 1;
                placed_symbols.set(q, placed_symbol);
            }
            i = q;
        }
        assert(placed_symbols@ =~= l.map_values(|ps: PlaceSymbol| raised(ps, self.symbol_index)));
    }

    /// Puts the symbol back: renumbers the placements of the symbols after
    /// it, inserts it into the library, and puts its placements back the
    /// other way round from the order the removals were recorded, so that on
    /// each timeline the first position goes back first.
    pub fn undo(&mut self, target: &mut Movie) -> (r: MoviePropertiesOutput)
        requires
            old(self).symbol_index <= old(target).symbols.len(),
            can_raise(old(target)@),
            reinsert_back_ok(
                movie_with_symbol(old(target)@, old(self).symbol_index, old(self).symbol@),
                old(self).remove_place_symbol_edits@,
            ),
        ensures
            *final(self) == *old(self),
            final(target)@ == reinsert_back(
                movie_with_symbol(old(target)@, old(self).symbol_index, old(self).symbol@),
                old(self).remove_place_symbol_edits@,
            ),
            final(target).caches() == old(target).caches().insert(
                old(self).symbol_index as int,
                match old(self).symbol {
                    Symbol::Bitmap(_) => Some(BitmapCacheStatus::Uncached),
                    _ => None,
                },
            ),
            r == match old(self).symbol {
                Symbol::MovieClip(_) => MoviePropertiesOutput::Stage(Some(old(self).symbol_index)),
                _ => MoviePropertiesOutput::Properties(Some(old(self).symbol_index)),
            },
    {
        let ghost m0 = target@;
        let ghost idx = self.symbol_index;
        self.increase_placed_symbols(&mut target.root);
        let mut i: usize = 0;
        while i < target.symbols.len()
            invariant
                self.symbol_index == idx,
                *self == *old(self),
                i <= m0.symbols.len(),
                can_raise(m0),
                target.symbols.len() == m0.symbols.len(),
                target@.properties == m0.properties,
                target@.root == m0.root.map_values(|ps: PlaceSymbol| raised(ps, idx)),
                forall|j: int|
                    0 <= j < m0.symbols.len() ==> #[trigger] target@.symbols[j] == if j < i {
                        raised_symbol(m0.symbols[j], idx)
                    } else {
                        m0.symbols[j]
                    },
                target.caches() == old(target).caches(),
            decreases m0.symbols.len() - i,
        {
            let ghost before = *target;
            if target.symbols[i].is_movieclip() {
                assert(before@.is_movieclip(Some(i)));
                let placed_symbols = target.get_placed_symbols_mut(Some(i));
                assert(forall|p: int|
                    0 <= p < placed_symbols.len() ==> #[trigger] placed_symbols@[p]
                        == m0.symbols[i as int]->MovieClip_1[p]);
                self.increase_placed_symbols(placed_symbols);
                proof {
                    Movie::lemma_placed_mut(&before, target, Some(i), placed_symbols);
                    lemma_with_placed(
                        before@,
                        Some(i),
                        before@.placed(Some(i)).map_values(|ps: PlaceSymbol| raised(ps, idx)),
                    );
                    assert(target@.symbols[i as int] == raised_symbol(m0.symbols[i as int], idx));
                    assert forall|j: int| 0 <= j < m0.symbols.len() && j != i implies #[trigger]
                        target@.symbols[j] == before@.symbols[j] by {}
                }
            }
            i = i + 1;
        }
        let ghost raised_symbols = target@.symbols;
        assert(raised_symbols =~= m0.symbols.map_values(|x: SymbolView| raised_symbol(x, idx)));
        target.symbols.insert(self.symbol_index, self.symbol.clone_without_cache());
        assert(target@.symbols =~= raised_symbols.insert(idx as int, self.symbol@));
        assert(target.caches() =~= old(target).caches().insert(
            idx as int,
            match old(self).symbol {
                Symbol::Bitmap(_) => Some(BitmapCacheStatus::Uncached),
                _ => None,
            },
        ));
        let ghost m1 = target@;
        assert(m1 == movie_with_symbol(m0, idx, self.symbol@));
        let ghost rs = self.remove_place_symbol_edits@;
        proof {
            lemma_reinsert_back_ok_suffix(m1, rs, 0);
            assert(rs.subrange(rs.len() as int, rs.len() as int) =~= Seq::<
                RemovePlacedSymbolEdit,
            >::empty());
        }
        let mut k: usize = self.remove_place_symbol_edits.len();
        while k > 0
            invariant
                *self == *old(self),
                rs == self.remove_place_symbol_edits@,
                k <= rs.len(),
                reinsert_back_ok(m1, rs),
                target@ == reinsert_back(m1, rs.subrange(k as int, rs.len() as int)),
                target.caches() == old(target).caches().insert(
                    idx as int,
                    match old(self).symbol {
                        Symbol::Bitmap(_) => Some(BitmapCacheStatus::Uncached),
                        _ => None,
                    },
                ),
            decreases k,
        {
            proof {
                lemma_reinsert_back_ok_suffix(m1, rs, k - 1);
                assert(rs.subrange(k - 1, rs.len() as int).drop_first() =~= rs.subrange(
                    k as int,
                    rs.len() as int,
                ));
            }
            let mut edit = self.remove_place_symbol_edits[k - 1].clone();
            edit.undo(target);
            k = k - 1;
        }
        assert(rs.subrange(0, rs.len() as int) =~= rs);
        match &self.symbol {
            Symbol::MovieClip(_) => MoviePropertiesOutput::Stage(Some(self.symbol_index)),
            _ => MoviePropertiesOutput::Properties(Some(self.symbol_index)),
        }
    }
}

/// Where all the reinsertions can be made, so can those of each end part.
pub proof fn lemma_reinsert_back_ok_suffix(m: MovieView, rs: Seq<RemovePlacedSymbolEdit>, j: int)
    requires
        reinsert_back_ok(m, rs),
        0 <= j <= rs.len(),
    ensures
        reinsert_back_ok(m, rs.subrange(j, rs.len() as int)),
    decreases j,
{
    if j == 0 {
        assert(rs.subrange(0, rs.len() as int) =~= rs);
    } else {
        lemma_reinsert_back_ok_suffix(m, rs, j - 1);
        assert(rs.subrange(j - 1, rs.len() as int).drop_first() =~= rs.subrange(
            j,
            rs.len() as int,
        ));
    }
}

/// An edit of a movie that the editor's history records.
pub enum MovieEdit {
    EditMovieProperties(MoviePropertiesEdit),
    AddMovieClip(AddMovieClipEdit),
    RemoveSymbol(RemoveSymbolEdit),
    EditBitmapProperties(BitmapPropertiesEdit),
    EditMovieClipProperties(MovieClipPropertiesEdit),
    EditPlacedSymbol(PlacedSymbolEdit),
    MovePlacedSymbol(MovePlacedSymbolEdit),
    AddPlacedSymbol(AddPlacedSymbolEdit),
    RemovePlacedSymbol(RemovePlacedSymbolEdit),
}

impl MovieEdit {
    /// The edit can be made on the movie without failing.
    pub open spec fn edit_ok(&self, m: MovieView) -> bool {
        match self {
            MovieEdit::EditMovieProperties(_) => true,
            MovieEdit::AddMovieClip(_) => true,
            MovieEdit::RemoveSymbol(e) => e.symbol_index < m.symbols.len(),
            MovieEdit::EditBitmapProperties(e) => e.editing_symbol_index < m.symbols.len()
                && m.symbols[e.editing_symbol_index as int] is Bitmap,
            MovieEdit::EditMovieClipProperties(e) => e.editing_symbol_index < m.symbols.len()
                && m.symbols[e.editing_symbol_index as int] is MovieClip,
            MovieEdit::EditPlacedSymbol(e) => slot_ok(
                m,
                e.editing_symbol_index,
                e.placed_symbol_index,
            ),
            MovieEdit::MovePlacedSymbol(e) => slot_ok(
                m,
                e.editing_symbol_index,
                e.placed_symbol_index,
            ),
            MovieEdit::AddPlacedSymbol(e) => m.valid_target(e.editing_symbol_index),
            MovieEdit::RemovePlacedSymbol(e) => slot_ok(
                m,
                e.editing_symbol_index,
                e.placed_symbol_index,
            ),
        }
    }

    /// The movie after the edit.
    pub open spec fn edited(&self, m: MovieView) -> MovieView {
        match self {
            MovieEdit::EditMovieProperties(e) => MovieView { properties: e.after, ..m },
            MovieEdit::AddMovieClip(e) => e.edited(m),
            MovieEdit::RemoveSymbol(e) => movie_without_symbol(m, e.symbol_index),
            MovieEdit::EditBitmapProperties(e) => MovieView {
                symbols: m.symbols.update(
                    e.editing_symbol_index as int,
                    SymbolView::Bitmap(e.after),
                ),
                ..m
            },
            MovieEdit::EditMovieClipProperties(e) => MovieView {
                symbols: m.symbols.update(
                    e.editing_symbol_index as int,
                    SymbolView::MovieClip(
                        e.after@,
                        m.symbols[e.editing_symbol_index as int]->MovieClip_1,
                    ),
                ),
                ..m
            },
            MovieEdit::EditPlacedSymbol(e) => m.with_placed(
                e.editing_symbol_index,
                m.placed(e.editing_symbol_index).update(e.placed_symbol_index as int, e.end),
            ),
            MovieEdit::MovePlacedSymbol(e) => m.with_placed(
                e.editing_symbol_index,
                m.placed(e.editing_symbol_index).update(
                    e.placed_symbol_index as int,
                    PlaceSymbol {
                        transform: e.end,
                        ..m.placed(e.editing_symbol_index)[e.placed_symbol_index as int]
                    },
                ),
            ),
            MovieEdit::AddPlacedSymbol(e) => m.with_placed(
                e.editing_symbol_index,
                m.placed(e.editing_symbol_index).push(e.placed_symbol),
            ),
            MovieEdit::RemovePlacedSymbol(e) => m.with_placed(
                e.editing_symbol_index,
                m.placed(e.editing_symbol_index).remove(e.placed_symbol_index as int),
            ),
        }
    }

    /// The part of the editor to show after the edit.
    pub open spec fn edit_output(&self, m: MovieView) -> MoviePropertiesOutput {
        match self {
            MovieEdit::EditMovieProperties(_) => MoviePropertiesOutput::Properties(None),
            MovieEdit::AddMovieClip(_) => MoviePropertiesOutput::Stage(
                Some(m.symbols.len() as usize),
            ),
            MovieEdit::RemoveSymbol(_) => MoviePropertiesOutput::Stage(None),
            MovieEdit::EditBitmapProperties(e) => MoviePropertiesOutput::Properties(
                Some(e.editing_symbol_index),
            ),
            MovieEdit::EditMovieClipProperties(e) => MoviePropertiesOutput::Properties(
                Some(e.editing_symbol_index),
            ),
            MovieEdit::EditPlacedSymbol(e) => MoviePropertiesOutput::PlacedSymbolProperties(
                e.editing_symbol_index,
                e.placed_symbol_index,
            ),
            MovieEdit::MovePlacedSymbol(e) => MoviePropertiesOutput::Stage(e.editing_symbol_index),
            MovieEdit::AddPlacedSymbol(e) => MoviePropertiesOutput::PlacedSymbolProperties(
                e.editing_symbol_index,
                m.placed(e.editing_symbol_index).len() as usize,
            ),
            MovieEdit::RemovePlacedSymbol(e) => MoviePropertiesOutput::RemovedPlacedSymbol(
                e.editing_symbol_index,
            ),
        }
    }

    /// What making the edit on `m` leaves in it: removing a symbol records
    /// the placements it takes off, adding a placed symbol records where it
    /// went, and the other edits stay as they are.
    pub open spec fn records(&self, after: MovieEdit, m: MovieView) -> bool {
        match (*self, after) {
            (MovieEdit::RemoveSymbol(a), MovieEdit::RemoveSymbol(b)) => {
                &&& b.symbol_index == a.symbol_index
                &&& b.symbol == a.symbol
                &&& b.remove_place_symbol_edits@ == recorded_removals(m, a.symbol_index)
            },
            (MovieEdit::AddPlacedSymbol(a), MovieEdit::AddPlacedSymbol(b)) => b == (
            AddPlacedSymbolEdit {
                placed_symbol_index: Some(m.placed(a.editing_symbol_index).len() as usize),
                ..a
            }),
            (MovieEdit::RemoveSymbol(_), _) => false,
            (MovieEdit::AddPlacedSymbol(_), _) => false,
            (a, b) => a == b,
        }
    }

    /// Makes the edit. Two edits record what they did, for undoing:
    /// adding a placed symbol records where it was placed, and removing a
    /// symbol records the placements it took off.
    pub fn edit(&mut self, target: &mut Movie) -> (r: MoviePropertiesOutput)
        requires
            old(self).edit_ok(old(target)@),
        ensures
            final(target)@ == old(self).edited(old(target)@),
            r == old(self).edit_output(old(target)@),
            old(self).records(*final(self), old(target)@),
    {
        match self {
            MovieEdit::EditMovieProperties(edit) => edit.edit(target),
            MovieEdit::AddMovieClip(edit) => edit.edit(target),
            MovieEdit::RemoveSymbol(edit) => edit.edit(target),
            MovieEdit::EditBitmapProperties(edit) => edit.edit(target),
            MovieEdit::EditMovieClipProperties(edit) => edit.edit(target),
            MovieEdit::EditPlacedSymbol(edit) => edit.edit(target),
            MovieEdit::MovePlacedSymbol(edit) => edit.edit(target),
            MovieEdit::AddPlacedSymbol(edit) => edit.edit(target),
            MovieEdit::RemovePlacedSymbol(edit) => edit.edit(target),
        }
    }

    /// The edit can be undone on the movie without failing.
    pub open spec fn undo_ok(&self, m: MovieView) -> bool {
        match self {
            MovieEdit::EditMovieProperties(_) => true,
            MovieEdit::AddMovieClip(_) => true,
            MovieEdit::RemoveSymbol(e) => {
                &&& e.symbol_index <= m.symbols.len()
                &&& can_raise(m)
                &&& reinsert_back_ok(
                    movie_with_symbol(m, e.symbol_index, e.symbol@),
                    e.remove_place_symbol_edits@,
                )
            },
            MovieEdit::EditBitmapProperties(e) => e.editing_symbol_index < m.symbols.len()
                && m.symbols[e.editing_symbol_index as int] is Bitmap,
            MovieEdit::EditMovieClipProperties(e) => e.editing_symbol_index < m.symbols.len()
                && m.symbols[e.editing_symbol_index as int] is MovieClip,
            MovieEdit::EditPlacedSymbol(e) => slot_ok(
                m,
                e.editing_symbol_index,
                e.placed_symbol_index,
            ),
            MovieEdit::MovePlacedSymbol(e) => slot_ok(
                m,
                e.editing_symbol_index,
                e.placed_symbol_index,
            ),
            MovieEdit::AddPlacedSymbol(e) => e.placed_symbol_index is Some && slot_ok(
                m,
                e.editing_symbol_index,
                e.placed_symbol_index->0,
            ),
            MovieEdit::RemovePlacedSymbol(e) => reinsert_ok(m, *e),
        }
    }

    /// The movie after the edit is undone.
    pub open spec fn undone(&self, m: MovieView) -> MovieView {
        match self {
            MovieEdit::EditMovieProperties(e) => MovieView { properties: e.before, ..m },
            MovieEdit::AddMovieClip(e) => e.undone(m),
            MovieEdit::RemoveSymbol(e) => reinsert_back(
                movie_with_symbol(m, e.symbol_index, e.symbol@),
                e.remove_place_symbol_edits@,
            ),
            MovieEdit::EditBitmapProperties(e) => MovieView {
                symbols: m.symbols.update(
                    e.editing_symbol_index as int,
                    SymbolView::Bitmap(e.before),
                ),
                ..m
            },
            MovieEdit::EditMovieClipProperties(e) => MovieView {
                symbols: m.symbols.update(
                    e.editing_symbol_index as int,
                    SymbolView::MovieClip(
                        e.before@,
                        m.symbols[e.editing_symbol_index as int]->MovieClip_1,
                    ),
                ),
                ..m
            },
            MovieEdit::EditPlacedSymbol(e) => m.with_placed(
                e.editing_symbol_index,
                m.placed(e.editing_symbol_index).update(e.placed_symbol_index as int, e.start),
            ),
            MovieEdit::MovePlacedSymbol(e) => m.with_placed(
                e.editing_symbol_index,
                m.placed(e.editing_symbol_index).update(
                    e.placed_symbol_index as int,
                    PlaceSymbol {
                        transform: e.start,
                        ..m.placed(e.editing_symbol_index)[e.placed_symbol_index as int]
                    },
                ),
            ),
            MovieEdit::AddPlacedSymbol(e) => m.with_placed(
                e.editing_symbol_index,
                m.placed(e.editing_symbol_index).remove(e.placed_symbol_index->0 as int),
            ),
            MovieEdit::RemovePlacedSymbol(e) => reinsert(m, *e),
        }
    }

    /// The part of the editor to show after the edit is undone.
    pub open spec fn undo_output(&self) -> MoviePropertiesOutput {
        match self {
            MovieEdit::EditMovieProperties(_) => MoviePropertiesOutput::Properties(None),
            MovieEdit::AddMovieClip(_) => MoviePropertiesOutput::Stage(None),
            MovieEdit::RemoveSymbol(e) => match e.symbol {
                Symbol::MovieClip(_) => MoviePropertiesOutput::Stage(Some(e.symbol_index)),
                _ => MoviePropertiesOutput::Properties(Some(e.symbol_index)),
            },
            MovieEdit::EditBitmapProperties(e) => MoviePropertiesOutput::Properties(
                Some(e.editing_symbol_index),
            ),
            MovieEdit::EditMovieClipProperties(e) => MoviePropertiesOutput::Properties(
                Some(e.editing_symbol_index),
            ),
            MovieEdit::EditPlacedSymbol(e) => MoviePropertiesOutput::PlacedSymbolProperties(
                e.editing_symbol_index,
                e.placed_symbol_index,
            ),
            MovieEdit::MovePlacedSymbol(e) => MoviePropertiesOutput::Stage(e.editing_symbol_index),
            MovieEdit::AddPlacedSymbol(e) => MoviePropertiesOutput::RemovedPlacedSymbol(
                e.editing_symbol_index,
            ),
            MovieEdit::RemovePlacedSymbol(e) => MoviePropertiesOutput::PlacedSymbolProperties(
                e.editing_symbol_index,
                e.placed_symbol_index,
            ),
        }
    }

    /// Undoes the edit; the edit itself stays as it is.
    pub fn undo(&mut self, target: &mut Movie) -> (r: MoviePropertiesOutput)
        requires
            old(self).undo_ok(old(target)@),
        ensures
            *final(self) == *old(self),
            final(target)@ == old(self).undone(old(target)@),
            r == old(self).undo_output(),
    {
        match self {
            MovieEdit::EditMovieProperties(edit) => edit.undo(target),
            MovieEdit::AddMovieClip(edit) => edit.undo(target),
            MovieEdit::RemoveSymbol(edit) => edit.undo(target),
            MovieEdit::EditBitmapProperties(edit) => edit.undo(target),
            MovieEdit::EditMovieClipProperties(edit) => edit.undo(target),
            MovieEdit::EditPlacedSymbol(edit) => edit.undo(target),
            MovieEdit::MovePlacedSymbol(edit) => edit.undo(target),
            MovieEdit::AddPlacedSymbol(edit) => edit.undo(target),
            MovieEdit::RemovePlacedSymbol(edit) => edit.undo(target),
        }
    }
}

} // verus!
