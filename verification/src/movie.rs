//! The project model: a movie, the symbols of its library and the symbols
//! placed on its root timeline or inside movieclips.
//!
//! Real numbers of the project (positions, scales, sizes, the frame rate) are
//! kept as the bit patterns of IEEE-754 numbers: the library moves them around
//! and compares them, and only the code that draws or exports them reads them
//! as numbers.
use vstd::prelude::*;

verus! {

pub type SymbolIndex = usize;

pub type SymbolIndexOrRoot = Option<SymbolIndex>;

pub type PlacedSymbolIndex = usize;

/// The SWF version that exported movies declare (the newest Flash player).
pub const SWF_VERSION: u8 = 43;

/// Bit pattern of the 64-bit float 640.0.
pub const DEFAULT_WIDTH_BITS: u64 = 0x4084000000000000;

/// Bit pattern of the 64-bit float 360.0.
pub const DEFAULT_HEIGHT_BITS: u64 = 0x4076800000000000;

/// Bit pattern of the 32-bit float 60.0.
pub const DEFAULT_FRAME_RATE_BITS: u32 = 0x42700000;

/// Bit pattern of the 64-bit float 1.0, the scale of an unscaled placement.
pub const ONE_BITS: u64 = 0x3ff0000000000000;

#[derive(Clone, Copy, PartialEq, Eq, Structural, Debug)]
pub struct EditorColor {
    pub r: u8,
    pub g: u8,
    pub b: u8,
    pub a: u8,
}

#[derive(Clone, Copy, PartialEq, Eq, Structural, Debug)]
pub enum PreloaderType {
    NoPreloader,
    StartAfterLoading,
    WithPlayButton,
}

pub open spec fn preloader_label(p: PreloaderType) -> Seq<char> {
    match p {
        PreloaderType::NoPreloader => "None"@,
        PreloaderType::StartAfterLoading => "Start after loading"@,
        PreloaderType::WithPlayButton => "With play button"@,
    }
}

impl PreloaderType {
    /// The label under which the preloader setting is shown.
    pub fn to_string(&self) -> (s: String)
        ensures
            s@ == preloader_label(*self),
    {
        match self {
            PreloaderType::NoPreloader => String::from_str("None"),
            PreloaderType::StartAfterLoading => String::from_str("Start after loading"),
            PreloaderType::WithPlayButton => String::from_str("With play button"),
        }
    }
}

/// The settings of the movie as a whole.
#[derive(Clone, Copy, PartialEq, Eq, Structural, Debug)]
pub struct MovieProperties {
    /// bits of an f64, in pixels
    pub width: u64,
    /// bits of an f64, in pixels
    pub height: u64,
    /// bits of an f32, in frames per second
    pub frame_rate: u32,
    pub background_color: EditorColor,
    pub preloader: PreloaderType,
}

pub open spec fn default_movie_properties() -> MovieProperties {
    MovieProperties {
        width: DEFAULT_WIDTH_BITS,
        height: DEFAULT_HEIGHT_BITS,
        frame_rate: DEFAULT_FRAME_RATE_BITS,
        background_color: EditorColor { r: 255, g: 255, b: 255, a: 255 },
        preloader: PreloaderType::NoPreloader,
    }
}

impl Default for MovieProperties {
    fn default() -> (p: Self)
        ensures
            p == default_movie_properties(),
    {
        MovieProperties {
            width: DEFAULT_WIDTH_BITS,
            height: DEFAULT_HEIGHT_BITS,
            frame_rate: DEFAULT_FRAME_RATE_BITS,
            background_color: EditorColor { r: 255, g: 255, b: 255, a: 255 },
            preloader: PreloaderType::NoPreloader,
        }
    }
}

pub struct Animation {
    pub frame_count: u32,
    pub frame_delay: u32,
    /// empty string means no end action
    pub end_action: String,
}

impl Clone for Animation {
    fn clone(&self) -> (r: Self)
        ensures
            r == *self,
    {
        Animation {
            frame_count: self.frame_count,
            frame_delay: self.frame_delay,
            end_action: self.end_action.clone(),
        }
    }
}

pub struct BitmapProperties {
    pub name: String,
    pub path: String,
    pub animation: Option<Animation>,
}

impl Clone for BitmapProperties {
    fn clone(&self) -> (r: Self)
        ensures
            r == *self,
    {
        BitmapProperties {
            name: self.name.clone(),
            path: self.path.clone(),
            animation: match &self.animation {
                Some(a) => Some(a.clone()),
                None => None,
            },
        }
    }
}

/// Whether two animation settings hold the same values.
pub open spec fn same_animation(a: Option<Animation>, b: Option<Animation>) -> bool {
    match (a, b) {
        (Some(a), Some(b)) => a.frame_count == b.frame_count && a.frame_delay == b.frame_delay
            && a.end_action@ == b.end_action@,
        (None, None) => true,
        _ => false,
    }
}

/// Whether two animation settings hold the same values.
pub fn animation_eq(a: &Option<Animation>, b: &Option<Animation>) -> (r: bool)
    ensures
        r == same_animation(*a, *b),
{
    match (a, b) {
        (Some(a), Some(b)) => a.frame_count == b.frame_count && a.frame_delay == b.frame_delay
            && a.end_action == b.end_action,
        (None, None) => true,
        _ => false,
    }
}

/// The decoded image of a bitmap, of which the library keeps the size; the
/// pixels themselves stay with the code that draws them.
#[derive(Clone, Copy, PartialEq, Eq, Structural, Debug)]
pub struct CachedBitmap {
    pub width: u32,
    pub height: u32,
}

pub enum BitmapCacheStatus {
    Uncached,
    Cached(CachedBitmap),
    Invalid(String),
}

pub struct Bitmap {
    pub properties: BitmapProperties,
    pub cache: BitmapCacheStatus,
}

impl Bitmap {
    pub fn invalidate_cache(&mut self)
        ensures
            final(self).properties == old(self).properties,
            final(self).cache is Uncached,
    {
        self.cache = BitmapCacheStatus::Uncached;
    }

    /// The size of the decoded image, when there is one.
    pub fn size(&self) -> (r: Option<(u32, u32)>)
        ensures
            r == (match self.cache {
                BitmapCacheStatus::Cached(c) => Some((c.width, c.height)),
                _ => None,
            }),
    {
        match &self.cache {
            BitmapCacheStatus::Uncached => None,
            BitmapCacheStatus::Cached(cached_bitmap) => Some(
                (cached_bitmap.width, cached_bitmap.height),
            ),
            BitmapCacheStatus::Invalid(_) => None,
        }
    }
}

pub struct MovieClipProperties {
    pub name: String,
    pub class_name: String,
}

pub struct MovieClipPropertiesView {
    pub name: Seq<char>,
    pub class_name: Seq<char>,
}

impl View for MovieClipProperties {
    type V = MovieClipPropertiesView;

    open spec fn view(&self) -> MovieClipPropertiesView {
        MovieClipPropertiesView { name: self.name@, class_name: self.class_name@ }
    }
}

impl Clone for MovieClipProperties {
    fn clone(&self) -> (r: Self)
        ensures
            r == *self,
    {
        MovieClipProperties { name: self.name.clone(), class_name: self.class_name.clone() }
    }
}

/// Where a symbol is placed and how it is scaled.
#[derive(Clone, Copy, PartialEq, Eq, Structural, Debug)]
pub struct EditorTransform {
    /// bits of an f64
    pub x: u64,
    /// bits of an f64
    pub y: u64,
    /// bits of an f64
    pub x_scale: u64,
    /// bits of an f64
    pub y_scale: u64,
}

pub struct TextProperties {
    pub text: String,
    /// bits of an f64
    pub width: u64,
    /// bits of an f64
    pub height: u64,
    /// bits of an f64
    pub size: u64,
}

impl Clone for TextProperties {
    fn clone(&self) -> (r: Self)
        ensures
            r == *self,
    {
        TextProperties {
            text: self.text.clone(),
            width: self.width,
            height: self.height,
            size: self.size,
        }
    }
}

/// A symbol of the library placed on a timeline.
pub struct PlaceSymbol {
    pub symbol_index: SymbolIndex,
    pub transform: EditorTransform,
    pub instance_name: String,
    pub text: Option<TextProperties>,
}

impl Clone for PlaceSymbol {
    fn clone(&self) -> (r: Self)
        ensures
            r == *self,
    {
        PlaceSymbol {
            symbol_index: self.symbol_index,
            transform: self.transform,
            instance_name: self.instance_name.clone(),
            text: match &self.text {
                Some(t) => Some(t.clone()),
                None => None,
            },
        }
    }
}

impl PlaceSymbol {
    /// The same placement with another transform.
    pub fn from_transform(exisiting_place_symbol: &PlaceSymbol, transform: EditorTransform) -> (r:
        PlaceSymbol)
        ensures
            r == (PlaceSymbol { transform, ..*exisiting_place_symbol }),
    {
        PlaceSymbol {
            symbol_index: exisiting_place_symbol.symbol_index,
            transform,
            instance_name: exisiting_place_symbol.instance_name.clone(),
            text: match &exisiting_place_symbol.text {
                Some(t) => Some(t.clone()),
                None => None,
            },
        }
    }
}

pub struct MovieClip {
    pub properties: MovieClipProperties,
    pub place_symbols: Vec<PlaceSymbol>,
}

pub struct FlitsFont {
    pub path: String,
    pub characters: String,
}

impl Clone for FlitsFont {
    fn clone(&self) -> (r: Self)
        ensures
            r == *self,
    {
        FlitsFont { path: self.path.clone(), characters: self.characters.clone() }
    }
}

pub enum Symbol {
    Bitmap(Bitmap),
    MovieClip(MovieClip),
    Font(FlitsFont),
}

/// A symbol as the project file holds it: without the decoded image of a
/// bitmap.
pub enum SymbolView {
    Bitmap(BitmapProperties),
    MovieClip(MovieClipPropertiesView, Seq<PlaceSymbol>),
    Font(FlitsFont),
}

impl View for Symbol {
    type V = SymbolView;

    open spec fn view(&self) -> SymbolView {
        match self {
            Symbol::Bitmap(b) => SymbolView::Bitmap(b.properties),
            Symbol::MovieClip(m) => SymbolView::MovieClip(m.properties@, m.place_symbols@),
            Symbol::Font(f) => SymbolView::Font(*f),
        }
    }
}

pub open spec fn symbol_name(s: SymbolView) -> Seq<char> {
    match s {
        SymbolView::Bitmap(p) => p.name@,
        SymbolView::MovieClip(p, _) => p.name,
        SymbolView::Font(f) => f.path@,
    }
}

pub open spec fn symbol_type_label(s: SymbolView) -> Seq<char> {
    match s {
        SymbolView::Bitmap(_) => "Bitmap"@,
        SymbolView::MovieClip(_, _) => "MovieClip"@,
        SymbolView::Font(_) => "Font"@,
    }
}

impl Symbol {
    /// The decoded image of a bitmap, which the view leaves out.
    pub open spec fn cache_of(&self) -> Option<BitmapCacheStatus> {
        match self {
            Symbol::Bitmap(b) => Some(b.cache),
            _ => None,
        }
    }

    pub fn is_movieclip(&self) -> (r: bool)
        ensures
            r == (self is MovieClip),
    {
        match self {
            Symbol::MovieClip(_) => true,
            _ => false,
        }
    }

    pub fn name(&self) -> (r: String)
        ensures
            r@ == symbol_name(self@),
    {
        match self {
            Symbol::Bitmap(bitmap) => bitmap.properties.name.clone(),
            Symbol::MovieClip(movieclip) => movieclip.properties.name.clone(),
            Symbol::Font(font) => font.path.clone(),
        }
    }

    /// A bitmap whose image could not be read.
    pub fn is_invalid(&self) -> (r: bool)
        ensures
            r == (self matches Symbol::Bitmap(b) && b.cache is Invalid),
    {
        match self {
            Symbol::Bitmap(bitmap) => match bitmap.cache {
                BitmapCacheStatus::Invalid(_) => true,
                _ => false,
            },
            _ => false,
        }
    }

    pub fn type_label(&self) -> (r: &'static str)
        ensures
            r@ == symbol_type_label(self@),
    {
        match self {
            Symbol::Bitmap(_) => "Bitmap",
            Symbol::MovieClip(_) => "MovieClip",
            Symbol::Font(_) => "Font",
        }
    }

    /// A copy of the symbol; a bitmap's copy has no decoded image.
    pub fn clone_without_cache(&self) -> (r: Self)
        ensures
            r@ == self@,
            r matches Symbol::Bitmap(b) ==> b.cache is Uncached,
    {
        match self {
            Symbol::Bitmap(bitmap) => Symbol::Bitmap(
                Bitmap { properties: bitmap.properties.clone(), cache: BitmapCacheStatus::Uncached },
            ),
            Symbol::MovieClip(movieclip) => Symbol::MovieClip(
                MovieClip {
                    properties: movieclip.properties.clone(),
                    place_symbols: clone_place_symbols(&movieclip.place_symbols),
                },
            ),
            Symbol::Font(font) => Symbol::Font(font.clone()),
        }
    }
}

/// A copy of a list of placed symbols.
pub fn clone_place_symbols(v: &Vec<PlaceSymbol>) -> (r: Vec<PlaceSymbol>)
    ensures
        r@ == v@,
{
    let mut r: Vec<PlaceSymbol> = Vec::new();
    let mut i: usize = 0;
    while i < v.len()
        invariant
            i <= v.len(),
            r@ == v@.take(i as int),
        decreases v.len() - i,
    {
        r.push(v[i].clone());
        i = i + 1;
        assert(r@ =~= v@.take(i as int));
    }
    assert(v@.take(v.len() as int) =~= v@);
    r
}

pub struct Movie {
    pub properties: MovieProperties,
    pub symbols: Vec<Symbol>,
    pub root: Vec<PlaceSymbol>,
}

/// A movie as the project file holds it.
pub struct MovieView {
    pub properties: MovieProperties,
    pub symbols: Seq<SymbolView>,
    pub root: Seq<PlaceSymbol>,
}

impl View for Movie {
    type V = MovieView;

    open spec fn view(&self) -> MovieView {
        MovieView {
            properties: self.properties,
            symbols: self.symbols@.map_values(|s: Symbol| s@),
            root: self.root@,
        }
    }
}

impl MovieView {
    /// An index that names the root timeline or a symbol of the library.
    pub open spec fn valid_target(self, index: SymbolIndexOrRoot) -> bool {
        match index {
            Some(i) => i < self.symbols.len(),
            None => true,
        }
    }

    /// Whether the index names a movieclip, whose timeline it then stands for.
    pub open spec fn is_movieclip(self, index: SymbolIndexOrRoot) -> bool {
        match index {
            Some(i) => i < self.symbols.len() && self.symbols[i as int] is MovieClip,
            None => false,
        }
    }

    /// The timeline that an index stands for: that of a movieclip, or else
    /// the root timeline.
    pub open spec fn placed(self, index: SymbolIndexOrRoot) -> Seq<PlaceSymbol> {
        if self.is_movieclip(index) {
            self.symbols[index->0 as int]->MovieClip_1
        } else {
            self.root
        }
    }

    /// The movie with the timeline that an index stands for replaced.
    pub open spec fn with_placed(self, index: SymbolIndexOrRoot, s: Seq<PlaceSymbol>) -> MovieView {
        if self.is_movieclip(index) {
            let i = index->0 as int;
            MovieView {
                symbols: self.symbols.update(
                    i,
                    SymbolView::MovieClip(self.symbols[i]->MovieClip_0, s),
                ),
                ..self
            }
        } else {
            MovieView { root: s, ..self }
        }
    }

    /// Two indexes that stand for the same timeline.
    pub open spec fn same_timeline(self, a: SymbolIndexOrRoot, b: SymbolIndexOrRoot) -> bool {
        if self.is_movieclip(a) {
            self.is_movieclip(b) && a == b
        } else {
            !self.is_movieclip(b)
        }
    }

    /// Two movies that differ at most in the contents of their timelines:
    /// same properties, same symbols but for the placements of movieclips,
    /// and timelines of the same lengths.
    pub open spec fn same_frame(self, other: MovieView) -> bool {
        &&& self.properties == other.properties
        &&& self.symbols.len() == other.symbols.len()
        &&& self.root.len() == other.root.len()
        &&& forall|i: int|
            0 <= i < self.symbols.len() ==> match (#[trigger] self.symbols[i], other.symbols[i]) {
                (SymbolView::MovieClip(p, s), SymbolView::MovieClip(q, t)) => p == q && s.len()
                    == t.len(),
                (SymbolView::MovieClip(_, _), _) => false,
                (_, SymbolView::MovieClip(_, _)) => false,
                (a, b) => a == b,
            }
    }

    pub open spec fn num_frames(self) -> u16 {
        match self.properties.preloader {
            PreloaderType::NoPreloader => 1,
            PreloaderType::StartAfterLoading => 2,
            PreloaderType::WithPlayButton => 3,
        }
    }
}

/// Replacing a timeline and reading it back gives the replacement; the other
/// timelines and the rest of the movie stay as they were.
pub proof fn lemma_with_placed(m: MovieView, e: SymbolIndexOrRoot, s: Seq<PlaceSymbol>)
    requires
        m.valid_target(e),
    ensures
        m.with_placed(e, s).placed(e) == s,
        m.with_placed(e, s).properties == m.properties,
        m.with_placed(e, s).symbols.len() == m.symbols.len(),
        forall|e2: SymbolIndexOrRoot| #[trigger]
            m.with_placed(e, s).is_movieclip(e2) == m.is_movieclip(e2),
        forall|e2: SymbolIndexOrRoot| #[trigger]
            m.with_placed(e, s).valid_target(e2) == m.valid_target(e2),
        forall|e2: SymbolIndexOrRoot|
            !m.same_timeline(e, e2) ==> #[trigger] m.with_placed(e, s).placed(e2) == m.placed(e2),
        forall|e2: SymbolIndexOrRoot|
            m.same_timeline(e, e2) ==> #[trigger] m.with_placed(e, s).placed(e2) == s,
        s.len() == m.placed(e).len() ==> m.same_frame(m.with_placed(e, s)),
{
    let w = m.with_placed(e, s);
    assert forall|e2: SymbolIndexOrRoot| #[trigger] w.is_movieclip(e2) == m.is_movieclip(e2) by {
        if let Some(j) = e2 {
            if j < m.symbols.len() && m.is_movieclip(e) {
                assert(w.symbols[j as int] is MovieClip == m.symbols[j as int] is MovieClip);
            }
        }
    }
}

/// Putting back the timeline a movie has leaves the movie as it is.
pub proof fn lemma_with_placed_itself(m: MovieView, e: SymbolIndexOrRoot)
    requires
        m.valid_target(e),
    ensures
        m.with_placed(e, m.placed(e)) == m,
{
    if m.is_movieclip(e) {
        assert(m.with_placed(e, m.placed(e)).symbols =~= m.symbols);
    }
}

/// Replacing a timeline twice is replacing it with the second one.
pub proof fn lemma_with_placed_twice(
    m: MovieView,
    e: SymbolIndexOrRoot,
    s1: Seq<PlaceSymbol>,
    s2: Seq<PlaceSymbol>,
)
    requires
        m.valid_target(e),
    ensures
        m.with_placed(e, s1).with_placed(e, s2) == m.with_placed(e, s2),
{
    lemma_with_placed(m, e, s1);
    if m.is_movieclip(e) {
        assert(m.with_placed(e, s1).with_placed(e, s2).symbols =~= m.with_placed(e, s2).symbols);
    }
}

/// Two movies of the same frame whose timelines hold the same placed
/// symbols are the same movie.
pub proof fn lemma_same_frame_ext(a: MovieView, b: MovieView)
    requires
        a.same_frame(b),
        a.symbols.len() <= usize::MAX,
        forall|e: SymbolIndexOrRoot, p: int|
            a.valid_target(e) && 0 <= p < a.placed(e).len() ==> #[trigger] a.placed(e)[p]
                == b.placed(e)[p],
    ensures
        a == b,
{
    assert forall|i: int| 0 <= i < a.symbols.len() implies a.symbols[i] == b.symbols[i] by {
        if a.symbols[i] is MovieClip {
            let e = Some(i as usize);
            assert(a.is_movieclip(e) && b.is_movieclip(e));
            assert forall|p: int| 0 <= p < a.placed(e).len() implies a.placed(e)[p]
                == b.placed(e)[p] by {}
            assert(a.placed(e) =~= b.placed(e));
        }
    }
    assert(a.symbols =~= b.symbols);
    assert forall|p: int| 0 <= p < a.root.len() implies a.root[p] == b.root[p] by {
        assert(a.placed(None)[p] == b.placed(None)[p]);
    }
    assert(a.root =~= b.root);
}

impl Default for Movie {
    fn default() -> (m: Self)
        ensures
            m@ == (MovieView {
                properties: default_movie_properties(),
                symbols: Seq::empty(),
                root: Seq::empty(),
            }),
    {
        Movie::from_properties(MovieProperties::default())
    }
}

impl Movie {
    pub fn from_properties(properties: MovieProperties) -> (m: Self)
        ensures
            m@ == (MovieView { properties, symbols: Seq::empty(), root: Seq::empty() }),
    {
        let m = Movie { properties, symbols: Vec::new(), root: Vec::new() };
        assert(m@.symbols =~= Seq::<SymbolView>::empty());
        m
    }

    pub fn get_placed_symbols(&self, symbol_index: SymbolIndexOrRoot) -> (r: &Vec<PlaceSymbol>)
        requires
            self@.valid_target(symbol_index),
        ensures
            r@ == self@.placed(symbol_index),
    {
        if let Some(symbol_index) = symbol_index {
            if let Symbol::MovieClip(movieclip) = &self.symbols[symbol_index] {
                &movieclip.place_symbols
            } else {
                &self.root
            }
        } else {
            &self.root
        }
    }

    /// The timeline that an index stands for, to change it.
    pub fn get_placed_symbols_mut(&mut self, symbol_index: SymbolIndexOrRoot) -> (r: &mut Vec<
        PlaceSymbol,
    >)
        requires
            old(self)@.valid_target(symbol_index),
        ensures
            r@ == old(self)@.placed(symbol_index),
            final(self).properties == old(self).properties,
            old(self)@.is_movieclip(symbol_index) ==> {
                let i = symbol_index->0 as int;
                &&& final(self).root == old(self).root
                &&& final(self).symbols@ == old(self).symbols@.update(
                    i,
                    Symbol::MovieClip(
                        MovieClip {
                            properties: old(self).symbols@[i]->MovieClip_0.properties,
                            place_symbols: *final(r),
                        },
                    ),
                )
            },
            !old(self)@.is_movieclip(symbol_index) ==> {
                &&& final(self).root == *final(r)
                &&& final(self).symbols == old(self).symbols
            },
    {
        if let Some(symbol_index) = symbol_index {
            if self.symbols[symbol_index].is_movieclip() {
                match &mut self.symbols[symbol_index] {
                    Symbol::MovieClip(movieclip) => &mut movieclip.place_symbols,
                    _ => &mut self.root,
                }
            } else {
                &mut self.root
            }
        } else {
            &mut self.root
        }
    }

    /// The decoded images of the bitmaps, symbol by symbol.
    pub open spec fn caches(&self) -> Seq<Option<BitmapCacheStatus>> {
        self.symbols@.map_values(|s: Symbol| s.cache_of())
    }

    /// After a timeline was changed through `get_placed_symbols_mut`, the
    /// movie is the old one with that timeline replaced.
    pub proof fn lemma_placed_mut(
        old_movie: &Movie,
        new_movie: &Movie,
        symbol_index: SymbolIndexOrRoot,
        new_placed: &Vec<PlaceSymbol>,
    )
        requires
            old_movie@.valid_target(symbol_index),
            new_movie.properties == old_movie.properties,
            old_movie@.is_movieclip(symbol_index) ==> {
                let i = symbol_index->0 as int;
                &&& new_movie.root == old_movie.root
                &&& new_movie.symbols@ == old_movie.symbols@.update(
                    i,
                    Symbol::MovieClip(
                        MovieClip {
                            properties: old_movie.symbols@[i]->MovieClip_0.properties,
                            place_symbols: *new_placed,
                        },
                    ),
                )
            },
            !old_movie@.is_movieclip(symbol_index) ==> {
                &&& new_movie.root == *new_placed
                &&& new_movie.symbols == old_movie.symbols
            },
        ensures
            new_movie@ == old_movie@.with_placed(symbol_index, new_placed@),
            new_movie.caches() == old_movie.caches(),
    {
        if old_movie@.is_movieclip(symbol_index) {
            let i = symbol_index->0 as int;
            assert(new_movie@.symbols =~= old_movie@.with_placed(symbol_index, new_placed@).symbols);
            assert(new_movie.caches() =~= old_movie.caches());
        } else {
            assert(new_movie@.symbols =~= old_movie@.symbols);
        }
    }

    /// Sets the properties of a bitmap. A new path or new animation settings
    /// drop the decoded image, which no longer matches them.
    pub fn set_bitmap_properties(&mut self, symbol_index: SymbolIndex, properties: BitmapProperties)
        requires
            symbol_index < old(self).symbols.len(),
            old(self).symbols@[symbol_index as int] is Bitmap,
        ensures
            final(self)@ == (MovieView {
                symbols: old(self)@.symbols.update(
                    symbol_index as int,
                    SymbolView::Bitmap(properties),
                ),
                ..old(self)@
            }),
            final(self).caches() == old(self).caches().update(
                symbol_index as int,
                Some(
                    {
                        let b = old(self).symbols@[symbol_index as int]->Bitmap_0;
                        if b.properties.path@ != properties.path@ || !same_animation(
                            b.properties.animation,
                            properties.animation,
                        ) {
                            BitmapCacheStatus::Uncached
                        } else {
                            b.cache
                        }
                    },
                ),
            ),
    {
        let ghost old_movie = *self;
        match &mut self.symbols[symbol_index] {
            Symbol::Bitmap(bitmap) => {
                // the same image is read differently with other animation settings
                if bitmap.properties.path != properties.path || !animation_eq(
                    &bitmap.properties.animation,
                    &properties.animation,
                ) {
                    bitmap.invalidate_cache();
                }
                bitmap.properties = properties;
            },
            _ => {},
        }
        assert(self@.symbols =~= old_movie@.symbols.update(
            symbol_index as int,
            SymbolView::Bitmap(properties),
        ));
        assert(self.caches() =~= old_movie.caches().update(
            symbol_index as int,
            Some(self.symbols@[symbol_index as int]->Bitmap_0.cache),
        ));
    }

    /// Sets the properties of a movieclip.
    pub fn set_movieclip_properties(
        &mut self,
        symbol_index: SymbolIndex,
        properties: MovieClipProperties,
    )
        requires
            symbol_index < old(self).symbols.len(),
            old(self).symbols@[symbol_index as int] is MovieClip,
        ensures
            final(self)@ == (MovieView {
                symbols: old(self)@.symbols.update(
                    symbol_index as int,
                    SymbolView::MovieClip(
                        properties@,
                        old(self)@.symbols[symbol_index as int]->MovieClip_1,
                    ),
                ),
                ..old(self)@
            }),
            final(self).caches() == old(self).caches(),
    {
        let ghost old_movie = *self;
        match &mut self.symbols[symbol_index] {
            Symbol::MovieClip(movieclip) => {
                movieclip.properties = properties;
            },
            _ => {},
        }
        assert(self@.symbols =~= old_movie@.symbols.update(
            symbol_index as int,
            SymbolView::MovieClip(
                properties@,
                old_movie@.symbols[symbol_index as int]->MovieClip_1,
            ),
        ));
        assert(self.caches() =~= old_movie.caches());
    }

    /// Places a symbol on a timeline at a position.
    pub fn insert_placed_symbol(
        &mut self,
        symbol_index: SymbolIndexOrRoot,
        placed_symbol_index: PlacedSymbolIndex,
        placed_symbol: PlaceSymbol,
    )
        requires
            old(self)@.valid_target(symbol_index),
            placed_symbol_index <= old(self)@.placed(symbol_index).len(),
        ensures
            final(self)@ == old(self)@.with_placed(
                symbol_index,
                old(self)@.placed(symbol_index).insert(placed_symbol_index as int, placed_symbol),
            ),
            final(self).caches() == old(self).caches(),
    {
        let ghost old_movie = *self;
        let placed = self.get_placed_symbols_mut(symbol_index);
        placed.insert(placed_symbol_index, placed_symbol);
        proof {
            Movie::lemma_placed_mut(&old_movie, self, symbol_index, placed);
        }
    }

    /// Places a symbol at the end of a timeline.
    pub fn push_placed_symbol(&mut self, symbol_index: SymbolIndexOrRoot, placed_symbol: PlaceSymbol)
        requires
            old(self)@.valid_target(symbol_index),
        ensures
            final(self)@ == old(self)@.with_placed(
                symbol_index,
                old(self)@.placed(symbol_index).push(placed_symbol),
            ),
            final(self).caches() == old(self).caches(),
    {
        let ghost old_movie = *self;
        let placed = self.get_placed_symbols_mut(symbol_index);
        placed.push(placed_symbol);
        proof {
            Movie::lemma_placed_mut(&old_movie, self, symbol_index, placed);
        }
    }

    /// Takes a placed symbol off a timeline.
    pub fn remove_placed_symbol(
        &mut self,
        symbol_index: SymbolIndexOrRoot,
        placed_symbol_index: PlacedSymbolIndex,
    ) -> (r: PlaceSymbol)
        requires
            old(self)@.valid_target(symbol_index),
            placed_symbol_index < old(self)@.placed(symbol_index).len(),
        ensures
            r == old(self)@.placed(symbol_index)[placed_symbol_index as int],
            final(self)@ == old(self)@.with_placed(
                symbol_index,
                old(self)@.placed(symbol_index).remove(placed_symbol_index as int),
            ),
            final(self).caches() == old(self).caches(),
    {
        let ghost old_movie = *self;
        let placed = self.get_placed_symbols_mut(symbol_index);
        let r = placed.remove(placed_symbol_index);
        proof {
            Movie::lemma_placed_mut(&old_movie, self, symbol_index, placed);
        }
        r
    }

    /// Replaces a placed symbol of a timeline.
    pub fn set_placed_symbol(
        &mut self,
        symbol_index: SymbolIndexOrRoot,
        placed_symbol_index: PlacedSymbolIndex,
        placed_symbol: PlaceSymbol,
    )
        requires
            old(self)@.valid_target(symbol_index),
            placed_symbol_index < old(self)@.placed(symbol_index).len(),
        ensures
            final(self)@ == old(self)@.with_placed(
                symbol_index,
                old(self)@.placed(symbol_index).update(placed_symbol_index as int, placed_symbol),
            ),
            final(self).caches() == old(self).caches(),
    {
        let ghost old_movie = *self;
        let placed = self.get_placed_symbols_mut(symbol_index);
        placed.set(placed_symbol_index, placed_symbol);
        proof {
            Movie::lemma_placed_mut(&old_movie, self, symbol_index, placed);
        }
    }

    /// The number of frames of the exported movie: the preloader takes the
    /// frames before the last one.
    pub fn num_frames(&self) -> (r: u16)
        ensures
            r == self@.num_frames(),
    {
        match self.properties.preloader {
            PreloaderType::NoPreloader => 1,
            PreloaderType::StartAfterLoading => 2,
            PreloaderType::WithPlayButton => 3,
        }
    }
}

/// Whether a name is the empty default, which the project file leaves out.
pub fn is_default(t: &String) -> (r: bool)
    ensures
        r == (t@.len() == 0),
{
    t.as_str().is_empty()
}

} // verus!
