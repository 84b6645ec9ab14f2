//! The files of a project's assets directory that become symbols, and the
//! size that a bitmap's decoded image is kept with.
use vstd::prelude::*;
use crate::movie::{
    Bitmap, BitmapCacheStatus, BitmapProperties, CachedBitmap, FlitsFont, Movie, Symbol,
    SymbolView,
};
use crate::text::{ends_with, has_suffix};
use crate::bitmap::{ImageReadError, image_decoded, read_image};

verus! {

/// A file of the assets directory that the library does not hold yet.
pub enum NewAsset {
    Image(Seq<char>),
    Font(Seq<char>),
}

/// Where an asset file is, relative to the project.
pub open spec fn asset_path(name: Seq<char>) -> Seq<char> {
    "assets/"@ + name
}

/// The list without the first occurrence of `x`.
pub open spec fn remove_first(s: Seq<Seq<char>>, x: Seq<char>) -> Seq<Seq<char>>
    decreases s.len(),
{
    if s.len() == 0 {
        s
    } else if s[0] == x {
        s.drop_first()
    } else {
        seq![s[0]] + remove_first(s.drop_first(), x)
    }
}

/// The paths of the library's bitmaps, in order.
pub open spec fn bitmap_paths(symbols: Seq<SymbolView>) -> Seq<Seq<char>>
    decreases symbols.len(),
{
    if symbols.len() == 0 {
        Seq::empty()
    } else {
        let rest = bitmap_paths(symbols.drop_last());
        match symbols.last() {
            SymbolView::Bitmap(p) => rest.push(p.path@),
            _ => rest,
        }
    }
}

/// The assets to add, in the order of the files: images (`.png`) and fonts
/// (`.ttf`) whose path is not one of `existing`; a path found there is taken
/// off it, so that it matches one file only.
pub open spec fn unimported(existing: Seq<Seq<char>>, names: Seq<Seq<char>>) -> Seq<NewAsset>
    decreases names.len(),
{
    if names.len() == 0 {
        Seq::empty()
    } else {
        let name = names[0];
        let path = asset_path(name);
        let is_image = has_suffix(name, ".png"@);
        let is_font = has_suffix(name, ".ttf"@);
        if !is_image && !is_font {
            unimported(existing, names.drop_first())
        } else if existing.contains(path) {
            unimported(remove_first(existing, path), names.drop_first())
        } else {
            seq![
                if is_image {
                    NewAsset::Image(name)
                } else {
                    NewAsset::Font(name)
                },
            ] + unimported(existing, names.drop_first())
        }
    }
}

/// The symbol that an asset becomes: a bitmap without animation and not
/// yet decoded, or a font with the digits as its characters.
pub open spec fn is_symbol_of(s: Symbol, a: NewAsset) -> bool {
    match a {
        NewAsset::Image(name) => s matches Symbol::Bitmap(b) && b.properties.name@ == name
            && b.properties.path@ == asset_path(name) && b.properties.animation is None
            && b.cache is Uncached,
        NewAsset::Font(name) => s matches Symbol::Font(f) && f.path@ == name && f.characters@
            == "1234567890"@,
    }
}

/// Removing the first occurrence at its index.
proof fn lemma_remove_first(s: Seq<Seq<char>>, x: Seq<char>, p: int)
    requires
        0 <= p < s.len(),
        s[p] == x,
        forall|j: int| 0 <= j < p ==> s[j] != x,
    ensures
        remove_first(s, x) == s.remove(p),
    decreases p,
{
    if p > 0 {
        lemma_remove_first(s.drop_first(), x, p - 1);
        assert(seq![s[0]] + s.drop_first().remove(p - 1) =~= s.remove(p));
    } else {
        assert(s.drop_first() =~= s.remove(0));
    }
}

impl Movie {
    /// Adds a symbol for each image and font of the assets directory that
    /// the library does not hold yet; `file_names` are the names of the
    /// directory's files. Each bitmap path of the library stands for one file.
    pub fn add_unimported_assets(&mut self, file_names: &Vec<String>)
        ensures
            final(self).properties == old(self).properties,
            final(self).root@ == old(self).root@,
            ({
                let plan = unimported(
                    bitmap_paths(old(self)@.symbols),
                    file_names@.map_values(|n: String| n@),
                );
                &&& final(self).symbols@.len() == old(self).symbols@.len() + plan.len()
                &&& forall|i: int|
                    0 <= i < old(self).symbols@.len() ==> #[trigger] final(self).symbols@[i] == old(
                        self,
                    ).symbols@[i]
                &&& forall|j: int|
                    0 <= j < plan.len() ==> is_symbol_of(
                        #[trigger] final(self).symbols@[old(self).symbols@.len() + j],
                        plan[j],
                    )
            }),
    {
        let ghost names = file_names@.map_values(|n: String| n@);
        let ghost old_symbols = self.symbols@;
        let mut existing_assets: Vec<String> = Vec::new();
        let mut i: usize = 0;
        while i < self.symbols.len()
            invariant
                i <= self.symbols.len(),
                existing_assets@.map_values(|p: String| p@) == bitmap_paths(
                    self@.symbols.take(i as int),
                ),
            decreases self.symbols.len() - i,
        {
            let ghost before = existing_assets@.map_values(|p: String| p@);
            match &self.symbols[i] {
                Symbol::Bitmap(bitmap) => {
                    existing_assets.push(bitmap.properties.path.clone());
                    assert(existing_assets@.map_values(|p: String| p@) =~= before.push(
                        bitmap.properties.path@,
                    ));
                },
                _ => {},
            }
            assert(self@.symbols.take(i + 1).drop_last() =~= self@.symbols.take(i as int));
            i = i + 1;
        }
        assert(self@.symbols.take(i as int) =~= self@.symbols);
        let ghost existing0 = existing_assets@.map_values(|p: String| p@);
        let mut k: usize = 0;
        let ghost mut added: Seq<NewAsset> = Seq::empty();
        assert(names.skip(0) =~= names);
        assert(added + unimported(existing0, names) =~= unimported(existing0, names));
        while k < file_names.len()
            invariant
                k <= file_names.len(),
                names == file_names@.map_values(|n: String| n@),
                self.properties == old(self).properties,
                self.root@ == old(self).root@,
                old_symbols == old(self).symbols@,
                existing0 == bitmap_paths(old(self)@.symbols),
                added + unimported(
                    existing_assets@.map_values(|p: String| p@),
                    names.skip(k as int),
                ) == unimported(existing0, names),
                self.symbols@.len() == old_symbols.len() + added.len(),
                forall|i: int|
                    0 <= i < old_symbols.len() ==> #[trigger] self.symbols@[i] == old_symbols[i],
                forall|j: int|
                    0 <= j < added.len() ==> is_symbol_of(
                        #[trigger] self.symbols@[old_symbols.len() + j],
                        added[j],
                    ),
            decreases file_names.len() - k,
        {
            let ghost existing_view = existing_assets@.map_values(|p: String| p@);
            let ghost rest = names.skip(k as int);
            assert(rest.drop_first() =~= names.skip(k + 1));
            let file_name = &file_names[k];
            assert(rest[0] == file_name@);
            let file_path = String::from_str("assets/").concat(file_name.as_str());
            proof {
                reveal_strlit("assets/");
            }
            let is_image = ends_with(file_name.as_str(), ".png");
            let is_font = ends_with(file_name.as_str(), ".ttf");
            if is_image || is_font {
                // the first bitmap with this path, if any
                let mut p: usize = 0;
                let mut found = false;
                while p < existing_assets.len()
                    invariant_except_break
                        p <= existing_assets.len(),
                        !found,
                        forall|j: int| 0 <= j < p ==> existing_assets@[j]@ != file_path@,
                    invariant
                        p <= existing_assets.len(),
                    ensures
                        found ==> p < existing_assets.len() && existing_assets@[p as int]@
                            == file_path@ && forall|j: int|
                            0 <= j < p ==> existing_assets@[j]@ != file_path@,
                        !found ==> forall|j: int|
                            0 <= j < existing_assets.len() ==> existing_assets@[j]@ != file_path@,
                    decreases existing_assets.len() - p,
                {
                    if existing_assets[p] == file_path {
                        found = true;
                        break;
                    }
                    p = p + 1;
                }
                let ghost path_view = asset_path(file_name@);
                assert(file_path@ == path_view);
                if found {
                    proof {
                        assert(existing_view[p as int] == path_view);
                        assert(existing_view.contains(path_view));
                        lemma_remove_first(existing_view, path_view, p as int);
                    }
                    existing_assets.remove(p);
                    assert(existing_assets@.map_values(|q: String| q@) =~= existing_view.remove(
                        p as int,
                    ));
                } else {
                    proof {
                        assert forall|j: int| 0 <= j < existing_view.len() implies existing_view[j]
                            != path_view by {
                            assert(existing_view[j] == existing_assets@[j]@);
                        }
                        assert(!existing_view.contains(path_view));
                    }
                    if is_image {
                        self.symbols.push(
                            Symbol::Bitmap(
                                Bitmap {
                                    properties: BitmapProperties {
                                        name: file_name.clone(),
                                        path: file_path,
                                        animation: None,
                                    },
                                    cache: BitmapCacheStatus::Uncached,
                                },
                            ),
                        );
                        proof {
                            added = added.push(NewAsset::Image(file_name@));
                        }
                    } else {
                        self.symbols.push(
                            Symbol::Font(
                                FlitsFont {
                                    path: file_name.clone(),
                                    characters: String::from_str("1234567890"),
                                },
                            ),
                        );
                        proof {
                            added = added.push(NewAsset::Font(file_name@));
                        }
                    }
                    assert(unimported(existing_view, rest) == seq![added.last()] + unimported(
                        existing_view,
                        rest.drop_first(),
                    ));
                    assert(added + unimported(existing_view, rest.drop_first()) =~= added.drop_last()
                        + unimported(existing_view, rest));
                }
            }
            k = k + 1;
        }
        assert(names.skip(k as int) =~= Seq::<Seq<char>>::empty());
        assert(added =~= added + unimported(
            existing_assets@.map_values(|p: String| p@),
            names.skip(k as int),
        ));
    }
}

/// The width of the part of an image that a bitmap shows: the first frame
/// of its animation, at least one pixel wide.
pub open spec fn first_frame_width(properties: BitmapProperties, width: u32) -> u32 {
    match properties.animation {
        None => width,
        Some(a) => {
            let w = if a.frame_count > 0 {
                width / a.frame_count
            } else {
                1
            };
            if w < 1 {
                1
            } else {
                w
            }
        },
    }
}

impl Bitmap {
    /// Decodes the bitmap's image from the contents of its file (or the
    /// message of why it could not be read) and keeps its size, that of its
    /// first frame for an animation; where it cannot be had, keeps why.
    pub fn cache_image(&mut self, file: &Result<Vec<u8>, String>)
        ensures
            final(self).properties == old(self).properties,
            *file matches Err(m) ==> final(self).cache == BitmapCacheStatus::Invalid(m),
            *file matches Ok(bytes) ==> match image_decoded(old(self).properties.path@, bytes@) {
                Ok(i) => final(self).cache == BitmapCacheStatus::Cached(
                    CachedBitmap { width: first_frame_width(old(self).properties, i.width), height: i.height },
                ),
                Err(m) => final(self).cache matches BitmapCacheStatus::Invalid(x) && x@ == m,
            },
    {
        let decoded = match read_image(&self.properties.path, file) {
            Ok(img) => Ok((img.width, img.height)),
            Err(ImageReadError::Read(m)) => Err(m),
            Err(ImageReadError::Decode(m)) => Err(m),
        };
        self.cache_decoded(decoded);
    }

    /// Keeps the size of the image decoded from the bitmap's file, or the
    /// message of why it could not be read.
    pub fn cache_decoded(&mut self, decoded: Result<(u32, u32), String>)
        ensures
            final(self).properties == old(self).properties,
            decoded matches Ok((w, h)) ==> final(self).cache == BitmapCacheStatus::Cached(
                CachedBitmap { width: first_frame_width(old(self).properties, w), height: h },
            ),
            decoded matches Err(message) ==> final(self).cache == BitmapCacheStatus::Invalid(
                message,
            ),
    {
        self.cache = match decoded {
            Ok((width, height)) => match &self.properties.animation {
                None => BitmapCacheStatus::Cached(CachedBitmap { width, height }),
                Some(animation) => {
                    // a frame count of zero cannot be entered, but is guarded
                    let mut sub_image_width = if animation.frame_count > 0 {
                        width / animation.frame_count
                    } else {
                        1
                    };
                    // an animation with more frames than pixels
                    if sub_image_width < 1 {
                        sub_image_width = 1;
                    }
                    BitmapCacheStatus::Cached(CachedBitmap { width: sub_image_width, height })
                },
            },
            Err(message) => BitmapCacheStatus::Invalid(message),
        };
    }
}

} // verus!
