//! The library of the exported file: every symbol gets its character, in
//! the order of the library; the timelines of movieclips are filled in once
//! every symbol has its id; then the sounds of the assets follow.
use vstd::prelude::*;
use crate::audio::{SoundAsset, assets_view, audio_plan, build_audio};
use crate::bitmap::{DecodedImage, animation_frames, bitmap_ids_needed, bitmap_tags, build_bitmap};
use crate::export::{
    BuilderView, ExportError, ExportTagView, SwfBuilder, build_font, build_movieclip_inner,
    build_movieclip_outer, place_sprite_tags_view,
};
use crate::movie::{BitmapProperties, Symbol, SymbolIndex};

verus! {

/// The sizes of an image, and of the animation cut from it, fit what the
/// file can hold.
pub open spec fn image_fits(properties: BitmapProperties, img: DecodedImage) -> bool {
    &&& img.argb.len() == img.width * img.height * 4
    &&& img.width * img.height * 4 <= u32::MAX
    &&& properties.animation matches Some(a) ==> {
        &&& a.frame_count > 0
        &&& a.frame_delay < u32::MAX
        &&& 1 < a.frame_count <= img.width ==> a.frame_count * (a.frame_delay + 1) <= u32::MAX
    }
}

/// What the library's symbols and images allow: images that fit, and
/// timelines no longer than the depths of a sprite.
pub open spec fn library_inputs_fit(
    symbols: Seq<Symbol>,
    images: Seq<Result<DecodedImage, String>>,
) -> bool {
    &&& images.len() == symbols.len()
    &&& forall|i: int|
        0 <= i < symbols.len() ==> match #[trigger] symbols[i] {
            Symbol::Bitmap(b) => (images[i] matches Ok(img) ==> image_fits(b.properties, img)),
            Symbol::MovieClip(m) => m.place_symbols.len() <= u16::MAX,
            Symbol::Font(_) => true,
        }
}

/// The character a symbol gets, with the image of a bitmap; `None` where it
/// cannot get one.
pub open spec fn outer_step(
    st: BuilderView,
    si: SymbolIndex,
    symbol: Symbol,
    image: Result<DecodedImage, String>,
) -> Option<BuilderView> {
    let id = st.counter;
    match symbol {
        Symbol::Bitmap(b) => match image {
            Err(_) => None,
            Ok(img) => {
                let fc = animation_frames(b.properties.animation);
                if fc > img.width || id + bitmap_ids_needed(fc) > u16::MAX {
                    None
                } else {
                    Some(
                        BuilderView {
                            tags: st.tags + bitmap_tags(b.properties, img, id),
                            counter: id + bitmap_ids_needed(fc),
                            ids: st.ids.insert(
                                si,
                                (if fc == 1 {
                                    id + 1
                                } else {
                                    id + 2 * fc
                                }) as u16,
                            ),
                            tag_index: st.tag_index.insert(
                                si,
                                (if fc == 1 {
                                    st.tags.len() as int
                                } else {
                                    st.tags.len() + 2 * fc
                                }) as usize,
                            ),
                        },
                    )
                }
            },
        },
        Symbol::MovieClip(_) => if id < u16::MAX {
            Some(
                BuilderView {
                    tags: st.tags.push(
                        ExportTagView::DefineSprite {
                            id: id as u16,
                            num_frames: 1,
                            tags: Seq::empty(),
                        },
                    ),
                    counter: id + 1,
                    ids: st.ids.insert(si, id as u16),
                    tag_index: st.tag_index.insert(si, st.tags.len() as usize),
                },
            )
        } else {
            None
        },
        Symbol::Font(f) => if id < u16::MAX {
            Some(
                BuilderView {
                    tags: st.tags + seq![
                        ExportTagView::DefineFont { id: id as u16, symbol_index: si },
                        ExportTagView::ExportAssets { id: id as u16, name: f.path },
                    ],
                    counter: id + 1,
                    ids: st.ids.insert(si, id as u16),
                    tag_index: st.tag_index,
                },
            )
        } else {
            None
        },
    }
}

/// The first pass over the symbols before `k`.
pub open spec fn outer_plan(
    st: BuilderView,
    symbols: Seq<Symbol>,
    images: Seq<Result<DecodedImage, String>>,
    k: int,
) -> Option<BuilderView>
    decreases k,
{
    if k <= 0 {
        Some(st)
    } else {
        match outer_plan(st, symbols, images, k - 1) {
            None => None,
            Some(s) => outer_step(s, (k - 1) as usize, symbols[k - 1], images[k - 1]),
        }
    }
}

/// The timeline a movieclip's sprite gets, and its export under its name
/// when it has a class; other symbols are left as they are.
pub open spec fn inner_step(st: BuilderView, si: SymbolIndex, symbol: Symbol) -> Option<BuilderView> {
    match symbol {
        Symbol::MovieClip(m) => {
            let placed = m.place_symbols@;
            let tag = st.tag_of(si);
            if st.all_placeable(placed) && tag is DefineSprite {
                Some(
                    BuilderView {
                        tags: st.tags.update(
                            st.tag_index[si] as int,
                            ExportTagView::DefineSprite {
                                id: tag->DefineSprite_id,
                                num_frames: tag->DefineSprite_num_frames,
                                tags: place_sprite_tags_view(
                                    Seq::new(placed.len(), |i: int| st.place_tag(placed[i], i)),
                                ),
                            },
                        ) + if m.properties.class_name@.len() > 0 {
                            seq![ExportTagView::ExportAssets { id: st.ids[si], name: m.properties.name }]
                        } else {
                            Seq::empty()
                        },
                        ..st
                    },
                )
            } else {
                None
            }
        },
        _ => Some(st),
    }
}

/// The second pass over the symbols before `k`.
pub open spec fn inner_plan(st: BuilderView, symbols: Seq<Symbol>, k: int) -> Option<BuilderView>
    decreases k,
{
    if k <= 0 {
        Some(st)
    } else {
        match inner_plan(st, symbols, k - 1) {
            None => None,
            Some(s) => inner_step(s, (k - 1) as usize, symbols[k - 1]),
        }
    }
}

/// The sounds after the symbols.
pub open spec fn audio_step(st: BuilderView, sounds: Seq<crate::audio::SoundAssetView>) -> Option<
    BuilderView,
> {
    let p = audio_plan(st.counter, sounds);
    if p.failure is Some {
        None
    } else {
        Some(BuilderView { tags: st.tags + p.tags, counter: p.next_id, ..st })
    }
}

/// The whole library: `None` where it cannot be built.
pub open spec fn library_plan(
    st: BuilderView,
    symbols: Seq<Symbol>,
    images: Seq<Result<DecodedImage, String>>,
    sounds: Seq<crate::audio::SoundAssetView>,
) -> Option<BuilderView> {
    match outer_plan(st, symbols, images, symbols.len() as int) {
        None => None,
        Some(s1) => match inner_plan(s1, symbols, symbols.len() as int) {
            None => None,
            Some(s2) => audio_step(s2, sounds),
        },
    }
}

/// Once a pass fails, it stays failed.
proof fn lemma_outer_stays_failed(
    st: BuilderView,
    symbols: Seq<Symbol>,
    images: Seq<Result<DecodedImage, String>>,
    k: int,
    n: int,
)
    requires
        0 <= k <= n,
        outer_plan(st, symbols, images, k) is None,
    ensures
        outer_plan(st, symbols, images, n) is None,
    decreases n - k,
{
    if k < n {
        lemma_outer_stays_failed(st, symbols, images, k + 1, n);
    }
}

proof fn lemma_inner_stays_failed(st: BuilderView, symbols: Seq<Symbol>, k: int, n: int)
    requires
        0 <= k <= n,
        inner_plan(st, symbols, k) is None,
    ensures
        inner_plan(st, symbols, n) is None,
    decreases n - k,
{
    if k < n {
        lemma_inner_stays_failed(st, symbols, k + 1, n);
    }
}

/// After the first pass every movieclip has its character and its tag.
proof fn lemma_outer_gives_movieclips_ids(
    st: BuilderView,
    symbols: Seq<Symbol>,
    images: Seq<Result<DecodedImage, String>>,
    k: int,
)
    requires
        0 <= k <= symbols.len(),
        outer_plan(st, symbols, images, k) is Some,
    ensures
        forall|i: int|
            0 <= i < k && #[trigger] symbols[i] is MovieClip ==> {
                let s = outer_plan(st, symbols, images, k)->0;
                s.ids.contains_key(i as usize) && s.tag_index.contains_key(i as usize)
            },
    decreases k,
{
    if k > 0 {
        lemma_outer_gives_movieclips_ids(st, symbols, images, k - 1);
    }
}

/// The second pass keeps the ids, the tag indexes and the counter, and
/// only adds tags.
proof fn lemma_inner_keeps_maps(st: BuilderView, symbols: Seq<Symbol>, k: int)
    requires
        0 <= k,
        inner_plan(st, symbols, k) is Some,
    ensures
        inner_plan(st, symbols, k)->0.ids == st.ids,
        inner_plan(st, symbols, k)->0.tag_index == st.tag_index,
        inner_plan(st, symbols, k)->0.counter == st.counter,
    decreases k,
{
    if k > 0 {
        lemma_inner_keeps_maps(st, symbols, k - 1);
    }
}

/// Builds the library: a character for each symbol in order (with the
/// decoded image of each bitmap, at its symbol's index), then the
/// timelines of the movieclips, then the sounds. Where it succeeds, the
/// builder is what the plan says; it fails exactly where the plan does.
pub fn build_library(
    symbols: &Vec<Symbol>,
    images: &Vec<Result<DecodedImage, String>>,
    sounds: &Vec<SoundAsset>,
    swf_builder: &mut SwfBuilder,
) -> (r: Result<(), ExportError>)
    requires
        old(swf_builder).wf(),
        library_inputs_fit(symbols@, images@),
    ensures
        final(swf_builder).wf(),
        r is Ok ==> library_plan(old(swf_builder)@, symbols@, images@, assets_view(sounds@))
            == Some(final(swf_builder)@),
        r is Ok <==> library_plan(old(swf_builder)@, symbols@, images@, assets_view(sounds@)) is Some,
{
    let ghost st0 = swf_builder@;
    let ghost n = symbols.len() as int;
    let mut symbol_index: usize = 0;
    while symbol_index < symbols.len()
        invariant
            library_inputs_fit(symbols@, images@),
            n == symbols.len(),
            symbol_index <= n,
            swf_builder.wf(),
            st0 == old(swf_builder)@,
            outer_plan(st0, symbols@, images@, symbol_index as int) == Some(swf_builder@),
        decreases symbols.len() - symbol_index,
    {
        let ghost before = swf_builder@;
        let ghost k = symbol_index as int;
        let result = match &symbols[symbol_index] {
            Symbol::Bitmap(bitmap) => build_bitmap(
                symbol_index,
                &bitmap.properties,
                &images[symbol_index],
                swf_builder,
            ),
            Symbol::MovieClip(_) => build_movieclip_outer(symbol_index, swf_builder),
            Symbol::Font(font) => build_font(symbol_index, font, swf_builder),
        };
        match result {
            Ok(()) => {
                assert(swf_builder@ =~= outer_step(before, symbol_index, symbols@[k], images@[k])->0);
            },
            Err(e) => {
                proof {
                    assert(outer_step(before, symbol_index, symbols@[k], images@[k]) is None);
                    assert(outer_plan(st0, symbols@, images@, k + 1) is None);
                    lemma_outer_stays_failed(st0, symbols@, images@, k + 1, n);
                    assert(library_plan(st0, symbols@, images@, assets_view(sounds@)) is None);
                }
                return Err(e);
            },
        }
        symbol_index = symbol_index + 1;
    }
    let ghost st1 = swf_builder@;
    proof {
        lemma_outer_gives_movieclips_ids(st0, symbols@, images@, n);
    }
    // the timelines of movieclips are built once every symbol has its id
    symbol_index = 0;
    while symbol_index < symbols.len()
        invariant
            library_inputs_fit(symbols@, images@),
            n == symbols.len(),
            symbol_index <= n,
            swf_builder.wf(),
            forall|i: int|
                0 <= i < n && #[trigger] symbols@[i] is MovieClip ==> st1.ids.contains_key(
                    i as usize,
                ) && st1.tag_index.contains_key(i as usize),
            st0 == old(swf_builder)@,
            outer_plan(st0, symbols@, images@, n) == Some(st1),
            inner_plan(st1, symbols@, symbol_index as int) == Some(swf_builder@),
        decreases symbols.len() - symbol_index,
    {
        let ghost before = swf_builder@;
        let ghost k = symbol_index as int;
        proof {
            lemma_inner_keeps_maps(st1, symbols@, k);
        }
        match &symbols[symbol_index] {
            Symbol::MovieClip(movieclip) => {
                assert(symbols@[k] is MovieClip);
                let ghost pre = *swf_builder;
                match build_movieclip_inner(
                    symbol_index,
                    &movieclip.properties,
                    &movieclip.place_symbols,
                    swf_builder,
                ) {
                    Ok(()) => {
                        // the placements the builder computed are those of the plan
                        let ghost placed = movieclip.place_symbols@;
                        assert(Seq::new(placed.len(), |i: int| before.place_tag(placed[i], i)) =~= Seq::new(
                            placed.len(),
                            |i: int| pre.place_tag(placed[i], i),
                        ));
                        assert(swf_builder@.tags =~~= inner_step(before, symbol_index, symbols@[k])->0.tags);
                    },
                    Err(e) => {
                        proof {
                            assert(inner_step(before, symbol_index, symbols@[k]) is None);
                            assert(inner_plan(st1, symbols@, k + 1) is None);
                            lemma_inner_stays_failed(st1, symbols@, k + 1, n);
                            assert(library_plan(st0, symbols@, images@, assets_view(sounds@)) is None);
                        }
                        return Err(e);
                    },
                }
            },
            _ => {},
        }
        symbol_index = symbol_index + 1;
    }
    let ghost before_audio = swf_builder@;
    let result = build_audio(swf_builder, sounds);
    proof {
        if result is Ok {
            assert(swf_builder@ =~= audio_step(before_audio, assets_view(sounds@))->0);
        }
    }
    result
}

/// A still bitmap, once its character is built, is placed centered on the
/// position of each of its placements: the placement names the image's
/// width and height (in that order), by which the player shifts it back by
/// half.
pub proof fn lemma_still_bitmap_centered(
    st: BuilderView,
    si: SymbolIndex,
    b: crate::movie::Bitmap,
    img: DecodedImage,
    ps: crate::movie::PlaceSymbol,
)
    requires
        animation_frames(b.properties.animation) == 1,
        img.width <= u16::MAX,
        img.height <= u16::MAX,
        st.tags.len() < usize::MAX,
        ps.symbol_index == si,
        outer_step(st, si, Symbol::Bitmap(b), Ok(img)) is Some,
    ensures
        outer_step(st, si, Symbol::Bitmap(b), Ok(img))->0.placement_of(ps)
            == crate::export::Placement::CenteredTransform(ps.transform, img.width, img.height),
{
    let s1 = outer_step(st, si, Symbol::Bitmap(b), Ok(img))->0;
    let fw = img.width / 1u32;
    assert(fw == img.width);
    let frames = crate::bitmap::frames_tags(img, 1, fw as int, st.counter, 1);
    assert(crate::bitmap::frames_tags(img, 1, fw as int, st.counter, 0) =~= Seq::empty());
    assert(frames[0] is DefineBitsLossless);
    assert(bitmap_tags(b.properties, img, st.counter) == frames);
    assert(s1.tag_index[si] == st.tags.len());
    assert(s1.tags[st.tags.len() as int] == bitmap_tags(b.properties, img, st.counter)[0]);
    assert(s1.tag_of(si) is DefineBitsLossless);
}

} // verus!
