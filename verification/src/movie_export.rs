//! The whole exported file: the background color, the preloader, the
//! library, the root timeline, and the sprites whose last frame calls a
//! function finished.
use vstd::prelude::*;
use std::collections::HashMap;
use crate::audio::{SoundAsset, SoundAssetView, assets_view};
use crate::bitmap::DecodedImage;
use crate::export::{
    Avm1Action, Avm1ActionView, Avm1Value, Avm1ValueView, BuilderView, CharacterId, ExportError,
    ExportTag, ExportTagView, SpriteTag, SpriteTagView, SwfBuilder, actions_view,
    build_placed_symbols_of_root, place_tags_view, sprite_tags_view, stop_actions, tags_view,
};
use crate::library::{build_library, library_inputs_fit, library_plan};
use crate::movie::{Movie, PlaceSymbol, PreloaderType, SymbolIndex};
use crate::preloader::{build_preloader, preloader_id_count, preloader_tags};

verus! {

/// The script at the end of a sprite that calls the named function:
/// `name()`.
pub open spec fn end_action_script(name: Seq<char>) -> Seq<Avm1ActionView> {
    seq![
        Avm1ActionView::Push(seq![Avm1ValueView::Double(0), Avm1ValueView::Str(name)]),
        Avm1ActionView::CallFunction,
        Avm1ActionView::Pop,
        Avm1ActionView::End,
    ]
}

pub fn end_action_actions(name: &String) -> (r: Vec<Avm1Action>)
    ensures
        actions_view(r@) == end_action_script(name@),
{
    let values = vec![Avm1Value::Double(0), Avm1Value::Str(name.clone())];
    assert(values@.map_values(|x: Avm1Value| x@) =~= seq![
        Avm1ValueView::Double(0),
        Avm1ValueView::Str(name@),
    ]);
    let r = vec![Avm1Action::Push(values), Avm1Action::CallFunction, Avm1Action::Pop, Avm1Action::End];
    assert(actions_view(r@) =~= end_action_script(name@));
    r
}

/// A tag as the file holds it: a sprite that calls a function on its last
/// frame has that frame's `ShowFrame` replaced by the call and a new
/// `ShowFrame`.
pub open spec fn finished_tag(t: ExportTagView) -> ExportTagView {
    match t {
        ExportTagView::DefineSpriteWithEndAction { id, num_frames, tags, end_action } =>
            ExportTagView::DefineSprite {
            id,
            num_frames,
            tags: (if tags.len() > 0 {
                tags.drop_last()
            } else {
                tags
            }) + seq![
                SpriteTagView::DoAction(end_action_script(end_action@)),
                SpriteTagView::ShowFrame,
            ],
        },
        _ => t,
    }
}

pub open spec fn finished_tags(t: Seq<ExportTagView>) -> Seq<ExportTagView> {
    t.map_values(|x: ExportTagView| finished_tag(x))
}

/// Finishes the sprites that call a function on their last frame.
pub fn finish_tags(tags: Vec<ExportTag>) -> (r: Vec<ExportTag>)
    ensures
        tags_view(r@) == finished_tags(tags_view(tags@)),
{
    let mut tags = tags;
    let mut r: Vec<ExportTag> = Vec::new();
    let ghost all = tags_view(tags@);
    // taken from the back, so that each step is a pop
    let mut rev: Vec<ExportTag> = Vec::new();
    while tags.len() > 0
        invariant
            all == tags_view(tags@) + tags_view(rev@).reverse(),
        decreases tags.len(),
    {
        let ghost before_tags = tags_view(tags@);
        let ghost before_rev = tags_view(rev@);
        let t = tags.pop().unwrap();
        rev.push(t);
        assert(tags_view(rev@) =~= before_rev.push(t@));
        assert(before_tags =~= tags_view(tags@).push(t@));
        assert(before_rev.push(t@).reverse() =~= seq![t@] + before_rev.reverse());
        assert(all =~= tags_view(tags@) + tags_view(rev@).reverse());
    }
    assert(all =~= tags_view(rev@).reverse());
    assert(all.subrange(0, all.len() as int) =~= all);
    let ghost n = rev.len() as int;
    while rev.len() > 0
        invariant
            n == tags_view(rev@).len() + tags_view(r@).len(),
            tags_view(rev@).reverse() == all.subrange(tags_view(r@).len() as int, n),
            tags_view(r@) == finished_tags(all.subrange(0, tags_view(r@).len() as int)),
            n == all.len(),
        decreases rev.len(),
    {
        let ghost before_rev = tags_view(rev@);
        let ghost before_r = tags_view(r@);
        let ghost done = before_r.len() as int;
        let t = rev.pop().unwrap();
        assert(tags_view(rev@).push(t@) =~= before_rev);
        assert(all[done] == t@) by {
            assert(before_rev.reverse()[0] == all.subrange(done, n)[0]);
        }
        let finished = match t {
            ExportTag::DefineSpriteWithEndAction { id, num_frames, tags: sprite_tags, end_action } => {
                let mut sprite_tags = sprite_tags;
                let ghost old_sprite = sprite_tags_view(sprite_tags@);
                let popped = sprite_tags.pop();
                assert(sprite_tags_view(sprite_tags@) =~= (if old_sprite.len() > 0 {
                    old_sprite.drop_last()
                } else {
                    old_sprite
                }));
                let ghost kept = sprite_tags_view(sprite_tags@);
                sprite_tags.push(SpriteTag::DoAction(end_action_actions(&end_action)));
                sprite_tags.push(SpriteTag::ShowFrame);
                assert(sprite_tags_view(sprite_tags@) =~= kept + seq![
                    SpriteTagView::DoAction(end_action_script(end_action@)),
                    SpriteTagView::ShowFrame,
                ]);
                ExportTag::DefineSprite { id, num_frames, tags: sprite_tags }
            },
            other => other,
        };
        assert(finished@ == finished_tag(t@));
        r.push(finished);
        assert(tags_view(r@) =~= before_r.push(finished_tag(t@)));
        assert(all.subrange(0, done + 1) =~= all.subrange(0, done).push(t@));
        assert(finished_tags(all.subrange(0, done + 1)) =~= finished_tags(all.subrange(0, done)).push(
            finished_tag(t@),
        ));
        assert(before_rev.reverse() =~= seq![t@] + tags_view(rev@).reverse());
        assert forall|j: int| 0 <= j < tags_view(rev@).len() implies #[trigger] tags_view(
            rev@,
        ).reverse()[j] == all.subrange(done + 1, n)[j] by {
            assert(tags_view(rev@).reverse()[j] == before_rev.reverse()[j + 1]);
            assert(before_rev.reverse()[j + 1] == all.subrange(done, n)[j + 1]);
        }
        assert(tags_view(rev@).reverse() =~= all.subrange(done + 1, n));
    }
    assert(all.subrange(0, n) =~= all);
    r
}

/// A builder with no tags yet, whose first id is 1.
pub open spec fn empty_builder() -> BuilderView {
    BuilderView { tags: Seq::empty(), counter: 1, ids: Map::empty(), tag_index: Map::empty() }
}

/// The preloader's frames, where the movie has one.
pub open spec fn preloader_step(st: BuilderView, t: PreloaderType) -> Option<BuilderView> {
    if t is NoPreloader {
        Some(st)
    } else if st.counter + preloader_id_count(t) <= u16::MAX {
        Some(
            BuilderView {
                tags: st.tags + preloader_tags(st.counter, t),
                counter: st.counter + preloader_id_count(t),
                ..st
            },
        )
    } else {
        None
    }
}

/// The frame of the root timeline: its symbols placed, then the movie
/// stops there.
pub open spec fn root_step(st: BuilderView, root: Seq<PlaceSymbol>) -> Option<BuilderView> {
    if st.all_placeable(root) {
        Some(
            BuilderView {
                tags: st.tags + place_tags_view(
                    Seq::new(root.len(), |i: int| st.place_tag(root[i], i)),
                ) + seq![ExportTagView::DoAction(stop_actions()), ExportTagView::ShowFrame],
                ..st
            },
        )
    } else {
        None
    }
}

/// The builder once the preloader and the library are built: `None` where
/// one of them cannot be.
pub open spec fn library_stage(
    movie: Movie,
    images: Seq<Result<DecodedImage, String>>,
    sounds: Seq<SoundAssetView>,
) -> Option<BuilderView> {
    match preloader_step(empty_builder(), movie.properties.preloader) {
        None => None,
        Some(s1) => library_plan(s1, movie.symbols@, images, sounds),
    }
}

/// The whole movie's builder: `None` where it cannot be exported.
pub open spec fn export_plan(
    movie: Movie,
    images: Seq<Result<DecodedImage, String>>,
    sounds: Seq<SoundAssetView>,
) -> Option<BuilderView> {
    match library_stage(movie, images, sounds) {
        None => None,
        Some(s2) => root_step(s2, movie.root@),
    }
}

/// The tags of an exported movie, and the ids its symbols got.
pub struct ExportedMovie {
    pub tags: Vec<ExportTag>,
    pub character_ids: HashMap<SymbolIndex, CharacterId>,
}

/// Plans the file of a movie: its background color, the preloader if it
/// has one, the library (with the decoded image of each bitmap at its
/// symbol's index, and the sound files of the assets), and the root
/// timeline. Where it succeeds, the tags are those of the plan, finished;
/// it fails exactly where the plan does. A symbol of the root timeline
/// that got no character fails it with that symbol's index.
pub fn export_movie(
    movie: &Movie,
    images: &Vec<Result<DecodedImage, String>>,
    sounds: &Vec<SoundAsset>,
) -> (r: Result<ExportedMovie, ExportError>)
    requires
        library_inputs_fit(movie.symbols@, images@),
        movie.root.len() <= u16::MAX,
    ensures
        r matches Ok(e) ==> export_plan(*movie, images@, assets_view(sounds@)) is Some && tags_view(
            e.tags@,
        ) == seq![ExportTagView::SetBackgroundColor(movie.properties.background_color)]
            + finished_tags(export_plan(*movie, images@, assets_view(sounds@))->0.tags)
            && e.character_ids@ == export_plan(*movie, images@, assets_view(sounds@))->0.ids,
        r is Ok <==> export_plan(*movie, images@, assets_view(sounds@)) is Some,
        library_stage(*movie, images@, assets_view(sounds@)) matches Some(s2) ==> (
        !s2.all_placeable(movie.root@) ==> r == Err::<ExportedMovie, ExportError>(
            ExportError::NoCharacterId(movie.root@[s2.first_unplaceable(movie.root@)].symbol_index),
        )),
{
    let mut swf_builder = SwfBuilder::new();
    assert(swf_builder@ =~= empty_builder());
    let ghost plan = export_plan(*movie, images@, assets_view(sounds@));
    match movie.properties.preloader {
        PreloaderType::NoPreloader => {},
        _ => match build_preloader(movie.properties.preloader, &mut swf_builder) {
            Ok(()) => {},
            Err(e) => return Err(e),
        },
    }
    let ghost s1 = swf_builder@;
    assert(preloader_step(empty_builder(), movie.properties.preloader) == Some(s1));
    match build_library(&movie.symbols, images, sounds, &mut swf_builder) {
        Ok(()) => {},
        Err(e) => return Err(e),
    }
    let ghost s2 = swf_builder@;
    let ghost pre = swf_builder;
    match build_placed_symbols_of_root(&movie.root, &mut swf_builder) {
        Ok(()) => {},
        Err(e) => return Err(e),
    }
    assert(Seq::new(movie.root@.len(), |i: int| s2.place_tag(movie.root@[i], i)) =~= Seq::new(
        movie.root@.len(),
        |i: int| pre.place_tag(movie.root@[i], i),
    ));
    assert(swf_builder@.tags =~~= root_step(s2, movie.root@)->0.tags);
    assert(swf_builder@ == root_step(s2, movie.root@)->0);
    let mut tags = vec![ExportTag::SetBackgroundColor(movie.properties.background_color)];
    let mut finished = finish_tags(swf_builder.tags);
    let ghost f = tags_view(finished@);
    tags.append(&mut finished);
    assert(tags_view(tags@) =~= seq![ExportTagView::SetBackgroundColor(movie.properties.background_color)] + f);
    Ok(ExportedMovie { tags, character_ids: swf_builder.symbol_index_to_character_id })
}

} // verus!
