//! The preloader: frames before the movie that show a loading bar growing
//! with the bytes loaded, and optionally a play button once all is loaded.
use vstd::prelude::*;
use crate::export::{
    Avm1Action, Avm1ActionView, Avm1Value, Avm1ValueView, CharacterId, ExportError, ExportTag,
    ExportTagView, PlaceObjectTag, PlaceObjectTagView, Placement, RectangleSize, ShapeColor,
    SpriteTag, SpriteTagView, SwfBuilder, actions_view, sprite_tags_view, tags_view,
};
use crate::movie::PreloaderType;

verus! {

/// Bit pattern of the 64-bit float 1.0.
pub const DOUBLE_ONE: u64 = 0x3ff0000000000000;

fn text(s: &str) -> (r: String)
    ensures
        r@ == s@,
{
    s.to_owned()
}

fn str_value(s: &str) -> (r: Avm1Value)
    ensures
        r@ == Avm1ValueView::Str(s@),
{
    Avm1Value::Str(text(s))
}

fn push1(a: Avm1Value) -> (r: Avm1Action)
    ensures
        r@ == Avm1ActionView::Push(seq![a@]),
{
    let v = vec![a];
    assert(v@.map_values(|x: Avm1Value| x@) =~= seq![a@]);
    Avm1Action::Push(v)
}

fn push2(a: Avm1Value, b: Avm1Value) -> (r: Avm1Action)
    ensures
        r@ == Avm1ActionView::Push(seq![a@, b@]),
{
    let v = vec![a, b];
    assert(v@.map_values(|x: Avm1Value| x@) =~= seq![a@, b@]);
    Avm1Action::Push(v)
}

fn push3(a: Avm1Value, b: Avm1Value, c: Avm1Value) -> (r: Avm1Action)
    ensures
        r@ == Avm1ActionView::Push(seq![a@, b@, c@]),
{
    let v = vec![a, b, c];
    assert(v@.map_values(|x: Avm1Value| x@) =~= seq![a@, b@, c@]);
    Avm1Action::Push(v)
}

fn push4(a: Avm1Value, b: Avm1Value, c: Avm1Value, d: Avm1Value) -> (r: Avm1Action)
    ensures
        r@ == Avm1ActionView::Push(seq![a@, b@, c@, d@]),
{
    let v = vec![a, b, c, d];
    assert(v@.map_values(|x: Avm1Value| x@) =~= seq![a@, b@, c@, d@]);
    Avm1Action::Push(v)
}

/// The script of the first frame: while loading, it scales the loading bar
/// to the part of the bytes loaded; once all are loaded it goes to the next
/// frame. The function it installs as `onEnterFrame` is the 19 actions
/// after `DefineFunction2`.
pub open spec fn preloader_script() -> Seq<Avm1ActionView> {
    seq![
        Avm1ActionView::ConstantPool(
            seq![
                "loading_bar"@,
                "onEnterFrame"@,
                "_xscale"@,
                "getBytesLoaded"@,
                "getBytesTotal"@,
                "gotoAndStop"@,
            ],
        ),
        Avm1ActionView::Push(seq![Avm1ValueView::ConstantPool(0)]),
        Avm1ActionView::GetVariable,
        Avm1ActionView::Push(seq![Avm1ValueView::ConstantPool(1)]),
        Avm1ActionView::DefineFunction2 { register_count: 3, body_len: 19 },
        // _root.getBytesLoaded()
        Avm1ActionView::Push(
            seq![
                Avm1ValueView::Double(0),
                Avm1ValueView::Register(1),
                Avm1ValueView::ConstantPool(3),
            ],
        ),
        Avm1ActionView::CallMethod,
        // _root.getBytesTotal()
        Avm1ActionView::Push(
            seq![
                Avm1ValueView::Double(0),
                Avm1ValueView::Register(1),
                Avm1ValueView::ConstantPool(4),
            ],
        ),
        Avm1ActionView::CallMethod,
        Avm1ActionView::Divide,
        Avm1ActionView::Push(seq![Avm1ValueView::Int(100)]),
        Avm1ActionView::Multiply,
        Avm1ActionView::StoreRegister(2),
        Avm1ActionView::Pop,
        // loading_bar._xscale = percentage
        Avm1ActionView::Push(seq![Avm1ValueView::ConstantPool(0)]),
        Avm1ActionView::GetVariable,
        Avm1ActionView::Push(seq![Avm1ValueView::ConstantPool(2), Avm1ValueView::Register(2)]),
        Avm1ActionView::SetMember,
        // if percentage >= 100: _root.gotoAndStop(2)
        Avm1ActionView::Push(seq![Avm1ValueView::Register(2), Avm1ValueView::Int(100)]),
        Avm1ActionView::Less2,
        Avm1ActionView::If(23),
        Avm1ActionView::Push(
            seq![
                Avm1ValueView::Int(2),
                Avm1ValueView::Double(DOUBLE_ONE),
                Avm1ValueView::Register(1),
                Avm1ValueView::ConstantPool(5),
            ],
        ),
        Avm1ActionView::CallMethod,
        Avm1ActionView::Pop,
        Avm1ActionView::SetMember,
        Avm1ActionView::Stop,
        Avm1ActionView::End,
    ]
}

pub fn preloader_actions() -> (r: Vec<Avm1Action>)
    ensures
        actions_view(r@) == preloader_script(),
{
    let names = vec![
        text("loading_bar"),
        text("onEnterFrame"),
        text("_xscale"),
        text("getBytesLoaded"),
        text("getBytesTotal"),
        text("gotoAndStop"),
    ];
    assert(names@.map_values(|x: String| x@) =~= seq![
        "loading_bar"@,
        "onEnterFrame"@,
        "_xscale"@,
        "getBytesLoaded"@,
        "getBytesTotal"@,
        "gotoAndStop"@,
    ]);
    let r = vec![
        Avm1Action::ConstantPool(names),
        push1(Avm1Value::ConstantPool(0)),
        Avm1Action::GetVariable,
        push1(Avm1Value::ConstantPool(1)),
        Avm1Action::DefineFunction2 { register_count: 3, body_len: 19 },
        push3(Avm1Value::Double(0), Avm1Value::Register(1), Avm1Value::ConstantPool(3)),
        Avm1Action::CallMethod,
        push3(Avm1Value::Double(0), Avm1Value::Register(1), Avm1Value::ConstantPool(4)),
        Avm1Action::CallMethod,
        Avm1Action::Divide,
        push1(Avm1Value::Int(100)),
        Avm1Action::Multiply,
        Avm1Action::StoreRegister(2),
        Avm1Action::Pop,
        push1(Avm1Value::ConstantPool(0)),
        Avm1Action::GetVariable,
        push2(Avm1Value::ConstantPool(2), Avm1Value::Register(2)),
        Avm1Action::SetMember,
        push2(Avm1Value::Register(2), Avm1Value::Int(100)),
        Avm1Action::Less2,
        Avm1Action::If(23),
        push4(
            Avm1Value::Int(2),
            Avm1Value::Double(DOUBLE_ONE),
            Avm1Value::Register(1),
            Avm1Value::ConstantPool(5),
        ),
        Avm1Action::CallMethod,
        Avm1Action::Pop,
        Avm1Action::SetMember,
        Avm1Action::Stop,
        Avm1Action::End,
    ];
    assert(actions_view(r@) =~= preloader_script());
    r
}

/// The script of the play button: `_root.nextFrame()`.
pub open spec fn play_button_script() -> Seq<Avm1ActionView> {
    seq![
        Avm1ActionView::Push(seq![Avm1ValueView::Double(0), Avm1ValueView::Str("_root"@)]),
        Avm1ActionView::GetVariable,
        Avm1ActionView::Push(seq![Avm1ValueView::Str("nextFrame"@)]),
        Avm1ActionView::CallMethod,
        Avm1ActionView::Pop,
        Avm1ActionView::End,
    ]
}

pub fn play_button_actions() -> (r: Vec<Avm1Action>)
    ensures
        actions_view(r@) == play_button_script(),
{
    let r = vec![
        push2(Avm1Value::Double(0), str_value("_root")),
        Avm1Action::GetVariable,
        push1(str_value("nextFrame")),
        Avm1Action::CallMethod,
        Avm1Action::Pop,
        Avm1Action::End,
    ];
    assert(actions_view(r@) =~= play_button_script());
    r
}

/// How many character ids the preloader takes.
pub open spec fn preloader_id_count(t: PreloaderType) -> int {
    if t is WithPlayButton { 7 } else { 4 }
}

pub open spec fn place_view(id: int, depth: int, placement: Placement, name: Option<Seq<char>>) -> ExportTagView {
    ExportTagView::PlaceObject(
        PlaceObjectTagView {
            character_id: id as u16,
            depth: depth as u16,
            replace: false,
            placement,
            name,
        },
    )
}

/// The first frame: a black background over the stage, the gray loading
/// bar and over it the white one, in a sprite named `loading_bar` that the
/// script scales; the ids are the four from `b` on.
pub open spec fn loading_frame_tags(b: int) -> Seq<ExportTagView> {
    seq![
        ExportTagView::DefineRectangle { id: b as u16, size: RectangleSize::Stage, color: ShapeColor::Black },
        place_view(b, b, Placement::Identity, None),
        ExportTagView::DefineRectangle {
            id: (b + 1) as u16,
            size: RectangleSize::LoadingBar,
            color: ShapeColor::Gray,
        },
        place_view(b + 1, b + 1, Placement::LoadingBar, None),
        ExportTagView::DefineRectangle {
            id: (b + 2) as u16,
            size: RectangleSize::LoadingBar,
            color: ShapeColor::White,
        },
        ExportTagView::DefineSprite {
            id: (b + 3) as u16,
            num_frames: 1,
            tags: seq![
                SpriteTagView::PlaceObject(
                    PlaceObjectTagView {
                        character_id: (b + 2) as u16,
                        depth: 1,
                        replace: false,
                        placement: Placement::Identity,
                        name: None,
                    },
                ),
            ],
        },
        place_view(b + 3, b + 3, Placement::LoadingBar, Some("loading_bar"@)),
        ExportTagView::DoAction(preloader_script()),
        ExportTagView::ShowFrame,
    ]
}

/// The second frame, with the play button: its two shapes and the button,
/// at depth 3; the ids are the three from `b + 4` on.
pub open spec fn play_button_frame_tags(b: int) -> Seq<ExportTagView> {
    seq![
        ExportTagView::DefinePlayButtonShape { id: (b + 4) as u16, color: ShapeColor::White },
        ExportTagView::DefinePlayButtonShape { id: (b + 5) as u16, color: ShapeColor::Gray },
        ExportTagView::DefinePlayButton {
            id: (b + 6) as u16,
            up_shape: (b + 4) as u16,
            over_shape: (b + 5) as u16,
            actions: play_button_script(),
        },
        place_view(b + 6, 3, Placement::PlayButton, None),
        ExportTagView::ShowFrame,
    ]
}

/// What the movie's first frame takes off the stage again: the background,
/// the gray bar and the loading bar's sprite, and, with a play button, what
/// stands at depth 3.
pub open spec fn preloader_removal_tags(b: int, t: PreloaderType) -> Seq<ExportTagView> {
    seq![
        ExportTagView::RemoveObject { depth: b as u16, character_id: b as u16 },
        ExportTagView::RemoveObject { depth: (b + 1) as u16, character_id: (b + 1) as u16 },
        ExportTagView::RemoveObject { depth: (b + 3) as u16, character_id: (b + 3) as u16 },
    ] + if t is WithPlayButton {
        seq![ExportTagView::RemoveObject { depth: 3, character_id: 3 }]
    } else {
        Seq::empty()
    }
}

/// All the preloader's tags, its ids taken from `b` on.
pub open spec fn preloader_tags(b: int, t: PreloaderType) -> Seq<ExportTagView> {
    loading_frame_tags(b) + (if t is WithPlayButton {
        play_button_frame_tags(b)
    } else {
        Seq::empty()
    }) + preloader_removal_tags(b, t)
}

fn place_tag(id: CharacterId, depth: u16, placement: Placement, name: Option<String>) -> (r: ExportTag)
    ensures
        r@ == place_view(id as int, depth as int, placement, match name {
            Some(n) => Some(n@),
            None => None,
        }),
{
    ExportTag::PlaceObject(PlaceObjectTag { character_id: id, depth, replace: false, placement, name })
}

/// Adds the frames of the preloader in front of the movie. Its ids are
/// checked up front: where too few are left, nothing is added.
pub fn build_preloader(preloader_type: PreloaderType, swf_builder: &mut SwfBuilder) -> (r: Result<
    (),
    ExportError,
>)
    requires
        old(swf_builder).wf(),
    ensures
        final(swf_builder).wf(),
        final(swf_builder).symbol_index_to_character_id == old(
            swf_builder,
        ).symbol_index_to_character_id,
        final(swf_builder).symbol_index_to_tag_index == old(swf_builder).symbol_index_to_tag_index,
        r is Ok <==> old(swf_builder).character_id_counter + preloader_id_count(preloader_type)
            <= u16::MAX,
        r matches Err(e) ==> e is CharacterIdsExhausted && tags_view(final(swf_builder).tags@)
            == tags_view(old(swf_builder).tags@) && final(swf_builder).character_id_counter == old(
            swf_builder,
        ).character_id_counter,
        r is Ok ==> {
            let b = old(swf_builder).character_id_counter as int;
            &&& final(swf_builder).character_id_counter == b + preloader_id_count(preloader_type)
            &&& tags_view(final(swf_builder).tags@) == tags_view(old(swf_builder).tags@)
                + preloader_tags(b, preloader_type)
        },
{
    let with_play_button = match preloader_type {
        PreloaderType::WithPlayButton => true,
        _ => false,
    };
    let needed: u16 = if with_play_button { 7 } else { 4 };
    if swf_builder.character_id_counter > u16::MAX - needed {
        return Err(ExportError::CharacterIdsExhausted);
    }
    let ghost b = swf_builder.character_id_counter as int;
    let ghost old_tags = tags_view(swf_builder.tags@);
    let background_id = match swf_builder.next_character_id() {
        Ok(id) => id,
        Err(e) => return Err(e),  // not reached
    };
    let loading_bar_background_id = match swf_builder.next_character_id() {
        Ok(id) => id,
        Err(e) => return Err(e),  // not reached
    };
    let loading_bar_foreground_id = match swf_builder.next_character_id() {
        Ok(id) => id,
        Err(e) => return Err(e),  // not reached
    };
    let loading_bar_clip_id = match swf_builder.next_character_id() {
        Ok(id) => id,
        Err(e) => return Err(e),  // not reached
    };
    let sprite_tags = vec![
        SpriteTag::PlaceObject(
            PlaceObjectTag {
                character_id: loading_bar_foreground_id,
                depth: 1,
                replace: false,
                placement: Placement::Identity,
                name: None,
            },
        ),
    ];
    assert(sprite_tags_view(sprite_tags@) =~= seq![
        SpriteTagView::PlaceObject(
            PlaceObjectTagView {
                character_id: (b + 2) as u16,
                depth: 1,
                replace: false,
                placement: Placement::Identity,
                name: None,
            },
        ),
    ]);
    assert(background_id == b && loading_bar_clip_id == b + 3);
    let first_frame = vec![
        ExportTag::DefineRectangle {
            id: background_id,
            size: RectangleSize::Stage,
            color: ShapeColor::Black,
        },
        place_tag(background_id, background_id, Placement::Identity, None),
        ExportTag::DefineRectangle {
            id: loading_bar_background_id,
            size: RectangleSize::LoadingBar,
            color: ShapeColor::Gray,
        },
        place_tag(loading_bar_background_id, loading_bar_background_id, Placement::LoadingBar, None),
        ExportTag::DefineRectangle {
            id: loading_bar_foreground_id,
            size: RectangleSize::LoadingBar,
            color: ShapeColor::White,
        },
        ExportTag::DefineSprite { id: loading_bar_clip_id, num_frames: 1, tags: sprite_tags },
        place_tag(
            loading_bar_clip_id,
            loading_bar_clip_id,
            Placement::LoadingBar,
            Some(text("loading_bar")),
        ),
        ExportTag::DoAction(preloader_actions()),
        ExportTag::ShowFrame,
    ];
    assert(tags_view(first_frame@) =~= loading_frame_tags(b));
    let mut first_frame = first_frame;
    append_tags(&mut swf_builder.tags, &mut first_frame);
    if with_play_button {
        let play_button_shape_id = match swf_builder.next_character_id() {
            Ok(id) => id,
            Err(e) => return Err(e),  // not reached
        };
        let play_button_shape_over_id = match swf_builder.next_character_id() {
            Ok(id) => id,
            Err(e) => return Err(e),  // not reached
        };
        let play_button_id = match swf_builder.next_character_id() {
            Ok(id) => id,
            Err(e) => return Err(e),  // not reached
        };
        let mut second_frame = vec![
            ExportTag::DefinePlayButtonShape { id: play_button_shape_id, color: ShapeColor::White },
            ExportTag::DefinePlayButtonShape { id: play_button_shape_over_id, color: ShapeColor::Gray },
            ExportTag::DefinePlayButton {
                id: play_button_id,
                up_shape: play_button_shape_id,
                over_shape: play_button_shape_over_id,
                actions: play_button_actions(),
            },
            place_tag(play_button_id, 3, Placement::PlayButton, None),
            ExportTag::ShowFrame,
        ];
        assert(tags_view(second_frame@) =~= play_button_frame_tags(b));
        append_tags(&mut swf_builder.tags, &mut second_frame);
    }
    let mut removals = vec![
        ExportTag::RemoveObject { depth: background_id, character_id: background_id },
        ExportTag::RemoveObject {
            depth: loading_bar_background_id,
            character_id: loading_bar_background_id,
        },
        ExportTag::RemoveObject { depth: loading_bar_clip_id, character_id: loading_bar_clip_id },
    ];
    if with_play_button {
        // the play button
        removals.push(ExportTag::RemoveObject { depth: 3, character_id: 3 });
    }
    assert(tags_view(removals@) =~= preloader_removal_tags(b, preloader_type));
    append_tags(&mut swf_builder.tags, &mut removals);
    assert(tags_view(swf_builder.tags@) =~= old_tags + preloader_tags(b, preloader_type));
    Ok(())
}

fn append_tags(tags: &mut Vec<ExportTag>, more: &mut Vec<ExportTag>)
    ensures
        tags_view(final(tags)@) == tags_view(old(tags)@) + tags_view(old(more)@),
{
    tags.append(more);
    assert(tags_view(old(tags)@ + old(more)@) =~= tags_view(old(tags)@) + tags_view(old(more)@));
}

/// How many frames the tags end: their `ShowFrame` tags.
pub open spec fn show_frames(tags: Seq<ExportTagView>) -> nat
    decreases tags.len(),
{
    if tags.len() == 0 {
        0
    } else {
        show_frames(tags.drop_last()) + if tags.last() is ShowFrame {
            1nat
        } else {
            0nat
        }
    }
}

proof fn lemma_show_frames_append(a: Seq<ExportTagView>, b: Seq<ExportTagView>)
    ensures
        show_frames(a + b) == show_frames(a) + show_frames(b),
    decreases b.len(),
{
    if b.len() == 0 {
        assert(a + b =~= a);
    } else {
        lemma_show_frames_append(a, b.drop_last());
        assert((a + b).drop_last() =~= a + b.drop_last());
    }
}

/// A tag of the list places something at the depth.
pub open spec fn placed_at(tags: Seq<ExportTagView>, depth: u16, before: int) -> bool {
    exists|j: int|
        0 <= j < before && #[trigger] tags[j] is PlaceObject && tags[j]->PlaceObject_0.depth
            == depth
}

/// The preloader ends all the movie's frames but the last, and each of its
/// removals takes off a depth that one of its tags placed before.
pub proof fn lemma_preloader_frames(b: int, m: crate::movie::MovieView)
    requires
        !(m.properties.preloader is NoPreloader),
        0 <= b,
        b + preloader_id_count(m.properties.preloader) <= u16::MAX,
    ensures
        show_frames(preloader_tags(b, m.properties.preloader)) == m.num_frames() - 1,
        ({
            let tags = preloader_tags(b, m.properties.preloader);
            forall|i: int|
                0 <= i < tags.len() && #[trigger] tags[i] is RemoveObject ==> placed_at(
                    tags,
                    tags[i]->RemoveObject_depth,
                    i,
                )
        }),
{
    let t = m.properties.preloader;
    let l = loading_frame_tags(b);
    let p: Seq<ExportTagView> = if t is WithPlayButton {
        play_button_frame_tags(b)
    } else {
        Seq::empty()
    };
    let r = preloader_removal_tags(b, t);
    assert(show_frames(l) == 1) by {
        reveal_with_fuel(show_frames, 12);
    }
    assert(show_frames(p) == if t is WithPlayButton {
        1nat
    } else {
        0nat
    }) by {
        reveal_with_fuel(show_frames, 7);
    }
    assert(show_frames(r) == 0) by {
        reveal_with_fuel(show_frames, 6);
    }
    lemma_show_frames_append(l, p);
    lemma_show_frames_append(l + p, r);
    let tags = preloader_tags(b, t);
    let n = (l + p).len();
    assert forall|i: int|
        0 <= i < tags.len() && #[trigger] tags[i] is RemoveObject implies placed_at(
        tags,
        tags[i]->RemoveObject_depth,
        i,
    ) by {
        assert(i >= n) by {
            if i < l.len() {
                assert(tags[i] == l[i]);
            } else if i < n {
                assert(tags[i] == p[i - l.len()]);
            }
        }
        assert(tags[i] == r[i - n]);
        assert(tags[1] == l[1] && tags[3] == l[3] && tags[6] == l[6]);
        if i - n == 0 {
            assert(tags[1] is PlaceObject);
        } else if i - n == 1 {
            assert(tags[3] is PlaceObject);
        } else if i - n == 2 {
            assert(tags[6] is PlaceObject);
        } else {
            assert(t is WithPlayButton);
            assert(tags[l.len() as int + 3] == p[3]);
            assert(tags[l.len() as int + 3] is PlaceObject);
        }
    }
}

/// The script's call at `i` is a call of the method that the pool entry
/// `name` names, pushed last before the call.
pub open spec fn calls_method(acts: Seq<Avm1ActionView>, i: int, name: Seq<char>) -> bool {
    &&& 1 <= i < acts.len()
    &&& acts[i] is CallMethod
    &&& acts[i - 1] is Push
    &&& acts[i - 1]->Push_0.len() > 0
    &&& acts[0] is ConstantPool
    &&& acts[i - 1]->Push_0.last() matches Avm1ValueView::ConstantPool(k) && k
        < acts[0]->ConstantPool_0.len() && acts[0]->ConstantPool_0[k as int] == name
}

/// The loading frame's script, once everything is loaded, sends the root
/// timeline to the frame right after the loading frame: every call of
/// `gotoAndStop` in it is given, as its first pushed value, the number of
/// the frame that follows the frames the loading tags end.
pub proof fn lemma_preloader_starts_next_frame(b: int)
    ensures
        ({
            let tags = loading_frame_tags(b);
            forall|d: int, i: int|
                0 <= d < tags.len() && tags[d] is DoAction && #[trigger] calls_method(
                    tags[d]->DoAction_0,
                    i,
                    "gotoAndStop"@,
                ) ==> tags[d]->DoAction_0[i - 1]->Push_0[0] == Avm1ValueView::Int(
                    (show_frames(tags) + 1) as i32,
                )
        }),
        exists|i: int| #[trigger] calls_method(preloader_script(), i, "gotoAndStop"@),
{
    let tags = loading_frame_tags(b);
    assert(show_frames(tags) == 1) by {
        reveal_with_fuel(show_frames, 12);
    }
    let acts = preloader_script();
    let pool = acts[0]->ConstantPool_0;
    reveal_strlit("gotoAndStop");
    reveal_strlit("getBytesLoaded");
    reveal_strlit("getBytesTotal");
    assert(pool[3].len() != pool[5].len());
    assert(pool[4].len() != pool[5].len());
    assert(calls_method(acts, 22, "gotoAndStop"@));
    assert forall|i: int| #[trigger] calls_method(acts, i, "gotoAndStop"@) implies acts[i
        - 1]->Push_0[0] == Avm1ValueView::Int(2) by {
        assert(i == 6 || i == 8 || i == 22 || !(acts[i] is CallMethod));
        if i == 6 {
            assert(acts[5]->Push_0.last() == Avm1ValueView::ConstantPool(3));
        } else if i == 8 {
            assert(acts[7]->Push_0.last() == Avm1ValueView::ConstantPool(4));
        }
    }
    assert forall|d: int, i: int|
        0 <= d < tags.len() && tags[d] is DoAction && #[trigger] calls_method(
            tags[d]->DoAction_0,
            i,
            "gotoAndStop"@,
        ) implies tags[d]->DoAction_0[i - 1]->Push_0[0] == Avm1ValueView::Int(
        (show_frames(tags) + 1) as i32,
    ) by {
        assert(d == 7);
        assert(tags[d]->DoAction_0 == acts);
    }
}

} // verus!
