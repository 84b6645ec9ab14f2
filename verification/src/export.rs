//! The plan of the SWF file a movie is exported to: which characters are
//! defined, with which ids, in which order, and where they are placed.
//!
//! Geometry (scales, positions in pixels) stays symbolic here, as a
//! `Placement` or a shape size; the code that writes the file turns it into
//! twips and matrices.
use vstd::prelude::*;
use std::collections::HashMap;
use crate::movie::{EditorColor, EditorTransform, PlaceSymbol, SymbolIndex};

verus! {

pub type CharacterId = u16;

/// Where a placed character goes.
#[derive(Clone, Copy, PartialEq, Eq, Structural)]
pub enum Placement {
    Identity,
    /// at a placed symbol's transform
    Transform(EditorTransform),
    /// at a placed symbol's transform, with an image of this width and
    /// height centered on its position
    CenteredTransform(EditorTransform, u32, u32),
    /// an image of this width and height centered on the origin
    Centered(u32, u32),
    /// the preloader's loading bar: 85 percent of the stage wide, centered
    LoadingBar,
    /// the preloader's play button: left of and below the center of the stage
    PlayButton,
}

pub struct PlaceObjectTag {
    pub character_id: CharacterId,
    pub depth: u16,
    /// replaces the character at the depth instead of placing a new one
    pub replace: bool,
    pub placement: Placement,
    pub name: Option<String>,
}

pub struct PlaceObjectTagView {
    pub character_id: CharacterId,
    pub depth: u16,
    pub replace: bool,
    pub placement: Placement,
    pub name: Option<Seq<char>>,
}

impl View for PlaceObjectTag {
    type V = PlaceObjectTagView;

    open spec fn view(&self) -> PlaceObjectTagView {
        PlaceObjectTagView {
            character_id: self.character_id,
            depth: self.depth,
            replace: self.replace,
            placement: self.placement,
            name: match self.name {
                Some(n) => Some(n@),
                None => None,
            },
        }
    }
}

pub open spec fn place_objects_view(t: Seq<PlaceObjectTag>) -> Seq<PlaceObjectTagView> {
    t.map_values(|p: PlaceObjectTag| p@)
}

impl Clone for PlaceObjectTag {
    fn clone(&self) -> (r: Self)
        ensures
            r == *self,
    {
        PlaceObjectTag {
            character_id: self.character_id,
            depth: self.depth,
            replace: self.replace,
            placement: self.placement,
            name: match &self.name {
                Some(n) => Some(n.clone()),
                None => None,
            },
        }
    }
}

/// A value that an ActionScript 2 action pushes.
pub enum Avm1Value {
    /// bits of an f64
    Double(u64),
    Int(i32),
    Str(String),
    Register(u8),
    ConstantPool(u8),
}

/// An ActionScript 2 action.
pub enum Avm1Action {
    ConstantPool(Vec<String>),
    Push(Vec<Avm1Value>),
    GetVariable,
    SetMember,
    CallMethod,
    CallFunction,
    Pop,
    Divide,
    Multiply,
    Less2,
    StoreRegister(u8),
    If(i16),
    /// an unnamed function without parameters that preloads `_root` into
    /// register 1 and suppresses `this`, `super` and `arguments`; its body
    /// is the next `body_len` actions
    DefineFunction2 { register_count: u8, body_len: u16 },
    Stop,
    End,
}

pub enum Avm1ValueView {
    Double(u64),
    Int(i32),
    Str(Seq<char>),
    Register(u8),
    ConstantPool(u8),
}

impl View for Avm1Value {
    type V = Avm1ValueView;

    open spec fn view(&self) -> Avm1ValueView {
        match self {
            Avm1Value::Double(d) => Avm1ValueView::Double(*d),
            Avm1Value::Int(i) => Avm1ValueView::Int(*i),
            Avm1Value::Str(s) => Avm1ValueView::Str(s@),
            Avm1Value::Register(r) => Avm1ValueView::Register(*r),
            Avm1Value::ConstantPool(c) => Avm1ValueView::ConstantPool(*c),
        }
    }
}

pub enum Avm1ActionView {
    ConstantPool(Seq<Seq<char>>),
    Push(Seq<Avm1ValueView>),
    GetVariable,
    SetMember,
    CallMethod,
    CallFunction,
    Pop,
    Divide,
    Multiply,
    Less2,
    StoreRegister(u8),
    If(i16),
    DefineFunction2 { register_count: u8, body_len: u16 },
    Stop,
    End,
}

impl View for Avm1Action {
    type V = Avm1ActionView;

    open spec fn view(&self) -> Avm1ActionView {
        match self {
            Avm1Action::ConstantPool(s) => Avm1ActionView::ConstantPool(
                s@.map_values(|x: String| x@),
            ),
            Avm1Action::Push(v) => Avm1ActionView::Push(v@.map_values(|x: Avm1Value| x@)),
            Avm1Action::GetVariable => Avm1ActionView::GetVariable,
            Avm1Action::SetMember => Avm1ActionView::SetMember,
            Avm1Action::CallMethod => Avm1ActionView::CallMethod,
            Avm1Action::CallFunction => Avm1ActionView::CallFunction,
            Avm1Action::Pop => Avm1ActionView::Pop,
            Avm1Action::Divide => Avm1ActionView::Divide,
            Avm1Action::Multiply => Avm1ActionView::Multiply,
            Avm1Action::Less2 => Avm1ActionView::Less2,
            Avm1Action::StoreRegister(r) => Avm1ActionView::StoreRegister(*r),
            Avm1Action::If(o) => Avm1ActionView::If(*o),
            Avm1Action::DefineFunction2 { register_count, body_len } => Avm1ActionView::DefineFunction2 {
                register_count: *register_count,
                body_len: *body_len,
            },
            Avm1Action::Stop => Avm1ActionView::Stop,
            Avm1Action::End => Avm1ActionView::End,
        }
    }
}

/// A list of actions, each by its view.
pub open spec fn actions_view(a: Seq<Avm1Action>) -> Seq<Avm1ActionView> {
    a.map_values(|x: Avm1Action| x@)
}

/// A tag inside a sprite's timeline.
pub enum SpriteTag {
    PlaceObject(PlaceObjectTag),
    ShowFrame,
    DoAction(Vec<Avm1Action>),
}

pub enum SpriteTagView {
    PlaceObject(PlaceObjectTagView),
    ShowFrame,
    DoAction(Seq<Avm1ActionView>),
}

impl View for SpriteTag {
    type V = SpriteTagView;

    open spec fn view(&self) -> SpriteTagView {
        match self {
            SpriteTag::PlaceObject(p) => SpriteTagView::PlaceObject(p@),
            SpriteTag::ShowFrame => SpriteTagView::ShowFrame,
            SpriteTag::DoAction(a) => SpriteTagView::DoAction(actions_view(a@)),
        }
    }
}

pub open spec fn sprite_tags_view(t: Seq<SpriteTag>) -> Seq<SpriteTagView> {
    t.map_values(|x: SpriteTag| x@)
}

#[derive(PartialEq, Eq, Structural)]
pub enum ShapeColor {
    Black,
    Gray,
    White,
}

/// The size of a rectangle of the preloader.
#[derive(PartialEq, Eq, Structural)]
pub enum RectangleSize {
    Stage,
    LoadingBar,
}

/// How a sound is stored.
#[derive(PartialEq, Eq, Structural)]
pub struct SoundFormat {
    /// mp3 data; otherwise uncompressed samples
    pub mp3: bool,
    pub sample_rate: u16,
    pub is_stereo: bool,
    pub is_16_bit: bool,
}

/// A tag of the exported file.
pub enum ExportTag {
    SetBackgroundColor(EditorColor),
    /// premultiplied ARGB pixels, compressed
    DefineBitsLossless { id: CharacterId, width: u16, height: u16, data: Vec<u8> },
    /// a rectangle of the given size filled with a bitmap
    DefineBitmapShape { id: CharacterId, bitmap_id: CharacterId, width: u32, height: u32 },
    DefineRectangle { id: CharacterId, size: RectangleSize, color: ShapeColor },
    /// a triangle pointing right, 32 pixels wide and high
    DefinePlayButtonShape { id: CharacterId, color: ShapeColor },
    PlaceObject(PlaceObjectTag),
    RemoveObject { depth: u16, character_id: CharacterId },
    ShowFrame,
    DoAction(Vec<Avm1Action>),
    DefineSprite { id: CharacterId, num_frames: u16, tags: Vec<SpriteTag> },
    /// a sprite that calls the named function on its last frame
    DefineSpriteWithEndAction {
        id: CharacterId,
        num_frames: u16,
        tags: Vec<SpriteTag>,
        end_action: String,
    },
    ExportAssets { id: CharacterId, name: String },
    /// a button showing the first shape, and the second one when the mouse
    /// is over it or presses it, that runs the actions when released
    DefinePlayButton {
        id: CharacterId,
        up_shape: CharacterId,
        over_shape: CharacterId,
        actions: Vec<Avm1Action>,
    },
    DefineSound { id: CharacterId, format: SoundFormat, num_samples: u32, data: Vec<u8> },
    /// the glyphs of a font symbol
    DefineFont { id: CharacterId, symbol_index: SymbolIndex },
}

pub enum ExportTagView {
    SetBackgroundColor(EditorColor),
    DefineBitsLossless { id: CharacterId, width: u16, height: u16, data: Seq<u8> },
    DefineBitmapShape { id: CharacterId, bitmap_id: CharacterId, width: u32, height: u32 },
    DefineRectangle { id: CharacterId, size: RectangleSize, color: ShapeColor },
    DefinePlayButtonShape { id: CharacterId, color: ShapeColor },
    PlaceObject(PlaceObjectTagView),
    RemoveObject { depth: u16, character_id: CharacterId },
    ShowFrame,
    DoAction(Seq<Avm1ActionView>),
    DefineSprite { id: CharacterId, num_frames: u16, tags: Seq<SpriteTagView> },
    DefineSpriteWithEndAction {
        id: CharacterId,
        num_frames: u16,
        tags: Seq<SpriteTagView>,
        end_action: String,
    },
    ExportAssets { id: CharacterId, name: String },
    DefinePlayButton {
        id: CharacterId,
        up_shape: CharacterId,
        over_shape: CharacterId,
        actions: Seq<Avm1ActionView>,
    },
    DefineSound { id: CharacterId, format: SoundFormat, num_samples: u32, data: Seq<u8> },
    DefineFont { id: CharacterId, symbol_index: SymbolIndex },
}

impl View for ExportTag {
    type V = ExportTagView;

    open spec fn view(&self) -> ExportTagView {
        match self {
            ExportTag::SetBackgroundColor(c) => ExportTagView::SetBackgroundColor(*c),
            ExportTag::DefineBitsLossless { id, width, height, data } =>
                ExportTagView::DefineBitsLossless {
                id: *id,
                width: *width,
                height: *height,
                data: data@,
            },
            ExportTag::DefineBitmapShape { id, bitmap_id, width, height } =>
                ExportTagView::DefineBitmapShape {
                id: *id,
                bitmap_id: *bitmap_id,
                width: *width,
                height: *height,
            },
            ExportTag::DefineRectangle { id, size, color } => ExportTagView::DefineRectangle {
                id: *id,
                size: *size,
                color: *color,
            },
            ExportTag::DefinePlayButtonShape { id, color } => ExportTagView::DefinePlayButtonShape {
                id: *id,
                color: *color,
            },
            ExportTag::PlaceObject(p) => ExportTagView::PlaceObject(p@),
            ExportTag::RemoveObject { depth, character_id } => ExportTagView::RemoveObject {
                depth: *depth,
                character_id: *character_id,
            },
            ExportTag::ShowFrame => ExportTagView::ShowFrame,
            ExportTag::DoAction(a) => ExportTagView::DoAction(actions_view(a@)),
            ExportTag::DefineSprite { id, num_frames, tags } => ExportTagView::DefineSprite {
                id: *id,
                num_frames: *num_frames,
                tags: sprite_tags_view(tags@),
            },
            ExportTag::DefineSpriteWithEndAction { id, num_frames, tags, end_action } =>
                ExportTagView::DefineSpriteWithEndAction {
                id: *id,
                num_frames: *num_frames,
                tags: sprite_tags_view(tags@),
                end_action: *end_action,
            },
            ExportTag::ExportAssets { id, name } => ExportTagView::ExportAssets {
                id: *id,
                name: *name,
            },
            ExportTag::DefinePlayButton { id, up_shape, over_shape, actions } =>
                ExportTagView::DefinePlayButton {
                id: *id,
                up_shape: *up_shape,
                over_shape: *over_shape,
                actions: actions_view(actions@),
            },
            ExportTag::DefineSound { id, format, num_samples, data } => ExportTagView::DefineSound {
                id: *id,
                format: *format,
                num_samples: *num_samples,
                data: data@,
            },
            ExportTag::DefineFont { id, symbol_index } => ExportTagView::DefineFont {
                id: *id,
                symbol_index: *symbol_index,
            },
        }
    }
}

pub open spec fn tags_view(t: Seq<ExportTag>) -> Seq<ExportTagView> {
    t.map_values(|x: ExportTag| x@)
}

/// Why a movie could not be exported.
pub enum ExportError {
    /// all 65535 character ids are in use
    CharacterIdsExhausted,
    /// the image of the bitmap at this path could not be read: the message
    Image(String),
    /// the animation of the bitmap at this path has more frames than the
    /// image is wide
    TooManyFrames(String),
    /// a placed symbol places a symbol that defines no character
    NoCharacterId(SymbolIndex),
    /// the tag of the movieclip at this symbol index is one that the file
    /// writer still has to finish
    NotStandardTag(SymbolIndex),
    /// the tag of the movieclip at this symbol index is not one that holds
    /// a timeline
    NotDefineSprite(SymbolIndex),
    /// a sound asset could not be used: its file name and the reason
    Sound(String, SoundError),
}

/// Why a sound asset could not be used.
pub enum SoundError {
    /// the number of channels, which is not 1 or 2
    Channels(usize),
    /// the bits per sample, which are not 8 or 16
    BitsPerSample(u16),
    /// the sample rate of a wave file, which is not one of 5512, 11025,
    /// 22050 or 44100
    WaveSampleRate(u32),
    /// the sample rate of an mp3 file, which is not one of 11025, 22050 or
    /// 44100
    Mp3SampleRate(u32),
    /// the mp3 data could not be decoded: the message
    Mp3Decode(String),
    /// the wave data could not be read: the message
    WaveDecode(String),
}

/// The tags of the exported file as they are built, with the ids the
/// symbols of the library got.
pub struct SwfBuilder {
    pub tags: Vec<ExportTag>,
    pub character_id_counter: CharacterId,
    pub symbol_index_to_character_id: HashMap<SymbolIndex, CharacterId>,
    /// the tag that defines each symbol's character
    pub symbol_index_to_tag_index: HashMap<SymbolIndex, usize>,
}

impl SwfBuilder {
    pub fn new() -> (b: SwfBuilder)
        ensures
            tags_view(b.tags@) == Seq::<ExportTagView>::empty(),
            b.character_id_counter == 1,
            b.symbol_index_to_character_id@ == Map::<SymbolIndex, CharacterId>::empty(),
            b.symbol_index_to_tag_index@ == Map::<SymbolIndex, usize>::empty(),
    {
        let b = SwfBuilder {
            tags: Vec::new(),
            character_id_counter: 1,
            symbol_index_to_character_id: HashMap::new(),
            symbol_index_to_tag_index: HashMap::new(),
        };
        assert(tags_view(b.tags@) =~= Seq::<ExportTagView>::empty());
        b
    }

    /// Hands out the next character id.
    pub fn next_character_id(&mut self) -> (r: Result<CharacterId, ExportError>)
        ensures
            final(self).tags == old(self).tags,
            final(self).symbol_index_to_character_id == old(self).symbol_index_to_character_id,
            final(self).symbol_index_to_tag_index == old(self).symbol_index_to_tag_index,
            old(self).character_id_counter < u16::MAX ==> {
                &&& r == Ok::<CharacterId, ExportError>(old(self).character_id_counter)
                &&& final(self).character_id_counter == old(self).character_id_counter + 1
            },
            old(self).character_id_counter == u16::MAX ==> {
                &&& r is Err
                &&& r->Err_0 is CharacterIdsExhausted
                &&& final(self).character_id_counter == old(self).character_id_counter
            },
    {
        if self.character_id_counter == u16::MAX {
            return Err(ExportError::CharacterIdsExhausted);
        }
        let character_id = self.character_id_counter;
        self.character_id_counter = self.character_id_counter + 1;
        Ok(character_id)
    }
}

/// A builder as its tags and maps, with the next free id.
pub struct BuilderView {
    pub tags: Seq<ExportTagView>,
    pub counter: int,
    pub ids: Map<SymbolIndex, CharacterId>,
    pub tag_index: Map<SymbolIndex, usize>,
}

impl View for SwfBuilder {
    type V = BuilderView;

    open spec fn view(&self) -> BuilderView {
        BuilderView {
            tags: tags_view(self.tags@),
            counter: self.character_id_counter as int,
            ids: self.symbol_index_to_character_id@,
            tag_index: self.symbol_index_to_tag_index@,
        }
    }
}

impl BuilderView {
    /// The tag indexes that the builder recorded point at its tags.
    pub open spec fn wf(self) -> bool {
        forall|si: SymbolIndex|
            #[trigger] self.tag_index.contains_key(si) ==> self.tag_index[si] < self.tags.len()
    }

    /// The tag that defines a symbol's character.
    pub open spec fn tag_of(self, si: SymbolIndex) -> ExportTagView {
        self.tags[self.tag_index[si] as int]
    }

    /// Where a placed symbol goes: a bitmap is centered on its position.
    pub open spec fn placement_of(self, ps: PlaceSymbol) -> Placement {
        let si = ps.symbol_index;
        if self.tag_index.contains_key(si) && self.tag_of(si) is DefineBitsLossless {
            let t = self.tag_of(si);
            Placement::CenteredTransform(
                ps.transform,
                t->DefineBitsLossless_width as u32,
                t->DefineBitsLossless_height as u32,
            )
        } else {
            Placement::Transform(ps.transform)
        }
    }

    /// The tag that places the `i`-th symbol of a timeline, at depth `i + 1`.
    pub open spec fn place_tag(self, ps: PlaceSymbol, i: int) -> PlaceObjectTagView {
        PlaceObjectTagView {
            character_id: self.ids[ps.symbol_index],
            depth: (i + 1) as u16,
            replace: false,
            placement: self.placement_of(ps),
            name: None,
        }
    }

    /// Every symbol of the timeline has a character.
    pub open spec fn all_placeable(self, placed: Seq<PlaceSymbol>) -> bool {
        forall|i: int|
            0 <= i < placed.len() ==> self.ids.contains_key(#[trigger] placed[i].symbol_index)
    }

    /// The first position of the timeline whose symbol has no character.
    pub open spec fn first_unplaceable(self, placed: Seq<PlaceSymbol>) -> int {
        choose|i: int|
            0 <= i < placed.len() && !self.ids.contains_key(#[trigger] placed[i].symbol_index)
                && forall|j: int|
                0 <= j < i ==> self.ids.contains_key(#[trigger] placed[j].symbol_index)
    }
}

impl SwfBuilder {
    /// The tag indexes that the builder recorded point at its tags.
    pub open spec fn wf(&self) -> bool {
        forall|si: SymbolIndex|
            #[trigger] self.symbol_index_to_tag_index@.contains_key(si)
                ==> self.symbol_index_to_tag_index@[si] < self.tags@.len()
    }

    pub open spec fn tag_of(&self, si: SymbolIndex) -> ExportTagView {
        self@.tag_of(si)
    }

    pub open spec fn placement_of(&self, ps: PlaceSymbol) -> Placement {
        self@.placement_of(ps)
    }

    pub open spec fn place_tag(&self, ps: PlaceSymbol, i: int) -> PlaceObjectTagView {
        self@.place_tag(ps, i)
    }

    pub open spec fn all_placeable(&self, placed: Seq<PlaceSymbol>) -> bool {
        self@.all_placeable(placed)
    }

    pub open spec fn first_unplaceable(&self, placed: Seq<PlaceSymbol>) -> int {
        self@.first_unplaceable(placed)
    }

    fn placement_of_exec(&self, place_symbol: &PlaceSymbol) -> (r: Placement)
        requires
            self.wf(),
        ensures
            r == self.placement_of(*place_symbol),
    {
        broadcast use vstd::std_specs::hash::group_hash_axioms;

        match self.symbol_index_to_tag_index.get(&place_symbol.symbol_index) {
            Some(tag_index) => match &self.tags[*tag_index] {
                ExportTag::DefineBitsLossless { width, height, .. } => Placement::CenteredTransform(
                    place_symbol.transform,
                    *width as u32,
                    *height as u32,
                ),
                _ => Placement::Transform(place_symbol.transform),
            },
            None => Placement::Transform(place_symbol.transform),
        }
    }
}

/// The tags that place the symbols of a timeline, one depth each, in order.
pub fn get_placed_symbols_tags(placed_symbols: &Vec<PlaceSymbol>, swf_builder: &SwfBuilder) -> (r:
    Result<Vec<PlaceObjectTag>, ExportError>)
    requires
        swf_builder.wf(),
        placed_symbols.len() <= u16::MAX,
    ensures
        r is Ok <==> swf_builder.all_placeable(placed_symbols@),
        r matches Ok(tags) ==> place_objects_view(tags@) == Seq::new(
            placed_symbols.len() as nat,
            |i: int| swf_builder.place_tag(placed_symbols@[i], i),
        ),
        r matches Err(e) ==> e == ExportError::NoCharacterId(
            placed_symbols@[swf_builder.first_unplaceable(placed_symbols@)].symbol_index,
        ),
{
    broadcast use vstd::std_specs::hash::group_hash_axioms;

    let mut i: usize = 0;
    let mut tags: Vec<PlaceObjectTag> = Vec::new();
    while i < placed_symbols.len()
        invariant
            i <= placed_symbols.len(),
            placed_symbols.len() <= u16::MAX,
            swf_builder.wf(),
            place_objects_view(tags@) == Seq::new(
                i as nat,
                |j: int| swf_builder.place_tag(placed_symbols@[j], j),
            ),
            forall|j: int|
                0 <= j < i ==> swf_builder.symbol_index_to_character_id@.contains_key(
                    #[trigger] placed_symbols@[j].symbol_index,
                ),
        decreases placed_symbols.len() - i,
    {
        let place_symbol = &placed_symbols[i];
        let character_id = match swf_builder.symbol_index_to_character_id.get(
            &place_symbol.symbol_index,
        ) {
            Some(character_id) => *character_id,
            None => {
                proof {
                    assert(swf_builder.first_unplaceable(placed_symbols@) == i) by {
                        let f = swf_builder.first_unplaceable(placed_symbols@);
                        assert(0 <= f < placed_symbols.len() && !swf_builder.symbol_index_to_character_id@.contains_key(placed_symbols@[f].symbol_index));
                        if f < i {
                        } else if f > i {
                            assert(swf_builder.symbol_index_to_character_id@.contains_key(placed_symbols@[i as int].symbol_index));
                        }
                    }
                }
                return Err(ExportError::NoCharacterId(place_symbol.symbol_index));
            },
        };
        let ghost before = place_objects_view(tags@);
        tags.push(
            PlaceObjectTag {
                character_id,
                depth: (i as u16) + 1,
                replace: false,
                placement: swf_builder.placement_of_exec(place_symbol),
                name: None,
            },
        );
        assert(place_objects_view(tags@) =~= before.push(tags@[i as int]@));
        i = i + 1;
        assert(place_objects_view(tags@) =~= Seq::new(
            i as nat,
            |j: int| swf_builder.place_tag(placed_symbols@[j], j),
        ));
    }
    Ok(tags)
}

/// The tags placing symbols, as tags of the file or of a sprite.
pub open spec fn place_tags_view(t: Seq<PlaceObjectTagView>) -> Seq<ExportTagView> {
    t.map_values(|p: PlaceObjectTagView| ExportTagView::PlaceObject(p))
}

pub open spec fn place_sprite_tags_view(t: Seq<PlaceObjectTagView>) -> Seq<SpriteTagView> {
    t.map_values(|p: PlaceObjectTagView| SpriteTagView::PlaceObject(p))
}

/// The tags of the file that the file writer still has to finish.
pub open spec fn is_builder_tag(t: ExportTagView) -> bool {
    t is ExportAssets || t is DefinePlayButton || t is DefineSpriteWithEndAction
}

/// Defines an empty sprite for a movieclip; its timeline is filled in once
/// every symbol has its id.
pub fn build_movieclip_outer(symbol_index: SymbolIndex, swf_builder: &mut SwfBuilder) -> (r: Result<
    (),
    ExportError,
>)
    requires
        old(swf_builder).wf(),
    ensures
        final(swf_builder).wf(),
        r is Ok <==> old(swf_builder).character_id_counter < u16::MAX,
        r matches Err(e) ==> e is CharacterIdsExhausted,
        r is Ok ==> {
            let id = old(swf_builder).character_id_counter;
            &&& final(swf_builder).character_id_counter == id + 1
            &&& tags_view(final(swf_builder).tags@) == tags_view(old(swf_builder).tags@).push(
                ExportTagView::DefineSprite { id, num_frames: 1, tags: Seq::empty() },
            )
            &&& final(swf_builder).symbol_index_to_character_id@ == old(
                swf_builder,
            ).symbol_index_to_character_id@.insert(symbol_index, id)
            &&& final(swf_builder).symbol_index_to_tag_index@ == old(
                swf_builder,
            ).symbol_index_to_tag_index@.insert(symbol_index, old(swf_builder).tags@.len() as usize)
        },
{
    broadcast use vstd::std_specs::hash::group_hash_axioms;

    let character_id = match swf_builder.next_character_id() {
        Ok(id) => id,
        Err(e) => return Err(e),
    };
    swf_builder.symbol_index_to_character_id.insert(symbol_index, character_id);
    swf_builder.symbol_index_to_tag_index.insert(symbol_index, swf_builder.tags.len());
    let ghost before = tags_view(swf_builder.tags@);
    // the timeline is filled in by build_movieclip_inner
    swf_builder.tags.push(ExportTag::DefineSprite { id: character_id, num_frames: 1, tags: Vec::new() });
    assert(sprite_tags_view(Seq::<SpriteTag>::empty()) =~= Seq::<SpriteTagView>::empty());
    assert(tags_view(swf_builder.tags@) =~= before.push(
        ExportTagView::DefineSprite { id: character_id, num_frames: 1, tags: Seq::empty() },
    ));
    Ok(())
}

/// The tags of a sprite that place the given symbols.
fn to_sprite_tags(tags: &Vec<PlaceObjectTag>) -> (r: Vec<SpriteTag>)
    ensures
        sprite_tags_view(r@) == place_sprite_tags_view(place_objects_view(tags@)),
{
    let mut r: Vec<SpriteTag> = Vec::new();
    let mut k: usize = 0;
    while k < tags.len()
        invariant
            k <= tags.len(),
            sprite_tags_view(r@) == place_sprite_tags_view(place_objects_view(tags@.take(k as int))),
        decreases tags.len() - k,
    {
        let ghost before = sprite_tags_view(r@);
        r.push(SpriteTag::PlaceObject(tags[k].clone()));
        assert(sprite_tags_view(r@) =~= before.push(SpriteTagView::PlaceObject(tags@[k as int]@)));
        assert(place_sprite_tags_view(place_objects_view(tags@.take(k + 1))) =~= place_sprite_tags_view(
            place_objects_view(tags@.take(k as int)),
        ).push(SpriteTagView::PlaceObject(tags@[k as int]@)));
        k = k + 1;
    }
    assert(tags@.take(k as int) =~= tags@);
    r
}

/// Fills in the timeline of a movieclip's sprite; a movieclip with a class
/// is exported under its name, so that the class can be registered for it.
pub fn build_movieclip_inner(
    symbol_index: SymbolIndex,
    properties: &crate::movie::MovieClipProperties,
    place_symbols: &Vec<PlaceSymbol>,
    swf_builder: &mut SwfBuilder,
) -> (r: Result<(), ExportError>)
    requires
        old(swf_builder).wf(),
        old(swf_builder).symbol_index_to_tag_index@.contains_key(symbol_index),
        properties.class_name@.len() > 0 ==> old(
            swf_builder,
        ).symbol_index_to_character_id@.contains_key(symbol_index),
        place_symbols.len() <= u16::MAX,
    ensures
        final(swf_builder).wf(),
        final(swf_builder).character_id_counter == old(swf_builder).character_id_counter,
        final(swf_builder).symbol_index_to_character_id == old(
            swf_builder,
        ).symbol_index_to_character_id,
        final(swf_builder).symbol_index_to_tag_index == old(swf_builder).symbol_index_to_tag_index,
        !old(swf_builder).all_placeable(place_symbols@) ==> r == Err::<(), ExportError>(
            ExportError::NoCharacterId(
                place_symbols@[old(swf_builder).first_unplaceable(place_symbols@)].symbol_index,
            ),
        ),
        old(swf_builder).all_placeable(place_symbols@) && is_builder_tag(
            old(swf_builder).tag_of(symbol_index),
        ) ==> r == Err::<(), ExportError>(ExportError::NotStandardTag(symbol_index)),
        old(swf_builder).all_placeable(place_symbols@) && !is_builder_tag(
            old(swf_builder).tag_of(symbol_index),
        ) && !(old(swf_builder).tag_of(symbol_index) is DefineSprite) ==> r == Err::<
            (),
            ExportError,
        >(ExportError::NotDefineSprite(symbol_index)),
        r is Ok <==> old(swf_builder).all_placeable(place_symbols@) && old(swf_builder).tag_of(
            symbol_index,
        ) is DefineSprite,
        r is Ok ==> tags_view(final(swf_builder).tags@) == tags_view(old(swf_builder).tags@).update(
            old(swf_builder).symbol_index_to_tag_index@[symbol_index] as int,
            ExportTagView::DefineSprite {
                id: old(swf_builder).tag_of(symbol_index)->DefineSprite_id,
                num_frames: old(swf_builder).tag_of(symbol_index)->DefineSprite_num_frames,
                tags: place_sprite_tags_view(
                    Seq::new(
                        place_symbols.len() as nat,
                        |i: int| old(swf_builder).place_tag(place_symbols@[i], i),
                    ),
                ),
            },
        ) + if properties.class_name@.len() > 0 {
            seq![
                ExportTagView::ExportAssets {
                    id: old(swf_builder).symbol_index_to_character_id@[symbol_index],
                    name: properties.name,
                },
            ]
        } else {
            Seq::empty()
        },
{
    broadcast use vstd::std_specs::hash::group_hash_axioms;

    let inner_tags = match get_placed_symbols_tags(place_symbols, swf_builder) {
        Ok(tags) => tags,
        Err(e) => return Err(e),
    };
    let tag_index = match swf_builder.symbol_index_to_tag_index.get(&symbol_index) {
        Some(tag_index) => *tag_index,
        None => return Err(ExportError::NotStandardTag(symbol_index)),  // not reached
    };
    let (id, num_frames) = match &swf_builder.tags[tag_index] {
        ExportTag::ExportAssets { .. } => return Err(ExportError::NotStandardTag(symbol_index)),
        ExportTag::DefinePlayButton { .. } => return Err(ExportError::NotStandardTag(symbol_index)),
        ExportTag::DefineSpriteWithEndAction { .. } => return Err(
            ExportError::NotStandardTag(symbol_index),
        ),
        ExportTag::DefineSprite { id, num_frames, .. } => (*id, *num_frames),
        _ => return Err(ExportError::NotDefineSprite(symbol_index)),
    };
    let sprite_tags = to_sprite_tags(&inner_tags);
    let ghost before = tags_view(swf_builder.tags@);
    swf_builder.tags.set(tag_index, ExportTag::DefineSprite { id, num_frames, tags: sprite_tags });
    assert(tags_view(swf_builder.tags@) =~= before.update(
        tag_index as int,
        swf_builder.tags@[tag_index as int]@,
    ));
    if !properties.class_name.as_str().is_empty() {
        let character_id = match swf_builder.symbol_index_to_character_id.get(&symbol_index) {
            Some(character_id) => *character_id,
            None => 0,  // not reached
        };
        // the movieclip needs to be exported to be able to register a class for it
        let ghost with_sprite = tags_view(swf_builder.tags@);
        swf_builder.tags.push(
            ExportTag::ExportAssets { id: character_id, name: properties.name.clone() },
        );
        assert(tags_view(swf_builder.tags@) =~= with_sprite.push(
            ExportTagView::ExportAssets { id: character_id, name: properties.name },
        ));
    } else {
        assert(tags_view(swf_builder.tags@) =~= tags_view(swf_builder.tags@) + Seq::<
            ExportTagView,
        >::empty());
    }
    Ok(())
}

/// Gives a font symbol its id; its glyphs are written with it, and it is
/// exported under the name of its file.
pub fn build_font(
    symbol_index: SymbolIndex,
    font: &crate::movie::FlitsFont,
    swf_builder: &mut SwfBuilder,
) -> (r: Result<(), ExportError>)
    requires
        old(swf_builder).wf(),
    ensures
        final(swf_builder).wf(),
        r is Ok <==> old(swf_builder).character_id_counter < u16::MAX,
        r matches Err(e) ==> e is CharacterIdsExhausted,
        r is Ok ==> {
            let id = old(swf_builder).character_id_counter;
            &&& final(swf_builder).character_id_counter == id + 1
            &&& tags_view(final(swf_builder).tags@) == tags_view(old(swf_builder).tags@) + seq![
                ExportTagView::DefineFont { id, symbol_index },
                ExportTagView::ExportAssets { id, name: font.path },
            ]
            &&& final(swf_builder).symbol_index_to_character_id@ == old(
                swf_builder,
            ).symbol_index_to_character_id@.insert(symbol_index, id)
            &&& final(swf_builder).symbol_index_to_tag_index == old(
                swf_builder,
            ).symbol_index_to_tag_index
        },
{
    broadcast use vstd::std_specs::hash::group_hash_axioms;

    let character_id = match swf_builder.next_character_id() {
        Ok(id) => id,
        Err(e) => return Err(e),
    };
    swf_builder.symbol_index_to_character_id.insert(symbol_index, character_id);
    let ghost before = tags_view(swf_builder.tags@);
    swf_builder.tags.push(ExportTag::DefineFont { id: character_id, symbol_index });
    swf_builder.tags.push(ExportTag::ExportAssets { id: character_id, name: font.path.clone() });
    assert(tags_view(swf_builder.tags@) =~= before + seq![
        ExportTagView::DefineFont { id: character_id, symbol_index },
        ExportTagView::ExportAssets { id: character_id, name: font.path },
    ]);
    Ok(())
}

/// The two actions that stop the timeline.
pub open spec fn stop_actions() -> Seq<Avm1ActionView> {
    seq![Avm1ActionView::Stop, Avm1ActionView::End]
}

pub fn stop_action() -> (r: Vec<Avm1Action>)
    ensures
        actions_view(r@) == stop_actions(),
{
    let r = vec![Avm1Action::Stop, Avm1Action::End];
    assert(actions_view(r@) =~= stop_actions());
    r
}

/// Places the symbols of the root timeline, then stops the movie on that
/// frame and shows it.
pub fn build_placed_symbols_of_root(root: &Vec<PlaceSymbol>, swf_builder: &mut SwfBuilder) -> (r:
    Result<(), ExportError>)
    requires
        old(swf_builder).wf(),
        root.len() <= u16::MAX,
    ensures
        final(swf_builder).wf(),
        final(swf_builder).character_id_counter == old(swf_builder).character_id_counter,
        final(swf_builder).symbol_index_to_character_id == old(
            swf_builder,
        ).symbol_index_to_character_id,
        final(swf_builder).symbol_index_to_tag_index == old(swf_builder).symbol_index_to_tag_index,
        r is Ok <==> old(swf_builder).all_placeable(root@),
        r matches Err(e) ==> e == ExportError::NoCharacterId(
            root@[old(swf_builder).first_unplaceable(root@)].symbol_index,
        ),
        r is Ok ==> tags_view(final(swf_builder).tags@) == tags_view(old(swf_builder).tags@)
            + place_tags_view(
            Seq::new(root.len() as nat, |i: int| old(swf_builder).place_tag(root@[i], i)),
        ) + seq![ExportTagView::DoAction(stop_actions()), ExportTagView::ShowFrame],
{
    let tags = match get_placed_symbols_tags(root, swf_builder) {
        Ok(tags) => tags,
        Err(e) => return Err(e),
    };
    let ghost old_tags = tags_view(swf_builder.tags@);
    let ghost placed = place_objects_view(tags@);
    let mut k: usize = 0;
    while k < tags.len()
        invariant
            swf_builder.wf(),
            swf_builder.character_id_counter == old(swf_builder).character_id_counter,
            swf_builder.symbol_index_to_character_id == old(swf_builder).symbol_index_to_character_id,
            swf_builder.symbol_index_to_tag_index == old(swf_builder).symbol_index_to_tag_index,
            placed == place_objects_view(tags@),
            k <= tags.len(),
            tags_view(swf_builder.tags@) == old_tags + place_tags_view(placed.take(k as int)),
        decreases tags.len() - k,
    {
        let t = tags[k].clone();
        let ghost before = tags_view(swf_builder.tags@);
        swf_builder.tags.push(ExportTag::PlaceObject(t));
        assert(tags_view(swf_builder.tags@) =~= before.push(ExportTagView::PlaceObject(t@)));
        assert(placed.take(k + 1) =~= placed.take(k as int).push(t@));
        assert(place_tags_view(placed.take(k + 1)) =~= place_tags_view(placed.take(k as int)).push(
            ExportTagView::PlaceObject(t@),
        ));
        k = k + 1;
    }
    assert(placed.take(k as int) =~= placed);
    let ghost before = tags_view(swf_builder.tags@);
    swf_builder.tags.push(ExportTag::DoAction(stop_action()));
    swf_builder.tags.push(ExportTag::ShowFrame);
    assert(tags_view(swf_builder.tags@) =~= before + seq![
        ExportTagView::DoAction(stop_actions()),
        ExportTagView::ShowFrame,
    ]);
    Ok(())
}

} // verus!
