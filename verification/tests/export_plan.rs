use std::collections::HashMap;
use std::io::Read;

use flits::as2::{
    CompileError, CompiledSwf, TagKind, class_registrations, place_objects_last, plan_compiled_swf,
    plan_tags, register_class_actions,
};
use flits::audio::{Mp3Info, SoundAsset, build_audio, build_mp3, build_wav};
use flits::bitmap::{DecodedImage, ImageReadError, build_bitmap, pad_compressed, read_image};
use flits::export::{
    Avm1Action, Avm1Value, ExportError, ExportTag, PlaceObjectTag, Placement, RectangleSize,
    ShapeColor, SoundError, SpriteTag, SwfBuilder, build_movieclip_inner, build_movieclip_outer,
    build_placed_symbols_of_root, get_placed_symbols_tags,
};
use flits::font::{FontError, OutlineRecord, close_outline, font_plan};
use flits::library::build_library;
use flits::movie::{
    Animation, Bitmap, BitmapCacheStatus, BitmapProperties, EditorTransform, Movie, MovieClip,
    MovieClipProperties, PlaceSymbol, PreloaderType, Symbol, ONE_BITS,
};
use flits::movie_export::{export_movie, finish_tags};
use flits::preloader::build_preloader;

fn placed(symbol_index: usize) -> PlaceSymbol {
    PlaceSymbol {
        symbol_index,
        transform: EditorTransform { x: 0, y: 0, x_scale: ONE_BITS, y_scale: ONE_BITS },
        instance_name: String::new(),
        text: None,
    }
}

fn clip(name: &str, class_name: &str, place_symbols: Vec<PlaceSymbol>) -> Symbol {
    Symbol::MovieClip(MovieClip {
        properties: MovieClipProperties { name: name.to_string(), class_name: class_name.to_string() },
        place_symbols,
    })
}

fn bitmap(name: &str, animation: Option<Animation>) -> Symbol {
    Symbol::Bitmap(Bitmap {
        properties: BitmapProperties {
            name: name.to_string(),
            path: format!("assets/{}", name),
            animation,
        },
        cache: BitmapCacheStatus::Uncached,
    })
}

fn image(width: u32, height: u32) -> DecodedImage {
    let mut argb = Vec::new();
    for i in 0..(width * height) {
        argb.extend_from_slice(&[255, i as u8, 2, 3]);
    }
    DecodedImage { width, height, argb }
}

fn kind(t: &ExportTag) -> &'static str {
    match t {
        ExportTag::SetBackgroundColor(_) => "background",
        ExportTag::DefineBitsLossless { .. } => "bits",
        ExportTag::DefineBitmapShape { .. } => "bitmap_shape",
        ExportTag::DefineRectangle { .. } => "rectangle",
        ExportTag::DefinePlayButtonShape { .. } => "button_shape",
        ExportTag::PlaceObject(_) => "place",
        ExportTag::RemoveObject { .. } => "remove",
        ExportTag::ShowFrame => "show",
        ExportTag::DoAction(_) => "action",
        ExportTag::DefineSprite { .. } => "sprite",
        ExportTag::DefineSpriteWithEndAction { .. } => "sprite_end",
        ExportTag::ExportAssets { .. } => "export",
        ExportTag::DefinePlayButton { .. } => "button",
        ExportTag::DefineSound { .. } => "sound",
        ExportTag::DefineFont { .. } => "font",
    }
}

fn kinds(tags: &Vec<ExportTag>) -> Vec<&'static str> {
    tags.iter().map(kind).collect()
}

fn wav_bytes(channels: u16, sample_rate: u32, bits_per_sample: u16, samples: usize) -> Vec<u8> {
    let spec = hound::WavSpec {
        channels,
        sample_rate,
        bits_per_sample,
        sample_format: hound::SampleFormat::Int,
    };
    let mut cursor = std::io::Cursor::new(Vec::new());
    {
        let mut writer = hound::WavWriter::new(&mut cursor, spec).unwrap();
        for i in 0..samples * channels as usize {
            if bits_per_sample == 8 {
                writer.write_sample((i % 100) as i8).unwrap();
            } else {
                writer.write_sample((i % 1000) as i32).unwrap();
            }
        }
        writer.finalize().unwrap();
    }
    cursor.into_inner()
}

#[test]
fn character_ids_run_out() {
    let mut b = SwfBuilder::new();
    assert_eq!(b.next_character_id().ok(), Some(1));
    assert_eq!(b.next_character_id().ok(), Some(2));
    b.character_id_counter = u16::MAX;
    assert!(matches!(b.next_character_id(), Err(ExportError::CharacterIdsExhausted)));
    assert_eq!(b.character_id_counter, u16::MAX);
}

#[test]
fn placing_a_symbol_without_character_fails() {
    let b = SwfBuilder::new();
    let r = get_placed_symbols_tags(&vec![placed(4)], &b);
    assert!(matches!(r, Err(ExportError::NoCharacterId(4))));
}

#[test]
fn movieclip_timeline_places_symbols_at_depths() {
    let mut b = SwfBuilder::new();
    build_movieclip_outer(0, &mut b).ok().unwrap();
    build_movieclip_outer(1, &mut b).ok().unwrap();
    let props = MovieClipProperties { name: "inner".to_string(), class_name: "Inner".to_string() };
    build_movieclip_inner(0, &props, &vec![placed(1), placed(1)], &mut b).ok().unwrap();
    assert_eq!(kinds(&b.tags), vec!["sprite", "sprite", "export"]);
    match &b.tags[0] {
        ExportTag::DefineSprite { id, tags, .. } => {
            assert_eq!(*id, 1);
            assert_eq!(tags.len(), 2);
            match &tags[1] {
                SpriteTag::PlaceObject(p) => {
                    assert_eq!(p.character_id, 2);
                    assert_eq!(p.depth, 2);
                }
                _ => panic!("not a placement"),
            }
        }
        _ => panic!("not a sprite"),
    }
    match &b.tags[2] {
        ExportTag::ExportAssets { id, name } => {
            assert_eq!(*id, 1);
            assert_eq!(name, "inner");
        }
        _ => panic!("not an export"),
    }
}

#[test]
fn root_frame_places_then_stops() {
    let mut b = SwfBuilder::new();
    build_movieclip_outer(0, &mut b).ok().unwrap();
    build_placed_symbols_of_root(&vec![placed(0)], &mut b).ok().unwrap();
    assert_eq!(kinds(&b.tags), vec!["sprite", "place", "action", "show"]);
    match &b.tags[2] {
        ExportTag::DoAction(actions) => {
            assert!(matches!(actions[0], Avm1Action::Stop));
            assert!(matches!(actions[1], Avm1Action::End));
        }
        _ => panic!("not an action"),
    }
}

#[test]
fn preloader_with_play_button() {
    let mut b = SwfBuilder::new();
    build_preloader(PreloaderType::WithPlayButton, &mut b).ok().unwrap();
    assert_eq!(b.character_id_counter, 8);
    assert_eq!(
        kinds(&b.tags),
        vec![
            "rectangle", "place", "rectangle", "place", "rectangle", "sprite", "place", "action",
            "show", "button_shape", "button_shape", "button", "place", "show", "remove", "remove",
            "remove", "remove",
        ]
    );
    match &b.tags[6] {
        ExportTag::PlaceObject(p) => {
            assert_eq!(p.character_id, 4);
            assert_eq!(p.depth, 4);
            assert_eq!(p.name.as_deref(), Some("loading_bar"));
            assert!(matches!(p.placement, Placement::LoadingBar));
        }
        _ => panic!("not a placement"),
    }
    assert!(matches!(
        b.tags[0],
        ExportTag::DefineRectangle { id: 1, size: RectangleSize::Stage, color: ShapeColor::Black }
    ));
    assert!(matches!(b.tags[17], ExportTag::RemoveObject { depth: 3, character_id: 3 }));
}

#[test]
fn preloader_without_play_button() {
    let mut b = SwfBuilder::new();
    build_preloader(PreloaderType::StartAfterLoading, &mut b).ok().unwrap();
    assert_eq!(b.character_id_counter, 5);
    assert_eq!(b.tags.len(), 12);
    assert!(matches!(b.tags[11], ExportTag::RemoveObject { depth: 4, character_id: 4 }));
}

#[test]
fn preloader_needs_its_ids() {
    let mut b = SwfBuilder::new();
    b.character_id_counter = 65530;
    assert!(matches!(
        build_preloader(PreloaderType::WithPlayButton, &mut b),
        Err(ExportError::CharacterIdsExhausted)
    ));
    assert!(b.tags.is_empty());
    assert_eq!(b.character_id_counter, 65530);
}

#[test]
fn still_bitmap_is_compressed_and_padded() {
    let mut b = SwfBuilder::new();
    let props = BitmapProperties { name: "a".to_string(), path: "a.png".to_string(), animation: None };
    let img = image(4, 2);
    build_bitmap(0, &props, &Ok(img.clone_for_test()), &mut b).ok().unwrap();
    assert_eq!(kinds(&b.tags), vec!["bits", "bitmap_shape"]);
    match &b.tags[0] {
        ExportTag::DefineBitsLossless { id, width, height, data } => {
            assert_eq!((*id, *width, *height), (1, 4, 2));
            assert_ne!(data, &img.argb);
            assert!(data.len() >= 1024);
            let mut decoder = flate2::read::ZlibDecoder::new(data.as_slice());
            let mut pixels = Vec::new();
            decoder.read_to_end(&mut pixels).unwrap();
            assert_eq!(pixels, img.argb);
        }
        _ => panic!("not a bitmap"),
    }
    assert_eq!(b.symbol_index_to_character_id.get(&0), Some(&2));
}

trait CloneForTest {
    fn clone_for_test(&self) -> Self;
}

impl CloneForTest for DecodedImage {
    fn clone_for_test(&self) -> Self {
        DecodedImage { width: self.width, height: self.height, argb: self.argb.clone() }
    }
}

#[test]
fn animation_frames_are_cut_and_sequenced() {
    let mut b = SwfBuilder::new();
    let props = BitmapProperties {
        name: "walk".to_string(),
        path: "walk.png".to_string(),
        animation: Some(Animation { frame_count: 2, frame_delay: 1, end_action: "done".to_string() }),
    };
    let img = image(4, 1);
    build_bitmap(0, &props, &Ok(img.clone_for_test()), &mut b).ok().unwrap();
    assert_eq!(kinds(&b.tags), vec!["bits", "bitmap_shape", "bits", "bitmap_shape", "sprite_end", "export"]);
    match &b.tags[2] {
        ExportTag::DefineBitsLossless { width, data, .. } => {
            assert_eq!(*width, 2);
            let mut decoder = flate2::read::ZlibDecoder::new(data.as_slice());
            let mut pixels = Vec::new();
            decoder.read_to_end(&mut pixels).unwrap();
            assert_eq!(pixels, img.argb[8..16].to_vec());
        }
        _ => panic!("not a bitmap"),
    }
    let finished = finish_tags(b.tags);
    match &finished[4] {
        ExportTag::DefineSprite { id, num_frames, tags } => {
            assert_eq!((*id, *num_frames), (5, 4));
            // place, show, show, place, show, then the call and the last show
            assert_eq!(tags.len(), 7);
            match &tags[5] {
                SpriteTag::DoAction(actions) => match &actions[0] {
                    Avm1Action::Push(values) => {
                        assert!(matches!(&values[1], Avm1Value::Str(s) if s == "done"));
                    }
                    _ => panic!("not a push"),
                },
                _ => panic!("not an action"),
            }
            assert!(matches!(tags[6], SpriteTag::ShowFrame));
        }
        _ => panic!("not a sprite"),
    }
}

#[test]
fn too_many_frames_and_unreadable_images() {
    let mut b = SwfBuilder::new();
    let props = BitmapProperties {
        name: "walk".to_string(),
        path: "walk.png".to_string(),
        animation: Some(Animation { frame_count: 5, frame_delay: 0, end_action: String::new() }),
    };
    let r = build_bitmap(0, &props, &Ok(image(4, 1)), &mut b);
    assert!(matches!(r, Err(ExportError::TooManyFrames(p)) if p == "walk.png"));
    let r = build_bitmap(0, &props, &Err("no file".to_string()), &mut b);
    assert!(matches!(r, Err(ExportError::Image(m)) if m == "no file"));
}

#[test]
fn padding_reaches_1024_bytes() {
    let mut v = vec![1u8; 10];
    pad_compressed(&mut v);
    assert_eq!(v.len(), 1024);
    assert_eq!(v[9], 1);
    assert_eq!(v[10], 0);
    let mut w = vec![1u8; 2000];
    pad_compressed(&mut w);
    assert_eq!(w.len(), 2000);
}

fn wav_error(bytes: &Vec<u8>) -> Option<SoundError> {
    let mut b = SwfBuilder::new();
    match build_wav(&mut b, &"s.wav".to_string(), bytes) {
        Err(ExportError::Sound(name, e)) => {
            assert_eq!(name, "s.wav");
            assert!(b.tags.is_empty());
            assert_eq!(b.character_id_counter, 1);
            Some(e)
        }
        _ => None,
    }
}

#[test]
fn wave_files_are_checked() {
    let good = wav_bytes(2, 22050, 16, 10);
    let mut b = SwfBuilder::new();
    build_wav(&mut b, &"good.wav".to_string(), &good).ok().unwrap();
    assert_eq!(b.character_id_counter, 2);
    match &b.tags[0] {
        ExportTag::DefineSound { id, format, num_samples, data } => {
            assert_eq!(*id, 1);
            assert!(!format.mp3);
            assert_eq!(format.sample_rate, 22050);
            assert!(format.is_stereo);
            assert!(format.is_16_bit);
            assert_eq!(*num_samples, 10);
            assert_eq!(data.len(), 40);
        }
        _ => panic!("a sound tag"),
    }
    assert!(matches!(&b.tags[1], ExportTag::ExportAssets { id: 1, name } if name == "good.wav"));
    assert!(matches!(wav_error(&wav_bytes(3, 22050, 16, 4)), Some(SoundError::Channels(3))));
    assert!(matches!(wav_error(&wav_bytes(1, 22050, 24, 4)), Some(SoundError::BitsPerSample(24))));
    assert!(matches!(wav_error(&wav_bytes(1, 48000, 8, 4)), Some(SoundError::WaveSampleRate(48000))));
    assert!(matches!(wav_error(&vec![1, 2, 3]), Some(SoundError::WaveDecode(_))));
}

#[test]
fn broken_mp3_is_reported() {
    let mut b = SwfBuilder::new();
    let r = build_mp3(&mut b, &"a.mp3".to_string(), &vec![0u8; 16], &Err("bad frame".to_string()));
    assert!(matches!(r, Err(ExportError::Sound(_, SoundError::Mp3Decode(m))) if m == "bad frame"));
    assert!(b.tags.is_empty());
}

#[test]
fn mp3_files_are_checked() {
    let mut b = SwfBuilder::new();
    let info = Mp3Info { channels: 1, sample_rate: 22050, num_samples: 1152 };
    build_mp3(&mut b, &"a.mp3".to_string(), &vec![7u8; 5], &Ok(info)).ok().unwrap();
    match &b.tags[0] {
        ExportTag::DefineSound { id, format, num_samples, data } => {
            assert_eq!(*id, 1);
            assert!(format.mp3 && format.is_16_bit && !format.is_stereo);
            assert_eq!(format.sample_rate, 22050);
            assert_eq!(*num_samples, 1152);
            assert_eq!(data, &vec![7u8; 5]);
        }
        _ => panic!("a sound tag"),
    }
    let low = Mp3Info { channels: 2, sample_rate: 5512, num_samples: 10 };
    let r = build_mp3(&mut b, &"b.mp3".to_string(), &vec![1u8], &Ok(low));
    assert!(matches!(r, Err(ExportError::Sound(_, SoundError::Mp3SampleRate(5512)))));
    assert_eq!(b.tags.len(), 2);
}

#[test]
fn sounds_are_exported_under_their_names() {
    let mut b = SwfBuilder::new();
    let assets = vec![
        SoundAsset { file_name: "notes.txt".to_string(), data: vec![1, 2], mp3: Err(String::new()) },
        SoundAsset { file_name: "beep.wav".to_string(), data: wav_bytes(1, 11025, 8, 3), mp3: Err(String::new()) },
    ];
    build_audio(&mut b, &assets).ok().unwrap();
    assert_eq!(kinds(&b.tags), vec!["sound", "export"]);
    assert!(matches!(&b.tags[1], ExportTag::ExportAssets { id: 1, name } if name == "beep.wav"));
    let bad = vec![SoundAsset { file_name: "loud.wav".to_string(), data: wav_bytes(1, 44100, 24, 3), mp3: Err(String::new()) }];
    let r = build_audio(&mut b, &bad);
    assert!(matches!(r, Err(ExportError::Sound(n, SoundError::BitsPerSample(24))) if n == "loud.wav"));
}

#[test]
fn library_and_movie_export() {
    let mut movie = Movie::default();
    movie.properties.preloader = PreloaderType::StartAfterLoading;
    movie.symbols.push(bitmap("a.png", None));
    movie.symbols.push(clip("hero", "Hero", vec![placed(0)]));
    movie.root = vec![placed(1), placed(0)];
    let images = vec![Ok(image(2, 2)), Err("not a bitmap".to_string())];
    let exported = export_movie(&movie, &images, &vec![]).ok().unwrap();
    assert_eq!(
        kinds(&exported.tags),
        vec![
            "background", "rectangle", "place", "rectangle", "place", "rectangle", "sprite",
            "place", "action", "show", "remove", "remove", "remove", "bits", "bitmap_shape",
            "sprite", "export", "place", "place", "action", "show",
        ]
    );
    // the preloader took ids 1 to 4, the bitmap 5 and 6, the movieclip 7
    assert_eq!(exported.character_ids.get(&0), Some(&6));
    assert_eq!(exported.character_ids.get(&1), Some(&7));
    match &exported.tags[18] {
        ExportTag::PlaceObject(p) => {
            assert_eq!(p.character_id, 6);
            assert_eq!(p.depth, 2);
            assert!(matches!(p.placement, Placement::CenteredTransform(_, 2, 2)));
        }
        _ => panic!("not a placement"),
    }
}

#[test]
fn library_stops_at_a_broken_image() {
    let symbols = vec![bitmap("a.png", None)];
    let mut b = SwfBuilder::new();
    let r = build_library(&symbols, &vec![Err("gone".to_string())], &vec![], &mut b);
    assert!(matches!(r, Err(ExportError::Image(m)) if m == "gone"));
}

#[test]
fn classes_are_registered_for_movieclips_with_a_class() {
    let symbols = vec![clip("a", "", vec![]), clip("b", "B", vec![])];
    let mut ids = HashMap::new();
    ids.insert(0usize, 3u16);
    ids.insert(1usize, 4u16);
    let regs = class_registrations(&symbols, &ids).ok().unwrap();
    assert_eq!(regs.len(), 1);
    assert_eq!(regs[0].character_id, 4);
    match &regs[0].actions[0] {
        Avm1Action::ConstantPool(names) => {
            assert_eq!(names, &vec!["Object".to_string(), "registerClass".to_string(), "b".to_string(), "B".to_string()]);
        }
        _ => panic!("not a constant pool"),
    }
    assert_eq!(register_class_actions(&"b".to_string(), &"B".to_string()).len(), 9);
    let r = class_registrations(&symbols, &HashMap::new());
    assert!(matches!(r, Err(ExportError::NoCharacterId(1))));
}

#[test]
fn placements_of_the_last_frame_move_behind_the_classes() {
    let kinds = vec![
        TagKind::PlaceObject,
        TagKind::ShowFrame,
        TagKind::PlaceObject,
        TagKind::Other,
        TagKind::PlaceObject,
        TagKind::ShowFrame,
    ];
    assert_eq!(place_objects_last(&kinds, 2), vec![0, 1, 3, 4, 2, 5]);
    assert_eq!(place_objects_last(&kinds, 1), vec![1, 3, 4, 2, 0, 5]);
    assert_eq!(place_objects_last(&vec![], 1), Vec::<usize>::new());
}

#[test]
fn fonts_must_be_ttf_files_that_parse() {
    assert!(matches!(
        font_plan(&"font.otf".to_string(), &"1".to_string(), &vec![]),
        Err(FontError::NotTtf(n)) if n == "font.otf"
    ));
    assert!(matches!(
        font_plan(&".ttf".to_string(), &"1".to_string(), &vec![]),
        Err(FontError::NotTtf(_))
    ));
    assert!(matches!(
        font_plan(&"font.ttf".to_string(), &"1".to_string(), &vec![0, 1, 0, 0]),
        Err(FontError::Parse(_))
    ));
}

#[test]
fn the_extension_is_that_of_the_file_name() {
    for name in ["sub/.ttf", "a.ttf/..", "fonts.ttf/x", "."] {
        assert!(matches!(
            font_plan(&name.to_string(), &"1".to_string(), &vec![]),
            Err(FontError::NotTtf(n)) if n == name
        ));
    }
    for name in ["fonts/a.ttf", "a.ttf/", "a.ttf/.", "..ttf"] {
        assert!(matches!(
            font_plan(&name.to_string(), &"1".to_string(), &vec![0, 1]),
            Err(FontError::Parse(_))
        ));
    }
}

#[test]
fn closed_outline_ends_where_it_started() {
    let mut records = vec![
        OutlineRecord::MoveTo { x: 5, y: 5 },
        OutlineRecord::LineBy { dx: 10, dy: 0 },
        OutlineRecord::CurveBy { control_dx: 1, control_dy: 2, anchor_dx: 3, anchor_dy: 4 },
        OutlineRecord::LineBy { dx: -13, dy: -5 },
    ];
    close_outline(&mut records);
    assert!(matches!(records[3], OutlineRecord::LineBy { dx: -14, dy: -6 }));
    let mut sx = 0;
    let mut sy = 0;
    for r in &records {
        match r {
            OutlineRecord::MoveTo { .. } => {}
            OutlineRecord::LineBy { dx, dy } => {
                sx += dx;
                sy += dy;
            }
            OutlineRecord::CurveBy { control_dx, control_dy, anchor_dx, anchor_dy } => {
                sx += control_dx + anchor_dx;
                sy += control_dy + anchor_dy;
            }
        }
    }
    assert_eq!((sx, sy), (0, 0));
    let mut curve_last = vec![
        OutlineRecord::LineBy { dx: 2, dy: 2 },
        OutlineRecord::CurveBy { control_dx: 1, control_dy: 1, anchor_dx: 1, anchor_dy: 1 },
    ];
    close_outline(&mut curve_last);
    assert!(matches!(
        curve_last[1],
        OutlineRecord::CurveBy { control_dx: 1, control_dy: 1, anchor_dx: -3, anchor_dy: -3 }
    ));
}

#[test]
fn placement_tags_clone() {
    let p = PlaceObjectTag {
        character_id: 1,
        depth: 2,
        replace: false,
        placement: Placement::Identity,
        name: Some("n".to_string()),
    };
    let q = p.clone();
    assert_eq!(q.name.as_deref(), Some("n"));
}

#[test]
fn registrations_go_before_the_final_tag_and_placements_after_them() {
    let compiled = CompiledSwf {
        version: 8,
        num_frames: 1,
        kinds: vec![TagKind::PlaceObject, TagKind::ShowFrame],
    };
    match plan_tags(&compiled, 2) {
        Ok(order) => assert_eq!(order, vec![1, 2, 0, 3]),
        Err(_) => panic!("a file with a frame"),
    }
    match plan_tags(&compiled, 0) {
        Ok(order) => assert_eq!(order, vec![0, 1]),
        Err(_) => panic!("a file with a frame"),
    }
    let no_frames = CompiledSwf { version: 8, num_frames: 0, kinds: vec![TagKind::ShowFrame] };
    assert!(matches!(plan_tags(&no_frames, 1), Err(CompileError::NoFrames)));
    let no_tags = CompiledSwf { version: 8, num_frames: 1, kinds: vec![] };
    assert!(matches!(plan_tags(&no_tags, 1), Err(CompileError::NoTags)));
    assert!(matches!(plan_tags(&no_tags, 0), Ok(order) if order.is_empty()));
}

#[test]
fn unreadable_compiled_files_are_reported() {
    assert!(matches!(plan_compiled_swf(&vec![1, 2, 3], 0), Err(CompileError::Parse(_))));
}

#[test]
fn a_compiled_file_is_read_for_its_version_and_tags() {
    // an uncompressed file of version 8 with one frame: ShowFrame, End
    let data: Vec<u8> = vec![
        b'F', b'W', b'S', 8, 17, 0, 0, 0, // header and length
        0x00, // empty stage rectangle
        0x00, 0x0C, // frame rate
        0x01, 0x00, // one frame
        0x40, 0x00, // ShowFrame
        0x00, 0x00, // End
    ];
    match plan_compiled_swf(&data, 1) {
        Ok((version, order)) => {
            assert_eq!(version, 8);
            // the registration goes before the ShowFrame, which stays last
            assert_eq!(order, vec![0, 1]);
        }
        Err(CompileError::Parse(m)) => panic!("{}", m),
        Err(_) => panic!("a file with a frame"),
    }
}

fn png_bytes() -> Vec<u8> {
    // two pixels: opaque red, then half transparent blue
    let img: image::RgbaImage = image::ImageBuffer::from_raw(2, 1, vec![255, 0, 0, 255, 0, 0, 255, 128]).unwrap();
    let mut out = std::io::Cursor::new(Vec::new());
    img.write_to(&mut out, image::ImageFormat::Png).unwrap();
    out.into_inner()
}

#[test]
fn images_are_decoded_with_the_format_of_their_path() {
    match read_image(&"assets/a.png".to_string(), &Ok(png_bytes())) {
        Ok(img) => {
            assert_eq!((img.width, img.height), (2, 1));
            assert_eq!(img.rgba, vec![255, 0, 0, 255, 0, 0, 255, 128]);
        }
        Err(_) => panic!("a png file"),
    }
    assert!(matches!(
        read_image(&"assets/a.png".to_string(), &Ok(vec![1, 2, 3])),
        Err(ImageReadError::Decode(_))
    ));
    assert!(matches!(
        read_image(&"assets/a".to_string(), &Ok(png_bytes())),
        Err(ImageReadError::Decode(_))
    ));
    assert!(matches!(
        read_image(&"assets/a.png".to_string(), &Err("missing".to_string())),
        Err(ImageReadError::Read(m)) if m == "missing"
    ));
}

#[test]
fn a_cached_image_keeps_the_size_of_its_first_frame() {
    let mut b = Bitmap {
        properties: BitmapProperties {
            name: "a.png".to_string(),
            path: "assets/a.png".to_string(),
            animation: Some(Animation { frame_count: 2, frame_delay: 0, end_action: String::new() }),
        },
        cache: BitmapCacheStatus::Uncached,
    };
    b.cache_image(&Ok(png_bytes()));
    assert!(matches!(&b.cache, BitmapCacheStatus::Cached(c) if c.width == 1 && c.height == 1));
    b.cache_image(&Err("no file".to_string()));
    assert!(matches!(&b.cache, BitmapCacheStatus::Invalid(m) if m == "no file"));
    b.cache_image(&Ok(vec![0u8; 4]));
    assert!(matches!(&b.cache, BitmapCacheStatus::Invalid(_)));
}
