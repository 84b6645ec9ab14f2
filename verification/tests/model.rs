use flits::edits::{MovieAction, MovieChange, PlacedSymbolAction, PlacedSymbolChange};
use flits::movie::{
    Animation, Bitmap, BitmapCacheStatus, BitmapProperties, CachedBitmap, EditorColor,
    EditorTransform, FlitsFont, Movie, MovieClip, MovieClipProperties, MovieProperties,
    PlaceSymbol, PreloaderType, Symbol, ONE_BITS, is_default,
};
use flits::movie_edit::{
    AddMovieClipEdit, AddPlacedSymbolEdit, MovePlacedSymbolEdit, MovieEdit, MoviePropertiesOutput,
    RemovePlacedSymbolEdit, RemoveSymbolEdit,
};
use flits::selection::{Selection, box_selection_update, click_selection, deletion_action};
use flits::undo::{EditMessage, UndoStack};

fn transform(x: f64, y: f64) -> EditorTransform {
    EditorTransform { x: x.to_bits(), y: y.to_bits(), x_scale: ONE_BITS, y_scale: ONE_BITS }
}

fn placed(symbol_index: usize, x: f64) -> PlaceSymbol {
    PlaceSymbol {
        symbol_index,
        transform: transform(x, 0.0),
        instance_name: String::new(),
        text: None,
    }
}

fn bitmap(name: &str) -> Symbol {
    Symbol::Bitmap(Bitmap {
        properties: BitmapProperties {
            name: name.to_string(),
            path: format!("assets/{}", name),
            animation: None,
        },
        cache: BitmapCacheStatus::Uncached,
    })
}

fn movieclip(name: &str, place_symbols: Vec<PlaceSymbol>) -> Symbol {
    Symbol::MovieClip(MovieClip {
        properties: MovieClipProperties { name: name.to_string(), class_name: String::new() },
        place_symbols,
    })
}

fn positions(v: &Vec<PlaceSymbol>) -> Vec<(usize, u64)> {
    v.iter().map(|p| (p.symbol_index, p.transform.x)).collect()
}

fn sample_movie() -> Movie {
    let mut movie = Movie::default();
    movie.symbols.push(bitmap("a.png"));
    movie.symbols.push(movieclip("clip", vec![placed(0, 1.0), placed(0, 2.0)]));
    movie.root = vec![placed(1, 3.0), placed(0, 4.0), placed(1, 5.0)];
    movie
}

#[test]
fn default_properties_are_the_editor_defaults() {
    let p = MovieProperties::default();
    assert_eq!(f64::from_bits(p.width), 640.0);
    assert_eq!(f64::from_bits(p.height), 360.0);
    assert_eq!(f32::from_bits(p.frame_rate), 60.0);
    assert_eq!(p.background_color, EditorColor { r: 255, g: 255, b: 255, a: 255 });
    assert_eq!(p.preloader, PreloaderType::NoPreloader);
}

#[test]
fn preloader_labels() {
    assert_eq!(PreloaderType::NoPreloader.to_string(), "None");
    assert_eq!(PreloaderType::StartAfterLoading.to_string(), "Start after loading");
    assert_eq!(PreloaderType::WithPlayButton.to_string(), "With play button");
}

#[test]
fn frames_count_the_preloader() {
    let mut movie = Movie::default();
    assert_eq!(movie.num_frames(), 1);
    movie.properties.preloader = PreloaderType::StartAfterLoading;
    assert_eq!(movie.num_frames(), 2);
    movie.properties.preloader = PreloaderType::WithPlayButton;
    assert_eq!(movie.num_frames(), 3);
}

#[test]
fn symbol_names_and_labels() {
    let movie = sample_movie();
    assert_eq!(movie.symbols[0].name(), "a.png");
    assert_eq!(movie.symbols[1].name(), "clip");
    assert_eq!(movie.symbols[0].type_label(), "Bitmap");
    assert_eq!(movie.symbols[1].type_label(), "MovieClip");
    let font = Symbol::Font(FlitsFont { path: "f.ttf".to_string(), characters: "12".to_string() });
    assert_eq!(font.name(), "f.ttf");
    assert_eq!(font.type_label(), "Font");
    assert!(movie.symbols[1].is_movieclip());
    assert!(!movie.symbols[0].is_movieclip());
}

#[test]
fn invalid_bitmap_and_size() {
    let mut b = Bitmap {
        properties: BitmapProperties { name: "x".to_string(), path: "x".to_string(), animation: None },
        cache: BitmapCacheStatus::Invalid("bad".to_string()),
    };
    assert!(Symbol::Bitmap(b.clone_for_test()).is_invalid());
    assert_eq!(b.size(), None);
    b.cache = BitmapCacheStatus::Cached(CachedBitmap { width: 4, height: 3 });
    assert_eq!(b.size(), Some((4, 3)));
    b.invalidate_cache();
    assert!(matches!(b.cache, BitmapCacheStatus::Uncached));
}

trait CloneForTest {
    fn clone_for_test(&self) -> Self;
}

impl CloneForTest for Bitmap {
    fn clone_for_test(&self) -> Self {
        Bitmap {
            properties: self.properties.clone(),
            cache: match &self.cache {
                BitmapCacheStatus::Uncached => BitmapCacheStatus::Uncached,
                BitmapCacheStatus::Cached(c) => BitmapCacheStatus::Cached(*c),
                BitmapCacheStatus::Invalid(m) => BitmapCacheStatus::Invalid(m.clone()),
            },
        }
    }
}

#[test]
fn copy_without_cache_drops_the_image() {
    let b = Symbol::Bitmap(Bitmap {
        properties: BitmapProperties { name: "x".to_string(), path: "p".to_string(), animation: None },
        cache: BitmapCacheStatus::Cached(CachedBitmap { width: 1, height: 1 }),
    });
    match b.clone_without_cache() {
        Symbol::Bitmap(c) => {
            assert!(matches!(c.cache, BitmapCacheStatus::Uncached));
            assert_eq!(c.properties.path, "p");
        }
        _ => panic!("not a bitmap"),
    }
}

#[test]
fn empty_strings_are_default() {
    assert!(is_default(&String::new()));
    assert!(!is_default(&"x".to_string()));
}

#[test]
fn placed_symbols_of_timelines() {
    let mut movie = sample_movie();
    assert_eq!(movie.get_placed_symbols(None).len(), 3);
    assert_eq!(movie.get_placed_symbols(Some(1)).len(), 2);
    // a bitmap has no timeline: the root stands for it
    assert_eq!(movie.get_placed_symbols(Some(0)).len(), 3);
    movie.insert_placed_symbol(Some(1), 1, placed(0, 9.0));
    assert_eq!(positions(movie.get_placed_symbols(Some(1)))[1], (0, 9.0f64.to_bits()));
    let removed = movie.remove_placed_symbol(None, 0);
    assert_eq!(removed.symbol_index, 1);
    assert_eq!(movie.root.len(), 2);
    movie.push_placed_symbol(None, placed(0, 7.0));
    assert_eq!(movie.root.len(), 3);
    movie.set_placed_symbol(None, 0, placed(1, 8.0));
    assert_eq!(movie.root[0].symbol_index, 1);
}

#[test]
fn placement_from_transform_keeps_the_rest() {
    let mut p = placed(3, 1.0);
    p.instance_name = "n".to_string();
    let q = PlaceSymbol::from_transform(&p, transform(2.0, 3.0));
    assert_eq!(q.symbol_index, 3);
    assert_eq!(q.instance_name, "n");
    assert_eq!(f64::from_bits(q.transform.x), 2.0);
}

#[test]
fn undo_after_action_restores_the_movie() {
    let mut movie = sample_movie();
    let mut history: UndoStack<MovieChange, MovieAction> = UndoStack::new();
    history.update(&mut movie, EditMessage::Action(MovieAction::AddMovieClip("new".to_string())));
    assert_eq!(movie.symbols.len(), 3);
    assert_eq!(movie.symbols[2].name(), "new");
    history.update(&mut movie, EditMessage::Undo);
    assert_eq!(movie.symbols.len(), 2);
    history.update(&mut movie, EditMessage::Redo);
    assert_eq!(movie.symbols.len(), 3);
    assert_eq!(movie.symbols[2].name(), "new");
}

#[test]
fn undo_of_placed_symbol_actions() {
    let mut movie = sample_movie();
    let mut history: UndoStack<MovieChange, MovieAction> = UndoStack::new();
    let action = MovieAction::AddPlacedSymbols(vec![PlacedSymbolAction {
        editing_symbol_index: None,
        placed_symbol: placed(0, 6.0),
        placed_symbol_index: 1,
    }]);
    let before = positions(&movie.root);
    history.update(&mut movie, EditMessage::Action(action));
    assert_eq!(movie.root.len(), 4);
    assert_eq!(positions(&movie.root)[1], (0, 6.0f64.to_bits()));
    history.update(&mut movie, EditMessage::Undo);
    assert_eq!(positions(&movie.root), before);
}

#[test]
fn committed_changes_undo_to_the_value_before_the_first() {
    let mut movie = sample_movie();
    let mut history: UndoStack<MovieChange, MovieAction> = UndoStack::new();
    let initial = movie.properties;
    let mut p1 = initial;
    p1.background_color = EditorColor { r: 1, g: 2, b: 3, a: 4 };
    let mut p2 = initial;
    p2.background_color = EditorColor { r: 9, g: 9, b: 9, a: 9 };
    history.update(&mut movie, EditMessage::Change(MovieChange::MovieProperties(p1)));
    history.update(&mut movie, EditMessage::Change(MovieChange::MovieProperties(p2)));
    assert_eq!(movie.properties, p2);
    history.update(&mut movie, EditMessage::Commit);
    history.update(&mut movie, EditMessage::Undo);
    assert_eq!(movie.properties, initial);
    history.update(&mut movie, EditMessage::Redo);
    assert_eq!(movie.properties, p2);
}

#[test]
fn new_edit_clears_redo() {
    let mut movie = sample_movie();
    let mut history: UndoStack<MovieChange, MovieAction> = UndoStack::new();
    history.update(&mut movie, EditMessage::Action(MovieAction::AddMovieClip("a".to_string())));
    history.update(&mut movie, EditMessage::Undo);
    history.update(&mut movie, EditMessage::Action(MovieAction::AddMovieClip("b".to_string())));
    history.update(&mut movie, EditMessage::Redo);
    assert_eq!(movie.symbols.len(), 3);
    assert_eq!(movie.symbols[2].name(), "b");
}

#[test]
fn placed_symbol_change_sets_and_restores() {
    let mut movie = sample_movie();
    let mut history: UndoStack<MovieChange, MovieAction> = UndoStack::new();
    let change = MovieChange::PlacedSymbols(vec![PlacedSymbolChange {
        editing_symbol_index: Some(1),
        placed_symbol_index: 0,
        placed_symbol: placed(0, 42.0),
    }]);
    history.update(&mut movie, EditMessage::Change(change));
    history.update(&mut movie, EditMessage::Commit);
    assert_eq!(f64::from_bits(movie.get_placed_symbols(Some(1))[0].transform.x), 42.0);
    history.update(&mut movie, EditMessage::Undo);
    assert_eq!(f64::from_bits(movie.get_placed_symbols(Some(1))[0].transform.x), 1.0);
}

#[test]
fn add_movieclip_edit_and_undo() {
    let mut movie = sample_movie();
    let mut edit = MovieEdit::AddMovieClip(AddMovieClipEdit { name: "m".to_string() });
    let out = edit.edit(&mut movie);
    assert!(matches!(out, MoviePropertiesOutput::Stage(Some(2))));
    assert_eq!(movie.symbols[2].name(), "m");
    let out = edit.undo(&mut movie);
    assert!(matches!(out, MoviePropertiesOutput::Stage(None)));
    assert_eq!(movie.symbols.len(), 2);
}

#[test]
fn removing_a_symbol_strips_and_renumbers_and_undo_restores() {
    let mut movie = Movie::default();
    movie.symbols.push(bitmap("a.png"));
    movie.symbols.push(bitmap("b.png"));
    movie.symbols.push(movieclip("clip", vec![placed(0, 1.0), placed(1, 2.0)]));
    movie.root = vec![placed(2, 3.0), placed(0, 4.0), placed(1, 5.0)];
    let before_root = positions(&movie.root);
    let before_clip = positions(movie.get_placed_symbols(Some(2)));
    let mut edit = MovieEdit::RemoveSymbol(RemoveSymbolEdit {
        symbol_index: 0,
        symbol: movie.symbols[0].clone_without_cache(),
        remove_place_symbol_edits: vec![],
    });
    edit.edit(&mut movie);
    assert_eq!(movie.symbols.len(), 2);
    assert_eq!(movie.symbols[1].name(), "clip");
    // the bitmap's placements are gone; the others are renumbered
    assert_eq!(positions(&movie.root), vec![(1, 3.0f64.to_bits()), (0, 5.0f64.to_bits())]);
    assert_eq!(positions(movie.get_placed_symbols(Some(1))), vec![(0, 2.0f64.to_bits())]);
    edit.undo(&mut movie);
    assert_eq!(movie.symbols.len(), 3);
    assert_eq!(positions(&movie.root), before_root);
    assert_eq!(positions(movie.get_placed_symbols(Some(2))), before_clip);
}

#[test]
fn undoing_a_removal_puts_several_placements_back_in_order() {
    let mut movie = Movie::default();
    movie.symbols.push(bitmap("a.png"));
    movie.symbols.push(bitmap("b.png"));
    movie.symbols.push(movieclip("clip", vec![placed(0, 1.0), placed(0, 2.0), placed(1, 3.0)]));
    movie.root = vec![placed(0, 1.0), placed(0, 2.0), placed(1, 3.0), placed(1, 4.0)];
    let before_root = positions(&movie.root);
    let before_clip = positions(movie.get_placed_symbols(Some(2)));
    let mut edit = MovieEdit::RemoveSymbol(RemoveSymbolEdit {
        symbol_index: 0,
        symbol: movie.symbols[0].clone_without_cache(),
        remove_place_symbol_edits: vec![],
    });
    edit.edit(&mut movie);
    assert_eq!(positions(&movie.root), vec![(0, 3.0f64.to_bits()), (0, 4.0f64.to_bits())]);
    edit.undo(&mut movie);
    assert_eq!(positions(&movie.root), before_root);
    assert_eq!(positions(movie.get_placed_symbols(Some(2))), before_clip);
}

#[test]
fn undoing_the_removal_of_a_clip_placed_twice_on_the_root() {
    let mut movie = Movie::default();
    movie.symbols.push(movieclip("a", vec![]));
    movie.root = vec![placed(0, 0.0), placed(0, 0.0)];
    let mut edit = MovieEdit::RemoveSymbol(RemoveSymbolEdit {
        symbol_index: 0,
        symbol: movie.symbols[0].clone_without_cache(),
        remove_place_symbol_edits: vec![],
    });
    edit.edit(&mut movie);
    assert!(movie.symbols.is_empty() && movie.root.is_empty());
    let out = edit.undo(&mut movie);
    assert!(matches!(out, MoviePropertiesOutput::Stage(Some(0))));
    assert_eq!(movie.symbols.len(), 1);
    assert_eq!(movie.symbols[0].name(), "a");
    assert_eq!(movie.root.len(), 2);
    assert!(movie.root.iter().all(|p| p.symbol_index == 0));
}

#[test]
fn removing_a_placed_symbol_and_undo() {
    let mut movie = sample_movie();
    let mut edit = MovieEdit::RemovePlacedSymbol(RemovePlacedSymbolEdit {
        editing_symbol_index: None,
        placed_symbol_index: 1,
        placed_symbol: movie.root[1].clone(),
    });
    let before = positions(&movie.root);
    edit.edit(&mut movie);
    assert_eq!(positions(&movie.root), vec![(1, 3.0f64.to_bits()), (1, 5.0f64.to_bits())]);
    edit.undo(&mut movie);
    assert_eq!(positions(&movie.root), before);
}

#[test]
fn moving_and_adding_placed_symbols_undo_to_the_movie_before() {
    let mut movie = sample_movie();
    let before = positions(&movie.root);
    let mut moved = MovieEdit::MovePlacedSymbol(MovePlacedSymbolEdit {
        editing_symbol_index: None,
        placed_symbol_index: 2,
        start: movie.root[2].transform,
        end: transform(9.0, 0.0),
    });
    let out = moved.edit(&mut movie);
    assert!(matches!(out, MoviePropertiesOutput::Stage(None)));
    assert_eq!(f64::from_bits(movie.root[2].transform.x), 9.0);
    moved.undo(&mut movie);
    assert_eq!(positions(&movie.root), before);

    let mut added = MovieEdit::AddPlacedSymbol(AddPlacedSymbolEdit {
        editing_symbol_index: Some(1),
        placed_symbol: placed(0, 7.0),
        placed_symbol_index: None,
    });
    let out = added.edit(&mut movie);
    assert!(matches!(out, MoviePropertiesOutput::PlacedSymbolProperties(Some(1), 2)));
    assert_eq!(movie.get_placed_symbols(Some(1)).len(), 3);
    let out = added.undo(&mut movie);
    assert!(matches!(out, MoviePropertiesOutput::RemovedPlacedSymbol(Some(1))));
    assert_eq!(
        positions(movie.get_placed_symbols(Some(1))),
        vec![(0, 1.0f64.to_bits()), (0, 2.0f64.to_bits())]
    );
}

#[test]
fn selecting_a_movieclip_puts_it_on_the_stage() {
    let movie = sample_movie();
    let mut selection = Selection::default();
    selection.placed_symbols = vec![0];
    assert!(selection.change_selected_symbol(&movie, Some(1)));
    assert_eq!(selection.stage_symbol_index, Some(1));
    assert_eq!(selection.properties_symbol_index, Some(1));
    assert!(selection.placed_symbols.is_empty());
    // a bitmap only goes to the properties panel
    assert!(!selection.change_selected_symbol(&movie, Some(0)));
    assert_eq!(selection.stage_symbol_index, Some(1));
    assert_eq!(selection.properties_symbol_index, Some(0));
    // the timeline already on the stage: nothing changes
    selection.placed_symbols = vec![1];
    assert!(!selection.change_selected_symbol(&movie, Some(1)));
    assert_eq!(selection.placed_symbols, vec![1]);
    assert_eq!(selection.properties_symbol_index, Some(0));
}

#[test]
fn select_all_selects_every_placed_symbol() {
    let movie = sample_movie();
    let mut selection = Selection::default();
    selection.select_all(&movie);
    assert_eq!(selection.placed_symbols, vec![0, 1, 2]);
    assert_eq!(selection.properties_symbol_index, None);
}

#[test]
fn deleting_the_selection_removes_exactly_the_selected() {
    let mut movie = sample_movie();
    let mut selection = Selection::default();
    selection.placed_symbols = vec![2, 0];
    let edits = selection.delete_selection(&movie);
    assert!(selection.placed_symbols.is_empty());
    assert_eq!(edits.len(), 2);
    assert_eq!(edits[0].placed_symbol_index, 2);
    assert_eq!(edits[1].placed_symbol_index, 0);
    for edit in edits {
        let mut e = MovieEdit::RemovePlacedSymbol(edit);
        e.edit(&mut movie);
    }
    assert_eq!(positions(&movie.root), vec![(0, 4.0f64.to_bits())]);
}

#[test]
fn a_deletion_is_one_history_entry_that_undo_restores() {
    let mut movie = sample_movie();
    let before = positions(&movie.root);
    let mut history: UndoStack<MovieChange, MovieAction> = UndoStack::new();
    let mut selection = Selection::default();
    selection.placed_symbols = vec![0, 2];
    let action = selection.delete_selection_action(&movie).unwrap();
    assert!(selection.placed_symbols.is_empty());
    history.update(&mut movie, EditMessage::Action(action));
    assert_eq!(positions(&movie.root), vec![(0, 4.0f64.to_bits())]);
    history.update(&mut movie, EditMessage::Undo);
    assert_eq!(positions(&movie.root), before);
    history.update(&mut movie, EditMessage::Redo);
    assert_eq!(positions(&movie.root), vec![(0, 4.0f64.to_bits())]);
    // nothing selected: nothing to record
    assert!(selection.delete_selection_action(&movie).is_none());
    let removals = vec![];
    assert!(matches!(deletion_action(&removals), MovieAction::RemovePlacedSymbols(a) if a.is_empty()));
}

#[test]
fn deleting_nothing_makes_no_edits() {
    let movie = sample_movie();
    let mut selection = Selection::default();
    assert!(selection.delete_selection(&movie).is_empty());
}

#[test]
fn clicking_selects_and_shift_toggles() {
    assert_eq!(click_selection(&vec![1, 2], 3, false), vec![3]);
    assert_eq!(click_selection(&vec![1, 2], 3, true), vec![1, 2, 3]);
    assert_eq!(click_selection(&vec![1, 2], 2, true), vec![1]);
    assert_eq!(click_selection(&vec![1, 2], 2, false), vec![1, 2]);
}

#[test]
fn unimported_assets_become_symbols() {
    let mut movie = sample_movie();
    let names = vec![
        "a.png".to_string(),
        "b.png".to_string(),
        "notes.txt".to_string(),
        "font.ttf".to_string(),
    ];
    movie.add_unimported_assets(&names);
    assert_eq!(movie.symbols.len(), 4);
    match &movie.symbols[2] {
        Symbol::Bitmap(b) => {
            assert_eq!(b.properties.name, "b.png");
            assert_eq!(b.properties.path, "assets/b.png");
        }
        _ => panic!("not a bitmap"),
    }
    match &movie.symbols[3] {
        Symbol::Font(f) => {
            assert_eq!(f.path, "font.ttf");
            assert_eq!(f.characters, "1234567890");
        }
        _ => panic!("not a font"),
    }
}

#[test]
fn first_frame_of_an_animation_is_cached() {
    let mut b = Bitmap {
        properties: BitmapProperties {
            name: "x".to_string(),
            path: "x".to_string(),
            animation: Some(Animation { frame_count: 4, frame_delay: 0, end_action: String::new() }),
        },
        cache: BitmapCacheStatus::Uncached,
    };
    b.cache_decoded(Ok((40, 10)));
    assert_eq!(b.size(), Some((10, 10)));
    b.properties.animation = Some(Animation { frame_count: 100, frame_delay: 0, end_action: String::new() });
    b.cache_decoded(Ok((40, 10)));
    assert_eq!(b.size(), Some((1, 10)));
    b.cache_decoded(Err("broken".to_string()));
    assert!(matches!(&b.cache, BitmapCacheStatus::Invalid(m) if m == "broken"));
}

#[test]
fn a_selection_box_adds_what_enters_and_drops_what_leaves() {
    // placed symbols 0 and 2 are inside, 1 is outside, 3 has no bounds
    let inside = vec![Some(true), Some(false), Some(true), None];
    // 2 was selected by hand, 1 by the box before
    let (selection, items) = box_selection_update(&vec![2, 1], &vec![1], &inside);
    assert_eq!(selection, Some(vec![2, 0]));
    assert_eq!(items, vec![1, 0]);
    // nothing enters and nothing leaves: the selection is not touched
    let (selection, items) = box_selection_update(&vec![0, 2], &vec![0], &inside);
    assert_eq!(selection, None);
    assert_eq!(items, vec![0]);
}
