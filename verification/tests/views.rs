use flits::ansi::{TextColor, line_segments};
use flits::movie_edit::MovieEdit;
use flits::text::ends_with;
use flits::ui::{
    CliParams, ErrorWindow, MultiSelectionPropertiesPanel, NeedsRedraw, NewSymbolWindow,
    NewSymbolWindowEvents, NewSymbolWindowResult, OutputWindow, PropertyUiContext, RunTab, RunUi,
    parse_command_line_arguments, receive_command_output,
};

fn events(create: bool, enter: bool, escape: bool, closed: bool) -> NewSymbolWindowEvents {
    NewSymbolWindowEvents {
        create_clicked: create,
        confirmed_with_enter: enter,
        escape_pressed: escape,
        window_closed: closed,
    }
}

#[test]
fn the_first_argument_opens_a_project() {
    let args = vec!["flits".to_string(), "game/project.flits".to_string()];
    assert!(matches!(parse_command_line_arguments(&args), CliParams::OpenProject(p) if p == "game/project.flits"));
    assert!(matches!(parse_command_line_arguments(&vec!["flits".to_string()]), CliParams::NoProject));
}

#[test]
fn run_view_starts_on_the_editor() {
    let mut run = RunUi::new();
    assert!(run.is_editor_visible());
    assert!(!run.needs_redraw_after_new_line());
    run.add_line("loading".to_string());
    run.select_tab(RunTab::Output);
    assert!(!run.is_editor_visible());
    assert!(run.needs_redraw_after_new_line());
    run.add_line("done".to_string());
    assert_eq!(run.lines(), &vec!["loading".to_string(), "done".to_string()]);
}

#[test]
fn output_window_keeps_lines_in_order() {
    let mut w = OutputWindow::new();
    assert!(w.lines().is_empty());
    w.add_line("a".to_string());
    w.add_line("b".to_string());
    assert_eq!(w.lines(), &vec!["a".to_string(), "b".to_string()]);
}

#[test]
fn error_window_shows_its_error() {
    let w = ErrorWindow::new("it broke".to_string());
    assert_eq!(w.unwrap().error(), "it broke");
    assert_eq!(ErrorWindow::default().error(), "");
}

#[test]
fn panels_ask_for_nothing() {
    assert!(MultiSelectionPropertiesPanel {}.edit().is_none());
    assert!(!PropertyUiContext::new().edited);
}

#[test]
fn new_symbol_window_confirms_a_name() {
    let mut w = NewSymbolWindow::default();
    assert!(w.take_focus_request());
    assert!(!w.take_focus_request());
    assert!(matches!(w.result(&events(false, true, false, false)), NewSymbolWindowResult::NoAction));
    w.name_mut().push_str("Hero");
    match w.result(&events(true, false, false, false)) {
        NewSymbolWindowResult::Confirm(MovieEdit::AddMovieClip(e)) => assert_eq!(e.name, "Hero"),
        _ => panic!("not confirmed"),
    }
    match w.result(&events(false, true, true, false)) {
        NewSymbolWindowResult::Confirm(_) => {}
        _ => panic!("enter confirms even with escape"),
    }
    assert!(matches!(w.result(&events(false, false, true, false)), NewSymbolWindowResult::Cancel));
    assert!(matches!(w.result(&events(true, false, false, true)), NewSymbolWindowResult::Cancel));
}

#[test]
fn player_output_is_colored() {
    let segments = line_segments("plain \u{1b}[31mred\u{1b}[0m back \u{1b}[2mdim").unwrap();
    let got: Vec<(String, TextColor)> = segments.into_iter().map(|s| (s.text, s.color)).collect();
    assert_eq!(got.len(), 4);
    assert_eq!(got[0].0, "plain ");
    assert!(got[0].1 == TextColor::White);
    assert_eq!(got[1].0, "red");
    assert!(got[1].1 == TextColor::Red);
    assert_eq!(got[2].0, " back ");
    assert!(got[2].1 == TextColor::White);
    assert!(got[3].1 == TextColor::Gray);
    let green = line_segments("\u{1b}[32mok").unwrap();
    assert!(green[0].color == TextColor::Green);
    let yellow = line_segments("\u{1b}[33mwarn").unwrap();
    assert!(yellow[0].color == TextColor::Yellow);
}

#[test]
fn graphics_mode_without_codes_cannot_be_colored() {
    assert!(line_segments("a\u{1b}[mb").is_none());
}

#[test]
fn suffixes() {
    assert!(ends_with("song.mp3", ".mp3"));
    assert!(!ends_with("song.mp3", ".wav"));
    assert!(!ends_with("p3", ".mp3"));
    assert!(ends_with("x", ""));
}

#[test]
fn output_lines_redraw_only_the_output_tab() {
    let mut none: Option<RunUi> = None;
    assert!(receive_command_output(&mut none, "x".to_string()) == NeedsRedraw::No);
    assert!(none.is_none());
    let mut running = Some(RunUi::new());
    assert!(receive_command_output(&mut running, "a".to_string()) == NeedsRedraw::No);
    running.as_mut().unwrap().select_tab(RunTab::Output);
    assert!(receive_command_output(&mut running, "b".to_string()) == NeedsRedraw::Yes);
    assert_eq!(running.unwrap().lines(), &vec!["a".to_string(), "b".to_string()]);
}
