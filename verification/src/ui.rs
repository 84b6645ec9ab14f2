//! The state of the editor's windows and panels, apart from how they are
//! drawn: the run view with the player's output, the output and error
//! windows, and the window that names a new movieclip.
use vstd::prelude::*;
use crate::movie_edit::{AddMovieClipEdit, MovieEdit};

verus! {

/// How the editor was started: with a project to open, or without.
pub enum CliParams {
    NoProject,
    /// the path of the project file
    OpenProject(String),
}

/// The first argument after the program's name is the project to open.
pub fn parse_command_line_arguments(args: &Vec<String>) -> (r: CliParams)
    ensures
        args.len() > 1 ==> (r matches CliParams::OpenProject(p) && p == args@[1]),
        args.len() <= 1 ==> r is NoProject,
{
    if args.len() > 1 {
        return CliParams::OpenProject(args[1].clone());
    }
    CliParams::NoProject
}

/// Whether the window has to be drawn again.
#[derive(PartialEq, Eq, Structural)]
pub enum NeedsRedraw {
    Yes,
    No,
}

/// The size of the stage in pixels.
pub struct StageSize {
    pub width: u32,
    pub height: u32,
}

/// The tab shown while the movie runs.
#[derive(Clone, Copy, PartialEq, Eq, Structural)]
pub enum RunTab {
    Editor,
    Output,
}

/// The view while the movie runs: the editor, or the player's output.
pub struct RunUi {
    tab: RunTab,
    lines: Vec<String>,
}

impl RunUi {
    pub closed spec fn tab(&self) -> RunTab {
        self.tab
    }

    /// The lines the player has written, in order.
    pub closed spec fn line_views(&self) -> Seq<Seq<char>> {
        self.lines@.map_values(|l: String| l@)
    }

    pub fn new() -> (r: Self)
        ensures
            r.tab() == RunTab::Editor,
            r.line_views() == Seq::<Seq<char>>::empty(),
    {
        let r = RunUi { tab: RunTab::Editor, lines: Vec::new() };
        assert(r.line_views() =~= Seq::<Seq<char>>::empty());
        r
    }

    pub fn is_editor_visible(&self) -> (r: bool)
        ensures
            r == (self.tab() == RunTab::Editor),
    {
        self.tab == RunTab::Editor
    }

    /// Switches to a tab, as its label is clicked.
    pub fn select_tab(&mut self, tab: RunTab)
        ensures
            final(self).tab() == tab,
            final(self).line_views() == old(self).line_views(),
    {
        self.tab = tab;
    }

    pub fn add_line(&mut self, line: String)
        ensures
            final(self).tab() == old(self).tab(),
            final(self).line_views() == old(self).line_views().push(line@),
    {
        self.lines.push(line);
        assert(self.line_views() =~= old(self).line_views().push(line@));
    }

    /// A new line shows only on the output tab.
    pub fn needs_redraw_after_new_line(&self) -> (r: bool)
        ensures
            r == (self.tab() == RunTab::Output),
    {
        self.tab == RunTab::Output
    }

    pub fn lines(&self) -> (r: &Vec<String>)
        ensures
            r@.map_values(|l: String| l@) == self.line_views(),
    {
        &self.lines
    }
}

/// A line of the player's output: kept while the movie runs; the window is
/// drawn again when the output tab shows it.
pub fn receive_command_output(run_ui: &mut Option<RunUi>, line: String) -> (r: NeedsRedraw)
    ensures
        *old(run_ui) is None ==> *final(run_ui) is None && r == NeedsRedraw::No,
        *old(run_ui) matches Some(u) ==> {
            &&& *final(run_ui) is Some
            &&& final(run_ui)->0.tab() == u.tab()
            &&& final(run_ui)->0.line_views() == u.line_views().push(line@)
            &&& r == if u.tab() == RunTab::Output {
                NeedsRedraw::Yes
            } else {
                NeedsRedraw::No
            }
        },
{
    match run_ui {
        Some(u) => {
            u.add_line(line);
            if u.needs_redraw_after_new_line() {
                return NeedsRedraw::Yes;
            }
            NeedsRedraw::No
        },
        None => NeedsRedraw::No,
    }
}

/// The window with the output of the player.
pub struct OutputWindow {
    lines: Vec<String>,
}

impl OutputWindow {
    pub closed spec fn line_views(&self) -> Seq<Seq<char>> {
        self.lines@.map_values(|l: String| l@)
    }

    pub fn new() -> (r: Self)
        ensures
            r.line_views() == Seq::<Seq<char>>::empty(),
    {
        let r = OutputWindow { lines: Vec::new() };
        assert(r.line_views() =~= Seq::<Seq<char>>::empty());
        r
    }

    pub fn add_line(&mut self, line: String)
        ensures
            final(self).line_views() == old(self).line_views().push(line@),
    {
        self.lines.push(line);
        assert(self.line_views() =~= old(self).line_views().push(line@));
    }

    pub fn lines(&self) -> (r: &Vec<String>)
        ensures
            r@.map_values(|l: String| l@) == self.line_views(),
    {
        &self.lines
    }
}

/// A window that shows an error until it is dismissed.
pub struct ErrorWindow {
    error: String,
}

impl ErrorWindow {
    pub closed spec fn message(&self) -> Seq<char> {
        self.error@
    }

    /// The window to show for an error; an open window is a `Some`.
    pub fn new(error: String) -> (r: Option<Self>)
        ensures
            r matches Some(w) && w.message() == error@,
    {
        Some(Self { error })
    }

    pub fn error(&self) -> (r: &String)
        ensures
            r@ == self.message(),
    {
        &self.error
    }
}

impl Default for ErrorWindow {
    fn default() -> (r: Self)
        ensures
            r.message() == Seq::<char>::empty(),
    {
        ErrorWindow { error: String::new() }
    }
}

/// The bar that shows which timeline is edited.
pub struct BreadcrumbBar {}

impl Default for BreadcrumbBar {
    fn default() -> Self {
        BreadcrumbBar {  }
    }
}

/// The panel that lists the library's symbols.
pub struct Library {}

impl Default for Library {
    fn default() -> Self {
        Library {  }
    }
}

/// The menu bar with its keyboard shortcuts.
pub struct MenuBar {}

impl Default for MenuBar {
    fn default() -> Self {
        MenuBar {  }
    }
}

/// The properties panel of the selection.
pub struct PropertiesPanel2 {}

impl Default for PropertiesPanel2 {
    fn default() -> Self {
        PropertiesPanel2 {  }
    }
}

/// The properties panel of a selection of several placed symbols, which
/// has nothing to edit.
pub struct MultiSelectionPropertiesPanel {}

impl MultiSelectionPropertiesPanel {
    /// The edit the panel asks for: none.
    pub fn edit(&self) -> (r: Option<MovieEdit>)
        ensures
            r is None,
    {
        None
    }
}

/// Whether a field of a properties panel was edited this frame.
pub struct PropertyUiContext {
    pub edited: bool,
}

impl PropertyUiContext {
    pub fn new() -> (r: Self)
        ensures
            !r.edited,
    {
        PropertyUiContext { edited: false }
    }
}

/// What the window that names a new movieclip asks for.
pub enum NewSymbolWindowResult {
    NoAction,
    Confirm(MovieEdit),
    Cancel,
}

/// What happened in the window in a frame.
pub struct NewSymbolWindowEvents {
    /// the Create button was clicked (it can only be while the name is not
    /// empty)
    pub create_clicked: bool,
    /// the name field lost focus with Enter pressed
    pub confirmed_with_enter: bool,
    pub escape_pressed: bool,
    /// the window's close button was clicked
    pub window_closed: bool,
}

/// The window that names a new movieclip.
pub struct NewSymbolWindow {
    name: String,
    has_requested_focus: bool,
}

impl Default for NewSymbolWindow {
    fn default() -> (r: Self)
        ensures
            r.name_view() == Seq::<char>::empty(),
            !r.requested_focus(),
    {
        NewSymbolWindow { name: String::new(), has_requested_focus: false }
    }
}

impl NewSymbolWindow {
    pub closed spec fn name_view(&self) -> Seq<char> {
        self.name@
    }

    pub closed spec fn requested_focus(&self) -> bool {
        self.has_requested_focus
    }

    /// The name as it is typed.
    pub fn name_mut(&mut self) -> (r: &mut String)
        ensures
            r@ == old(self).name_view(),
            final(self).name_view() == final(r)@,
            final(self).requested_focus() == old(self).requested_focus(),
    {
        &mut self.name
    }

    /// Whether the name field should take the focus: only the first time.
    pub fn take_focus_request(&mut self) -> (r: bool)
        ensures
            r == !old(self).requested_focus(),
            final(self).requested_focus(),
            final(self).name_view() == old(self).name_view(),
    {
        if !self.has_requested_focus {
            self.has_requested_focus = true;
            true
        } else {
            false
        }
    }

    /// What the window asks for after a frame: a movieclip with the typed
    /// name when it is created (by the button or by Enter) with a name that
    /// is not empty; closing the window cancels, as Escape does unless the
    /// movieclip is created in the same frame.
    pub fn result(&self, events: &NewSymbolWindowEvents) -> (r: NewSymbolWindowResult)
        ensures
            events.window_closed ==> r is Cancel,
            !events.window_closed && self.name_view().len() > 0 && (events.create_clicked
                || events.confirmed_with_enter) ==> (r matches NewSymbolWindowResult::Confirm(
                MovieEdit::AddMovieClip(e),
            ) && e.name@ == self.name_view()),
            !events.window_closed && !(self.name_view().len() > 0 && (events.create_clicked
                || events.confirmed_with_enter)) ==> (if events.escape_pressed {
                r is Cancel
            } else {
                r is NoAction
            }),
    {
        let mut result = NewSymbolWindowResult::NoAction;
        if events.escape_pressed {
            result = NewSymbolWindowResult::Cancel;
        }
        let has_name = !self.name.as_str().is_empty();
        if (events.create_clicked && has_name) || (events.confirmed_with_enter && has_name) {
            result = NewSymbolWindowResult::Confirm(
                MovieEdit::AddMovieClip(AddMovieClipEdit { name: self.name.clone() }),
            );
        }
        if events.window_closed {
            result = NewSymbolWindowResult::Cancel;
        }
        result
    }
}

} // verus!
