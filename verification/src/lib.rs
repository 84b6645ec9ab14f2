//! Flits: the project model of a Flash movie editor, its undo history and
//! the planning of the SWF file that a project is exported to.
pub mod movie;
pub mod undo;
pub mod edits;
pub mod movie_edit;
pub mod removal_laws;
pub mod edit_laws;
pub mod export;
pub mod bitmap;
pub mod preloader;
pub mod audio;
pub mod library;
pub mod movie_export;
pub mod as2;
pub mod text;
pub mod assets;
pub mod ui;
pub mod ansi;
pub mod selection;
pub mod font;
