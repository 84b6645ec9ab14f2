# flits

An editor model and exporter for Flash movies: a movie is a library of
symbols (bitmaps and movieclips) and timelines of placed symbols, edited
through reversible edits with an undo history, and exported to SWF with an
optional preloader, sounds, fonts and ActionScript 2 classes.

The library under `src/` is written in Verus and verified by it: its
functions are proved against their contracts, and most of them state what
they return or change; a few calls into outside crates are trusted, each
behind a small function whose contract names what the call returns.

- `movie`, `edits`, `movie_edit`, `undo`, `selection`, `assets`: the movie
  model, its edits and their undoing, the undo history, the selection.
- `removal_laws`, `edit_laws`: proofs that undoing an edit gives back the
  movie it was made on (for the removal of a symbol, unless it is a
  movieclip that places itself).
- `export`, `bitmap`, `preloader`, `audio`, `library`, `movie_export`, `as2`,
  `font`, `text`: planning the tags of the exported movie.
- `ansi`, `ui`: the output of a running movie and the editor's small state
  machines.

`app/` is the command-line program around the library: loading and saving
projects, reading assets, writing the SWF file and running the player.
