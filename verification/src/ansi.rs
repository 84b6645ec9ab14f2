//! The colors of the player's output lines: the pieces of text between the
//! ANSI escape sequences, each in the color the sequences before it set.
use vstd::prelude::*;

verus! {

/// A piece of an output line.
pub enum AnsiPiece {
    Text(String),
    /// the codes of a "set graphics mode" sequence
    GraphicsMode(Vec<u8>),
    /// any other escape sequence
    OtherEscape,
}

pub enum AnsiPieceView {
    Text(Seq<char>),
    GraphicsMode(Seq<u8>),
    OtherEscape,
}

impl View for AnsiPiece {
    type V = AnsiPieceView;

    open spec fn view(&self) -> AnsiPieceView {
        match self {
            AnsiPiece::Text(t) => AnsiPieceView::Text(t@),
            AnsiPiece::GraphicsMode(m) => AnsiPieceView::GraphicsMode(m@),
            AnsiPiece::OtherEscape => AnsiPieceView::OtherEscape,
        }
    }
}

pub open spec fn pieces_view(p: Seq<AnsiPiece>) -> Seq<AnsiPieceView> {
    p.map_values(|x: AnsiPiece| x@)
}

/// How `ansi_parser` splits a line into text and escape sequences.
pub uninterp spec fn ansi_pieces(line: Seq<char>) -> Seq<AnsiPieceView>;

/// Splits a line with `ansi_parser::AnsiParser::ansi_parse`, keeping the
/// codes of each "set graphics mode" sequence. Claimed: the result is
/// `ansi_pieces` of the line.
#[verifier::external_body]
fn parse_ansi(line: &str) -> (r: Vec<AnsiPiece>)
    ensures
        pieces_view(r@) == ansi_pieces(line@),
{
    let mut pieces = Vec::new();
    for output in ansi_parser::AnsiParser::ansi_parse(line) {
        pieces.push(match output {
            ansi_parser::Output::TextBlock(text) => AnsiPiece::Text(text.to_string()),
            ansi_parser::Output::Escape(ansi_parser::AnsiSequence::SetGraphicsMode(mode)) =>
                AnsiPiece::GraphicsMode(mode.to_vec()),
            ansi_parser::Output::Escape(_) => AnsiPiece::OtherEscape,
        });
    }
    pieces
}

/// The colors that the player's output uses.
#[derive(Clone, Copy, PartialEq, Eq, Structural)]
pub enum TextColor {
    White,
    Gray,
    Red,
    Green,
    Yellow,
}

/// The color after a "set graphics mode" sequence: its first code resets
/// (0), dims (2) or sets the red, green or yellow foreground (31 to 33);
/// other codes keep the color.
pub open spec fn color_after(color: TextColor, mode: Seq<u8>) -> TextColor {
    if mode[0] == 0 {
        TextColor::White
    } else if mode[0] == 2 {
        TextColor::Gray
    } else if mode[0] == 31 {
        TextColor::Red
    } else if mode[0] == 32 {
        TextColor::Green
    } else if mode[0] == 33 {
        TextColor::Yellow
    } else {
        color
    }
}

/// A piece of text in its color.
pub struct ColoredText {
    pub text: String,
    pub color: TextColor,
}

pub struct ColoredTextView {
    pub text: Seq<char>,
    pub color: TextColor,
}

impl View for ColoredText {
    type V = ColoredTextView;

    open spec fn view(&self) -> ColoredTextView {
        ColoredTextView { text: self.text@, color: self.color }
    }
}

pub open spec fn colored_view(c: Seq<ColoredText>) -> Seq<ColoredTextView> {
    c.map_values(|x: ColoredText| x@)
}

/// Every "set graphics mode" sequence has a code.
pub open spec fn modes_have_codes(pieces: Seq<AnsiPieceView>) -> bool {
    forall|i: int|
        0 <= i < pieces.len() ==> (#[trigger] pieces[i] matches AnsiPieceView::GraphicsMode(m)
            ==> m.len() > 0)
}

/// The color after the pieces before `k`, starting from white.
pub open spec fn color_at(pieces: Seq<AnsiPieceView>, k: int) -> TextColor
    decreases k,
{
    if k <= 0 {
        TextColor::White
    } else {
        let c = color_at(pieces, k - 1);
        match pieces[k - 1] {
            AnsiPieceView::GraphicsMode(m) => color_after(c, m),
            _ => c,
        }
    }
}

/// The texts among the pieces before `k`, each in its color.
pub open spec fn colored_pieces(pieces: Seq<AnsiPieceView>, k: int) -> Seq<ColoredTextView>
    decreases k,
{
    if k <= 0 {
        Seq::empty()
    } else {
        let prev = colored_pieces(pieces, k - 1);
        match pieces[k - 1] {
            AnsiPieceView::Text(t) => prev.push(
                ColoredTextView { text: t, color: color_at(pieces, k - 1) },
            ),
            _ => prev,
        }
    }
}

/// Colors the texts of a line's pieces.
pub fn colored_segments(pieces: &Vec<AnsiPiece>) -> (r: Vec<ColoredText>)
    requires
        modes_have_codes(pieces_view(pieces@)),
    ensures
        colored_view(r@) == colored_pieces(pieces_view(pieces@), pieces@.len() as int),
{
    let ghost pv = pieces_view(pieces@);
    let mut r: Vec<ColoredText> = Vec::new();
    let mut color = TextColor::White;
    let mut k: usize = 0;
    while k < pieces.len()
        invariant
            k <= pieces.len(),
            pv == pieces_view(pieces@),
            modes_have_codes(pv),
            color == color_at(pv, k as int),
            colored_view(r@) == colored_pieces(pv, k as int),
        decreases pieces.len() - k,
    {
        assert(pv[k as int] == pieces@[k as int]@);
        match &pieces[k] {
            AnsiPiece::Text(text) => {
                let ghost before = colored_view(r@);
                r.push(ColoredText { text: text.clone(), color });
                assert(colored_view(r@) =~= before.push(ColoredTextView { text: text@, color }));
            },
            AnsiPiece::GraphicsMode(mode) => {
                assert(mode@.len() > 0);
                // only the codes that the player uses
                color = match mode[0] {
                    0 => TextColor::White,
                    2 => TextColor::Gray,
                    31 => TextColor::Red,
                    32 => TextColor::Green,
                    33 => TextColor::Yellow,
                    _ => color,
                };
            },
            AnsiPiece::OtherEscape => {},
        }
        k = k + 1;
    }
    r
}

/// The colored texts of an output line; `None` for a line with a "set
/// graphics mode" sequence without codes, which the editor cannot color.
pub fn line_segments(line: &str) -> (r: Option<Vec<ColoredText>>)
    ensures
        r is None <==> !modes_have_codes(ansi_pieces(line@)),
        r matches Some(segments) ==> colored_view(segments@) == colored_pieces(
            ansi_pieces(line@),
            ansi_pieces(line@).len() as int,
        ),
{
    let pieces = parse_ansi(line);
    let ghost pv = pieces_view(pieces@);
    let mut k: usize = 0;
    while k < pieces.len()
        invariant
            k <= pieces.len(),
            pv == pieces_view(pieces@),
            pv == ansi_pieces(line@),
            forall|i: int|
                0 <= i < k ==> (#[trigger] pv[i] matches AnsiPieceView::GraphicsMode(m) ==> m.len()
                    > 0),
        decreases pieces.len() - k,
    {
        assert(pv[k as int] == pieces@[k as int]@);
        match &pieces[k] {
            AnsiPiece::GraphicsMode(mode) => {
                if mode.len() == 0 {
                    assert(!modes_have_codes(pv)) by {
                        assert(pv[k as int] matches AnsiPieceView::GraphicsMode(m) && m.len() == 0);
                    }
                    return None;
                }
            },
            _ => {},
        }
        k = k + 1;
    }
    Some(colored_segments(&pieces))
}

} // verus!
