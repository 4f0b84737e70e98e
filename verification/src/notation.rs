//! Moves and boards as text.
//!
//! A move is written as a row digit followed by a column letter, `1A` for the
//! top left tile and `3C` for the bottom right one.

use crate::game::{Piece, Tile, Tiles};
use crate::rules::{board_of, Board};
use vstd::prelude::*;
use vstd::string::*;
use vstd::utf8::is_ascii_chars;

verus! {

/// Text that names no tile. It holds the part of the input that was at fault.
#[derive(Debug)]
pub struct InvalidMove(pub String);

impl Clone for InvalidMove {
    fn clone(&self) -> (res: InvalidMove)
        ensures
            res == *self,
    {
        InvalidMove(self.0.clone())
    }
}

/// The row that a digit names.
pub open spec fn row_of(c: char) -> Option<usize> {
    if c == '1' {
        Some(0usize)
    } else if c == '2' {
        Some(1usize)
    } else if c == '3' {
        Some(2usize)
    } else {
        None
    }
}

/// The column that a letter names, in either case.
pub open spec fn col_of(c: char) -> Option<usize> {
    if c == 'A' || c == 'a' {
        Some(0usize)
    } else if c == 'B' || c == 'b' {
        Some(1usize)
    } else if c == 'C' || c == 'c' {
        Some(2usize)
    } else {
        None
    }
}

/// The tile that `text` names, as `(row, col)` counted from zero, or the
/// text at fault. Text names a tile when it is a row digit followed by a
/// column letter and nothing else. Where the row digit is good, the text is
/// two plain (ASCII) characters and the second is no column letter, that
/// second character is at fault; in every other case the whole text is.
pub open spec fn parsed_move(text: Seq<char>) -> Result<(usize, usize), Seq<char>> {
    if text.len() == 2 && is_ascii_chars(text) {
        match (row_of(text[0]), col_of(text[1])) {
            (Some(row), Some(col)) => Ok((row, col)),
            (Some(_), None) => Err(text.subrange(1, 2)),
            (None, _) => Err(text),
        }
    } else {
        Err(text)
    }
}

/// Reads a move such as `2b`: the tile it names, or the text at fault.
pub fn parse_move(input: &str) -> (res: Result<(usize, usize), InvalidMove>)
    ensures
        match parsed_move(input@) {
            Ok(pos) => res == Ok::<(usize, usize), InvalidMove>(pos),
            Err(text) => res is Err && res->Err_0.0@ == text,
        },
{
    proof {
        is_ascii_spec_bytes(input);
    }
    if input.as_bytes().len() != 2 || !input.is_ascii() {
        return Err(InvalidMove(String::from_str(input)));
    }
    let row: usize = match input.get_char(0) {
        '1' => 0,
        '2' => 1,
        '3' => 2,
        _ => return Err(InvalidMove(String::from_str(input))),
    };
    let col: usize = match input.get_char(1) {
        'A' | 'a' => 0,
        'B' | 'b' => 1,
        'C' | 'c' => 2,
        _ => return Err(InvalidMove(String::from_str(input.substring_ascii(1, 2)))),
    };
    Ok((row, col))
}

/// The character that shows a piece.
pub open spec fn piece_glyph(p: Piece) -> char {
    match p {
        Piece::X => 'x',
        Piece::O => 'o',
    }
}

/// The character that shows a tile; an empty tile has one of its own.
pub open spec fn tile_glyph(t: Tile) -> char {
    match t {
        Some(p) => piece_glyph(p),
        None => '\u{25A2}',
    }
}

/// The digit that labels row `r`.
pub open spec fn row_label(r: int) -> char {
    if r == 0 {
        '1'
    } else if r == 1 {
        '2'
    } else {
        '3'
    }
}

/// The letter that labels column `c`.
pub open spec fn col_label(c: int) -> char {
    if c == 0 {
        'A'
    } else if c == 1 {
        'B'
    } else {
        'C'
    }
}

/// The line of text that shows row `r`: its label, then its three tiles.
pub open spec fn rendered_row(b: Board, r: int) -> Seq<char> {
    seq![
        ' ',
        row_label(r),
        ' ',
        tile_glyph(b[r][0]),
        ' ',
        tile_glyph(b[r][1]),
        ' ',
        tile_glyph(b[r][2]),
        '\n',
    ]
}

/// The line of text above the board, which labels the columns.
pub open spec fn rendered_header() -> Seq<char> {
    seq![' ', ' ', ' ', col_label(0), ' ', col_label(1), ' ', col_label(2), '\n']
}

/// The text that shows a board: the column labels, then the three rows.
pub open spec fn rendered(b: Board) -> Seq<char> {
    rendered_header() + rendered_row(b, 0) + rendered_row(b, 1) + rendered_row(b, 2)
}

/// The labels that a rendered board shows are the ones that a move is
/// written with: a row label followed by a column label names that tile.
pub proof fn lemma_labels_name_their_tile(row: usize, col: usize)
    requires
        row < 3,
        col < 3,
    ensures
        parsed_move(seq![row_label(row as int), col_label(col as int)]) == Ok::<
            (usize, usize),
            Seq<char>,
        >((row, col)),
{
}

/// Tiles that look the same are the same: the two pieces and the empty tile
/// each have a glyph of their own.
pub proof fn lemma_glyphs_differ(a: Tile, b: Tile)
    ensures
        tile_glyph(a) == tile_glyph(b) <==> a == b,
{
}

/// The text that shows a piece.
pub fn piece_text(p: Piece) -> (text: &'static str)
    ensures
        text@ == seq![piece_glyph(p)],
{
    proof {
        reveal_strlit("x");
        reveal_strlit("o");
    }
    match p {
        Piece::X => {
            "x"
        },
        Piece::O => {
            "o"
        },
    }
}

/// The text that shows a tile.
pub fn tile_text(t: Tile) -> (text: &'static str)
    ensures
        text@ == seq![tile_glyph(t)],
{
    match t {
        Some(p) => piece_text(p),
        None => {
            proof {
                reveal_strlit("\u{25A2}");
            }
            "\u{25A2}"
        },
    }
}

/// Adds the line for one row to `text`.
fn render_row(text: &mut String, label: &str, line: &[Tile; 3])
    requires
        label@.len() == 1,
    ensures
        final(text)@ == old(text)@ + seq![
            ' ',
            label@[0],
            ' ',
            tile_glyph(line[0]),
            ' ',
            tile_glyph(line[1]),
            ' ',
            tile_glyph(line[2]),
            '\n',
        ],
{
    proof {
        reveal_strlit(" ");
        reveal_strlit("\n");
    }
    text.append(" ");
    text.append(label);
    text.append(" ");
    text.append(tile_text(line[0]));
    text.append(" ");
    text.append(tile_text(line[1]));
    text.append(" ");
    text.append(tile_text(line[2]));
    text.append("\n");
}

/// The board as text, one line for the column labels and one for each row.
pub fn render_tiles(tiles: &Tiles) -> (text: String)
    ensures
        text@ == rendered(board_of(*tiles)),
{
    proof {
        reveal_strlit("   A B C\n");
        reveal_strlit("1");
        reveal_strlit("2");
        reveal_strlit("3");
    }
    let mut text = String::from_str("   A B C\n");
    render_row(&mut text, "1", &tiles[0]);
    render_row(&mut text, "2", &tiles[1]);
    render_row(&mut text, "3", &tiles[2]);
    text
}

} // verus!
