//! What a screen shows, in plain values: headings, and tables of coloured texts.
use vstd::prelude::*;

verus! {

/// A colour of the terminal.
#[derive(Debug, Clone, Copy, PartialEq, Eq, Structural)]
pub enum Color {
    Blue,
    DarkGray,
    LightGreen,
    LightRed,
    LightYellow,
    White,
    Yellow,
}

/// How much room a column or an area gets.
#[derive(Debug, Clone, Copy, PartialEq, Eq, Structural)]
pub enum Room {
    /// As much as this.
    Length(u16),
    /// At least this.
    Min(u16),
    /// At most this.
    Max(u16),
    /// What is left, in this share.
    Fill(u16),
}

/// Where in its line a text stands.
#[derive(Debug, Clone, Copy, PartialEq, Eq, Structural)]
pub enum Alignment {
    Left,
    Center,
    Right,
}

/// A line of text above, below or on the border of what it names.
#[derive(Debug)]
pub struct Heading {
    pub text: String,
    pub bold: bool,
    pub alignment: Alignment,
}

/// A heading with its text as a sequence.
pub struct HeadingView {
    pub text: Seq<char>,
    pub bold: bool,
    pub alignment: Alignment,
}

impl View for Heading {
    type V = HeadingView;

    open spec fn view(&self) -> HeadingView {
        HeadingView { text: self.text@, bold: self.bold, alignment: self.alignment }
    }
}

/// A text in one colour, or in the colour of the terminal.
#[derive(Debug)]
pub struct Piece {
    pub text: String,
    pub color: Option<Color>,
}

/// A piece with its text as a sequence.
pub struct PieceView {
    pub text: Seq<char>,
    pub color: Option<Color>,
}

impl View for Piece {
    type V = PieceView;

    open spec fn view(&self) -> PieceView {
        PieceView { text: self.text@, color: self.color }
    }
}

/// A piece of text in a colour.
pub open spec fn colored(text: Seq<char>, color: Color) -> PieceView {
    PieceView { text, color: Some(color) }
}

/// A piece of text in the colour of the terminal.
pub open spec fn plain(text: Seq<char>) -> PieceView {
    PieceView { text, color: None }
}

/// The pieces of a cell, one behind the other.
pub open spec fn cell_view(cell: Seq<Piece>) -> Seq<PieceView> {
    cell.map_values(|piece: Piece| piece@)
}

/// The cells of a row.
pub open spec fn row_view(row: Seq<Vec<Piece>>) -> Seq<Seq<PieceView>> {
    row.map_values(|cell: Vec<Piece>| cell_view(cell@))
}

/// The rows of a table.
pub open spec fn rows_view(rows: Seq<Vec<Vec<Piece>>>) -> Seq<Seq<Seq<PieceView>>> {
    rows.map_values(|row: Vec<Vec<Piece>>| row_view(row@))
}

/// A table: its rows, the room of its columns, and how the selected row is
/// marked: by a symbol in front of it and by the colour behind it. The column of
/// the symbol may be kept even while no row is selected.
#[derive(Debug)]
pub struct Table {
    pub rows: Vec<Vec<Vec<Piece>>>,
    pub widths: Vec<Room>,
    pub highlight_symbol: String,
    pub highlight_column_kept: bool,
    pub highlight_color: Color,
}

/// A table with its rows as sequences.
#[verifier::ext_equal]
pub struct TableView {
    pub rows: Seq<Seq<Seq<PieceView>>>,
    pub widths: Seq<Room>,
    pub highlight_symbol: Seq<char>,
    pub highlight_column_kept: bool,
    pub highlight_color: Color,
}

impl View for Table {
    type V = TableView;

    open spec fn view(&self) -> TableView {
        TableView {
            rows: rows_view(self.rows@),
            widths: self.widths@,
            highlight_symbol: self.highlight_symbol@,
            highlight_column_kept: self.highlight_column_kept,
            highlight_color: self.highlight_color,
        }
    }
}

/// A piece of text in a colour.
pub(crate) fn color_piece(text: String, color: Color) -> (r: Piece)
    ensures
        r@ == colored(text@, color),
{
    Piece { text, color: Some(color) }
}

/// A piece of text in the colour of the terminal.
pub(crate) fn plain_piece(text: String) -> (r: Piece)
    ensures
        r@ == plain(text@),
{
    Piece { text, color: None }
}

/// A cell of one piece.
pub(crate) fn cell(piece: Piece) -> (r: Vec<Piece>)
    ensures
        cell_view(r@) == seq![piece@],
{
    let r: Vec<Piece> = vec![piece];
    assert(cell_view(r@) =~= seq![piece@]);
    r
}

/// A row of two cells.
pub(crate) fn row_of_two(first: Vec<Piece>, second: Vec<Piece>) -> (r: Vec<Vec<Piece>>)
    ensures
        row_view(r@) == seq![cell_view(first@), cell_view(second@)],
{
    let r: Vec<Vec<Piece>> = vec![first, second];
    assert(row_view(r@) =~= seq![cell_view(first@), cell_view(second@)]);
    r
}

/// What a table shows is seen as it is: every piece of every cell of every row, in
/// its place.
pub proof fn law_table_is_seen_whole(table: Table, i: int, j: int, k: int)
    requires
        0 <= i < table.rows@.len(),
        0 <= j < table.rows@[i]@.len(),
        0 <= k < table.rows@[i]@[j]@.len(),
    ensures
        table@.rows.len() == table.rows@.len(),
        table@.rows[i].len() == table.rows@[i]@.len(),
        table@.rows[i][j].len() == table.rows@[i]@[j]@.len(),
        table@.rows[i][j][k].text == table.rows@[i]@[j]@[k].text@,
        table@.rows[i][j][k].color == table.rows@[i]@[j]@[k].color,
        table@.widths == table.widths@,
        table@.highlight_symbol == table.highlight_symbol@,
        table@.highlight_column_kept == table.highlight_column_kept,
        table@.highlight_color == table.highlight_color,
{
}

/// A row by itself and a heading are seen as they are.
pub proof fn law_row_and_heading_are_seen_whole(
    row: Seq<Vec<Piece>>,
    j: int,
    k: int,
    heading: Heading,
)
    requires
        0 <= j < row.len(),
        0 <= k < row[j]@.len(),
    ensures
        row_view(row).len() == row.len(),
        row_view(row)[j].len() == row[j]@.len(),
        row_view(row)[j][k].text == row[j]@[k].text@,
        row_view(row)[j][k].color == row[j]@[k].color,
        heading@.text == heading.text@,
        heading@.bold == heading.bold,
        heading@.alignment == heading.alignment,
{
}

} // verus!
