//! The text codec: a board is read from a string of piece letters and shown
//! as a grid of chess glyphs.

use vstd::prelude::*;
use vstd::std_specs::iter::IteratorSpec;
use vstd::string::StringExecFns;
use crate::board::{Board, Color, Field, Figure, FigureKind, Pos, on_board, board_index};

verus! {

/// The glyph that shows a piece: one of twelve, distinct for each kind and colour.
pub open spec fn glyph(figure: Figure) -> char {
    match figure.color {
        Color::W => match figure.kind {
            FigureKind::Pawn => '\u{265F}',
            FigureKind::Rook => '\u{265C}',
            FigureKind::Knight => '\u{265E}',
            FigureKind::Bishop => '\u{265D}',
            FigureKind::Queen => '\u{265B}',
            FigureKind::King => '\u{265A}',
        },
        Color::B => match figure.kind {
            FigureKind::Pawn => '\u{2659}',
            FigureKind::Rook => '\u{2656}',
            FigureKind::Knight => '\u{2658}',
            FigureKind::Bishop => '\u{2657}',
            FigureKind::Queen => '\u{2655}',
            FigureKind::King => '\u{2654}',
        },
    }
}

/// The character that shows a cell: a piece's glyph, or for an empty cell a
/// filled square on the odd squares of the checkerboard and a space on the others.
pub open spec fn cell_glyph(field: Field, odd: bool) -> char {
    match field {
        Field::Empty => if odd {
            '\u{25A0}'
        } else {
            ' '
        },
        Field::Figure(figure) => glyph(figure),
    }
}

/// The glyph of a black piece of kind `kind`.
pub fn figure_kind_black_to_char(kind: FigureKind) -> (c: char)
    ensures
        c == glyph(Figure { kind, color: Color::B }),
{
    match kind {
        FigureKind::Pawn => '\u{2659}',
        FigureKind::Rook => '\u{2656}',
        FigureKind::Knight => '\u{2658}',
        FigureKind::Bishop => '\u{2657}',
        FigureKind::Queen => '\u{2655}',
        FigureKind::King => '\u{2654}',
    }
}

/// The glyph of a white piece of kind `kind`.
pub fn figure_kind_white_to_char(kind: FigureKind) -> (c: char)
    ensures
        c == glyph(Figure { kind, color: Color::W }),
{
    match kind {
        FigureKind::Pawn => '\u{265F}',
        FigureKind::Rook => '\u{265C}',
        FigureKind::Knight => '\u{265E}',
        FigureKind::Bishop => '\u{265D}',
        FigureKind::Queen => '\u{265B}',
        FigureKind::King => '\u{265A}',
    }
}

/// The glyph of `figure`.
pub fn figure_to_char(figure: Figure) -> (c: char)
    ensures
        c == glyph(figure),
{
    match figure {
        Figure { kind, color: Color::W } => figure_kind_white_to_char(kind),
        Figure { kind, color: Color::B } => figure_kind_black_to_char(kind),
    }
}

/// The character that shows `field` on a square that is odd or not: a piece's
/// glyph, or for an empty cell a filled square if `odd` and a space if not.
pub fn field_to_char(field: Field, odd: bool) -> (c: char)
    ensures
        c == cell_glyph(field, odd),
{
    let square = '\u{25A0}';
    match field {
        Field::Empty => if odd {
            square
        } else {
            ' '
        },
        Field::Figure(f) => figure_to_char(f),
    }
}

/// The digit that labels row `y` of the rendering: ranks are counted down from
/// 8 in the top row to 1 in the bottom row.
pub open spec fn rank_label(y: int) -> char {
    ('8' as int - y) as char
}

/// The digit that labels row `y`.
fn rank_to_char(y: i32) -> (c: char)
    requires
        0 <= y < 8,
    ensures
        c == rank_label(y as int),
{
    (('8' as u8) - (y as u8)) as char
}

/// The header line of the rendering: the file letters A to H.
pub open spec fn header() -> Seq<char> {
    seq![
        ' ', ' ', ' ', 'A', ' ', 'B', ' ', 'C', ' ', 'D', ' ', 'E', ' ', 'F', ' ', 'G', ' ', 'H',
        ' ', '\n',
    ]
}

/// The square in file `x` of row `y` is an odd square of the checkerboard.
pub open spec fn is_odd_square(x: int, y: int) -> bool {
    (x + y * 9) % 2 == 1
}

/// The first `n` cells of row `y` as they are shown: for each cell a space and
/// then the cell's character.
pub open spec fn rendered_cells(b: Board, y: int, n: int) -> Seq<char>
    decreases n,
{
    if n <= 0 {
        Seq::empty()
    } else {
        rendered_cells(b, y, n - 1) + seq![
            ' ',
            cell_glyph(b.at(((n - 1) as i32, y as i32)), is_odd_square(n - 1, y)),
        ]
    }
}

/// Row `y` as it is shown: a space, the rank's digit, the eight cells and a
/// line feed.
pub open spec fn rendered_row(b: Board, y: int) -> Seq<char> {
    seq![' ', rank_label(y)] + rendered_cells(b, y, 8) + seq!['\n']
}

/// The first `n` rows as they are shown, one after the other.
pub open spec fn rendered_rows(b: Board, n: int) -> Seq<char>
    decreases n,
{
    if n <= 0 {
        Seq::empty()
    } else {
        rendered_rows(b, n - 1) + rendered_row(b, n - 1)
    }
}

/// The board as it is shown: the header line and then the eight rows, from
/// row 0, labelled 8, down to row 7, labelled 1.
pub open spec fn rendered(b: Board) -> Seq<char> {
    header() + rendered_rows(b, 8)
}

/// `String::push` appends the character to the end of the string.
pub assume_specification[ String::push ](s: &mut String, ch: char)
    ensures
        final(s)@ == old(s)@.push(ch),
;

/// Shows the board as text: a header line with the file letters, then the
/// eight rows from rank 8 down to rank 1, each with its rank's digit and, for
/// every cell, a space and the character of the cell.
pub fn board_to_string(board: Board) -> (s: String)
    ensures
        s@ == rendered(board),
{
    let mut s = String::new();
    s.append("   A B C D E F G H \n");
    proof {
        reveal_strlit("   A B C D E F G H \n");
        assert(s@ =~= header() + rendered_rows(board, 0));
    }
    for y in 0i32..8
        invariant
            s@ == header() + rendered_rows(board, y as int),
    {
        let ghost above = s@;
        s.push(' ');
        s.push(rank_to_char(y));
        assert(s@ =~= above + seq![' ', rank_label(y as int)] + rendered_cells(board, y as int, 0));
        for x in 0i32..8
            invariant
                0 <= y < 8,
                s@ == above + seq![' ', rank_label(y as int)] + rendered_cells(
                    board,
                    y as int,
                    x as int,
                ),
        {
            let odd_field = (x + y * 9) % 2 == 1;
            let field = board_index(board, (x, y));
            s.push(' ');
            s.push(field_to_char(field, odd_field));
            assert(s@ =~= above + seq![' ', rank_label(y as int)] + rendered_cells(
                board,
                y as int,
                x + 1,
            ));
        }
        s.push('\n');
        assert(s@ =~= header() + rendered_rows(board, y + 1));
    }
    s
}

/// The kind of piece that a letter stands for, in either case: P for a pawn,
/// N for a knight, R for a rook, B for a bishop, Q for a queen, K for a king.
pub open spec fn kind_of_letter(c: char) -> Option<FigureKind> {
    if c == 'P' || c == 'p' {
        Some(FigureKind::Pawn)
    } else if c == 'N' || c == 'n' {
        Some(FigureKind::Knight)
    } else if c == 'R' || c == 'r' {
        Some(FigureKind::Rook)
    } else if c == 'B' || c == 'b' {
        Some(FigureKind::Bishop)
    } else if c == 'Q' || c == 'q' {
        Some(FigureKind::Queen)
    } else if c == 'K' || c == 'k' {
        Some(FigureKind::King)
    } else {
        None
    }
}

/// The cell that a character stands for: a piece letter gives that piece,
/// white if the letter is in lower case and black if it is in upper case; any
/// other character gives an empty cell.
pub open spec fn field_of_char(c: char) -> Field {
    match kind_of_letter(c) {
        Some(kind) => Field::Figure(
            Figure {
                kind,
                color: if 'a' <= c <= 'z' {
                    Color::W
                } else {
                    Color::B
                },
            },
        ),
        None => Field::Empty,
    }
}

/// The cell at square `p` of the board that `text` stands for. The characters
/// fill the board row by row, from row 0; squares beyond the end of the text
/// are empty.
pub open spec fn parsed_cell(text: Seq<char>, p: Pos) -> Field {
    let i = p.1 * 8 + p.0;
    if i < text.len() {
        field_of_char(text[i])
    } else {
        Field::Empty
    }
}

/// The part of a text that counts: its first 64 characters, or all of it if
/// it has fewer.
pub open spec fn first_64(text: Seq<char>) -> Seq<char> {
    if text.len() <= 64 {
        text
    } else {
        text.subrange(0, 64)
    }
}

/// The board that `text` stands for, as the map from its squares to their
/// cells.
pub open spec fn parsed(text: Seq<char>) -> Map<Pos, Field> {
    Map::new(|p: Pos| on_board(p), |p: Pos| parsed_cell(text, p))
}

/// The character has the property Lowercase of the Unicode standard.
pub uninterp spec fn unicode_lowercase(c: char) -> bool;

/// `char::is_lowercase` tells whether the character has Unicode's property
/// Lowercase. Of the letters of ASCII, those from `a` to `z` have it and those
/// from `A` to `Z` do not.
pub assume_specification[ char::is_lowercase ](c: char) -> (lower: bool)
    ensures
        lower == unicode_lowercase(c),
        'a' <= c <= 'z' ==> lower,
        'A' <= c <= 'Z' ==> !lower,
;

/// The kind of piece that `c` stands for, if it is one of the piece letters in
/// either case.
pub fn figure_kind_from_char(c: char) -> (kind: Option<FigureKind>)
    ensures
        kind == kind_of_letter(c),
{
    match c {
        'P' | 'p' => Some(FigureKind::Pawn),
        'N' | 'n' => Some(FigureKind::Knight),
        'R' | 'r' => Some(FigureKind::Rook),
        'B' | 'b' => Some(FigureKind::Bishop),
        'Q' | 'q' => Some(FigureKind::Queen),
        'K' | 'k' => Some(FigureKind::King),
        _ => None,
    }
}

/// The colour that the case of `c` stands for: white for a character in lower
/// case, black for any other.
pub fn color_from_char(c: char) -> (color: Color)
    ensures
        color == (if unicode_lowercase(c) {
            Color::W
        } else {
            Color::B
        }),
        'a' <= c <= 'z' ==> color == Color::W,
        'A' <= c <= 'Z' ==> color == Color::B,
{
    if c.is_lowercase() {
        Color::W
    } else {
        Color::B
    }
}

/// The cell that `c` stands for: the piece that a piece letter names, white
/// in lower case and black in upper case, or an empty cell for any other
/// character.
pub fn field_from_char(c: char) -> (field: Field)
    ensures
        field == field_of_char(c),
{
    if let Some(kind) = figure_kind_from_char(c) {
        let color = color_from_char(c);
        Field::Figure(Figure { kind: kind, color: color })
    } else {
        Field::Empty
    }
}

/// Reads a board from text. The first 64 characters fill the board row by
/// row, from rank 0 and within a rank from file 0; characters beyond them are
/// ignored, and where the text ends early the remaining cells are empty.
pub fn board_from_str(s: &str) -> (board: Board)
    ensures
        board@ == parsed(s@),
{
    let mut fields = [[Field::Empty; 8]; 8];
    let mut chars = s.chars();
    let mut i: usize = 0;
    while i < 64
        invariant
            i <= 64,
            i <= s@.len(),
            chars.remaining() == s@.subrange(i as int, s@.len() as int),
            forall|p: Pos|
                on_board(p) ==> #[trigger] fields[p.1 as int][p.0 as int] == (if p.1 * 8 + p.0 < i {
                    field_of_char(s@[p.1 * 8 + p.0])
                } else {
                    Field::Empty
                }),
        ensures
            i == 64 || i == s@.len(),
        decreases 64 - i,
    {
        match chars.next() {
            Some(c) => {
                fields[i / 8][i % 8] = field_from_char(c);
                i = i + 1;
            },
            None => {
                break;
            },
        }
    }
    let board = Board { fields: fields };
    assert(board@ =~= parsed(s@));
    board
}

/// Only the first 64 characters of a text count: two texts that agree on
/// them stand for the same board.
pub proof fn lemma_parsed_ignores_tail(t1: Seq<char>, t2: Seq<char>)
    requires
        first_64(t1) == first_64(t2),
    ensures
        parsed(t1) == parsed(t2),
{
    assert forall|p: Pos| on_board(p) implies parsed_cell(t1, p) == parsed_cell(t2, p) by {
        let i = p.1 * 8 + p.0;
        assert(i < t1.len() <==> i < first_64(t1).len());
        assert(i < t2.len() <==> i < first_64(t2).len());
        if i < t1.len() {
            assert(t1[i] == first_64(t1)[i]);
            assert(t2[i] == first_64(t2)[i]);
        }
    }
    assert(parsed(t1) =~= parsed(t2));
}

/// The twelve glyphs are distinct, and none of them is a character that shows
/// an empty cell.
pub proof fn lemma_glyphs_distinct(f: Figure, g: Figure)
    ensures
        glyph(f) == glyph(g) ==> f == g,
        glyph(f) != ' ',
        glyph(f) != '\u{25A0}',
{
}

/// The length of the shown cells of a row, and what stands at each place.
proof fn lemma_cells_layout(b: Board, y: int, n: int, i: int)
    requires
        0 <= i < 2 * n,
    ensures
        rendered_cells(b, y, n).len() == 2 * n,
        rendered_cells(b, y, n)[i] == (if i % 2 == 0 {
            ' '
        } else {
            cell_glyph(b.at(((i / 2) as i32, y as i32)), is_odd_square(i / 2, y))
        }),
    decreases n,
{
    lemma_cells_len(b, y, n - 1);
    if i < 2 * (n - 1) {
        lemma_cells_layout(b, y, n - 1, i);
    }
}

/// The shown cells of a row take two characters each.
proof fn lemma_cells_len(b: Board, y: int, n: int)
    requires
        0 <= n,
    ensures
        rendered_cells(b, y, n).len() == 2 * n,
    decreases n,
{
    if n > 0 {
        lemma_cells_len(b, y, n - 1);
    }
}

/// The shown rows take 19 characters each.
proof fn lemma_rows_len(b: Board, n: int)
    requires
        0 <= n,
    ensures
        rendered_rows(b, n).len() == 19 * n,
    decreases n,
{
    if n > 0 {
        lemma_rows_len(b, n - 1);
        lemma_cells_len(b, n - 1, 8);
    }
}

/// Row `y` stands in the shown rows at the places from `19 * y` on.
proof fn lemma_rows_layout(b: Board, n: int, y: int, j: int)
    requires
        0 <= y < n,
        0 <= j < 19,
    ensures
        rendered_rows(b, n)[19 * y + j] == rendered_row(b, y)[j],
    decreases n,
{
    lemma_rows_len(b, n - 1);
    lemma_cells_len(b, n - 1, 8);
    if y < n - 1 {
        lemma_rows_layout(b, n - 1, y, j);
    }
}

/// Where everything stands in the rendering. It is 172 characters long: a
/// header line of 20 and eight rows of 19. The row of rank `p.1` starts with a
/// space and the rank's digit and ends with a line feed; between them the cell
/// of file `p.0` is shown by a space and then the cell's character.
pub proof fn lemma_rendered_layout(b: Board, p: Pos)
    requires
        on_board(p),
    ensures
        rendered(b).len() == 172,
        rendered(b).subrange(0, 20) == header(),
        rendered(b)[20 + 19 * p.1] == ' ',
        rendered(b)[20 + 19 * p.1 + 1] == rank_label(p.1 as int),
        rendered(b)[20 + 19 * p.1 + 2 + 2 * p.0] == ' ',
        rendered(b)[20 + 19 * p.1 + 3 + 2 * p.0] == cell_glyph(
            b.at(p),
            is_odd_square(p.0 as int, p.1 as int),
        ),
        rendered(b)[20 + 19 * p.1 + 18] == '\n',
{
    let x = p.0 as int;
    let y = p.1 as int;
    lemma_rows_len(b, 8);
    lemma_cells_len(b, y, 8);
    lemma_rows_layout(b, 8, y, 0);
    lemma_rows_layout(b, 8, y, 1);
    lemma_rows_layout(b, 8, y, 2 + 2 * x);
    lemma_rows_layout(b, 8, y, 3 + 2 * x);
    lemma_rows_layout(b, 8, y, 18);
    lemma_cells_layout(b, y, 8, 2 * x);
    lemma_cells_layout(b, y, 8, 2 * x + 1);
    assert(rendered(b).subrange(0, 20) =~= header());
}

} // verus!
