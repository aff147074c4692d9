//! The frame: a 50×25 buffer of characters that shows the field, the
//! falling piece, the score and the title.

use vstd::prelude::*;
use vstd::string::*;
use crate::shapes::{piece_cell, template_cell};
use crate::collision::{cell, FIELD_HEIGHT, FIELD_WIDTH};
use crate::piece::Piece;
use crate::board::{code_of, lock_code};

verus! {

/// Columns of the frame.
pub const SCREEN_WIDTH: usize = 50;

/// Rows of the frame.
pub const SCREEN_HEIGHT: usize = 25;

/// Columns and rows between the frame's corner and the field's.
pub const FIELD_OFFSET: usize = 2;

/// Buffer position of the score line.
pub const SCORE_POS: usize = 66;

/// Buffer position of the title.
pub const TITLE_POS: usize = 5;

/// The character that shows a cell code: a space for an empty cell, `A` to
/// `G` for the seven shapes, `=` for a row about to go, `#` for the border.
pub open spec fn glyph(code: char) -> char {
    if code == '0' {
        ' '
    } else if code == '1' {
        'A'
    } else if code == '2' {
        'B'
    } else if code == '3' {
        'C'
    } else if code == '4' {
        'D'
    } else if code == '5' {
        'E'
    } else if code == '6' {
        'F'
    } else if code == '7' {
        'G'
    } else if code == '8' {
        '='
    } else {
        '#'
    }
}

/// The frame with the field drawn into it, two columns and two rows in.
pub open spec fn with_field(screen: Seq<char>, field: Seq<char>) -> Seq<char> {
    Seq::new(
        1250,
        |k: int|
            {
                let x = k % 50 - 2;
                let y = k / 50 - 2;
                if 0 <= x < 12 && 0 <= y < 18 {
                    glyph(cell(field, x, y))
                } else {
                    screen[k]
                }
            },
    )
}

/// The frame with the piece drawn over it, in the glyph of its shape.
pub open spec fn with_piece(screen: Seq<char>, p: Piece) -> Seq<char> {
    Seq::new(
        1250,
        |k: int|
            {
                let x = k % 50 - 2 - p.x;
                let y = k / 50 - 2 - p.y;
                if 0 <= x < 4 && 0 <= y < 4 && piece_cell(p.shape as int, p.rotation as int, x, y) {
                    glyph(lock_code(p.shape as int))
                } else {
                    screen[k]
                }
            },
    )
}

/// The buffer with `text` written over it from `pos` on.
pub open spec fn with_text(buffer: Seq<char>, pos: int, text: Seq<char>) -> Seq<char> {
    Seq::new(
        buffer.len(),
        |k: int|
            if pos <= k < pos + text.len() {
                text[k - pos]
            } else {
                buffer[k]
            },
    )
}

/// The decimal digit for `d`.
pub open spec fn digit(d: nat) -> char {
    if d == 0 {
        '0'
    } else if d == 1 {
        '1'
    } else if d == 2 {
        '2'
    } else if d == 3 {
        '3'
    } else if d == 4 {
        '4'
    } else if d == 5 {
        '5'
    } else if d == 6 {
        '6'
    } else if d == 7 {
        '7'
    } else if d == 8 {
        '8'
    } else {
        '9'
    }
}

/// The decimal numeral of `n`, without leading zeros.
pub open spec fn decimal(n: nat) -> Seq<char>
    decreases n,
{
    if n < 10 {
        seq![digit(n)]
    } else {
        decimal(n / 10).push(digit(n % 10))
    }
}

/// The label of the score line.
pub open spec fn score_label() -> Seq<char> {
    seq!['S', 'c', 'o', 'r', 'e', ':', ' ', ' ']
}

/// The title.
pub open spec fn title() -> Seq<char> {
    seq!['T', 'E', 'T', 'R', 'I', 'S', '!']
}

/// The frame as text: its rows one after another, a line break after
/// each.
pub open spec fn laid_out(screen: Seq<char>) -> Seq<char> {
    Seq::new(
        1275,
        |k: int|
            if k % 51 == 50 {
                '\n'
            } else {
                screen[(k / 51) * 50 + k % 51]
            },
    )
}

/// A frame of spaces.
pub fn blank_screen() -> (screen: Vec<char>)
    ensures
        screen@ == Seq::new(1250, |k: int| ' '),
{
    let mut screen: Vec<char> = Vec::new();
    let mut k: usize = 0;
    while k < SCREEN_WIDTH * SCREEN_HEIGHT
        invariant
            k <= 1250,
            screen@.len() == k,
            forall|j: int| 0 <= j < k ==> #[trigger] screen@[j] == ' ',
        decreases 1250 - k,
    {
        screen.push(' ');
        k += 1;
    }
    assert(screen@ =~= Seq::new(1250, |k: int| ' '));
    screen
}

/// The character that shows a cell code.
pub fn glyph_of(code: char) -> (c: char)
    ensures
        c == glyph(code),
{
    if code == '0' {
        ' '
    } else if code == '1' {
        'A'
    } else if code == '2' {
        'B'
    } else if code == '3' {
        'C'
    } else if code == '4' {
        'D'
    } else if code == '5' {
        'E'
    } else if code == '6' {
        'F'
    } else if code == '7' {
        'G'
    } else if code == '8' {
        '='
    } else {
        '#'
    }
}

/// The character that shows the cell of `field` at column `x`, row `y`.
pub fn sprite(x: usize, y: usize, field: &[char]) -> (c: char)
    requires
        x < 12,
        y < 18,
        field@.len() == 216,
    ensures
        c == glyph(cell(field@, x as int, y as int)),
{
    glyph_of(field[y * FIELD_WIDTH + x])
}

/// Writes `text` into `buffer` from `pos` on, one character per place.
pub fn print(pos: usize, text: &str, buffer: &mut Vec<char>)
    requires
        pos + text@.len() <= old(buffer)@.len(),
    ensures
        final(buffer)@ == with_text(old(buffer)@, pos as int, text@),
{
    let ghost b0 = buffer@;
    let n = text.unicode_len();
    let size = buffer.len();
    let mut offset: usize = 0;
    while offset < n
        invariant
            offset <= n,
            n == text@.len(),
            pos + n <= size,
            size == b0.len(),
            buffer@.len() == b0.len(),
            forall|k: int|
                0 <= k < b0.len() ==> #[trigger] buffer@[k] == (if pos <= k < pos + offset {
                    text@[k - pos]
                } else {
                    b0[k]
                }),
        decreases n - offset,
    {
        let s = text.get_char(offset);
        buffer.set(pos + offset, s);
        offset += 1;
    }
    assert(buffer@ =~= with_text(b0, pos as int, text@));
}

/// Draws the field into the frame.
pub fn draw_field(field: &[char], screen: &mut Vec<char>)
    requires
        field@.len() == 216,
        old(screen)@.len() == 1250,
    ensures
        final(screen)@ == with_field(old(screen)@, field@),
{
    let ghost s0 = screen@;
    let mut x: usize = 0;
    while x < FIELD_WIDTH
        invariant
            x <= 12,
            field@.len() == 216,
            screen@.len() == 1250,
            forall|k: int|
                0 <= k < 1250 ==> #[trigger] screen@[k] == (if k % 50 - 2 < x {
                    with_field(s0, field@)[k]
                } else {
                    s0[k]
                }),
        decreases 12 - x,
    {
        let mut y: usize = 0;
        while y < FIELD_HEIGHT
            invariant
                x < 12,
                y <= 18,
                field@.len() == 216,
                screen@.len() == 1250,
                forall|k: int|
                    0 <= k < 1250 ==> #[trigger] screen@[k] == (if k % 50 - 2 < x || (k % 50 - 2
                        == x && k / 50 - 2 < y) {
                        with_field(s0, field@)[k]
                    } else {
                        s0[k]
                    }),
            decreases 18 - y,
        {
            let c = sprite(x, y, field);
            screen.set((y + FIELD_OFFSET) * SCREEN_WIDTH + (x + FIELD_OFFSET), c);
            y += 1;
        }
        x += 1;
    }
    assert(screen@ =~= with_field(s0, field@));
}

/// Draws the piece over the frame.
pub fn draw_piece(p: Piece, screen: &mut Vec<char>)
    requires
        p.shape < 7,
        p.x < 12,
        p.y < 18,
        old(screen)@.len() == 1250,
    ensures
        final(screen)@ == with_piece(old(screen)@, p),
{
    let ghost s0 = screen@;
    let c = glyph_of(code_of(p.shape));
    let mut x: usize = 0;
    while x < 4
        invariant
            x <= 4,
            p.x < 12,
            p.y < 18,
            screen@.len() == 1250,
            c == glyph(lock_code(p.shape as int)),
            forall|k: int|
                0 <= k < 1250 ==> #[trigger] screen@[k] == (if k % 50 - 2 - p.x < x {
                    with_piece(s0, p)[k]
                } else {
                    s0[k]
                }),
        decreases 4 - x,
    {
        let mut y: usize = 0;
        while y < 4
            invariant
                x < 4,
                y <= 4,
                p.x < 12,
                p.y < 18,
                screen@.len() == 1250,
                c == glyph(lock_code(p.shape as int)),
                forall|k: int|
                    0 <= k < 1250 ==> #[trigger] screen@[k] == (if k % 50 - 2 - p.x < x || (k % 50
                        - 2 - p.x == x && k / 50 - 2 - p.y < y) {
                        with_piece(s0, p)[k]
                    } else {
                        s0[k]
                    }),
            decreases 4 - y,
        {
            if template_cell(p.shape, x, y, p.rotation) {
                screen.set((p.y + y + FIELD_OFFSET) * SCREEN_WIDTH + p.x + x + FIELD_OFFSET, c);
            }
            y += 1;
        }
        x += 1;
    }
    assert(screen@ =~= with_piece(s0, p));
}

/// The one-character text of a decimal digit.
pub fn digit_text(d: u64) -> (text: &'static str)
    requires
        d < 10,
    ensures
        text@ == seq![digit(d as nat)],
{
    let text = match d {
        0 => "0",
        1 => "1",
        2 => "2",
        3 => "3",
        4 => "4",
        5 => "5",
        6 => "6",
        7 => "7",
        8 => "8",
        _ => "9",
    };
    proof {
        reveal_strlit("0");
        reveal_strlit("1");
        reveal_strlit("2");
        reveal_strlit("3");
        reveal_strlit("4");
        reveal_strlit("5");
        reveal_strlit("6");
        reveal_strlit("7");
        reveal_strlit("8");
        reveal_strlit("9");
        assert(text@ =~= seq![digit(d as nat)]);
    }
    text
}

/// The decimal numeral of `n`.
pub fn decimal_text(n: u64) -> (text: String)
    ensures
        text@ == decimal(n as nat),
    decreases n,
{
    if n < 10 {
        digit_text(n).to_owned()
    } else {
        let mut text = decimal_text(n / 10);
        text.append(digit_text(n % 10));
        assert(text@ =~= decimal(n as nat));
        text
    }
}

/// The score line: the label `Score:  ` and the score in decimal.
pub fn score_text(score: u64) -> (text: String)
    ensures
        text@ == score_label() + decimal(score as nat),
{
    let mut text = "Score:  ".to_owned();
    proof {
        reveal_strlit("Score:  ");
        assert(text@ =~= score_label());
    }
    let number = decimal_text(score);
    text.append(number.as_str());
    text
}

/// The title text.
pub fn title_text() -> (text: &'static str)
    ensures
        text@ == title(),
{
    let text = "TETRIS!";
    proof {
        reveal_strlit("TETRIS!");
        assert(text@ =~= title());
    }
    text
}

/// Lays the frame out as text, with a line break after every row of fifty
/// characters.
pub fn lay_out(screen: &Vec<char>) -> (text: Vec<char>)
    requires
        screen@.len() == 1250,
    ensures
        text@ == laid_out(screen@),
{
    let mut text: Vec<char> = Vec::new();
    let mut row: usize = 0;
    while row < SCREEN_HEIGHT
        invariant
            row <= 25,
            screen@.len() == 1250,
            text@.len() == row * 51,
            forall|k: int| 0 <= k < row * 51 ==> #[trigger] text@[k] == laid_out(screen@)[k],
        decreases 25 - row,
    {
        let mut column: usize = 0;
        while column < SCREEN_WIDTH
            invariant
                row < 25,
                column <= 50,
                screen@.len() == 1250,
                text@.len() == row * 51 + column,
                forall|k: int|
                    0 <= k < row * 51 + column ==> #[trigger] text@[k] == laid_out(screen@)[k],
            decreases 50 - column,
        {
            text.push(screen[row * SCREEN_WIDTH + column]);
            column += 1;
        }
        text.push('\n');
        row += 1;
    }
    assert(text@ =~= laid_out(screen@));
    text
}

} // verus!
