//! What happens to the playfield: a piece is locked into it, full rows are
//! marked, and marked rows are removed.

use vstd::prelude::*;
use crate::shapes::{piece_cell, template_cell};
use crate::collision::{
    cell, field_wf, on_border, BOUNDARY, CLEARING, EMPTY, FIELD_HEIGHT, FIELD_WIDTH,
};
use crate::piece::{piece_wf, Piece};

verus! {

/// The field at the start of a game: walls and floor, nothing else.
pub open spec fn empty_field() -> Seq<char> {
    Seq::new(
        216,
        |i: int|
            if on_border(i % 12, i / 12) {
                '9'
            } else {
                '0'
            },
    )
}

/// The code that a locked cell of `shape` carries: its id plus one, as a
/// digit.
pub open spec fn lock_code(shape: int) -> char {
    if shape == 0 {
        '1'
    } else if shape == 1 {
        '2'
    } else if shape == 2 {
        '3'
    } else if shape == 3 {
        '4'
    } else if shape == 4 {
        '5'
    } else if shape == 5 {
        '6'
    } else {
        '7'
    }
}

/// Whether the cell with linear index `i` lies under a filled cell of `p`.
pub open spec fn covered(p: Piece, i: int) -> bool {
    let x = i % 12 - p.x;
    let y = i / 12 - p.y;
    0 <= x < 4 && 0 <= y < 4 && piece_cell(p.shape as int, p.rotation as int, x, y)
}

/// The field with the piece written into it.
pub open spec fn locked(field: Seq<char>, p: Piece) -> Seq<char> {
    Seq::new(
        216,
        |i: int|
            if covered(p, i) {
                lock_code(p.shape as int)
            } else {
                field[i]
            },
    )
}

/// A row is full when none of its ten inner cells is empty.
pub open spec fn row_full(field: Seq<char>, y: int) -> bool {
    forall|x: int| 1 <= x <= 10 ==> #[trigger] cell(field, x, y) != '0'
}

/// Whether row `y` is among the first `n` rows from `py` on, and above the
/// floor: the rows that are examined after a lock at row `py`.
pub open spec fn examined(py: int, n: int, y: int) -> bool {
    py <= y < py + n && y < 17
}

/// The field with each full row among the first `n` examined ones turned to
/// the clear-pending code between the walls.
pub open spec fn marked(field: Seq<char>, py: int, n: int) -> Seq<char> {
    Seq::new(
        216,
        |i: int|
            if 1 <= i % 12 <= 10 && examined(py, n, i / 12) && row_full(field, i / 12) {
                '8'
            } else {
                field[i]
            },
    )
}

/// The full rows among the first `n` examined ones, from the top down.
pub open spec fn full_rows(field: Seq<char>, py: int, n: nat) -> Seq<usize>
    decreases n,
{
    if n == 0 {
        Seq::empty()
    } else {
        let rest = full_rows(field, py, (n - 1) as nat);
        let y = py + n - 1;
        if y < 17 && row_full(field, y) {
            rest.push(y as usize)
        } else {
            rest
        }
    }
}

/// The field after row `line` is removed: between the walls every row down
/// to `line` takes the content of the row above it, and the top row is
/// emptied.
pub open spec fn collapse_line(field: Seq<char>, line: int) -> Seq<char> {
    Seq::new(
        216,
        |i: int|
            if 1 <= i % 12 <= 10 && i / 12 <= line {
                if i / 12 == 0 {
                    '0'
                } else {
                    field[i - 12]
                }
            } else {
                field[i]
            },
    )
}

/// The field after each of `lines` is removed, in the order given.
pub open spec fn collapsed(field: Seq<char>, lines: Seq<usize>) -> Seq<char>
    decreases lines.len(),
{
    if lines.len() == 0 {
        field
    } else {
        collapse_line(collapsed(field, lines.drop_last()), lines.last() as int)
    }
}

/// Pending rows are above the floor and listed from the top down, none
/// twice.
pub open spec fn lines_wf(lines: Seq<usize>) -> bool {
    &&& forall|j: int| 0 <= j < lines.len() ==> #[trigger] lines[j] < 17
    &&& forall|a: int, b: int| 0 <= a < b < lines.len() ==> #[trigger] lines[a] < #[trigger] lines[b]
}

/// The clear-pending code stands exactly in the inner cells of the pending
/// rows.
pub open spec fn marks_match(field: Seq<char>, lines: Seq<usize>) -> bool {
    forall|i: int|
        0 <= i < 216 ==> ((#[trigger] field[i]) == '8' <==> 1 <= i % 12 <= 10 && lines.contains(
            (i / 12) as usize,
        ))
}

/// Whether no cell of the field holds the clear-pending code.
pub open spec fn no_marks(field: Seq<char>) -> bool {
    forall|i: int| 0 <= i < 216 ==> #[trigger] field[i] != '8'
}

/// Builds the field of a new game.
pub fn fresh_field() -> (field: Vec<char>)
    ensures
        field@ == empty_field(),
        field_wf(field@),
        no_marks(field@),
{
    let mut field: Vec<char> = Vec::new();
    let mut i: usize = 0;
    while i < FIELD_WIDTH * FIELD_HEIGHT
        invariant
            i <= 216,
            field@.len() == i,
            forall|k: int|
                0 <= k < i ==> #[trigger] field@[k] == (if on_border(k % 12, k / 12) {
                    '9'
                } else {
                    '0'
                }),
        decreases 216 - i,
    {
        let x = i % FIELD_WIDTH;
        let y = i / FIELD_WIDTH;
        if x == 0 || x == FIELD_WIDTH - 1 || y == FIELD_HEIGHT - 1 {
            field.push(BOUNDARY);
        } else {
            field.push(EMPTY);
        }
        i += 1;
    }
    assert(field@ =~= empty_field());
    field
}

/// The digit that marks a locked cell of `shape`.
pub fn code_of(shape: usize) -> (code: char)
    requires
        shape < 7,
    ensures
        code == lock_code(shape as int),
{
    match shape {
        0 => '1',
        1 => '2',
        2 => '3',
        3 => '4',
        4 => '5',
        5 => '6',
        _ => '7',
    }
}

/// Writes the piece into the field: each cell under a filled cell of the
/// piece takes the piece's code.
pub fn stamp(field: &mut Vec<char>, p: Piece)
    requires
        field_wf(old(field)@),
        piece_wf(p),
    ensures
        final(field)@ == locked(old(field)@, p),
        field_wf(final(field)@),
        no_marks(old(field)@) ==> no_marks(final(field)@),
{
    let code = code_of(p.shape);
    let ghost f0 = field@;
    let mut x: usize = 0;
    while x < 4
        invariant
            x <= 4,
            field@.len() == 216,
            f0.len() == 216,
            piece_wf(p),
            forall|i: int|
                0 <= i < 216 ==> #[trigger] field@[i] == (if covered(p, i) && i % 12 - p.x < x {
                    code
                } else {
                    f0[i]
                }),
        decreases 4 - x,
    {
        let mut y: usize = 0;
        while y < 4
            invariant
                x < 4,
                y <= 4,
                field@.len() == 216,
                f0.len() == 216,
                piece_wf(p),
                forall|i: int|
                    0 <= i < 216 ==> #[trigger] field@[i] == (if covered(p, i) && (i % 12 - p.x < x
                        || (i % 12 - p.x == x && i / 12 - p.y < y)) {
                        code
                    } else {
                        f0[i]
                    }),
            decreases 4 - y,
        {
            if template_cell(p.shape, x, y, p.rotation) {
                field.set((p.y + y) * FIELD_WIDTH + p.x + x, code);
            }
            y += 1;
        }
        x += 1;
    }
    assert(field@ =~= locked(f0, p));
    assert forall|x: int, y: int|
        0 <= x < 12 && 0 <= y < 18 && on_border(x, y) implies #[trigger] cell(field@, x, y)
        == '9' by {
        let i = y * 12 + x;
        assert(!covered(p, i));
        assert(cell(f0, x, y) == '9');
    }
}

/// Tells whether none of the ten inner cells of row `y` is empty.
pub fn row_is_full(field: &Vec<char>, y: usize) -> (full: bool)
    requires
        field@.len() == 216,
        y < 18,
    ensures
        full == row_full(field@, y as int),
{
    let mut x: usize = 1;
    while x < FIELD_WIDTH - 1
        invariant
            1 <= x <= 11,
            y < 18,
            field@.len() == 216,
            forall|k: int| 1 <= k < x ==> #[trigger] cell(field@, k, y as int) != '0',
        decreases 11 - x,
    {
        if field[y * FIELD_WIDTH + x] == EMPTY {
            assert(cell(field@, x as int, y as int) == '0');
            return false;
        }
        x += 1;
    }
    true
}

/// Turns the ten inner cells of row `y` to the clear-pending code.
pub fn mark_row(field: &mut Vec<char>, y: usize)
    requires
        old(field)@.len() == 216,
        y < 18,
    ensures
        final(field)@.len() == 216,
        forall|i: int|
            0 <= i < 216 ==> #[trigger] final(field)@[i] == (if 1 <= i % 12 <= 10 && i / 12 == y {
                '8'
            } else {
                old(field)@[i]
            }),
{
    let ghost f0 = field@;
    let mut x: usize = 1;
    while x < FIELD_WIDTH - 1
        invariant
            1 <= x <= 11,
            y < 18,
            field@.len() == 216,
            forall|i: int|
                0 <= i < 216 ==> #[trigger] field@[i] == (if 1 <= i % 12 < x && i / 12 == y {
                    '8'
                } else {
                    f0[i]
                }),
        decreases 11 - x,
    {
        field.set(y * FIELD_WIDTH + x, CLEARING);
        x += 1;
    }
}

/// What `full_rows` lists: exactly the examined rows that are full, each
/// once, from the top down.
pub proof fn lemma_full_rows(field: Seq<char>, py: int, n: nat)
    requires
        0 <= py,
    ensures
        lines_wf(full_rows(field, py, n)),
        full_rows(field, py, n).len() <= n,
        forall|j: int|
            0 <= j < full_rows(field, py, n).len() ==> examined(
                py,
                n as int,
                #[trigger] full_rows(field, py, n)[j] as int,
            ) && row_full(field, full_rows(field, py, n)[j] as int),
        forall|y: int|
            examined(py, n as int, y) && row_full(field, y) ==> #[trigger] full_rows(
                field,
                py,
                n,
            ).contains(y as usize),
    decreases n,
{
    if n > 0 {
        lemma_full_rows(field, py, (n - 1) as nat);
        let rest = full_rows(field, py, (n - 1) as nat);
        let all = full_rows(field, py, n);
        let last = py + n - 1;
        assert forall|y: int| examined(py, n as int, y) && row_full(field, y) implies all.contains(
            y as usize,
        ) by {
            if y == last {
                assert(all[all.len() - 1] == y as usize);
            } else {
                assert(rest.contains(y as usize));
                let j = choose|j: int| 0 <= j < rest.len() && rest[j] == y as usize;
                assert(all[j] == y as usize);
            }
        }
    }
}

/// Examines the four rows from `py` on that lie above the floor, marks
/// each full one as clear-pending, and returns the marked rows from the top
/// down.
pub fn mark_lines(field: &mut Vec<char>, py: usize) -> (lines: Vec<usize>)
    requires
        field_wf(old(field)@),
        py < 18,
    ensures
        lines@ == full_rows(old(field)@, py as int, 4),
        final(field)@ == marked(old(field)@, py as int, 4),
        field_wf(final(field)@),
        lines_wf(lines@),
        lines@.len() <= 4,
        no_marks(old(field)@) ==> marks_match(final(field)@, lines@),
{
    let ghost f0 = field@;
    let mut lines: Vec<usize> = Vec::new();
    let mut y: usize = 0;
    while y < 4
        invariant
            y <= 4,
            py < 18,
            field@.len() == 216,
            field_wf(f0),
            lines@ == full_rows(f0, py as int, y as nat),
            field@ =~= marked(f0, py as int, y as int),
        decreases 4 - y,
    {
        if py + y < FIELD_HEIGHT - 1 {
            let ghost r = (py + y) as int;
            assert(row_full(field@, r) == row_full(f0, r)) by {
                assert forall|x: int|
                    #![trigger cell(field@, x, r)]
                    #![trigger cell(f0, x, r)]
                    1 <= x <= 10 implies cell(field@, x, r) == cell(f0, x, r) by {
                    let i = r * 12 + x;
                    assert(i / 12 == r);
                }
            }
            if row_is_full(field, py + y) {
                mark_row(field, py + y);
                lines.push(py + y);
            }
        }
        y += 1;
    }
    proof {
        lemma_full_rows(f0, py as int, 4);
        assert forall|x: int, y: int|
            0 <= x < 12 && 0 <= y < 18 && on_border(x, y) implies #[trigger] cell(field@, x, y)
            == '9' by {
            let i = y * 12 + x;
            assert(cell(f0, x, y) == '9');
            if y == 17 {
                assert(!examined(py as int, 4, i / 12));
            }
        }
        if no_marks(f0) {
            assert forall|i: int| 0 <= i < 216 implies ((#[trigger] field@[i]) == '8' <==> 1 <= i
                % 12 <= 10 && lines@.contains((i / 12) as usize)) by {
                if 1 <= i % 12 <= 10 && lines@.contains((i / 12) as usize) {
                    let j = choose|j: int| 0 <= j < lines@.len() && lines@[j] == (i / 12) as usize;
                    assert(examined(py as int, 4, lines@[j] as int));
                }
            }
        }
    }
    lines
}

/// Removes row `line` between the walls: each column is shifted one cell
/// down from the top to `line`, and its top cell is emptied.
pub fn collapse_row(field: &mut Vec<char>, line: usize)
    requires
        old(field)@.len() == 216,
        line < 18,
    ensures
        final(field)@ == collapse_line(old(field)@, line as int),
{
    let ghost f0 = field@;
    let mut x: usize = 1;
    while x < FIELD_WIDTH - 1
        invariant
            1 <= x <= 11,
            line < 18,
            field@.len() == 216,
            f0.len() == 216,
            forall|i: int|
                0 <= i < 216 ==> #[trigger] field@[i] == (if i % 12 < x {
                    collapse_line(f0, line as int)[i]
                } else {
                    f0[i]
                }),
        decreases 11 - x,
    {
        let mut y: usize = line;
        while y > 0
            invariant
                1 <= x < 11,
                y <= line < 18,
                field@.len() == 216,
                f0.len() == 216,
                forall|i: int|
                    0 <= i < 216 ==> #[trigger] field@[i] == (if i % 12 < x || (i % 12 == x && y
                        < i / 12 <= line) {
                        collapse_line(f0, line as int)[i]
                    } else {
                        f0[i]
                    }),
            decreases y,
        {
            let c = field[(y - 1) * FIELD_WIDTH + x];
            field.set(y * FIELD_WIDTH + x, c);
            y -= 1;
        }
        field.set(x, EMPTY);
        x += 1;
    }
    assert(field@ =~= collapse_line(f0, line as int));
}

/// Removing a row that is listed after all rows removed so far leaves the
/// field well formed, clears the clear-pending code from every row down to
/// it, and does not touch the rows below it.
proof fn lemma_collapse_step(f0: Seq<char>, lines: Seq<usize>, k: int, f: Seq<char>)
    requires
        field_wf(f0),
        lines_wf(lines),
        marks_match(f0, lines),
        0 <= k < lines.len(),
        field_wf(f),
        forall|i: int| 0 <= i < 216 && k > 0 && i / 12 <= lines[k - 1] ==> #[trigger] f[i] != '8',
        forall|i: int| 0 <= i < 216 && (k == 0 || i / 12 > lines[k - 1]) ==> #[trigger] f[i] == f0[i],
    ensures
        field_wf(collapse_line(f, lines[k] as int)),
        forall|i: int|
            0 <= i < 216 && i / 12 <= lines[k] ==> #[trigger] collapse_line(f, lines[k] as int)[i]
                != '8',
        forall|i: int|
            0 <= i < 216 && i / 12 > lines[k] ==> #[trigger] collapse_line(f, lines[k] as int)[i]
                == f0[i],
{
    let line = lines[k] as int;
    let g = collapse_line(f, line);
    assert forall|i: int| 0 <= i < 216 && i / 12 <= line implies #[trigger] g[i] != '8' by {
        if 1 <= i % 12 <= 10 {
            if i / 12 > 0 {
                let s = i - 12;
                assert(s / 12 == i / 12 - 1 && s % 12 == i % 12);
                if k > 0 && s / 12 <= lines[k - 1] {
                    assert(f[s] != '8');
                } else {
                    assert(f[s] == f0[s]);
                    if f0[s] == '8' {
                        assert(lines.contains((s / 12) as usize));
                        let j = choose|j: int| 0 <= j < lines.len() && lines[j] == (s / 12) as usize;
                        if j < k {
                            if j < k - 1 {
                                assert(lines[j] < lines[k - 1]);
                            }
                        } else if j > k {
                            assert(lines[k] < lines[j]);
                        }
                    }
                }
            }
        } else {
            assert(g[i] == f[i]);
            let x = i % 12;
            let y = i / 12;
            assert(on_border(x, y));
            assert(cell(f, x, y) == '9');
        }
    }
    assert forall|i: int| 0 <= i < 216 implies '0' <= #[trigger] g[i] <= '9' by {
        if 1 <= i % 12 <= 10 && 0 < i / 12 <= line {
            assert('0' <= f[i - 12] <= '9');
        }
    }
    assert forall|x: int, y: int|
        0 <= x < 12 && 0 <= y < 18 && on_border(x, y) implies #[trigger] cell(g, x, y) == '9' by {
        let i = y * 12 + x;
        assert(i % 12 == x && i / 12 == y);
        assert(cell(f, x, y) == '9');
    }
}

/// Removes the pending rows in the order listed. Afterwards no cell holds
/// the clear-pending code.
pub fn collapse(field: &mut Vec<char>, lines: &Vec<usize>)
    requires
        field_wf(old(field)@),
        lines_wf(lines@),
        marks_match(old(field)@, lines@),
    ensures
        final(field)@ == collapsed(old(field)@, lines@),
        field_wf(final(field)@),
        no_marks(final(field)@),
{
    let ghost f0 = field@;
    let mut k: usize = 0;
    while k < lines.len()
        invariant
            k <= lines@.len(),
            field_wf(f0),
            lines_wf(lines@),
            marks_match(f0, lines@),
            field_wf(field@),
            field@ == collapsed(f0, lines@.take(k as int)),
            forall|i: int|
                0 <= i < 216 && k > 0 && i / 12 <= lines@[k - 1] ==> #[trigger] field@[i] != '8',
            forall|i: int|
                0 <= i < 216 && (k == 0 || i / 12 > lines@[k - 1]) ==> #[trigger] field@[i]
                    == f0[i],
        decreases lines@.len() - k,
    {
        proof {
            lemma_collapse_step(f0, lines@, k as int, field@);
            assert(lines@.take(k + 1).drop_last() =~= lines@.take(k as int));
            assert(lines@.take(k + 1).last() == lines@[k as int]);
        }
        collapse_row(field, lines[k]);
        k += 1;
    }
    proof {
        assert(lines@.take(k as int) =~= lines@);
        assert forall|i: int| 0 <= i < 216 implies #[trigger] field@[i] != '8' by {
            if k == 0 || i / 12 > lines@[k - 1] {
                assert(field@[i] == f0[i]);
                if f0[i] == '8' {
                    let j = choose|j: int| 0 <= j < lines@.len() && lines@[j] == (i / 12) as usize;
                    if j < k - 1 {
                        assert(lines@[j] < lines@[k - 1]);
                    }
                }
            }
        }
    }
}

/// How many of `lines` lie below row `y`.
pub open spec fn lines_below(lines: Seq<usize>, y: int) -> nat
    decreases lines.len(),
{
    if lines.len() == 0 {
        0
    } else {
        lines_below(lines.drop_last(), y) + if lines.last() > y {
            1nat
        } else {
            0nat
        }
    }
}

/// The row in which the content of row `y` stands once `lines` are
/// removed: as many rows lower as removed rows lay below it.
pub open spec fn sunk_row(lines: Seq<usize>, y: int) -> int {
    y + lines_below(lines, y)
}

/// Rows listed from the top down, none twice, leave room above them: the
/// row at place `j` is at least `j`.
proof fn lemma_line_at_least_index(lines: Seq<usize>, j: int)
    requires
        lines_wf(lines),
        0 <= j < lines.len(),
    ensures
        lines[j] >= j,
    decreases j,
{
    if j > 0 {
        lemma_line_at_least_index(lines, j - 1);
        assert(lines[j - 1] < lines[j]);
    }
}

/// Pending rows without the last of them are pending rows still, and all
/// of them lie above the last.
proof fn lemma_shorter_lines_wf(lines: Seq<usize>)
    requires
        lines_wf(lines),
        lines.len() > 0,
    ensures
        lines_wf(lines.drop_last()),
        forall|j: int|
            0 <= j < lines.len() - 1 ==> #[trigger] lines.drop_last()[j] < lines[lines.len() - 1],
{
    let rest = lines.drop_last();
    assert forall|j: int| 0 <= j < rest.len() implies #[trigger] rest[j] < 17 by {
        assert(rest[j] == lines[j]);
    }
    assert forall|a: int, b: int| 0 <= a < b < rest.len() implies #[trigger] rest[a]
        < #[trigger] rest[b] by {
        assert(rest[a] == lines[a] && rest[b] == lines[b]);
    }
    assert forall|j: int| 0 <= j < lines.len() - 1 implies #[trigger] rest[j] < lines[lines.len()
        - 1] by {
        assert(rest[j] == lines[j]);
        assert(lines[j] < lines[lines.len() - 1]);
    }
}

/// None of `lines` lies below a row that is at or below all of them.
proof fn lemma_none_below(lines: Seq<usize>, y: int)
    requires
        forall|j: int| 0 <= j < lines.len() ==> #[trigger] lines[j] <= y,
    ensures
        lines_below(lines, y) == 0,
    decreases lines.len(),
{
    if lines.len() > 0 {
        let rest = lines.drop_last();
        assert forall|j: int| 0 <= j < rest.len() implies #[trigger] rest[j] <= y by {
            assert(rest[j] == lines[j]);
        }
        lemma_none_below(rest, y);
        assert(lines.last() == lines[lines.len() - 1]);
    }
}

/// A row sinks no further than the rows below it allow: with all `lines`
/// above row `top`, the content of a row above `top` stays above `top`.
proof fn lemma_sunk_above(lines: Seq<usize>, y: int, top: int)
    requires
        lines_wf(lines),
        forall|j: int| 0 <= j < lines.len() ==> #[trigger] lines[j] < top,
        y < top,
    ensures
        sunk_row(lines, y) < top,
    decreases lines.len(),
{
    if lines.len() > 0 {
        let rest = lines.drop_last();
        let last = lines[lines.len() - 1];
        assert(lines.last() == last);
        lemma_shorter_lines_wf(lines);
        if last > y {
            lemma_sunk_above(rest, y, last as int);
        } else {
            assert forall|j: int| 0 <= j < rest.len() implies #[trigger] rest[j] < top by {
                assert(rest[j] == lines[j]);
            }
            lemma_sunk_above(rest, y, top);
        }
    }
}

/// What removing rows comes to. Between the walls, each row that is not
/// removed sinks by the number of removed rows below it, and as many rows
/// at the top as were removed are left empty. The walls stay as they were.
pub proof fn lemma_collapse_sinks(field: Seq<char>, lines: Seq<usize>)
    requires
        field.len() == 216,
        lines_wf(lines),
    ensures
        collapsed(field, lines).len() == 216,
        forall|y: int|
            0 <= y < 18 && !lines.contains(y as usize) ==> y <= #[trigger] sunk_row(lines, y) < 18,
        forall|x: int, y: int|
            1 <= x <= 10 && 0 <= y < 18 && !lines.contains(y as usize) ==> #[trigger] cell(
                collapsed(field, lines),
                x,
                sunk_row(lines, y),
            ) == cell(field, x, y),
        forall|x: int, y: int|
            1 <= x <= 10 && 0 <= y < lines.len() ==> #[trigger] cell(
                collapsed(field, lines),
                x,
                y,
            ) == '0',
        forall|x: int, y: int|
            (x == 0 || x == 11) && 0 <= y < 18 ==> #[trigger] cell(collapsed(field, lines), x, y)
                == cell(field, x, y),
    decreases lines.len(),
{
    if lines.len() > 0 {
        let n = lines.len() as int;
        let rest = lines.drop_last();
        let last = lines[n - 1] as int;
        assert(lines.last() == last);
        lemma_shorter_lines_wf(lines);
        lemma_collapse_sinks(field, rest);
        lemma_line_at_least_index(lines, n - 1);
        let before = collapsed(field, rest);
        let after = collapsed(field, lines);
        assert(after == collapse_line(before, last));
        assert forall|y: int| 0 <= y < 18 && !lines.contains(y as usize) implies y
            <= #[trigger] sunk_row(lines, y) < 18 by {
            assert(lines[n - 1] != y as usize);
            if y < last {
                lemma_sunk_above(rest, y, last);
            } else {
                assert forall|j: int| 0 <= j < rest.len() implies #[trigger] rest[j] <= y by {}
                lemma_none_below(rest, y);
            }
        }
        assert forall|x: int, y: int|
            1 <= x <= 10 && 0 <= y < 18 && !lines.contains(y as usize) implies #[trigger] cell(
            after,
            x,
            sunk_row(lines, y),
        ) == cell(field, x, y) by {
            assert(!rest.contains(y as usize)) by {
                if rest.contains(y as usize) {
                    let j = choose|j: int| 0 <= j < rest.len() && rest[j] == y as usize;
                    assert(lines[j] == y as usize);
                }
            }
            assert(lines[n - 1] != y as usize);
            let s = sunk_row(rest, y);
            assert(cell(before, x, s) == cell(field, x, y));
            if y < last {
                lemma_sunk_above(rest, y, last);
                let i = (s + 1) * 12 + x;
                assert(i / 12 == s + 1 && i % 12 == x);
                assert(after[i] == before[i - 12]);
            } else {
                assert forall|j: int| 0 <= j < rest.len() implies #[trigger] rest[j] <= y by {}
                lemma_none_below(rest, y);
                let i = y * 12 + x;
                assert(i / 12 == y && i % 12 == x);
                assert(after[i] == before[i]);
            }
        }
        assert forall|x: int, y: int| 1 <= x <= 10 && 0 <= y < lines.len() implies #[trigger] cell(
            after,
            x,
            y,
        ) == '0' by {
            let i = y * 12 + x;
            assert(i / 12 == y && i % 12 == x);
            if y > 0 {
                assert(cell(before, x, y - 1) == '0');
                assert(after[i] == before[i - 12]);
            }
        }
        assert forall|x: int, y: int| (x == 0 || x == 11) && 0 <= y < 18 implies #[trigger] cell(
            after,
            x,
            y,
        ) == cell(field, x, y) by {
            let i = y * 12 + x;
            assert(i / 12 == y && i % 12 == x);
            assert(cell(before, x, y) == cell(field, x, y));
        }
    }
}

} // verus!
