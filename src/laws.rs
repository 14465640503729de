use vstd::prelude::*;

use crate::board::{stacked_line, stack_winner, Board};
use crate::color::{Color, Ring};
use crate::layer::{
    first_color, lemma_first_color_skip, line_color, line_location, lines_winner, Layer, Lines,
};

verus! {

/// The linear index of a location `(x, y)` of a 3×3 grid.
pub open spec fn grid_index(loc: (int, int)) -> int {
    loc.1 * 3 + loc.0
}

/// `l` holds `c` at index `i` and nothing anywhere else.
pub open spec fn holds_only(l: Layer, i: int, c: Color) -> bool {
    forall|j: int| 0 <= j < 9 ==> #[trigger] l@[j] == if j == i {
        Some(c)
    } else {
        None
    }
}

/// The first present color is that of the first entry that holds one.
pub proof fn lemma_first_color_at(colors: Seq<Option<Color>>, k: int)
    requires
        0 <= k < colors.len(),
        forall|j: int| 0 <= j < k ==> colors[j] is None,
        colors[k] is Some,
    ensures
        first_color(colors) == colors[k],
{
    lemma_first_color_skip(colors, k);
    assert(colors.skip(k)[0] == colors[k]);
}

/// A sequence with no present entry has no first color.
pub proof fn lemma_first_color_none(colors: Seq<Option<Color>>)
    requires
        forall|j: int| 0 <= j < colors.len() ==> colors[j] is None,
    ensures
        first_color(colors) is None,
{
    lemma_first_color_skip(colors, colors.len() as int);
    assert(colors.skip(colors.len() as int).len() == 0);
}

/// A board with every cell empty has no winner and is not full.
pub proof fn lemma_empty_board(b: Board)
    requires
        b.top@ == Seq::new(9, |i: int| None::<Color>),
        b.middle@ == Seq::new(9, |i: int| None::<Color>),
        b.bottom@ == Seq::new(9, |i: int| None::<Color>),
    ensures
        b.spec_winner() is None,
        !b.spec_full(),
{
    assert(b.top@[0] is None);
    assert forall|ring: Ring, k: int| 0 <= k < 8 implies line_color(
        #[trigger] b.layer(ring).spec_line(k),
    ) is None by {
        lemma_line_cells(k);
    }
    assert forall|k: int| 0 <= k < 8 implies line_color(
        #[trigger] stacked_line(b.top, b.middle, b.bottom, k),
    ) is None by {
        lemma_line_cells(k);
    }
    assert forall|k: int| 0 <= k < 8 implies line_color(
        #[trigger] stacked_line(b.bottom, b.middle, b.top, k),
    ) is None by {
        lemma_line_cells(k);
    }
    lemma_no_line_no_winner(b);
}

/// The three cells of a line are three distinct cells of the grid.
proof fn lemma_line_cells(k: int)
    requires
        0 <= k < 8,
    ensures
        forall|i: int| 0 <= i < 3 ==> 0 <= #[trigger] grid_index(line_location(k, i)) < 9,
        grid_index(line_location(k, 0)) != grid_index(line_location(k, 1)),
        grid_index(line_location(k, 0)) != grid_index(line_location(k, 2)),
        grid_index(line_location(k, 1)) != grid_index(line_location(k, 2)),
{
}

/// A line of a grid with one occupied cell holds no color.
proof fn lemma_single_cell_no_line(l: Layer, i: int, c: Color)
    requires
        holds_only(l, i, c),
    ensures
        lines_winner(&l) is None,
{
    let colors = Seq::new(8, |k: int| line_color(l.spec_line(k)));
    assert forall|k: int| 0 <= k < colors.len() implies colors[k] is None by {
        lemma_line_cells(k);
        assert(l.cell(line_location(k, 0)) == l@[grid_index(line_location(k, 0))]);
        assert(l.cell(line_location(k, 1)) == l@[grid_index(line_location(k, 1))]);
        assert(l.cell(line_location(k, 2)) == l@[grid_index(line_location(k, 2))]);
    }
    lemma_first_color_none(colors);
}

/// Full-stack rule: a board whose only tokens are three of one color stacked at
/// one position of the three layers is won by that color.
pub proof fn lemma_full_stack_wins(b: Board, x: int, y: int, c: Color)
    requires
        0 <= x < 3,
        0 <= y < 3,
        holds_only(b.top, grid_index((x, y)), c),
        holds_only(b.middle, grid_index((x, y)), c),
        holds_only(b.bottom, grid_index((x, y)), c),
    ensures
        b.spec_winner() == Some(c),
{
    let p = grid_index((x, y));
    let colors = Seq::new(9, |i: int| line_color(b.stack(i)));
    assert(colors[p] == Some(c));
    lemma_first_color_at(colors, p);
}

/// Cross-layer rule, downward: a board whose only tokens are the first cell of
/// line `k` in the top layer, its second cell in the middle layer and its third
/// cell in the bottom layer, all of one color, is won by that color.
pub proof fn lemma_downward_staircase_wins(b: Board, k: int, c: Color)
    requires
        0 <= k < 8,
        holds_only(b.top, grid_index(line_location(k, 0)), c),
        holds_only(b.middle, grid_index(line_location(k, 1)), c),
        holds_only(b.bottom, grid_index(line_location(k, 2)), c),
    ensures
        b.spec_winner() == Some(c),
{
    lemma_line_cells(k);
    lemma_staircase_no_stack(b, k, c, b.top, b.bottom);
    lemma_single_cell_no_line(b.top, grid_index(line_location(k, 0)), c);
    lemma_single_cell_no_line(b.middle, grid_index(line_location(k, 1)), c);
    lemma_single_cell_no_line(b.bottom, grid_index(line_location(k, 2)), c);
    let down = Seq::new(8, |j: int| line_color(stacked_line(b.top, b.middle, b.bottom, j)));
    assert forall|j: int| 0 <= j < k implies down[j] is None by {
        lemma_line_cells(j);
    }
    assert(down[k] == Some(c));
    lemma_first_color_at(down, k);
}

/// Cross-layer rule, upward: a board whose only tokens are the first cell of
/// line `k` in the bottom layer, its second cell in the middle layer and its
/// third cell in the top layer, all of one color, is won by that color.
pub proof fn lemma_upward_staircase_wins(b: Board, k: int, c: Color)
    requires
        0 <= k < 8,
        holds_only(b.bottom, grid_index(line_location(k, 0)), c),
        holds_only(b.middle, grid_index(line_location(k, 1)), c),
        holds_only(b.top, grid_index(line_location(k, 2)), c),
    ensures
        b.spec_winner() == Some(c),
{
    lemma_line_cells(k);
    lemma_staircase_no_stack(b, k, c, b.bottom, b.top);
    lemma_single_cell_no_line(b.bottom, grid_index(line_location(k, 0)), c);
    lemma_single_cell_no_line(b.middle, grid_index(line_location(k, 1)), c);
    lemma_single_cell_no_line(b.top, grid_index(line_location(k, 2)), c);
    let down = Seq::new(8, |j: int| line_color(stacked_line(b.top, b.middle, b.bottom, j)));
    assert forall|j: int| 0 <= j < 8 implies down[j] is None by {
        lemma_line_cells(j);
    }
    lemma_first_color_none(down);
    let up = Seq::new(8, |j: int| line_color(stacked_line(b.bottom, b.middle, b.top, j)));
    assert forall|j: int| 0 <= j < k implies up[j] is None by {
        lemma_line_cells(j);
    }
    assert(up[k] == Some(c));
    lemma_first_color_at(up, k);
}

/// With the first and last cell of a staircase in the outer layers `first` and
/// `last`, no position holds a full stack.
proof fn lemma_staircase_no_stack(b: Board, k: int, c: Color, first: Layer, last: Layer)
    requires
        0 <= k < 8,
        (first == b.top && last == b.bottom) || (first == b.bottom && last == b.top),
        holds_only(first, grid_index(line_location(k, 0)), c),
        holds_only(last, grid_index(line_location(k, 2)), c),
    ensures
        b.spec_full_stack() is None,
{
    lemma_line_cells(k);
    let colors = Seq::new(9, |i: int| line_color(b.stack(i)));
    assert forall|i: int| 0 <= i < colors.len() implies colors[i] is None by {
        assert(first@[i] is None || last@[i] is None);
    }
    lemma_first_color_none(colors);
}

/// A board on which no position, no line of a layer and no line across the
/// layers holds three of one color has no winner; if all its cells are
/// occupied, it is a drawn game.
pub proof fn lemma_no_line_no_winner(b: Board)
    requires
        forall|i: int| 0 <= i < 9 ==> line_color(#[trigger] b.stack(i)) is None,
        forall|ring: Ring, k: int|
            0 <= k < 8 ==> line_color(#[trigger] b.layer(ring).spec_line(k)) is None,
        forall|k: int|
            0 <= k < 8 ==> line_color(#[trigger] stacked_line(b.top, b.middle, b.bottom, k))
                is None,
        forall|k: int|
            0 <= k < 8 ==> line_color(#[trigger] stacked_line(b.bottom, b.middle, b.top, k))
                is None,
    ensures
        b.spec_winner() is None,
        b.spec_full() ==> b.spec_full() && b.spec_winner() is None,
{
    lemma_first_color_none(Seq::new(9, |i: int| line_color(b.stack(i))));
    assert forall|ring: Ring| lines_winner(&#[trigger] b.layer(ring)) is None by {
        let l = b.layer(ring);
        let colors = Seq::new(8, |k: int| line_color(l.spec_line(k)));
        assert forall|k: int| 0 <= k < colors.len() implies colors[k] is None by {
            assert(line_color(b.layer(ring).spec_line(k)) is None);
        }
        lemma_first_color_none(colors);
    }
    assert(lines_winner(&b.layer(Ring::Top)) is None);
    assert(lines_winner(&b.layer(Ring::Middle)) is None);
    assert(lines_winner(&b.layer(Ring::Bottom)) is None);
    lemma_first_color_none(
        Seq::new(8, |k: int| line_color(stacked_line(b.top, b.middle, b.bottom, k))),
    );
    lemma_first_color_none(
        Seq::new(8, |k: int| line_color(stacked_line(b.bottom, b.middle, b.top, k))),
    );
    assert(stack_winner(b.top, b.middle, b.bottom) is None);
    assert(stack_winner(b.bottom, b.middle, b.top) is None);
}

/// The winner depends on the board alone: asking twice of one board, with no
/// write in between, gives the same answer.
pub proof fn lemma_winner_repeatable(a: Board, b: Board)
    requires
        a == b,
    ensures
        a.spec_winner() == b.spec_winner(),
{
}

/// A write is read back: after `set_ring` the cell holds the color written,
/// every other cell of that layer is as it was, and so are the other layers.
pub proof fn lemma_set_then_get(before: Board, after: Board, ring: Ring, x: int, y: int, c: Color)
    requires
        0 <= x < 3,
        0 <= y < 3,
        after.is_set_of(before, ring, (x, y), c),
    ensures
        after.layer(ring).cell((x, y)) == Some(c),
        forall|x2: int, y2: int|
            0 <= x2 < 3 && 0 <= y2 < 3 && (x2, y2) != (x, y) ==> #[trigger] after.layer(
                ring,
            ).cell((x2, y2)) == before.layer(ring).cell((x2, y2)),
        forall|other: Ring| other != ring ==> #[trigger] after.layer(other) == before.layer(other),
{
}

} // verus!
