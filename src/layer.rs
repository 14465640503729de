use vstd::prelude::*;
use vstd::arithmetic::div_mod::{lemma_fundamental_div_mod, lemma_fundamental_div_mod_converse};

use crate::color::Color;

verus! {

/// Three cells read along one line, in the line's order.
pub type Line = (Option<Color>, Option<Color>, Option<Color>);

/// A position `(x, y)` inside a grid: `x` is the column, `y` the row.
pub type Location = (usize, usize);

/// The color of a line whose three cells all hold that same color.
pub open spec fn line_color(line: Line) -> Option<Color> {
    match line {
        (Some(a), Some(b), Some(c)) => if a == b && b == c {
            Some(a)
        } else {
            None
        },
        _ => None,
    }
}

/// Where the `i`-th cell (`i` in `0..3`) of line `k` lies in a grid.
///
/// The eight lines of a grid are numbered in the order in which they are
/// scanned: rows 0 to 2 are lines 0 to 2, columns 0 to 2 are lines 3 to 5, the
/// descending diagonal `(0,0) (1,1) (2,2)` is line 6 and the ascending
/// diagonal `(0,2) (1,1) (2,0)` is line 7.
pub open spec fn line_location(k: int, i: int) -> (int, int) {
    if k < 3 {
        (i, k)
    } else if k < 6 {
        (k - 3, i)
    } else if k == 6 {
        (i, i)
    } else {
        (i, 2 - i)
    }
}

/// The first present color of a sequence.
pub open spec fn first_color(colors: Seq<Option<Color>>) -> Option<Color>
    decreases colors.len(),
{
    if colors.len() == 0 {
        None
    } else if colors[0] is Some {
        colors[0]
    } else {
        first_color(colors.drop_first())
    }
}

/// Skipping a prefix of empty entries does not change the first present color.
pub proof fn lemma_first_color_skip(colors: Seq<Option<Color>>, k: int)
    requires
        0 <= k <= colors.len(),
        forall|j: int| 0 <= j < k ==> colors[j] is None,
    ensures
        first_color(colors) == first_color(colors.skip(k)),
    decreases k,
{
    if k == 0 {
        assert(colors.skip(0) =~= colors);
    } else {
        let rest = colors.drop_first();
        assert forall|j: int| 0 <= j < k - 1 implies rest[j] is None by {
            assert(rest[j] == colors[j + 1]);
        }
        lemma_first_color_skip(rest, k - 1);
        assert(rest.skip(k - 1) =~= colors.skip(k));
    }
}

/// The color of a line whose three cells are occupied by one color.
pub fn matching_color(line: Line) -> (r: Option<Color>)
    ensures
        r == line_color(line),
{
    match line {
        (Some(c1), Some(c2), Some(c3)) => {
            if c1 == c2 && c2 == c3 {
                Some(c1)
            } else {
                None
            }
        },
        _ => None,
    }
}

/// The value of `location_to_index`.
pub open spec fn spec_location_to_index(width: int, loc: (int, int)) -> int {
    loc.1 * width + loc.0
}

/// The linear index of `loc` in a row-major grid `width` cells wide.
pub fn location_to_index(width: usize, loc: Location) -> (r: usize)
    requires
        loc.1 * width + loc.0 <= usize::MAX,
    ensures
        r == spec_location_to_index(width as int, (loc.0 as int, loc.1 as int)),
{
    loc.1 * width + loc.0
}

/// The value of `index_to_location`.
pub open spec fn spec_index_to_location(width: int, i: int) -> (int, int) {
    (i % width, i / width)
}

/// The location of linear index `i` in a row-major grid `width` cells wide.
pub fn index_to_location(width: usize, i: usize) -> (r: Location)
    requires
        width > 0,
    ensures
        (r.0 as int, r.1 as int) == spec_index_to_location(width as int, i as int),
{
    let row = i / width;
    proof {
        lemma_fundamental_div_mod(i as int, width as int);
        assert(row * width <= i) by (nonlinear_arith)
            requires
                row == i / width,
                i == width * (i / width) + i % width,
                i % width >= 0,
        ;
    }
    let column = i - (row * width);
    (column, row)
}

/// Index and location agree both ways: a location inside the grid maps to an
/// index that maps back to it, and every index maps to a location that maps
/// back to it.
pub proof fn lemma_location_index_round_trip(width: int, x: int, y: int, i: int)
    requires
        width > 0,
        0 <= x < width,
        0 <= y,
        0 <= i,
    ensures
        spec_index_to_location(width, spec_location_to_index(width, (x, y))) == (x, y),
        spec_location_to_index(width, spec_index_to_location(width, i)) == i,
        0 <= spec_index_to_location(width, i).0 < width,
{
    lemma_fundamental_div_mod_converse(y * width + x, width, y, x);
    lemma_fundamental_div_mod(i, width);
    assert((i / width) * width == width * (i / width)) by (nonlinear_arith);
}

/// Read access to the eight lines of something shaped like a grid.
///
/// Lines are numbered in scan order, as `line_location` describes.
pub trait Lines {
    /// Line `k` as this value reads it.
    spec fn spec_line(&self, k: int) -> Line;

    /// Row `ind`, left to right.
    fn row(&self, ind: usize) -> (r: Line)
        requires
            ind < 3,
        ensures
            r == self.spec_line(ind as int),
    ;

    /// Column `ind`, top to bottom.
    fn column(&self, ind: usize) -> (r: Line)
        requires
            ind < 3,
        ensures
            r == self.spec_line(ind + 3),
    ;

    /// The diagonal from `(0,2)` to `(2,0)`.
    fn ascending(&self) -> (r: Line)
        ensures
            r == self.spec_line(7),
    ;

    /// The diagonal from `(0,0)` to `(2,2)`.
    fn descending(&self) -> (r: Line)
        ensures
            r == self.spec_line(6),
    ;
}

/// The color of the first line, in scan order, whose three cells hold one color.
pub open spec fn lines_winner<T: Lines>(lines: &T) -> Option<Color> {
    first_color(Seq::new(8, |k: int| line_color(lines.spec_line(k))))
}

/// Line `k` of `lines`, in scan order.
pub fn line_at<T: Lines>(lines: &T, k: usize) -> (r: Line)
    requires
        k < 8,
    ensures
        r == lines.spec_line(k as int),
{
    if k < 3 {
        lines.row(k)
    } else if k < 6 {
        lines.column(k - 3)
    } else if k == 6 {
        lines.descending()
    } else {
        lines.ascending()
    }
}

/// Scans the eight lines in order and returns the color of the first one whose
/// three cells hold one color.
pub fn first_line_color<T: Lines>(lines: &T) -> (r: Option<Color>)
    ensures
        r == lines_winner(lines),
{
    let ghost colors = Seq::new(8, |k: int| line_color(lines.spec_line(k)));
    let mut k: usize = 0;
    while k < 8
        invariant
            k <= 8,
            colors == Seq::new(8, |k: int| line_color(lines.spec_line(k))),
            forall|j: int| 0 <= j < k ==> colors[j] is None,
        decreases 8 - k,
    {
        let c = matching_color(line_at(lines, k));
        if c.is_some() {
            proof {
                lemma_first_color_skip(colors, k as int);
                assert(colors.skip(k as int)[0] == colors[k as int]);
            }
            return c;
        }
        k += 1;
    }
    proof {
        lemma_first_color_skip(colors, 8);
        assert(colors.skip(8).len() == 0);
    }
    None
}

/// One 3×3 grid of cells, stored row by row: cell `(x, y)` is entry `y * 3 + x`.
#[derive(Debug, Clone, Copy, PartialEq, Eq)]
pub struct Layer(pub [Option<Color>; 9]);

impl View for Layer {
    type V = Seq<Option<Color>>;

    open spec fn view(&self) -> Seq<Option<Color>> {
        self.0@
    }
}

impl Layer {
    /// The cell at `loc` (column, row).
    pub open spec fn cell(self, loc: (int, int)) -> Option<Color> {
        self@[loc.1 * 3 + loc.0]
    }

    /// Whether all nine cells are occupied.
    pub open spec fn spec_full(self) -> bool {
        forall|i: int| 0 <= i < 9 ==> #[trigger] self@[i] is Some
    }

    /// A grid holding the nine given cells, row by row.
    pub fn new(arr: [Option<Color>; 9]) -> (r: Layer)
        ensures
            r@ == arr@,
    {
        Layer(arr)
    }

    /// A grid of nine empty cells.
    pub fn empty() -> (r: Layer)
        ensures
            r@ == Seq::new(9, |i: int| None::<Color>),
    {
        let r = Layer([None, None, None, None, None, None, None, None, None]);
        assert(r@ =~= Seq::new(9, |i: int| None::<Color>));
        r
    }

    /// The nine cells, row by row.
    pub fn iter(&self) -> (r: &[Option<Color>])
        ensures
            r@ == self@,
    {
        self.0.as_slice()
    }

    /// The cell at `loc`.
    pub fn get(&self, loc: Location) -> (r: Option<Color>)
        requires
            loc.0 < 3,
            loc.1 < 3,
        ensures
            r == self.cell((loc.0 as int, loc.1 as int)),
    {
        self.0[location_to_index(3, loc)]
    }

    /// Writes `color` into the cell at `loc`, whatever it held before.
    pub fn set(&mut self, loc: Location, color: Color)
        requires
            loc.0 < 3,
            loc.1 < 3,
        ensures
            final(self)@ == old(self)@.update(loc.1 * 3 + loc.0, Some(color)),
    {
        let i = location_to_index(3, loc);
        self.0[i] = Some(color);
    }

    /// Whether all nine cells are occupied.
    pub fn full(&self) -> (r: bool)
        ensures
            r == self.spec_full(),
    {
        let mut i: usize = 0;
        while i < 9
            invariant
                i <= 9,
                forall|j: int| 0 <= j < i ==> self@[j] is Some,
            decreases 9 - i,
        {
            if self.0[i].is_none() {
                return false;
            }
            i += 1;
        }
        true
    }

    /// The color of the first line of this grid, in scan order, whose three
    /// cells hold one color.
    pub fn three_in_row(&self) -> (r: Option<Color>)
        ensures
            r == lines_winner(self),
    {
        first_line_color(self)
    }
}

impl Default for Layer {
    fn default() -> (r: Layer)
        ensures
            r@ == Seq::new(9, |i: int| None::<Color>),
    {
        Layer::empty()
    }
}

impl Lines for Layer {
    open spec fn spec_line(&self, k: int) -> Line {
        (
            self.cell(line_location(k, 0)),
            self.cell(line_location(k, 1)),
            self.cell(line_location(k, 2)),
        )
    }

    fn row(&self, ind: usize) -> (r: Line) {
        (self.get((0, ind)), self.get((1, ind)), self.get((2, ind)))
    }

    fn column(&self, ind: usize) -> (r: Line) {
        (self.get((ind, 0)), self.get((ind, 1)), self.get((ind, 2)))
    }

    fn ascending(&self) -> (r: Line) {
        (self.get((0, 2)), self.get((1, 1)), self.get((2, 0)))
    }

    fn descending(&self) -> (r: Line) {
        (self.get((0, 0)), self.get((1, 1)), self.get((2, 2)))
    }
}

} // verus!
