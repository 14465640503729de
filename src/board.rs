use vstd::prelude::*;

use crate::color::{Color, Ring};
use crate::laws::lemma_empty_board;
use crate::layer::{
    first_color, first_line_color, lemma_first_color_skip, line_color, lines_winner,
    matching_color, Layer, Line, Lines, Location,
};

verus! {

/// The first of two results that is present.
pub open spec fn either(a: Option<Color>, b: Option<Color>) -> Option<Color> {
    if a is Some {
        a
    } else {
        b
    }
}

/// Line `k` composed across three layers: its first cell read from `a`, its
/// second from `b` and its third from `c`.
pub open spec fn stacked_line(a: Layer, b: Layer, c: Layer, k: int) -> Line {
    (a.spec_line(k).0, b.spec_line(k).1, c.spec_line(k).2)
}

/// The color of the first line, in scan order, of the composition of `a`, `b`
/// and `c` whose three cells hold one color.
pub open spec fn stack_winner(a: Layer, b: Layer, c: Layer) -> Option<Color> {
    first_color(Seq::new(8, |k: int| line_color(stacked_line(a, b, c, k))))
}

/// The three stacked layers of the game.
#[derive(Debug, PartialEq, Eq)]
pub struct Board {
    pub top: Layer,
    pub middle: Layer,
    pub bottom: Layer,
}

impl Board {
    /// The layer that `ring` names.
    pub open spec fn layer(self, ring: Ring) -> Layer {
        match ring {
            Ring::Top => self.top,
            Ring::Middle => self.middle,
            Ring::Bottom => self.bottom,
        }
    }

    /// The stack of three cells at linear position `i` of each layer, top first.
    pub open spec fn stack(self, i: int) -> Line {
        (self.top@[i], self.middle@[i], self.bottom@[i])
    }

    /// The color of the first position, in row-major order, whose three
    /// stacked cells hold one color.
    pub open spec fn spec_full_stack(self) -> Option<Color> {
        first_color(Seq::new(9, |i: int| line_color(self.stack(i))))
    }

    /// The first line won inside a single layer: top, then middle, then bottom.
    pub open spec fn spec_three_of_same(self) -> Option<Color> {
        either(
            lines_winner(&self.top),
            either(lines_winner(&self.middle), lines_winner(&self.bottom)),
        )
    }

    /// The first line won across the layers: downward, then upward.
    pub open spec fn spec_three_in_order(self) -> Option<Color> {
        either(
            stack_winner(self.top, self.middle, self.bottom),
            stack_winner(self.bottom, self.middle, self.top),
        )
    }

    /// The winning color, if any: a full stack first, then a line inside one
    /// layer, then a line across the layers.
    pub open spec fn spec_winner(self) -> Option<Color> {
        either(self.spec_full_stack(), either(self.spec_three_of_same(), self.spec_three_in_order()))
    }

    /// Whether all 27 cells are occupied.
    pub open spec fn spec_full(self) -> bool {
        self.top.spec_full() && self.middle.spec_full() && self.bottom.spec_full()
    }

    /// `self` is `before` with `color` written at `loc` of layer `ring`, and
    /// nothing else changed.
    pub open spec fn is_set_of(self, before: Board, ring: Ring, loc: (int, int), color: Color) -> bool {
        &&& self.layer(ring)@ == before.layer(ring)@.update(loc.1 * 3 + loc.0, Some(color))
        &&& forall|other: Ring| other != ring ==> #[trigger] self.layer(other) == before.layer(other)
    }

    /// A board made of the three given layers.
    pub fn new(top: Layer, middle: Layer, bottom: Layer) -> (r: Board)
        ensures
            r.top == top,
            r.middle == middle,
            r.bottom == bottom,
    {
        Board { top: top, middle: middle, bottom: bottom }
    }

    /// A board with all 27 cells empty.
    pub fn empty() -> (r: Board)
        ensures
            forall|ring: Ring| #[trigger] r.layer(ring)@ == Seq::new(9, |i: int| None::<Color>),
            r.spec_winner() is None,
            !r.spec_full(),
    {
        let r = Board { top: Layer::empty(), middle: Layer::empty(), bottom: Layer::empty() };
        proof {
            lemma_empty_board(r);
        }
        r
    }

    /// The winning color, if any; see `spec_winner` for the order in which the
    /// kinds of line are tried.
    pub fn winner(&self) -> (r: Option<Color>)
        ensures
            r == self.spec_winner(),
    {
        let stack = self.full_stack();
        if stack.is_some() {
            return stack;
        }
        let same = self.three_of_same();
        if same.is_some() {
            return same;
        }
        self.three_in_order()
    }

    /// The color of the first position, in row-major order, at which the
    /// three layers hold one color.
    pub fn full_stack(&self) -> (r: Option<Color>)
        ensures
            r == self.spec_full_stack(),
    {
        let ghost colors = Seq::new(9, |i: int| line_color(self.stack(i)));
        let mut i: usize = 0;
        while i < 9
            invariant
                i <= 9,
                colors == Seq::new(9, |i: int| line_color(self.stack(i))),
                forall|j: int| 0 <= j < i ==> colors[j] is None,
            decreases 9 - i,
        {
            let c = matching_color((self.top.0[i], self.middle.0[i], self.bottom.0[i]));
            if c.is_some() {
                proof {
                    lemma_first_color_skip(colors, i as int);
                    assert(colors.skip(i as int)[0] == colors[i as int]);
                }
                return c;
            }
            i += 1;
        }
        proof {
            lemma_first_color_skip(colors, 9);
            assert(colors.skip(9).len() == 0);
        }
        None
    }

    /// The first line won inside a single layer: top, then middle, then bottom.
    pub fn three_of_same(&self) -> (r: Option<Color>)
        ensures
            r == self.spec_three_of_same(),
    {
        let top = self.top.three_in_row();
        if top.is_some() {
            return top;
        }
        let middle = self.middle.three_in_row();
        if middle.is_some() {
            return middle;
        }
        self.bottom.three_in_row()
    }

    /// The first line won across the layers: every line of the downward view,
    /// then every line of the upward view.
    pub fn three_in_order(&self) -> (r: Option<Color>)
        ensures
            r == self.spec_three_in_order(),
    {
        let down = first_line_color(&self.downward_view());
        proof {
            assert(Seq::new(8, |k: int| line_color(DownwardView(self).spec_line(k))) =~= Seq::new(
                8,
                |k: int| line_color(stacked_line(self.top, self.middle, self.bottom, k)),
            ));
        }
        if down.is_some() {
            return down;
        }
        let up = first_line_color(&self.upward_view());
        proof {
            assert(Seq::new(8, |k: int| line_color(UpwardView(self).spec_line(k))) =~= Seq::new(
                8,
                |k: int| line_color(stacked_line(self.bottom, self.middle, self.top, k)),
            ));
        }
        up
    }

    /// The lines that run from the top layer down to the bottom one.
    pub fn downward_view(&self) -> (r: DownwardView<'_>)
        ensures
            r.0 == self,
    {
        DownwardView(self)
    }

    /// The lines that run from the bottom layer up to the top one.
    pub fn upward_view(&self) -> (r: UpwardView<'_>)
        ensures
            r.0 == self,
    {
        UpwardView(self)
    }

    /// Whether all 27 cells are occupied.
    pub fn full(&self) -> (r: bool)
        ensures
            r == self.spec_full(),
    {
        self.top.full() && self.middle.full() && self.bottom.full()
    }

    /// The cell at `ind` of layer `ring`.
    pub fn get_ring(&self, ind: Location, ring: Ring) -> (r: Option<Color>)
        requires
            ind.0 < 3,
            ind.1 < 3,
        ensures
            r == self.layer(ring).cell((ind.0 as int, ind.1 as int)),
    {
        let layer = match ring {
            Ring::Top => &self.top,
            Ring::Middle => &self.middle,
            Ring::Bottom => &self.bottom,
        };
        layer.get(ind)
    }

    /// Writes `color` at `ind` of layer `ring`.
    ///
    /// The cell is overwritten whatever it held: keeping an occupied cell as it
    /// is falls to the caller, who reads it with `get_ring` first.
    pub fn set_ring(&mut self, ind: Location, ring: Ring, color: Color)
        requires
            ind.0 < 3,
            ind.1 < 3,
        ensures
            final(self).is_set_of(*old(self), ring, (ind.0 as int, ind.1 as int), color),
    {
        match ring {
            Ring::Top => self.top.set(ind, color),
            Ring::Middle => self.middle.set(ind, color),
            Ring::Bottom => self.bottom.set(ind, color),
        }
    }
}

impl Default for Board {
    fn default() -> (r: Board)
        ensures
            forall|ring: Ring| #[trigger] r.layer(ring)@ == Seq::new(9, |i: int| None::<Color>),
    {
        Board::empty()
    }
}

/// The board read as lines that step down from the top layer: the first cell
/// of each line from the top layer, the second from the middle, the third from
/// the bottom.
pub struct DownwardView<'a>(pub &'a Board);

/// The board read as lines that step up from the bottom layer: the first cell
/// of each line from the bottom layer, the second from the middle, the third
/// from the top.
pub struct UpwardView<'a>(pub &'a Board);

/// A way to compose one line out of three layers.
pub trait LineAccessor {
    /// The layers that give the first, second and third cell of each line.
    spec fn layers(&self) -> (Layer, Layer, Layer);

    /// Applies `accessor` to each of the three layers and keeps the first cell
    /// of the first result, the second of the second and the third of the third.
    fn get_line_with<F>(&self, accessor: F) -> (r: Line) where F: Fn(&Layer) -> Line
        requires
            forall|l: &Layer| #[trigger] accessor.requires((l,)),
        ensures
            exists|a: Line, b: Line, c: Line|
                {
                    &&& accessor.ensures((&self.layers().0,), a)
                    &&& accessor.ensures((&self.layers().1,), b)
                    &&& accessor.ensures((&self.layers().2,), c)
                    &&& r == (a.0, b.1, c.2)
                },
    ;
}

impl<'a> LineAccessor for UpwardView<'a> {
    open spec fn layers(&self) -> (Layer, Layer, Layer) {
        (self.0.bottom, self.0.middle, self.0.top)
    }

    fn get_line_with<F>(&self, accessor: F) -> (r: Line) where F: Fn(&Layer) -> Line {
        let r = stacked_layers(&self.0.bottom, &self.0.middle, &self.0.top, accessor);
        proof {
            let (la, lb, lc) = choose|la: Line, lb: Line, lc: Line|
                {
                    &&& accessor.ensures((&self.0.bottom,), la)
                    &&& accessor.ensures((&self.0.middle,), lb)
                    &&& accessor.ensures((&self.0.top,), lc)
                    &&& r == (la.0, lb.1, lc.2)
                };
            assert(accessor.ensures((&self.layers().0,), la));
            assert(accessor.ensures((&self.layers().1,), lb));
            assert(accessor.ensures((&self.layers().2,), lc));
        }
        r
    }
}

impl<'a> LineAccessor for DownwardView<'a> {
    open spec fn layers(&self) -> (Layer, Layer, Layer) {
        (self.0.top, self.0.middle, self.0.bottom)
    }

    fn get_line_with<F>(&self, accessor: F) -> (r: Line) where F: Fn(&Layer) -> Line {
        let r = stacked_layers(&self.0.top, &self.0.middle, &self.0.bottom, accessor);
        proof {
            let (la, lb, lc) = choose|la: Line, lb: Line, lc: Line|
                {
                    &&& accessor.ensures((&self.0.top,), la)
                    &&& accessor.ensures((&self.0.middle,), lb)
                    &&& accessor.ensures((&self.0.bottom,), lc)
                    &&& r == (la.0, lb.1, lc.2)
                };
            assert(accessor.ensures((&self.layers().0,), la));
            assert(accessor.ensures((&self.layers().1,), lb));
            assert(accessor.ensures((&self.layers().2,), lc));
        }
        r
    }
}

impl<T> Lines for T where T: LineAccessor {
    open spec fn spec_line(&self, k: int) -> Line {
        stacked_line(self.layers().0, self.layers().1, self.layers().2, k)
    }

    fn row(&self, ind: usize) -> (r: Line) {
        let accessor = |l: &Layer| -> (r: Line)
            requires
                ind < 3,
            ensures
                r == l.spec_line(ind as int),
        {
            l.row(ind)
        };
        self.get_line_with(accessor)
    }

    fn column(&self, ind: usize) -> (r: Line) {
        let accessor = |l: &Layer| -> (r: Line)
            requires
                ind < 3,
            ensures
                r == l.spec_line(ind + 3),
        {
            l.column(ind)
        };
        self.get_line_with(accessor)
    }

    fn ascending(&self) -> (r: Line) {
        let accessor = |l: &Layer| -> (r: Line)
            ensures
                r == l.spec_line(7),
        {
            l.ascending()
        };
        self.get_line_with(accessor)
    }

    fn descending(&self) -> (r: Line) {
        let accessor = |l: &Layer| -> (r: Line)
            ensures
                r == l.spec_line(6),
        {
            l.descending()
        };
        self.get_line_with(accessor)
    }
}

/// Applies `accessor` to `a`, `b` and `c` and keeps the first cell of the first
/// result, the second of the second and the third of the third.
pub fn stacked_layers<F>(a: &Layer, b: &Layer, c: &Layer, accessor: F) -> (r: Line) where
    F: Fn(&Layer) -> Line,

    requires
        accessor.requires((a,)),
        accessor.requires((b,)),
        accessor.requires((c,)),
    ensures
        exists|la: Line, lb: Line, lc: Line|
            {
                &&& accessor.ensures((a,), la)
                &&& accessor.ensures((b,), lb)
                &&& accessor.ensures((c,), lc)
                &&& r == (la.0, lb.1, lc.2)
            },
{
    let la = accessor(a);
    let lb = accessor(b);
    let lc = accessor(c);
    (la.0, lb.1, lc.2)
}

} // verus!
