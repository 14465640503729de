use vstd::prelude::*;

verus! {

/// The color of a player's token.
#[derive(Debug, Clone, Copy, PartialEq, Eq, Structural)]
pub enum Color {
    Blue,
    Green,
    Red,
    Yellow,
}

/// One of the three stacked layers of the board.
#[derive(Debug, Clone, Copy, PartialEq, Eq, Structural)]
pub enum Ring {
    Top,
    Middle,
    Bottom,
}

/// The order in which colors take turns: Blue, Green, Red, Yellow, then Blue again.
pub open spec fn spec_next_color(color: Color) -> Color {
    match color {
        Color::Blue => Color::Green,
        Color::Green => Color::Red,
        Color::Red => Color::Yellow,
        Color::Yellow => Color::Blue,
    }
}

/// The color whose turn follows that of `color`.
pub fn next_color(color: Color) -> (r: Color)
    ensures
        r == spec_next_color(color),
{
    match color {
        Color::Blue => Color::Green,
        Color::Green => Color::Red,
        Color::Red => Color::Yellow,
        Color::Yellow => Color::Blue,
    }
}

} // verus!
