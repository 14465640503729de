use vstd::prelude::*;

use crate::board::Board;
use crate::color::{next_color, spec_next_color, Color, Ring};
use crate::layer::Location;

verus! {

/// The color that opens every game.
pub const STARTING_COLOR: Color = Color::Blue;

/// Why a placement was refused.
#[derive(Debug, Clone, Copy, PartialEq, Eq, Structural)]
pub enum PlaceError {
    /// The game already has a winner.
    GameOver,
    /// The chosen cell already holds a token.
    AlreadyOccupied,
}

/// A game in progress: the board and the color whose turn it is.
#[derive(Debug)]
pub struct Game {
    pub board: Board,
    pub current: Color,
}

impl Game {
    /// A new game: an empty board, with Blue to play.
    pub fn new() -> (r: Game)
        ensures
            forall|ring: Ring| #[trigger] r.board.layer(ring)@ == Seq::new(9, |i: int| None::<Color>),
            r.board.spec_winner() is None,
            r.current == STARTING_COLOR,
    {
        Game { board: Board::empty(), current: STARTING_COLOR }
    }

    /// Places a token of the current color at `ind` of layer `ring`.
    ///
    /// A game that has a winner takes no more tokens, and an occupied cell is
    /// never overwritten: both leave the game as it was. Otherwise the token is
    /// placed, the turn passes to the next color, and the result is the winner
    /// of the new board, if any.
    pub fn place(&mut self, ind: Location, ring: Ring) -> (r: Result<Option<Color>, PlaceError>)
        requires
            ind.0 < 3,
            ind.1 < 3,
        ensures
            old(self).board.spec_winner() is Some ==> r == Err::<Option<Color>, PlaceError>(
                PlaceError::GameOver,
            ) && *final(self) == *old(self),
            old(self).board.spec_winner() is None && old(self).board.layer(ring).cell(
                (ind.0 as int, ind.1 as int),
            ) is Some ==> r == Err::<Option<Color>, PlaceError>(PlaceError::AlreadyOccupied)
                && *final(self) == *old(self),
            old(self).board.spec_winner() is None && old(self).board.layer(ring).cell(
                (ind.0 as int, ind.1 as int),
            ) is None ==> {
                &&& final(self).board.is_set_of(
                    old(self).board,
                    ring,
                    (ind.0 as int, ind.1 as int),
                    old(self).current,
                )
                &&& final(self).current == spec_next_color(old(self).current)
                &&& r == Ok::<Option<Color>, PlaceError>(final(self).board.spec_winner())
            },
    {
        if self.board.winner().is_some() {
            return Err(PlaceError::GameOver);
        }
        if self.board.get_ring(ind, ring).is_some() {
            return Err(PlaceError::AlreadyOccupied);
        }
        let color = self.current;
        self.board.set_ring(ind, ring, color);
        self.current = next_color(color);
        Ok(self.board.winner())
    }
}

} // verus!
