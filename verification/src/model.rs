//! The game as a mathematical state machine.
//!
//! Cells are pairs of unbounded integers and the body is a sequence, head
//! first. The executable types of `snake` and `game` are viewed as these
//! values, and their contracts are stated over the functions below.
use vstd::prelude::*;
use crate::direction::{Direction, Key};
use crate::grid::in_grid;

verus! {

/// A snake: the cells of its body, head first, and its heading.
pub struct SnakeModel {
    pub body: Seq<(int, int)>,
    pub heading: Direction,
}

impl SnakeModel {
    /// The snake at the start of a game.
    pub open spec fn initial() -> SnakeModel {
        SnakeModel { body: seq![(5int, 5int), (4int, 5int)], heading: Direction::Right }
    }

    /// The foremost segment.
    pub open spec fn head(self) -> (int, int)
        recommends
            self.body.len() > 0,
    {
        self.body[0]
    }

    /// The heading once an accepted turn, if there is one, has taken effect.
    pub open spec fn heading_after(self, turn: Option<Direction>) -> Direction {
        match turn {
            Some(direction) => direction,
            None => self.heading,
        }
    }

    /// The cell that the head moves to on the next step.
    pub open spec fn next_head(self, turn: Option<Direction>) -> (int, int) {
        self.heading_after(turn).step(self.head())
    }

    /// Whether the next step takes the head onto `food`.
    pub open spec fn reaches(self, food: (int, int), turn: Option<Direction>) -> bool {
        self.next_head(turn) == food
    }

    /// The snake one step later: the new head is put in front, and the last
    /// segment leaves unless the head has come upon `food`.
    pub open spec fn advance(self, food: (int, int), turn: Option<Direction>) -> SnakeModel {
        let head = self.next_head(turn);
        SnakeModel {
            body: if self.reaches(food, turn) {
                seq![head] + self.body
            } else {
                seq![head] + self.body.drop_last()
            },
            heading: self.heading_after(turn),
        }
    }

    /// Whether the head lies on another segment of the body.
    pub open spec fn bites_itself(self) -> bool {
        exists|i: int| 1 <= i < self.body.len() && #[trigger] self.body[i] == self.head()
    }

    /// Whether the head has left a grid of `width` columns and `height` rows.
    pub open spec fn outside(self, width: int, height: int) -> bool {
        !in_grid(self.head(), width, height)
    }

    /// Whether every segment lies on the grid.
    pub open spec fn within(self, width: int, height: int) -> bool {
        forall|i: int| 0 <= i < self.body.len() ==> in_grid(#[trigger] self.body[i], width, height)
    }
}

/// A game: the grid, the snake, the food, the turn accepted since the last
/// tick, and the score.
pub struct State {
    pub width: int,
    pub height: int,
    pub snake: SnakeModel,
    pub food: (int, int),
    pub pending: Option<Direction>,
    pub score: nat,
}

impl State {
    /// A new game on a grid of `width` columns and `height` rows, with the
    /// first food at `food`.
    pub open spec fn initial(width: int, height: int, food: (int, int)) -> State {
        State { width, height, snake: SnakeModel::initial(), food, pending: None, score: 0 }
    }

    /// Whether a press of `key` changes the heading at the next tick: no
    /// turn has been accepted since the last tick, and the key asks for a
    /// heading that is neither the current one nor its opposite.
    pub open spec fn accepts(self, key: Key) -> bool {
        self.pending is None && self.snake.heading.spec_turn(key) is Some
    }

    /// The game after a press of `key`.
    pub open spec fn press(self, key: Key) -> State {
        if self.accepts(key) {
            State { pending: self.snake.heading.spec_turn(key), ..self }
        } else {
            self
        }
    }

    /// Whether the next tick takes the head onto the food.
    pub open spec fn eats_next(self) -> bool {
        self.snake.reaches(self.food, self.pending)
    }

    /// The game one tick later. Where the snake eats, the score grows by one
    /// and the next food lies at `refill`; otherwise `refill` plays no part.
    pub open spec fn tick(self, refill: (int, int)) -> State {
        State {
            snake: self.snake.advance(self.food, self.pending),
            food: if self.eats_next() {
                refill
            } else {
                self.food
            },
            pending: None,
            score: if self.eats_next() {
                self.score + 1
            } else {
                self.score
            },
            ..self
        }
    }

    /// Whether the game is over: the snake has run into itself or off the
    /// grid.
    pub open spec fn lost(self) -> bool {
        self.snake.bites_itself() || self.snake.outside(self.width, self.height)
    }

    /// What holds of every game, in play or lost: the grid has cells and
    /// the food lies on one; the snake has its two first segments and one
    /// more for each point; a pending turn is to the left or right of the
    /// heading; and while the game is in play the snake lies on the grid
    /// without crossing itself.
    pub open spec fn inv(self) -> bool {
        &&& 0 < self.width
        &&& 0 < self.height
        &&& in_grid(self.food, self.width, self.height)
        &&& self.snake.body.len() == self.score + 2
        &&& self.pending matches Some(turn) ==> turn != self.snake.heading && turn
            != self.snake.heading.opposite()
        &&& !self.lost() ==> self.snake.body.no_duplicates() && self.snake.within(
            self.width,
            self.height,
        )
    }

    /// A new game meets the invariant.
    pub proof fn lemma_initial_inv(width: int, height: int, food: (int, int))
        requires
            0 < width,
            0 < height,
            in_grid(food, width, height),
        ensures
            State::initial(width, height, food).inv(),
    {
    }

    /// A key press keeps the invariant, moves nothing on the grid, and leaves
    /// a lost game lost.
    pub proof fn lemma_press_inv(self, key: Key)
        requires
            self.inv(),
        ensures
            self.press(key).inv(),
            self.press(key).lost() == self.lost(),
    {
    }

    /// A tick of a game in play keeps the invariant.
    pub proof fn lemma_tick_inv(self, refill: (int, int))
        requires
            self.inv(),
            !self.lost(),
            in_grid(refill, self.width, self.height),
        ensures
            self.tick(refill).inv(),
    {
        let next = self.tick(refill);
        let old_body = self.snake.body;
        let new_body = next.snake.body;
        if !next.lost() {
            assert forall|i: int| 0 <= i < new_body.len() implies in_grid(
                #[trigger] new_body[i],
                self.width,
                self.height,
            ) by {
                if i > 0 {
                    assert(new_body[i] == old_body[i - 1]);
                }
            }
            assert forall|i: int, j: int|
                0 <= i < new_body.len() && 0 <= j < new_body.len() && i != j implies new_body[i]
                != new_body[j] by {
                if i > 0 && j > 0 {
                    assert(new_body[i] == old_body[i - 1]);
                    assert(new_body[j] == old_body[j - 1]);
                }
            }
        }
    }
}

} // verus!
