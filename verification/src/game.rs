//! The simulation: a snake, its food and the score on a grid of fixed size.
use rand::Rng;
use vstd::prelude::*;
use crate::direction::{Direction, Key};
use crate::food::Food;
use crate::grid::{in_grid, lemma_cell_of_index, lemma_distinct_cells_fit};
use crate::model::State;
use crate::snake::Snake;

verus! {

/// A game of Snake. `size` holds the grid's columns and rows,
/// `pending_direction` the turn accepted since the last tick.
#[derive(Debug)]
pub struct Game {
    pub size: (u8, u8),
    pub snake: Snake,
    pub food: Food,
    pub pending_direction: Option<Direction>,
    pub score: u32,
}

impl View for Game {
    type V = State;

    open spec fn view(&self) -> State {
        State {
            width: self.size.0 as int,
            height: self.size.1 as int,
            snake: self.snake@,
            food: self.food@,
            pending: self.pending_direction,
            score: self.score as nat,
        }
    }
}

/// Draws a number with `rand`'s `Rng::gen_range(0, bound)` from the
/// generator that `rand::thread_rng` hands out. Not proved: that the number
/// is at least 0 and below `bound`, which is the half-open range that
/// `gen_range` documents. `gen_range` panics unless its range is non-empty,
/// hence the precondition. Nothing is claimed of how the numbers are spread.
#[verifier::external_body]
fn random_index(bound: i32) -> (index: i32)
    requires
        0 < bound,
    ensures
        0 <= index < bound,
{
    rand::thread_rng().gen_range(0, bound)
}

impl Game {
    /// Whether this is a game as play leaves it: the model's invariant
    /// holds of it. `new` gives such a game, and `pressed`, `update` and
    /// `generate_food` keep it one.
    pub open spec fn wf(&self) -> bool {
        self@.inv()
    }

    /// A new game on a grid of `size.0` columns and `size.1` rows: the snake
    /// in its starting place, no points, and food on some cell of the grid.
    pub fn new(size: (u8, u8)) -> (game: Game)
        requires
            size.0 > 0,
            size.1 > 0,
        ensures
            game.wf(),
            game@ == State::initial(size.0 as int, size.1 as int, game@.food),
    {
        let mut game = Game {
            size,
            snake: Snake::new(),
            food: Food { position: (0, 0) },
            pending_direction: None,
            score: 0,
        };
        game.generate_food();
        game
    }

    /// Advances a game in play by one tick and tells whether it goes on: a
    /// lost game is not advanced. The snake moves as the model's `tick`
    /// says; where it ate, the food that lies on the grid afterwards is the
    /// newly drawn one.
    pub fn update(&mut self) -> (alive: bool)
        requires
            old(self).wf(),
            !old(self)@.lost(),
        ensures
            final(self).wf(),
            final(self)@ == old(self)@.tick(final(self)@.food),
            alive == !final(self)@.lost(),
    {
        proof {
            let before = self@;
            lemma_distinct_cells_fit(before.snake.body, before.width, before.height);
            assert(before.width * before.height <= 255 * 255) by (nonlinear_arith)
                requires
                    0 < before.width <= 255,
                    0 < before.height <= 255,
            ;
        }
        self.snake.update(&self.food, self.pending_direction);
        if self.snake.is_eating(&self.food) {
            self.generate_food();
            self.score += 1;
        }
        self.pending_direction = None;
        proof {
            old(self)@.lemma_tick_inv(self@.food);
        }
        !self.is_loosing()
    }

    /// Takes a key press. The first arrow key since the last tick that asks
    /// for a heading other than the current one and its opposite is kept as
    /// the turn for the next tick; every other press changes nothing.
    pub fn pressed(&mut self, key: Key)
        ensures
            final(self)@ == old(self)@.press(key),
            old(self).wf() ==> final(self).wf(),
    {
        if self.pending_direction.is_some() {
            return;
        }
        if let Some(direction) = self.snake.direction.turn(key) {
            self.pending_direction = Some(direction);
        }
        proof {
            if old(self).wf() {
                old(self)@.lemma_press_inv(key);
            }
        }
    }

    /// Puts the food on a cell of the grid drawn at random, and changes
    /// nothing else. The cell may lie under the snake.
    pub fn generate_food(&mut self)
        requires
            old(self).size.0 > 0,
            old(self).size.1 > 0,
        ensures
            in_grid(final(self)@.food, old(self)@.width, old(self)@.height),
            final(self)@ == (State { food: final(self)@.food, ..old(self)@ }),
            old(self).wf() ==> final(self).wf(),
    {
        let (width, height) = self.size;
        assert(0 < width * height <= 255 * 255) by (nonlinear_arith)
            requires
                0 < width <= 255,
                0 < height <= 255,
        ;
        let index: i32 = random_index(width as i32 * height as i32);
        self.food = Food::at_index(index, width);
        proof {
            lemma_cell_of_index(index as int, width as int, height as int);
        }
    }

    /// Whether the game is over: the snake has run into itself or off the
    /// grid.
    pub fn is_loosing(&self) -> (lost: bool)
        requires
            self.snake.wf(),
        ensures
            lost == self@.lost(),
    {
        self.snake.is_eating_itself() || self.snake.is_out_of_bounds(self.size)
    }
}

} // verus!
