//! The snake: a body of grid cells, head first, that creeps one cell per
//! step.
use std::collections::VecDeque;
use vstd::prelude::*;
use crate::direction::Direction;
use crate::food::Food;
use crate::grid::cell;
use crate::model::SnakeModel;

verus! {

/// The snake's body, head first, and its heading.
#[derive(Debug)]
pub struct Snake {
    pub body: VecDeque<(i32, i32)>,
    pub direction: Direction,
}

impl View for Snake {
    type V = SnakeModel;

    open spec fn view(&self) -> SnakeModel {
        SnakeModel {
            body: self.body@.map_values(|position: (i32, i32)| cell(position)),
            heading: self.direction,
        }
    }
}

/// Whether both coordinates of `cell` fit the machine integers that hold a
/// position.
pub open spec fn representable(cell: (int, int)) -> bool {
    i32::MIN <= cell.0 <= i32::MAX && i32::MIN <= cell.1 <= i32::MAX
}

impl Snake {
    /// Whether the snake has a body. `new` gives such a snake and `update`
    /// keeps it one.
    pub open spec fn wf(&self) -> bool {
        self@.body.len() >= 1
    }

    /// The snake at the start of a game: two segments, the head on (5, 5),
    /// heading right.
    pub fn new() -> (snake: Snake)
        ensures
            snake.wf(),
            snake@ == SnakeModel::initial(),
    {
        let mut body: VecDeque<(i32, i32)> = VecDeque::new();
        body.push_front((5, 5));
        body.push_back((4, 5));
        let snake = Snake { body, direction: Direction::Right };
        assert(snake@.body =~= SnakeModel::initial().body);
        snake
    }

    /// The foremost segment.
    pub fn head(&self) -> (head: &(i32, i32))
        requires
            self.wf(),
        ensures
            cell(*head) == self@.head(),
    {
        &self.body[0]
    }

    /// Moves the snake one step: an accepted turn becomes the heading, the
    /// head enters the next cell in that heading, and the last segment
    /// leaves unless the head has come upon the food.
    pub fn update(&mut self, food: &Food, new_direction: Option<Direction>)
        requires
            old(self).wf(),
            representable(old(self)@.next_head(new_direction)),
        ensures
            final(self).wf(),
            final(self)@ == old(self)@.advance(food@, new_direction),
    {
        if let Some(direction) = new_direction {
            self.direction = direction;
        }
        let mut new_head: (i32, i32) = *self.head();
        match self.direction {
            Direction::Left => new_head.0 -= 1,
            Direction::Right => new_head.0 += 1,
            Direction::Up => new_head.1 -= 1,
            Direction::Down => new_head.1 += 1,
        }
        self.body.push_front(new_head);
        if !self.is_eating(food) {
            self.body.pop_back();
        }
        assert(self@.body =~= old(self)@.advance(food@, new_direction).body);
    }

    /// Whether the head lies on the food.
    pub fn is_eating(&self, food: &Food) -> (eating: bool)
        requires
            self.wf(),
        ensures
            eating == (self@.head() == food@),
    {
        let head: &(i32, i32) = self.head();
        head.0 == food.position.0 && head.1 == food.position.1
    }

    /// Whether the head lies on another segment of the body.
    pub fn is_eating_itself(&self) -> (bitten: bool)
        requires
            self.wf(),
        ensures
            bitten == self@.bites_itself(),
    {
        let head: (i32, i32) = *self.head();
        let mut i: usize = 1;
        while i < self.body.len()
            invariant
                1 <= i,
                self.wf(),
                cell(head) == self@.head(),
                forall|j: int| 1 <= j < i && j < self@.body.len() ==> self@.body[j] != self@.head(),
            decreases self.body.len() - i,
        {
            let ring: (i32, i32) = self.body[i];
            if ring.0 == head.0 && ring.1 == head.1 {
                assert(self@.body[i as int] == self@.head());
                return true;
            }
            i += 1;
        }
        false
    }

    /// Whether the head has left a grid of `bounds.0` columns and
    /// `bounds.1` rows.
    pub fn is_out_of_bounds(&self, bounds: (u8, u8)) -> (outside: bool)
        requires
            self.wf(),
        ensures
            outside == self@.outside(bounds.0 as int, bounds.1 as int),
    {
        let width: i32 = bounds.0 as i32;
        let height: i32 = bounds.1 as i32;
        let head: (i32, i32) = *self.head();
        head.0 < 0 || head.0 >= width || head.1 < 0 || head.1 >= height
    }
}

} // verus!
