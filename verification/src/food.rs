//! The food that the snake is after.
use vstd::prelude::*;
use crate::grid::{cell, cell_of_index};

verus! {

/// A piece of food on the grid.
#[derive(Clone, Copy, Debug)]
pub struct Food {
    pub position: (i32, i32),
}

impl View for Food {
    type V = (int, int);

    /// The cell that the food lies on.
    open spec fn view(&self) -> (int, int) {
        cell(self.position)
    }
}

impl Food {
    /// Food on the cell with number `index`, counting along the rows of a
    /// grid that is `width` columns wide: column `index % width`, row
    /// `index / width`.
    pub fn at_index(index: i32, width: u8) -> (food: Food)
        requires
            0 <= index,
            0 < width,
        ensures
            food@ == cell_of_index(index as int, width as int),
    {
        let columns: i32 = width as i32;
        Food { position: (index % columns, index / columns) }
    }
}

} // verus!
