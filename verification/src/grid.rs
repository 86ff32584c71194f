//! Cells of a rectangular grid and their numbering, row by row.
use vstd::prelude::*;
use vstd::arithmetic::div_mod::{
    lemma_fundamental_div_mod,
    lemma_fundamental_div_mod_converse,
    lemma_mod_pos_bound,
    lemma_multiply_divide_lt,
};
use vstd::set_lib::{lemma_int_range, lemma_len_subset, set_int_range};

verus! {

/// A cell as the contracts see it: column and row, as unbounded integers.
pub open spec fn cell(position: (i32, i32)) -> (int, int) {
    (position.0 as int, position.1 as int)
}

/// Whether `cell` lies on a grid of `width` columns and `height` rows.
pub open spec fn in_grid(cell: (int, int), width: int, height: int) -> bool {
    0 <= cell.0 < width && 0 <= cell.1 < height
}

/// The cell with number `index`, counting along the rows of a grid that is
/// `width` columns wide.
pub open spec fn cell_of_index(index: int, width: int) -> (int, int) {
    (index % width, index / width)
}

/// The number of `cell` in that count.
pub open spec fn index_of_cell(cell: (int, int), width: int) -> int {
    cell.1 * width + cell.0
}

/// Every number below `width * height` names a cell of the grid, and the
/// cell's number is that number again.
pub proof fn lemma_cell_of_index(index: int, width: int, height: int)
    requires
        0 < width,
        0 <= index < width * height,
    ensures
        in_grid(cell_of_index(index, width), width, height),
        index_of_cell(cell_of_index(index, width), width) == index,
{
    lemma_fundamental_div_mod(index, width);
    lemma_mod_pos_bound(index, width);
    lemma_multiply_divide_lt(index, width, height);
    assert(width * (index / width) == (index / width) * width) by (nonlinear_arith);
}

/// Every cell of the grid has a number below `width * height`, and the cell
/// with that number is that cell again.
pub proof fn lemma_index_of_cell(cell: (int, int), width: int, height: int)
    requires
        in_grid(cell, width, height),
    ensures
        0 <= index_of_cell(cell, width) < width * height,
        cell_of_index(index_of_cell(cell, width), width) == cell,
{
    let index = index_of_cell(cell, width);
    assert(0 <= cell.1 * width && cell.1 * width + width <= width * height)
        by (nonlinear_arith)
        requires
            0 <= cell.1 < height,
            0 < width,
    ;
    lemma_fundamental_div_mod_converse(index, width, cell.1, cell.0);
}

/// Cells of the grid that are pairwise different are at most as many as the
/// grid has cells.
pub proof fn lemma_distinct_cells_fit(cells: Seq<(int, int)>, width: int, height: int)
    requires
        0 <= width,
        0 <= height,
        cells.no_duplicates(),
        forall|i: int| 0 <= i < cells.len() ==> in_grid(#[trigger] cells[i], width, height),
    ensures
        cells.len() <= width * height,
{
    let numbers = cells.map_values(|c: (int, int)| index_of_cell(c, width));
    let all = set_int_range(0, width * height);
    assert(0 <= width * height) by (nonlinear_arith)
        requires
            0 <= width,
            0 <= height,
    ;
    assert forall|i: int| 0 <= i < numbers.len() implies all.contains(#[trigger] numbers[i]) by {
        lemma_index_of_cell(cells[i], width, height);
    }
    assert forall|i: int, j: int|
        0 <= i < numbers.len() && 0 <= j < numbers.len() && i != j implies numbers[i]
        != numbers[j] by {
        lemma_index_of_cell(cells[i], width, height);
        lemma_index_of_cell(cells[j], width, height);
    }
    numbers.unique_seq_to_set();
    lemma_int_range(0, width * height);
    lemma_len_subset(numbers.to_set(), all);
}

} // verus!
