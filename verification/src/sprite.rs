//! The 5 by 5 sprite of an icon.
//!
//! A sprite is mirrored left to right, so a source decides 15 of its 25
//! cells: the middle column and the two columns to its left. One symbol of the
//! source is drawn for each, and an even symbol paints the cell.

use vstd::prelude::*;
use crate::nibbler::{nibbles, Nibbler};

verus! {

/// Which draw decides the cell in column `col` of row `row`. The middle
/// column is drawn first, from the top row down, then the column to its left,
/// and the outermost column last; a column right of the middle shares the
/// draws of its mirror image.
pub open spec fn draw_index(col: int, row: int) -> int {
    let half = if col <= 2 {
        col
    } else {
        4 - col
    };
    (2 - half) * 5 + row
}

/// Whether the cell in column `col` of row `row` is painted: its draw exists
/// and the symbol drawn is even. A source that runs out of symbols leaves the
/// remaining cells unpainted.
pub open spec fn cell(source: Seq<u8>, col: int, row: int) -> bool {
    let draw = draw_index(col, row);
    draw < nibbles(source).len() && nibbles(source)[draw] % 2 == 0
}

/// The sprite of `source`, row by row.
pub open spec fn sprite(source: Seq<u8>) -> Seq<bool> {
    Seq::new(25, |i: int| cell(source, i % 5, i / 5))
}

/// The cell in column `col` of row `row` of a grid that is laid out row by
/// row.
pub open spec fn grid_cell(grid: Seq<bool>, col: int, row: int) -> bool {
    grid[row * 5 + col]
}

/// Whether a grid is its own mirror image: in every row the cell in column
/// `col` equals the cell in column `4 - col`.
pub open spec fn mirrored(grid: Seq<bool>) -> bool {
    forall|col: int, row: int|
        0 <= col < 5 && 0 <= row < 5 ==> #[trigger] grid_cell(grid, col, row) == grid_cell(
            grid,
            4 - col,
            row,
        )
}

/// The sprite holds, at the place of each cell, what `cell` says of it.
pub proof fn lemma_sprite_cell(source: Seq<u8>, col: int, row: int)
    requires
        0 <= col < 5,
        0 <= row < 5,
    ensures
        grid_cell(sprite(source), col, row) == cell(source, col, row),
{
    let i = row * 5 + col;
    assert(0 <= i < 25);
    assert(i % 5 == col && i / 5 == row);
}

/// Every sprite is its own mirror image, whatever the source.
pub proof fn lemma_sprite_mirrored(source: Seq<u8>)
    ensures
        mirrored(sprite(source)),
{
    assert forall|col: int, row: int| 0 <= col < 5 && 0 <= row < 5 implies #[trigger] grid_cell(
        sprite(source),
        col,
        row,
    ) == grid_cell(sprite(source), 4 - col, row) by {
        lemma_sprite_cell(source, col, row);
        lemma_sprite_cell(source, 4 - col, row);
        assert(draw_index(col, row) == draw_index(4 - col, row));
    }
}

/// Draws the sprite of `source`.
pub fn pixels(source: &[u8]) -> (grid: [bool; 25])
    ensures
        grid@ == sprite(source@),
        mirrored(grid@),
{
    let mut nibbler = Nibbler::new(source);
    let mut grid = [false;25];
    let ghost all = nibbles(source@);
    let mut done: usize = 0;
    while done < 3
        invariant
            done <= 3,
            all == nibbles(source@),
            nibbler@ =~= if 5 * done <= all.len() {
                all.skip(5 * done)
            } else {
                Seq::empty()
            },
            forall|c: int, r: int|
                0 <= r < 5 && 2 - done < c < 2 + done ==> grid@[r * 5 + c] == cell(source@, c, r),
        decreases 3 - done,
    {
        let col: usize = 2 - done;
        let mirror_col: usize = 4 - col;
        let mut row: usize = 0;
        while row < 5
            invariant
                done < 3,
                row <= 5,
                col == 2 - done,
                mirror_col == 4 - col,
                all == nibbles(source@),
                nibbler@ =~= if 5 * done + row <= all.len() {
                    all.skip(5 * done + row)
                } else {
                    Seq::empty()
                },
                forall|c: int, r: int|
                    0 <= r < 5 && 2 - done < c < 2 + done ==> grid@[r * 5 + c] == cell(
                        source@,
                        c,
                        r,
                    ),
                forall|r: int|
                    0 <= r < row ==> grid@[r * 5 + col] == cell(source@, col as int, r) && grid@[r
                        * 5 + mirror_col] == cell(source@, mirror_col as int, r),
            decreases 5 - row,
        {
            let ix: usize = col + row * 5;
            let mirror_ix: usize = mirror_col + row * 5;
            let paint = match nibbler.next() {
                Some(nibble) => nibble % 2 == 0,
                None => false,
            };
            assert(paint == cell(source@, col as int, row as int));
            assert(paint == cell(source@, mirror_col as int, row as int));
            grid[ix] = paint;
            grid[mirror_ix] = paint;
            row = row + 1;
        }
        done = done + 1;
    }
    assert(grid@ =~= sprite(source@));
    proof {
        lemma_sprite_mirrored(source@);
    }
    grid
}

} // verus!
