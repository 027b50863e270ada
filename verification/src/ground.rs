//! The tiling of the ground.
//!
//! The ground is a chequerboard of square tiles. A tile is named by two
//! whole numbers, its column and its row, and the sum of the two decides
//! which of the two colours it has.

use vstd::prelude::*;

verus! {

/// Whether the tile in `column` and `row` is one of those whose two numbers
/// have an odd sum.
pub open spec fn is_odd_tile(column: int, row: int) -> bool {
    (column + row) % 2 == 1
}

/// Tells the two colours of the chequerboard apart: `true` for the tiles
/// whose column and row have an odd sum, `false` for the others.
pub fn odd_tile(column: i32, row: i32) -> (odd: bool)
    ensures
        odd == is_odd_tile(column as int, row as int),
{
    let sum: i64 = column as i64 + row as i64;
    assert(sum & 1 == sum % 2) by (bit_vector);
    sum & 1 == 1
}

} // verus!
