use vstd::prelude::*;

verus! {

/// Fewest rim vertices a custom shape is drawn with.
pub const MIN_SHAPE_SIDES: usize = 3;

/// Most rim vertices a custom shape is drawn with.
pub const MAX_SHAPE_SIDES: usize = 100;

/// How many sides a custom shape asking for `n` sides is drawn with: `n` held
/// between `MIN_SHAPE_SIDES` and `MAX_SHAPE_SIDES`.
pub fn shape_sides(n: usize) -> (r: usize)
    ensures
        r == (if n < MIN_SHAPE_SIDES {
            MIN_SHAPE_SIDES
        } else if n > MAX_SHAPE_SIDES {
            MAX_SHAPE_SIDES
        } else {
            n
        }),
        MIN_SHAPE_SIDES <= r <= MAX_SHAPE_SIDES,
{
    if n < MIN_SHAPE_SIDES {
        MIN_SHAPE_SIDES
    } else if n > MAX_SHAPE_SIDES {
        MAX_SHAPE_SIDES
    } else {
        n
    }
}

} // verus!
