//! The triangle fan that fills a light's visibility polygon.
use vstd::prelude::*;

verus! {

/// Largest number of polygon points a light mesh is built from: vertex `n`
/// must have a `u32` index, and so must `n + 1` as the count runs past it.
pub const MAX_FAN_POINTS: u32 = 4294967294;

/// The indices of the fan: vertex 0 is the light, vertices `1..=n` the
/// polygon's points in order; an initial `[0, 1, 2]`, then `[0, i, i - 1]`
/// for each point `i` from 2 to `n`.
pub open spec fn fan_indices(n: nat) -> Seq<u32>
    decreases n,
{
    if n <= 1 {
        seq![0u32, 1u32, 2u32]
    } else {
        fan_indices((n - 1) as nat) + seq![0u32, n as u32, (n - 1) as u32]
    }
}

/// The index list of the triangle fan over a polygon of `n` points.
pub fn triangle_fan_indices(n: u32) -> (r: Vec<u32>)
    requires
        n <= MAX_FAN_POINTS,
    ensures
        r@ == fan_indices(n as nat),
{
    let mut indices: Vec<u32> = Vec::new();
    indices.push(0);
    indices.push(1);
    indices.push(2);
    assert(indices@ =~= fan_indices(1));
    let mut point_index: u32 = 2;
    while point_index <= n
        invariant
            2 <= point_index,
            point_index <= n + 1 || point_index == 2,
            n >= 1 ==> point_index <= n + 1,
            n <= MAX_FAN_POINTS,
            indices@ == fan_indices((point_index - 1) as nat),
        decreases n + 1 - point_index,
    {
        indices.push(0);
        indices.push(point_index);
        indices.push(point_index - 1);
        assert(indices@ =~= fan_indices(point_index as nat));
        point_index = point_index + 1;
    }
    if n == 0 {
        assert(fan_indices(0) =~= fan_indices(1));
    }
    indices
}

} // verus!
