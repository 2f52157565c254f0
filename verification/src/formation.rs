//! Pet formation slots: the hexagonal spiral that gives the n-th pet of a
//! group its cell around the group's anchor.
//!
//! Cells are axial hex coordinates `(q, r)`; the third cube coordinate is
//! `-q - r`. Slot 0 is the centre, ring `k` holds the `6k` slots that start
//! at index `1 + 3k(k - 1)`.
use vstd::prelude::*;
use vstd::arithmetic::div_mod::lemma_fundamental_div_mod_converse;

verus! {

/// First spiral index on ring `k` (for `k >= 1`).
pub open spec fn ring_start(k: int) -> int {
    1 + 3 * k * (k - 1)
}

/// Corner of ring `k` where side `j` of the walk begins.
pub open spec fn side_corner(k: int, j: int) -> (int, int) {
    if j == 0 {
        (k, 0)
    } else if j == 1 {
        (k, -k)
    } else if j == 2 {
        (0, -k)
    } else if j == 3 {
        (-k, 0)
    } else if j == 4 {
        (-k, k)
    } else if j == 5 {
        (0, k)
    } else {
        (k, 0)
    }
}

/// Direction in which side `j` of a ring is walked.
pub open spec fn side_direction(j: int) -> (int, int) {
    if j == 0 {
        (0, -1)
    } else if j == 1 {
        (-1, 0)
    } else if j == 2 {
        (-1, 1)
    } else if j == 3 {
        (0, 1)
    } else if j == 4 {
        (1, 0)
    } else {
        (1, -1)
    }
}

/// Cell reached after `s` steps along ring `k` (`0 <= s < 6k`).
pub open spec fn ring_cell(k: int, s: int) -> (int, int) {
    let j = s / k;
    let o = s % k;
    (side_corner(k, j).0 + o * side_direction(j).0, side_corner(k, j).1 + o * side_direction(j).1)
}

/// Ring that spiral index `index` falls on.
pub open spec fn on_ring(index: int, k: int) -> bool {
    k >= 1 && ring_start(k) <= index < ring_start(k + 1)
}

/// Ring of a nonzero spiral index.
pub open spec fn spiral_ring(index: int) -> int {
    choose|k: int| on_ring(index, k)
}

/// Cell of spiral slot `index`.
pub open spec fn spiral_cell(index: int) -> (int, int) {
    if index == 0 {
        (0, 0)
    } else {
        let k = spiral_ring(index);
        ring_cell(k, index - ring_start(k))
    }
}

/// Hex distance of an axial cell from the centre.
pub open spec fn hex_distance(c: (int, int)) -> int {
    let a = if c.0 >= 0 { c.0 } else { -c.0 };
    let b = if c.1 >= 0 { c.1 } else { -c.1 };
    let s = if c.0 + c.1 >= 0 { c.0 + c.1 } else { -(c.0 + c.1) };
    if a >= b && a >= s {
        a
    } else if b >= s {
        b
    } else {
        s
    }
}

proof fn lemma_ring_start_step(k: int)
    ensures
        ring_start(k + 1) == ring_start(k) + 6 * k,
{
    assert(3 * (k + 1) * k == 3 * k * (k - 1) + 6 * k) by (nonlinear_arith);
}

proof fn lemma_ring_start_monotone(k1: int, k2: int)
    requires
        1 <= k1 <= k2,
    ensures
        ring_start(k1) <= ring_start(k2),
{
    assert(3 * k1 * (k1 - 1) <= 3 * k2 * (k2 - 1)) by (nonlinear_arith)
        requires
            1 <= k1 <= k2,
    ;
}

/// Every nonzero index lies on exactly one ring.
proof fn lemma_on_ring_unique(index: int, k1: int, k2: int)
    requires
        on_ring(index, k1),
        on_ring(index, k2),
    ensures
        k1 == k2,
{
    if k1 < k2 {
        lemma_ring_start_monotone(k1 + 1, k2);
    } else if k2 < k1 {
        lemma_ring_start_monotone(k2 + 1, k1);
    }
}

/// Position on a ring, from the side being walked and the steps taken on it.
proof fn lemma_ring_cell_at(k: int, j: int, o: int)
    requires
        k >= 1,
        0 <= j < 6,
        0 <= o < k,
    ensures
        ring_cell(k, j * k + o) == (side_corner(k, j).0 + o * side_direction(j).0, side_corner(
            k,
            j,
        ).1 + o * side_direction(j).1),
{
    lemma_fundamental_div_mod_converse(j * k + o, k, j, o);
}

/// Walking a whole side from its corner reaches the next corner.
proof fn lemma_side_end(k: int, j: int)
    requires
        k >= 1,
        0 <= j < 6,
    ensures
        side_corner(k, j + 1) == (side_corner(k, j).0 + k * side_direction(j).0, side_corner(
            k,
            j,
        ).1 + k * side_direction(j).1),
{
}

/// Unit step along side `d` of a ring.
fn side_step(d: usize) -> (r: (i32, i32))
    requires
        d < 6,
    ensures
        r.0 == side_direction(d as int).0,
        r.1 == side_direction(d as int).1,
{
    match d {
        0 => (0, -1),
        1 => (-1, 0),
        2 => (-1, 1),
        3 => (0, 1),
        4 => (1, 0),
        _ => (1, -1),
    }
}

/// Cell of spiral slot `index` in axial hex coordinates `(q, r)`: slot 0 is
/// the centre, then the rings are walked outwards, each from its east
/// corner in six sides.
pub fn hex_spiral_cell(index: usize) -> (c: (i32, i32))
    requires
        index <= u32::MAX,
    ensures
        c.0 == spiral_cell(index as int).0,
        c.1 == spiral_cell(index as int).1,
{
    if index == 0 {
        return (0, 0);
    }
    let mut ring: usize = 1;
    let mut count: usize = 1;
    while 6 * ring <= index - count
        invariant
            1 <= ring <= 0x1_0000,
            count == ring_start(ring as int),
            count <= index,
            index <= u32::MAX,
        decreases index - count,
    {
        proof {
            lemma_ring_start_step(ring as int);
        }
        count += 6 * ring;
        ring += 1;
        proof {
            assert(ring <= 0x1_0000) by (nonlinear_arith)
                requires
                    1 + 3 * ring * (ring - 1) <= 0xffff_ffff,
                    ring >= 1,
            ;
        }
    }
    proof {
        lemma_ring_start_step(ring as int);
        assert(on_ring(index as int, ring as int));
        lemma_on_ring_unique(index as int, ring as int, spiral_ring(index as int));
        assert(ring <= 0x1_0000) by (nonlinear_arith)
            requires
                1 + 3 * ring * (ring - 1) <= 0xffff_ffff,
                ring >= 1,
        ;
    }
    let ghost k: int = ring as int;
    let ghost s: int = index - count;
    let k32: i32 = ring as i32;
    let mut steps_left: usize = index - count;
    let mut x: i32 = k32;
    let mut z: i32 = 0;
    let mut d: usize = 0;
    while d < 6
        invariant
            k == ring,
            k32 == k,
            1 <= k <= 0x1_0000,
            0 <= s < 6 * k,
            d <= 6,
            steps_left > 0 ==> steps_left == s - d * k && (x as int, z as int) == side_corner(k, d as int),
            steps_left == 0 ==> (x as int, z as int) == ring_cell(k, s),
        ensures
            d == 6 || steps_left == 0,
            steps_left > 0 ==> steps_left == s - d * k,
            steps_left == 0 ==> (x as int, z as int) == ring_cell(k, s),
        decreases 6 - d,
    {
        if steps_left == 0 {
            break;
        }
        let (dx, dz) = side_step(d);
        let steps: usize = if ring < steps_left { ring } else { steps_left };
        proof {
            lemma_side_end(k, d as int);
            assert(d * k < 6 * k) by (nonlinear_arith)
                requires
                    s == steps_left + d * k,
                    s < 6 * k,
                    steps_left > 0,
            ;
            assert(d < 6) by (nonlinear_arith)
                requires
                    d * k < 6 * k,
                    k >= 1,
            ;
        }
        x = x + dx * (steps as i32);
        z = z + dz * (steps as i32);
        steps_left = steps_left - steps;
        proof {
            if steps == ring {
                if steps_left == 0 {
                    assert(s == (d + 1) * k) by (nonlinear_arith)
                        requires
                            s == k + d * k,
                    ;
                    assert((d + 1) * k < 6 * k);
                    assert(d + 1 < 6) by (nonlinear_arith)
                        requires
                            (d + 1) * k < 6 * k,
                            k >= 1,
                    ;
                    lemma_ring_cell_at(k, d + 1, 0);
                } else {
                    assert(steps_left == s - (d + 1) * k) by (nonlinear_arith)
                        requires
                            steps_left == s - d * k - k,
                    ;
                }
            } else {
                lemma_ring_cell_at(k, d as int, s - d * k);
            }
        }
        d += 1;
    }
    proof {
        if steps_left > 0 {
            assert(d == 6);
            assert(false) by (nonlinear_arith)
                requires
                    steps_left == s - 6 * k,
                    s < 6 * k,
                    steps_left > 0,
            ;
        }
    }
    (x, z)
}

/// Steps taken along ring `k` to reach cell `c` of that ring.
pub open spec fn ring_offset(k: int, c: (int, int)) -> int {
    if c.0 == k && -k < c.1 <= 0 {
        -c.1
    } else if c.1 == -k && c.0 > 0 {
        k + (k - c.0)
    } else if c.0 <= 0 && c.1 < 0 {
        2 * k - c.0
    } else if c.0 == -k && 0 <= c.1 < k {
        3 * k + c.1
    } else if c.1 == k && c.0 < 0 {
        4 * k + (c.0 + k)
    } else {
        5 * k + c.0
    }
}

/// Every index from one on lies on some ring.
proof fn lemma_ring_exists(index: int)
    requires
        index >= 1,
    ensures
        on_ring(index, spiral_ring(index)),
    decreases index,
{
    if index == 1 {
        assert(on_ring(1, 1));
    } else {
        lemma_ring_exists(index - 1);
        let k = spiral_ring(index - 1);
        lemma_ring_start_step(k);
        lemma_ring_start_step(k + 1);
        if index < ring_start(k + 1) {
            assert(on_ring(index, k));
        } else {
            assert(on_ring(index, k + 1));
        }
    }
}

/// A cell of ring `k` is `k` steps from the centre, and the steps walked
/// to it can be read back from it.
proof fn lemma_ring_cell_inverse(k: int, s: int)
    requires
        k >= 1,
        0 <= s < 6 * k,
    ensures
        hex_distance(ring_cell(k, s)) == k,
        ring_offset(k, ring_cell(k, s)) == s,
{
    let j = s / k;
    let o = s % k;
    assert(s == j * k + o && 0 <= o < k && 0 <= j < 6) by (nonlinear_arith)
        requires
            k >= 1,
            0 <= s < 6 * k,
            j == s / k,
            o == s % k,
    ;
    lemma_ring_cell_at(k, j, o);
}

/// The slot of spiral index `index` lies on that index's ring: the centre
/// for index 0, ring `k` for the indices `1 + 3k(k - 1)` up to
/// `3k(k + 1)`.
pub proof fn lemma_spiral_cell_distance(index: int)
    requires
        index >= 0,
    ensures
        index == 0 ==> hex_distance(spiral_cell(index)) == 0,
        index > 0 ==> on_ring(index, spiral_ring(index)),
        index > 0 ==> hex_distance(spiral_cell(index)) == spiral_ring(index),
{
    if index > 0 {
        lemma_ring_exists(index);
        let k = spiral_ring(index);
        lemma_ring_start_step(k);
        lemma_ring_cell_inverse(k, index - ring_start(k));
    }
}

/// Two different spiral indices never share a slot, so the pets of one
/// group never share a formation cell.
pub proof fn lemma_spiral_slots_distinct(i: int, j: int)
    requires
        i >= 0,
        j >= 0,
        spiral_cell(i) == spiral_cell(j),
    ensures
        i == j,
{
    lemma_spiral_cell_distance(i);
    lemma_spiral_cell_distance(j);
    if i > 0 && j > 0 {
        let k = spiral_ring(i);
        lemma_ring_start_step(k);
        lemma_ring_start_step(spiral_ring(j));
        lemma_ring_cell_inverse(k, i - ring_start(k));
        lemma_ring_cell_inverse(spiral_ring(j), j - ring_start(spiral_ring(j)));
    }
}

} // verus!
