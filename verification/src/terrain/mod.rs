//! Integer side of terrain streaming: tile hashing, chunk coordinates and
//! which chunks to load or unload.
use vstd::prelude::*;
use vstd::arithmetic::div_mod::lemma_fundamental_div_mod_converse;

verus! {

/// Floor of `a / b` (rounding towards negative infinity).
pub open spec fn floor_div(a: int, b: int) -> int {
    if b > 0 {
        a / b
    } else {
        (-a) / (-b)
    }
}

proof fn lemma_trunc_div(a: int, b: int, q: int, r: int)
    requires
        b != 0,
        a >= 0 ==> q == a / b && r == a % b,
        a < 0 ==> q == -((-a) / b) && r == -((-a) % b),
    ensures
        a == q * b + r,
        a >= 0 ==> 0 <= r && (r < b || r < -b),
        a < 0 ==> r <= 0 && (-r < b || -r < -b),
{
    if a >= 0 {
        assert(a == q * b + r && 0 <= r && (r < b || r < -b)) by (nonlinear_arith)
            requires b != 0, a >= 0, q == a / b, r == a % b;
    } else {
        let n = -a;
        assert(a == q * b + r && r <= 0 && (-r < b || -r < -b)) by (nonlinear_arith)
            requires b != 0, n == -a, q == -(n / b), r == -(n % b);
    }
}

/// From the truncating quotient and remainder to the floor quotient: one
/// less than the truncating one exactly when the remainder is nonzero and
/// its sign differs from the divisor's.
proof fn lemma_floor_from_trunc(a: int, b: int, q: int, r: int)
    requires
        b != 0,
        a == q * b + r,
        a >= 0 ==> 0 <= r && (r < b || r < -b),
        a < 0 ==> r <= 0 && (-r < b || -r < -b),
    ensures
        (r != 0 && ((r < 0) != (b < 0))) ==> floor_div(a, b) == q - 1,
        !(r != 0 && ((r < 0) != (b < 0))) ==> floor_div(a, b) == q,
{
    if b > 0 {
        if r >= 0 {
            lemma_fundamental_div_mod_converse(a, b, q, r);
        } else {
            assert(a == (q - 1) * b + (r + b)) by (nonlinear_arith)
                requires a == q * b + r;
            lemma_fundamental_div_mod_converse(a, b, q - 1, r + b);
        }
    } else {
        assert(-a == q * (-b) + (-r)) by (nonlinear_arith)
            requires a == q * b + r;
        if r <= 0 {
            lemma_fundamental_div_mod_converse(-a, -b, q, -r);
        } else {
            assert(-a == (q - 1) * (-b) + (-b - r)) by (nonlinear_arith)
                requires -a == q * (-b) + (-r);
            lemma_fundamental_div_mod_converse(-a, -b, q - 1, -b - r);
        }
    }
}

/// `floor_div(a, b)` is the floor of `a / b`: the largest `q` with
/// `q * b <= a` for a positive divisor, and with `q * b >= a` for a
/// negative one.
pub proof fn lemma_floor_div_is_floor(a: int, b: int)
    requires
        b != 0,
    ensures
        b > 0 ==> floor_div(a, b) * b <= a < floor_div(a, b) * b + b,
        b < 0 ==> floor_div(a, b) * b + b < a <= floor_div(a, b) * b,
{
    let q = floor_div(a, b);
    if b > 0 {
        assert(q * b <= a < q * b + b) by (nonlinear_arith)
            requires
                b > 0,
                q == a / b,
        ;
    } else {
        assert(q * b + b < a <= q * b) by (nonlinear_arith)
            requires
                b < 0,
                q == (-a) / (-b),
        ;
    }
}

/// Integer division rounding towards negative infinity.
pub fn div_floor(value: i32, divisor: i32) -> (r: i32)
    requires
        divisor != 0,
        !(value == i32::MIN && divisor == -1),
    ensures
        r == floor_div(value as int, divisor as int),
{
    let mut n: i64 = value as i64;
    let mut d: i64 = divisor as i64;
    if d < 0 {
        n = -n;
        d = -d;
    }
    let mut result = n / d;
    let remainder = n % d;
    proof {
        lemma_trunc_div(n as int, d as int, result as int, remainder as int);
        lemma_floor_from_trunc(n as int, d as int, result as int, remainder as int);
        assert(floor_div(value as int, divisor as int) == (n as int) / (d as int));
    }
    if remainder < 0 {
        result = result - 1;
    }
    proof {
        lemma_floor_div_fits(n as int, d as int);
    }
    result as i32
}

/// The floor quotient of the normalised operands fits in an `i32`.
proof fn lemma_floor_div_fits(n: int, d: int)
    requires
        0 < d <= 0x8000_0000,
        -0x8000_0000 <= n <= 0x8000_0000,
        n == 0x8000_0000 ==> d >= 2,
    ensures
        i32::MIN <= n / d <= i32::MAX,
{
    assert(i32::MIN <= n / d <= i32::MAX) by (nonlinear_arith)
        requires
            0 < d <= 0x8000_0000,
            -0x8000_0000 <= n <= 0x8000_0000,
            n == 0x8000_0000 ==> d >= 2;
}

/// The chunk that holds a tile.
pub fn chunk_of_tile(tile_x: i32, tile_y: i32, chunk_size: i32) -> (r: (i32, i32))
    requires
        chunk_size != 0,
        !(tile_x == i32::MIN && chunk_size == -1),
        !(tile_y == i32::MIN && chunk_size == -1),
    ensures
        r.0 == floor_div(tile_x as int, chunk_size as int),
        r.1 == floor_div(tile_y as int, chunk_size as int),
{
    (div_floor(tile_x, chunk_size), div_floor(tile_y, chunk_size))
}

/// The tile hash that picks tile variants and decorations.
pub open spec fn spec_tile_hash(x: i32, y: i32, seed: u32) -> u32 {
    let h1 = seed ^ (x as u32).wrapping_mul(0x27d4_eb2d);
    let h2 = h1 ^ (y as u32).wrapping_mul(0x1656_67b1);
    let h3 = h2 ^ (h2 >> 15u32);
    let h4 = h3.wrapping_mul(0x85eb_ca6b);
    let h5 = h4 ^ (h4 >> 13u32);
    h5 ^ (h5 >> 16u32)
}

/// Deterministic 32-bit hash of a tile position and a seed.
pub fn tile_hash(x: i32, y: i32, seed: u32) -> (r: u32)
    ensures
        r == spec_tile_hash(x, y, seed),
{
    let mut h = seed;
    h ^= (x as u32).wrapping_mul(0x27d4_eb2d);
    h ^= (y as u32).wrapping_mul(0x1656_67b1);
    h ^= h >> 15u32;
    h = h.wrapping_mul(0x85eb_ca6b);
    h ^= h >> 13u32;
    h ^= h >> 16u32;
    h
}

/// A chunk lies within `view_distance` chunks of `center` on both axes.
pub open spec fn chunk_in_view(c: (i32, i32), center: (i32, i32), view_distance: i32) -> bool {
    &&& center.0 - view_distance <= c.0 <= center.0 + view_distance
    &&& center.1 - view_distance <= c.1 <= center.1 + view_distance
}

/// The loaded chunks that have left the view, in their order.
pub open spec fn chunks_out_of_view(
    loaded: Seq<(i32, i32)>,
    center: (i32, i32),
    view_distance: i32,
) -> Seq<(i32, i32)>
    decreases loaded.len(),
{
    if loaded.len() == 0 {
        Seq::empty()
    } else {
        let rest = chunks_out_of_view(loaded.drop_last(), center, view_distance);
        if chunk_in_view(loaded.last(), center, view_distance) {
            rest
        } else {
            rest.push(loaded.last())
        }
    }
}

/// What the terrain streamer does this frame: chunks to build and chunks
/// to drop.
pub struct ChunkPlan {
    pub spawn: Vec<(i32, i32)>,
    pub despawn: Vec<(i32, i32)>,
}

/// Whether a chunk coordinate occurs in a list.
pub fn contains_chunk(chunks: &Vec<(i32, i32)>, c: (i32, i32)) -> (r: bool)
    ensures
        r == chunks@.contains(c),
{
    let mut i: usize = 0;
    while i < chunks.len()
        invariant
            i <= chunks.len(),
            forall|j: int| 0 <= j < i ==> chunks@[j] != c,
        decreases chunks.len() - i,
    {
        if chunks[i].0 == c.0 && chunks[i].1 == c.1 {
            assert(chunks@[i as int] == c);
            return true;
        }
        i += 1;
    }
    false
}

/// Decides which chunks around `center` must be built and which loaded
/// chunks must go: every chunk within `view_distance` on both axes that is
/// not loaded is built, once; every loaded chunk outside that square goes.
pub fn plan_chunk_updates(center: (i32, i32), view_distance: i32, loaded: &Vec<(i32, i32)>) -> (plan:
    ChunkPlan)
    requires
        view_distance >= 0 ==> {
            &&& i32::MIN <= center.0 - view_distance
            &&& center.0 + view_distance <= i32::MAX
            &&& i32::MIN <= center.1 - view_distance
            &&& center.1 + view_distance <= i32::MAX
        },
    ensures
        forall|c: (i32, i32)|
            #![trigger plan.spawn@.contains(c)]
            plan.spawn@.contains(c) <==> chunk_in_view(c, center, view_distance)
                && !loaded@.contains(c),
        plan.spawn@.no_duplicates(),
        forall|c: (i32, i32)|
            #![trigger chunk_in_view(c, center, view_distance)]
            (loaded@.contains(c) && !plan.despawn@.contains(c)) || plan.spawn@.contains(c)
                <==> chunk_in_view(c, center, view_distance),
        plan.despawn@ == chunks_out_of_view(loaded@, center, view_distance),
        forall|c: (i32, i32)|
            #![trigger plan.despawn@.contains(c)]
            plan.despawn@.contains(c) <==> loaded@.contains(c) && !chunk_in_view(
                c,
                center,
                view_distance,
            ),
{
    let lo0: i64 = center.0 as i64 - view_distance as i64;
    let hi0: i64 = center.0 as i64 + view_distance as i64;
    let lo1: i64 = center.1 as i64 - view_distance as i64;
    let hi1: i64 = center.1 as i64 + view_distance as i64;
    let mut spawn: Vec<(i32, i32)> = Vec::new();
    let mut cx: i64 = lo0;
    while cx <= hi0
        invariant
            lo0 == center.0 - view_distance,
            hi0 == center.0 + view_distance,
            lo1 == center.1 - view_distance,
            hi1 == center.1 + view_distance,
            lo0 <= hi0 ==> i32::MIN <= lo0 && hi0 <= i32::MAX,
            lo1 <= hi1 ==> i32::MIN <= lo1 && hi1 <= i32::MAX,
            lo0 <= cx,
            cx <= hi0 + 1 || cx == lo0,
            forall|c: (i32, i32)|
                #![trigger spawn@.contains(c)]
                spawn@.contains(c) <==> chunk_in_view(c, center, view_distance)
                    && !loaded@.contains(c) && c.0 < cx,
            spawn@.no_duplicates(),
        decreases hi0 + 1 - cx,
    {
        let mut cy: i64 = lo1;
        while cy <= hi1
            invariant
                lo0 == center.0 - view_distance,
                hi0 == center.0 + view_distance,
                lo1 == center.1 - view_distance,
                hi1 == center.1 + view_distance,
                lo0 <= cx <= hi0,
                i32::MIN <= lo0 && hi0 <= i32::MAX,
                lo1 <= hi1 ==> i32::MIN <= lo1 && hi1 <= i32::MAX,
                lo1 <= cy,
                cy <= hi1 + 1 || cy == lo1,
                forall|c: (i32, i32)|
                    #![trigger spawn@.contains(c)]
                    spawn@.contains(c) <==> chunk_in_view(c, center, view_distance)
                        && !loaded@.contains(c) && (c.0 < cx || (c.0 == cx && c.1 < cy)),
                spawn@.no_duplicates(),
            decreases hi1 + 1 - cy,
        {
            let c: (i32, i32) = (cx as i32, cy as i32);
            let ghost old_spawn = spawn@;
            if !contains_chunk(loaded, c) {
                assert(!old_spawn.contains(c));
                spawn.push(c);
                proof {
                    assert(spawn@ == old_spawn.push(c));
                    assert forall|p: int, q: int|
                        0 <= p < spawn@.len() && 0 <= q < spawn@.len() && p != q implies spawn@[p]
                        != spawn@[q] by {
                        if p == old_spawn.len() {
                            assert(old_spawn[q] == spawn@[q]);
                        } else if q == old_spawn.len() {
                            assert(old_spawn[p] == spawn@[p]);
                        }
                    }
                    assert(spawn@[old_spawn.len() as int] == c);
                    assert forall|e: (i32, i32)|
                        #![trigger spawn@.contains(e)]
                        spawn@.contains(e) <==> chunk_in_view(e, center, view_distance)
                            && !loaded@.contains(e) && (e.0 < cx || (e.0 == cx && e.1 < cy + 1))
                        by {
                        if spawn@.contains(e) && e != c {
                            let k = choose|k: int| 0 <= k < spawn@.len() && spawn@[k] == e;
                            assert(old_spawn[k] == e);
                        }
                        if old_spawn.contains(e) {
                            let k = choose|k: int| 0 <= k < old_spawn.len() && old_spawn[k] == e;
                            assert(spawn@[k] == e);
                        }
                    }
                }
            }
            cy = cy + 1;
        }
        cx = cx + 1;
    }
    let mut despawn: Vec<(i32, i32)> = Vec::new();
    let mut i: usize = 0;
    while i < loaded.len()
        invariant
            i <= loaded.len(),
            lo0 == center.0 - view_distance,
            hi0 == center.0 + view_distance,
            lo1 == center.1 - view_distance,
            hi1 == center.1 + view_distance,
            despawn@ == chunks_out_of_view(loaded@.take(i as int), center, view_distance),
            forall|c: (i32, i32)|
                #![trigger despawn@.contains(c)]
                despawn@.contains(c) <==> loaded@.take(i as int).contains(c) && !chunk_in_view(
                    c,
                    center,
                    view_distance,
                ),
        decreases loaded.len() - i,
    {
        let c = loaded[i];
        let in_view: bool = lo0 <= c.0 as i64 && c.0 as i64 <= hi0 && lo1 <= c.1 as i64 && c.1 as i64
            <= hi1;
        proof {
            assert(loaded@.take(i + 1).drop_last() == loaded@.take(i as int));
            assert(loaded@.take(i + 1).last() == c);
        }
        let ghost old_despawn = despawn@;
        if !in_view {
            despawn.push(c);
        }
        proof {
            let t0 = loaded@.take(i as int);
            let t1 = loaded@.take(i + 1);
            assert forall|e: (i32, i32)|
                #![trigger despawn@.contains(e)]
                despawn@.contains(e) <==> t1.contains(e) && !chunk_in_view(e, center, view_distance) by {
                if t0.contains(e) {
                    let k = choose|k: int| 0 <= k < t0.len() && t0[k] == e;
                    assert(t1[k] == e);
                }
                if t1.contains(e) && e != c {
                    let k = choose|k: int| 0 <= k < t1.len() && t1[k] == e;
                    assert(k < i);
                    assert(t0[k] == e);
                }
                assert(t1[i as int] == c);
                if !in_view {
                    assert(despawn@ == old_despawn.push(c));
                    if despawn@.contains(e) && e != c {
                        let k = choose|k: int| 0 <= k < despawn@.len() && despawn@[k] == e;
                        assert(old_despawn[k] == e);
                    }
                    if old_despawn.contains(e) {
                        let k = choose|k: int| 0 <= k < old_despawn.len() && old_despawn[k] == e;
                        assert(despawn@[k] == e);
                    }
                    assert(despawn@[old_despawn.len() as int] == c);
                }
            }
        }
        i += 1;
    }
    proof {
        assert(loaded@.take(loaded.len() as int) == loaded@);
    }
    ChunkPlan { spawn, despawn }
}

} // verus!
