//! Decomposition of a cutout into cuboid-local windows.
//!
//! The voxel space is tiled by cuboids of a fixed size `S`. Cuboid `I` covers
//! `[I * S, (I + 1) * S)` on every axis. A cutout `[start, stop)` touches the
//! cuboids `start / S ..= stop / S` on every axis, and inside each of them a
//! window given in the cuboid's own frame. The rules are the same on the
//! three axes, so they are stated for one axis over `int` and lifted to
//! [`Vector3`].
use vstd::prelude::*;
use vstd::arithmetic::div_mod::lemma_fundamental_div_mod;
use vstd::arithmetic::div_mod::lemma_fundamental_div_mod_converse;
use crate::layout::fast;
use crate::layout::flat;
use crate::layout::lemma_coords_of_flat;
use crate::layout::lemma_flat_bounds;
use crate::layout::lemma_flat_of_coords;
use crate::layout::mid;
use crate::layout::slow;

verus! {

/// A triple of non-negative coordinates, used both as a position in the
/// global voxel space and as a cuboid index.
#[derive(Copy, Clone, PartialEq, Eq, Hash, Debug, Structural)]
pub struct Vector3 {
    pub x: u64,
    pub y: u64,
    pub z: u64,
}

/// A cuboid index with the window of the cutout inside that cuboid:
/// `(index, (local_start, local_stop))`.
pub type CuboidWindow = (Vector3, (Vector3, Vector3));

/// Number of cuboids that `[start, stop]` touches on one axis.
pub open spec fn cuboid_count(start: int, stop: int, size: int) -> int {
    if stop / size >= start / size {
        stop / size - start / size + 1
    } else {
        0
    }
}

/// Where the cutout begins inside cuboid `i`, on one axis.
pub open spec fn local_start(start: int, size: int, i: int) -> int {
    if start <= i * size {
        0
    } else {
        start % size
    }
}

/// Where the cutout ends inside cuboid `i`, on one axis.
pub open spec fn local_stop(stop: int, size: int, i: int) -> int {
    if stop >= (i + 1) * size {
        size
    } else {
        stop % size
    }
}

/// Every component of a cuboid size is positive.
pub open spec fn positive(size: Vector3) -> bool {
    size.x > 0 && size.y > 0 && size.z > 0
}

/// `a` is at most `b` on every axis.
pub open spec fn le3(a: Vector3, b: Vector3) -> bool {
    a.x <= b.x && a.y <= b.y && a.z <= b.z
}

/// The window of the cutout `[start, stop)` inside cuboid `index`.
pub open spec fn window_of(start: Vector3, stop: Vector3, size: Vector3, index: Vector3) -> (
    Vector3,
    Vector3,
) {
    (
        Vector3 {
            x: local_start(start.x as int, size.x as int, index.x as int) as u64,
            y: local_start(start.y as int, size.y as int, index.y as int) as u64,
            z: local_start(start.z as int, size.z as int, index.z as int) as u64,
        },
        Vector3 {
            x: local_stop(stop.x as int, size.x as int, index.x as int) as u64,
            y: local_stop(stop.y as int, size.y as int, index.y as int) as u64,
            z: local_stop(stop.z as int, size.z as int, index.z as int) as u64,
        },
    )
}

/// Number of cuboids that the cutout touches.
pub open spec fn decomposition_len(start: Vector3, stop: Vector3, size: Vector3) -> int {
    cuboid_count(start.x as int, stop.x as int, size.x as int) * cuboid_count(
        start.y as int,
        stop.y as int,
        size.y as int,
    ) * cuboid_count(start.z as int, stop.z as int, size.z as int)
}

/// Index of the `k`-th cuboid of the cutout. Cuboids are listed with the X
/// index varying slowest and the Z index fastest.
pub open spec fn nth_index(start: Vector3, stop: Vector3, size: Vector3, k: int) -> Vector3 {
    let cy = cuboid_count(start.y as int, stop.y as int, size.y as int);
    let cz = cuboid_count(start.z as int, stop.z as int, size.z as int);
    Vector3 {
        x: (start.x / size.x + slow(cy, cz, k)) as u64,
        y: (start.y / size.y + mid(cy, cz, k)) as u64,
        z: (start.z / size.z + fast(cz, k)) as u64,
    }
}

/// The cuboids that the cutout `[start, stop)` touches, each with the
/// window of the cutout inside it.
pub open spec fn decomposition(start: Vector3, stop: Vector3, size: Vector3) -> Seq<CuboidWindow> {
    Seq::new(
        decomposition_len(start, stop, size) as nat,
        |k: int|
            (
                nth_index(start, stop, size, k),
                window_of(start, stop, size, nth_index(start, stop, size, k)),
            ),
    )
}

/// Place of cuboid `index` in [`decomposition`].
pub open spec fn position_of(start: Vector3, stop: Vector3, size: Vector3, index: Vector3) -> int {
    flat(
        cuboid_count(start.y as int, stop.y as int, size.y as int),
        cuboid_count(start.z as int, stop.z as int, size.z as int),
        index.x - start.x / size.x,
        index.y - start.y / size.y,
        index.z - start.z / size.z,
    )
}

/// Whether cuboid `index` is one of those the cutout touches.
pub open spec fn touches(start: Vector3, stop: Vector3, size: Vector3, index: Vector3) -> bool {
    &&& start.x / size.x <= index.x <= stop.x / size.x
    &&& start.y / size.y <= index.y <= stop.y / size.y
    &&& start.z / size.z <= index.z <= stop.z / size.z
}

/// Whether the global position `p = (x, y, z)` lies in the window `w` of
/// cuboid `index`.
pub open spec fn in_window(size: Vector3, index: Vector3, w: (Vector3, Vector3), p: (int, int, int)) -> bool {
    &&& index.x * size.x + w.0.x <= p.0 < index.x * size.x + w.1.x
    &&& index.y * size.y + w.0.y <= p.1 < index.y * size.y + w.1.y
    &&& index.z * size.z + w.0.z <= p.2 < index.z * size.z + w.1.z
}

/// Whether the global position `p = (x, y, z)` lies in the cutout.
pub open spec fn in_cutout(start: Vector3, stop: Vector3, p: (int, int, int)) -> bool {
    &&& start.x <= p.0 < stop.x
    &&& start.y <= p.1 < stop.y
    &&& start.z <= p.2 < stop.z
}

/// The cuboid that holds the global position `p`.
pub open spec fn owner(size: Vector3, p: (int, int, int)) -> Vector3 {
    Vector3 { x: (p.0 / size.x as int) as u64, y: (p.1 / size.y as int) as u64, z: (p.2 / size.z as int) as u64 }
}

/// Quotients keep the order and stay below the dividend.
pub proof fn lemma_axis_quotient(a: int, b: int, size: int)
    requires
        0 <= a <= b,
        size > 0,
    ensures
        0 <= a / size <= b / size <= b,
{
    lemma_fundamental_div_mod(a, size);
    lemma_fundamental_div_mod(b, size);
    let qa = a / size;
    let qb = b / size;
    assert(0 <= a % size < size && 0 <= b % size < size) by (nonlinear_arith)
        requires
            size > 0,
    ;
    assert(qa <= qb) by (nonlinear_arith)
        requires
            a == size * qa + a % size,
            b == size * qb + b % size,
            0 <= a % size < size,
            0 <= b % size < size,
            a <= b,
            size > 0,
    ;
    assert(0 <= qa) by (nonlinear_arith)
        requires
            a == size * qa + a % size,
            0 <= a,
            a % size < size,
            size > 0,
    ;
    assert(qb <= b) by (nonlinear_arith)
        requires
            b == size * qb + b % size,
            0 <= b % size,
            size > 0,
            0 <= qb,
    ;
}

/// The cuboid whose range holds `p` is `p / size`.
pub proof fn lemma_axis_owner(size: int, i: int, p: int)
    requires
        size > 0,
        i * size <= p < (i + 1) * size,
    ensures
        p / size == i,
{
    assert((i + 1) * size == i * size + size) by (nonlinear_arith);
    lemma_fundamental_div_mod_converse(p, size, i, p - i * size);
}

/// A position lies in the range of its own cuboid.
pub proof fn lemma_axis_range(size: int, p: int)
    requires
        size > 0,
        0 <= p,
    ensures
        (p / size) * size <= p < (p / size + 1) * size,
        0 <= p / size,
{
    lemma_fundamental_div_mod(p, size);
    let q = p / size;
    assert(0 <= p % size < size) by (nonlinear_arith)
        requires
            size > 0,
    ;
    assert(q * size == size * q) by (nonlinear_arith);
    assert((q + 1) * size == size * q + size) by (nonlinear_arith);
    assert(0 <= q) by (nonlinear_arith)
        requires
            p == size * q + p % size,
            0 <= p,
            p % size < size,
            size > 0,
    ;
}

/// The tests that the decomposition makes on cuboid indices, without the
/// products that could leave `u64`.
pub proof fn lemma_axis_tests(start: int, stop: int, size: int, i: int)
    requires
        0 <= start,
        0 <= stop,
        size > 0,
        start / size <= i <= stop / size,
    ensures
        local_start(start, size, i) == (if i > start / size {
            0
        } else {
            start % size
        }),
        local_stop(stop, size, i) == (if i < stop / size {
            size
        } else {
            stop % size
        }),
        0 <= start % size < size,
        0 <= stop % size < size,
{
    lemma_axis_range(size, start);
    lemma_axis_range(size, stop);
    lemma_fundamental_div_mod(start, size);
    lemma_fundamental_div_mod(stop, size);
    let qa = start / size;
    let qb = stop / size;
    assert(0 <= start % size < size && 0 <= stop % size < size) by (nonlinear_arith)
        requires
            size > 0,
    ;
    assert(qa * size == size * qa && qb * size == size * qb) by (nonlinear_arith);
    if i > qa {
        assert(i * size >= (qa + 1) * size) by (nonlinear_arith)
            requires
                i >= qa + 1,
                size > 0,
        ;
    } else {
        assert(i == qa);
    }
    if i < qb {
        assert((i + 1) * size <= qb * size) by (nonlinear_arith)
            requires
                i + 1 <= qb,
                size > 0,
        ;
    } else {
        assert(i == qb);
    }
}

/// In global coordinates the window of cuboid `i` is the part of the
/// cutout that lies in the cuboid's range.
pub proof fn lemma_axis_window(start: int, stop: int, size: int, i: int)
    requires
        0 <= start <= stop,
        size > 0,
        start / size <= i <= stop / size,
    ensures
        i * size + local_start(start, size, i) == (if start <= i * size {
            i * size
        } else {
            start
        }),
        i * size + local_stop(stop, size, i) == (if stop >= (i + 1) * size {
            (i + 1) * size
        } else {
            stop
        }),
        0 <= local_start(start, size, i) <= local_stop(stop, size, i) <= size,
        0 <= i * size <= stop,
        start < (i + 1) * size,
{
    lemma_axis_tests(start, stop, size, i);
    lemma_axis_range(size, start);
    lemma_axis_range(size, stop);
    lemma_fundamental_div_mod(start, size);
    lemma_fundamental_div_mod(stop, size);
    let qa = start / size;
    let qb = stop / size;
    assert(qa * size == size * qa && qb * size == size * qb) by (nonlinear_arith);
    assert((i + 1) * size == i * size + size) by (nonlinear_arith);
    assert(0 <= i * size) by (nonlinear_arith)
        requires
            0 <= i,
            size > 0,
    ;
    assert(i * size <= qb * size) by (nonlinear_arith)
        requires
            i <= qb,
            size > 0,
    ;
    assert((qa + 1) * size <= (i + 1) * size) by (nonlinear_arith)
        requires
            qa <= i,
            size > 0,
    ;
    if i > qa {
        assert(i * size >= (qa + 1) * size) by (nonlinear_arith)
            requires
                i >= qa + 1,
                size > 0,
        ;
    }
    if i < qb {
        assert((i + 1) * size <= qb * size) by (nonlinear_arith)
            requires
                i + 1 <= qb,
                size > 0,
        ;
    }
}

/// The window of the cutout inside one cuboid, on one axis.
fn axis_window(start: u64, stop: u64, size: u64, i: u64) -> (w: (u64, u64))
    requires
        size > 0,
        start / size <= i <= stop / size,
    ensures
        w.0 == local_start(start as int, size as int, i as int),
        w.1 == local_stop(stop as int, size as int, i as int),
{
    proof {
        lemma_axis_tests(start as int, stop as int, size as int, i as int);
    }
    let lo: u64 = if i > start / size {
        0
    } else {
        start % size
    };
    let hi: u64 = if i < stop / size {
        size
    } else {
        stop % size
    };
    (lo, hi)
}

/// The `k`-th cuboid of the cutout is the one whose indices, counted from
/// the first cuboid on each axis, are `(a, b, c)`, where `k` is the row-major
/// offset of `(a, b, c)`.
pub proof fn lemma_nth_index(start: Vector3, stop: Vector3, size: Vector3, a: int, b: int, c: int)
    requires
        positive(size),
        0 <= a < cuboid_count(start.x as int, stop.x as int, size.x as int),
        0 <= b < cuboid_count(start.y as int, stop.y as int, size.y as int),
        0 <= c < cuboid_count(start.z as int, stop.z as int, size.z as int),
    ensures
        ({
            let k = flat(
                cuboid_count(start.y as int, stop.y as int, size.y as int),
                cuboid_count(start.z as int, stop.z as int, size.z as int),
                a,
                b,
                c,
            );
            &&& 0 <= k < decomposition_len(start, stop, size)
            &&& nth_index(start, stop, size, k) == Vector3 {
                x: (start.x / size.x + a) as u64,
                y: (start.y / size.y + b) as u64,
                z: (start.z / size.z + c) as u64,
            }
        }),
{
    let cx = cuboid_count(start.x as int, stop.x as int, size.x as int);
    let cy = cuboid_count(start.y as int, stop.y as int, size.y as int);
    let cz = cuboid_count(start.z as int, stop.z as int, size.z as int);
    lemma_flat_bounds(cx, cy, cz, a, b, c);
    lemma_coords_of_flat(cy, cz, a, b, c);
}

/// Get a mapping of cuboid indices to the cutout indices within each.
///
/// Converts the global cutout `[coords_start, coords_stop)` into the
/// cuboids it touches, each with the window of the cutout in the cuboid's
/// own frame. The cuboids come in a fixed order, the X index varying
/// slowest and the Z index fastest, and no index occurs twice.
pub fn get_cuboids_and_indices(coords_start: Vector3, coords_stop: Vector3, cuboid_size: Vector3) -> (cuboids:
    Vec<CuboidWindow>)
    requires
        positive(cuboid_size),
    ensures
        cuboids@ == decomposition(coords_start, coords_stop, cuboid_size),
{
    let mut cuboids: Vec<CuboidWindow> = Vec::new();
    let x0: u64 = coords_start.x / cuboid_size.x;
    let y0: u64 = coords_start.y / cuboid_size.y;
    let z0: u64 = coords_start.z / cuboid_size.z;
    let x1: u64 = coords_stop.x / cuboid_size.x;
    let y1: u64 = coords_stop.y / cuboid_size.y;
    let z1: u64 = coords_stop.z / cuboid_size.z;
    let ghost cx = cuboid_count(coords_start.x as int, coords_stop.x as int, cuboid_size.x as int);
    let ghost cy = cuboid_count(coords_start.y as int, coords_stop.y as int, cuboid_size.y as int);
    let ghost cz = cuboid_count(coords_start.z as int, coords_stop.z as int, cuboid_size.z as int);
    let ghost want = decomposition(coords_start, coords_stop, cuboid_size);
    if x1 < x0 || y1 < y0 || z1 < z0 {
        assert(cx * cy * cz == 0) by (nonlinear_arith)
            requires
                cx == 0 || cy == 0 || cz == 0,
        ;
        assert(cuboids@ =~= want);
        return cuboids;
    }
    let mut ix: u64 = x0;
    let mut iy: u64 = y0;
    let mut iz: u64 = z0;
    proof {
        assert(flat(cy, cz, 0, 0, 0) == 0) by (nonlinear_arith);
        assert(cx * cy * cz >= 1) by (nonlinear_arith)
            requires
                cx >= 1,
                cy >= 1,
                cz >= 1,
        ;
    }
    loop
        invariant_except_break
            positive(cuboid_size),
            x0 == coords_start.x / cuboid_size.x,
            y0 == coords_start.y / cuboid_size.y,
            z0 == coords_start.z / cuboid_size.z,
            x1 == coords_stop.x / cuboid_size.x,
            y1 == coords_stop.y / cuboid_size.y,
            z1 == coords_stop.z / cuboid_size.z,
            cx == x1 - x0 + 1,
            cy == y1 - y0 + 1,
            cz == z1 - z0 + 1,
            cx == cuboid_count(coords_start.x as int, coords_stop.x as int, cuboid_size.x as int),
            cy == cuboid_count(coords_start.y as int, coords_stop.y as int, cuboid_size.y as int),
            cz == cuboid_count(coords_start.z as int, coords_stop.z as int, cuboid_size.z as int),
            want == decomposition(coords_start, coords_stop, cuboid_size),
            x0 <= ix <= x1,
            y0 <= iy <= y1,
            z0 <= iz <= z1,
            cuboids@.len() == flat(cy, cz, ix - x0, iy - y0, iz - z0),
            cuboids@.len() < want.len(),
            forall|k: int| 0 <= k < cuboids@.len() ==> cuboids@[k] == want[k],
        ensures
            cuboids@ == want,
        decreases x1 - ix, y1 - iy, z1 - iz,
    {
        let wx = axis_window(coords_start.x, coords_stop.x, cuboid_size.x, ix);
        let wy = axis_window(coords_start.y, coords_stop.y, cuboid_size.y, iy);
        let wz = axis_window(coords_start.z, coords_stop.z, cuboid_size.z, iz);
        let index = Vector3 { x: ix, y: iy, z: iz };
        let ghost at = cuboids@.len() as int;
        proof {
            lemma_nth_index(coords_start, coords_stop, cuboid_size, ix - x0, iy - y0, iz - z0);
        }
        cuboids.push(
            (index, (Vector3 { x: wx.0, y: wy.0, z: wz.0 }, Vector3 { x: wx.1, y: wy.1, z: wz.1 })),
        );
        assert(cuboids@[at] == want[at]);
        if iz < z1 {
            iz = iz + 1;
            proof {
                lemma_nth_index(coords_start, coords_stop, cuboid_size, ix - x0, iy - y0, iz - z0);
            }
        } else if iy < y1 {
            iz = z0;
            iy = iy + 1;
            proof {
                lemma_nth_index(coords_start, coords_stop, cuboid_size, ix - x0, iy - y0, 0);
                assert(flat(cy, cz, ix - x0, iy - y0, 0) == at + 1) by (nonlinear_arith)
                    requires
                        at == ((ix - x0) * cy + (iy - 1 - y0)) * cz + (cz - 1),
                ;
            }
        } else if ix < x1 {
            iz = z0;
            iy = y0;
            ix = ix + 1;
            proof {
                lemma_nth_index(coords_start, coords_stop, cuboid_size, ix - x0, 0, 0);
                assert(flat(cy, cz, ix - x0, 0, 0) == at + 1) by (nonlinear_arith)
                    requires
                        at == ((ix - 1 - x0) * cy + (cy - 1)) * cz + (cz - 1),
                ;
            }
        } else {
            proof {
                assert(cx * cy * cz == at + 1) by (nonlinear_arith)
                    requires
                        at == ((cx - 1) * cy + (cy - 1)) * cz + (cz - 1),
                ;
                assert(cuboids@ =~= want);
            }
            break;
        }
    }
    cuboids
}


/// The `k`-th cuboid of the cutout is one that the cutout touches, and it
/// stands at place `k`.
pub proof fn lemma_entry_touches(start: Vector3, stop: Vector3, size: Vector3, k: int)
    requires
        positive(size),
        0 <= k < decomposition_len(start, stop, size),
    ensures
        touches(start, stop, size, nth_index(start, stop, size, k)),
        position_of(start, stop, size, nth_index(start, stop, size, k)) == k,
{
    let cx = cuboid_count(start.x as int, stop.x as int, size.x as int);
    let cy = cuboid_count(start.y as int, stop.y as int, size.y as int);
    let cz = cuboid_count(start.z as int, stop.z as int, size.z as int);
    assert(cy > 0 && cz > 0) by (nonlinear_arith)
        requires
            0 < cx * cy * cz,
            cx >= 0,
            cy >= 0,
            cz >= 0,
    ;
    lemma_flat_of_coords(cx, cy, cz, k);
}

/// No cuboid index occurs twice in a decomposition: the list serves as a
/// map from cuboid indices to windows.
pub proof fn lemma_indices_differ(start: Vector3, stop: Vector3, size: Vector3, j: int, k: int)
    requires
        positive(size),
        0 <= j < decomposition(start, stop, size).len(),
        0 <= k < decomposition(start, stop, size).len(),
        decomposition(start, stop, size)[j].0 == decomposition(start, stop, size)[k].0,
    ensures
        j == k,
{
    lemma_entry_touches(start, stop, size, j);
    lemma_entry_touches(start, stop, size, k);
}

/// A cuboid that the cutout touches stands in the decomposition, at the
/// place that [`position_of`] names.
pub proof fn lemma_position_of(start: Vector3, stop: Vector3, size: Vector3, index: Vector3)
    requires
        positive(size),
        touches(start, stop, size, index),
    ensures
        0 <= position_of(start, stop, size, index) < decomposition_len(start, stop, size),
        nth_index(start, stop, size, position_of(start, stop, size, index)) == index,
{
    lemma_nth_index(
        start,
        stop,
        size,
        index.x - start.x / size.x,
        index.y - start.y / size.y,
        index.z - start.z / size.z,
    );
}

/// What the windows of a decomposition promise: each lies inside its
/// cuboid, and inside the cutout once carried to global coordinates.
pub proof fn lemma_window_bounds(start: Vector3, stop: Vector3, size: Vector3, k: int)
    requires
        positive(size),
        le3(start, stop),
        0 <= k < decomposition_len(start, stop, size),
    ensures
        ({
            let e = decomposition(start, stop, size)[k];
            &&& e.1.0.x <= e.1.1.x <= size.x
            &&& e.1.0.y <= e.1.1.y <= size.y
            &&& e.1.0.z <= e.1.1.z <= size.z
            &&& start.x <= e.0.x * size.x + e.1.0.x
            &&& start.y <= e.0.y * size.y + e.1.0.y
            &&& start.z <= e.0.z * size.z + e.1.0.z
            &&& e.0.x * size.x + e.1.1.x <= stop.x
            &&& e.0.y * size.y + e.1.1.y <= stop.y
            &&& e.0.z * size.z + e.1.1.z <= stop.z
            &&& 0 <= e.0.x * size.x
            &&& 0 <= e.0.y * size.y
            &&& 0 <= e.0.z * size.z
            &&& e.0.x <= stop.x / size.x
            &&& e.0.y <= stop.y / size.y
            &&& e.0.z <= stop.z / size.z
        }),
{
    let index = nth_index(start, stop, size, k);
    lemma_entry_touches(start, stop, size, k);
    lemma_axis_window(start.x as int, stop.x as int, size.x as int, index.x as int);
    lemma_axis_window(start.y as int, stop.y as int, size.y as int, index.y as int);
    lemma_axis_window(start.z as int, stop.z as int, size.z as int, index.z as int);
}

/// A position in the window of the `k`-th cuboid lies in the cutout, and
/// the `k`-th cuboid is the one that holds the position.
pub proof fn lemma_window_in_cutout(
    start: Vector3,
    stop: Vector3,
    size: Vector3,
    k: int,
    p: (int, int, int),
)
    requires
        positive(size),
        le3(start, stop),
        0 <= k < decomposition_len(start, stop, size),
        in_window(
            size,
            nth_index(start, stop, size, k),
            window_of(start, stop, size, nth_index(start, stop, size, k)),
            p,
        ),
    ensures
        in_cutout(start, stop, p),
        owner(size, p) == nth_index(start, stop, size, k),
        position_of(start, stop, size, owner(size, p)) == k,
{
    let index = nth_index(start, stop, size, k);
    lemma_entry_touches(start, stop, size, k);
    lemma_axis_window(start.x as int, stop.x as int, size.x as int, index.x as int);
    lemma_axis_window(start.y as int, stop.y as int, size.y as int, index.y as int);
    lemma_axis_window(start.z as int, stop.z as int, size.z as int, index.z as int);
    lemma_axis_owner(size.x as int, index.x as int, p.0);
    lemma_axis_owner(size.y as int, index.y as int, p.1);
    lemma_axis_owner(size.z as int, index.z as int, p.2);
}

/// A position of the cutout lies in the window of the cuboid that holds it,
/// and the cutout touches that cuboid.
pub proof fn lemma_cutout_in_window(start: Vector3, stop: Vector3, size: Vector3, p: (int, int, int))
    requires
        positive(size),
        le3(start, stop),
        in_cutout(start, stop, p),
    ensures
        touches(start, stop, size, owner(size, p)),
        in_window(size, owner(size, p), window_of(start, stop, size, owner(size, p)), p),
{
    lemma_axis_quotient(start.x as int, p.0, size.x as int);
    lemma_axis_quotient(start.y as int, p.1, size.y as int);
    lemma_axis_quotient(start.z as int, p.2, size.z as int);
    lemma_axis_quotient(p.0, stop.x as int, size.x as int);
    lemma_axis_quotient(p.1, stop.y as int, size.y as int);
    lemma_axis_quotient(p.2, stop.z as int, size.z as int);
    let index = owner(size, p);
    lemma_axis_range(size.x as int, p.0);
    lemma_axis_range(size.y as int, p.1);
    lemma_axis_range(size.z as int, p.2);
    lemma_axis_window(start.x as int, stop.x as int, size.x as int, index.x as int);
    lemma_axis_window(start.y as int, stop.y as int, size.y as int, index.y as int);
    lemma_axis_window(start.z as int, stop.z as int, size.z as int, index.z as int);
}

/// The windows of a decomposition, carried back to global coordinates,
/// cover the cutout exactly and do not overlap: a position lies in the
/// cutout if and only if it lies in the window of some cuboid of the
/// decomposition, and then in the window of no other.
pub proof fn lemma_decomposition_covers(start: Vector3, stop: Vector3, size: Vector3)
    requires
        positive(size),
        le3(start, stop),
    ensures
        forall|p: (int, int, int)|
            in_cutout(start, stop, p) <==> exists|k: int|
                0 <= k < decomposition(start, stop, size).len() && #[trigger] in_window(
                    size,
                    decomposition(start, stop, size)[k].0,
                    decomposition(start, stop, size)[k].1,
                    p,
                ),
        forall|p: (int, int, int), j: int, k: int|
            0 <= j < decomposition(start, stop, size).len() && 0 <= k < decomposition(
                start,
                stop,
                size,
            ).len() && #[trigger] in_window(
                size,
                decomposition(start, stop, size)[j].0,
                decomposition(start, stop, size)[j].1,
                p,
            ) && #[trigger] in_window(
                size,
                decomposition(start, stop, size)[k].0,
                decomposition(start, stop, size)[k].1,
                p,
            ) ==> j == k,
{
    let d = decomposition(start, stop, size);
    assert forall|p: (int, int, int)| in_cutout(start, stop, p) implies exists|k: int|
        0 <= k < d.len() && #[trigger] in_window(size, d[k].0, d[k].1, p) by {
        lemma_cutout_in_window(start, stop, size, p);
        lemma_position_of(start, stop, size, owner(size, p));
        let k = position_of(start, stop, size, owner(size, p));
        assert(in_window(size, d[k].0, d[k].1, p));
    }
    assert forall|p: (int, int, int)|
        (exists|k: int| 0 <= k < d.len() && #[trigger] in_window(size, d[k].0, d[k].1, p))
        implies in_cutout(start, stop, p) by {
        let k = choose|k: int| 0 <= k < d.len() && #[trigger] in_window(size, d[k].0, d[k].1, p);
        lemma_window_in_cutout(start, stop, size, k, p);
    }
    assert forall|p: (int, int, int), j: int, k: int|
        0 <= j < d.len() && 0 <= k < d.len() && #[trigger] in_window(size, d[j].0, d[j].1, p)
            && #[trigger] in_window(size, d[k].0, d[k].1, p) implies j == k by {
        lemma_window_in_cutout(start, stop, size, j, p);
        lemma_window_in_cutout(start, stop, size, k, p);
    }
}


} // verus!
