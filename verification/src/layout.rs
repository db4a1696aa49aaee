//! Row-major addressing of a three-dimensional grid.
//!
//! A grid with axis lengths `(nz, ny, nx)` is laid out with the last axis
//! varying fastest: cell `(z, y, x)` sits at offset `(z * ny + y) * nx + x`.
//! Both the voxel buffers and the list of cuboids touched by a cutout use
//! this addressing, so the arithmetic facts about it are collected here.
use vstd::prelude::*;
use vstd::arithmetic::div_mod::lemma_fundamental_div_mod_converse;
use vstd::arithmetic::div_mod::lemma_fundamental_div_mod;

verus! {

/// Offset of cell `(a, b, c)` in a grid whose two fastest axes have lengths
/// `nb` and `nc`.
pub open spec fn flat(nb: int, nc: int, a: int, b: int, c: int) -> int {
    (a * nb + b) * nc + c
}

/// Slowest coordinate of the cell at offset `i`.
pub open spec fn slow(nb: int, nc: int, i: int) -> int {
    (i / nc) / nb
}

/// Middle coordinate of the cell at offset `i`.
pub open spec fn mid(nb: int, nc: int, i: int) -> int {
    (i / nc) % nb
}

/// Fastest coordinate of the cell at offset `i`.
pub open spec fn fast(nc: int, i: int) -> int {
    i % nc
}

/// The offset of a cell inside the grid is inside the buffer.
pub proof fn lemma_flat_bounds(na: int, nb: int, nc: int, a: int, b: int, c: int)
    requires
        0 <= a < na,
        0 <= b < nb,
        0 <= c < nc,
    ensures
        0 <= flat(nb, nc, a, b, c) < na * nb * nc,
{
    assert(0 <= a * nb) by (nonlinear_arith)
        requires 0 <= a, 0 <= nb;
    assert(a * nb + b <= na * nb - 1) by (nonlinear_arith)
        requires 0 <= a < na, 0 <= b < nb;
    assert((a * nb + b) * nc >= 0) by (nonlinear_arith)
        requires 0 <= a * nb + b, 0 <= nc;
    assert((a * nb + b) * nc + c < na * nb * nc) by (nonlinear_arith)
        requires a * nb + b <= na * nb - 1, 0 <= c < nc, 0 <= a * nb + b;
}

/// Taking the coordinates of a cell's offset gives the cell back.
pub proof fn lemma_coords_of_flat(nb: int, nc: int, a: int, b: int, c: int)
    requires
        0 <= b < nb,
        0 <= c < nc,
    ensures
        slow(nb, nc, flat(nb, nc, a, b, c)) == a,
        mid(nb, nc, flat(nb, nc, a, b, c)) == b,
        fast(nc, flat(nb, nc, a, b, c)) == c,
{
    let i = flat(nb, nc, a, b, c);
    lemma_fundamental_div_mod_converse(i, nc, a * nb + b, c);
    lemma_fundamental_div_mod_converse(a * nb + b, nb, a, b);
}

/// Every offset inside the buffer is the offset of exactly the cell named by
/// its coordinates.
pub proof fn lemma_flat_of_coords(na: int, nb: int, nc: int, i: int)
    requires
        0 <= i < na * nb * nc,
        0 < nb,
        0 < nc,
    ensures
        0 <= slow(nb, nc, i) < na,
        0 <= mid(nb, nc, i) < nb,
        0 <= fast(nc, i) < nc,
        flat(nb, nc, slow(nb, nc, i), mid(nb, nc, i), fast(nc, i)) == i,
{
    let q = i / nc;
    lemma_fundamental_div_mod(i, nc);
    lemma_fundamental_div_mod(q, nb);
    assert(0 <= i % nc < nc) by (nonlinear_arith)
        requires 0 < nc;
    assert(0 <= q % nb < nb) by (nonlinear_arith)
        requires 0 < nb;
    assert(q >= 0) by (nonlinear_arith)
        requires i >= 0, nc > 0, q == i / nc;
    assert(q < na * nb) by (nonlinear_arith)
        requires i < na * nb * nc, i == nc * q + i % nc, 0 <= i % nc, nc > 0;
    let s = q / nb;
    assert(s >= 0) by (nonlinear_arith)
        requires q >= 0, nb > 0, s == q / nb;
    assert(s < na) by (nonlinear_arith)
        requires q < na * nb, q == nb * s + q % nb, 0 <= q % nb, nb > 0;
    assert(nb * s == s * nb) by (nonlinear_arith);
    assert(nc * q == q * nc) by (nonlinear_arith);
}

} // verus!
