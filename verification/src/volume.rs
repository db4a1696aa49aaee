//! Voxel buffers.
//!
//! A [`Volume`] is a three-dimensional array of `u8` voxels kept by the
//! `ndarray` crate. Its axes are ordered Z, Y, X: the X axis varies fastest,
//! so a voxel named `(x, y, z)` in cutout coordinates lives at array index
//! `[z, y, x]`. Verification cannot look inside the array; what it holds is
//! described by two uninterpreted functions, [`volume_shape`] and
//! [`volume_voxels`], and the few operations of `ndarray` that the cache needs
//! are given contracts over them. Those contracts are assumed, not proved.
use vstd::prelude::*;
use crate::layout::fast;
use crate::layout::flat;
use crate::layout::lemma_coords_of_flat;
use crate::layout::lemma_flat_of_coords;
use crate::layout::mid;
use crate::layout::slow;

verus! {

/// A three-dimensional array of voxels with axes `(z, y, x)`.
#[verifier::external_body]
pub struct Volume {
    cells: ndarray::Array3<u8>,
}

/// The axis lengths of a volume, slowest axis first: `[nz, ny, nx]`.
pub uninterp spec fn volume_shape(v: Volume) -> Seq<usize>;

/// The voxels of a volume in logical order, the last axis varying fastest.
pub uninterp spec fn volume_voxels(v: Volume) -> Seq<u8>;

/// An axis length, with an empty axis counted as one.
pub open spec fn at_least_one(n: int) -> int {
    if n == 0 {
        1
    } else {
        n
    }
}

/// Whether an array with these axis lengths can be allocated: the product of
/// its non-zero axis lengths does not exceed `isize::MAX`.
pub open spec fn shape_fits(nz: int, ny: int, nx: int) -> bool {
    at_least_one(nz) * at_least_one(ny) * at_least_one(nx) <= isize::MAX
}

/// A buffer of `n` zero bytes.
pub open spec fn zero_bytes(n: int) -> Seq<u8> {
    Seq::new(n as nat, |i: int| 0u8)
}

/// A corner of an axis-aligned box, as an array index `[z, y, x]`.
pub struct Corner {
    pub z: usize,
    pub y: usize,
    pub x: usize,
}

/// The result of copying a box of `src` over a box of `dst` of the same
/// extent `ext`.
///
/// `dst` has axis lengths `(_, dy, dx)` and the box has its lower corner at
/// `dlo` in it; `src` has axis lengths `(_, sy, sx)` and the box has its
/// lower corner at `slo` in it. Corners and extent are given as `(z, y, x)`.
/// Voxels of `dst` outside the box are kept.
pub open spec fn window_assign(
    dst: Seq<u8>,
    dy: int,
    dx: int,
    dlo: (int, int, int),
    src: Seq<u8>,
    sy: int,
    sx: int,
    slo: (int, int, int),
    ext: (int, int, int),
) -> Seq<u8> {
    Seq::new(
        dst.len(),
        |i: int|
            {
                let z = slow(dy, dx, i);
                let y = mid(dy, dx, i);
                let x = fast(dx, i);
                if dlo.0 <= z < dlo.0 + ext.0 && dlo.1 <= y < dlo.1 + ext.1 && dlo.2 <= x < dlo.2
                    + ext.2 {
                    src[flat(sy, sx, z - dlo.0 + slo.0, y - dlo.1 + slo.1, x - dlo.2 + slo.2)]
                } else {
                    dst[i]
                }
            },
    )
}

/// The voxel that [`window_assign`] leaves at index `[z, y, x]`.
pub proof fn lemma_window_assign_at(
    dst: Seq<u8>,
    dy: int,
    dx: int,
    dlo: (int, int, int),
    src: Seq<u8>,
    sy: int,
    sx: int,
    slo: (int, int, int),
    ext: (int, int, int),
    z: int,
    y: int,
    x: int,
)
    requires
        0 <= y < dy,
        0 <= x < dx,
        0 <= flat(dy, dx, z, y, x) < dst.len(),
    ensures
        window_assign(dst, dy, dx, dlo, src, sy, sx, slo, ext)[flat(dy, dx, z, y, x)] == (if dlo.0
            <= z < dlo.0 + ext.0 && dlo.1 <= y < dlo.1 + ext.1 && dlo.2 <= x < dlo.2 + ext.2 {
            src[flat(sy, sx, z - dlo.0 + slo.0, y - dlo.1 + slo.1, x - dlo.2 + slo.2)]
        } else {
            dst[flat(dy, dx, z, y, x)]
        }),
{
    lemma_coords_of_flat(dy, dx, z, y, x);
}

/// Copying a box without voxels changes nothing.
pub proof fn lemma_window_assign_empty(
    dst: Seq<u8>,
    dy: int,
    dx: int,
    dlo: (int, int, int),
    src: Seq<u8>,
    sy: int,
    sx: int,
    slo: (int, int, int),
    ext: (int, int, int),
)
    requires
        ext.0 <= 0 || ext.1 <= 0 || ext.2 <= 0,
    ensures
        window_assign(dst, dy, dx, dlo, src, sy, sx, slo, ext) == dst,
{
    assert(window_assign(dst, dy, dx, dlo, src, sy, sx, slo, ext) =~= dst);
}

/// Copying the whole of a buffer over the whole of another of the same
/// shape gives the first.
pub proof fn lemma_window_assign_full(dst: Seq<u8>, src: Seq<u8>, nz: int, ny: int, nx: int)
    requires
        0 < ny,
        0 < nx,
        dst.len() == nz * ny * nx,
        src.len() == nz * ny * nx,
    ensures
        window_assign(dst, ny, nx, (0, 0, 0), src, ny, nx, (0, 0, 0), (nz, ny, nx)) == src,
{
    let r = window_assign(dst, ny, nx, (0, 0, 0), src, ny, nx, (0, 0, 0), (nz, ny, nx));
    assert forall|i: int| 0 <= i < r.len() implies r[i] == src[i] by {
        lemma_flat_of_coords(nz, ny, nx, i);
    }
    assert(r =~= src);
}

impl Volume {
    /// Length of the Z axis.
    pub open spec fn nz(&self) -> int {
        volume_shape(*self)[0] as int
    }

    /// Length of the Y axis.
    pub open spec fn ny(&self) -> int {
        volume_shape(*self)[1] as int
    }

    /// Length of the X axis.
    pub open spec fn nx(&self) -> int {
        volume_shape(*self)[2] as int
    }

    /// The voxels in logical order.
    pub open spec fn voxels(&self) -> Seq<u8> {
        volume_voxels(*self)
    }

    /// The shape has three axes and the voxel sequence has one entry per
    /// index. This holds of every volume; [`Volume::dim`] hands the fact to
    /// the verifier.
    pub open spec fn wf(&self) -> bool {
        &&& volume_shape(*self).len() == 3
        &&& self.voxels().len() == self.nz() * self.ny() * self.nx()
    }

    /// Whether `self` has exactly these axis lengths and these voxels.
    pub open spec fn holds(&self, nz: int, ny: int, nx: int, voxels: Seq<u8>) -> bool {
        &&& self.wf()
        &&& self.nz() == nz
        &&& self.ny() == ny
        &&& self.nx() == nx
        &&& self.voxels() == voxels
    }

    /// A zero-filled volume with the given axis lengths, or `None` when a
    /// buffer of that shape cannot be allocated.
    pub fn zeros(nz: usize, ny: usize, nx: usize) -> (r: Option<Volume>)
        ensures
            r.is_some() <==> shape_fits(nz as int, ny as int, nx as int),
            r.is_some() ==> r.unwrap().holds(
                nz as int,
                ny as int,
                nx as int,
                zero_bytes(nz * ny * nx),
            ),
    {
        if fits(nz, ny, nx) {
            Some(array_zeros(nz, ny, nx))
        } else {
            None
        }
    }

    /// The volume with the given axis lengths whose voxels, in logical
    /// order, are `bytes`; `None` when the shape cannot be allocated or does
    /// not have exactly `bytes.len()` voxels.
    pub fn from_shape_vec(nz: usize, ny: usize, nx: usize, bytes: Vec<u8>) -> (r: Option<Volume>)
        ensures
            r.is_some() <==> shape_fits(nz as int, ny as int, nx as int) && nz * ny * nx
                == bytes@.len(),
            r.is_some() ==> r.unwrap().holds(nz as int, ny as int, nx as int, bytes@),
    {
        array_from_shape_vec(nz, ny, nx, bytes)
    }

    /// The axis lengths `(nz, ny, nx)`.
    pub fn dim(&self) -> (r: (usize, usize, usize))
        ensures
            self.wf(),
            r.0 == self.nz(),
            r.1 == self.ny(),
            r.2 == self.nx(),
    {
        array_dim(self)
    }

    /// The voxels in logical order, the X axis varying fastest.
    pub fn to_vec(&self) -> (r: Vec<u8>)
        ensures
            r@ == self.voxels(),
    {
        array_to_vec(self)
    }
}

/// Decides [`shape_fits`].
pub fn fits(nz: usize, ny: usize, nx: usize) -> (ok: bool)
    ensures
        ok == shape_fits(nz as int, ny as int, nx as int),
{
    let a: usize = if nz == 0 {
        1
    } else {
        nz
    };
    let b: usize = if ny == 0 {
        1
    } else {
        ny
    };
    let c: usize = if nx == 0 {
        1
    } else {
        nx
    };
    let limit: usize = isize::MAX as usize;
    match a.checked_mul(b) {
        None => {
            assert(a * b * c > isize::MAX) by (nonlinear_arith)
                requires
                    a * b > usize::MAX,
                    usize::MAX >= isize::MAX,
                    c >= 1,
            ;
            false
        },
        Some(ab) => match ab.checked_mul(c) {
            None => false,
            Some(abc) => abc <= limit,
        },
    }
}

/// `ndarray::Array3::zeros`: a new array of the given shape, every element
/// zero. The call panics when the product of the non-zero axis lengths
/// exceeds `isize::MAX`, which the precondition rules out.
#[verifier::external_body]
fn array_zeros(nz: usize, ny: usize, nx: usize) -> (r: Volume)
    requires
        shape_fits(nz as int, ny as int, nx as int),
    ensures
        volume_shape(r) == seq![nz, ny, nx],
        volume_voxels(r) == zero_bytes(nz * ny * nx),
{
    Volume { cells: ndarray::Array3::zeros((nz, ny, nx)) }
}

/// `ndarray::Array3::from_shape_vec` with a row-major shape: the array of
/// that shape whose elements in logical order are those of the vector. It
/// fails when the product of the non-zero axis lengths exceeds `isize::MAX`
/// or the shape does not have as many elements as the vector.
#[verifier::external_body]
fn array_from_shape_vec(nz: usize, ny: usize, nx: usize, bytes: Vec<u8>) -> (r: Option<Volume>)
    ensures
        r.is_some() == (shape_fits(nz as int, ny as int, nx as int) && nz * ny * nx
            == bytes@.len()),
        r.is_some() ==> volume_shape(r.unwrap()) == seq![nz, ny, nx],
        r.is_some() ==> volume_voxels(r.unwrap()) == bytes@,
{
    match ndarray::Array3::from_shape_vec((nz, ny, nx), bytes) {
        Ok(cells) => Some(Volume { cells }),
        Err(_) => None,
    }
}

/// `ndarray::ArrayBase::dim`: the axis lengths of the array. An array has
/// one element for every index within its axis lengths.
#[verifier::external_body]
fn array_dim(v: &Volume) -> (r: (usize, usize, usize))
    ensures
        volume_shape(*v) == seq![r.0, r.1, r.2],
        volume_voxels(*v).len() == r.0 * r.1 * r.2,
{
    v.cells.dim()
}

/// `ndarray::ArrayBase::iter`, collected: the elements in logical order, the
/// rightmost index varying fastest.
#[verifier::external_body]
fn array_to_vec(v: &Volume) -> (r: Vec<u8>)
    ensures
        r@ == volume_voxels(*v),
{
    v.cells.iter().copied().collect()
}

/// `ndarray::ArrayBase::assign` between two slices taken with
/// `slice_axis_inplace`: the box `[dlo, dhi)` of `dst` receives the box
/// `[slo, shi)` of `src`, index by index; the rest of `dst` and its shape
/// stay as they were. Slicing panics on a range that leaves the array and
/// assignment on boxes of different extent; the precondition rules both out.
#[verifier::external_body]
pub(crate) fn array_assign_window(
    dst: &mut Volume,
    dlo: Corner,
    dhi: Corner,
    src: &Volume,
    slo: Corner,
    shi: Corner,
)
    requires
        old(dst).wf(),
        src.wf(),
        dlo.z <= dhi.z <= old(dst).nz(),
        dlo.y <= dhi.y <= old(dst).ny(),
        dlo.x <= dhi.x <= old(dst).nx(),
        slo.z <= shi.z <= src.nz(),
        slo.y <= shi.y <= src.ny(),
        slo.x <= shi.x <= src.nx(),
        dhi.z - dlo.z == shi.z - slo.z,
        dhi.y - dlo.y == shi.y - slo.y,
        dhi.x - dlo.x == shi.x - slo.x,
    ensures
        volume_shape(*final(dst)) == volume_shape(*old(dst)),
        volume_voxels(*final(dst)) == window_assign(
            volume_voxels(*old(dst)),
            old(dst).ny(),
            old(dst).nx(),
            (dlo.z as int, dlo.y as int, dlo.x as int),
            volume_voxels(*src),
            src.ny(),
            src.nx(),
            (slo.z as int, slo.y as int, slo.x as int),
            (dhi.z - dlo.z, dhi.y - dlo.y, dhi.x - dlo.x),
        ),
{
    let mut into = dst.cells.view_mut();
    into.slice_axis_inplace(ndarray::Axis(0), ndarray::Slice::from(dlo.z..dhi.z));
    into.slice_axis_inplace(ndarray::Axis(1), ndarray::Slice::from(dlo.y..dhi.y));
    into.slice_axis_inplace(ndarray::Axis(2), ndarray::Slice::from(dlo.x..dhi.x));
    let mut from = src.cells.view();
    from.slice_axis_inplace(ndarray::Axis(0), ndarray::Slice::from(slo.z..shi.z));
    from.slice_axis_inplace(ndarray::Axis(1), ndarray::Slice::from(slo.y..shi.y));
    from.slice_axis_inplace(ndarray::Axis(2), ndarray::Slice::from(slo.x..shi.x));
    into.assign(&from);
}

} // verus!
