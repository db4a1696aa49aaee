//! What one block contributes to a read and receives from a write.
//!
//! A block is the byte content of one cuboid: `size.z * size.y * size.x`
//! voxels in Z-major order. Reads copy a window of a block into the output
//! buffer; writes copy a window of the input over a block. Both are stated
//! here over plain byte sequences, together with the names under which
//! blocks are stored.
use vstd::prelude::*;
use crate::cuboids::CuboidWindow;
use crate::cuboids::Vector3;
use crate::text::decimal_digits;
use crate::text::digit_run;
use crate::text::lemma_decimal_digits;
use crate::text::lemma_digit_run;
use crate::text::push_decimal;
use crate::volume::window_assign;
use crate::volume::zero_bytes;
use vstd::string::StringExecFns;

verus! {

/// A cuboid size whose components are positive and whose block can be held
/// in memory.
pub open spec fn valid_size(size: Vector3) -> bool {
    &&& size.x > 0
    &&& size.y > 0
    &&& size.z > 0
    &&& size.z * size.y * size.x <= isize::MAX
}

/// Every component of a valid cuboid size can serve as an axis length, and a
/// block of that shape can be allocated.
pub proof fn lemma_valid_size(size: Vector3)
    requires
        valid_size(size),
    ensures
        size.z <= isize::MAX,
        size.y <= isize::MAX,
        size.x <= isize::MAX,
        size.z <= usize::MAX,
        size.y <= usize::MAX,
        size.x <= usize::MAX,
        crate::volume::shape_fits(size.z as int, size.y as int, size.x as int),
{
    let z = size.z as int;
    let y = size.y as int;
    let x = size.x as int;
    assert(z <= z * y * x && y <= z * y * x && x <= z * y * x) by (nonlinear_arith)
        requires
            z >= 1,
            y >= 1,
            x >= 1,
    ;
}

/// Decides [`valid_size`].
pub fn size_is_valid(size: Vector3) -> (r: bool)
    ensures
        r == valid_size(size),
{
    if size.x == 0 || size.y == 0 || size.z == 0 {
        return false;
    }
    let limit: u64 = isize::MAX as u64;
    let zy = match size.z.checked_mul(size.y) {
        None => {
            assert(size.z * size.y * size.x > isize::MAX) by (nonlinear_arith)
                requires
                    size.z * size.y > u64::MAX,
                    u64::MAX >= isize::MAX,
                    size.x >= 1,
            ;
            return false;
        },
        Some(zy) => zy,
    };
    match zy.checked_mul(size.x) {
        None => false,
        Some(all) => all <= limit,
    }
}

/// Number of bytes in a block.
pub open spec fn block_len(size: Vector3) -> int {
    size.z * size.y * size.x
}

/// Whether the bytes found under a block's name are a block: stored content
/// of any other length is taken as absent.
pub open spec fn usable(size: Vector3, stored: Option<Seq<u8>>) -> bool {
    stored is Some && stored.unwrap().len() == block_len(size)
}

/// The content that a write starts from: the stored block when it is
/// usable, a zero-filled block otherwise.
pub open spec fn base_block(size: Vector3, stored: Option<Seq<u8>>) -> Seq<u8> {
    if usable(size, stored) {
        stored.unwrap()
    } else {
        zero_bytes(block_len(size))
    }
}

/// Lower corner, as `(z, y, x)`, of the window of `e` inside its cuboid.
pub open spec fn local_corner(e: CuboidWindow) -> (int, int, int) {
    (e.1.0.z as int, e.1.0.y as int, e.1.0.x as int)
}

/// Extent, as `(z, y, x)`, of the window of `e`.
pub open spec fn window_extent(e: CuboidWindow) -> (int, int, int) {
    (e.1.1.z - e.1.0.z, e.1.1.y - e.1.0.y, e.1.1.x - e.1.0.x)
}

/// Lower corner, as `(z, y, x)`, of the window of `e` inside a buffer whose
/// first voxel is the global position `origin`.
pub open spec fn buffer_corner(size: Vector3, e: CuboidWindow, origin: Vector3) -> (int, int, int) {
    (
        e.0.z * size.z + e.1.0.z - origin.z,
        e.0.y * size.y + e.1.0.y - origin.y,
        e.0.x * size.x + e.1.0.x - origin.x,
    )
}

/// The block of cuboid `e.0` after the window `e.1` of it has been
/// overwritten with the matching part of `data`, a buffer with axis lengths
/// `(_, ny, nx)` whose first voxel is the global position `origin`.
pub open spec fn merged(
    size: Vector3,
    base: Seq<u8>,
    e: CuboidWindow,
    origin: Vector3,
    data: Seq<u8>,
    ny: int,
    nx: int,
) -> Seq<u8> {
    window_assign(
        base,
        size.y as int,
        size.x as int,
        local_corner(e),
        data,
        ny,
        nx,
        buffer_corner(size, e, origin),
        window_extent(e),
    )
}

/// The output buffer, with axis lengths `(_, ny, nx)` and first voxel at
/// the global position `origin`, after the window `e.1` of `block` has been
/// copied to its place.
pub open spec fn copied(
    out: Seq<u8>,
    ny: int,
    nx: int,
    size: Vector3,
    e: CuboidWindow,
    origin: Vector3,
    block: Seq<u8>,
) -> Seq<u8> {
    window_assign(
        out,
        ny,
        nx,
        buffer_corner(size, e, origin),
        block,
        size.y as int,
        size.x as int,
        local_corner(e),
        window_extent(e),
    )
}

/// The file name of a cuboid: `x<X>_y<Y>_z<Z>`, indices in decimal.
pub open spec fn cuboid_name(index: Vector3) -> Seq<char> {
    seq!['x'] + decimal_digits(index.x as nat) + seq!['_', 'y'] + decimal_digits(index.y as nat)
        + seq!['_', 'z'] + decimal_digits(index.z as nat)
}

/// The path of a block: `<root>/<channel>/<resolution>/<cuboid name>`.
pub open spec fn block_path_text(
    root: Seq<char>,
    channel: Seq<char>,
    resolution: u8,
    index: Vector3,
) -> Seq<char> {
    root + seq!['/'] + channel + seq!['/'] + decimal_digits(resolution as nat) + seq!['/']
        + cuboid_name(index)
}

/// A cuboid name names one cuboid.
pub proof fn lemma_cuboid_names_differ(i: Vector3, j: Vector3)
    requires
        cuboid_name(i) == cuboid_name(j),
    ensures
        i == j,
{
    let s = cuboid_name(i);
    lemma_name_parts(i);
    lemma_name_parts(j);
    let lx = digit_run(s, 1);
    let ly = digit_run(s, 1 + lx + 2);
    assert(decimal_digits(i.x as nat) == decimal_digits(j.x as nat));
    assert(decimal_digits(i.y as nat) == decimal_digits(j.y as nat));
    assert(decimal_digits(i.z as nat) == decimal_digits(j.z as nat));
    lemma_decimal_digits(i.x as nat);
    lemma_decimal_digits(j.x as nat);
    lemma_decimal_digits(i.y as nat);
    lemma_decimal_digits(j.y as nat);
    lemma_decimal_digits(i.z as nat);
    lemma_decimal_digits(j.z as nat);
}

/// Where the three numbers stand in a cuboid name.
proof fn lemma_name_parts(i: Vector3)
    ensures
        ({
            let s = cuboid_name(i);
            let lx = digit_run(s, 1);
            let ly = digit_run(s, 1 + lx + 2);
            &&& 1 <= lx
            &&& 1 <= ly
            &&& 1 + lx + 2 + ly + 2 < s.len()
            &&& s.subrange(1, 1 + lx) == decimal_digits(i.x as nat)
            &&& s.subrange(1 + lx + 2, 1 + lx + 2 + ly) == decimal_digits(i.y as nat)
            &&& s.subrange(1 + lx + 2 + ly + 2, s.len() as int) == decimal_digits(i.z as nat)
        }),
{
    let s = cuboid_name(i);
    let dx = decimal_digits(i.x as nat);
    let dy = decimal_digits(i.y as nat);
    let dz = decimal_digits(i.z as nat);
    lemma_decimal_digits(i.x as nat);
    lemma_decimal_digits(i.y as nat);
    lemma_decimal_digits(i.z as nat);
    let px = 1int;
    let py = px + dx.len() + 2;
    let pz = py + dy.len() + 2;
    assert(s.len() == pz + dz.len());
    assert(s.subrange(px, px + dx.len()) =~= dx);
    assert(s.subrange(py, py + dy.len()) =~= dy);
    assert(s.subrange(pz, s.len() as int) =~= dz);
    assert(s[px + dx.len()] == '_');
    assert(s[py + dy.len()] == '_');
    lemma_digit_run(s, px, dx);
    lemma_digit_run(s, py, dy);
}

/// Under one root, channel and resolution, the blocks of two cuboids have
/// two paths.
pub proof fn lemma_block_paths_differ(
    root: Seq<char>,
    channel: Seq<char>,
    resolution: u8,
    i: Vector3,
    j: Vector3,
)
    requires
        block_path_text(root, channel, resolution, i) == block_path_text(
            root,
            channel,
            resolution,
            j,
        ),
    ensures
        i == j,
{
    let prefix = root + seq!['/'] + channel + seq!['/'] + decimal_digits(resolution as nat) + seq![
        '/',
    ];
    let a = block_path_text(root, channel, resolution, i);
    let b = block_path_text(root, channel, resolution, j);
    assert(a.subrange(prefix.len() as int, a.len() as int) =~= cuboid_name(i));
    assert(b.subrange(prefix.len() as int, b.len() as int) =~= cuboid_name(j));
    lemma_cuboid_names_differ(i, j);
}

/// The key of a block in an object store:
/// `<channel>/<resolution>/<cuboid name>`.
pub open spec fn object_key_text(channel: Seq<char>, resolution: u8, index: Vector3) -> Seq<char> {
    channel + seq!['/'] + decimal_digits(resolution as nat) + seq!['/'] + cuboid_name(index)
}

impl Vector3 {
    /// The vector as it appears in block names: `x<X>_y<Y>_z<Z>`.
    pub fn to_string(&self) -> (r: String)
        ensures
            r@ == cuboid_name(*self),
    {
        let mut r = String::new();
        push_cuboid_name(&mut r, *self);
        assert(r@ =~= cuboid_name(*self));
        r
    }
}

/// Appends the file name of cuboid `index` to `out`.
fn push_cuboid_name(out: &mut String, index: Vector3)
    ensures
        final(out)@ == old(out)@ + cuboid_name(index),
{
    proof {
        reveal_strlit("x");
        reveal_strlit("_y");
        reveal_strlit("_z");
    }
    out.append("x");
    push_decimal(out, index.x);
    out.append("_y");
    push_decimal(out, index.y);
    out.append("_z");
    push_decimal(out, index.z);
    assert("x"@ =~= seq!['x']);
    assert("_y"@ =~= seq!['_', 'y']);
    assert("_z"@ =~= seq!['_', 'z']);
    assert(final(out)@ =~= old(out)@ + cuboid_name(index));
}

/// The path under which the block of cuboid `index` is stored.
pub fn block_path(root: &str, channel: &str, resolution: u8, index: Vector3) -> (r: String)
    ensures
        r@ == block_path_text(root@, channel@, resolution, index),
{
    proof {
        reveal_strlit("/");
    }
    assert("/"@ =~= seq!['/']);
    let mut r = String::from_str(root);
    r.append("/");
    r.append(channel);
    r.append("/");
    push_decimal(&mut r, resolution as u64);
    r.append("/");
    push_cuboid_name(&mut r, index);
    assert(r@ =~= block_path_text(root@, channel@, resolution, index));
    r
}

/// The key under which an object store keeps the block of cuboid `index`.
pub fn object_key(channel: &str, resolution: u8, index: Vector3) -> (r: String)
    ensures
        r@ == object_key_text(channel@, resolution, index),
{
    proof {
        reveal_strlit("/");
    }
    assert("/"@ =~= seq!['/']);
    let mut r = String::from_str(channel);
    r.append("/");
    push_decimal(&mut r, resolution as u64);
    r.append("/");
    push_cuboid_name(&mut r, index);
    assert(r@ =~= object_key_text(channel@, resolution, index));
    r
}

} // verus!
