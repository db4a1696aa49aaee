//! The block store as sessions see it, and what reads and writes do to it.
//!
//! For one root, channel and resolution the store is a map from cuboid
//! indices to the bytes kept under the cuboid's name; two cuboids never
//! share a name. A session never sees
//! the store; it is handed, cuboid after cuboid, what the store holds, and
//! hands back what the store is to hold. This module follows a whole read and
//! a whole write through such a store, assuming that every file operation
//! succeeds, and proves what the cache promises about them.
use vstd::prelude::*;
use crate::blocks::base_block;
use crate::blocks::block_len;
use crate::blocks::buffer_corner;
use crate::blocks::copied;
use crate::blocks::local_corner;
use crate::blocks::merged;
use crate::blocks::usable;
use crate::blocks::valid_size;
use crate::blocks::window_extent;
use crate::cuboids::decomposition;
use crate::cuboids::in_cutout;
use crate::cuboids::in_window;
use crate::cuboids::le3;
use crate::cuboids::lemma_axis_owner;
use crate::cuboids::lemma_cutout_in_window;
use crate::cuboids::lemma_entry_touches;
use crate::cuboids::lemma_position_of;
use crate::cuboids::lemma_window_bounds;
use crate::cuboids::lemma_window_in_cutout;
use crate::cuboids::local_start;
use crate::cuboids::local_stop;
use crate::cuboids::nth_index;
use crate::cuboids::owner;
use crate::cuboids::position_of;
use crate::cuboids::touches;
use crate::cuboids::window_of;
use crate::cuboids::Vector3;
use crate::data_manager::cuboid_region;
use crate::data_manager::empty_cutout;
use crate::data_manager::end_of;
use crate::data_manager::get_start;
use crate::data_manager::merged_block;
use crate::data_manager::put_start;
use crate::data_manager::read_plan;
use crate::data_manager::readable;
use crate::data_manager::served;
use crate::data_manager::writable;
use crate::data_manager::write_back;
use crate::data_manager::GetView;
use crate::data_manager::PutView;
use crate::layout::fast;
use crate::layout::flat;
use crate::layout::lemma_flat_bounds;
use crate::layout::lemma_flat_of_coords;
use crate::layout::mid;
use crate::layout::slow;
use crate::volume::lemma_window_assign_at;
use crate::volume::lemma_window_assign_empty;
use crate::volume::lemma_window_assign_full;
use crate::volume::zero_bytes;

verus! {

/// The blocks kept for one channel at one resolution, by cuboid index.
pub type Store = Map<Vector3, Seq<u8>>;

/// What a session is handed for cuboid `index`: the bytes under its name, if
/// there are any.
pub open spec fn stored_at(store: Store, index: Vector3) -> Option<Seq<u8>> {
    if store.contains_key(index) {
        Some(store[index])
    } else {
        None
    }
}

/// The write `v` at its `k`-th cuboid.
pub open spec fn put_at(v: PutView, k: int) -> PutView {
    PutView { next: k, ..v }
}

/// The store after the first `n` cuboids of the write `v` have been merged
/// and written back, each from what the store held when its turn came.
pub open spec fn put_blocks(store: Store, v: PutView, n: nat) -> Store
    decreases n,
{
    if n == 0 {
        store
    } else {
        let before = put_blocks(store, v, (n - 1) as nat);
        let index = v.cuboids[n - 1].0;
        before.insert(index, merged_block(put_at(v, n - 1), stored_at(before, index)))
    }
}

/// The store after the whole write `v`.
pub open spec fn put_all(store: Store, v: PutView) -> Store {
    put_blocks(store, v, v.cuboids.len())
}

/// The store and the read after the first `n` cuboids of the read that
/// begins as `v` have been served, or `None` if one of them could be served
/// neither from the store nor from the next layer.
///
/// `upstream` holds the cuboids that the next layer delivers. A cuboid with
/// a usable block in the store is served from it. Any other is served from
/// `upstream` and written back as [`write_back`] says; if `upstream` has no
/// block of the right size for it, the read fails.
pub open spec fn get_blocks(store: Store, upstream: Store, v: GetView, n: nat) -> Option<
    (Store, GetView),
>
    decreases n,
{
    if n == 0 {
        Some((store, v))
    } else {
        match get_blocks(store, upstream, v, (n - 1) as nat) {
            None => None,
            Some((s, w)) => {
                let index = w.cuboids[w.next].0;
                if usable(w.size, stored_at(s, index)) {
                    Some((s, served(w, s[index])))
                } else if usable(w.size, stored_at(upstream, index)) {
                    Some((put_all(s, write_back(w, upstream[index])), served(w, upstream[index])))
                } else {
                    None
                }
            },
        }
    }
}

/// The store and the read after the whole read that begins as `v`.
pub open spec fn get_all(store: Store, upstream: Store, v: GetView) -> Option<(Store, GetView)> {
    get_blocks(store, upstream, v, v.cuboids.len())
}

/// A write as a manager begins it: the input has one voxel per index, ends
/// within the coordinate space, and every cuboid of its region is to come.
pub open spec fn put_ready(v: PutView) -> bool {
    &&& valid_size(v.size)
    &&& 0 <= v.nz
    &&& 0 <= v.ny
    &&& 0 <= v.nx
    &&& writable(v.origin, v.nz, v.ny, v.nx)
    &&& v.data.len() == v.nz * v.ny * v.nx
    &&& v.cuboids == decomposition(v.origin, end_of(v.origin, v.nz, v.ny, v.nx), v.size)
    &&& v.next == 0
}

/// A read as a manager begins it.
pub open spec fn get_ready(v: GetView) -> bool {
    &&& valid_size(v.size)
    &&& le3(v.origin, v.destination)
    &&& readable(v.size, v.origin, v.destination)
    &&& v.cuboids == read_plan(v.origin, v.destination, v.size)
    &&& v.next == 0
    &&& v.out == zero_bytes(
        (v.destination.z - v.origin.z) * (v.destination.y - v.origin.y) * (v.destination.x
            - v.origin.x),
    )
}

/// The write that a manager begins is ready: what is proved here of ready
/// writes holds of the session that `begin_put` returns.
pub proof fn lemma_begun_put_is_ready(
    root: Seq<char>,
    channel: Seq<char>,
    resolution: u8,
    size: Vector3,
    origin: Vector3,
    nz: int,
    ny: int,
    nx: int,
    data: Seq<u8>,
)
    requires
        valid_size(size),
        0 <= nz,
        0 <= ny,
        0 <= nx,
        writable(origin, nz, ny, nx),
        data.len() == nz * ny * nx,
    ensures
        put_ready(put_start(root, channel, resolution, size, origin, nz, ny, nx, data)),
{
}

/// The read that a manager begins is ready: what is proved here of ready
/// reads holds of the session that `begin_get` returns.
pub proof fn lemma_begun_get_is_ready(
    root: Seq<char>,
    channel: Seq<char>,
    resolution: u8,
    size: Vector3,
    origin: Vector3,
    destination: Vector3,
    track_usage: bool,
)
    requires
        valid_size(size),
        le3(origin, destination),
        readable(size, origin, destination),
    ensures
        get_ready(get_start(root, channel, resolution, size, origin, destination, track_usage)),
{
}

/// Where the input of the write `v` ends.
pub open spec fn put_stop(v: PutView) -> Vector3 {
    end_of(v.origin, v.nz, v.ny, v.nx)
}

/// A merged block has the length of a block.
pub proof fn lemma_merged_len(v: PutView, stored: Option<Seq<u8>>)
    requires
        valid_size(v.size),
    ensures
        merged_block(v, stored).len() == block_len(v.size),
        usable(v.size, Some(merged_block(v, stored))),
{
}

/// What a write leaves under the name of a cuboid: for a cuboid among its
/// first `n`, the block merged from what the store held before the write;
/// for any other, what the store held.
pub proof fn lemma_put_blocks_at(store: Store, v: PutView, n: nat, index: Vector3)
    requires
        put_ready(v),
        n <= v.cuboids.len(),
    ensures
        stored_at(put_blocks(store, v, n), index) == (if touches(
            v.origin,
            put_stop(v),
            v.size,
            index,
        ) && position_of(v.origin, put_stop(v), v.size, index) < n {
            Some(
                merged_block(
                    put_at(v, position_of(v.origin, put_stop(v), v.size, index)),
                    stored_at(store, index),
                ),
            )
        } else {
            stored_at(store, index)
        }),
    decreases n,
{
    let start = v.origin;
    let stop = put_stop(v);
    if n > 0 {
        let before = put_blocks(store, v, (n - 1) as nat);
        let last = v.cuboids[n - 1].0;
        lemma_put_blocks_at(store, v, (n - 1) as nat, index);
        lemma_put_blocks_at(store, v, (n - 1) as nat, last);
        lemma_entry_touches(start, stop, v.size, n - 1);
        assert(last == nth_index(start, stop, v.size, n - 1));
        if touches(start, stop, v.size, index) {
            lemma_position_of(start, stop, v.size, index);
        }
        if index == last {
            assert(position_of(start, stop, v.size, index) == n - 1);
            assert(stored_at(before, last) == stored_at(store, last));
        } else {
            assert(stored_at(put_blocks(store, v, n), index) == stored_at(before, index));
            if touches(start, stop, v.size, index) {
                assert(position_of(start, stop, v.size, index) != n - 1);
            }
        }
    }
}

/// On one axis, the region of cuboid `i` touches the cuboids `i` and `i + 1`,
/// the first in full and the second not at all.
pub proof fn lemma_axis_own_region(size: int, i: int, j: int)
    requires
        size > 0,
        0 <= i,
    ensures
        (i * size) / size == i,
        ((i + 1) * size) / size == i + 1,
        local_start(i * size, size, i) == 0,
        local_stop((i + 1) * size, size, i) == size,
        j > i ==> local_start(i * size, size, j) == 0,
        local_stop((i + 1) * size, size, i + 1) == 0,
{
    assert((i + 1) * size == i * size + size) by (nonlinear_arith);
    assert((i + 2) * size == i * size + size + size) by (nonlinear_arith);
    assert((i + 1 + 1) * size == (i + 2) * size);
    lemma_axis_owner(size, i, i * size);
    lemma_axis_owner(size, i + 1, (i + 1) * size);
    vstd::arithmetic::div_mod::lemma_fundamental_div_mod((i + 1) * size, size);
    assert(size * (i + 1) == (i + 1) * size) by (nonlinear_arith);
    if j > i {
        assert(j * size >= (i + 1) * size) by (nonlinear_arith)
            requires
                j >= i + 1,
                size > 0,
        ;
    }
}

/// Whether cuboid `index` ends within the coordinate space.
pub open spec fn region_fits(size: Vector3, index: Vector3) -> bool {
    &&& (index.x + 1) * size.x <= u64::MAX
    &&& (index.y + 1) * size.y <= u64::MAX
    &&& (index.z + 1) * size.z <= u64::MAX
}

/// The write that persists a fetched cuboid puts the fetched block under the
/// cuboid's own name and leaves every other usable block as it was.
pub proof fn lemma_write_back_at(store: Store, w: GetView, block: Seq<u8>, index: Vector3)
    requires
        valid_size(w.size),
        0 <= w.next < w.cuboids.len(),
        region_fits(w.size, w.cuboids[w.next].0),
        block.len() == block_len(w.size),
    ensures
        index == w.cuboids[w.next].0 ==> stored_at(put_all(store, write_back(w, block)), index)
            == Some(block),
        index != w.cuboids[w.next].0 && usable(w.size, stored_at(store, index)) ==> stored_at(
            put_all(store, write_back(w, block)),
            index,
        ) == stored_at(store, index),
        usable(w.size, stored_at(store, index)) || index == w.cuboids[w.next].0 ==> usable(
            w.size,
            stored_at(put_all(store, write_back(w, block)), index),
        ),
{
    let size = w.size;
    let own = w.cuboids[w.next].0;
    let v = write_back(w, block);
    let start = v.origin;
    let stop = put_stop(v);
    assert(0 <= own.x * size.x <= (own.x + 1) * size.x && 0 <= own.y * size.y <= (own.y + 1)
        * size.y && 0 <= own.z * size.z <= (own.z + 1) * size.z) by (nonlinear_arith)
        requires
            size.x > 0,
            size.y > 0,
            size.z > 0,
            own.x >= 0,
            own.y >= 0,
            own.z >= 0,
    ;
    assert((own.x + 1) * size.x == own.x * size.x + size.x && (own.y + 1) * size.y == own.y
        * size.y + size.y && (own.z + 1) * size.z == own.z * size.z + size.z)
        by (nonlinear_arith);
    assert(start == cuboid_region(size, own).0);
    assert(stop == cuboid_region(size, own).1);
    assert(put_ready(v));
    lemma_put_blocks_at(store, v, v.cuboids.len(), index);
    lemma_axis_own_region(size.x as int, own.x as int, index.x as int);
    lemma_axis_own_region(size.y as int, own.y as int, index.y as int);
    lemma_axis_own_region(size.z as int, own.z as int, index.z as int);
    if touches(start, stop, size, index) {
        lemma_position_of(start, stop, size, index);
        let k = position_of(start, stop, size, index);
        let e = v.cuboids[k];
        assert(e.0 == index);
        assert(e.1 == window_of(start, stop, size, index));
        let base = base_block(size, stored_at(store, index));
        if index == own {
            assert(local_corner(e) == (0int, 0int, 0int));
            assert(window_extent(e) == (size.z as int, size.y as int, size.x as int));
            assert(buffer_corner(size, e, start) == (0int, 0int, 0int));
            lemma_window_assign_full(base, block, size.z as int, size.y as int, size.x as int);
        } else {
            assert(index.x == own.x + 1 || index.y == own.y + 1 || index.z == own.z + 1);
            assert(window_extent(e).0 <= 0 || window_extent(e).1 <= 0 || window_extent(e).2 <= 0);
            lemma_window_assign_empty(
                base,
                size.y as int,
                size.x as int,
                local_corner(e),
                block,
                size.y as int,
                size.x as int,
                buffer_corner(size, e, start),
                window_extent(e),
            );
        }
    } else {
        assert(index != own);
    }
}

/// Serving cuboids leaves the parameters of a read alone and counts up.
pub proof fn lemma_get_blocks_shape(store: Store, upstream: Store, v: GetView, n: nat)
    requires
        v.next == 0,
        get_blocks(store, upstream, v, n) is Some,
    ensures
        get_blocks(store, upstream, v, n).unwrap().1 == (GetView {
            next: n as int,
            out: get_blocks(store, upstream, v, n).unwrap().1.out,
            ..v
        }),
        n > 0 ==> get_blocks(store, upstream, v, (n - 1) as nat) is Some,
    decreases n,
{
    if n > 0 {
        lemma_get_blocks_shape(store, upstream, v, (n - 1) as nat);
    }
}

/// A read never changes a block that is usable: the store after `n` cuboids
/// holds every block that was usable after `m <= n` of them as it was then.
pub proof fn lemma_get_blocks_keep(
    store: Store,
    upstream: Store,
    v: GetView,
    m: nat,
    n: nat,
    index: Vector3,
)
    requires
        get_ready(v),
        m <= n <= v.cuboids.len(),
        get_blocks(store, upstream, v, n) is Some,
    ensures
        get_blocks(store, upstream, v, m) is Some,
        usable(v.size, stored_at(get_blocks(store, upstream, v, m).unwrap().0, index)) ==> stored_at(
            get_blocks(store, upstream, v, n).unwrap().0,
            index,
        ) == stored_at(get_blocks(store, upstream, v, m).unwrap().0, index),
    decreases n - m,
{
    if m < n {
        lemma_get_blocks_shape(store, upstream, v, n);
        lemma_get_blocks_keep(store, upstream, v, m, (n - 1) as nat, index);
        let (s, w) = get_blocks(store, upstream, v, (n - 1) as nat).unwrap();
        lemma_get_blocks_shape(store, upstream, v, (n - 1) as nat);
        let own = w.cuboids[w.next].0;
        if !usable(w.size, stored_at(s, own)) {
            lemma_miss_fits(v, n - 1);
            lemma_write_back_at(s, w, upstream[own], index);
        }
    }
}

/// Every cuboid that a read visits ends within the coordinate space.
pub proof fn lemma_miss_fits(v: GetView, k: int)
    requires
        get_ready(v),
        0 <= k < v.cuboids.len(),
    ensures
        region_fits(v.size, v.cuboids[k].0),
{
    lemma_window_bounds(v.origin, v.destination, v.size, k);
    crate::data_manager::lemma_region_fits(v.size, v.destination, v.cuboids[k].0);
}

/// The cuboid served at step `n` is served from what the store holds under
/// its name once that step is over.
pub proof fn lemma_get_blocks_step(store: Store, upstream: Store, v: GetView, n: nat)
    requires
        get_ready(v),
        0 < n <= v.cuboids.len(),
        get_blocks(store, upstream, v, n) is Some,
    ensures
        get_blocks(store, upstream, v, (n - 1) as nat) is Some,
        ({
            let (s, w) = get_blocks(store, upstream, v, n).unwrap();
            let before = get_blocks(store, upstream, v, (n - 1) as nat).unwrap().1;
            let index = v.cuboids[n - 1].0;
            &&& usable(v.size, stored_at(s, index))
            &&& w == served(before, s[index])
        }),
{
    lemma_get_blocks_shape(store, upstream, v, n);
    lemma_get_blocks_shape(store, upstream, v, (n - 1) as nat);
    let (s, w) = get_blocks(store, upstream, v, (n - 1) as nat).unwrap();
    let own = w.cuboids[w.next].0;
    if !usable(w.size, stored_at(s, own)) {
        lemma_miss_fits(v, n - 1);
        lemma_write_back_at(s, w, upstream[own], own);
    }
}

/// Served once, served again: on the store that a read leaves behind, the
/// same read finds every cuboid and puts the same voxels in its output.
proof fn lemma_second_read(store: Store, upstream: Store, v: GetView, n: nat)
    requires
        get_ready(v),
        n <= v.cuboids.len(),
        get_all(store, upstream, v) is Some,
    ensures
        get_blocks(store, upstream, v, n) is Some,
        get_blocks(get_all(store, upstream, v).unwrap().0, Map::empty(), v, n) == Some(
            (get_all(store, upstream, v).unwrap().0, get_blocks(store, upstream, v, n).unwrap().1),
        ),
    decreases n,
{
    let total = v.cuboids.len();
    let last = get_all(store, upstream, v).unwrap().0;
    let index = if n > 0 {
        v.cuboids[n - 1].0
    } else {
        v.cuboids[0].0
    };
    lemma_get_blocks_keep(store, upstream, v, n, total, index);
    if n > 0 {
        lemma_second_read(store, upstream, v, (n - 1) as nat);
        lemma_get_blocks_step(store, upstream, v, n);
        lemma_get_blocks_shape(store, upstream, v, (n - 1) as nat);
    }
}

/// Write-back correctness: when a read has succeeded, the same read on the
/// store it left behind succeeds with the next layer disconnected, changes
/// nothing in the store and returns the same voxels.
pub proof fn lemma_write_back_serves_again(store: Store, upstream: Store, v: GetView)
    requires
        get_ready(v),
        get_all(store, upstream, v) is Some,
    ensures
        get_all(get_all(store, upstream, v).unwrap().0, Map::empty(), v) == get_all(
            store,
            upstream,
            v,
        ),
{
    lemma_second_read(store, upstream, v, v.cuboids.len());
}

/// The output of a read of what has just been written, after `n` cuboids:
/// the voxels of the cuboids served so far hold the input, the others zero.
spec fn partial_output(v: PutView, n: int) -> Seq<u8> {
    Seq::new(
        v.data.len(),
        |i: int|
            if position_of(
                v.origin,
                put_stop(v),
                v.size,
                owner(
                    v.size,
                    (
                        v.origin.x + fast(v.nx, i),
                        v.origin.y + mid(v.ny, v.nx, i),
                        v.origin.z + slow(v.ny, v.nx, i),
                    ),
                ),
            ) < n {
                v.data[i]
            } else {
                0u8
            },
    )
}

/// One step of a read of what has just been written.
proof fn lemma_read_back_step(v: PutView, block: Seq<u8>, stored: Option<Seq<u8>>, k: int)
    requires
        put_ready(v),
        0 < v.nz,
        0 < v.ny,
        0 < v.nx,
        0 <= k < v.cuboids.len(),
        block == merged_block(put_at(v, k), stored),
    ensures
        copied(partial_output(v, k), v.ny, v.nx, v.size, v.cuboids[k], v.origin, block)
            == partial_output(v, k + 1),
{
    let size = v.size;
    let start = v.origin;
    let stop = put_stop(v);
    let e = v.cuboids[k];
    let before = partial_output(v, k);
    let after = copied(before, v.ny, v.nx, size, e, start, block);
    let base = base_block(size, stored);
    lemma_window_bounds(start, stop, size, k);
    lemma_entry_touches(start, stop, size, k);
    assert forall|i: int| 0 <= i < after.len() implies after[i] == partial_output(v, k + 1)[i] by {
        lemma_flat_of_coords(v.nz, v.ny, v.nx, i);
        let z = slow(v.ny, v.nx, i);
        let y = mid(v.ny, v.nx, i);
        let x = fast(v.nx, i);
        let p = (start.x + x, start.y + y, start.z + z);
        assert(in_cutout(start, stop, p));
        lemma_cutout_in_window(start, stop, size, p);
        lemma_position_of(start, stop, size, owner(size, p));
        let bc = buffer_corner(size, e, start);
        let lc = local_corner(e);
        let ext = window_extent(e);
        let inside = bc.0 <= z < bc.0 + ext.0 && bc.1 <= y < bc.1 + ext.1 && bc.2 <= x < bc.2
            + ext.2;
        assert(inside == in_window(size, e.0, e.1, p));
        if inside {
            lemma_window_in_cutout(start, stop, size, k, p);
            let lz = z - bc.0 + lc.0;
            let ly = y - bc.1 + lc.1;
            let lx = x - bc.2 + lc.2;
            lemma_flat_bounds(size.z as int, size.y as int, size.x as int, lz, ly, lx);
            lemma_window_assign_at(
                base,
                size.y as int,
                size.x as int,
                lc,
                v.data,
                v.ny,
                v.nx,
                bc,
                ext,
                lz,
                ly,
                lx,
            );
            assert(block[flat(size.y as int, size.x as int, lz, ly, lx)] == v.data[flat(
                v.ny,
                v.nx,
                z,
                y,
                x,
            )]);
        } else {
            if position_of(start, stop, size, owner(size, p)) == k {
                assert(owner(size, p) == e.0);
                assert(false);
            }
        }
    }
    assert(after =~= partial_output(v, k + 1));
}

/// A read of what has just been written, cuboid by cuboid.
proof fn lemma_read_back(store: Store, upstream: Store, v: PutView, r: GetView, n: nat)
    requires
        put_ready(v),
        0 < v.nz,
        0 < v.ny,
        0 < v.nx,
        get_ready(r),
        r.size == v.size,
        r.origin == v.origin,
        r.destination == put_stop(v),
        n <= v.cuboids.len(),
    ensures
        get_blocks(put_all(store, v), upstream, r, n) == Some(
            (put_all(store, v), GetView { next: n as int, out: partial_output(v, n as int), ..r }),
        ),
    decreases n,
{
    let written = put_all(store, v);
    assert(r.cuboids == v.cuboids);
    if n == 0 {
        assert(partial_output(v, 0) =~= r.out) by {
            assert forall|i: int| 0 <= i < v.data.len() implies partial_output(v, 0)[i] == 0u8 by {
                lemma_flat_of_coords(v.nz, v.ny, v.nx, i);
                let p = (
                    v.origin.x + fast(v.nx, i),
                    v.origin.y + mid(v.ny, v.nx, i),
                    v.origin.z + slow(v.ny, v.nx, i),
                );
                lemma_cutout_in_window(v.origin, put_stop(v), v.size, p);
                lemma_position_of(v.origin, put_stop(v), v.size, owner(v.size, p));
            }
        }
    } else {
        lemma_read_back(store, upstream, v, r, (n - 1) as nat);
        let k = n - 1;
        let index = v.cuboids[k].0;
        lemma_entry_touches(v.origin, put_stop(v), v.size, k);
        lemma_put_blocks_at(store, v, v.cuboids.len(), index);
        let block = merged_block(put_at(v, k), stored_at(store, index));
        assert(stored_at(written, index) == Some(block));
        lemma_merged_len(put_at(v, k), stored_at(store, index));
        lemma_read_back_step(v, block, stored_at(store, index), k);
    }
}

/// Round-trip identity: a read of the region that has just been written
/// finds every cuboid in the store, asks the next layer for nothing, leaves
/// the store as the write left it, and returns the written voxels.
pub proof fn lemma_round_trip(store: Store, upstream: Store, v: PutView, r: GetView)
    requires
        put_ready(v),
        get_ready(r),
        r.size == v.size,
        r.origin == v.origin,
        r.destination == put_stop(v),
    ensures
        get_all(put_all(store, v), upstream, r) == Some(
            (put_all(store, v), GetView { next: r.cuboids.len() as int, out: v.data, ..r }),
        ),
{
    if v.nz == 0 || v.ny == 0 || v.nx == 0 {
        assert(v.nz * v.ny * v.nx == 0) by (nonlinear_arith)
            requires
                v.nz == 0 || v.ny == 0 || v.nx == 0,
        ;
        assert(empty_cutout(r.origin, r.destination));
        assert(r.out =~= v.data);
        assert(r.cuboids.len() == 0);
    } else {
        assert(!empty_cutout(r.origin, r.destination));
        lemma_read_back(store, upstream, v, r, v.cuboids.len());
        let n = v.cuboids.len() as int;
        assert(partial_output(v, n) =~= v.data) by {
            assert forall|i: int| 0 <= i < v.data.len() implies partial_output(v, n)[i]
                == v.data[i] by {
                lemma_flat_of_coords(v.nz, v.ny, v.nx, i);
                let p = (
                    v.origin.x + fast(v.nx, i),
                    v.origin.y + mid(v.ny, v.nx, i),
                    v.origin.z + slow(v.ny, v.nx, i),
                );
                lemma_cutout_in_window(v.origin, put_stop(v), v.size, p);
                lemma_position_of(v.origin, put_stop(v), v.size, owner(v.size, p));
            }
        }
    }
}

} // verus!
