//! Data management: the layers that serve and store cutouts.
//!
//! A [`ChunkedFileDataManager`] keeps cuboids as block files under a root
//! directory and falls back on a next layer for the blocks it misses. The
//! manager itself never touches the file system. A read or a write is a
//! session: the session names the block file it needs next, the caller hands
//! over what that file holds, and the session says what to do with it. The
//! bytes that reach the output buffer and the bytes that are to be written
//! are decided here; only the file operations are the caller's.
use vstd::prelude::*;
use crate::blocks::base_block;
use crate::blocks::block_len;
use crate::blocks::block_path;
use crate::blocks::block_path_text;
use crate::blocks::copied;
use crate::blocks::lemma_valid_size;
use crate::blocks::merged;
use crate::blocks::object_key;
use crate::blocks::object_key_text;
use crate::blocks::usable;
use crate::blocks::valid_size;
use crate::cuboids::decomposition;
use crate::cuboids::lemma_window_bounds;
use crate::cuboids::le3;
use crate::cuboids::positive;
use crate::cuboids::CuboidWindow;
use crate::intern::remote::bossdb_parts;
use crate::intern::remote::cutout_suffix;
use crate::intern::remote::url_text;
use crate::intern::remote::BossRemote;
use crate::text::join;
use crate::text::nth_piece;
use crate::text::piece;
use crate::volume::array_assign_window;
use crate::volume::fits;
use crate::volume::shape_fits;
use crate::volume::zero_bytes;
use crate::volume::Corner;
use crate::volume::Volume;

pub use crate::cuboids::get_cuboids_and_indices;
pub use crate::cuboids::Vector3;

verus! {

/// Why a request could not be served.
#[derive(Copy, Clone, PartialEq, Eq, Debug, Structural)]
pub enum DataError {
    /// Coordinates that cannot be read, a cutout whose stop lies before its
    /// start, or a channel identifier without a scheme.
    InputMalformed,
    /// The next layer could not deliver a cuboid, or was asked to store one
    /// and cannot.
    UpstreamUnavailable,
}

/// What separates the scheme of a channel identifier from the rest.
pub open spec fn scheme_separator() -> Seq<char> {
    seq![':', '/', '/']
}

/// The channel path of an identifier `scheme://collection/experiment/channel`:
/// what follows the first `://`, up to the next one if there is another.
pub open spec fn channel_text(uri: Seq<char>) -> Option<Seq<char>> {
    piece(uri, scheme_separator(), 1)
}

/// The channel path of a channel identifier, without its scheme.
pub fn channel_of(uri: &str) -> (r: Option<String>)
    ensures
        match r {
            Some(c) => channel_text(uri@) == Some(c@),
            None => channel_text(uri@).is_none(),
        },
{
    proof {
        reveal_strlit("://");
    }
    assert("://"@ =~= scheme_separator());
    nth_piece(uri, "://", 1)
}

/// The global region that cuboid `index` covers: `[index * size, (index + 1)
/// * size)`.
pub open spec fn cuboid_region(size: Vector3, index: Vector3) -> (Vector3, Vector3) {
    (
        Vector3 {
            x: (index.x * size.x) as u64,
            y: (index.y * size.y) as u64,
            z: (index.z * size.z) as u64,
        },
        Vector3 {
            x: ((index.x + 1) * size.x) as u64,
            y: ((index.y + 1) * size.y) as u64,
            z: ((index.z + 1) * size.z) as u64,
        },
    )
}

/// Whether the cutout holds no voxel.
pub open spec fn empty_cutout(origin: Vector3, destination: Vector3) -> bool {
    origin.x == destination.x || origin.y == destination.y || origin.z == destination.z
}

/// The cuboids that a read of `[origin, destination)` visits, in order: those
/// of the decomposition, and none for a cutout without voxels.
pub open spec fn read_plan(origin: Vector3, destination: Vector3, size: Vector3) -> Seq<
    CuboidWindow,
> {
    if empty_cutout(origin, destination) {
        Seq::empty()
    } else {
        decomposition(origin, destination, size)
    }
}

/// Whether a read of `[origin, destination)` stays within what the machine
/// can hold: the output buffer can be allocated, and every cuboid up to the
/// one that holds `destination` ends within the 64-bit coordinate space.
pub open spec fn readable(size: Vector3, origin: Vector3, destination: Vector3) -> bool {
    &&& destination.z - origin.z <= usize::MAX
    &&& destination.y - origin.y <= usize::MAX
    &&& destination.x - origin.x <= usize::MAX
    &&& shape_fits(
        destination.z - origin.z,
        destination.y - origin.y,
        destination.x - origin.x,
    )
    &&& (destination.x / size.x + 1) * size.x <= u64::MAX
    &&& (destination.y / size.y + 1) * size.y <= u64::MAX
    &&& (destination.z / size.z + 1) * size.z <= u64::MAX
}

/// Whether a buffer with axis lengths `(nz, ny, nx)` placed at `origin`
/// ends within the 64-bit coordinate space.
pub open spec fn writable(origin: Vector3, nz: int, ny: int, nx: int) -> bool {
    &&& origin.z + nz <= u64::MAX
    &&& origin.y + ny <= u64::MAX
    &&& origin.x + nx <= u64::MAX
}

/// Where a buffer with axis lengths `(nz, ny, nx)` placed at `origin` ends.
pub open spec fn end_of(origin: Vector3, nz: int, ny: int, nx: int) -> Vector3 {
    Vector3 { x: (origin.x + nx) as u64, y: (origin.y + ny) as u64, z: (origin.z + nz) as u64 }
}

/// The state of a read, as far as it decides anything.
pub struct GetView {
    /// Root directory of the block files.
    pub root: Seq<char>,
    /// Channel path, without scheme.
    pub channel: Seq<char>,
    pub resolution: u8,
    /// Cuboid size of the manager that began the read.
    pub size: Vector3,
    pub origin: Vector3,
    pub destination: Vector3,
    /// Whether block accesses are to be published.
    pub track_usage: bool,
    /// The cuboids to visit, in order.
    pub cuboids: Seq<CuboidWindow>,
    /// How many of them have been served.
    pub next: int,
    /// Voxels of the output buffer, whose axis lengths are those of the
    /// cutout.
    pub out: Seq<u8>,
}

/// The state of a write, as far as it decides anything.
pub struct PutView {
    /// Root directory of the block files.
    pub root: Seq<char>,
    /// Channel path, without scheme.
    pub channel: Seq<char>,
    pub resolution: u8,
    /// Cuboid size of the manager that began the write.
    pub size: Vector3,
    pub origin: Vector3,
    /// Axis lengths of the input buffer.
    pub nz: int,
    pub ny: int,
    pub nx: int,
    /// Voxels of the input buffer.
    pub data: Seq<u8>,
    /// The cuboids to visit, in order.
    pub cuboids: Seq<CuboidWindow>,
    /// How many of them have been merged.
    pub next: int,
}

/// The state in which a read begins: nothing served, the output zero.
pub open spec fn get_start(
    root: Seq<char>,
    channel: Seq<char>,
    resolution: u8,
    size: Vector3,
    origin: Vector3,
    destination: Vector3,
    track_usage: bool,
) -> GetView {
    GetView {
        root,
        channel,
        resolution,
        size,
        origin,
        destination,
        track_usage,
        cuboids: read_plan(origin, destination, size),
        next: 0,
        out: zero_bytes(
            (destination.z - origin.z) * (destination.y - origin.y) * (destination.x - origin.x),
        ),
    }
}

/// The state of a read after the block of its next cuboid has been served
/// from `block`.
pub open spec fn served(v: GetView, block: Seq<u8>) -> GetView {
    GetView {
        next: v.next + 1,
        out: copied(
            v.out,
            v.destination.y - v.origin.y,
            v.destination.x - v.origin.x,
            v.size,
            v.cuboids[v.next],
            v.origin,
            block,
        ),
        ..v
    }
}

/// The state in which a write begins: nothing merged.
pub open spec fn put_start(
    root: Seq<char>,
    channel: Seq<char>,
    resolution: u8,
    size: Vector3,
    origin: Vector3,
    nz: int,
    ny: int,
    nx: int,
    data: Seq<u8>,
) -> PutView {
    PutView {
        root,
        channel,
        resolution,
        size,
        origin,
        nz,
        ny,
        nx,
        data,
        cuboids: decomposition(origin, end_of(origin, nz, ny, nx), size),
        next: 0,
    }
}

/// The write that persists a cuboid fetched by a read: the whole region of
/// the cuboid that the read is at, with the fetched block as input.
pub open spec fn write_back(v: GetView, block: Seq<u8>) -> PutView {
    put_start(
        v.root,
        v.channel,
        v.resolution,
        v.size,
        cuboid_region(v.size, v.cuboids[v.next].0).0,
        v.size.z as int,
        v.size.y as int,
        v.size.x as int,
        block,
    )
}

/// What a read makes of the answer of the next layer after a miss: whether
/// the read that was `v` is `w` afterwards and hands `r` back.
///
/// A volume of the cuboid's shape serves the read, which moves on, and comes
/// back as the write that persists it. A failure, or a volume of another
/// shape, fails the read as upstream-unavailable and leaves it where it was.
pub open spec fn after_miss(
    v: GetView,
    answer: Result<Volume, DataError>,
    w: GetView,
    r: Result<Option<PutSession>, DataError>,
) -> bool {
    if answer matches Ok(volume) && volume.nz() == v.size.z && volume.ny() == v.size.y
        && volume.nx() == v.size.x {
        &&& w == served(v, answer->Ok_0.voxels())
        &&& r matches Ok(Some(put)) && put.wf() && put@ == write_back(v, answer->Ok_0.voxels())
    } else {
        &&& w == v
        &&& r matches Err(e) && e == DataError::UpstreamUnavailable
    }
}

/// The bytes that a write puts under the name of its next cuboid, given
/// what is stored there.
pub open spec fn merged_block(v: PutView, stored: Option<Seq<u8>>) -> Seq<u8> {
    merged(v.size, base_block(v.size, stored), v.cuboids[v.next], v.origin, v.data, v.ny, v.nx)
}

/// Whether a volume has the shape of the region `[origin, destination)`.
pub open spec fn region_shaped(volume: Volume, origin: Vector3, destination: Vector3) -> bool {
    &&& volume.nz() == destination.z - origin.z
    &&& volume.ny() == destination.y - origin.y
    &&& volume.nx() == destination.x - origin.x
}

/// A data manager can get and put cutouts of a channel.
///
/// `uri` names the channel, `resolution` the level, and coordinates are
/// global.
pub trait DataManager {
    /// Whether `answer` is what this layer gives when it is asked for the
    /// voxels of `[origin, destination)` of the channel `uri` at
    /// `resolution`. A layer that says no more of its answers holds that the
    /// volumes it delivers have the shape of the region.
    open spec fn delivers(
        &self,
        uri: Seq<char>,
        resolution: u8,
        origin: Vector3,
        destination: Vector3,
        answer: Result<Volume, DataError>,
    ) -> bool {
        answer matches Ok(volume) ==> region_shaped(volume, origin, destination)
    }

    /// The voxels of `[origin, destination)`.
    fn get_data(&self, uri: String, resolution: u8, origin: Vector3, destination: Vector3) -> (answer:
        Result<Volume, DataError>)
        ensures
            self.delivers(uri@, resolution, origin, destination, answer),
    ;

    /// Stores `data` with its first voxel at `origin`.
    fn put_data(&self, uri: String, resolution: u8, origin: Vector3, data: Volume) -> Result<
        bool,
        DataError,
    >;
}

/// A boxed layer delivers what the layer in the box does.
impl<T: DataManager + ?Sized> DataManager for Box<T> {
    open spec fn delivers(
        &self,
        uri: Seq<char>,
        resolution: u8,
        origin: Vector3,
        destination: Vector3,
        answer: Result<Volume, DataError>,
    ) -> bool {
        (**self).delivers(uri, resolution, origin, destination, answer)
    }

    fn get_data(&self, uri: String, resolution: u8, origin: Vector3, destination: Vector3) -> (answer:
        Result<Volume, DataError>)
    {
        (**self).get_data(uri, resolution, origin, destination)
    }

    fn put_data(&self, uri: String, resolution: u8, origin: Vector3, data: Volume) -> Result<
        bool,
        DataError,
    > {
        (**self).put_data(uri, resolution, origin, data)
    }
}

/// The end of every chain of layers: it has no data and takes none.
pub struct NullDataManager {}

impl DataManager for NullDataManager {
    /// The null manager delivers nothing.
    open spec fn delivers(
        &self,
        uri: Seq<char>,
        resolution: u8,
        origin: Vector3,
        destination: Vector3,
        answer: Result<Volume, DataError>,
    ) -> bool {
        answer matches Err(e) && e == DataError::UpstreamUnavailable
    }

    fn get_data(&self, uri: String, resolution: u8, origin: Vector3, destination: Vector3) -> (r:
        Result<Volume, DataError>)
    {
        Err(DataError::UpstreamUnavailable)
    }

    fn put_data(&self, uri: String, resolution: u8, origin: Vector3, data: Volume) -> (r: Result<
        bool,
        DataError,
    >)
        ensures
            r matches Err(e) && e == DataError::UpstreamUnavailable,
    {
        Err(DataError::UpstreamUnavailable)
    }
}

/// A read in progress.
pub struct GetSession {
    root: String,
    channel: String,
    resolution: u8,
    size: Vector3,
    origin: Vector3,
    destination: Vector3,
    track_usage: bool,
    cuboids: Vec<CuboidWindow>,
    next: usize,
    out: Volume,
}

/// A write in progress.
pub struct PutSession {
    root: String,
    channel: String,
    resolution: u8,
    size: Vector3,
    origin: Vector3,
    data: Volume,
    cuboids: Vec<CuboidWindow>,
    next: usize,
}

impl View for GetSession {
    type V = GetView;

    closed spec fn view(&self) -> GetView {
        GetView {
            root: self.root@,
            channel: self.channel@,
            resolution: self.resolution,
            size: self.size,
            origin: self.origin,
            destination: self.destination,
            track_usage: self.track_usage,
            cuboids: self.cuboids@,
            next: self.next as int,
            out: self.out.voxels(),
        }
    }
}

impl View for PutSession {
    type V = PutView;

    closed spec fn view(&self) -> PutView {
        PutView {
            root: self.root@,
            channel: self.channel@,
            resolution: self.resolution,
            size: self.size,
            origin: self.origin,
            nz: self.data.nz(),
            ny: self.data.ny(),
            nx: self.data.nx(),
            data: self.data.voxels(),
            cuboids: self.cuboids@,
            next: self.next as int,
        }
    }
}

/// Where the window `[lo, hi)` of cuboid `index` lies in a buffer that
/// begins at `origin`, on one axis.
fn span(index: u64, size: u64, lo: u64, hi: u64, origin: u64) -> (r: (usize, usize))
    requires
        origin <= index * size + lo,
        lo <= hi,
        index * size + hi <= u64::MAX,
        index * size + hi - origin <= usize::MAX,
    ensures
        r.0 == index * size + lo - origin,
        r.1 == index * size + hi - origin,
{
    assert(0 <= index * size) by (nonlinear_arith)
        requires
            0 <= index,
            0 <= size,
    ;
    let base: u64 = index * size;
    ((base + lo - origin) as usize, (base + hi - origin) as usize)
}

impl GetSession {
    /// The session is what a manager made it: its cuboids are the plan of
    /// its cutout, and its output buffer has the cutout's shape.
    pub closed spec fn wf(&self) -> bool {
        &&& valid_size(self.size)
        &&& le3(self.origin, self.destination)
        &&& readable(self.size, self.origin, self.destination)
        &&& self.cuboids@ == read_plan(self.origin, self.destination, self.size)
        &&& self.next <= self.cuboids@.len()
        &&& self.out.wf()
        &&& self.out.nz() == self.destination.z - self.origin.z
        &&& self.out.ny() == self.destination.y - self.origin.y
        &&& self.out.nx() == self.destination.x - self.origin.x
    }

    /// Whether block accesses of this read are to be published to the usage
    /// pipeline.
    pub fn tracks(&self) -> (r: bool)
        ensures
            r == self@.track_usage,
    {
        self.track_usage
    }

    /// The path of the block file that the read needs next; `None` once every
    /// cuboid has been served.
    pub fn block_path(&self) -> (r: Option<String>)
        requires
            self.wf(),
        ensures
            match r {
                Some(p) => self@.next < self@.cuboids.len() && p@ == block_path_text(
                    self@.root,
                    self@.channel,
                    self@.resolution,
                    self@.cuboids[self@.next].0,
                ),
                None => self@.next == self@.cuboids.len(),
            },
    {
        if self.next < self.cuboids.len() {
            Some(
                block_path(
                    self.root.as_str(),
                    self.channel.as_str(),
                    self.resolution,
                    self.cuboids[self.next].0,
                ),
            )
        } else {
            None
        }
    }

    /// The key of the block that the read needs next, for a store that keeps
    /// blocks as objects without a root directory; `None` once every cuboid
    /// has been served.
    pub fn object_key(&self) -> (r: Option<String>)
        requires
            self.wf(),
        ensures
            match r {
                Some(p) => self@.next < self@.cuboids.len() && p@ == object_key_text(
                    self@.channel,
                    self@.resolution,
                    self@.cuboids[self@.next].0,
                ),
                None => self@.next == self@.cuboids.len(),
            },
    {
        if self.next < self.cuboids.len() {
            Some(object_key(self.channel.as_str(), self.resolution, self.cuboids[self.next].0))
        } else {
            None
        }
    }

    /// The region to ask the next layer for when the block of the next
    /// cuboid is missing: the whole cuboid.
    pub fn region(&self) -> (r: (Vector3, Vector3))
        requires
            self.wf(),
            self@.next < self@.cuboids.len(),
        ensures
            r == cuboid_region(self@.size, self@.cuboids[self@.next].0),
    {
        let index = self.cuboids[self.next].0;
        proof {
            lemma_window_bounds(self.origin, self.destination, self.size, self.next as int);
            lemma_region_fits(self.size, self.destination, index);
        }
        (
            Vector3 {
                x: index.x * self.size.x,
                y: index.y * self.size.y,
                z: index.z * self.size.z,
            },
            Vector3 {
                x: (index.x + 1) * self.size.x,
                y: (index.y + 1) * self.size.y,
                z: (index.z + 1) * self.size.z,
            },
        )
    }

    /// Copies the window of the next cuboid out of `block` and moves on.
    fn serve(&mut self, block: &Volume)
        requires
            old(self).wf(),
            old(self)@.next < old(self)@.cuboids.len(),
            block.wf(),
            block.nz() == old(self)@.size.z,
            block.ny() == old(self)@.size.y,
            block.nx() == old(self)@.size.x,
        ensures
            final(self).wf(),
            final(self)@ == served(old(self)@, block.voxels()),
    {
        let e = self.cuboids[self.next];
        proof {
            lemma_valid_size(self.size);
            lemma_window_bounds(self.origin, self.destination, self.size, self.next as int);
        }
        let x = span(e.0.x, self.size.x, e.1.0.x, e.1.1.x, self.origin.x);
        let y = span(e.0.y, self.size.y, e.1.0.y, e.1.1.y, self.origin.y);
        let z = span(e.0.z, self.size.z, e.1.0.z, e.1.1.z, self.origin.z);
        array_assign_window(
            &mut self.out,
            Corner { z: z.0, y: y.0, x: x.0 },
            Corner { z: z.1, y: y.1, x: x.1 },
            block,
            Corner { z: e.1.0.z as usize, y: e.1.0.y as usize, x: e.1.0.x as usize },
            Corner { z: e.1.1.z as usize, y: e.1.1.y as usize, x: e.1.1.x as usize },
        );
        assert(self.cuboids@.len() == self.cuboids.len());
        self.next = self.next + 1;
    }

    /// Takes what the block file of the next cuboid holds, `None` for a file
    /// that is missing or cannot be read. A usable block is a hit: its window
    /// goes to the output and the read moves on. Anything else is a miss and
    /// changes nothing.
    pub fn load(&mut self, stored: Option<Vec<u8>>) -> (hit: bool)
        requires
            old(self).wf(),
            old(self)@.next < old(self)@.cuboids.len(),
        ensures
            final(self).wf(),
            hit == usable(old(self)@.size, option_view(stored)),
            hit ==> final(self)@ == served(old(self)@, stored.unwrap()@),
            !hit ==> final(self)@ == old(self)@,
    {
        proof {
            lemma_valid_size(self.size);
        }
        match stored {
            None => false,
            Some(bytes) => {
                let found = Volume::from_shape_vec(
                    self.size.z as usize,
                    self.size.y as usize,
                    self.size.x as usize,
                    bytes,
                );
                match found {
                    None => false,
                    Some(block) => {
                        self.serve(&block);
                        true
                    },
                }
            },
        }
    }

    /// Takes the cuboid that the next layer delivered after a miss. A volume
    /// of the cuboid's shape serves the read, which moves on, and comes back
    /// as the write that persists it. Any other volume is refused and
    /// changes nothing.
    pub fn fill(&mut self, fetched: Volume) -> (r: Result<PutSession, DataError>)
        requires
            old(self).wf(),
            old(self)@.next < old(self)@.cuboids.len(),
        ensures
            final(self).wf(),
            match r {
                Ok(put) => {
                    &&& fetched.voxels().len() == block_len(old(self)@.size)
                    &&& fetched.nz() == old(self)@.size.z
                    &&& fetched.ny() == old(self)@.size.y
                    &&& fetched.nx() == old(self)@.size.x
                    &&& final(self)@ == served(old(self)@, fetched.voxels())
                    &&& put.wf()
                    &&& put@ == write_back(old(self)@, fetched.voxels())
                },
                Err(e) => {
                    &&& e == DataError::UpstreamUnavailable
                    &&& !(fetched.nz() == old(self)@.size.z && fetched.ny() == old(self)@.size.y
                        && fetched.nx() == old(self)@.size.x)
                    &&& final(self)@ == old(self)@
                },
            },
    {
        proof {
            lemma_valid_size(self.size);
        }
        let shape = fetched.dim();
        if shape.0 as u64 != self.size.z || shape.1 as u64 != self.size.y || shape.2 as u64
            != self.size.x {
            return Err(DataError::UpstreamUnavailable);
        }
        let region = self.region();
        let index = self.cuboids[self.next].0;
        proof {
            lemma_window_bounds(self.origin, self.destination, self.size, self.next as int);
            lemma_region_fits(self.size, self.destination, index);
        }
        self.serve(&fetched);
        let stop = region.1;
        let cuboids = get_cuboids_and_indices(region.0, stop, self.size);
        Ok(
            PutSession {
                root: self.root.clone(),
                channel: self.channel.clone(),
                resolution: self.resolution,
                size: self.size,
                origin: region.0,
                data: fetched,
                cuboids,
                next: 0,
            },
        )
    }

    /// The output buffer: the cutout's shape, holding what the blocks served
    /// so far have put there and zero elsewhere.
    pub fn finish(self) -> (r: Volume)
        requires
            self.wf(),
        ensures
            r.holds(
                self@.destination.z - self@.origin.z,
                self@.destination.y - self@.origin.y,
                self@.destination.x - self@.origin.x,
                self@.out,
            ),
    {
        self.out
    }
}

/// The view of bytes that may be missing.
pub open spec fn option_view(stored: Option<Vec<u8>>) -> Option<Seq<u8>> {
    match stored {
        Some(bytes) => Some(bytes@),
        None => None,
    }
}

/// A cuboid no later than the one that holds `destination` ends within the
/// coordinate space when that one does.
pub proof fn lemma_region_fits(size: Vector3, destination: Vector3, index: Vector3)
    requires
        positive(size),
        index.x <= destination.x / size.x,
        index.y <= destination.y / size.y,
        index.z <= destination.z / size.z,
        (destination.x / size.x + 1) * size.x <= u64::MAX,
        (destination.y / size.y + 1) * size.y <= u64::MAX,
        (destination.z / size.z + 1) * size.z <= u64::MAX,
    ensures
        0 <= index.x * size.x <= (index.x + 1) * size.x <= u64::MAX,
        0 <= index.y * size.y <= (index.y + 1) * size.y <= u64::MAX,
        0 <= index.z * size.z <= (index.z + 1) * size.z <= u64::MAX,
        (index.x + 1) * size.x == index.x * size.x + size.x,
        (index.y + 1) * size.y == index.y * size.y + size.y,
        (index.z + 1) * size.z == index.z * size.z + size.z,
        index.x < u64::MAX,
        index.y < u64::MAX,
        index.z < u64::MAX,
{
    lemma_axis_region_fits(size.x as int, (destination.x / size.x) as int, index.x as int);
    lemma_axis_region_fits(size.y as int, (destination.y / size.y) as int, index.y as int);
    lemma_axis_region_fits(size.z as int, (destination.z / size.z) as int, index.z as int);
}

proof fn lemma_axis_region_fits(size: int, last: int, i: int)
    requires
        size > 0,
        0 <= i <= last,
        (last + 1) * size <= u64::MAX,
    ensures
        0 <= i * size <= (i + 1) * size <= u64::MAX,
        (i + 1) * size == i * size + size,
        i + 1 <= (i + 1) * size,
{
    assert(i + 1 <= (i + 1) * size) by (nonlinear_arith)
        requires
            0 <= i,
            size >= 1,
    ;
    assert((i + 1) * size == i * size + size) by (nonlinear_arith);
    assert(0 <= i * size) by (nonlinear_arith)
        requires
            0 <= i,
            size > 0,
    ;
    assert((i + 1) * size <= (last + 1) * size) by (nonlinear_arith)
        requires
            i <= last,
            size > 0,
    ;
}

impl PutSession {
    /// The session is what a manager made it: its cuboids are the
    /// decomposition of the region that its input covers.
    pub closed spec fn wf(&self) -> bool {
        &&& valid_size(self.size)
        &&& self.data.wf()
        &&& writable(self.origin, self.data.nz(), self.data.ny(), self.data.nx())
        &&& self.cuboids@ == decomposition(
            self.origin,
            end_of(self.origin, self.data.nz(), self.data.ny(), self.data.nx()),
            self.size,
        )
        &&& self.next <= self.cuboids@.len()
    }

    /// The path of the block file that the write needs next; `None` once every
    /// cuboid has been merged.
    pub fn block_path(&self) -> (r: Option<String>)
        requires
            self.wf(),
        ensures
            match r {
                Some(p) => self@.next < self@.cuboids.len() && p@ == block_path_text(
                    self@.root,
                    self@.channel,
                    self@.resolution,
                    self@.cuboids[self@.next].0,
                ),
                None => self@.next == self@.cuboids.len(),
            },
    {
        if self.next < self.cuboids.len() {
            Some(
                block_path(
                    self.root.as_str(),
                    self.channel.as_str(),
                    self.resolution,
                    self.cuboids[self.next].0,
                ),
            )
        } else {
            None
        }
    }

    /// The key of the block that the write needs next, for a store that keeps
    /// blocks as objects without a root directory; `None` once every cuboid
    /// has been merged.
    pub fn object_key(&self) -> (r: Option<String>)
        requires
            self.wf(),
        ensures
            match r {
                Some(p) => self@.next < self@.cuboids.len() && p@ == object_key_text(
                    self@.channel,
                    self@.resolution,
                    self@.cuboids[self@.next].0,
                ),
                None => self@.next == self@.cuboids.len(),
            },
    {
        if self.next < self.cuboids.len() {
            Some(object_key(self.channel.as_str(), self.resolution, self.cuboids[self.next].0))
        } else {
            None
        }
    }

    /// Takes what the block file of the next cuboid holds, `None` for a file
    /// that is missing, empty or unreadable, and returns the bytes to write
    /// in its place: the stored block, or a zero-filled one where none is
    /// usable, with the cuboid's window overwritten from the input. The
    /// write then moves on.
    pub fn merge(&mut self, stored: Option<Vec<u8>>) -> (bytes: Vec<u8>)
        requires
            old(self).wf(),
            old(self)@.next < old(self)@.cuboids.len(),
        ensures
            final(self).wf(),
            bytes@ == merged_block(old(self)@, option_view(stored)),
            bytes@.len() == block_len(old(self)@.size),
            final(self)@ == (PutView { next: old(self)@.next + 1, ..old(self)@ }),
    {
        let ghost before = option_view(stored);
        proof {
            lemma_valid_size(self.size);
        }
        let found = match stored {
            None => None,
            Some(bytes) => Volume::from_shape_vec(
                self.size.z as usize,
                self.size.y as usize,
                self.size.x as usize,
                bytes,
            ),
        };
        let mut block = match found {
            Some(block) => block,
            None => {
                let fresh = Volume::zeros(
                    self.size.z as usize,
                    self.size.y as usize,
                    self.size.x as usize,
                );
                fresh.unwrap()
            },
        };
        assert(block.voxels() == base_block(self.size, before));
        let e = self.cuboids[self.next];
        let ghost stop = end_of(self.origin, self.data.nz(), self.data.ny(), self.data.nx());
        let shape = self.data.dim();
        proof {
            lemma_window_bounds(self.origin, stop, self.size, self.next as int);
        }
        let x = span(e.0.x, self.size.x, e.1.0.x, e.1.1.x, self.origin.x);
        let y = span(e.0.y, self.size.y, e.1.0.y, e.1.1.y, self.origin.y);
        let z = span(e.0.z, self.size.z, e.1.0.z, e.1.1.z, self.origin.z);
        array_assign_window(
            &mut block,
            Corner { z: e.1.0.z as usize, y: e.1.0.y as usize, x: e.1.0.x as usize },
            Corner { z: e.1.1.z as usize, y: e.1.1.y as usize, x: e.1.1.x as usize },
            &self.data,
            Corner { z: z.0, y: y.0, x: x.0 },
            Corner { z: z.1, y: y.1, x: x.1 },
        );
        assert(self.cuboids@.len() == self.cuboids.len());
        self.next = self.next + 1;
        block.to_vec()
    }
}

/// A data manager that keeps cuboids as files of raw voxels under a root
/// directory, one file per cuboid, and asks a next layer for the cuboids it
/// does not have.
pub struct ChunkedFileDataManager<L> {
    file_path: String,
    cuboid_size: Vector3,
    next_layer: L,
    track_usage: bool,
}

impl ChunkedFileDataManager<NullDataManager> {
    /// A manager for the block files under `file_path`, with cuboids of
    /// `cuboid_size` voxels and no layer behind it but the null manager.
    pub fn new(file_path: String, cuboid_size: Vector3, track_usage: bool) -> (r:
        ChunkedFileDataManager<NullDataManager>)
        requires
            valid_size(cuboid_size),
        ensures
            r.wf(),
            r.root() == file_path@,
            r.size() == cuboid_size,
            r.next_layer() == (NullDataManager {  }),
            r.tracks_usage() == track_usage,
    {
        ChunkedFileDataManager::new_with_layer(
            file_path,
            cuboid_size,
            NullDataManager {  },
            track_usage,
        )
    }
}

impl<L: DataManager> ChunkedFileDataManager<L> {
    /// Root directory of the block files.
    pub closed spec fn root(&self) -> Seq<char> {
        self.file_path@
    }

    /// Size of the cuboids.
    pub closed spec fn size(&self) -> Vector3 {
        self.cuboid_size
    }

    /// Whether reads publish the blocks they touch.
    pub closed spec fn tracks_usage(&self) -> bool {
        self.track_usage
    }

    /// The manager has a cuboid size that it can work with.
    pub open spec fn wf(&self) -> bool {
        valid_size(self.size())
    }

    /// A manager for the block files under `file_path`, with cuboids of
    /// `cuboid_size` voxels, that asks `next_layer` for the cuboids it misses.
    pub fn new_with_layer(
        file_path: String,
        cuboid_size: Vector3,
        next_layer: L,
        track_usage: bool,
    ) -> (r: ChunkedFileDataManager<L>)
        requires
            valid_size(cuboid_size),
        ensures
            r.wf(),
            r.root() == file_path@,
            r.size() == cuboid_size,
            r.next_layer() == next_layer,
            r.tracks_usage() == track_usage,
    {
        ChunkedFileDataManager { file_path, cuboid_size, next_layer, track_usage }
    }

    /// Whether a read of `[origin, destination)` is one that
    /// [`ChunkedFileDataManager::begin_get`] takes: a cutout whose stop lies
    /// before its start always is, being refused there; any other is if it
    /// stays within what the machine can hold.
    pub fn admits_get(&self, origin: Vector3, destination: Vector3) -> (r: bool)
        requires
            self.wf(),
        ensures
            r == (le3(origin, destination) ==> readable(self.size(), origin, destination)),
    {
        if destination.x < origin.x || destination.y < origin.y || destination.z < origin.z {
            return true;
        }
        let limit: u64 = usize::MAX as u64;
        let dx: u64 = destination.x - origin.x;
        let dy: u64 = destination.y - origin.y;
        let dz: u64 = destination.z - origin.z;
        if dx > limit || dy > limit || dz > limit {
            return false;
        }
        if !fits(dz as usize, dy as usize, dx as usize) {
            return false;
        }
        ends_in_range(destination.x, self.cuboid_size.x) && ends_in_range(
            destination.y,
            self.cuboid_size.y,
        ) && ends_in_range(destination.z, self.cuboid_size.z)
    }

    /// Whether `data` placed at `origin` ends within the coordinate space, as
    /// [`ChunkedFileDataManager::begin_put`] needs.
    pub fn admits_put(&self, origin: Vector3, data: &Volume) -> (r: bool)
        ensures
            r == writable(origin, data.nz(), data.ny(), data.nx()),
    {
        let shape = data.dim();
        let limit: u64 = u64::MAX;
        shape.0 as u64 <= limit - origin.z && shape.1 as u64 <= limit - origin.y && shape.2 as u64
            <= limit - origin.x
    }

    /// The layer that is asked on a miss, as the manager holds it.
    pub fn get_next_layer(&self) -> (layer: &L)
        ensures
            *layer == self.next_layer(),
    {
        &self.next_layer
    }

    /// The layer that is asked on a miss.
    pub closed spec fn next_layer(&self) -> L {
        self.next_layer
    }

    /// Begins the read of `[origin, destination)` from the channel `uri` at
    /// `resolution`.
    ///
    /// The read is refused as malformed when `uri` has no scheme or when
    /// `destination` lies before `origin` on some axis. Otherwise it begins
    /// with a zero output buffer of the cutout's shape and the cuboids of
    /// [`read_plan`] to visit.
    pub fn begin_get(&self, uri: &str, resolution: u8, origin: Vector3, destination: Vector3) -> (r:
        Result<GetSession, DataError>)
        requires
            self.wf(),
            le3(origin, destination) ==> readable(self.size(), origin, destination),
        ensures
            match r {
                Ok(s) => {
                    &&& le3(origin, destination)
                    &&& channel_text(uri@) is Some
                    &&& s.wf()
                    &&& s@ == get_start(
                        self.root(),
                        channel_text(uri@).unwrap(),
                        resolution,
                        self.size(),
                        origin,
                        destination,
                        self.tracks_usage(),
                    )
                },
                Err(e) => {
                    &&& e == DataError::InputMalformed
                    &&& !(le3(origin, destination) && channel_text(uri@) is Some)
                },
            },
    {
        let channel = match channel_of(uri) {
            None => {
                return Err(DataError::InputMalformed);
            },
            Some(c) => c,
        };
        if destination.x < origin.x || destination.y < origin.y || destination.z < origin.z {
            return Err(DataError::InputMalformed);
        }
        let nz: usize = (destination.z - origin.z) as usize;
        let ny: usize = (destination.y - origin.y) as usize;
        let nx: usize = (destination.x - origin.x) as usize;
        let out = Volume::zeros(nz, ny, nx).unwrap();
        let cuboids = if nz == 0 || ny == 0 || nx == 0 {
            Vec::new()
        } else {
            get_cuboids_and_indices(origin, destination, self.cuboid_size)
        };
        assert(cuboids@ =~= read_plan(origin, destination, self.cuboid_size));
        Ok(
            GetSession {
                root: self.file_path.clone(),
                channel,
                resolution,
                size: self.cuboid_size,
                origin,
                destination,
                track_usage: self.track_usage,
                cuboids,
                next: 0,
                out,
            },
        )
    }

    /// Begins the write of `data`, its first voxel at `origin`, to the
    /// channel `uri` at `resolution`.
    ///
    /// The write is refused as malformed when `uri` has no scheme.
    /// Otherwise it begins with every cuboid of the decomposition of the
    /// covered region to merge.
    pub fn begin_put(&self, uri: &str, resolution: u8, origin: Vector3, data: Volume) -> (r: Result<
        PutSession,
        DataError,
    >)
        requires
            self.wf(),
            writable(origin, data.nz(), data.ny(), data.nx()),
        ensures
            match r {
                Ok(s) => {
                    &&& channel_text(uri@) is Some
                    &&& s.wf()
                    &&& s@ == put_start(
                        self.root(),
                        channel_text(uri@).unwrap(),
                        resolution,
                        self.size(),
                        origin,
                        data.nz(),
                        data.ny(),
                        data.nx(),
                        data.voxels(),
                    )
                },
                Err(e) => e == DataError::InputMalformed && channel_text(uri@) is None,
            },
    {
        let channel = match channel_of(uri) {
            None => {
                return Err(DataError::InputMalformed);
            },
            Some(c) => c,
        };
        let shape = data.dim();
        let stop = Vector3 {
            x: origin.x + shape.2 as u64,
            y: origin.y + shape.1 as u64,
            z: origin.z + shape.0 as u64,
        };
        let cuboids = get_cuboids_and_indices(origin, stop, self.cuboid_size);
        Ok(
            PutSession {
                root: self.file_path.clone(),
                channel,
                resolution,
                size: self.cuboid_size,
                origin,
                data,
                cuboids,
                next: 0,
            },
        )
    }

    /// Serves the next cuboid of a read from what its block file holds, or,
    /// on a miss, from the next layer.
    ///
    /// A usable block is a hit and is served as [`GetSession::load`] says;
    /// nothing is to be written. On a miss the next layer is asked for the
    /// region of the whole cuboid under the read's channel path. If it
    /// fails, or delivers a volume of another shape, the read fails as
    /// upstream-unavailable and stays where it was. Otherwise the delivered
    /// cuboid serves the read and the write that persists it is returned, as
    /// [`GetSession::fill`] says.
    pub fn supply(&self, session: &mut GetSession, stored: Option<Vec<u8>>) -> (r: Result<
        Option<PutSession>,
        DataError,
    >)
        requires
            old(session).wf(),
            old(session)@.next < old(session)@.cuboids.len(),
        ensures
            final(session).wf(),
            usable(old(session)@.size, option_view(stored)) ==> r == Ok::<
                Option<PutSession>,
                DataError,
            >(None) && final(session)@ == served(old(session)@, stored.unwrap()@),
            !usable(old(session)@.size, option_view(stored)) ==> exists|
                answer: Result<Volume, DataError>,
            |
                {
                    &&& #[trigger] self.next_layer().delivers(
                        old(session)@.channel,
                        old(session)@.resolution,
                        cuboid_region(
                            old(session)@.size,
                            old(session)@.cuboids[old(session)@.next].0,
                        ).0,
                        cuboid_region(
                            old(session)@.size,
                            old(session)@.cuboids[old(session)@.next].0,
                        ).1,
                        answer,
                    )
                    &&& after_miss(old(session)@, answer, final(session)@, r)
                },
    {
        if session.load(stored) {
            return Ok(None);
        }
        let region = session.region();
        let fetched = self.next_layer.get_data(
            session.channel.clone(),
            session.resolution,
            region.0,
            region.1,
        );
        let ghost answer = fetched;
        assert(self.next_layer().delivers(
            old(session)@.channel,
            old(session)@.resolution,
            region.0,
            region.1,
            answer,
        ));
        let r = match fetched {
            Err(_) => Err(DataError::UpstreamUnavailable),
            Ok(volume) => match session.fill(volume) {
                Err(e) => Err(e),
                Ok(put) => Ok(Some(put)),
            },
        };
        assert(after_miss(old(session)@, answer, session@, r));
        r
    }
}

/// A data manager that keeps cuboids as objects in a bucket of an object
/// store and asks a next layer for the cuboids it does not have.
///
/// Reads and writes run as those of a [`ChunkedFileDataManager`] do; the
/// sessions name each block by its object key.
pub struct S3ChunkedDataManager<L> {
    blocks: ChunkedFileDataManager<L>,
}

impl S3ChunkedDataManager<NullDataManager> {
    /// A manager for the blocks in the bucket `bucket_path`, with cuboids of
    /// `cuboid_size` voxels and no layer behind it but the null manager.
    pub fn new(bucket_path: String, cuboid_size: Vector3, track_usage: bool) -> (r:
        S3ChunkedDataManager<NullDataManager>)
        requires
            valid_size(cuboid_size),
        ensures
            r.wf(),
            r.bucket() == bucket_path@,
            r.size() == cuboid_size,
            r.next_layer() == (NullDataManager {  }),
            r.tracks_usage() == track_usage,
    {
        S3ChunkedDataManager::new_with_layer(
            bucket_path,
            cuboid_size,
            NullDataManager {  },
            track_usage,
        )
    }
}

impl<L: DataManager> S3ChunkedDataManager<L> {
    /// Name of the bucket.
    pub closed spec fn bucket(&self) -> Seq<char> {
        self.blocks.root()
    }

    /// Size of the cuboids.
    pub closed spec fn size(&self) -> Vector3 {
        self.blocks.size()
    }

    /// Whether reads publish the blocks they touch.
    pub closed spec fn tracks_usage(&self) -> bool {
        self.blocks.tracks_usage()
    }

    /// The layer that is asked on a miss.
    pub closed spec fn next_layer(&self) -> L {
        self.blocks.next_layer()
    }

    /// The manager has a cuboid size that it can work with.
    pub open spec fn wf(&self) -> bool {
        valid_size(self.size())
    }

    /// A manager for the blocks in the bucket `bucket_path`, with cuboids of
    /// `cuboid_size` voxels, that asks `next_layer` for the cuboids it misses.
    pub fn new_with_layer(
        bucket_path: String,
        cuboid_size: Vector3,
        next_layer: L,
        track_usage: bool,
    ) -> (r: S3ChunkedDataManager<L>)
        requires
            valid_size(cuboid_size),
        ensures
            r.wf(),
            r.bucket() == bucket_path@,
            r.size() == cuboid_size,
            r.next_layer() == next_layer,
            r.tracks_usage() == track_usage,
    {
        S3ChunkedDataManager {
            blocks: ChunkedFileDataManager::new_with_layer(
                bucket_path,
                cuboid_size,
                next_layer,
                track_usage,
            ),
        }
    }

    /// The name of the bucket.
    pub fn bucket_path(&self) -> (r: String)
        ensures
            r@ == self.bucket(),
    {
        self.blocks.file_path.clone()
    }

    /// The manager that begins and serves the sessions of this one.
    pub fn sessions(&self) -> (r: &ChunkedFileDataManager<L>)
        ensures
            r.wf() == self.wf(),
            r.next_layer() == self.next_layer(),
            r.root() == self.bucket(),
            r.size() == self.size(),
            r.tracks_usage() == self.tracks_usage(),
    {
        &self.blocks
    }
}

/// Whether the cuboid that holds `stop` ends within the coordinate space, on
/// one axis.
fn ends_in_range(stop: u64, size: u64) -> (r: bool)
    requires
        size > 0,
    ensures
        r == ((stop / size + 1) * size <= u64::MAX),
{
    let last: u64 = stop / size;
    match last.checked_add(1) {
        None => {
            assert((last + 1) * size > u64::MAX) by (nonlinear_arith)
                requires
                    last + 1 > u64::MAX,
                    size >= 1,
            ;
            false
        },
        Some(count) => count.checked_mul(size).is_some(),
    }
}

/// Relays requests for data to a BossDB service.
///
/// It sends one token with every request, whoever asked.
pub struct BossDBRelayDataManager {
    token: String,
    host: String,
    protocol: String,
}

impl BossDBRelayDataManager {
    pub closed spec fn protocol(&self) -> Seq<char> {
        self.protocol@
    }

    pub closed spec fn host(&self) -> Seq<char> {
        self.host@
    }

    pub closed spec fn token(&self) -> Seq<char> {
        self.token@
    }

    /// A relay to the service at `host`, spoken to over `protocol` (`http` or
    /// `https`), with `token` for every request.
    pub fn new(protocol: String, host: String, token: String) -> (r: BossDBRelayDataManager)
        ensures
            r.protocol() == protocol@,
            r.host() == host@,
            r.token() == token@,
    {
        BossDBRelayDataManager { protocol, host, token }
    }

    /// The service that the relay talks to.
    pub fn remote(&self) -> (r: BossRemote)
        ensures
            r.protocol() == self.protocol(),
            r.host() == self.host(),
            r.token() == self.token(),
    {
        BossRemote::new(self.protocol.clone(), self.host.clone(), self.token.clone())
    }

    /// The identifier under which the service knows the channel path `uri`:
    /// `bossdb://<uri>`.
    pub fn boss_uri(uri: &str) -> (r: String)
        ensures
            r@ == "bossdb://"@ + uri@,
    {
        join("bossdb://", uri)
    }

    /// The URL that asks the service for `[origin, destination)` of the
    /// channel path `uri` at `resolution`; `None` when `uri` does not name
    /// collection, experiment and channel.
    pub fn cutout_url(&self, uri: &str, resolution: u8, origin: Vector3, destination: Vector3) -> (r:
        Option<String>)
        ensures
            match r {
                Some(url) => bossdb_parts("bossdb://"@ + uri@) is Some && url@ == url_text(
                    self.protocol(),
                    self.host(),
                    cutout_suffix(
                        bossdb_parts("bossdb://"@ + uri@).unwrap(),
                        resolution,
                        (origin.x, destination.x),
                        (origin.y, destination.y),
                        (origin.z, destination.z),
                    ),
                ),
                None => bossdb_parts("bossdb://"@ + uri@).is_none(),
            },
    {
        let name = Self::boss_uri(uri);
        self.remote().cutout_url(
            name.as_str(),
            resolution,
            (origin.x, destination.x),
            (origin.y, destination.y),
            (origin.z, destination.z),
        )
    }

    /// Writes are not relayed: putting data always fails.
    pub fn put_data(&self, uri: String, resolution: u8, origin: Vector3, data: Volume) -> (r:
        Result<bool, DataError>)
        ensures
            r matches Err(e) && e == DataError::UpstreamUnavailable,
    {
        Err(DataError::UpstreamUnavailable)
    }
}

} // verus!
