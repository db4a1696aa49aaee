use bossphorus::data_manager::BossDBRelayDataManager;
use bossphorus::data_manager::ChunkedFileDataManager;
use bossphorus::data_manager::DataError;
use bossphorus::data_manager::DataManager;
use bossphorus::data_manager::NullDataManager;
use bossphorus::data_manager::PutSession;
use bossphorus::data_manager::Vector3;
use bossphorus::volume::Volume;
use std::cell::RefCell;
use std::collections::HashMap;
use std::rc::Rc;

type Files = HashMap<String, Vec<u8>>;

const URI: &str = "bossdb://coll/exp/chan";

fn v(x: u64, y: u64, z: u64) -> Vector3 {
    Vector3 { x, y, z }
}

fn filled(nz: usize, ny: usize, nx: usize, value: u8) -> Volume {
    Volume::from_shape_vec(nz, ny, nx, vec![value; nz * ny * nx]).unwrap()
}

/// A volume whose voxel at `[z, y, x]` tells its own position.
fn numbered(nz: usize, ny: usize, nx: usize) -> Volume {
    let mut voxels = Vec::new();
    for z in 0..nz {
        for y in 0..ny {
            for x in 0..nx {
                voxels.push((1 + z * 49 + y * 7 + x) as u8);
            }
        }
    }
    Volume::from_shape_vec(nz, ny, nx, voxels).unwrap()
}

/// Runs a write against the files, as a file-backed layer does.
fn run_put(files: &mut Files, put: &mut PutSession) {
    while let Some(path) = put.block_path() {
        let stored = files.get(&path).cloned().filter(|bytes| !bytes.is_empty());
        let bytes = put.merge(stored);
        files.insert(path, bytes);
    }
}

fn put_data<L: DataManager>(
    mgr: &ChunkedFileDataManager<L>,
    files: &mut Files,
    uri: &str,
    origin: Vector3,
    data: Volume,
) -> Result<bool, DataError> {
    assert!(mgr.admits_put(origin, &data));
    let mut put = mgr.begin_put(uri, 0, origin, data)?;
    run_put(files, &mut put);
    Ok(true)
}

/// Runs a read against the files, as a file-backed layer does. Returns the
/// cutout and the paths that were published to the usage pipeline.
fn get_data<L: DataManager>(
    mgr: &ChunkedFileDataManager<L>,
    files: &mut Files,
    uri: &str,
    origin: Vector3,
    destination: Vector3,
) -> Result<(Volume, Vec<String>), DataError> {
    assert!(mgr.admits_get(origin, destination));
    let mut published = Vec::new();
    let mut get = mgr.begin_get(uri, 0, origin, destination)?;
    while let Some(path) = get.block_path() {
        if get.tracks() {
            published.push(path.clone());
        }
        let stored = files.get(&path).cloned();
        if let Some(mut put) = mgr.supply(&mut get, stored)? {
            run_put(files, &mut put);
        }
    }
    Ok((get.finish(), published))
}

/// An upstream that answers every request with voxels of one value and
/// keeps the regions it was asked for.
struct Constant {
    value: u8,
    asked: Rc<RefCell<Vec<(String, Vector3, Vector3)>>>,
}

impl DataManager for Constant {
    fn get_data(
        &self,
        uri: String,
        _resolution: u8,
        origin: Vector3,
        destination: Vector3,
    ) -> Result<Volume, DataError> {
        self.asked.borrow_mut().push((uri, origin, destination));
        Ok(filled(
            (destination.z - origin.z) as usize,
            (destination.y - origin.y) as usize,
            (destination.x - origin.x) as usize,
            self.value,
        ))
    }

    fn put_data(
        &self,
        _uri: String,
        _resolution: u8,
        _origin: Vector3,
        _data: Volume,
    ) -> Result<bool, DataError> {
        Err(DataError::UpstreamUnavailable)
    }
}

fn local(size: Vector3) -> ChunkedFileDataManager<NullDataManager> {
    ChunkedFileDataManager::new("uploads".to_string(), size, false)
}

fn with_upstream(
    size: Vector3,
    value: u8,
    track_usage: bool,
) -> (
    ChunkedFileDataManager<Box<Constant>>,
    Rc<RefCell<Vec<(String, Vector3, Vector3)>>>,
) {
    let asked = Rc::new(RefCell::new(Vec::new()));
    let mgr = ChunkedFileDataManager::new_with_layer(
        "uploads".to_string(),
        size,
        Box::new(Constant {
            value,
            asked: Rc::clone(&asked),
        }),
        track_usage,
    );
    (mgr, asked)
}

#[test]
fn single_block_hit() {
    let mgr = local(v(4, 4, 4));
    let mut files = Files::new();
    assert_eq!(
        put_data(&mgr, &mut files, URI, v(0, 0, 0), filled(4, 4, 4, 7)),
        Ok(true)
    );
    // the cuboids that begin where the buffer ends are written too, empty
    assert_eq!(files.len(), 8);
    assert_eq!(files["uploads/coll/exp/chan/0/x0_y0_z0"], vec![7u8; 64]);
    assert_eq!(files["uploads/coll/exp/chan/0/x1_y1_z1"], vec![0u8; 64]);
    let (cutout, _) = get_data(&mgr, &mut files, URI, v(0, 0, 0), v(4, 4, 4)).unwrap();
    assert_eq!(cutout.dim(), (4, 4, 4));
    assert_eq!(cutout.to_vec(), vec![7u8; 64]);
}

#[test]
fn cross_block_cutout() {
    let mgr = local(v(4, 4, 4));
    let mut files = Files::new();
    put_data(&mgr, &mut files, URI, v(0, 0, 0), filled(1, 1, 5, 3)).unwrap();
    let mut touched: Vec<&String> = files.keys().collect();
    touched.sort();
    assert_eq!(
        touched,
        vec![
            "uploads/coll/exp/chan/0/x0_y0_z0",
            "uploads/coll/exp/chan/0/x1_y0_z0"
        ]
    );
    // the windows x 0..4 of the first block and x 0..1 of the second
    let first = &files["uploads/coll/exp/chan/0/x0_y0_z0"];
    assert_eq!(first.len(), 64);
    assert_eq!(&first[0..5], &[3, 3, 3, 3, 0]);
    let second = &files["uploads/coll/exp/chan/0/x1_y0_z0"];
    assert_eq!(&second[0..5], &[3, 0, 0, 0, 0]);
    assert_eq!(first.iter().filter(|b| **b != 0).count(), 4);
    assert_eq!(second.iter().filter(|b| **b != 0).count(), 1);

    let tracking = ChunkedFileDataManager::new("uploads".to_string(), v(4, 4, 4), true);
    let (cutout, published) =
        get_data(&tracking, &mut files, URI, v(3, 0, 0), v(5, 1, 1)).unwrap();
    assert_eq!(cutout.dim(), (1, 1, 2));
    assert_eq!(cutout.to_vec(), vec![3, 3]);
    assert_eq!(
        published,
        vec![
            "uploads/coll/exp/chan/0/x0_y0_z0",
            "uploads/coll/exp/chan/0/x1_y0_z0"
        ]
    );
}

#[test]
fn miss_then_fill() {
    let (mgr, asked) = with_upstream(v(4, 4, 4), 9, false);
    let mut files = Files::new();
    let (cutout, _) = get_data(&mgr, &mut files, URI, v(0, 0, 0), v(4, 4, 4)).unwrap();
    assert_eq!(cutout.dim(), (4, 4, 4));
    assert_eq!(cutout.to_vec(), vec![9u8; 64]);
    // the whole cuboid was asked for, under the channel path without scheme
    assert_eq!(
        asked.borrow()[0],
        ("coll/exp/chan".to_string(), v(0, 0, 0), v(4, 4, 4))
    );
    assert_eq!(
        files["uploads/coll/exp/chan/0/x0_y0_z0"],
        vec![9u8; 64]
    );

    let disconnected = local(v(4, 4, 4));
    let (again, _) = get_data(&disconnected, &mut files, URI, v(0, 0, 0), v(4, 4, 4)).unwrap();
    assert_eq!(again.dim(), (4, 4, 4));
    assert_eq!(again.to_vec(), vec![9u8; 64]);
}

#[test]
fn zero_extent_read() {
    let (mgr, asked) = with_upstream(v(4, 4, 4), 9, true);
    let mut files = Files::new();
    let (cutout, published) = get_data(&mgr, &mut files, URI, v(2, 2, 2), v(2, 2, 2)).unwrap();
    assert_eq!(cutout.dim(), (0, 0, 0));
    assert_eq!(cutout.to_vec(), Vec::<u8>::new());
    assert_eq!(asked.borrow().len(), 0);
    assert_eq!(published.len(), 0);
    assert_eq!(files.len(), 0);
}

#[test]
fn read_without_voxels_on_one_axis_touches_nothing() {
    let (mgr, asked) = with_upstream(v(4, 4, 4), 9, true);
    let mut files = Files::new();
    let (cutout, published) = get_data(&mgr, &mut files, URI, v(0, 1, 2), v(6, 1, 9)).unwrap();
    assert_eq!(cutout.dim(), (7, 0, 6));
    assert_eq!(asked.borrow().len(), 0);
    assert_eq!(published.len(), 0);
}

#[test]
fn written_buffer_is_read_back_bit_for_bit() {
    let size = v(4, 3, 2);
    let mgr = local(size);
    let mut files = Files::new();
    // something else is in the cache already
    put_data(&mgr, &mut files, URI, v(0, 0, 0), filled(9, 9, 9, 200)).unwrap();
    let origin = v(3, 2, 1);
    put_data(&mgr, &mut files, URI, origin, numbered(5, 6, 7)).unwrap();
    let (cutout, _) = get_data(&mgr, &mut files, URI, origin, v(3 + 7, 2 + 6, 1 + 5)).unwrap();
    assert_eq!(cutout.dim(), (5, 6, 7));
    assert_eq!(cutout.to_vec(), numbered(5, 6, 7).to_vec());
    // what lay around the written region is still there
    let (around, _) = get_data(&mgr, &mut files, URI, v(2, 2, 1), v(4, 3, 2)).unwrap();
    assert_eq!(around.to_vec(), vec![200, 1]);
}

#[test]
fn blocks_are_stored_z_major() {
    let mgr = local(v(4, 3, 2));
    let mut files = Files::new();
    put_data(&mgr, &mut files, URI, v(0, 0, 0), numbered(2, 3, 4)).unwrap();
    let block = &files["uploads/coll/exp/chan/0/x0_y0_z0"];
    assert_eq!(block.len(), 24);
    // offset of [z, y, x] is (z * 3 + y) * 4 + x
    assert_eq!(block[0], 1);
    assert_eq!(block[1], 2);
    assert_eq!(block[4], 1 + 7);
    assert_eq!(block[12], 1 + 49);
    assert_eq!(block[(1 * 3 + 2) * 4 + 3], (1 + 49 + 2 * 7 + 3) as u8);
}

#[test]
fn served_from_upstream_is_served_again_without_it() {
    let size = v(4, 4, 4);
    let (mgr, asked) = with_upstream(size, 9, false);
    let mut files = Files::new();
    put_data(&mgr, &mut files, URI, v(2, 0, 0), numbered(1, 1, 3)).unwrap();
    let (first, _) = get_data(&mgr, &mut files, URI, v(1, 1, 1), v(10, 3, 2)).unwrap();
    assert!(asked.borrow().len() > 0);
    let before = files.clone();
    let disconnected = local(size);
    let (second, _) = get_data(&disconnected, &mut files, URI, v(1, 1, 1), v(10, 3, 2)).unwrap();
    assert_eq!(second.dim(), first.dim());
    assert_eq!(second.to_vec(), first.to_vec());
    assert_eq!(files, before);
}

#[test]
fn write_back_stores_the_fetched_cuboid_and_leaves_usable_blocks_alone() {
    let size = v(2, 2, 2);
    let (mgr, asked) = with_upstream(size, 9, false);
    let mut files = Files::new();
    put_data(&mgr, &mut files, URI, v(2, 0, 0), filled(1, 1, 1, 5)).unwrap();
    let kept = files["uploads/coll/exp/chan/0/x1_y0_z0"].clone();
    let (cutout, _) = get_data(&mgr, &mut files, URI, v(0, 0, 0), v(1, 1, 1)).unwrap();
    assert_eq!(cutout.to_vec(), vec![9]);
    assert_eq!(asked.borrow().len(), 1);
    assert_eq!(files["uploads/coll/exp/chan/0/x0_y0_z0"], vec![9u8; 8]);
    assert_eq!(files["uploads/coll/exp/chan/0/x1_y0_z0"], kept);
}

#[test]
fn miss_without_upstream_fails() {
    let mgr = local(v(4, 4, 4));
    let mut files = Files::new();
    let r = get_data(&mgr, &mut files, URI, v(0, 0, 0), v(1, 1, 1));
    assert_eq!(r.err(), Some(DataError::UpstreamUnavailable));
    assert_eq!(files.len(), 0);
}

#[test]
fn delivered_volume_of_wrong_shape_is_refused() {
    let mgr = local(v(4, 4, 4));
    let mut get = mgr.begin_get(URI, 0, v(0, 0, 0), v(1, 1, 1)).unwrap();
    assert!(!get.load(None));
    assert_eq!(
        get.fill(filled(1, 1, 1, 5)).err(),
        Some(DataError::UpstreamUnavailable)
    );
    // the read stays where it was and can still be served
    assert_eq!(
        get.block_path(),
        Some("uploads/coll/exp/chan/0/x0_y0_z0".to_string())
    );
    assert!(get.fill(filled(4, 4, 4, 5)).is_ok());
    assert_eq!(get.block_path(), None);
    assert_eq!(get.finish().to_vec(), vec![5]);
}

#[test]
fn stop_before_start_is_malformed() {
    let mgr = local(v(4, 4, 4));
    let r = mgr.begin_get(URI, 0, v(0, 5, 0), v(4, 4, 4));
    assert_eq!(r.err(), Some(DataError::InputMalformed));
}

#[test]
fn identifier_without_scheme_is_malformed() {
    let mgr = local(v(4, 4, 4));
    assert_eq!(
        mgr.begin_get("coll/exp/chan", 0, v(0, 0, 0), v(4, 4, 4)).err(),
        Some(DataError::InputMalformed)
    );
    assert_eq!(
        mgr.begin_put("coll/exp/chan", 0, v(0, 0, 0), filled(1, 1, 1, 1))
            .err(),
        Some(DataError::InputMalformed)
    );
}

#[test]
fn block_of_wrong_length_is_a_miss() {
    let (mgr, asked) = with_upstream(v(2, 2, 2), 9, false);
    let mut files = Files::new();
    files.insert(
        "uploads/coll/exp/chan/0/x0_y0_z0".to_string(),
        vec![1, 2, 3],
    );
    let (cutout, _) = get_data(&mgr, &mut files, URI, v(0, 0, 0), v(1, 1, 1)).unwrap();
    assert_eq!(cutout.to_vec(), vec![9]);
    assert_eq!(asked.borrow().len(), 1);

    // and a write starts from zero
    let mut files = Files::new();
    files.insert(
        "uploads/coll/exp/chan/0/x0_y0_z0".to_string(),
        vec![1, 2, 3],
    );
    put_data(&local(v(2, 2, 2)), &mut files, URI, v(1, 0, 0), filled(1, 1, 1, 4)).unwrap();
    assert_eq!(
        files["uploads/coll/exp/chan/0/x0_y0_z0"],
        vec![0, 4, 0, 0, 0, 0, 0, 0]
    );
}

#[test]
fn write_merges_into_stored_block() {
    let mgr = local(v(2, 2, 2));
    let mut files = Files::new();
    files.insert(
        "uploads/coll/exp/chan/0/x0_y0_z0".to_string(),
        vec![1, 2, 3, 4, 5, 6, 7, 8],
    );
    put_data(&mgr, &mut files, URI, v(1, 1, 0), filled(2, 1, 1, 90)).unwrap();
    assert_eq!(
        files["uploads/coll/exp/chan/0/x0_y0_z0"],
        vec![1, 2, 3, 90, 5, 6, 7, 90]
    );
}

#[test]
fn resolution_and_channel_are_part_of_the_path() {
    let mgr = ChunkedFileDataManager::new("cache/root".to_string(), v(4, 4, 4), false);
    let get = mgr
        .begin_get("s3://a/b/c://ignored", 12, v(40, 8, 0), v(41, 9, 1))
        .unwrap();
    assert_eq!(
        get.block_path(),
        Some("cache/root/a/b/c/12/x10_y2_z0".to_string())
    );
    assert_eq!(get.region(), (v(40, 8, 0), v(44, 12, 4)));
    assert_eq!(get.tracks(), false);
}

#[test]
fn next_layer_defaults_to_the_null_manager() {
    let mgr = local(v(4, 4, 4));
    let next = mgr.get_next_layer();
    assert_eq!(
        next.get_data(URI.to_string(), 0, v(0, 0, 0), v(1, 1, 1)).err(),
        Some(DataError::UpstreamUnavailable)
    );
    let null = NullDataManager {};
    assert_eq!(
        null.put_data(URI.to_string(), 0, v(0, 0, 0), filled(1, 1, 1, 0)),
        Err(DataError::UpstreamUnavailable)
    );
    assert_eq!(
        null.get_data(URI.to_string(), 0, v(0, 0, 0), v(1, 1, 1)).err(),
        Some(DataError::UpstreamUnavailable)
    );
}

#[test]
fn reads_beyond_the_machine_are_not_admitted() {
    let mgr = local(v(4, 4, 4));
    assert!(mgr.admits_get(v(0, 0, 0), v(100, 100, 100)));
    // a stop before the start is admitted: it is refused as malformed
    assert!(mgr.admits_get(v(5, 0, 0), v(1, 1, 1)));
    // more voxels than memory can index
    assert!(!mgr.admits_get(v(0, 0, 0), v(1 << 40, 1 << 40, 1 << 40)));
    // the last cuboid would end beyond the coordinate space
    assert!(!mgr.admits_get(v(u64::MAX - 1, 0, 0), v(u64::MAX, 1, 1)));
    assert!(mgr.admits_put(v(u64::MAX - 1, 0, 0), &filled(1, 1, 1, 0)));
    assert!(!mgr.admits_put(v(u64::MAX - 1, 0, 0), &filled(1, 1, 2, 0)));
}

#[test]
fn volume_keeps_shape_and_order() {
    let volume = Volume::from_shape_vec(2, 3, 4, (0..24).collect()).unwrap();
    assert_eq!(volume.dim(), (2, 3, 4));
    assert_eq!(volume.to_vec(), (0..24).collect::<Vec<u8>>());
    assert!(Volume::from_shape_vec(2, 3, 4, vec![0; 23]).is_none());
    assert!(Volume::from_shape_vec(0, 3, 4, vec![]).is_some());
    assert!(Volume::from_shape_vec(0, usize::MAX, usize::MAX, vec![]).is_none());
    let zeros = Volume::zeros(3, 1, 2).unwrap();
    assert_eq!(zeros.dim(), (3, 1, 2));
    assert_eq!(zeros.to_vec(), vec![0u8; 6]);
    assert!(Volume::zeros(usize::MAX, 2, 1).is_none());
    assert_eq!(Volume::zeros(0, 5, 0).unwrap().dim(), (0, 5, 0));
    assert!(bossphorus::volume::fits(1 << 20, 1 << 20, 1 << 20));
    assert!(!bossphorus::volume::fits(1 << 21, 1 << 21, 1 << 21));
}

#[test]
fn relay_builds_the_cutout_request_and_refuses_writes() {
    let relay = BossDBRelayDataManager::new(
        "https".to_string(),
        "api.bossdb.io".to_string(),
        "public".to_string(),
    );
    assert_eq!(
        relay.cutout_url("coll/exp/chan", 1, v(0, 512, 16), v(512, 1024, 32)),
        Some(
            "https://api.bossdb.io/v1/cutout/coll/exp/chan/1/0:512/512:1024/16:32/".to_string()
        )
    );
    assert_eq!(relay.cutout_url("coll/exp", 1, v(0, 0, 0), v(1, 1, 1)), None);
    assert_eq!(
        BossDBRelayDataManager::boss_uri("coll/exp/chan"),
        "bossdb://coll/exp/chan"
    );
    assert_eq!(relay.remote().authorization(), "token public");
    assert_eq!(
        relay.put_data(URI.to_string(), 0, v(0, 0, 0), filled(1, 1, 1, 0)),
        Err(DataError::UpstreamUnavailable)
    );
}

#[test]
fn object_store_names_blocks_without_a_root() {
    let mgr = bossphorus::data_manager::S3ChunkedDataManager::new(
        "bucket".to_string(),
        v(4, 4, 4),
        true,
    );
    assert_eq!(mgr.bucket_path(), "bucket");
    let get = mgr
        .sessions()
        .begin_get(URI, 2, v(4, 0, 8), v(5, 1, 9))
        .unwrap();
    assert_eq!(get.object_key(), Some("coll/exp/chan/2/x1_y0_z2".to_string()));
    assert_eq!(get.tracks(), true);
    let put = mgr
        .sessions()
        .begin_put(URI, 2, v(4, 0, 8), filled(1, 1, 1, 1))
        .unwrap();
    assert_eq!(put.object_key(), Some("coll/exp/chan/2/x1_y0_z2".to_string()));
    assert_eq!(
        put.block_path(),
        Some("bucket/coll/exp/chan/2/x1_y0_z2".to_string())
    );
}

#[test]
fn cuboid_sizes_must_be_positive_and_fit_in_memory() {
    assert!(bossphorus::blocks::size_is_valid(v(512, 512, 16)));
    assert!(bossphorus::blocks::size_is_valid(v(1, 1, 1)));
    assert!(!bossphorus::blocks::size_is_valid(v(0, 4, 4)));
    assert!(!bossphorus::blocks::size_is_valid(v(4, 4, 0)));
    assert!(!bossphorus::blocks::size_is_valid(v(1 << 32, 1 << 32, 1)));
    assert!(!bossphorus::blocks::size_is_valid(v(1 << 21, 1 << 21, 1 << 21)));
    assert!(bossphorus::blocks::size_is_valid(v(1 << 21, 1 << 21, 1 << 20)));
}

#[test]
fn missed_cuboid_is_asked_for_in_full_on_every_axis() {
    let (mgr, asked) = with_upstream(v(512, 256, 16), 1, false);
    let mut files = Files::new();
    let (cutout, _) = get_data(&mgr, &mut files, URI, v(1030, 300, 40), v(1031, 301, 41)).unwrap();
    assert_eq!(cutout.to_vec(), vec![1]);
    assert_eq!(
        asked.borrow()[0],
        (
            "coll/exp/chan".to_string(),
            v(1024, 256, 32),
            v(1536, 512, 48)
        )
    );
    assert_eq!(files["uploads/coll/exp/chan/0/x2_y1_z2"].len(), 512 * 256 * 16);
}

/// An upstream whose voxel at `[z, y, x]` of the global space is
/// `100 * z + 10 * y + x`, and which keeps the requests it was asked.
struct Positions {
    asked: Rc<RefCell<Vec<(String, u8, Vector3, Vector3)>>>,
}

impl DataManager for Positions {
    fn get_data(
        &self,
        uri: String,
        resolution: u8,
        origin: Vector3,
        destination: Vector3,
    ) -> Result<Volume, DataError> {
        self.asked
            .borrow_mut()
            .push((uri, resolution, origin, destination));
        let mut voxels = Vec::new();
        for z in origin.z..destination.z {
            for y in origin.y..destination.y {
                for x in origin.x..destination.x {
                    voxels.push((100 * z + 10 * y + x) as u8);
                }
            }
        }
        Volume::from_shape_vec(
            (destination.z - origin.z) as usize,
            (destination.y - origin.y) as usize,
            (destination.x - origin.x) as usize,
            voxels,
        )
        .ok_or(DataError::UpstreamUnavailable)
    }

    fn put_data(
        &self,
        _uri: String,
        _resolution: u8,
        _origin: Vector3,
        _data: Volume,
    ) -> Result<bool, DataError> {
        Err(DataError::UpstreamUnavailable)
    }
}

#[test]
fn miss_asks_the_next_layer_once_for_the_whole_cuboid() {
    let asked = Rc::new(RefCell::new(Vec::new()));
    let mgr = ChunkedFileDataManager::new_with_layer(
        "uploads".to_string(),
        v(8, 4, 2),
        Box::new(Positions {
            asked: Rc::clone(&asked),
        }),
        false,
    );
    let mut files = Files::new();
    let (cutout, _) = get_data(&mgr, &mut files, "bossdb://c/e/ch", v(1, 2, 0), v(3, 3, 1)).unwrap();
    assert_eq!(cutout.dim(), (1, 1, 2));
    assert_eq!(cutout.to_vec(), vec![21, 22]);
    assert_eq!(
        *asked.borrow(),
        vec![("c/e/ch".to_string(), 0, v(0, 0, 0), v(8, 4, 2))]
    );
    // the delivered cuboid is kept under its own name, Z-major
    let block = &files["uploads/c/e/ch/0/x0_y0_z0"];
    assert_eq!(block.len(), 8 * 4 * 2);
    assert_eq!(block[(0 * 4 + 2) * 8 + 1], 21);
    assert_eq!(block[(1 * 4 + 3) * 8 + 7], 137);
}
