use bossphorus::api::colon_delim_str_to_extents;
use bossphorus::api::cutout_bounds;
use bossphorus::api::filmstrip_size;
use bossphorus::api::get_channel_metadata;
use bossphorus::api::index;
use bossphorus::api::upload_shape;
use bossphorus::config;
use bossphorus::data_manager::channel_of;
use bossphorus::data_manager::DataError;
use bossphorus::data_manager::Vector3;
use bossphorus::intern::remote::cutout_volume;
use bossphorus::intern::remote::parse_bossdb_uri;
use bossphorus::intern::remote::BossRemote;
use bossphorus::text::chars_of;
use bossphorus::text::decimal;
use bossphorus::text::find;
use bossphorus::text::nth_piece;
use bossphorus::text::parse_unsigned;
use bossphorus::usage_tracker::get_tracker_type;
use bossphorus::usage_tracker::tracker_named;
use bossphorus::usage_tracker::tracking;
use bossphorus::usage_tracker::ConsoleUsageTracker;
use bossphorus::usage_tracker::NoneTracker;
use bossphorus::usage_tracker::RunAction;
use bossphorus::usage_tracker::UsagePipeline;
use bossphorus::usage_tracker::UsageTracker;
use bossphorus::usage_tracker::UsageTrackerType;

#[test]
fn numbers_are_written_as_the_standard_library_writes_them() {
    for n in [0u64, 1, 9, 10, 11, 99, 100, 12345, 1 << 32, u64::MAX - 1, u64::MAX] {
        assert_eq!(decimal(n), format!("{}", n));
    }
}

#[test]
fn numbers_are_read_as_the_standard_library_reads_them() {
    for s in [
        "0",
        "7",
        "007",
        "+5",
        "512",
        "18446744073709551615",
        "18446744073709551616",
        "99999999999999999999999",
        "",
        "+",
        "-1",
        "-0",
        "1 ",
        " 1",
        "12a",
        "++1",
        "1+",
        "\u{663}",
    ] {
        assert_eq!(parse_unsigned(s), s.parse::<u64>().ok(), "reading {:?}", s);
    }
}

#[test]
fn pieces_are_those_of_split() {
    for (s, sep) in [
        ("bossdb://a/b/c", "://"),
        ("a/b/c", "/"),
        ("a//b/", "/"),
        ("", "/"),
        ("/", "/"),
        ("x://y://z", "://"),
        (":::", "::"),
        ("aaa", "aa"),
        ("\u{e9}t\u{e9}:\u{fc}", ":"),
    ] {
        let expected: Vec<&str> = s.split(sep).collect();
        for n in 0..expected.len() + 2 {
            assert_eq!(
                nth_piece(s, sep, n),
                expected.get(n).map(|p| p.to_string()),
                "piece {} of {:?} split at {:?}",
                n,
                s,
                sep
            );
        }
    }
}

#[test]
fn first_occurrence_is_found() {
    let s = chars_of("abcabc");
    assert_eq!(s, vec!['a', 'b', 'c', 'a', 'b', 'c']);
    assert_eq!(find(&s, &chars_of("bc"), 0), Some(1));
    assert_eq!(find(&s, &chars_of("bc"), 2), Some(4));
    assert_eq!(find(&s, &chars_of("bc"), 5), None);
    assert_eq!(find(&s, &chars_of("abcabcd"), 0), None);
    assert_eq!(find(&s, &chars_of(""), 6), Some(6));
    assert_eq!(find(&s, &chars_of(""), 7), None);
}

#[test]
fn channel_path_is_what_follows_the_scheme() {
    assert_eq!(
        channel_of("bossdb://coll/exp/chan"),
        Some("coll/exp/chan".to_string())
    );
    assert_eq!(channel_of("bossdb://"), Some("".to_string()));
    assert_eq!(channel_of("coll/exp/chan"), None);
    assert_eq!(channel_of("a://b://c"), Some("b".to_string()));
}

#[test]
fn identifier_is_parsed_into_collection_experiment_channel() {
    assert_eq!(
        parse_bossdb_uri("bossdb://col/exp/chan"),
        Some(("col".to_string(), "exp".to_string(), "chan".to_string()))
    );
    assert_eq!(
        parse_bossdb_uri("bossdb://col/exp/chan/more"),
        Some(("col".to_string(), "exp".to_string(), "chan".to_string()))
    );
    assert_eq!(
        parse_bossdb_uri("x://a//"),
        Some(("a".to_string(), "".to_string(), "".to_string()))
    );
    assert_eq!(parse_bossdb_uri("bossdb://col/exp"), None);
    assert_eq!(parse_bossdb_uri("col/exp/chan"), None);
}

#[test]
fn remote_builds_urls() {
    let remote = BossRemote::new(
        "http".to_string(),
        "localhost:8000".to_string(),
        "secret".to_string(),
    );
    assert_eq!(
        remote.build_url("collection/c"),
        "http://localhost:8000/v1/collection/c/"
    );
    assert_eq!(remote.authorization(), "token secret");
    assert_eq!(
        remote.cutout_url("bossdb://c/e/ch", 3, (1, 2), (30, 40), (500, 600)),
        Some("http://localhost:8000/v1/cutout/c/e/ch/3/1:2/30:40/500:600/".to_string())
    );
    assert_eq!(remote.cutout_url("c/e/ch", 3, (1, 2), (3, 4), (5, 6)), None);
}

#[test]
fn delivered_voxels_take_the_shape_of_the_bounds() {
    let volume = cutout_volume((0..24).collect(), (10, 14), (0, 3), (5, 7)).unwrap();
    assert_eq!(volume.dim(), (2, 3, 4));
    assert_eq!(volume.to_vec(), (0..24).collect::<Vec<u8>>());
    assert!(cutout_volume(vec![0; 23], (10, 14), (0, 3), (5, 7)).is_none());
    assert!(cutout_volume(vec![], (14, 10), (0, 3), (5, 7)).is_none());
    assert!(cutout_volume(vec![], (0, 0), (0, 3), (5, 7)).is_some());
}

#[test]
fn extents_are_numbers_between_colons() {
    assert_eq!(colon_delim_str_to_extents("0:512"), Ok(vec![0, 512]));
    assert_eq!(colon_delim_str_to_extents("7"), Ok(vec![7]));
    assert_eq!(colon_delim_str_to_extents("1:2:3"), Ok(vec![1, 2, 3]));
    assert_eq!(colon_delim_str_to_extents("+1:02"), Ok(vec![1, 2]));
    for malformed in ["", "1:", ":1", "a:b", "1:-2", "1::2", "1:18446744073709551616"] {
        assert_eq!(
            colon_delim_str_to_extents(malformed),
            Err(DataError::InputMalformed),
            "reading {:?}",
            malformed
        );
    }
}

#[test]
fn cutout_bounds_come_from_three_extents() {
    assert_eq!(
        cutout_bounds("0:512", "10:20", "3:4"),
        Ok((
            Vector3 { x: 0, y: 10, z: 3 },
            Vector3 {
                x: 512,
                y: 20,
                z: 4
            }
        ))
    );
    assert_eq!(
        cutout_bounds("0:512:9", "10:20", "3:4"),
        Ok((
            Vector3 { x: 0, y: 10, z: 3 },
            Vector3 {
                x: 512,
                y: 20,
                z: 4
            }
        ))
    );
    assert_eq!(
        cutout_bounds("0", "10:20", "3:4"),
        Err(DataError::InputMalformed)
    );
    assert_eq!(
        cutout_bounds("0:1", "10:x", "3:4"),
        Err(DataError::InputMalformed)
    );
}

#[test]
fn upload_shape_is_the_extent_of_the_region() {
    assert_eq!(
        upload_shape(Vector3 { x: 1, y: 2, z: 3 }, Vector3 { x: 11, y: 22, z: 33 }),
        Ok((30, 20, 10))
    );
    assert_eq!(
        upload_shape(Vector3 { x: 1, y: 2, z: 3 }, Vector3 { x: 1, y: 2, z: 3 }),
        Ok((0, 0, 0))
    );
    assert_eq!(
        upload_shape(Vector3 { x: 1, y: 2, z: 3 }, Vector3 { x: 11, y: 1, z: 33 }),
        Err(DataError::InputMalformed)
    );
}

#[test]
fn filmstrip_stacks_slices_along_y() {
    assert_eq!(filmstrip_size(16, 512, 256), Some((256, 8192)));
    assert_eq!(filmstrip_size(0, 5, 7), Some((7, 0)));
    assert_eq!(filmstrip_size(1 << 20, 1 << 20, 1), None);
    assert_eq!(filmstrip_size(1, 1, 1 << 33), None);
}

#[test]
fn service_names_itself_and_its_channels() {
    assert_eq!(index(), "Bossphorus v0.0.1");
    let meta = get_channel_metadata("col", "exp", "chan");
    assert_eq!(meta.name, "chan");
    assert_eq!(meta.description, "");
    assert_eq!(meta.experiment, "exp");
    assert_eq!(meta.collection, "col");
    assert_eq!(meta.default_time_sample, 0);
    assert_eq!(meta._type, "image");
    assert_eq!(meta.base_resolution, 0);
    assert_eq!(meta.datatype, "uint8");
    assert_eq!(meta.creator, "bossphorus_cache");
    assert_eq!(meta.sources.len(), 0);
    assert_eq!(meta.downsample_status, "DOWNSAMPLED");
    assert_eq!(meta.related.len(), 0);
}

#[test]
fn tracker_is_selected_by_name_whatever_the_case() {
    assert_eq!(get_tracker_type("console"), UsageTrackerType::Console);
    assert_eq!(get_tracker_type("Console"), UsageTrackerType::Console);
    assert_eq!(get_tracker_type("DB"), UsageTrackerType::Sqlite);
    assert_eq!(get_tracker_type("none"), UsageTrackerType::Off);
    assert_eq!(get_tracker_type("NONE"), UsageTrackerType::Off);
    assert_eq!(get_tracker_type("sqlite"), UsageTrackerType::Off);
    assert_eq!(get_tracker_type(""), UsageTrackerType::Off);
    assert_eq!(tracker_named("db"), Some(UsageTrackerType::Sqlite));
    assert_eq!(tracker_named("DB"), None);
    assert_eq!(tracker_named("none"), Some(UsageTrackerType::Off));
    assert_eq!(tracker_named("nothing"), None);
}

#[test]
fn tracking_is_on_for_every_tracker_but_none() {
    assert_eq!(tracking(UsageTrackerType::Off).0, false);
    assert_eq!(tracking(UsageTrackerType::Console).0, true);
    assert_eq!(tracking(UsageTrackerType::Sqlite).0, true);
}

#[test]
fn trackers_take_keys() {
    let mut none = NoneTracker {};
    none.log_request("uploads/a".to_string());
    assert_eq!(
        ConsoleUsageTracker::message("uploads/a"),
        "Request: uploads/a"
    );
}

#[test]
fn settings_come_from_the_environment_first_then_the_file_then_the_default() {
    assert_eq!(
        config::choose_setting(Some("env".to_string()), Some("file".to_string()), "default"),
        "env"
    );
    assert_eq!(
        config::choose_setting(None, Some("file".to_string()), "default"),
        "file"
    );
    assert_eq!(config::choose_setting(None, None, "default"), "default");
    assert_eq!(config::boss_host(None, None).0, "api.bossdb.io");
    assert_eq!(config::boss_host(Some("h".to_string()), None).0, "h");
    assert_eq!(config::boss_token(None, None).0, "public");
    assert_eq!(config::boss_token(None, Some("t".to_string())).0, "t");
    assert_eq!(config::usage_tracker(None, None).0, "db");
    assert_eq!(config::CUBOID_ROOT_PATH, "uploads");
    assert_eq!(config::DB_URL, "./cache-db.sqlite");
}

#[test]
fn filmstrip_is_a_jpeg_image() {
    let volume = bossphorus::volume::Volume::from_shape_vec(2, 8, 8, (0..128).collect()).unwrap();
    let jpeg = bossphorus::api::jpeg_filmstrip(&volume).unwrap();
    assert_eq!(&jpeg[0..2], &[0xff, 0xd8]);
    assert_eq!(&jpeg[jpeg.len() - 2..], &[0xff, 0xd9]);
    assert_ne!(jpeg, volume.to_vec());
    // the same volume gives the same image
    assert_eq!(bossphorus::api::jpeg_filmstrip(&volume).unwrap(), jpeg);
    // a volume without voxels has no image
    let empty = bossphorus::volume::Volume::zeros(0, 8, 8).unwrap();
    assert_eq!(bossphorus::api::jpeg_filmstrip(&empty), None);
}

#[test]
fn pipeline_is_started_at_most_once() {
    let mut pipeline = UsagePipeline::new();
    assert!(!pipeline.is_running());
    assert_eq!(pipeline.run(UsageTrackerType::Off), RunAction::Nothing);
    assert!(!pipeline.is_running());
    assert_eq!(
        pipeline.run(UsageTrackerType::Console),
        RunAction::Start(UsageTrackerType::Console)
    );
    assert!(pipeline.is_running());
    assert_eq!(pipeline.run(UsageTrackerType::Sqlite), RunAction::Refuse);
    assert_eq!(pipeline.run(UsageTrackerType::Console), RunAction::Refuse);
    assert_eq!(pipeline.run(UsageTrackerType::Off), RunAction::Refuse);
    assert!(pipeline.is_running());
}
