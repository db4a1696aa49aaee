use bossphorus::config;
use bossphorus::db::models::Cuboid;
use bossphorus::db::models::NewCuboid;
use bossphorus::db::CleanAction;
use bossphorus::db::CleanEvent;
use bossphorus::db::LeastRecentlyUsed;
use bossphorus::db::LimitNumCuboids;
use bossphorus::db::LogAction;
use bossphorus::db::MaxCountLruStrategy;
use bossphorus::db::Scheduling;
use bossphorus::db::Selection;
use bossphorus::db::SimpleCacheManager;
use bossphorus::db::SqliteCacheInterface;
use chrono::NaiveDate;
use std::cell::RefCell;
use std::rc::Rc;

/// Microseconds since the epoch of a time on 2020-04-19.
fn on_the_day(hour: u32) -> i64 {
    NaiveDate::from_ymd_opt(2020, 4, 19)
        .unwrap()
        .and_hms_opt(hour, 0, 0)
        .unwrap()
        .and_utc()
        .timestamp_micros()
}

struct MockLru {}

impl LeastRecentlyUsed for MockLru {
    /// Return the number of rows requested.  For these tests, row content
    /// doesn't really matter.
    fn find_lru(&self, num: u32) -> Vec<Cuboid> {
        let key = "cube";
        (0..num)
            .map(|i| {
                let timestamp = on_the_day(23 - i);
                Cuboid {
                    id: (i + 1) as i64,
                    cache_root: 1,
                    cube_key: format!("{}/{}", key, i),
                    requests: i as i64,
                    created: timestamp,
                    last_accessed: timestamp,
                }
            })
            .collect()
    }
}

#[test]
fn test_ready_for_cleaning_should_be_yes() {
    let mut strat = MaxCountLruStrategy::new(100, Box::new(MockLru {}));
    strat.set_size(101);
    assert!(strat.ready_for_cleaning());
}

#[test]
fn test_ready_for_cleaning_should_be_no() {
    let mut strat = MaxCountLruStrategy::new(100, Box::new(MockLru {}));
    strat.set_size(100);
    assert_eq!(false, strat.ready_for_cleaning());
}

#[test]
fn test_sub_with_u32_overflow() {
    let mut strat = MaxCountLruStrategy::new(100, Box::new(MockLru {}));
    strat.set_size(100);
    strat.sub(102);
    assert_eq!(0, strat.size());
}

#[test]
fn test_select_cuboids_for_removal_should_be_none() {
    let mut strat = MaxCountLruStrategy::new(100, Box::new(MockLru {}));
    strat.set_size(100);
    let actual = strat.select_cuboids_for_removal();
    assert_eq!(0, actual.len());
}

#[test]
fn test_select_cuboids_for_removal() {
    let mut strat = MaxCountLruStrategy::new(100, Box::new(MockLru {}));
    strat.set_size(104);
    let actual = strat.select_cuboids_for_removal();
    assert_eq!(4, actual.len());
}

#[test]
fn strategy_starts_empty_and_counts_additions_and_removals() {
    let mut strat = MaxCountLruStrategy::new(7, Box::new(MockLru {}));
    assert_eq!(strat.size(), 0);
    assert_eq!(strat.get_max_cuboids(), 7);
    strat.add(5);
    strat.add(4);
    assert_eq!(strat.size(), 9);
    assert_eq!(strat.num_to_remove(), 2);
    strat.sub(3);
    assert_eq!(strat.size(), 6);
    assert_eq!(strat.num_to_remove(), 0);
    strat.sub(6);
    assert_eq!(strat.size(), 0);
    strat.set_max_cuboids(2);
    assert_eq!(strat.get_max_cuboids(), 2);
    assert_eq!(strat.size(), 0);
}

#[test]
fn removing_more_than_is_counted_leaves_zero() {
    let mut strat = MaxCountLruStrategy::new(3, Box::new(MockLru {}));
    strat.set_size(1);
    strat.sub(u32::MAX);
    assert_eq!(strat.size(), 0);
    strat.sub(1);
    assert_eq!(strat.size(), 0);
}

/// A metadata store held in memory: the rows of the cuboids table, with a
/// clock that ticks on every access.
struct Table {
    rows: Vec<Cuboid>,
    roots: Vec<(i32, String)>,
    next_id: i64,
    clock: i64,
}

impl Table {
    fn new() -> Table {
        Table {
            rows: Vec::new(),
            roots: Vec::new(),
            next_id: 1,
            clock: 0,
        }
    }

    fn update(&mut self, cache_root: i32, cube_key: &str) -> usize {
        self.clock += 1;
        let mut changed = 0;
        for row in self.rows.iter_mut() {
            if row.cache_root == cache_root && row.cube_key == cube_key {
                row.requests += 1;
                row.last_accessed = self.clock;
                changed += 1;
            }
        }
        changed
    }

    fn insert(&mut self, row: NewCuboid) {
        self.clock += 1;
        self.rows.push(Cuboid {
            id: self.next_id,
            cache_root: row.cache_root,
            cube_key: row.cube_key,
            requests: row.requests,
            created: self.clock,
            last_accessed: self.clock,
        });
        self.next_id += 1;
    }

    fn find_lru(&self, num: u32) -> Vec<Cuboid> {
        let mut rows = self.rows.clone();
        rows.sort_by_key(|row| row.last_accessed);
        rows.truncate(num as usize);
        rows
    }

    fn remove(&mut self, id: i64) -> bool {
        let before = self.rows.len();
        self.rows.retain(|row| row.id != id);
        self.rows.len() < before
    }

    fn requests_of(&self, cube_key: &str) -> Option<(String, i64)> {
        self.rows
            .iter()
            .find(|row| row.cube_key == cube_key)
            .map(|row| (row.cube_key.clone(), row.requests))
    }
}

struct TableFinder(Rc<RefCell<Table>>);

impl LeastRecentlyUsed for TableFinder {
    fn find_lru(&self, num: u32) -> Vec<Cuboid> {
        self.0.borrow().find_lru(num)
    }
}

struct TestItems {
    sql_mgr: SqliteCacheInterface,
    table: Rc<RefCell<Table>>,
    remove_calls: Rc<RefCell<Vec<String>>>,
}

const ROOT_ID: i32 = 1;

fn setup_db() -> TestItems {
    TestItems {
        sql_mgr: SqliteCacheInterface::new(ROOT_ID, config::CUBOID_ROOT_PATH),
        table: Rc::new(RefCell::new(Table::new())),
        remove_calls: Rc::new(RefCell::new(Vec::new())),
    }
}

/// Records an access as the consumer does: works the table as the
/// interface directs.
fn log_request(items: &TestItems, key: String) -> bool {
    match items.sql_mgr.log_request(&key) {
        LogAction::Update {
            cache_root,
            cube_key,
        } => {
            let changed = items.table.borrow_mut().update(cache_root, &cube_key);
            match items.sql_mgr.log_request_updated(cube_key, Some(changed)) {
                LogAction::Insert(row) => {
                    items.table.borrow_mut().insert(row);
                    true
                }
                _ => false,
            }
        }
        _ => false,
    }
}

/// Cleans as the consumer does: removes files and rows as the interface
/// directs. File removal is recorded, not done.
fn clean_cache(items: &mut TestItems, unwanted: Vec<Cuboid>) -> u32 {
    let mut session = items.sql_mgr.clean_cache(unwanted);
    let mut event = CleanEvent::Begin;
    loop {
        match items.sql_mgr.clean_step(&mut session, event) {
            CleanAction::LookupRoot(id) => {
                let found = items
                    .table
                    .borrow()
                    .roots
                    .iter()
                    .find(|r| r.0 == id)
                    .map(|r| r.1.clone());
                event = CleanEvent::Root(found);
            }
            CleanAction::RemoveFile(path) => {
                items.remove_calls.borrow_mut().push(path);
                event = CleanEvent::FileRemoved(true);
            }
            CleanAction::RemoveEntry(id) => {
                event = CleanEvent::EntryRemoved(items.table.borrow_mut().remove(id));
            }
            CleanAction::Finished(count) => return count,
        }
    }
}

#[test]
fn test_log_new_request() {
    let items = setup_db();
    let key = "/new_key";
    let actual = log_request(&items, format!("{}{}", config::CUBOID_ROOT_PATH, key));
    assert_eq!(true, actual);
    assert_eq!(
        Some((key.to_string(), 1)),
        items.table.borrow().requests_of(key)
    );
}

#[test]
fn test_log_repeated_request() {
    let items = setup_db();
    let key = "/my_key";
    assert_eq!(
        true,
        log_request(&items, format!("{}{}", config::CUBOID_ROOT_PATH, key))
    );
    assert_eq!(
        false,
        log_request(&items, format!("{}{}", config::CUBOID_ROOT_PATH, key))
    );
    assert_eq!(
        Some((key.to_string(), 2)),
        items.table.borrow().requests_of(key)
    );
}

#[test]
fn test_get_cache_root_path_from_map_new_lookup() {
    let mut items = setup_db();
    let root = "/some/folder";
    let cache_root_id = 100;
    items
        .table
        .borrow_mut()
        .roots
        .push((cache_root_id, root.to_string()));
    assert_eq!(None, items.sql_mgr.get_cache_root_path_from_map(cache_root_id));
    let found = items
        .table
        .borrow()
        .roots
        .iter()
        .find(|r| r.0 == cache_root_id)
        .map(|r| r.1.clone())
        .expect("Could not add cache root");
    items.sql_mgr.remember_cache_root(cache_root_id, found);
    let actual = items
        .sql_mgr
        .get_cache_root_path_from_map(cache_root_id)
        .unwrap();
    assert_eq!(root, actual);
}

#[test]
fn test_get_cache_root_path_from_map_existing_lookup() {
    let mut items = setup_db();
    let cache_root_id = 100;
    let root_path = "/some/other/folder";
    items
        .sql_mgr
        .remember_cache_root(cache_root_id, root_path.to_string());
    assert_eq!(
        root_path,
        items
            .sql_mgr
            .get_cache_root_path_from_map(cache_root_id)
            .unwrap()
    );
}

#[test]
fn test_clean_cache() {
    let mut items = setup_db();
    let key1 = "/oldest_key";
    let full_key1 = format!("{}{}", config::CUBOID_ROOT_PATH, key1);
    assert_eq!(true, log_request(&items, full_key1.to_string()));

    let key2 = "/not_as_old_key";
    assert_eq!(
        true,
        log_request(&items, format!("{}{}", config::CUBOID_ROOT_PATH, key2))
    );

    let row = items.table.borrow().find_lru(1);
    assert_eq!(key1, row[0].cube_key);

    let count = clean_cache(&mut items, row);
    assert_eq!(1, count);
    assert_eq!(1, items.remove_calls.borrow().len());
    assert_eq!(full_key1, items.remove_calls.borrow()[0]);
}

const MAX_COUNT: u32 = 10;

#[test]
fn test_cache_management() {
    let mut items = setup_db();
    let strat = MaxCountLruStrategy::new(MAX_COUNT, Box::new(TableFinder(Rc::clone(&items.table))));
    let mut cache_mgr = SimpleCacheManager::new(strat);

    let key = "coll/exp/chan";
    let num_reqs = MAX_COUNT + 5;
    let requests: Vec<String> = (0..num_reqs)
        .map(|i| format!("{}/{}/{}", config::CUBOID_ROOT_PATH, key, i))
        .collect();

    for (i, req) in requests.iter().enumerate() {
        let created = log_request(&items, req.to_string());
        if let Some(victims) = cache_mgr.logged(created) {
            let num_removed = clean_cache(&mut items, victims);
            cache_mgr.cleaned(num_removed);
        }
        if i >= MAX_COUNT as usize {
            // Once there are MAX_COUNT cuboids in the cache, then there
            // should be a removal of the oldest cuboid whenever a new one
            // gets added.
            let ind = i - MAX_COUNT as usize;
            assert_eq!(requests[ind], items.remove_calls.borrow()[ind]);
        }
    }

    let exp_removes = (num_reqs - MAX_COUNT) as usize;
    assert_eq!(exp_removes, items.remove_calls.borrow().len());
    assert_eq!(MAX_COUNT, cache_mgr.size());

    // The five earliest keys are gone from the metadata, the rest remain.
    assert_eq!(MAX_COUNT as usize, items.table.borrow().rows.len());
    for (i, req) in requests.iter().enumerate() {
        let cube_key = &req[config::CUBOID_ROOT_PATH.len()..];
        assert_eq!(
            items.table.borrow().requests_of(cube_key).is_some(),
            i >= exp_removes
        );
    }
}

#[test]
fn repeated_access_is_not_counted_twice() {
    let mut cache_mgr = SimpleCacheManager::new(MaxCountLruStrategy::new(1, Box::new(MockLru {})));
    assert!(cache_mgr.logged(true).is_none());
    assert_eq!(cache_mgr.size(), 1);
    assert!(cache_mgr.logged(false).is_none());
    assert_eq!(cache_mgr.size(), 1);
    let victims = cache_mgr.logged(true).unwrap();
    assert_eq!(victims.len(), 1);
    assert_eq!(cache_mgr.size(), 2);
    cache_mgr.cleaned(1);
    assert_eq!(cache_mgr.size(), 1);
}

#[test]
fn key_is_what_follows_the_root() {
    let sql_mgr = SqliteCacheInterface::new(3, "uploads");
    assert_eq!(
        sql_mgr.cube_key("uploads/coll/exp/chan/0/x0_y0_z0"),
        Some("/coll/exp/chan/0/x0_y0_z0".to_string())
    );
    assert_eq!(sql_mgr.cube_key("uploads"), Some("".to_string()));
    // shorter than the root
    assert_eq!(sql_mgr.cube_key("up"), None);
    // the cut would split a character
    assert_eq!(sql_mgr.cube_key("upload\u{e9}/x"), None);
}

#[test]
fn failed_update_ends_the_recording() {
    let sql_mgr = SqliteCacheInterface::new(3, "uploads");
    assert!(matches!(
        sql_mgr.log_request_updated("/k".to_string(), None),
        LogAction::Finished
    ));
    assert!(matches!(
        sql_mgr.log_request_updated("/k".to_string(), Some(2)),
        LogAction::Finished
    ));
    match sql_mgr.log_request_updated("/k".to_string(), Some(0)) {
        LogAction::Insert(row) => assert_eq!(
            row,
            NewCuboid {
                cache_root: 3,
                cube_key: "/k".to_string(),
                requests: 1
            }
        ),
        _ => panic!("a first access is to be inserted"),
    }
    assert!(matches!(sql_mgr.log_request("u"), LogAction::Finished));
}

fn cuboid(id: i64, cache_root: i32, cube_key: &str) -> Cuboid {
    Cuboid {
        id,
        cache_root,
        cube_key: cube_key.to_string(),
        requests: 1,
        created: 0,
        last_accessed: 0,
    }
}

#[test]
fn cleaning_counts_only_cuboids_removed_in_full() {
    let mut sql_mgr = SqliteCacheInterface::new(1, "uploads");
    let unwanted = vec![
        cuboid(10, 1, "/a"),
        cuboid(11, 2, "/b"),
        cuboid(12, 3, "/c"),
        cuboid(13, 1, "/d"),
        cuboid(14, 1, "/e"),
    ];
    let mut session = sql_mgr.clean_cache(unwanted);
    let mut asked: Vec<String> = Vec::new();
    let mut event = CleanEvent::Begin;
    let count = loop {
        match sql_mgr.clean_step(&mut session, event) {
            CleanAction::LookupRoot(id) => {
                asked.push(format!("root {}", id));
                // root 2 is known to the store, root 3 is not
                event = CleanEvent::Root(if id == 2 {
                    Some("/mnt/two".to_string())
                } else {
                    None
                });
            }
            CleanAction::RemoveFile(path) => {
                // the file of /d cannot be removed
                event = CleanEvent::FileRemoved(path != "uploads/d");
                asked.push(format!("file {}", path));
            }
            CleanAction::RemoveEntry(id) => {
                asked.push(format!("row {}", id));
                // the row of /e cannot be removed
                event = CleanEvent::EntryRemoved(id != 14);
            }
            CleanAction::Finished(count) => break count,
        }
    };
    assert_eq!(count, 2);
    assert_eq!(
        asked,
        vec![
            "file uploads/a",
            "row 10",
            "root 2",
            "file /mnt/two/b",
            "row 11",
            "root 3",
            "file uploads/d",
            "file uploads/e",
            "row 14",
        ]
    );
    assert_eq!(
        sql_mgr.get_cache_root_path_from_map(2),
        Some("/mnt/two".to_string())
    );
    assert_eq!(sql_mgr.get_cache_root_path_from_map(3), None);
}

#[test]
fn cleaning_nothing_removes_nothing() {
    let mut sql_mgr = SqliteCacheInterface::new(1, "uploads");
    let mut session = sql_mgr.clean_cache(Vec::new());
    assert!(matches!(
        sql_mgr.clean_step(&mut session, CleanEvent::Begin),
        CleanAction::Finished(0)
    ));
}
