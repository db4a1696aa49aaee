//! Cache accounting: how many cuboids the cache may hold, which to evict,
//! and the steps of recording an access and of cleaning.
//!
//! The metadata store itself is a database and the cuboids are files; both
//! are worked by the caller. What is decided here is what to ask of them and
//! what to make of their answers.
use vstd::prelude::*;
use vstd::string::StringExecFns;
use std::collections::HashMap;
use crate::db::models::Cuboid;
use crate::db::models::NewCuboid;
use crate::text::join;
use vstd::string::StringSliceAdditionalSpecFns;
use vstd::utf8::encode_utf8;
use vstd::utf8::is_char_boundary;

pub mod cleaning;
pub mod models;

verus! {

broadcast use vstd::std_specs::hash::group_hash_axioms;

/// Says when it is time to remove cuboids from the cache.
pub trait Scheduling {
    /// Whether cleaning is due.
    fn ready_for_cleaning(&self) -> bool;
}

/// Chooses cuboids to remove from the cache.
pub trait Selection {
    fn select_cuboids_for_removal(&self) -> Vec<Cuboid>;
}

/// Finds the cuboids that have gone unused the longest.
pub trait LeastRecentlyUsed {
    /// Whether `rows` is an answer that this finder gives when it is asked
    /// for `num` cuboids. A finder that says no more of its answers holds
    /// that they have no more than `num` rows.
    open spec fn answers(&self, num: u32, rows: Seq<Cuboid>) -> bool {
        rows.len() <= num
    }

    /// Up to `num` cuboids of the cache, the least recently used first.
    fn find_lru(&self, num: u32) -> (rows: Vec<Cuboid>)
        ensures
            self.answers(num, rows@),
            rows@.len() <= num,
    ;
}

/// A boxed finder answers as the finder in the box does.
impl<T: LeastRecentlyUsed + ?Sized> LeastRecentlyUsed for Box<T> {
    open spec fn answers(&self, num: u32, rows: Seq<Cuboid>) -> bool {
        (**self).answers(num, rows)
    }

    fn find_lru(&self, num: u32) -> (rows: Vec<Cuboid>) {
        (**self).find_lru(num)
    }
}

/// A cache bounded by the number of cuboids it holds.
pub trait LimitNumCuboids {
    /// The most cuboids that the cache should hold.
    spec fn limit(&self) -> u32;

    /// The number of cuboids that the cache is taken to hold.
    spec fn count(&self) -> u32;

    fn get_max_cuboids(&self) -> (max: u32)
        ensures
            max == self.limit(),
    ;

    fn set_max_cuboids(&mut self, max: u32)
        ensures
            final(self).limit() == max,
            final(self).count() == old(self).count(),
    ;

    fn size(&self) -> (num: u32)
        ensures
            num == self.count(),
    ;

    fn set_size(&mut self, num: u32)
        ensures
            final(self).count() == num,
            final(self).limit() == old(self).limit(),
    ;

    /// Counts `num` cuboids more.
    fn add(&mut self, num: u32)
        requires
            old(self).count() + num <= u32::MAX,
        ensures
            final(self).count() == old(self).count() + num,
            final(self).limit() == old(self).limit(),
    ;

    /// Counts `num` cuboids fewer, and none when fewer than `num` were
    /// counted.
    fn sub(&mut self, num: u32)
        ensures
            final(self).count() == after_removal(old(self).count() as int, num as int),
            final(self).limit() == old(self).limit(),
    ;
}

/// How many cuboids a cache of `count` cuboids holds beyond its `limit`.
pub open spec fn excess(count: int, limit: int) -> int {
    if count > limit {
        count - limit
    } else {
        0
    }
}

/// The count after a cuboid has been added to a cache of `count` cuboids and
/// every cuboid beyond the limit has been removed.
pub open spec fn after_access(count: int, limit: int) -> int {
    after_removal(count + 1, excess(count + 1, limit))
}

/// The count after `k` cuboids have been added, one after the other, to an
/// empty cache that is cleaned whenever it is due and loses every victim.
pub open spec fn after_accesses(limit: int, k: nat) -> int
    decreases k,
{
    if k == 0 {
        0
    } else {
        after_access(after_accesses(limit, (k - 1) as nat), limit)
    }
}

/// Eviction convergence: a cache that is cleaned after every addition never
/// counts more than its limit, and counts exactly its limit once more
/// cuboids than that have been added.
pub proof fn lemma_eviction_converges(limit: int, k: nat)
    requires
        0 <= limit,
    ensures
        after_accesses(limit, k) == (if k <= limit {
            k as int
        } else {
            limit
        }),
    decreases k,
{
    if k > 0 {
        lemma_eviction_converges(limit, (k - 1) as nat);
    }
}

/// Keeps the cache at no more than a fixed number of cuboids by evicting
/// the least recently used.
pub struct MaxCountLruStrategy<F> {
    /// Most cuboids to keep.
    max_cuboids: u32,
    /// Cuboids taken to be in the cache.
    num_cuboids: u32,
    /// Finds the victims.
    finder: F,
}

impl<F: LeastRecentlyUsed> Scheduling for MaxCountLruStrategy<F> {
    fn ready_for_cleaning(&self) -> (due: bool)
        ensures
            due == (self.count() > self.limit()),
    {
        self.size() > self.get_max_cuboids()
    }
}

impl<F: LeastRecentlyUsed> LimitNumCuboids for MaxCountLruStrategy<F> {
    closed spec fn limit(&self) -> u32 {
        self.max_cuboids
    }

    closed spec fn count(&self) -> u32 {
        self.num_cuboids
    }

    fn get_max_cuboids(&self) -> (max: u32) {
        self.max_cuboids
    }

    fn set_max_cuboids(&mut self, max: u32)
        ensures
            final(self).finder() == old(self).finder(),
    {
        self.max_cuboids = max;
    }

    fn size(&self) -> (num: u32) {
        self.num_cuboids
    }

    fn set_size(&mut self, num: u32)
        ensures
            final(self).finder() == old(self).finder(),
    {
        self.num_cuboids = num;
    }

    fn add(&mut self, num: u32)
        ensures
            final(self).finder() == old(self).finder(),
    {
        self.num_cuboids = self.num_cuboids + num;
    }

    fn sub(&mut self, num: u32)
        ensures
            final(self).finder() == old(self).finder(),
    {
        if num > self.num_cuboids {
            self.num_cuboids = 0;
        } else {
            self.num_cuboids = self.num_cuboids - num;
        }
    }
}

impl<F: LeastRecentlyUsed> Selection for MaxCountLruStrategy<F> {
    /// The victims of a cleaning: none while the cache is within its limit,
    /// else the answer of the finder to a request for as many cuboids as the
    /// cache holds too many.
    fn select_cuboids_for_removal(&self) -> (victims: Vec<Cuboid>)
        ensures
            self.count() <= self.limit() ==> victims@.len() == 0,
            self.count() > self.limit() ==> self.finder().answers(
                (self.count() - self.limit()) as u32,
                victims@,
            ),
            victims@.len() <= excess(self.count() as int, self.limit() as int),
    {
        let num_to_remove = self.num_to_remove();
        if num_to_remove == 0 {
            return Vec::new();
        }
        self.finder.find_lru(num_to_remove)
    }
}

impl<F: LeastRecentlyUsed> MaxCountLruStrategy<F> {
    /// The finder that is asked for the victims of a cleaning.
    pub closed spec fn finder(&self) -> F {
        self.finder
    }

    /// A strategy for an empty cache of at most `max_cuboids` cuboids, whose
    /// victims `finder` finds.
    pub fn new(max_cuboids: u32, finder: F) -> (r: MaxCountLruStrategy<F>)
        ensures
            r.limit() == max_cuboids,
            r.count() == 0,
            r.finder() == finder,
    {
        MaxCountLruStrategy { max_cuboids, num_cuboids: 0, finder }
    }

    /// How many cuboids the cache holds beyond its limit: the number of
    /// victims that a cleaning asks for.
    pub fn num_to_remove(&self) -> (num: u32)
        ensures
            num == excess(self.count() as int, self.limit() as int),
    {
        if self.num_cuboids > self.max_cuboids {
            self.num_cuboids - self.max_cuboids
        } else {
            0
        }
    }
}

/// The count after `removed` cuboids have left a cache of `count`: never
/// below zero.
pub open spec fn after_removal(count: int, removed: int) -> int {
    if removed > count {
        0
    } else {
        count - removed
    }
}

/// The accounting of a cache whose metadata lives in a database: counts the
/// cuboids and says when to clean and what.
pub struct SimpleCacheManager<F> {
    /// Keeps no more than a fixed number of cuboids, evicting the least
    /// recently used.
    strategy: MaxCountLruStrategy<F>,
}

impl<F: LeastRecentlyUsed> SimpleCacheManager<F> {
    /// The number of cuboids that the cache is taken to hold.
    pub closed spec fn count(&self) -> u32 {
        self.strategy.count()
    }

    /// The most cuboids that the cache should hold.
    pub closed spec fn limit(&self) -> u32 {
        self.strategy.limit()
    }

    /// The finder that is asked for the victims of a cleaning.
    pub closed spec fn finder(&self) -> F {
        self.strategy.finder()
    }

    /// The accounting that `strategy` keeps.
    pub fn new(strategy: MaxCountLruStrategy<F>) -> (r: SimpleCacheManager<F>)
        ensures
            r.count() == strategy.count(),
            r.limit() == strategy.limit(),
            r.finder() == strategy.finder(),
    {
        SimpleCacheManager { strategy }
    }

    /// The number of cuboids that the cache is taken to hold.
    pub fn size(&self) -> (num: u32)
        ensures
            num == self.count(),
    {
        self.strategy.size()
    }

    /// Takes the answer of the metadata store to a logged access: whether
    /// the access made a new row. A new row counts as one cuboid more; if
    /// the cache then holds too many, the finder is asked for as many
    /// victims as it holds too many, and its answer is returned for
    /// cleaning.
    pub fn logged(&mut self, created: bool) -> (victims: Option<Vec<Cuboid>>)
        requires
            created ==> old(self).count() < u32::MAX,
        ensures
            final(self).limit() == old(self).limit(),
            final(self).finder() == old(self).finder(),
            !created ==> victims is None && final(self).count() == old(self).count(),
            created ==> final(self).count() == old(self).count() + 1,
            created ==> (victims is Some <==> excess(
                final(self).count() as int,
                final(self).limit() as int,
            ) > 0),
            victims is Some ==> final(self).finder().answers(
                excess(final(self).count() as int, final(self).limit() as int) as u32,
                victims.unwrap()@,
            ),
            victims is Some ==> victims.unwrap()@.len() <= excess(
                final(self).count() as int,
                final(self).limit() as int,
            ),
    {
        if created {
            self.strategy.add(1);
            if self.strategy.ready_for_cleaning() {
                return Some(self.strategy.select_cuboids_for_removal());
            }
        }
        None
    }

    /// Takes the number of cuboids that a cleaning removed.
    pub fn cleaned(&mut self, num_removed: u32)
        ensures
            final(self).limit() == old(self).limit(),
            final(self).finder() == old(self).finder(),
            final(self).count() == after_removal(old(self).count() as int, num_removed as int),
    {
        self.strategy.sub(num_removed);
    }
}

/// What the recording of an access asks of its caller next.
pub enum LogAction {
    /// Count one more request for the row with this cache root and key, and
    /// set its time of last access to now; say how many rows that changed.
    Update { cache_root: i32, cube_key: String },
    /// Insert this row; the access made a new row if that succeeds.
    Insert(NewCuboid),
    /// Nothing more to do: the access made no new row.
    Finished,
}

/// What a cleaning asks of its caller next.
pub enum CleanAction {
    /// Look up the path of the cache root with this id.
    LookupRoot(i32),
    /// Remove the file at this path.
    RemoveFile(String),
    /// Remove the row with this id.
    RemoveEntry(i64),
    /// Nothing more to do: so many cuboids have been removed, file and row.
    Finished(u32),
}

/// What the caller of a cleaning reports back.
pub enum CleanEvent {
    /// Nothing yet: the cleaning is to begin.
    Begin,
    /// The path of the cache root asked for, if there is such a root.
    Root(Option<String>),
    /// Whether the file was removed.
    FileRemoved(bool),
    /// Whether the row was removed.
    EntryRemoved(bool),
}

/// What a cleaning is waiting for.
#[derive(Copy, Clone, PartialEq, Eq, Debug, Structural)]
pub enum CleanPhase {
    /// Nothing: it is about to turn to its next cuboid.
    Idle,
    /// The path of the cache root of its next cuboid.
    AwaitRoot,
    /// The removal of the file of its next cuboid.
    AwaitFile,
    /// The removal of the row of its next cuboid.
    AwaitEntry,
}

/// The state of a cleaning.
pub struct CleanView {
    /// The cuboids to remove, in order.
    pub unwanted: Seq<Cuboid>,
    /// How many of them have been dealt with.
    pub next: int,
    /// How many of them have been removed, file and row.
    pub removed: int,
    pub phase: CleanPhase,
}

/// What a cleaning asks for, with texts as character sequences.
pub enum CleanDemand {
    LookupRoot(i32),
    RemoveFile(Seq<char>),
    RemoveEntry(i64),
    Finished(u32),
}

/// The demand that an action makes.
pub open spec fn demand_of(action: CleanAction) -> CleanDemand {
    match action {
        CleanAction::LookupRoot(id) => CleanDemand::LookupRoot(id),
        CleanAction::RemoveFile(path) => CleanDemand::RemoveFile(path@),
        CleanAction::RemoveEntry(id) => CleanDemand::RemoveEntry(id),
        CleanAction::Finished(count) => CleanDemand::Finished(count),
    }
}

/// What the caller of a cleaning reports back, with texts as character
/// sequences.
pub enum CleanReply {
    Begin,
    Root(Option<Seq<char>>),
    FileRemoved(bool),
    EntryRemoved(bool),
}

/// The reply that an event carries.
pub open spec fn reply_of(event: CleanEvent) -> CleanReply {
    match event {
        CleanEvent::Begin => CleanReply::Begin,
        CleanEvent::Root(Some(path)) => CleanReply::Root(Some(path@)),
        CleanEvent::Root(None) => CleanReply::Root(None),
        CleanEvent::FileRemoved(done) => CleanReply::FileRemoved(done),
        CleanEvent::EntryRemoved(done) => CleanReply::EntryRemoved(done),
    }
}

/// The cleaning `v` having given up on its next cuboid.
pub open spec fn skipped(v: CleanView) -> CleanView {
    CleanView { next: v.next + 1, phase: CleanPhase::Idle, ..v }
}

/// The cleaning and the known cache roots once `reply` has been taken in.
///
/// A cache root that was found is remembered and the cuboid tried again. A
/// file that was removed leaves the row to remove. A row that was removed
/// counts as a removed cuboid. Any other answer gives the cuboid up.
pub open spec fn absorbed(v: CleanView, roots: Map<i32, Seq<char>>, reply: CleanReply) -> (
    CleanView,
    Map<i32, Seq<char>>,
) {
    match v.phase {
        CleanPhase::Idle => (v, roots),
        CleanPhase::AwaitRoot => match reply {
            CleanReply::Root(Some(path)) => (
                CleanView { phase: CleanPhase::Idle, ..v },
                roots.insert(v.unwanted[v.next].cache_root, path),
            ),
            _ => (skipped(v), roots),
        },
        CleanPhase::AwaitFile => match reply {
            CleanReply::FileRemoved(true) => (CleanView { phase: CleanPhase::AwaitEntry, ..v }, roots),
            _ => (skipped(v), roots),
        },
        CleanPhase::AwaitEntry => match reply {
            CleanReply::EntryRemoved(true) => (
                CleanView { removed: v.removed + 1, ..skipped(v) },
                roots,
            ),
            _ => (skipped(v), roots),
        },
    }
}

/// What a cleaning that has taken in its event asks for, and the state in
/// which it waits for the answer.
///
/// After the file, the row. Otherwise the next cuboid: the file at its key
/// below its cache root if the root is known, else the root. When no cuboid
/// is left, the count.
pub open spec fn directed(v: CleanView, roots: Map<i32, Seq<char>>) -> (CleanView, CleanDemand) {
    if v.phase == CleanPhase::AwaitEntry {
        (v, CleanDemand::RemoveEntry(v.unwanted[v.next].id))
    } else if v.next >= v.unwanted.len() {
        (v, CleanDemand::Finished(v.removed as u32))
    } else if roots.contains_key(v.unwanted[v.next].cache_root) {
        (
            CleanView { phase: CleanPhase::AwaitFile, ..v },
            CleanDemand::RemoveFile(
                roots[v.unwanted[v.next].cache_root] + v.unwanted[v.next].cube_key@,
            ),
        )
    } else {
        (
            CleanView { phase: CleanPhase::AwaitRoot, ..v },
            CleanDemand::LookupRoot(v.unwanted[v.next].cache_root),
        )
    }
}

/// A cleaning in progress.
pub struct CleanSession {
    unwanted: Vec<Cuboid>,
    next: usize,
    removed: u32,
    phase: CleanPhase,
}

impl View for CleanSession {
    type V = CleanView;

    closed spec fn view(&self) -> CleanView {
        CleanView {
            unwanted: self.unwanted@,
            next: self.next as int,
            removed: self.removed as int,
            phase: self.phase,
        }
    }
}

impl CleanSession {
    /// No more cuboids are counted as removed than have been dealt with, and
    /// a cleaning that waits for an answer has a cuboid to wait for.
    pub closed spec fn wf(&self) -> bool {
        &&& self.unwanted@.len() <= u32::MAX
        &&& self.next <= self.unwanted@.len()
        &&& self.removed <= self.next
        &&& self.phase != CleanPhase::Idle ==> self.next < self.unwanted@.len()
    }
}

/// What the cache knows of its metadata store without asking: the row id of
/// the active cache root, the paths of the cache roots met so far, and how
/// long the prefix is that turns the path of a block into its key.
pub struct SqliteCacheInterface {
    /// Row id of the active cache root.
    cache_root_id: i32,
    /// Paths of the cache roots met so far, by row id.
    cache_root_map: HashMap<i32, String>,
    /// Length in bytes of the path of the cuboid root.
    path_len: usize,
}

impl SqliteCacheInterface {
    /// Row id of the active cache root.
    pub closed spec fn root_id(&self) -> i32 {
        self.cache_root_id
    }

    /// Length in bytes of the prefix that is cut from block paths.
    pub closed spec fn prefix_len(&self) -> usize {
        self.path_len
    }

    /// The paths of the cache roots met so far.
    pub closed spec fn roots(&self) -> Map<i32, Seq<char>> {
        Map::new(|id: i32| self.cache_root_map@.contains_key(id), |id: i32| self.cache_root_map@[id]@)
    }

    /// The interface of a store whose active cache root has the row id
    /// `cache_root_id` and the path `cuboid_root_path`.
    pub fn new(cache_root_id: i32, cuboid_root_path: &str) -> (r: SqliteCacheInterface)
        ensures
            r.root_id() == cache_root_id,
            r.prefix_len() == cuboid_root_path.spec_bytes().len() as usize,
            r.roots() == Map::<i32, Seq<char>>::empty().insert(cache_root_id, cuboid_root_path@),
    {
        let mut cache_root_map: HashMap<i32, String> = HashMap::new();
        cache_root_map.insert(cache_root_id, String::from_str(cuboid_root_path));
        let r = SqliteCacheInterface {
            cache_root_id,
            cache_root_map,
            path_len: cuboid_root_path.len(),
        };
        assert(r.roots() =~= Map::<i32, Seq<char>>::empty().insert(
            cache_root_id,
            cuboid_root_path@,
        ));
        r
    }

    /// The path of the cache root with the row id `root_id`, if that root
    /// has been met.
    pub fn get_cache_root_path_from_map(&self, root_id: i32) -> (r: Option<String>)
        ensures
            match r {
                Some(path) => self.roots().contains_key(root_id) && path@ == self.roots()[root_id],
                None => !self.roots().contains_key(root_id),
            },
    {
        match self.cache_root_map.get(&root_id) {
            Some(path) => Some(path.clone()),
            None => None,
        }
    }

    /// Remembers the path of a cache root.
    pub fn remember_cache_root(&mut self, root_id: i32, path: String)
        ensures
            final(self).roots() == old(self).roots().insert(root_id, path@),
            final(self).root_id() == old(self).root_id(),
            final(self).prefix_len() == old(self).prefix_len(),
    {
        self.cache_root_map.insert(root_id, path);
        assert(final(self).roots() =~= old(self).roots().insert(root_id, path@));
    }

    /// The key of the block at the path `key`: what follows the path of the
    /// cuboid root. `None` when the path cannot be cut there.
    pub fn cube_key(&self, key: &str) -> (r: Option<String>)
        ensures
            match r {
                Some(k) => is_char_boundary(key.spec_bytes(), self.prefix_len() as int)
                    && encode_utf8(k@) == key.spec_bytes().subrange(
                    self.prefix_len() as int,
                    key.spec_bytes().len() as int,
                ),
                None => !is_char_boundary(key.spec_bytes(), self.prefix_len() as int),
            },
    {
        if !key.is_char_boundary(self.path_len) {
            return None;
        }
        let (_root, remainder) = key.split_at(self.path_len);
        let k = String::from_str(remainder);
        Some(k)
    }

    /// Begins the recording of an access to the block at the path `key`: the
    /// row of its key under the active cache root is to be updated. A path
    /// that has no key is not recorded.
    pub fn log_request(&self, key: &str) -> (action: LogAction)
        ensures
            match action {
                LogAction::Update { cache_root, cube_key } => {
                    &&& is_char_boundary(key.spec_bytes(), self.prefix_len() as int)
                    &&& cache_root == self.root_id()
                    &&& encode_utf8(cube_key@) == key.spec_bytes().subrange(
                        self.prefix_len() as int,
                        key.spec_bytes().len() as int,
                    )
                },
                LogAction::Insert(_) => false,
                LogAction::Finished => !is_char_boundary(
                    key.spec_bytes(),
                    self.prefix_len() as int,
                ),
            },
    {
        match self.cube_key(key) {
            Some(cube_key) => LogAction::Update { cache_root: self.cache_root_id, cube_key },
            None => LogAction::Finished,
        }
    }

    /// Goes on with the recording of an access once the update has been
    /// tried: `updated` is the number of rows that it changed, `None` if it
    /// failed. An update that changed no row leaves a first-time access,
    /// whose row, with one request, is to be inserted. Any other ends the
    /// recording.
    pub fn log_request_updated(&self, cube_key: String, updated: Option<usize>) -> (action:
        LogAction)
        ensures
            match action {
                LogAction::Insert(row) => {
                    &&& updated == Some(0usize)
                    &&& row.cache_root == self.root_id()
                    &&& row.cube_key@ == cube_key@
                    &&& row.requests == 1
                },
                LogAction::Finished => updated != Some(0usize),
                LogAction::Update { .. } => false,
            },
    {
        match updated {
            Some(0) => LogAction::Insert(
                NewCuboid { cache_root: self.cache_root_id, cube_key, requests: 1 },
            ),
            _ => LogAction::Finished,
        }
    }

    /// Begins the removal of the cuboids `unwanted` from the cache.
    pub fn clean_cache(&self, unwanted: Vec<Cuboid>) -> (session: CleanSession)
        requires
            unwanted@.len() <= u32::MAX,
        ensures
            session.wf(),
            session@ == (CleanView {
                unwanted: unwanted@,
                next: 0,
                removed: 0,
                phase: CleanPhase::Idle,
            }),
    {
        CleanSession { unwanted, next: 0, removed: 0, phase: CleanPhase::Idle }
    }

    /// Takes the answer to what the cleaning asked for last and says what it
    /// asks for next, as [`absorbed`] and [`directed`] lay down.
    pub fn clean_step(&mut self, session: &mut CleanSession, event: CleanEvent) -> (action:
        CleanAction)
        requires
            old(session).wf(),
        ensures
            final(session).wf(),
            final(session)@.removed <= final(session)@.next <= final(session)@.unwanted.len(),
            final(self).root_id() == old(self).root_id(),
            final(self).prefix_len() == old(self).prefix_len(),
            final(self).roots() == absorbed(old(session)@, old(self).roots(), reply_of(event)).1,
            final(session)@ == directed(
                absorbed(old(session)@, old(self).roots(), reply_of(event)).0,
                final(self).roots(),
            ).0,
            demand_of(action) == directed(
                absorbed(old(session)@, old(self).roots(), reply_of(event)).0,
                final(self).roots(),
            ).1,
    {
        match session.phase {
            CleanPhase::Idle => {},
            CleanPhase::AwaitRoot => {
                match event {
                    CleanEvent::Root(Some(path)) => {
                        let root_id = session.unwanted[session.next].cache_root;
                        self.remember_cache_root(root_id, path);
                        session.phase = CleanPhase::Idle;
                    },
                    _ => {
                        session.next = session.next + 1;
                        session.phase = CleanPhase::Idle;
                    },
                }
            },
            CleanPhase::AwaitFile => {
                match event {
                    CleanEvent::FileRemoved(true) => {
                        session.phase = CleanPhase::AwaitEntry;
                    },
                    _ => {
                        session.next = session.next + 1;
                        session.phase = CleanPhase::Idle;
                    },
                }
            },
            CleanPhase::AwaitEntry => {
                match event {
                    CleanEvent::EntryRemoved(true) => {
                        session.removed = session.removed + 1;
                        session.next = session.next + 1;
                        session.phase = CleanPhase::Idle;
                    },
                    _ => {
                        session.next = session.next + 1;
                        session.phase = CleanPhase::Idle;
                    },
                }
            },
        }
        match session.phase {
            CleanPhase::AwaitEntry => {
                return CleanAction::RemoveEntry(session.unwanted[session.next].id);
            },
            _ => {},
        }
        if session.next >= session.unwanted.len() {
            return CleanAction::Finished(session.removed);
        }
        let root_id = session.unwanted[session.next].cache_root;
        match self.get_cache_root_path_from_map(root_id) {
            Some(root_path) => {
                session.phase = CleanPhase::AwaitFile;
                CleanAction::RemoveFile(
                    join(root_path.as_str(), session.unwanted[session.next].cube_key.as_str()),
                )
            },
            None => {
                session.phase = CleanPhase::AwaitRoot;
                CleanAction::LookupRoot(root_id)
            },
        }
    }
}


} // verus!
