//! Usage tracking: which tracker follows the cuboids that requests touch.
//!
//! Request handlers publish the path of every block they touch; a single
//! consumer hands each path to the configured tracker.
use vstd::prelude::*;
use crate::config::CONSOLE_TRACKER;
use crate::config::DB_TRACKER;
use crate::config::NONE_TRACKER;
use crate::text::join;
use crate::text::same;

verus! {

/// The kinds of usage tracker.
#[derive(Copy, Clone, PartialEq, Eq, Debug, Structural)]
pub enum UsageTrackerType {
    /// Accesses are dropped.
    Off,
    /// Accesses are written to the log.
    Console,
    /// Accesses are recorded in the metadata store, which bounds the cache.
    Sqlite,
}

/// Whether usage tracking is enabled.
pub struct TrackingUsage(pub bool);

/// The lowercase form of a text, as `str::to_lowercase` defines it.
pub uninterp spec fn lowercase_of(s: Seq<char>) -> Seq<char>;

/// `str::to_lowercase`: the lowercase equivalent of the string, by the
/// Unicode rules that the standard library follows. The result depends on
/// the string alone.
#[verifier::external_body]
fn lowercase(s: &str) -> (r: String)
    ensures
        r@ == lowercase_of(s@),
{
    s.to_lowercase()
}

/// The tracker that a name in lowercase selects, if it names one.
pub open spec fn named_tracker(lowered: Seq<char>) -> Option<UsageTrackerType> {
    if lowered == CONSOLE_TRACKER@ {
        Some(UsageTrackerType::Console)
    } else if lowered == NONE_TRACKER@ {
        Some(UsageTrackerType::Off)
    } else if lowered == DB_TRACKER@ {
        Some(UsageTrackerType::Sqlite)
    } else {
        None
    }
}

/// The tracker that `lowered` names: `console`, `none` or `db`.
pub fn tracker_named(lowered: &str) -> (r: Option<UsageTrackerType>)
    ensures
        r == named_tracker(lowered@),
{
    if same(lowered, CONSOLE_TRACKER) {
        Some(UsageTrackerType::Console)
    } else if same(lowered, NONE_TRACKER) {
        Some(UsageTrackerType::Off)
    } else if same(lowered, DB_TRACKER) {
        Some(UsageTrackerType::Sqlite)
    } else {
        None
    }
}

/// Maps the name of a usage tracker to its kind, whatever the case of its
/// letters. A name that is none of `console`, `none` and `db` selects no
/// tracking.
pub fn get_tracker_type(name: &str) -> (r: UsageTrackerType)
    ensures
        r == match named_tracker(lowercase_of(name@)) {
            Some(kind) => kind,
            None => UsageTrackerType::Off,
        },
{
    let lowered = lowercase(name);
    match tracker_named(lowered.as_str()) {
        Some(kind) => kind,
        None => UsageTrackerType::Off,
    }
}

/// Whether a tracker of this kind is to be started: every kind but
/// [`UsageTrackerType::Off`] is.
pub fn tracking(kind: UsageTrackerType) -> (r: TrackingUsage)
    ensures
        r.0 == (kind != UsageTrackerType::Off),
{
    match kind {
        UsageTrackerType::Off => TrackingUsage(false),
        _ => TrackingUsage(true),
    }
}

/// What is to be done when a tracker is asked to run.
#[derive(Copy, Clone, PartialEq, Eq, Debug, Structural)]
pub enum RunAction {
    /// Nothing: no tracking was asked for.
    Nothing,
    /// Open the channel and start the consumer with a tracker of this kind.
    Start(UsageTrackerType),
    /// Give up: the pipeline has been started before, and is started at most
    /// once.
    Refuse,
}

/// Whether the usage pipeline has been started. It is started at most once.
pub struct UsagePipeline {
    started: bool,
}

impl UsagePipeline {
    /// Whether the pipeline has been started, so that keys may be sent.
    pub closed spec fn running(&self) -> bool {
        self.started
    }

    /// A pipeline that has not been started.
    pub fn new() -> (r: UsagePipeline)
        ensures
            !r.running(),
    {
        UsagePipeline { started: false }
    }

    /// Whether keys may be sent.
    pub fn is_running(&self) -> (r: bool)
        ensures
            r == self.running(),
    {
        self.started
    }

    /// Asks for a tracker of `kind` to run. A pipeline that has been started
    /// refuses every further call, whatever the kind. On a pipeline that has
    /// not been started, no tracking leaves it as it is and any other kind
    /// starts it.
    pub fn run(&mut self, kind: UsageTrackerType) -> (action: RunAction)
        ensures
            action == (if old(self).running() {
                RunAction::Refuse
            } else if kind == UsageTrackerType::Off {
                RunAction::Nothing
            } else {
                RunAction::Start(kind)
            }),
            final(self).running() == (old(self).running() || kind != UsageTrackerType::Off),
    {
        if self.started {
            return RunAction::Refuse;
        }
        match kind {
            UsageTrackerType::Off => RunAction::Nothing,
            _ => {
                self.started = true;
                RunAction::Start(kind)
            },
        }
    }
}

/// A usage tracker takes note of the cuboids that are asked for.
pub trait UsageTracker {
    /// Takes note that the block at `key` was touched.
    fn log_request(&mut self, key: String);
}

/// The tracker that notes nothing.
pub struct NoneTracker {}

impl UsageTracker for NoneTracker {
    fn log_request(&mut self, _key: String) {
    }
}

/// The tracker that writes every access to the log.
pub struct ConsoleUsageTracker {}

impl ConsoleUsageTracker {
    /// The line that an access to `key` leaves in the log.
    pub fn message(key: &str) -> (line: String)
        ensures
            line@ == "Request: "@ + key@,
    {
        join("Request: ", key)
    }
}

} // verus!
