//! Configuration: names, defaults, and the order in which sources win.
//!
//! A setting is taken from the environment if it is set there, else from the
//! configuration file, else from a built-in default.
use vstd::prelude::*;
use vstd::string::StringExecFns;

verus! {

/// Cuboid files are stored under this directory.
pub const CUBOID_ROOT_PATH: &'static str = "uploads";

/// The metadata store lies next to the directory of the cuboid files.
pub const DB_URL: &'static str = "./cache-db.sqlite";

/// Names by which a usage tracker is selected.
pub const NONE_TRACKER: &'static str = "none";

pub const CONSOLE_TRACKER: &'static str = "console";

pub const DB_TRACKER: &'static str = "db";

pub const BOSSHOST_ENV_NAME: &'static str = "BOSSHOST";

pub const BOSSHOST_ROCKET_CFG: &'static str = "bosshost";

pub const BOSSHOST_DEFAULT: &'static str = "api.bossdb.io";

pub const BOSSTOKEN_ENV_NAME: &'static str = "BOSSTOKEN";

pub const BOSSTOKEN_ROCKET_CFG: &'static str = "bosstoken";

pub const BOSSTOKEN_DEFAULT: &'static str = "public";

pub const USAGE_TRACKER_ENV_NAME: &'static str = "USAGE_TRACKER";

pub const USAGE_TRACKER_ROCKET_CFG: &'static str = "usage_tracker";

pub const USAGE_TRACKER_DEFAULT: &'static str = "db";

/// The Boss host to talk to.
pub struct BossHost(pub String);

/// The Boss token used for authorization.
pub struct BossToken(pub String);

/// The name of the usage tracker to run.
pub struct UsageTracker(pub String);

/// The value of a setting: what the environment holds, else what the
/// configuration file holds, else the default.
pub open spec fn chosen(
    from_env: Option<Seq<char>>,
    from_file: Option<Seq<char>>,
    default: Seq<char>,
) -> Seq<char> {
    match from_env {
        Some(value) => value,
        None => match from_file {
            Some(value) => value,
            None => default,
        },
    }
}

/// The characters of a text that may be missing.
pub open spec fn text_of(value: Option<String>) -> Option<Seq<char>> {
    match value {
        Some(s) => Some(s@),
        None => None,
    }
}

/// The value of a setting, given what the environment and the configuration
/// file hold for it.
pub fn choose_setting(from_env: Option<String>, from_file: Option<String>, default: &str) -> (r:
    String)
    ensures
        r@ == chosen(text_of(from_env), text_of(from_file), default@),
{
    match from_env {
        Some(value) => value,
        None => match from_file {
            Some(value) => value,
            None => String::from_str(default),
        },
    }
}

/// The Boss host, `api.bossdb.io` unless configured.
pub fn boss_host(from_env: Option<String>, from_file: Option<String>) -> (r: BossHost)
    ensures
        r.0@ == chosen(text_of(from_env), text_of(from_file), BOSSHOST_DEFAULT@),
{
    BossHost(choose_setting(from_env, from_file, BOSSHOST_DEFAULT))
}

/// The Boss token, `public` unless configured.
pub fn boss_token(from_env: Option<String>, from_file: Option<String>) -> (r: BossToken)
    ensures
        r.0@ == chosen(text_of(from_env), text_of(from_file), BOSSTOKEN_DEFAULT@),
{
    BossToken(choose_setting(from_env, from_file, BOSSTOKEN_DEFAULT))
}

/// The name of the usage tracker, `db` unless configured.
pub fn usage_tracker(from_env: Option<String>, from_file: Option<String>) -> (r: UsageTracker)
    ensures
        r.0@ == chosen(text_of(from_env), text_of(from_file), USAGE_TRACKER_DEFAULT@),
{
    UsageTracker(choose_setting(from_env, from_file, USAGE_TRACKER_DEFAULT))
}

} // verus!
