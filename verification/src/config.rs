//! The configuration record: the wallpaper root and the cycle interval, how
//! a stored record is read back, and where the record and the wallpapers live
//! by default.

use vstd::prelude::*;
use crate::paths::{join, join_path};

verus! {

/// The repository that the wallpapers are fetched from.
pub const WALLPAPER_REPO: &'static str = "https://github.com/Incalculas/wallpapers";

/// Seconds between two wallpapers where nothing else is configured.
pub const DEFAULT_CYCLE_INTERVAL: u64 = 300;

/// The persisted settings.
#[derive(Debug, Clone, PartialEq, Eq)]
pub struct Config {
    pub wallpaper_dir: String,
    pub cycle_interval: u64,
}

/// The mathematical content of a [`Config`].
pub struct ConfigView {
    pub wallpaper_dir: Seq<char>,
    pub cycle_interval: u64,
}

impl View for Config {
    type V = ConfigView;

    open spec fn view(&self) -> ConfigView {
        ConfigView { wallpaper_dir: self.wallpaper_dir@, cycle_interval: self.cycle_interval }
    }
}

/// What can go wrong with the stored record.
#[derive(Debug, Clone, Copy, PartialEq, Eq, Structural)]
pub enum ConfigError {
    /// The record is there but could not be read.
    ReadFailed,
    /// The record could not be written.
    WriteFailed,
    /// The record was read but is not a configuration.
    ParseFailed,
}

/// What stands where the configuration is kept.
#[derive(Debug, Clone, PartialEq, Eq)]
pub enum StoredConfig {
    /// Nothing: no configuration was written yet.
    Missing,
    /// Something that could not be read.
    Unreadable,
    /// Text that is not a record with a wallpaper directory.
    Malformed,
    /// A record; the interval may be absent from it.
    Record { wallpaper_dir: String, cycle_interval: Option<u64> },
}

/// The mathematical content of a [`StoredConfig`].
pub enum StoredView {
    Missing,
    Unreadable,
    Malformed,
    Record { wallpaper_dir: Seq<char>, cycle_interval: Option<u64> },
}

impl View for StoredConfig {
    type V = StoredView;

    open spec fn view(&self) -> StoredView {
        match self {
            StoredConfig::Missing => StoredView::Missing,
            StoredConfig::Unreadable => StoredView::Unreadable,
            StoredConfig::Malformed => StoredView::Malformed,
            StoredConfig::Record { wallpaper_dir, cycle_interval } => StoredView::Record {
                wallpaper_dir: wallpaper_dir@,
                cycle_interval: *cycle_interval,
            },
        }
    }
}

/// What reading a stored record yields: no configuration where nothing is
/// stored, an error where the record cannot be read or understood, and
/// otherwise the record with the default interval in place of an absent one.
pub open spec fn loaded(stored: StoredView) -> Result<Option<ConfigView>, ConfigError> {
    match stored {
        StoredView::Missing => Ok(None),
        StoredView::Unreadable => Err(ConfigError::ReadFailed),
        StoredView::Malformed => Err(ConfigError::ParseFailed),
        StoredView::Record { wallpaper_dir, cycle_interval } => Ok(
            Some(
                ConfigView {
                    wallpaper_dir,
                    cycle_interval: match cycle_interval {
                        Some(seconds) => seconds,
                        None => DEFAULT_CYCLE_INTERVAL,
                    },
                },
            ),
        ),
    }
}

/// The record that stands for a configuration: both fields, as they are.
pub open spec fn stored_form(config: ConfigView) -> StoredView {
    StoredView::Record {
        wallpaper_dir: config.wallpaper_dir,
        cycle_interval: Some(config.cycle_interval),
    }
}

/// The interval of a configuration that names none.
pub fn default_cycle_interval() -> (seconds: u64)
    ensures
        seconds == 300,
{
    DEFAULT_CYCLE_INTERVAL
}

/// The configuration that a stored record stands for.
pub fn load_config(stored: StoredConfig) -> (result: Result<Option<Config>, ConfigError>)
    ensures
        match result {
            Ok(Some(config)) => loaded(stored@) == Ok::<Option<ConfigView>, ConfigError>(
                Some(config@),
            ),
            Ok(None) => loaded(stored@) == Ok::<Option<ConfigView>, ConfigError>(None),
            Err(error) => loaded(stored@) == Err::<Option<ConfigView>, ConfigError>(error),
        },
{
    match stored {
        StoredConfig::Missing => Ok(None),
        StoredConfig::Unreadable => Err(ConfigError::ReadFailed),
        StoredConfig::Malformed => Err(ConfigError::ParseFailed),
        StoredConfig::Record { wallpaper_dir, cycle_interval } => {
            let seconds: u64 = match cycle_interval {
                Some(seconds) => seconds,
                None => default_cycle_interval(),
            };
            Ok(Some(Config { wallpaper_dir, cycle_interval: seconds }))
        },
    }
}

/// The record to write for a configuration. It replaces what was stored.
pub fn save_config(config: &Config) -> (stored: StoredConfig)
    ensures
        stored@ == stored_form(config@),
{
    StoredConfig::Record {
        wallpaper_dir: config.wallpaper_dir.clone(),
        cycle_interval: Some(config.cycle_interval),
    }
}

/// A configuration that is written and read back is the same configuration.
pub proof fn lemma_config_round_trip(config: ConfigView)
    ensures
        loaded(stored_form(config)) == Ok::<Option<ConfigView>, ConfigError>(Some(config)),
{
}

/// A record without an interval reads as one with the default interval.
pub proof fn lemma_absent_interval_is_default(wallpaper_dir: Seq<char>)
    ensures
        loaded(StoredView::Record { wallpaper_dir, cycle_interval: None }) == Ok::<
            Option<ConfigView>,
            ConfigError,
        >(Some(ConfigView { wallpaper_dir, cycle_interval: 300 })),
{
}

/// Where the record is kept, given the user's configuration directory.
pub open spec fn config_path_in(config_dir: Seq<char>) -> Seq<char> {
    join(join(config_dir, "wcapp"@), "config.toml"@)
}

/// Where the wallpapers are kept by default, given the user's picture
/// directory.
pub open spec fn default_wallpaper_dir(pictures: Seq<char>) -> Seq<char> {
    join(pictures, "wcapp"@)
}

/// The wallpaper root: the configured one, else the default below the
/// picture directory, else none.
pub open spec fn wallpaper_dir_of(config: Option<ConfigView>, pictures: Option<Seq<char>>) -> Option<
    Seq<char>,
> {
    match config {
        Some(config) => Some(config.wallpaper_dir),
        None => match pictures {
            Some(pictures) => Some(default_wallpaper_dir(pictures)),
            None => None,
        },
    }
}

/// `dirs::config_dir`: the user's configuration directory, where the platform
/// and the environment name one. Nothing is stated of it: it is read from the
/// environment.
#[verifier::external_body]
fn platform_config_dir() -> (dir: Option<String>) {
    match dirs::config_dir() {
        Some(path) => Some(path.to_string_lossy().into_owned()),
        None => None,
    }
}

/// The path of the record below the configuration directory `config_dir`.
pub fn config_path_below(config_dir: &str) -> (path: String)
    ensures
        path@ == config_path_in(config_dir@),
{
    let app_dir = join_path(config_dir, "wcapp");
    join_path(app_dir.as_str(), "config.toml")
}

/// The path of the record on this machine: below the user's configuration
/// directory, or none where the platform names no such directory.
pub fn get_config_path() -> (path: Option<String>)
    ensures
        path matches Some(p) ==> exists|config_dir: Seq<char>| p@ == config_path_in(config_dir),
{
    let found = platform_config_dir();
    let path = config_path_from(found);
    proof {
        if path is Some {
            assert(path->0@ == config_path_in(found->0@));
        }
    }
    path
}

/// Where the record is kept, given the user's configuration directory where
/// the platform names one: below it, and nowhere where it names none.
pub open spec fn config_path_of(config_dir: Option<Seq<char>>) -> Option<Seq<char>> {
    match config_dir {
        Some(dir) => Some(config_path_in(dir)),
        None => None,
    }
}

/// The path of the record for what the platform names as the user's
/// configuration directory, as [`config_path_of`] defines it.
pub fn config_path_from(config_dir: Option<String>) -> (path: Option<String>)
    ensures
        text_view(path) == config_path_of(text_view(config_dir)),
{
    match config_dir {
        Some(dir) => Some(config_path_below(dir.as_str())),
        None => None,
    }
}

/// The content of a configuration that may be absent.
pub open spec fn config_view(config: Option<&Config>) -> Option<ConfigView> {
    match config {
        Some(config) => Some(config@),
        None => None,
    }
}

/// The content of a string that may be absent.
pub open spec fn text_view(text: Option<String>) -> Option<Seq<char>> {
    match text {
        Some(text) => Some(text@),
        None => None,
    }
}

/// The wallpaper root: the configured one where there is a configuration,
/// else `wcapp` below the user's picture directory `pictures`, else none.
pub fn get_wallpaper_dir(config: Option<&Config>, pictures: Option<String>) -> (dir: Option<String>)
    ensures
        text_view(dir) == wallpaper_dir_of(config_view(config), text_view(pictures)),
{
    match config {
        Some(config) => Some(config.wallpaper_dir.clone()),
        None => match pictures {
            Some(pictures) => Some(join_path(pictures.as_str(), "wcapp")),
            None => None,
        },
    }
}

} // verus!
