//! The stored settings of the helper: one configuration for each favorites
//! folder, and the defaults that new configurations start from. The caller
//! reads and writes the files that hold them.

use vstd::prelude::*;
use crate::text::{contains_char, strip_trailing, trim_end_of};

verus! {

/// The address of the download server where none is set.
pub open spec fn default_bbdown_url_text() -> Seq<char> {
    "http://localhost:23333"@
}

/// The address of the download server where none is set.
pub const DEFAULT_BBDOWN_URL: &'static str = "http://localhost:23333";

/// The pause between two looks at the download server where none is set,
/// in milliseconds.
pub const DEFAULT_POLL_INTERVAL_MS: u64 = 500;

/// The address of the download server where none is set.
pub fn default_bbdown_url() -> (url: String)
    ensures
        url@ == default_bbdown_url_text(),
{
    "http://localhost:23333".to_owned()
}

/// Whether the download server is started by the helper where that is not
/// set: it is.
pub fn default_true() -> (b: bool)
    ensures
        b,
{
    true
}

/// The pause between two looks at the download server where none is set.
pub fn default_poll_interval() -> (ms: u64)
    ensures
        ms == DEFAULT_POLL_INTERVAL_MS,
{
    DEFAULT_POLL_INTERVAL_MS
}

/// Whether `path` is one name: not empty, and without a slash, a backslash
/// or a colon, which part a path on one platform or another.
pub open spec fn is_single_component(path: Seq<char>) -> bool {
    path.len() > 0 && !path.contains('/') && !path.contains('\\') && !path.contains(':')
}

/// `Path::parent` of std, on the path that `path` writes: the path without
/// its last component, as this platform splits paths. On every platform
/// the empty path has no parent, and the parent of a relative path of one
/// component is the empty path.
#[verifier::external_body]
fn path_parent(path: &str) -> (r: Option<String>)
    ensures
        match r {
            Some(dir) => path@.len() > 0 && (is_single_component(path@) ==> dir@.len() == 0),
            None => !is_single_component(path@),
        },
{
    std::path::Path::new(path).parent().map(|p| p.to_string_lossy().to_string())
}

/// `Path::join` of std: `base` with `more` put after it, as this platform
/// joins paths.
#[verifier::external_body]
pub(crate) fn path_join(base: &str, more: &str) -> String {
    std::path::Path::new(base).join(more).to_string_lossy().to_string()
}

/// `base` and `pattern` joined for a Windows host: `base` without the
/// slashes and backslashes at its end, a backslash, and `pattern`; only
/// `pattern` where nothing is left of `base`.
pub open spec fn windows_join(base: Seq<char>, pattern: Seq<char>) -> Seq<char> {
    let kept = strip_trailing(base, '\\', '/');
    if kept.len() == 0 {
        pattern
    } else {
        kept + seq!['\\'] + pattern
    }
}

/// The place of a file `pattern` inside the download directory `base`. A
/// `base` with a colon in it is the path of a Windows host and is joined
/// as such; any other is joined as this platform joins paths.
pub fn join_download_path(base: &str, pattern: &str) -> (r: String)
    ensures
        base@.contains(':') ==> r@ == windows_join(base@, pattern@),
{
    if contains_char(base, ':') {
        let mut sanitized = trim_end_of(base, '\\', '/');
        if sanitized.as_str().unicode_len() == 0 {
            pattern.to_owned()
        } else {
            sanitized.append("\\");
            sanitized.append(pattern);
            proof {
                reveal_strlit("\\");
                assert("\\"@ =~= seq!['\\']);
            }
            sanitized
        }
    } else {
        path_join(base, pattern)
    }
}

/// The settings for one favorites folder.
#[derive(Debug, Clone)]
pub struct FavConfig {
    pub fav_url: String,
    /// The download directory as the download server sees it.
    pub api_download_dir: String,
    /// The download directory as this program sees it.
    pub scan_download_dir: Option<String>,
    pub csv_path: String,
    pub encoding: String,
    pub page_size: u32,
    pub cookie: Option<String>,
    pub timeout_secs: u64,
    pub last_synced_at: Option<String>,
    pub name: Option<String>,
    pub bbdown_serve_url: String,
    pub bbdown_auto_launch: bool,
    pub bbdown_launch_args: Vec<String>,
    pub bbdown_poll_interval_ms: u64,
    pub file_pattern: Option<String>,
    pub multi_file_pattern: Option<String>,
}

impl FavConfig {
    /// The directory that is scanned for downloads: the one set for it,
    /// else the download directory.
    pub open spec fn scan_dir(self) -> Seq<char> {
        match self.scan_download_dir {
            Some(dir) => dir@,
            None => self.api_download_dir@,
        }
    }

    /// The directory that is scanned for downloads, as a path.
    pub fn scan_download_dir_path(&self) -> (path: String)
        ensures
            path@ == self.scan_dir(),
    {
        self.scan_download_dir().to_owned()
    }

    /// The path of the ledger.
    pub fn csv_path(&self) -> (path: String)
        ensures
            path@ == self.csv_path@,
    {
        self.csv_path.clone()
    }

    /// Whether no directory is set for the scan.
    pub open spec fn lacks_scan_dir(self) -> bool {
        match self.scan_download_dir {
            Some(dir) => dir@.len() == 0,
            None => true,
        }
    }

    /// Whether this configuration is `before` with what `before` does not
    /// set filled in: the server's address where it is empty, the pause
    /// where it is zero, and the directory of the scan where there is
    /// none, with a directory that is not empty or with the download
    /// directory.
    pub open spec fn filled_from(self, before: FavConfig) -> bool {
        &&& self.bbdown_serve_url@ == if before.bbdown_serve_url@.len() == 0 {
            default_bbdown_url_text()
        } else {
            before.bbdown_serve_url@
        }
        &&& self.bbdown_poll_interval_ms == if before.bbdown_poll_interval_ms == 0 {
            DEFAULT_POLL_INTERVAL_MS
        } else {
            before.bbdown_poll_interval_ms
        }
        &&& !before.lacks_scan_dir() ==> self.scan_download_dir == before.scan_download_dir
        &&& before.lacks_scan_dir() ==> (self.scan_download_dir matches Some(dir) && (dir@.len()
            > 0 || dir@ == before.api_download_dir@))
        &&& self.fav_url == before.fav_url
        &&& self.api_download_dir == before.api_download_dir
        &&& self.csv_path == before.csv_path
        &&& self.encoding == before.encoding
        &&& self.page_size == before.page_size
        &&& self.cookie == before.cookie
        &&& self.timeout_secs == before.timeout_secs
        &&& self.last_synced_at == before.last_synced_at
        &&& self.name == before.name
        &&& self.bbdown_auto_launch == before.bbdown_auto_launch
        &&& self.bbdown_launch_args == before.bbdown_launch_args
        &&& self.file_pattern == before.file_pattern
        &&& self.multi_file_pattern == before.multi_file_pattern
    }

    /// Fills in what is not set: the server's address where it is empty,
    /// the pause where it is zero, and the directory of the scan where
    /// there is none, with `csv_parent`, the directory of the ledger, where
    /// that is known and not empty, else with the download directory.
    pub fn apply_defaults_with(&mut self, csv_parent: Option<String>)
        ensures
            final(self).filled_from(*old(self)),
            old(self).lacks_scan_dir() ==> (final(self).scan_download_dir matches Some(dir) && dir@
                == match csv_parent {
                Some(parent) if parent@.len() > 0 => parent@,
                _ => old(self).api_download_dir@,
            }),
    {
        if self.bbdown_serve_url.as_str().unicode_len() == 0 {
            self.bbdown_serve_url = default_bbdown_url();
        }
        if self.bbdown_poll_interval_ms == 0 {
            self.bbdown_poll_interval_ms = DEFAULT_POLL_INTERVAL_MS;
        }
        let lacking = match &self.scan_download_dir {
            Some(dir) => dir.as_str().unicode_len() == 0,
            None => true,
        };
        if lacking {
            let fallback = match csv_parent {
                Some(parent) => {
                    if parent.as_str().unicode_len() > 0 {
                        parent
                    } else {
                        self.api_download_dir.clone()
                    }
                },
                None => self.api_download_dir.clone(),
            };
            self.scan_download_dir = Some(fallback);
        }
    }

    /// Fills in what is not set: the server's address where it is empty,
    /// the pause where it is zero, and the directory of the scan where
    /// there is none, with the directory of the ledger where the ledger's
    /// path has one, else with the download directory. A ledger path that
    /// is empty or one name has no directory.
    pub fn apply_defaults(&mut self)
        ensures
            final(self).filled_from(*old(self)),
            old(self).lacks_scan_dir() && (old(self).csv_path@.len() == 0 || is_single_component(
                old(self).csv_path@,
            )) ==> (final(self).scan_download_dir matches Some(dir) && dir@ == old(self).api_download_dir@),
    {
        let csv_parent = path_parent(self.csv_path.as_str());
        self.apply_defaults_with(csv_parent);
    }

    /// The address of the download server.
    pub fn effective_serve_url(&self) -> (url: &str)
        ensures
            url@ == self.bbdown_serve_url@,
    {
        self.bbdown_serve_url.as_str()
    }

    /// The pattern for the names of downloaded files, inside the download
    /// directory, where one is set.
    pub fn resolve_file_pattern(&self) -> (r: Option<String>)
        ensures
            r is Some == self.file_pattern is Some,
            self.file_pattern matches Some(pattern) ==> (self.api_download_dir@.contains(':')
                ==> r->0@ == windows_join(self.api_download_dir@, pattern@)),
    {
        match &self.file_pattern {
            Some(pattern) => Some(
                join_download_path(self.api_download_dir.as_str(), pattern.as_str()),
            ),
            None => None,
        }
    }

    /// The pattern for the names of the files of a video in several parts,
    /// inside the download directory, where one is set.
    pub fn resolve_multi_file_pattern(&self) -> (r: Option<String>)
        ensures
            r is Some == self.multi_file_pattern is Some,
            self.multi_file_pattern matches Some(pattern) ==> (self.api_download_dir@.contains(':')
                ==> r->0@ == windows_join(self.api_download_dir@, pattern@)),
    {
        match &self.multi_file_pattern {
            Some(pattern) => Some(
                join_download_path(self.api_download_dir.as_str(), pattern.as_str()),
            ),
            None => None,
        }
    }

    /// The pause between two looks at the download server, in
    /// milliseconds: what is set, and at least 50.
    pub fn poll_interval(&self) -> (ms: u64)
        ensures
            ms == if self.bbdown_poll_interval_ms >= 50 {
                self.bbdown_poll_interval_ms
            } else {
                50
            },
    {
        if self.bbdown_poll_interval_ms >= 50 {
            self.bbdown_poll_interval_ms
        } else {
            50
        }
    }

    /// The directory that is scanned for downloads.
    pub fn scan_download_dir(&self) -> (dir: &str)
        ensures
            dir@ == self.scan_dir(),
    {
        match &self.scan_download_dir {
            Some(dir) => dir.as_str(),
            None => self.api_download_dir.as_str(),
        }
    }
}

/// A failure in the handling of the stored settings.
#[derive(Debug)]
pub enum ConfigError {
    /// There is no configuration at this place.
    IndexOutOfRange,
}

impl ConfigError {
    /// The line that the failure shows to a reader.
    pub fn to_string(&self) -> (r: String)
        ensures
            r@ == "配置索引超出范围"@,
    {
        "配置索引超出范围".to_owned()
    }
}

/// The stored configurations, and the path of the file that holds them.
#[derive(Debug)]
pub struct ConfigStore {
    path: String,
    configs: Vec<FavConfig>,
}

impl ConfigStore {
    /// The path of the file that holds the configurations.
    pub closed spec fn spec_path(&self) -> Seq<char> {
        self.path@
    }

    /// The configurations, in their order.
    pub closed spec fn spec_configs(&self) -> Seq<FavConfig> {
        self.configs@
    }

    /// The store of the file at `path` that holds `stored`, or nothing
    /// where there is no such file: each configuration with what it does
    /// not set filled in.
    pub fn load(path: String, stored: Option<Vec<FavConfig>>) -> (store: ConfigStore)
        ensures
            store.spec_path() == path@,
            match stored {
                Some(configs) => store.spec_configs().len() == configs@.len() && forall|k: int|
                    0 <= k < configs@.len() ==> (#[trigger] store.spec_configs()[k]).filled_from(
                        configs@[k],
                    ),
                None => store.spec_configs().len() == 0,
            },
    {
        let mut configs = match stored {
            Some(configs) => configs,
            None => Vec::new(),
        };
        let mut filled: Vec<FavConfig> = Vec::new();
        let ghost all = configs@;
        while configs.len() > 0
            invariant
                configs@.len() + filled@.len() == all.len(),
                forall|k: int|
                    0 <= k < configs@.len() ==> #[trigger] configs@[k] == all[filled@.len() + k],
                forall|k: int| 0 <= k < filled@.len() ==> (#[trigger] filled@[k]).filled_from(all[k]),
            decreases configs@.len(),
        {
            let mut config = configs.remove(0);
            config.apply_defaults();
            filled.push(config);
        }
        ConfigStore { path, configs: filled }
    }

    /// The path of the file that holds the configurations.
    pub fn path(&self) -> (path: &str)
        ensures
            path@ == self.spec_path(),
    {
        self.path.as_str()
    }

    /// The configurations, in their order.
    pub fn configs(&self) -> (configs: &Vec<FavConfig>)
        ensures
            configs@ == self.spec_configs(),
    {
        &self.configs
    }

    /// Puts `config` after the configurations, with what it does not set
    /// filled in. The caller then writes the file.
    pub fn add(&mut self, config: FavConfig)
        ensures
            final(self).spec_path() == old(self).spec_path(),
            final(self).spec_configs().len() == old(self).spec_configs().len() + 1,
            final(self).spec_configs().drop_last() == old(self).spec_configs(),
            final(self).spec_configs().last().filled_from(config),
    {
        let mut config = config;
        config.apply_defaults();
        self.configs.push(config);
        proof {
            assert(self.configs@.drop_last() =~= old(self).configs@);
        }
    }

    /// Puts `config` in the place `index`, with what it does not set
    /// filled in. The caller then writes the file.
    pub fn update(&mut self, index: usize, config: FavConfig) -> (r: Result<(), ConfigError>)
        ensures
            final(self).spec_path() == old(self).spec_path(),
            index >= old(self).spec_configs().len() ==> r is Err && final(self).spec_configs()
                == old(self).spec_configs(),
            index < old(self).spec_configs().len() ==> {
                &&& r is Ok
                &&& final(self).spec_configs().len() == old(self).spec_configs().len()
                &&& forall|k: int|
                    0 <= k < old(self).spec_configs().len() && k != index ==> final(self).spec_configs()[k] == old(self).spec_configs()[k]
                &&& final(self).spec_configs()[index as int].filled_from(config)
            },
    {
        if index >= self.configs.len() {
            return Err(ConfigError::IndexOutOfRange);
        }
        let mut config = config;
        config.apply_defaults();
        self.configs.set(index, config);
        Ok(())
    }

    /// The directory of the file that holds the configurations, as this
    /// platform splits paths; `.` where the path has none. A path that is
    /// one name has the empty directory, the empty path has none.
    pub fn config_dir(&self) -> (dir: String)
        ensures
            self.spec_path().len() == 0 ==> dir@ == "."@,
            is_single_component(self.spec_path()) ==> dir@.len() == 0,
    {
        config_dir_from(path_parent(self.path.as_str()))
    }
}

/// The directory of a file whose path has the parent `parent`: the parent,
/// and `.` where the path has none.
pub fn config_dir_from(parent: Option<String>) -> (dir: String)
    ensures
        dir@ == match parent {
            Some(p) => p@,
            None => "."@,
        },
{
    match parent {
        Some(dir) => dir,
        None => ".".to_owned(),
    }
}

/// What the path of the file that holds the configurations is joined of
/// where none is given: the user's configuration directory, or `.` where
/// that is unknown; the helper's directory; and the file's name.
pub fn default_config_components(user_config_dir: Option<String>) -> (parts: (
    String,
    String,
    String,
))
    ensures
        parts.0@ == match user_config_dir {
            Some(dir) => dir@,
            None => "."@,
        },
        parts.1@ == "bilibili_favlist_helper"@,
        parts.2@ == "config.json"@,
{
    let base = match user_config_dir {
        Some(dir) => dir,
        None => ".".to_owned(),
    };
    (base, "bilibili_favlist_helper".to_owned(), "config.json".to_owned())
}

/// The path of the file that holds the configurations where none is given:
/// `config.json` in the helper's directory inside `user_config_dir`, the
/// user's configuration directory, or inside `.` where that is unknown;
/// the three of `default_config_components`, joined as this platform joins
/// paths.
pub fn default_config_path(user_config_dir: Option<String>) -> String {
    let (base, dir, file) = default_config_components(user_config_dir);
    let inside = path_join(base.as_str(), dir.as_str());
    path_join(inside.as_str(), file.as_str())
}

/// What a new configuration starts from, where the user has set it.
#[derive(Debug, Clone)]
pub struct GlobalDefaults {
    pub api_download_dir: Option<String>,
    pub scan_download_dir: Option<String>,
    pub bbdown_serve_url: Option<String>,
    pub file_pattern: Option<String>,
    pub multi_file_pattern: Option<String>,
}

impl Default for GlobalDefaults {
    fn default() -> (defaults: GlobalDefaults)
        ensures
            defaults.api_download_dir is None,
            defaults.scan_download_dir is None,
            defaults.bbdown_serve_url is None,
            defaults.file_pattern is None,
            defaults.multi_file_pattern is None,
    {
        GlobalDefaults {
            api_download_dir: None,
            scan_download_dir: None,
            bbdown_serve_url: None,
            file_pattern: None,
            multi_file_pattern: None,
        }
    }
}

/// The stored defaults, and the path of the file that holds them.
#[derive(Debug)]
pub struct GlobalDefaultsStore {
    path: String,
    data: GlobalDefaults,
}

impl GlobalDefaultsStore {
    /// The path of the file that holds the defaults.
    pub closed spec fn spec_path(&self) -> Seq<char> {
        self.path@
    }

    /// The defaults.
    pub closed spec fn spec_data(&self) -> GlobalDefaults {
        self.data
    }

    /// The store of the file `defaults.json` in `config_dir` that holds
    /// `stored`, or nothing set where there is no such file.
    pub fn load(config_dir: &str, stored: Option<GlobalDefaults>) -> (store: GlobalDefaultsStore)
        ensures
            match stored {
                Some(data) => store.spec_data() == data,
                None => {
                    &&& store.spec_data().api_download_dir is None
                    &&& store.spec_data().scan_download_dir is None
                    &&& store.spec_data().bbdown_serve_url is None
                    &&& store.spec_data().file_pattern is None
                    &&& store.spec_data().multi_file_pattern is None
                },
            },
    {
        let path = path_join(config_dir, "defaults.json");
        let data = match stored {
            Some(data) => data,
            None => GlobalDefaults::default(),
        };
        GlobalDefaultsStore { path, data }
    }

    /// The path of the file that holds the defaults.
    pub fn path(&self) -> (path: &str)
        ensures
            path@ == self.spec_path(),
    {
        self.path.as_str()
    }

    /// The defaults.
    pub fn data(&self) -> (data: &GlobalDefaults)
        ensures
            *data == self.spec_data(),
    {
        &self.data
    }

    /// The defaults, to be changed.
    pub fn data_mut(&mut self) -> (data: &mut GlobalDefaults)
        ensures
            *data == old(self).spec_data(),
            final(self).spec_data() == *final(data),
            final(self).spec_path() == old(self).spec_path(),
    {
        &mut self.data
    }
}

} // verus!
