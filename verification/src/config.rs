//! The application settings and the HTTP client settings derived from them.

use vstd::prelude::*;

verus! {

/// Where the fund data is cached.
#[derive(Debug, Clone, Default)]
pub struct CacheConfig {
    /// The cache root; the platform cache directory when absent.
    pub root: Option<String>,
}

/// How the data service is reached.
#[derive(Debug, Clone)]
pub struct ApiConfig {
    pub base_url: String,
    pub timeout_secs: u64,
    /// Replaces the default user agent.
    pub user_agent: Option<String>,
    /// An HTTP or HTTPS proxy, such as `http://127.0.0.1:7890`.
    pub proxy: Option<String>,
}

/// Logging.
#[derive(Debug, Clone)]
pub struct LogConfig {
    pub level: String,
}

/// The settings file.
#[derive(Debug, Clone)]
pub struct AppConfig {
    pub api: ApiConfig,
    pub log: LogConfig,
    pub cache: CacheConfig,
}

/// The timeout taken when the settings name none.
pub fn default_timeout_secs() -> (r: u64)
    ensures
        r == 30,
{
    30
}

/// The log level taken when the settings name none.
pub fn default_log_level() -> (r: String)
    ensures
        r@ == "info"@,
{
    String::from_str("info")
}

/// The settings used when no settings file is read.
pub open spec fn is_default_config(c: AppConfig) -> bool {
    &&& c.api.base_url@ == "https://api.example.com"@
    &&& c.api.timeout_secs == 30
    &&& c.api.user_agent is None
    &&& c.api.proxy is None
    &&& c.log.level@ == "info"@
    &&& c.cache.root is None
}

impl Default for AppConfig {
    fn default() -> (c: AppConfig)
        ensures
            is_default_config(c),
    {
        AppConfig {
            api: ApiConfig {
                base_url: String::from_str("https://api.example.com"),
                timeout_secs: default_timeout_secs(),
                user_agent: None,
                proxy: None,
            },
            log: LogConfig { level: default_log_level() },
            cache: CacheConfig { root: None },
        }
    }
}

impl AppConfig {
    /// The settings in effect: those of the settings file when one was
    /// found and read (`loaded` is `Some(Ok(..))`), else the defaults (a file
    /// that could not be read or parsed falls back to them too).
    pub fn load(loaded: Option<Result<AppConfig, String>>) -> (c: AppConfig)
        ensures
            match loaded {
                Some(Ok(f)) => c == f,
                _ => is_default_config(c),
            },
    {
        match loaded {
            Some(Ok(f)) => f,
            _ => AppConfig::default(),
        }
    }
}

/// Options of the fund data client.
#[derive(Debug, Clone)]
pub struct EastMoneyClientOptions {
    pub timeout_secs: u64,
    pub user_agent: Option<String>,
    pub proxy: Option<String>,
}

impl Default for EastMoneyClientOptions {
    fn default() -> (o: EastMoneyClientOptions)
        ensures
            o.timeout_secs == 30,
            o.user_agent is None,
            o.proxy is None,
    {
        EastMoneyClientOptions { timeout_secs: 30, user_agent: None, proxy: None }
    }
}

/// What the HTTP client is built with.
#[derive(Debug, Clone)]
pub struct ClientSettings {
    pub timeout_secs: u64,
    pub user_agent: String,
    pub proxy: Option<String>,
}

/// The user agent sent when none is configured.
pub open spec fn default_user_agent() -> Seq<char> {
    "Mozilla/5.0 (X11; Linux x86_64; rv:109.0) Gecko/20100101 Firefox/115.0"@
}

fn nonempty(o: &Option<String>) -> (r: Option<String>)
    ensures
        match *o {
            Some(s) => if s@.len() > 0 {
                r == Some(s)
            } else {
                r is None
            },
            None => r is None,
        },
{
    match o {
        Some(s) => {
            if s.as_str().unicode_len() > 0 {
                Some(s.clone())
            } else {
                None
            }
        },
        None => None,
    }
}

impl EastMoneyClientOptions {
    /// The client settings: a timeout of at least one second, the configured
    /// user agent unless it is empty, and the proxy unless it is empty.
    pub fn settings(&self) -> (s: ClientSettings)
        ensures
            s.timeout_secs == if self.timeout_secs >= 1 {
                self.timeout_secs
            } else {
                1
            },
            s.user_agent@ == match self.user_agent {
                Some(u) => if u@.len() > 0 {
                    u@
                } else {
                    default_user_agent()
                },
                None => default_user_agent(),
            },
            s.proxy == match self.proxy {
                Some(p) => if p@.len() > 0 {
                    Some(p)
                } else {
                    None
                },
                None => None,
            },
    {
        let ua = match nonempty(&self.user_agent) {
            Some(u) => u,
            None => String::from_str(
                "Mozilla/5.0 (X11; Linux x86_64; rv:109.0) Gecko/20100101 Firefox/115.0",
            ),
        };
        ClientSettings {
            timeout_secs: if self.timeout_secs >= 1 {
                self.timeout_secs
            } else {
                1
            },
            user_agent: ua,
            proxy: nonempty(&self.proxy),
        }
    }

    /// The client options that the settings file asks for.
    pub fn from_config(config: &AppConfig) -> (o: EastMoneyClientOptions)
        ensures
            o.timeout_secs == if config.api.timeout_secs >= 1 {
                config.api.timeout_secs
            } else {
                1
            },
            o.user_agent == config.api.user_agent,
            o.proxy == config.api.proxy,
    {
        EastMoneyClientOptions {
            timeout_secs: if config.api.timeout_secs >= 1 {
                config.api.timeout_secs
            } else {
                1
            },
            user_agent: config.api.user_agent.clone(),
            proxy: config.api.proxy.clone(),
        }
    }
}

/// Which settings file is read.
#[derive(Debug, Clone, Copy, PartialEq, Eq)]
pub enum ConfigSource {
    /// The file given with `--config`.
    Explicit,
    /// `config/default.toml` in the working directory.
    WorkingDir,
    /// The candidate beside the executable at this index.
    NearExe(usize),
    /// No file: the defaults.
    Defaults,
}

/// The settings file to read, from which files exist: the one given with
/// `--config` where it exists (`explicit_exists` is `None` when none was
/// given), else `config/default.toml` in the working directory, else the
/// first existing candidate beside the executable, else none.
pub fn config_source(explicit_exists: Option<bool>, cwd_exists: bool, near_exe_exists: &[bool]) -> (r: ConfigSource)
    ensures
        explicit_exists == Some(true) ==> r == ConfigSource::Explicit,
        explicit_exists != Some(true) && cwd_exists ==> r == ConfigSource::WorkingDir,
        explicit_exists != Some(true) && !cwd_exists ==> match r {
            ConfigSource::NearExe(i) => i < near_exe_exists@.len() && near_exe_exists@[i as int]
                && forall|j: int| 0 <= j < i ==> !near_exe_exists@[j],
            ConfigSource::Defaults => forall|j: int| 0 <= j < near_exe_exists@.len() ==> !near_exe_exists@[j],
            _ => false,
        },
{
    if explicit_exists == Some(true) {
        return ConfigSource::Explicit;
    }
    if cwd_exists {
        return ConfigSource::WorkingDir;
    }
    let mut i: usize = 0;
    while i < near_exe_exists.len()
        invariant
            i <= near_exe_exists@.len(),
            explicit_exists != Some(true),
            !cwd_exists,
            forall|j: int| 0 <= j < i ==> !near_exe_exists@[j],
        decreases near_exe_exists@.len() - i,
    {
        if near_exe_exists[i] {
            return ConfigSource::NearExe(i);
        }
        i += 1;
    }
    ConfigSource::Defaults
}

} // verus!
