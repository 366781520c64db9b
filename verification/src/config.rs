//! The proxy's settings, the once-only slot that holds them, and the rule
//! that decides where `config.toml` is looked for.

use vstd::prelude::*;

verus! {

/// All settings read from `config.toml`.
#[derive(Clone, Debug)]
pub struct Settings {
    pub proxy: Proxy,
    pub cache: Cache,
    pub management: Management,
    pub log: Log,
    pub certs: Certs,
    pub rules: Rules,
}

/// Caching rules; absent from the file means no rules.
#[derive(Clone, Debug)]
pub struct Rules {
    pub ignore_hosts: Vec<String>,
}

impl Default for Rules {
    fn default() -> (r: Rules)
        ensures
            r.ignore_hosts@.len() == 0,
    {
        Rules { ignore_hosts: Vec::new() }
    }
}

/// The proxy listener. `whitelist` lists the host suffixes the proxy serves;
/// an empty list (the default when the file has none) serves every host.
#[derive(Clone, Debug)]
pub struct Proxy {
    pub port: u16,
    pub bind_address: String,
    pub user_agent: String,
    pub whitelist: Vec<String>,
}

/// The cache: how many entries memory holds, where the disk level lives (none
/// or an empty path disables it) and how long entries stay fresh.
#[derive(Clone, Debug)]
pub struct Cache {
    pub memory_items: usize,
    pub disk_path: Option<String>,
    pub ttl_seconds: u64,
}

/// The management interface listener.
#[derive(Clone, Debug)]
pub struct Management {
    pub port: u16,
    pub bind_address: String,
}

/// Logging.
#[derive(Clone, Debug)]
pub struct Log {
    pub level: String,
}

/// Where the certificate authority keeps its files.
#[derive(Clone, Debug)]
pub struct Certs {
    pub path: String,
}

/// Why configuration could not be set up.
#[derive(Clone, Copy, Debug, PartialEq, Eq, Structural)]
pub enum ConfigError {
    /// The settings were already set once.
    AlreadyInitialized,
    /// The executable's path has no directory part.
    NoExecutableDirectory,
    /// The executable's directory has no parent.
    NoParentDirectory,
}

impl ConfigError {
    /// The message the proxy reports for the error.
    pub fn message(&self) -> (m: &'static str)
        ensures
            *self == ConfigError::AlreadyInitialized ==> m@ == "Configuration already initialized"@,
            *self == ConfigError::NoExecutableDirectory ==> m@ == "Failed to get executable directory"@,
            *self == ConfigError::NoParentDirectory ==> m@ == "Failed to get parent directory"@,
    {
        match self {
            ConfigError::AlreadyInitialized => "Configuration already initialized",
            ConfigError::NoExecutableDirectory => "Failed to get executable directory",
            ConfigError::NoParentDirectory => "Failed to get parent directory",
        }
    }
}

/// Where `config.toml` is read from.
#[derive(Clone, Copy, Debug, PartialEq, Eq, Structural)]
pub enum ConfigLocation {
    /// `config.toml` in the working directory.
    WorkingDirectory,
    /// `config.toml` beside the executable.
    ExecutableDirectory,
    /// `config.toml` in the directory above the executable's.
    ExecutableParentDirectory,
}

/// The search order for `config.toml`: the working directory, then the
/// executable's directory, then the directory above it (taken without
/// checking that the file is there).
pub open spec fn config_location_spec(
    in_working_dir: bool,
    has_exe_dir: bool,
    in_exe_dir: bool,
    exe_dir_has_parent: bool,
) -> Result<ConfigLocation, ConfigError> {
    if in_working_dir {
        Ok(ConfigLocation::WorkingDirectory)
    } else if !has_exe_dir {
        Err(ConfigError::NoExecutableDirectory)
    } else if in_exe_dir {
        Ok(ConfigLocation::ExecutableDirectory)
    } else if !exe_dir_has_parent {
        Err(ConfigError::NoParentDirectory)
    } else {
        Ok(ConfigLocation::ExecutableParentDirectory)
    }
}

/// Chooses where `config.toml` is read from, given what was found on disk.
pub fn config_location(
    in_working_dir: bool,
    has_exe_dir: bool,
    in_exe_dir: bool,
    exe_dir_has_parent: bool,
) -> (loc: Result<ConfigLocation, ConfigError>)
    ensures
        loc == config_location_spec(in_working_dir, has_exe_dir, in_exe_dir, exe_dir_has_parent),
        in_working_dir ==> loc == Ok::<ConfigLocation, ConfigError>(ConfigLocation::WorkingDirectory),
        !in_working_dir && has_exe_dir && in_exe_dir ==> loc == Ok::<ConfigLocation, ConfigError>(
            ConfigLocation::ExecutableDirectory,
        ),
        loc == Ok::<ConfigLocation, ConfigError>(ConfigLocation::ExecutableParentDirectory) ==> !in_working_dir
            && has_exe_dir && !in_exe_dir && exe_dir_has_parent,
{
    if in_working_dir {
        Ok(ConfigLocation::WorkingDirectory)
    } else if !has_exe_dir {
        Err(ConfigError::NoExecutableDirectory)
    } else if in_exe_dir {
        Ok(ConfigLocation::ExecutableDirectory)
    } else if !exe_dir_has_parent {
        Err(ConfigError::NoParentDirectory)
    } else {
        Ok(ConfigLocation::ExecutableParentDirectory)
    }
}

/// A slot that holds the settings once they are loaded; they can be set only once.
pub struct ConfigSlot {
    settings: Option<Settings>,
}

impl ConfigSlot {
    /// The settings held, if set.
    pub closed spec fn held(&self) -> Option<Settings> {
        self.settings
    }

    /// An empty slot.
    pub fn new() -> (slot: ConfigSlot)
        ensures
            slot.held() is None,
    {
        ConfigSlot { settings: None }
    }

    /// Whether the settings have been set.
    pub fn is_initialized(&self) -> (b: bool)
        ensures
            b == self.held() is Some,
    {
        self.settings.is_some()
    }
}

/// The effect of storing `settings` in a slot that held `before`: an empty
/// slot takes them; a set slot refuses and keeps what it held.
pub open spec fn init_outcome(
    before: Option<Settings>,
    after: Option<Settings>,
    settings: Settings,
    r: Result<(), ConfigError>,
) -> bool {
    match before {
        None => r is Ok && after == Some(settings),
        Some(_) => r == Err::<(), ConfigError>(ConfigError::AlreadyInitialized) && after == before,
    }
}

/// Stores the loaded settings; a second call fails and keeps the first settings.
pub fn init(slot: &mut ConfigSlot, settings: Settings) -> (r: Result<(), ConfigError>)
    ensures
        init_outcome(old(slot).held(), final(slot).held(), settings, r),
{
    if slot.settings.is_some() {
        Err(ConfigError::AlreadyInitialized)
    } else {
        slot.settings = Some(settings);
        Ok(())
    }
}

/// The settings are set once: after a successful store of `first`, every
/// later store fails and the slot keeps holding `first`, which is what `get`
/// then returns.
pub proof fn law_settings_set_once(
    h0: Option<Settings>,
    h1: Option<Settings>,
    h2: Option<Settings>,
    first: Settings,
    second: Settings,
    r2: Result<(), ConfigError>,
)
    requires
        init_outcome(h0, h1, first, Ok(())),
        init_outcome(h1, h2, second, r2),
    ensures
        r2 == Err::<(), ConfigError>(ConfigError::AlreadyInitialized),
        h2 == Some(first),
{
}

/// The settings; the slot must have been initialized.
pub fn get(slot: &ConfigSlot) -> (s: &Settings)
    requires
        slot.held() is Some,
    ensures
        Some(*s) == slot.held(),
{
    slot.settings.as_ref().unwrap()
}

/// The search order for `config.toml`: a file in the working directory
/// wins; otherwise a file beside the executable wins, whether or not its
/// directory has a parent; the directory above is taken only when neither
/// holds a file; and a missing executable or parent directory is an error.
pub proof fn law_config_search_order(
    in_working_dir: bool,
    has_exe_dir: bool,
    in_exe_dir: bool,
    exe_dir_has_parent: bool,
    loc: Result<ConfigLocation, ConfigError>,
)
    requires
        loc == config_location_spec(in_working_dir, has_exe_dir, in_exe_dir, exe_dir_has_parent),
    ensures
        in_working_dir ==> loc == Ok::<ConfigLocation, ConfigError>(ConfigLocation::WorkingDirectory),
        !in_working_dir && has_exe_dir && in_exe_dir ==> loc == Ok::<ConfigLocation, ConfigError>(
            ConfigLocation::ExecutableDirectory,
        ),
        !in_working_dir && has_exe_dir && !in_exe_dir && exe_dir_has_parent ==> loc == Ok::<
            ConfigLocation,
            ConfigError,
        >(ConfigLocation::ExecutableParentDirectory),
        !in_working_dir && !has_exe_dir ==> loc == Err::<ConfigLocation, ConfigError>(
            ConfigError::NoExecutableDirectory,
        ),
        !in_working_dir && has_exe_dir && !in_exe_dir && !exe_dir_has_parent ==> loc == Err::<
            ConfigLocation,
            ConfigError,
        >(ConfigError::NoParentDirectory),
{
}

} // verus!
