//! Configuration: its shape, its defaults, and where it is looked for.
use vstd::prelude::*;

use crate::names::NameMap;
use crate::text::copy_text;

verus! {

/// Top-level configuration.
#[derive(Debug, Clone)]
pub struct Config {
    /// Global settings.
    pub global: GlobalConfig,
    /// Per-port configurations keyed by port path.
    pub ports: NameMap<PortConfig>,
    /// User-defined macros keyed by name.
    pub macros: NameMap<MacroConfig>,
}

/// Global server settings.
#[derive(Debug, Clone)]
pub struct GlobalConfig {
    /// Directory for database files.
    pub data_dir: String,
    /// Directory for archived databases.
    pub archive_dir: String,
    /// Flush interval in milliseconds.
    pub flush_interval_ms: u64,
    /// Maximum batch size before forced flush.
    pub flush_batch_size: usize,
    /// Log level (trace, debug, info, warn, error).
    pub log_level: String,
}

/// Per-port configuration.
#[derive(Debug, Clone)]
pub struct PortConfig {
    /// Baud rate.
    pub baudrate: u32,
    /// Data bits (5, 6, 7, 8).
    pub data_bits: u8,
    /// Parity: none, odd, even.
    pub parity: String,
    /// Stop bits (1, 2).
    pub stop_bits: u8,
    /// Flow control: none, software, hardware.
    pub flow_control: String,
    /// Line delimiter byte.
    pub delimiter: u8,
    /// Enable auto-reconnect on disconnect.
    pub auto_reconnect: bool,
    /// Reconnect interval in milliseconds.
    pub reconnect_interval_ms: u64,
    /// Maximum reconnect backoff in milliseconds.
    pub reconnect_max_backoff_ms: u64,
    /// Maximum lines to keep in buffer (0 = unlimited).
    pub max_buffer_lines: u64,
}

/// A user-defined macro: a sequence of steps.
#[derive(Debug, Clone)]
pub struct MacroConfig {
    /// Human-readable description.
    pub description: String,
    /// Ordered steps to execute.
    pub steps: Vec<MacroStep>,
}

/// A single step in a macro sequence.
#[derive(Debug, Clone)]
pub enum MacroStep {
    /// Write bytes to the port (hex string or UTF-8).
    Write { value: String },
    /// Set DTR line.
    Dtr { value: bool },
    /// Set RTS line.
    Rts { value: bool },
    /// Delay in milliseconds.
    Delay { ms: u64 },
}

/// Two port configurations say the same.
pub open spec fn same_port(a: PortConfig, b: PortConfig) -> bool {
    &&& a.baudrate == b.baudrate
    &&& a.data_bits == b.data_bits
    &&& a.parity@ == b.parity@
    &&& a.stop_bits == b.stop_bits
    &&& a.flow_control@ == b.flow_control@
    &&& a.delimiter == b.delimiter
    &&& a.auto_reconnect == b.auto_reconnect
    &&& a.reconnect_interval_ms == b.reconnect_interval_ms
    &&& a.reconnect_max_backoff_ms == b.reconnect_max_backoff_ms
    &&& a.max_buffer_lines == b.max_buffer_lines
}

impl PortConfig {
    /// The settings of a port that nothing is said about.
    pub open spec fn is_default(self) -> bool {
        &&& self.baudrate == 115_200
        &&& self.data_bits == 8
        &&& self.parity@ == "none"@
        &&& self.stop_bits == 1
        &&& self.flow_control@ == "none"@
        &&& self.delimiter == 10
        &&& self.auto_reconnect
        &&& self.reconnect_interval_ms == 1000
        &&& self.reconnect_max_backoff_ms == 30_000
        &&& self.max_buffer_lines == 0
    }

    /// A copy.
    pub fn duplicate(&self) -> (r: PortConfig)
        ensures
            same_port(r, *self),
    {
        PortConfig {
            baudrate: self.baudrate,
            data_bits: self.data_bits,
            parity: copy_text(self.parity.as_str()),
            stop_bits: self.stop_bits,
            flow_control: copy_text(self.flow_control.as_str()),
            delimiter: self.delimiter,
            auto_reconnect: self.auto_reconnect,
            reconnect_interval_ms: self.reconnect_interval_ms,
            reconnect_max_backoff_ms: self.reconnect_max_backoff_ms,
            max_buffer_lines: self.max_buffer_lines,
        }
    }
}

impl Default for PortConfig {
    fn default() -> (r: PortConfig)
        ensures
            r.is_default(),
    {
        PortConfig {
            baudrate: 115_200,
            data_bits: 8,
            parity: copy_text("none"),
            stop_bits: 1,
            flow_control: copy_text("none"),
            delimiter: 10,
            auto_reconnect: true,
            reconnect_interval_ms: 1000,
            reconnect_max_backoff_ms: 30_000,
            max_buffer_lines: 0,
        }
    }
}

impl GlobalConfig {
    /// The defaults, with the given directories.
    pub fn with_dirs(data_dir: String, archive_dir: String) -> (r: GlobalConfig)
        ensures
            r.data_dir@ == data_dir@,
            r.archive_dir@ == archive_dir@,
            r.flush_interval_ms == 100,
            r.flush_batch_size == 1000,
            r.log_level@ == "info"@,
    {
        GlobalConfig {
            data_dir,
            archive_dir,
            flush_interval_ms: 100,
            flush_batch_size: 1000,
            log_level: copy_text("info"),
        }
    }
}

impl Config {
    /// The defaults, with the given global settings.
    pub fn with_global(global: GlobalConfig) -> (r: Config)
        ensures
            r.global == global,
            r.ports@ == Map::<Seq<char>, PortConfig>::empty(),
            r.macros@ == Map::<Seq<char>, MacroConfig>::empty(),
            r.macros.names_list() == Seq::<Seq<char>>::empty(),
    {
        Config { global, ports: NameMap::new(), macros: NameMap::new() }
    }

    /// The settings of the port `name`, or the defaults.
    pub fn port(&self, name: &str) -> (r: PortConfig)
        ensures
            self.ports@.contains_key(name@) ==> same_port(r, self.ports@[name@]),
            !self.ports@.contains_key(name@) ==> r.is_default(),
    {
        match self.ports.get(name) {
            Some(p) => p.duplicate(),
            None => PortConfig::default(),
        }
    }
}

// --- Directories and files ---

/// The families of systems whose conventions are followed.
#[derive(Debug, Clone, Copy, PartialEq, Eq, Structural)]
pub enum Platform {
    Linux,
    MacOs,
    Windows,
    OtherUnix,
    Other,
}

/// The environment variables that name a directory.
#[derive(Debug, Clone, Copy, PartialEq, Eq, Structural)]
pub enum DirVar {
    XdgStateHome,
    Home,
    LocalAppData,
    AppData,
}

/// Which of the variables are set.
#[derive(Debug, Clone, Copy, PartialEq, Eq, Structural)]
pub struct DirVars {
    pub xdg_state_home: bool,
    pub home: bool,
    pub local_app_data: bool,
    pub app_data: bool,
}

/// A directory: `tail` below the directory that `base` names, or `tail` itself.
#[derive(Debug, Clone)]
pub struct DirRule {
    pub base: Option<DirVar>,
    pub tail: String,
}

/// The default data directory of a platform, by the variables that are set.
pub open spec fn data_dir_spec(platform: Platform, vars: DirVars) -> (Option<DirVar>, Seq<char>) {
    match platform {
        Platform::MacOs if vars.home => (
            Some(DirVar::Home),
            "Library/Application Support/devserial"@,
        ),
        Platform::Linux if vars.xdg_state_home => (Some(DirVar::XdgStateHome), "devserial"@),
        Platform::Linux if vars.home => (Some(DirVar::Home), ".local/state/devserial"@),
        Platform::Windows if vars.local_app_data => (Some(DirVar::LocalAppData), "devserial"@),
        _ => (None, "./data"@),
    }
}

/// Platform-specific default data directory.
pub fn default_data_dir(platform: Platform, vars: DirVars) -> (r: DirRule)
    ensures
        (r.base, r.tail@) == data_dir_spec(platform, vars),
{
    match platform {
        Platform::MacOs if vars.home => DirRule {
            base: Some(DirVar::Home),
            tail: copy_text("Library/Application Support/devserial"),
        },
        Platform::Linux if vars.xdg_state_home => DirRule {
            base: Some(DirVar::XdgStateHome),
            tail: copy_text("devserial"),
        },
        Platform::Linux if vars.home => DirRule {
            base: Some(DirVar::Home),
            tail: copy_text(".local/state/devserial"),
        },
        Platform::Windows if vars.local_app_data => DirRule {
            base: Some(DirVar::LocalAppData),
            tail: copy_text("devserial"),
        },
        _ => DirRule { base: None, tail: copy_text("./data") },
    }
}

/// The user's configuration directory on a platform, by the variables that are set.
pub open spec fn config_dir_spec(platform: Platform, vars: DirVars) -> Option<
    (DirVar, Seq<char>),
> {
    match platform {
        Platform::Windows => if vars.app_data {
            Some((DirVar::AppData, "devserial"@))
        } else {
            None
        },
        Platform::Other => None,
        _ => if vars.home {
            Some((DirVar::Home, ".config/devserial"@))
        } else {
            None
        },
    }
}

/// The user's configuration directory, where there is one.
pub fn config_dir(platform: Platform, vars: DirVars) -> (r: Option<DirRule>)
    ensures
        match config_dir_spec(platform, vars) {
            Some((var, tail)) => r is Some && r->0.base == Some(var) && r->0.tail@ == tail,
            None => r is None,
        },
{
    match platform {
        Platform::Windows => if vars.app_data {
            Some(DirRule { base: Some(DirVar::AppData), tail: copy_text("devserial") })
        } else {
            None
        },
        Platform::Other => None,
        _ => if vars.home {
            Some(DirRule { base: Some(DirVar::Home), tail: copy_text(".config/devserial") })
        } else {
            None
        },
    }
}

/// The files that configuration is looked for in, in this order: an explicit path alone; otherwise
/// `./devserial.toml` and then the user's file, where there is one.
pub fn config_candidates(explicit: Option<String>, user_file: Option<String>) -> (r: Vec<String>)
    ensures
        crate::text::texts(r@) == (match explicit {
            Some(p) => seq![p@],
            None => match user_file {
                Some(u) => seq!["./devserial.toml"@, u@],
                None => seq!["./devserial.toml"@],
            },
        }),
{
    let mut v: Vec<String> = Vec::new();
    match explicit {
        Some(p) => v.push(p),
        None => {
            v.push(copy_text("./devserial.toml"));
            if let Some(u) = user_file {
                v.push(u);
            }
        },
    }
    proof {
        assert(crate::text::texts(v@) =~= (match explicit {
            Some(p) => seq![p@],
            None => match user_file {
                Some(u) => seq!["./devserial.toml"@, u@],
                None => seq!["./devserial.toml"@],
            },
        }));
    }
    v
}

/// Which candidate is loaded: the first that exists. Where none does, the defaults are used.
pub fn chosen_candidate(exists_at: &Vec<bool>) -> (r: Option<usize>)
    ensures
        match r {
            Some(i) => i < exists_at@.len() && exists_at@[i as int] && forall|k: int|
                0 <= k < i ==> !exists_at@[k],
            None => forall|k: int| 0 <= k < exists_at@.len() ==> !exists_at@[k],
        },
{
    let mut i: usize = 0;
    while i < exists_at.len()
        invariant
            i <= exists_at@.len(),
            forall|k: int| 0 <= k < i ==> !exists_at@[k],
        decreases exists_at@.len() - i,
    {
        if exists_at[i] {
            return Some(i);
        }
        i = i + 1;
    }
    None
}

/// Why a configuration file could not be loaded. The reason is the reader's or the parser's.
#[derive(Debug, Clone)]
pub enum ConfigError {
    Io(String, String),
    Parse(String, String),
}

impl ConfigError {
    /// The message for the user.
    pub open spec fn text(self) -> Seq<char> {
        match self {
            ConfigError::Io(path, why) => "failed to read config file "@ + path@ + ": "@ + why@,
            ConfigError::Parse(path, why) => "failed to parse config file "@ + path@ + ": "@ + why@,
        }
    }

    pub fn message(&self) -> (r: String)
        ensures
            r@ == self.text(),
    {
        let (start, path, why) = match self {
            ConfigError::Io(path, why) => ("failed to read config file ", path, why),
            ConfigError::Parse(path, why) => ("failed to parse config file ", path, why),
        };
        let mut s = copy_text(start);
        s.append(path.as_str());
        s.append(": ");
        s.append(why.as_str());
        s
    }
}

/// A port that nothing is said about is opened at 115200 baud with eight data bits, one stop bit, no
/// parity and no flow control. Its lines end with a line feed, it is opened again when it is lost, after
/// a second at first and at most half a minute, and its buffer has no bound.
pub proof fn law_defaults(c: PortConfig, d: PortConfig)
    requires
        c.is_default(),
    ensures
        c.baudrate == 115_200 && c.data_bits == 8 && c.stop_bits == 1,
        c.parity@ == "none"@ && c.flow_control@ == "none"@,
        c.delimiter == 10 && c.max_buffer_lines == 0,
        c.auto_reconnect && c.reconnect_interval_ms == 1000 && c.reconnect_max_backoff_ms == 30_000,
        d.is_default() <==> same_port(c, d),
{
}

/// Two configurations say the same exactly if they agree in every setting.
pub proof fn law_same_port(a: PortConfig, b: PortConfig)
    ensures
        same_port(a, b) <==> a.baudrate == b.baudrate && a.data_bits == b.data_bits && a.parity@
            == b.parity@ && a.stop_bits == b.stop_bits && a.flow_control@ == b.flow_control@
            && a.delimiter == b.delimiter && a.auto_reconnect == b.auto_reconnect
            && a.reconnect_interval_ms == b.reconnect_interval_ms && a.reconnect_max_backoff_ms
            == b.reconnect_max_backoff_ms && a.max_buffer_lines == b.max_buffer_lines,
{
}

/// Where the data go on each platform. Only Linux asks for a directory of its own before the home
/// directory, and where nothing is set they go to the working directory.
pub proof fn law_data_dirs(vars: DirVars)
    ensures
        data_dir_spec(Platform::MacOs, vars) == (if vars.home {
            (Some(DirVar::Home), "Library/Application Support/devserial"@)
        } else {
            (None, "./data"@)
        }),
        vars.xdg_state_home ==> data_dir_spec(Platform::Linux, vars) == (
            Some(DirVar::XdgStateHome),
            "devserial"@,
        ),
        !vars.xdg_state_home ==> data_dir_spec(Platform::Linux, vars) == (if vars.home {
            (Some(DirVar::Home), ".local/state/devserial"@)
        } else {
            (None, "./data"@)
        }),
        data_dir_spec(Platform::Windows, vars) == (if vars.local_app_data {
            (Some(DirVar::LocalAppData), "devserial"@)
        } else {
            (None, "./data"@)
        }),
        data_dir_spec(Platform::Other, vars) == (None::<DirVar>, "./data"@),
{
}

/// Where the user's configuration is looked for on each platform.
pub proof fn law_config_dirs(vars: DirVars)
    ensures
        config_dir_spec(Platform::Windows, vars) == (if vars.app_data {
            Some((DirVar::AppData, "devserial"@))
        } else {
            None
        }),
        config_dir_spec(Platform::Linux, vars) == (if vars.home {
            Some((DirVar::Home, ".config/devserial"@))
        } else {
            None
        }),
        config_dir_spec(Platform::MacOs, vars) == config_dir_spec(Platform::Linux, vars),
        config_dir_spec(Platform::Other, vars) is None,
{
}

/// The messages say what failed, on which file and why.
pub proof fn law_config_messages(e: ConfigError)
    ensures
        e matches ConfigError::Io(path, why) ==> e.text() == "failed to read config file "@ + path@
            + ": "@ + why@,
        e matches ConfigError::Parse(path, why) ==> e.text() == "failed to parse config file "@
            + path@ + ": "@ + why@,
{
}

} // verus!
