//! Configuration records and their validation.
//!
//! Loading and persisting these records is the embedding program's
//! work; the rules they must satisfy are decided here, with the
//! filesystem probes they depend on passed in as plain values.

use vstd::prelude::*;
use crate::json::{char_from_u32, chars_to_string, str_chars};

verus! {

broadcast use vstd::seq::group_seq_axioms, vstd::std_specs::vec::group_vec_axioms;

/// Why a configuration was refused.
pub enum ConfigError {
    /// The configuration file is missing; the payload is its path.
    FileNotFound(String),
    /// A field holds an unusable value; the payload names it.
    InvalidValue(String),
}

/// The text a configuration failure is reported with.
pub open spec fn config_error_message(e: ConfigError) -> Seq<char> {
    match e {
        ConfigError::FileNotFound(p) => "Configuration file not found: "@ + p@,
        ConfigError::InvalidValue(f) => "Invalid configuration value: "@ + f@,
    }
}

impl ConfigError {
    /// The text this failure is reported with.
    pub fn message(&self) -> (r: String)
        ensures
            r@ == config_error_message(*self),
    {
        match self {
            ConfigError::FileNotFound(p) => String::from_str("Configuration file not found: ")
                .concat(p.as_str()),
            ConfigError::InvalidValue(f) => String::from_str("Invalid configuration value: ")
                .concat(f.as_str()),
        }
    }
}

/// What the server calls itself, as configured.
pub struct ServerConfig {
    pub name: String,
    pub version: String,
}

impl Default for ServerConfig {
    /// The stock server identity.
    fn default() -> (r: Self)
        ensures
            r.name@ == "obsidian-mcp-server"@,
            r.version@ == "0.1.0"@,
    {
        ServerConfig {
            name: String::from_str("obsidian-mcp-server"),
            version: String::from_str("0.1.0"),
        }
    }
}

/// Where the vault lies, if configured.
pub struct VaultConfig {
    pub path: Option<String>,
}

/// How logging is set up.  The core never logs; the record is decided
/// here and consumed by the embedding program.
pub struct LoggingConfig {
    pub level: String,
    pub file: Option<String>,
    pub console: bool,
}

impl Default for LoggingConfig {
    /// The stock logging setup.
    fn default() -> (r: Self)
        ensures
            r.level@ == "info"@,
            r.file matches Some(f) && f@ == "logs/mcp-server.log"@,
            r.console == true,
    {
        LoggingConfig {
            level: String::from_str("info"),
            file: Some(String::from_str("logs/mcp-server.log")),
            console: true,
        }
    }
}

/// The lower-case form of an ASCII letter; anything else unchanged.
pub open spec fn lower_char(c: char) -> char {
    if 65 <= c as u32 && c as u32 <= 90 {
        ((c as u32) + 32) as char
    } else {
        c
    }
}

/// The text with its ASCII letters lower-cased.
pub open spec fn lower(s: Seq<char>) -> Seq<char> {
    s.map_values(|c: char| lower_char(c))
}

/// The log levels a configuration may name, case-insensitively.
pub open spec fn valid_log_level(s: Seq<char>) -> bool {
    ||| lower(s) == "trace"@
    ||| lower(s) == "debug"@
    ||| lower(s) == "info"@
    ||| lower(s) == "warn"@
    ||| lower(s) == "error"@
}

/// The text with its ASCII letters lower-cased.
#[verifier::loop_isolation(false)]
fn lower_vec(f: &Vec<char>) -> (r: Vec<char>)
    ensures
        r@ == lower(f@),
{
    let n = f.len();
    let mut r: Vec<char> = Vec::new();
    let mut i: usize = 0;
    while i < n
        invariant
            i <= n,
            r@.len() == i,
            forall|k: int| 0 <= k < i ==> r@[k] == lower_char(f@[k]),
        decreases n - i,
    {
        let c = f[i];
        let u = c as u32;
        if 65 <= u && u <= 90 {
            match char_from_u32(u + 32) {
                Some(lo) => {
                    r.push(lo);
                },
                None => {
                    proof {
                        assert(false);
                    }
                },
            }
        } else {
            r.push(c);
        }
        i = i + 1;
    }
    proof {
        assert(r@ =~= lower(f@));
    }
    r
}

/// Whether two character sequences are equal.
#[verifier::loop_isolation(false)]
fn chars_eq(a: &Vec<char>, b: &Vec<char>) -> (r: bool)
    ensures
        r == (a@ == b@),
{
    let n = a.len();
    if n != b.len() {
        return false;
    }
    let mut i: usize = 0;
    while i < n
        invariant
            i <= n,
            forall|k: int| 0 <= k < i ==> a@[k] == b@[k],
        decreases n - i,
    {
        if a[i] != b[i] {
            return false;
        }
        i = i + 1;
    }
    proof {
        assert(a@ =~= b@);
    }
    true
}

/// Whether the text names a log level, case-insensitively.
pub fn is_valid_log_level(level: &str) -> (r: bool)
    ensures
        r == valid_log_level(level@),
{
    let cs = str_chars(level);
    let lo = lower_vec(&cs);
    chars_eq(&lo, &str_chars("trace")) || chars_eq(&lo, &str_chars("debug")) || chars_eq(
        &lo,
        &str_chars("info"),
    ) || chars_eq(&lo, &str_chars("warn")) || chars_eq(&lo, &str_chars("error"))
}

/// The text refusing a log level.
pub open spec fn bad_level_message(level: Seq<char>) -> Seq<char> {
    "Invalid log level: "@ + level + ". Must be one of: trace, debug, info, warn, error"@
}

impl LoggingConfig {
    /// Checks the logging setup: the level must name a log level.
    pub fn validate(&self) -> (r: Result<(), ConfigError>)
        ensures
            r is Ok <==> valid_log_level(self.level@),
            r matches Err(e) ==> e is InvalidValue && e->InvalidValue_0@ == bad_level_message(
                self.level@,
            ),
    {
        if is_valid_log_level(self.level.as_str()) {
            Ok(())
        } else {
            let m = String::from_str("Invalid log level: ").concat(self.level.as_str()).concat(
                ". Must be one of: trace, debug, info, warn, error",
            );
            Err(ConfigError::InvalidValue(m))
        }
    }
}

/// The application configuration the core is built from.
pub struct Config {
    /// The vault root.
    pub vault_path: String,
    /// The file extensions the vault accepts.
    pub allowed_extensions: Vec<String>,
    /// The largest accepted file, in bytes.
    pub max_file_size: usize,
    /// The configured log level.
    pub log_level: String,
    /// What the server calls itself.
    pub server: ServerConfig,
}

impl Default for Config {
    /// The stock configuration.
    fn default() -> (r: Self)
        ensures
            r.vault_path@ == "./vault"@,
            r.allowed_extensions@.len() == 2,
            r.max_file_size == 1048576,
            r.log_level@ == "info"@,
            r.server.name@ == "obsidian-mcp-server"@,
            r.server.version@ == "0.1.0"@,
    {
        let mut allowed_extensions: Vec<String> = Vec::new();
        allowed_extensions.push(String::from_str("md"));
        allowed_extensions.push(String::from_str("txt"));
        Config {
            vault_path: String::from_str("./vault"),
            allowed_extensions,
            max_file_size: 1048576,
            log_level: String::from_str("info"),
            server: ServerConfig::default(),
        }
    }
}

impl Config {
    /// Checks the configuration: the vault root must exist on disk
    /// (the probe comes from the embedding program) and the size
    /// bound must be positive.
    pub fn validate(&self, vault_path_exists: bool) -> (r: Result<(), ConfigError>)
        ensures
            r is Ok <==> (vault_path_exists && self.max_file_size > 0),
            !vault_path_exists ==> (r matches Err(e) && e is InvalidValue && e->InvalidValue_0@
                == "vault_path does not exist: "@ + self.vault_path@),
            vault_path_exists && self.max_file_size == 0 ==> (r matches Err(e) && e is InvalidValue
                && e->InvalidValue_0@ == "max_file_size must be greater than zero"@),
    {
        if !vault_path_exists {
            let m = String::from_str("vault_path does not exist: ").concat(self.vault_path.as_str());
            return Err(ConfigError::InvalidValue(m));
        }
        if self.max_file_size == 0 {
            return Err(
                ConfigError::InvalidValue(String::from_str("max_file_size must be greater than zero")),
            );
        }
        Ok(())
    }
}

/// The persisted settings file's shape.
pub struct Settings {
    pub vault: VaultConfig,
    pub server: ServerConfig,
    pub logging: LoggingConfig,
}

impl Default for Settings {
    /// The stock settings.
    fn default() -> (r: Self)
        ensures
            r.vault.path is None,
            r.server.name@ == "obsidian-mcp-server"@,
            r.server.version@ == "0.1.0"@,
            r.logging.level@ == "info"@,
    {
        Settings {
            vault: VaultConfig { path: None },
            server: ServerConfig::default(),
            logging: LoggingConfig::default(),
        }
    }
}

impl Settings {
    /// Checks the settings: the log level must name a level, and a
    /// configured vault path that is present on disk must be a
    /// directory.  A configured path that is absent is let through;
    /// it only stops a save later.  The probes come from the
    /// embedding program.
    pub fn validate(&self, vault_path_exists: bool, vault_path_is_dir: bool) -> (r: Result<
        (),
        ConfigError,
    >)
        ensures
            r is Ok <==> (valid_log_level(self.logging.level@) && !(self.vault.path is Some
                && vault_path_exists && !vault_path_is_dir)),
    {
        if !is_valid_log_level(self.logging.level.as_str()) {
            let m = String::from_str("Invalid log level: ").concat(self.logging.level.as_str())
                .concat(". Must be one of: trace, debug, info, warn, error");
            return Err(ConfigError::InvalidValue(m));
        }
        match &self.vault.path {
            Some(p) => {
                if vault_path_exists && !vault_path_is_dir {
                    let m = String::from_str("Vault path is not a directory: ").concat(p.as_str());
                    return Err(ConfigError::InvalidValue(m));
                }
            },
            None => {},
        }
        Ok(())
    }

    /// The configured vault path, if any.
    pub fn get_vault_path(&self) -> (r: Option<&str>)
        ensures
            match r {
                Some(p) => self.vault.path matches Some(q) && p@ == q@,
                None => self.vault.path is None,
            },
    {
        match &self.vault.path {
            Some(p) => Some(p.as_str()),
            None => None,
        }
    }

    /// Points the settings at a vault.
    pub fn set_vault_path(&mut self, path: String)
        ensures
            final(self).vault.path matches Some(p) && p@ == path@,
            final(self).server == old(self).server,
            final(self).logging == old(self).logging,
    {
        self.vault.path = Some(path);
    }
}

} // verus!
