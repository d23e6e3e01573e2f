//! The stored configuration: the network and the template that a new project
//! gets when none is asked for.

use crate::text::same_text;
use vstd::prelude::*;
use vstd::string::StringExecFns;

verus! {

/// The defaults for new projects.
#[derive(Debug, Clone, PartialEq, Eq)]
pub struct DefaultsConfig {
    pub network: String,
    pub template: String,
}

/// The configuration record.
#[derive(Debug, Clone, PartialEq, Eq)]
pub struct Config {
    pub defaults: DefaultsConfig,
}

/// A configuration record as plain values.
pub struct ConfigView {
    pub network: Seq<char>,
    pub template: Seq<char>,
}

impl View for DefaultsConfig {
    type V = ConfigView;

    open spec fn view(&self) -> ConfigView {
        ConfigView { network: self.network@, template: self.template@ }
    }
}

impl View for Config {
    type V = ConfigView;

    open spec fn view(&self) -> ConfigView {
        self.defaults@
    }
}

/// Why a configuration could not be read or changed.
#[derive(Debug, Clone, PartialEq, Eq)]
pub enum ConfigError {
    /// The user has no home directory to keep the configuration in.
    NoHomeDirectory,
    /// The stored configuration is not a valid record.
    Malformed,
    /// The key names no setting.
    UnknownKey { key: String },
    /// The value is no network.
    InvalidNetwork,
    /// The value is no template.
    InvalidTemplate,
}

/// An error as plain values.
pub enum ConfigErrorView {
    NoHomeDirectory,
    Malformed,
    UnknownKey { key: Seq<char> },
    InvalidNetwork,
    InvalidTemplate,
}

impl View for ConfigError {
    type V = ConfigErrorView;

    open spec fn view(&self) -> ConfigErrorView {
        match self {
            ConfigError::NoHomeDirectory => ConfigErrorView::NoHomeDirectory,
            ConfigError::Malformed => ConfigErrorView::Malformed,
            ConfigError::UnknownKey { key } => ConfigErrorView::UnknownKey { key: key@ },
            ConfigError::InvalidNetwork => ConfigErrorView::InvalidNetwork,
            ConfigError::InvalidTemplate => ConfigErrorView::InvalidTemplate,
        }
    }
}

/// The text shown for an error.
pub open spec fn message_of(error: ConfigErrorView) -> Seq<char> {
    match error {
        ConfigErrorView::NoHomeDirectory => "No home directory"@,
        ConfigErrorView::Malformed => "Failed to parse config"@,
        ConfigErrorView::UnknownKey { key } => "Unknown key: "@ + key,
        ConfigErrorView::InvalidNetwork => "Network must be base or optimism"@,
        ConfigErrorView::InvalidTemplate => "Template must be javascript, react, or nextjs"@,
    }
}

impl ConfigError {
    /// The text shown for this error.
    pub fn message(&self) -> (s: String)
        ensures
            s@ == message_of(self@),
    {
        match self {
            ConfigError::NoHomeDirectory => "No home directory".to_owned(),
            ConfigError::Malformed => "Failed to parse config".to_owned(),
            ConfigError::UnknownKey { key } => "Unknown key: ".to_owned().concat(key.as_str()),
            ConfigError::InvalidNetwork => "Network must be base or optimism".to_owned(),
            ConfigError::InvalidTemplate => {
                "Template must be javascript, react, or nextjs".to_owned()
            },
        }
    }
}

/// The networks a configuration may name.
pub open spec fn is_network(value: Seq<char>) -> bool {
    value == "base"@ || value == "optimism"@
}

/// The templates a configuration may name.
pub open spec fn is_template(value: Seq<char>) -> bool {
    value == "javascript"@ || value == "react"@ || value == "nextjs"@
}

/// The record that stands where nothing was stored.
pub open spec fn default_view() -> ConfigView {
    ConfigView { network: "base"@, template: "javascript"@ }
}

/// A record is valid when both of its fields hold an allowed value.
pub open spec fn valid(config: ConfigView) -> bool {
    is_network(config.network) && is_template(config.template)
}

/// The value that a record holds under a key.
pub open spec fn value_of(config: ConfigView, key: Seq<char>) -> Option<Seq<char>> {
    if key == "network"@ {
        Some(config.network)
    } else if key == "template"@ {
        Some(config.template)
    } else {
        None
    }
}

/// Whether `value` may be stored under `key`.
pub open spec fn settable(key: Seq<char>, value: Seq<char>) -> bool {
    if key == "network"@ {
        is_network(value)
    } else if key == "template"@ {
        is_template(value)
    } else {
        false
    }
}

/// The record with `value` stored under `key`, for a key and value that are
/// settable.
pub open spec fn assigned(config: ConfigView, key: Seq<char>, value: Seq<char>) -> ConfigView {
    if key == "network"@ {
        ConfigView { network: value, ..config }
    } else {
        ConfigView { template: value, ..config }
    }
}

/// Why `value` may not be stored under `key`, where it may not.
pub open spec fn refusal(key: Seq<char>, value: Seq<char>) -> ConfigErrorView {
    if key == "network"@ {
        ConfigErrorView::InvalidNetwork
    } else if key == "template"@ {
        ConfigErrorView::InvalidTemplate
    } else {
        ConfigErrorView::UnknownKey { key }
    }
}

/// What loading yields: the defaults where nothing is stored, the stored
/// record where it is valid, and an error where it is not.
pub open spec fn loaded(stored: Option<ConfigView>) -> Result<ConfigView, ConfigErrorView> {
    match stored {
        None => Ok(default_view()),
        Some(config) => if valid(config) {
            Ok(config)
        } else {
            Err(ConfigErrorView::Malformed)
        },
    }
}

/// What the configuration file holds, as plain values.
pub open spec fn stored_view(stored: Option<Config>) -> Option<ConfigView> {
    match stored {
        Some(config) => Some(config@),
        None => None,
    }
}

/// The outcome of loading, as plain values.
pub open spec fn outcome_view(outcome: Result<Config, ConfigError>) -> Result<
    ConfigView,
    ConfigErrorView,
> {
    match outcome {
        Ok(config) => Ok(config@),
        Err(error) => Err(error@),
    }
}

/// The directory of the configuration below a home directory.
pub open spec fn config_dir_under(home: Seq<char>) -> Seq<char> {
    home + "/.l2-cli"@
}

/// The path of the configuration file below a home directory.
pub open spec fn config_path_under(home: Seq<char>) -> Seq<char> {
    config_dir_under(home) + "/config.toml"@
}

/// Whether `value` names a network.
pub fn check_network(value: &str) -> (r: bool)
    ensures
        r == is_network(value@),
{
    same_text(value, "base") || same_text(value, "optimism")
}

/// Whether `value` names a template.
pub fn check_template(value: &str) -> (r: bool)
    ensures
        r == is_template(value@),
{
    same_text(value, "javascript") || same_text(value, "react") || same_text(value, "nextjs")
}

/// The user's home directory, if there is one and its name is valid Unicode.
///
/// Calls `dirs::home_dir`, which asks the environment and the system's user
/// database. Nothing is claimed of what it returns.
#[verifier::external_body]
fn home_dir() -> Option<String> {
    dirs::home_dir().and_then(|path| path.into_os_string().into_string().ok())
}

impl Default for Config {
    fn default() -> (config: Config)
        ensures
            config@ == default_view(),
    {
        Config {
            defaults: DefaultsConfig {
                network: "base".to_owned(),
                template: "javascript".to_owned(),
            },
        }
    }
}

impl Config {
    /// Whether the record is valid.
    pub open spec fn wf(&self) -> bool {
        valid(self@)
    }

    /// Whether the record is valid.
    pub fn is_valid(&self) -> (r: bool)
        ensures
            r == self.wf(),
    {
        check_network(self.defaults.network.as_str()) && check_template(
            self.defaults.template.as_str(),
        )
    }

    /// The directory of the configuration below the home directory `home`.
    pub fn config_dir_in(home: &str) -> (dir: String)
        ensures
            dir@ == config_dir_under(home@),
    {
        home.to_owned().concat("/.l2-cli")
    }

    /// The path of the configuration file below the home directory `home`.
    pub fn config_path_in(home: &str) -> (path: String)
        ensures
            path@ == config_path_under(home@),
    {
        Config::config_dir_in(home).concat("/config.toml")
    }

    /// The directory of the user's configuration. There is none for a user
    /// without a home directory.
    pub fn get_config_dir() -> (r: Result<String, ConfigError>)
        ensures
            match r {
                Ok(dir) => exists|home: Seq<char>| dir@ == config_dir_under(home),
                Err(e) => e@ == ConfigErrorView::NoHomeDirectory,
            },
    {
        match home_dir() {
            Some(home) => Ok(Config::config_dir_in(home.as_str())),
            None => Err(ConfigError::NoHomeDirectory),
        }
    }

    /// The path of the user's configuration file. There is none for a user
    /// without a home directory.
    pub fn get_config_path() -> (r: Result<String, ConfigError>)
        ensures
            match r {
                Ok(path) => exists|home: Seq<char>| path@ == config_path_under(home),
                Err(e) => e@ == ConfigErrorView::NoHomeDirectory,
            },
    {
        match home_dir() {
            Some(home) => Ok(Config::config_path_in(home.as_str())),
            None => Err(ConfigError::NoHomeDirectory),
        }
    }

    /// The configuration to work with, given what the configuration file
    /// holds: `None` where there is no file. A missing file yields the
    /// defaults; a stored record is taken as it is when it is valid and
    /// refused as malformed when it is not.
    pub fn load(stored: Option<Config>) -> (r: Result<Config, ConfigError>)
        ensures
            outcome_view(r) == loaded(stored_view(stored)),
            stored matches Some(config) ==> (config.wf() ==> r == Ok::<Config, ConfigError>(
                config,
            )),
    {
        match stored {
            None => Ok(Config::default()),
            Some(config) => {
                if config.is_valid() {
                    Ok(config)
                } else {
                    Err(ConfigError::Malformed)
                }
            },
        }
    }

    /// The value stored under `key`: `network` and `template` are the keys.
    pub fn get_value(&self, key: &str) -> (r: Option<String>)
        ensures
            match r {
                Some(value) => value_of(self@, key@) == Some(value@),
                None => value_of(self@, key@) is None,
            },
    {
        if same_text(key, "network") {
            Some(self.defaults.network.clone())
        } else if same_text(key, "template") {
            Some(self.defaults.template.clone())
        } else {
            None
        }
    }

    /// Stores `value` under `key` if the key is known and the value is allowed
    /// for it. Otherwise the record stays as it was and the error says why.
    pub fn set_value(&mut self, key: &str, value: String) -> (r: Result<(), ConfigError>)
        ensures
            match r {
                Ok(_) => settable(key@, value@) && final(self)@ == assigned(
                    old(self)@,
                    key@,
                    value@,
                ),
                Err(e) => !settable(key@, value@) && *final(self) == *old(self) && e@ == refusal(
                    key@,
                    value@,
                ),
            },
            old(self).wf() ==> final(self).wf(),
    {
        if same_text(key, "network") {
            if !check_network(value.as_str()) {
                return Err(ConfigError::InvalidNetwork);
            }
            self.defaults.network = value;
        } else if same_text(key, "template") {
            if !check_template(value.as_str()) {
                return Err(ConfigError::InvalidTemplate);
            }
            self.defaults.template = value;
        } else {
            return Err(ConfigError::UnknownKey { key: key.to_owned() });
        }
        Ok(())
    }
}

} // verus!
