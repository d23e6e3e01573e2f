//! The `config` commands, on a configuration that was loaded: what each of
//! them answers and what it leaves to be stored.

use crate::utils::config::{assigned, default_view, loaded, refusal, settable, valid, value_of,
    Config, ConfigError, ConfigErrorView, ConfigView};
use vstd::prelude::*;

verus! {

/// The settings of a record in the order in which they are listed.
pub open spec fn listing(config: ConfigView) -> Seq<(Seq<char>, Seq<char>)> {
    seq![("network"@, config.network), ("template"@, config.template)]
}

/// What the configuration file holds after a reset: the defaults once the
/// reset was confirmed, and what it held before otherwise.
pub open spec fn after_reset(stored: Option<ConfigView>, confirmed: bool) -> Option<ConfigView> {
    if confirmed {
        Some(default_view())
    } else {
        stored
    }
}

/// The value of the setting `key`; a key that names no setting is an error.
pub fn get(config: &Config, key: &str) -> (r: Result<String, ConfigError>)
    ensures
        match r {
            Ok(value) => value_of(config@, key@) == Some(value@),
            Err(e) => value_of(config@, key@) is None && e@ == (ConfigErrorView::UnknownKey {
                key: key@,
            }),
        },
{
    match config.get_value(key) {
        Some(value) => Ok(value),
        None => Err(ConfigError::UnknownKey { key: key.to_owned() }),
    }
}

/// Changes the setting `key` to `value`, for the caller to store. A key that
/// names no setting or a value that is not allowed for it is an error, and
/// the record stays as it was.
pub fn set(config: &mut Config, key: &str, value: &str) -> (r: Result<(), ConfigError>)
    ensures
        match r {
            Ok(_) => settable(key@, value@) && final(config)@ == assigned(
                old(config)@,
                key@,
                value@,
            ),
            Err(e) => !settable(key@, value@) && *final(config) == *old(config) && e@ == refusal(
                key@,
                value@,
            ),
        },
        old(config).wf() ==> final(config).wf(),
{
    config.set_value(key, value.to_owned())
}

/// The settings with their values, in the order in which they are shown.
pub fn list(config: &Config) -> (r: Vec<(String, String)>)
    ensures
        r@.len() == 2,
        r@.map_values(|entry: (String, String)| (entry.0@, entry.1@)) == listing(config@),
{
    let mut out: Vec<(String, String)> = Vec::new();
    out.push(("network".to_owned(), config.defaults.network.clone()));
    out.push(("template".to_owned(), config.defaults.template.clone()));
    proof {
        assert(out@.map_values(|entry: (String, String)| (entry.0@, entry.1@)) =~= listing(
            config@,
        ));
    }
    out
}

/// The record to store for a reset: the defaults if the reset was confirmed,
/// nothing if it was not.
pub fn reset(confirmed: bool) -> (r: Option<Config>)
    ensures
        r is Some <==> confirmed,
        r matches Some(config) ==> config@ == default_view(),
{
    if confirmed {
        Some(Config::default())
    } else {
        None
    }
}

/// After a confirmed reset, loading yields the defaults, whatever was stored
/// before.
pub proof fn lemma_reset_then_load(stored: Option<ConfigView>)
    ensures
        loaded(after_reset(stored, true)) == Ok::<ConfigView, ConfigErrorView>(default_view()),
{
}

/// A valid record in which a setting was changed, once stored, loads as it
/// is, and holds the new value under the key.
pub proof fn lemma_set_then_load(config: ConfigView, key: Seq<char>, value: Seq<char>)
    requires
        valid(config),
        settable(key, value),
    ensures
        loaded(Some(assigned(config, key, value))) == Ok::<ConfigView, ConfigErrorView>(
            assigned(config, key, value),
        ),
        value_of(assigned(config, key, value), key) == Some(value),
{
}

} // verus!
