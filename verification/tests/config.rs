use l2_cli::utils::config::{
    check_network, check_template, Config, ConfigError, DefaultsConfig,
};

fn record(network: &str, template: &str) -> Config {
    Config {
        defaults: DefaultsConfig { network: network.to_string(), template: template.to_string() },
    }
}

#[test]
fn default_record_has_base_and_javascript() {
    let config = Config::default();
    assert_eq!(config.defaults.network, "base");
    assert_eq!(config.defaults.template, "javascript");
    assert!(config.is_valid());
}

#[test]
fn load_without_a_file_yields_the_defaults() {
    assert_eq!(Config::load(None), Ok(Config::default()));
}

#[test]
fn load_takes_a_valid_stored_record_as_it_is() {
    for network in ["base", "optimism"] {
        for template in ["javascript", "react", "nextjs"] {
            assert_eq!(
                Config::load(Some(record(network, template))),
                Ok(record(network, template))
            );
        }
    }
}

#[test]
fn load_refuses_a_stored_record_with_an_unknown_network() {
    assert_eq!(Config::load(Some(record("polygon", "react"))), Err(ConfigError::Malformed));
    assert_eq!(Config::load(Some(record("", "react"))), Err(ConfigError::Malformed));
    assert_eq!(Config::load(Some(record("Base", "react"))), Err(ConfigError::Malformed));
}

#[test]
fn load_refuses_a_stored_record_with_an_unknown_template() {
    assert_eq!(Config::load(Some(record("base", "vue"))), Err(ConfigError::Malformed));
    assert_eq!(Config::load(Some(record("base", ""))), Err(ConfigError::Malformed));
}

#[test]
fn get_value_knows_network_and_template() {
    let config = record("optimism", "react");
    assert_eq!(config.get_value("network"), Some("optimism".to_string()));
    assert_eq!(config.get_value("template"), Some("react".to_string()));
}

#[test]
fn get_value_knows_no_other_key() {
    let config = Config::default();
    assert_eq!(config.get_value("colour"), None);
    assert_eq!(config.get_value(""), None);
    assert_eq!(config.get_value("Network"), None);
    assert_eq!(config.get_value("defaults.network"), None);
}

#[test]
fn set_value_stores_an_allowed_network() {
    let mut config = Config::default();
    assert_eq!(config.set_value("network", "optimism".to_string()), Ok(()));
    assert_eq!(config, record("optimism", "javascript"));
    assert_eq!(config.set_value("network", "base".to_string()), Ok(()));
    assert_eq!(config, record("base", "javascript"));
}

#[test]
fn set_value_stores_an_allowed_template() {
    for template in ["javascript", "react", "nextjs"] {
        let mut config = Config::default();
        assert_eq!(config.set_value("template", template.to_string()), Ok(()));
        assert_eq!(config, record("base", template));
    }
}

#[test]
fn set_value_refuses_an_unknown_network_and_changes_nothing() {
    let mut config = record("optimism", "react");
    assert_eq!(
        config.set_value("network", "polygon".to_string()),
        Err(ConfigError::InvalidNetwork)
    );
    assert_eq!(config, record("optimism", "react"));
}

#[test]
fn set_value_refuses_an_unknown_template_and_changes_nothing() {
    let mut config = record("optimism", "react");
    assert_eq!(config.set_value("template", "vue".to_string()), Err(ConfigError::InvalidTemplate));
    assert_eq!(config, record("optimism", "react"));
}

#[test]
fn set_value_refuses_an_unknown_key_and_changes_nothing() {
    let mut config = record("optimism", "react");
    assert_eq!(
        config.set_value("colour", "base".to_string()),
        Err(ConfigError::UnknownKey { key: "colour".to_string() })
    );
    assert_eq!(config, record("optimism", "react"));
}

#[test]
fn set_value_does_not_take_a_network_for_a_template() {
    let mut config = Config::default();
    assert_eq!(config.set_value("template", "base".to_string()), Err(ConfigError::InvalidTemplate));
    assert_eq!(config.set_value("network", "react".to_string()), Err(ConfigError::InvalidNetwork));
    assert_eq!(config, Config::default());
}

#[test]
fn set_then_store_then_load_round_trips() {
    let mut config = Config::default();
    assert_eq!(config.set_value("network", "base".to_string()), Ok(()));
    let loaded = Config::load(Some(config.clone())).unwrap();
    assert_eq!(loaded.get_value("network"), Some("base".to_string()));
    assert_eq!(loaded, config);

    assert_eq!(config.set_value("network", "polygon".to_string()), Err(ConfigError::InvalidNetwork));
    assert_eq!(config.get_value("network"), Some("base".to_string()));
}

#[test]
fn is_valid_tells_allowed_values() {
    assert!(record("optimism", "nextjs").is_valid());
    assert!(!record("polygon", "nextjs").is_valid());
    assert!(!record("optimism", "svelte").is_valid());
}

#[test]
fn check_network_allows_base_and_optimism_only() {
    assert!(check_network("base"));
    assert!(check_network("optimism"));
    assert!(!check_network("polygon"));
    assert!(!check_network("BASE"));
    assert!(!check_network(""));
}

#[test]
fn check_template_allows_the_three_templates_only() {
    assert!(check_template("javascript"));
    assert!(check_template("react"));
    assert!(check_template("nextjs"));
    assert!(!check_template("vue"));
    assert!(!check_template(""));
}

#[test]
fn config_paths_lie_below_the_home_directory() {
    assert_eq!(Config::config_dir_in("/home/alice"), "/home/alice/.l2-cli");
    assert_eq!(Config::config_path_in("/home/alice"), "/home/alice/.l2-cli/config.toml");
    assert_eq!(Config::config_path_in(""), "/.l2-cli/config.toml");
}

#[test]
fn the_config_path_of_the_user_ends_in_the_file_name() {
    match (Config::get_config_dir(), Config::get_config_path()) {
        (Ok(dir), Ok(path)) => {
            assert!(dir.ends_with("/.l2-cli"));
            assert_eq!(path, format!("{}/config.toml", dir));
        }
        (Err(d), Err(p)) => {
            assert_eq!(d, ConfigError::NoHomeDirectory);
            assert_eq!(p, ConfigError::NoHomeDirectory);
        }
        (dir, path) => panic!("directory and path disagree: {:?} {:?}", dir, path),
    }
}

#[test]
fn config_error_messages() {
    assert_eq!(ConfigError::NoHomeDirectory.message(), "No home directory");
    assert_eq!(ConfigError::Malformed.message(), "Failed to parse config");
    assert_eq!(
        ConfigError::UnknownKey { key: "colour".to_string() }.message(),
        "Unknown key: colour"
    );
    assert_eq!(ConfigError::InvalidNetwork.message(), "Network must be base or optimism");
    assert_eq!(
        ConfigError::InvalidTemplate.message(),
        "Template must be javascript, react, or nextjs"
    );
}
