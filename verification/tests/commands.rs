use l2_cli::commands::config::{get, list, reset};
use l2_cli::commands::doctor::{
    check_cargo, check_node, check_rust, passed, print_check, CheckLine, Checks, Hint, Probe,
    ProbeOutcome, Verdict,
};
use l2_cli::utils::config::{Config, ConfigError, DefaultsConfig};

fn record(network: &str, template: &str) -> Config {
    Config {
        defaults: DefaultsConfig { network: network.to_string(), template: template.to_string() },
    }
}

fn checks(rust: bool, cargo: bool, node: bool, config: bool) -> Checks {
    Checks { rust, cargo, node, config }
}

#[test]
fn get_answers_with_the_value() {
    let config = record("optimism", "nextjs");
    assert_eq!(get(&config, "network"), Ok("optimism".to_string()));
    assert_eq!(get(&config, "template"), Ok("nextjs".to_string()));
}

#[test]
fn get_refuses_an_unknown_key() {
    let config = Config::default();
    assert_eq!(get(&config, "colour"), Err(ConfigError::UnknownKey { key: "colour".to_string() }));
}

#[test]
fn set_changes_the_record() {
    let mut config = Config::default();
    assert_eq!(l2_cli::commands::config::set(&mut config, "template", "react"), Ok(()));
    assert_eq!(config, record("base", "react"));
}

#[test]
fn set_refuses_what_set_value_refuses() {
    let mut config = Config::default();
    assert_eq!(l2_cli::commands::config::set(&mut config, "network", "polygon"), Err(ConfigError::InvalidNetwork));
    assert_eq!(l2_cli::commands::config::set(&mut config, "template", "vue"), Err(ConfigError::InvalidTemplate));
    assert_eq!(
        l2_cli::commands::config::set(&mut config, "theme", "dark"),
        Err(ConfigError::UnknownKey { key: "theme".to_string() })
    );
    assert_eq!(config, Config::default());
}

#[test]
fn list_shows_network_then_template() {
    assert_eq!(
        list(&record("optimism", "react")),
        vec![
            ("network".to_string(), "optimism".to_string()),
            ("template".to_string(), "react".to_string()),
        ]
    );
}

#[test]
fn reset_stores_the_defaults_once_confirmed() {
    assert_eq!(reset(true), Some(Config::default()));
}

#[test]
fn reset_stores_nothing_when_declined() {
    assert_eq!(reset(false), None);
}

#[test]
fn reset_then_load_yields_the_defaults() {
    // whatever was stored before, the file now holds what `reset` handed out
    let stored = reset(true);
    assert_eq!(Config::load(stored), Ok(Config::default()));
}

#[test]
fn probes_ask_for_the_version() {
    assert_eq!(check_rust(), Probe { program: "rustc", argument: "--version" });
    assert_eq!(check_cargo(), Probe { program: "cargo", argument: "--version" });
    assert_eq!(check_node(), Probe { program: "node", argument: "--version" });
}

#[test]
fn a_probe_passes_only_on_a_successful_exit() {
    assert!(passed(ProbeOutcome::Exited { success: true }));
    assert!(!passed(ProbeOutcome::Exited { success: false }));
    assert!(!passed(ProbeOutcome::NotStarted));
}

#[test]
fn doctor_passes_when_all_tools_are_there() {
    let report = l2_cli::commands::doctor::run(checks(true, true, true, true));
    assert_eq!(report.verdict, Verdict::AllPassed);
    assert_eq!(
        report.lines,
        vec![
            CheckLine { label: "Rust compiler", passed: true, hint: None },
            CheckLine { label: "Cargo package manager", passed: true, hint: None },
            CheckLine { label: "Node.js runtime", passed: true, hint: None },
            CheckLine { label: "Configuration file", passed: true, hint: None },
        ]
    );
}

#[test]
fn doctor_is_ready_without_node() {
    let report = l2_cli::commands::doctor::run(checks(true, true, false, true));
    assert_eq!(report.verdict, Verdict::CoreReady);
    assert_eq!(
        report.lines[2],
        CheckLine { label: "Node.js runtime", passed: false, hint: Some(Hint::NodeRecommended) }
    );
}

#[test]
fn doctor_warns_without_the_compiler_or_cargo() {
    for node in [false, true] {
        for config in [false, true] {
            for (rust, cargo) in [(false, true), (true, false), (false, false)] {
                let report = l2_cli::commands::doctor::run(checks(rust, cargo, node, config));
                assert_eq!(report.verdict, Verdict::SomeFailed);
                assert_eq!(report.lines[0].passed, rust);
                assert_eq!(report.lines[1].passed, cargo);
            }
        }
    }
}

#[test]
fn doctor_does_not_count_the_configuration_file() {
    let report = l2_cli::commands::doctor::run(checks(true, true, true, false));
    assert_eq!(report.verdict, Verdict::AllPassed);
    assert_eq!(
        report.lines[3],
        CheckLine {
            label: "Configuration file",
            passed: false,
            hint: Some(Hint::ConfigOnFirstUse)
        }
    );
}

#[test]
fn doctor_always_reports_four_lines() {
    for bits in 0..16 {
        let report = l2_cli::commands::doctor::run(checks(
            bits & 1 != 0,
            bits & 2 != 0,
            bits & 4 != 0,
            bits & 8 != 0,
        ));
        assert_eq!(report.lines.len(), 4);
    }
}

#[test]
fn print_check_formats_a_line() {
    assert_eq!(print_check("Rust compiler", true), "  Rust compiler ... [PASS]");
    assert_eq!(print_check("Node.js runtime", false), "  Node.js runtime ... [FAIL]");
    assert_eq!(print_check("", true), "   ... [PASS]");
}

#[test]
fn verdict_and_hint_messages() {
    assert_eq!(Verdict::AllPassed.message(), "All checks passed!");
    assert_eq!(Verdict::CoreReady.message(), "Core environment ready");
    assert_eq!(Verdict::SomeFailed.message(), "Some checks failed");
    assert_eq!(Hint::NodeRecommended.message(), "Node.js 18+ recommended");
    assert_eq!(Hint::ConfigOnFirstUse.message(), "Config created on first use");
}
