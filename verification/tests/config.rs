use libcli::args::{Config, OptionPolicy, OptionSpec};
use rswatch::config::{parse_interval, ConfigError, RunConfig, DEFAULT_INTERVAL_MS};

fn list(items: &[&str]) -> Vec<String> {
    items.iter().map(|s| s.to_string()).collect()
}

fn option_specs() -> Vec<OptionSpec> {
    vec![
        OptionSpec::new('\0', "(unnamed)", "paths to watch", true, OptionPolicy::AtLeast(1)),
        OptionSpec::new('h', "help", "usage", false, OptionPolicy::FinalizeIgnore()),
        OptionSpec::new('p', "print", "print changes", false, OptionPolicy::FinalizeIgnore()),
        OptionSpec::new('v', "verbose", "diagnostics", false, OptionPolicy::FinalizeIgnore()),
        OptionSpec::new('i', "interval", "milliseconds", false, OptionPolicy::Exact(1)),
        OptionSpec::new('k', "kill", "kill the child", false, OptionPolicy::Exact(0)),
        OptionSpec::new('c', "clear", "clear the screen", false, OptionPolicy::Exact(0)),
        OptionSpec::new('s', "start", "run at startup", false, OptionPolicy::Exact(0)),
        OptionSpec::new('e', "exec", "command", false, OptionPolicy::Finalize()),
    ]
}

#[test]
fn interval_is_read_as_decimal() {
    assert_eq!(parse_interval("300"), Some(300));
    assert_eq!(parse_interval("0"), Some(0));
    assert_eq!(parse_interval("007"), Some(7));
    assert_eq!(parse_interval("+15"), Some(15));
    assert_eq!(parse_interval("18446744073709551615"), Some(u64::MAX));
}

#[test]
fn interval_rejects_what_is_no_number() {
    for text in ["", "+", "-1", "1 ", " 1", "1.5", "abc", "12a", "++1", "1+", "0x10", "١٢"] {
        assert_eq!(parse_interval(text), None, "{:?}", text);
    }
}

#[test]
fn interval_rejects_numbers_beyond_64_bits() {
    assert_eq!(parse_interval("18446744073709551616"), None);
    assert_eq!(parse_interval("99999999999999999999999"), None);
    assert_eq!(parse_interval("+18446744073709551616"), None);
}

#[test]
fn interval_agrees_with_the_standard_parser() {
    let samples = [
        "", "+", "-", "0", "+0", "-0", "1", "42", "0042", "+42", "4 2", "42\n", "18446744073709551615",
        "18446744073709551616", "184467440737095516150", "00000000000000000000000001", "٣", "1e3",
        "１２", "+-1", "2147483648",
    ];
    for text in samples {
        assert_eq!(parse_interval(text), text.parse::<u64>().ok(), "{:?}", text);
    }
}

#[test]
fn resolve_takes_every_option() {
    let config = RunConfig::resolve(
        Some(list(&["src", "Cargo.toml"])),
        Some(list(&["50"])),
        Some(list(&["cargo", "check"])),
        true,
        false,
        true,
        false,
        true,
    );
    assert_eq!(
        config,
        Ok(RunConfig {
            targets: list(&["src", "Cargo.toml"]),
            interval_ms: 50,
            command: Some(list(&["cargo", "check"])),
            print: true,
            verbose: false,
            clear: true,
            kill: false,
            start: true,
        })
    );
}

#[test]
fn resolve_defaults_the_interval() {
    let config = RunConfig::resolve(Some(list(&["."])), None, None, false, false, false, false, false)
        .unwrap();
    assert_eq!(config.interval_ms, 300);
    assert_eq!(config.interval_ms, DEFAULT_INTERVAL_MS);
    assert_eq!(config.command, None);
}

#[test]
fn resolve_fails_without_targets() {
    let none = RunConfig::resolve(None, None, None, false, false, false, false, false);
    assert_eq!(none, Err(ConfigError::MissingTargets));
    let empty = RunConfig::resolve(Some(vec![]), None, None, false, false, false, false, false);
    assert_eq!(empty, Err(ConfigError::MissingTargets));
}

#[test]
fn resolve_fails_on_a_malformed_interval() {
    for bad in [list(&["fast"]), list(&[]), list(&["-3"]), list(&["x", "5"])] {
        let r = RunConfig::resolve(Some(list(&["."])), Some(bad), None, false, false, false, false, false);
        assert_eq!(r, Err(ConfigError::MalformedInterval));
    }
}

#[test]
fn resolve_reports_missing_targets_before_the_interval() {
    let r = RunConfig::resolve(None, Some(list(&["fast"])), None, false, false, false, false, false);
    assert_eq!(r, Err(ConfigError::MissingTargets));
}

#[test]
fn resolve_reads_the_first_interval_value() {
    let r = RunConfig::resolve(
        Some(list(&["."])),
        Some(list(&["20", "oops"])),
        None,
        false,
        false,
        false,
        false,
        false,
    );
    assert_eq!(r.unwrap().interval_ms, 20);
}

#[test]
fn config_errors_describe_themselves() {
    assert_eq!(
        ConfigError::MissingTargets.describe(),
        "Failed to get files or directories to watch"
    );
    assert_eq!(ConfigError::MalformedInterval.describe(), "Malformed interval, expected integer");
}

#[test]
fn parsed_command_line_becomes_a_configuration() {
    let specs = option_specs();
    let parsed = Config::new(
        &["rswatch", "src", "docs", "--interval", "75", "-k", "--start", "--exec", "echo", "{}", "--not-ours"],
        &specs,
    )
    .unwrap();
    let config = RunConfig::from_config(&parsed).unwrap();
    assert_eq!(
        config,
        RunConfig {
            targets: list(&["src", "docs"]),
            interval_ms: 75,
            command: Some(list(&["echo", "{}", "--not-ours"])),
            print: false,
            verbose: false,
            clear: false,
            kill: true,
            start: true,
        }
    );
}

#[test]
fn parsed_command_line_with_switches_only() {
    let specs = option_specs();
    let parsed = Config::new(&["rswatch", "a.txt", "--clear", "--verbose"], &specs).unwrap();
    let config = RunConfig::from_config(&parsed).unwrap();
    assert_eq!(config.targets, list(&["a.txt"]));
    assert_eq!(config.interval_ms, 300);
    assert_eq!(config.command, None);
    assert!(config.clear && config.verbose);
    assert!(!config.print && !config.kill && !config.start);
}

#[test]
fn parsed_command_line_with_bad_interval_is_refused() {
    let specs = option_specs();
    let parsed = Config::new(&["rswatch", "a.txt", "--interval", "soon"], &specs).unwrap();
    assert_eq!(RunConfig::from_config(&parsed), Err(ConfigError::MalformedInterval));
}

#[test]
fn parsed_command_line_without_targets_is_refused() {
    let specs = vec![
        OptionSpec::new('\0', "(unnamed)", "paths to watch", false, OptionPolicy::AtLeast(0)),
        OptionSpec::new('p', "print", "print changes", false, OptionPolicy::Exact(0)),
    ];
    let parsed = Config::new(&["rswatch", "--print"], &specs).unwrap();
    assert_eq!(RunConfig::from_config(&parsed), Err(ConfigError::MissingTargets));
}
