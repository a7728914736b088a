use wake_nudge::cli::{
    run_mode, parse_interval, parse_port, AgentCommand, CliError, Config, RunMode,
};
use wake_nudge::text::{decimal_string, parse_u16, parse_u64, starts_with, str_eq, trim_start_matches};

fn args(list: &[&str]) -> Vec<String> {
    list.iter().map(|s| s.to_string()).collect()
}

fn parse_err(list: &[&str]) -> String {
    Config::parse(&args(list)).unwrap_err().message
}

#[test]
fn decimal_renders_like_format() {
    for n in [0u64, 1, 9, 10, 30, 99, 100, 7878, 65535, 1234567890, u64::MAX] {
        assert_eq!(decimal_string(n), format!("{n}"));
    }
}

#[test]
fn parse_u64_follows_std() {
    for s in [
        "", "+", "-", "0", "+0", "-0", "42", "+42", "007", "12a", " 1", "1 ", "++1",
        "18446744073709551615", "18446744073709551616", "99999999999999999999999",
        "\u{663}", "1_000",
    ] {
        assert_eq!(parse_u64(s), s.parse::<u64>().ok(), "input {s:?}");
    }
}

#[test]
fn parse_u16_follows_std() {
    for s in ["0", "65535", "65536", "+80", "7878", "-1", "", "80x"] {
        assert_eq!(parse_u16(s), s.parse::<u16>().ok(), "input {s:?}");
    }
}

#[test]
fn string_helpers() {
    assert!(str_eq("--once", "--once"));
    assert!(!str_eq("--once", "--onc"));
    assert!(!str_eq("é", "e"));
    assert!(starts_with("--port=80", "--port="));
    assert!(!starts_with("--port", "--port="));
    assert_eq!(trim_start_matches("--port=--port=80", "--port="), "80");
    assert_eq!(trim_start_matches("abc", ""), "abc");
    assert_eq!(trim_start_matches("xyz", "--port="), "xyz");
}

#[test]
fn defaults_when_no_arguments() {
    let config = Config::parse(&args(&[])).unwrap();
    assert_eq!(config, Config::new());
    assert_eq!(config.interval_secs, 30);
    assert_eq!(config.port, 7878);
    assert_eq!(config.agent_command, None);
    assert!(!config.start_enabled && !config.once && !config.dry_run && !config.help);
    assert_eq!(run_mode(&config), RunMode::Controller);
}

#[test]
fn readme_example_arguments() {
    let config = Config::parse(&args(&["--interval", "30", "--port", "7878"])).unwrap();
    assert_eq!(config.interval_secs, 30);
    assert_eq!(config.port, 7878);
    let config =
        Config::parse(&args(&["--install-agent", "--start-enabled", "--interval", "30", "--port", "7878"]))
            .unwrap();
    assert_eq!(config.agent_command, Some(AgentCommand::Install));
    assert!(config.start_enabled);
}

#[test]
fn short_and_inline_forms() {
    let config = Config::parse(&args(&["-i", "5", "-p", "80", "-h"])).unwrap();
    assert_eq!((config.interval_secs, config.port, config.help), (5, 80, true));
    let config = Config::parse(&args(&["--interval=12", "--port=+9000"])).unwrap();
    assert_eq!((config.interval_secs, config.port), (12, 9000));
    let config = Config::parse(&args(&["--interval=--interval=7"])).unwrap();
    assert_eq!(config.interval_secs, 7);
}

#[test]
fn later_options_override_earlier() {
    let config = Config::parse(&args(&["--port", "1", "--port=2", "-i", "3", "--interval", "4"])).unwrap();
    assert_eq!((config.port, config.interval_secs), (2, 4));
}

#[test]
fn every_flag() {
    let config = Config::parse(&args(&["--once", "--dry-run", "--start-enabled", "--help"])).unwrap();
    assert!(config.once && config.dry_run && config.start_enabled && config.help);
    for (flag, command) in [
        ("--install-agent", AgentCommand::Install),
        ("--uninstall-agent", AgentCommand::Uninstall),
        ("--start-agent", AgentCommand::Start),
        ("--stop-agent", AgentCommand::Stop),
        ("--agent-status", AgentCommand::Status),
    ] {
        let config = Config::parse(&args(&[flag])).unwrap();
        assert_eq!(config.agent_command, Some(command));
        assert_eq!(run_mode(&config), RunMode::Agent(command));
    }
}

#[test]
fn errors_name_the_problem() {
    assert_eq!(parse_err(&["--interval"]), "--interval requires a value in seconds");
    assert_eq!(parse_err(&["-i"]), "--interval requires a value in seconds");
    assert_eq!(parse_err(&["--port"]), "--port requires a value");
    assert_eq!(parse_err(&["-p"]), "--port requires a value");
    assert_eq!(parse_err(&["--interval", "0"]), "interval must be at least 1 second");
    assert_eq!(parse_err(&["--interval=0"]), "interval must be at least 1 second");
    assert_eq!(
        parse_err(&["--interval", "ten"]),
        "interval must be a positive whole number of seconds"
    );
    assert_eq!(parse_err(&["--interval="]), "interval must be a positive whole number of seconds");
    assert_eq!(parse_err(&["--interval", "-5"]), "interval must be a positive whole number of seconds");
    assert_eq!(parse_err(&["--port", "65536"]), "port must be a number from 0 to 65535");
    assert_eq!(parse_err(&["--port=x"]), "port must be a number from 0 to 65535");
    assert_eq!(parse_err(&["--bogus"]), "unknown argument: --bogus");
    assert_eq!(parse_err(&["--port", "80", "extra"]), "unknown argument: extra");
    assert_eq!(
        parse_err(&["--start-agent", "--stop-agent"]),
        "only one agent command can be used at a time"
    );
}

#[test]
fn first_error_wins() {
    assert_eq!(parse_err(&["--bogus", "--port"]), "unknown argument: --bogus");
    assert_eq!(parse_err(&["--port", "x", "--bogus"]), "port must be a number from 0 to 65535");
}

#[test]
fn interval_and_port_parsers() {
    assert_eq!(parse_interval("1").unwrap(), 1);
    assert_eq!(parse_interval("0").unwrap_err().message, "interval must be at least 1 second");
    assert_eq!(
        parse_interval("1.5").unwrap_err().message,
        "interval must be a positive whole number of seconds"
    );
    assert_eq!(parse_port("0").unwrap(), 0);
    assert_eq!(parse_port("65535").unwrap(), 65535);
    assert_eq!(parse_port("").unwrap_err().message, "port must be a number from 0 to 65535");
}

#[test]
fn one_agent_command_at_a_time() {
    let mut config = Config::new();
    assert!(config.set_agent_command(AgentCommand::Start).is_ok());
    let before = config;
    let err = config.set_agent_command(AgentCommand::Stop).unwrap_err();
    assert_eq!(err.message, "only one agent command can be used at a time");
    assert_eq!(config, before);
    assert_eq!(config.agent_command, Some(AgentCommand::Start));
}

#[test]
fn cli_error_keeps_its_message() {
    let err = CliError::new("HOME is not set");
    assert_eq!(err.message, "HOME is not set");
}

#[test]
fn run_mode_precedence() {
    let mut config = Config::new();
    config.once = true;
    assert_eq!(run_mode(&config), RunMode::Once);
    config.agent_command = Some(AgentCommand::Status);
    assert_eq!(run_mode(&config), RunMode::Agent(AgentCommand::Status));
    config.dry_run = true;
    assert_eq!(run_mode(&config), RunMode::DryRun);
    config.help = true;
    assert_eq!(run_mode(&config), RunMode::Help);
}
