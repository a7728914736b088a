//! Command-line options: the configuration they build and what a run does.
use vstd::prelude::*;
use crate::text::{
    decimal, decimal_string, has_prefix, parse_u16, parse_u64, parse_unsigned, str_eq,
    starts_with, trim_leading, trim_start_matches,
};

verus! {

/// Seconds between nudges unless `--interval` says otherwise.
pub const DEFAULT_INTERVAL_SECS: u64 = 30;

/// Port of the local control page unless `--port` says otherwise.
pub const DEFAULT_PORT: u16 = 7878;

pub const MSG_INTERVAL_NEEDS_VALUE: &'static str = "--interval requires a value in seconds";
pub const MSG_PORT_NEEDS_VALUE: &'static str = "--port requires a value";
pub const MSG_INTERVAL_NOT_NUMBER: &'static str = "interval must be a positive whole number of seconds";
pub const MSG_INTERVAL_ZERO: &'static str = "interval must be at least 1 second";
pub const MSG_PORT_NOT_NUMBER: &'static str = "port must be a number from 0 to 65535";
pub const MSG_ONE_AGENT_COMMAND: &'static str = "only one agent command can be used at a time";
pub const MSG_UNKNOWN_ARGUMENT: &'static str = "unknown argument: ";

/// An action on the login agent that runs the controller.
#[derive(Clone, Copy, Debug, PartialEq, Eq, Structural)]
pub enum AgentCommand {
    Install,
    Uninstall,
    Start,
    Stop,
    Status,
}

/// What the command line asked for.
#[derive(Clone, Copy, Debug, PartialEq, Eq, Structural)]
pub struct Config {
    /// Whole seconds between two nudges while enabled.
    pub interval_secs: u64,
    pub port: u16,
    pub agent_command: Option<AgentCommand>,
    pub start_enabled: bool,
    pub once: bool,
    pub dry_run: bool,
    pub help: bool,
}

/// A command-line error, with the text shown to the user.
#[derive(Debug)]
pub struct CliError {
    pub message: String,
}

impl CliError {
    /// An error that reads `message`.
    pub fn new(message: &str) -> (r: CliError)
        ensures
            r.message@ == message@,
    {
        CliError { message: String::from_str(message) }
    }
}

/// A result with its error taken as the text it shows.
pub open spec fn err_text<T>(r: Result<T, CliError>) -> Result<T, Seq<char>> {
    match r {
        Ok(v) => Ok(v),
        Err(e) => Err(e.message@),
    }
}

/// The configuration before any argument is read.
pub open spec fn default_config() -> Config {
    Config {
        interval_secs: DEFAULT_INTERVAL_SECS,
        port: DEFAULT_PORT,
        agent_command: None,
        start_enabled: false,
        once: false,
        dry_run: false,
        help: false,
    }
}

/// What an interval argument yields: its whole seconds, at least one.
pub open spec fn interval_value(v: Seq<char>) -> Result<u64, Seq<char>> {
    match parse_unsigned(v, u64::MAX as nat) {
        None => Err(MSG_INTERVAL_NOT_NUMBER@),
        Some(n) => if n == 0 {
            Err(MSG_INTERVAL_ZERO@)
        } else {
            Ok(n as u64)
        },
    }
}

/// What a port argument yields.
pub open spec fn port_value(v: Seq<char>) -> Result<u16, Seq<char>> {
    match parse_unsigned(v, u16::MAX as nat) {
        None => Err(MSG_PORT_NOT_NUMBER@),
        Some(n) => Ok(n as u16),
    }
}

/// `cfg` with an agent command recorded; only one may be given.
pub open spec fn with_agent_command(cfg: Config, command: AgentCommand) -> Result<
    Config,
    Seq<char>,
> {
    if cfg.agent_command is Some {
        Err(MSG_ONE_AGENT_COMMAND@)
    } else {
        Ok(Config { agent_command: Some(command), ..cfg })
    }
}

/// The agent command that a flag names, if it names one.
pub open spec fn agent_flag(a: Seq<char>) -> Option<AgentCommand> {
    if a == "--install-agent"@ {
        Some(AgentCommand::Install)
    } else if a == "--uninstall-agent"@ {
        Some(AgentCommand::Uninstall)
    } else if a == "--start-agent"@ {
        Some(AgentCommand::Start)
    } else if a == "--stop-agent"@ {
        Some(AgentCommand::Stop)
    } else if a == "--agent-status"@ {
        Some(AgentCommand::Status)
    } else {
        None
    }
}

/// Reads `args` from left to right into `cfg`; a later option overrides an
/// earlier one, and the first bad argument ends the reading with its error.
pub open spec fn parse_args_from(cfg: Config, args: Seq<Seq<char>>) -> Result<Config, Seq<char>>
    decreases args.len(),
{
    if args.len() == 0 {
        Ok(cfg)
    } else {
        let a = args[0];
        let rest = args.drop_first();
        if a == "-h"@ || a == "--help"@ {
            parse_args_from(Config { help: true, ..cfg }, rest)
        } else if a == "--once"@ {
            parse_args_from(Config { once: true, ..cfg }, rest)
        } else if a == "--dry-run"@ {
            parse_args_from(Config { dry_run: true, ..cfg }, rest)
        } else if a == "--start-enabled"@ {
            parse_args_from(Config { start_enabled: true, ..cfg }, rest)
        } else if agent_flag(a) is Some {
            match with_agent_command(cfg, agent_flag(a)->0) {
                Ok(c) => parse_args_from(c, rest),
                Err(m) => Err(m),
            }
        } else if a == "-i"@ || a == "--interval"@ {
            if rest.len() == 0 {
                Err(MSG_INTERVAL_NEEDS_VALUE@)
            } else {
                match interval_value(rest[0]) {
                    Ok(v) => parse_args_from(Config { interval_secs: v, ..cfg }, rest.drop_first()),
                    Err(m) => Err(m),
                }
            }
        } else if a == "-p"@ || a == "--port"@ {
            if rest.len() == 0 {
                Err(MSG_PORT_NEEDS_VALUE@)
            } else {
                match port_value(rest[0]) {
                    Ok(v) => parse_args_from(Config { port: v, ..cfg }, rest.drop_first()),
                    Err(m) => Err(m),
                }
            }
        } else if has_prefix(a, "--interval="@) {
            match interval_value(trim_leading(a, "--interval="@)) {
                Ok(v) => parse_args_from(Config { interval_secs: v, ..cfg }, rest),
                Err(m) => Err(m),
            }
        } else if has_prefix(a, "--port="@) {
            match port_value(trim_leading(a, "--port="@)) {
                Ok(v) => parse_args_from(Config { port: v, ..cfg }, rest),
                Err(m) => Err(m),
            }
        } else {
            Err(MSG_UNKNOWN_ARGUMENT@ + a)
        }
    }
}

/// The text of each argument.
pub open spec fn arg_texts(args: Seq<String>) -> Seq<Seq<char>> {
    args.map_values(|s: String| s@)
}

/// Parses an interval in whole seconds; zero is refused.
pub fn parse_interval(value: &str) -> (r: Result<u64, CliError>)
    ensures
        err_text(r) == interval_value(value@),
{
    match parse_u64(value) {
        None => Err(CliError::new(MSG_INTERVAL_NOT_NUMBER)),
        Some(seconds) => {
            if seconds == 0 {
                Err(CliError::new(MSG_INTERVAL_ZERO))
            } else {
                Ok(seconds)
            }
        },
    }
}

/// Parses a port number from 0 to 65535.
pub fn parse_port(value: &str) -> (r: Result<u16, CliError>)
    ensures
        err_text(r) == port_value(value@),
{
    match parse_u16(value) {
        None => Err(CliError::new(MSG_PORT_NOT_NUMBER)),
        Some(port) => Ok(port),
    }
}

impl Config {
    /// The configuration before any argument is read: a 30-second interval,
    /// port 7878, no agent command, every flag off.
    pub fn new() -> (r: Config)
        ensures
            r == default_config(),
    {
        Config {
            interval_secs: DEFAULT_INTERVAL_SECS,
            port: DEFAULT_PORT,
            agent_command: None,
            start_enabled: false,
            once: false,
            dry_run: false,
            help: false,
        }
    }

    /// Records an agent command; a second one is refused and leaves the
    /// configuration as it was.
    pub fn set_agent_command(&mut self, command: AgentCommand) -> (r: Result<(), CliError>)
        ensures
            match with_agent_command(*old(self), command) {
                Ok(c) => r is Ok && *final(self) == c,
                Err(m) => *final(self) == *old(self) && err_text(r) == Err::<(), Seq<char>>(m),
            },
    {
        if self.agent_command.is_some() {
            return Err(CliError::new(MSG_ONE_AGENT_COMMAND));
        }
        self.agent_command = Some(command);
        Ok(())
    }

    /// Reads the command-line arguments (without the program name).
    pub fn parse(args: &Vec<String>) -> (r: Result<Config, CliError>)
        ensures
            err_text(r) == parse_args_from(default_config(), arg_texts(args@)),
    {
        let ghost all = arg_texts(args@);
        let mut config = Config::new();
        let n = args.len();
        let mut i: usize = 0;
        assert(all.skip(0) =~= all);
        while i < n
            invariant
                n == args@.len(),
                all == arg_texts(args@),
                i <= n,
                parse_args_from(config, all.skip(i as int)) == parse_args_from(
                    default_config(),
                    all,
                ),
            decreases n - i,
        {
            let ghost rest = all.skip(i as int);
            assert(rest.len() > 0);
            assert(rest[0] == args@[i as int]@);
            assert(rest.drop_first() =~= all.skip(i + 1));
            let arg = args[i].as_str();
            if str_eq(arg, "-h") || str_eq(arg, "--help") {
                config.help = true;
            } else if str_eq(arg, "--once") {
                config.once = true;
            } else if str_eq(arg, "--dry-run") {
                config.dry_run = true;
            } else if str_eq(arg, "--start-enabled") {
                config.start_enabled = true;
            } else if str_eq(arg, "--install-agent") {
                config.set_agent_command(AgentCommand::Install)?;
            } else if str_eq(arg, "--uninstall-agent") {
                config.set_agent_command(AgentCommand::Uninstall)?;
            } else if str_eq(arg, "--start-agent") {
                config.set_agent_command(AgentCommand::Start)?;
            } else if str_eq(arg, "--stop-agent") {
                config.set_agent_command(AgentCommand::Stop)?;
            } else if str_eq(arg, "--agent-status") {
                config.set_agent_command(AgentCommand::Status)?;
            } else if str_eq(arg, "-i") || str_eq(arg, "--interval") {
                if i + 1 >= n {
                    return Err(CliError::new(MSG_INTERVAL_NEEDS_VALUE));
                }
                assert(rest.drop_first()[0] == args@[i + 1]@);
                assert(rest.drop_first().drop_first() =~= all.skip(i + 2));
                i = i + 1;
                config.interval_secs = parse_interval(args[i].as_str())?;
            } else if str_eq(arg, "-p") || str_eq(arg, "--port") {
                if i + 1 >= n {
                    return Err(CliError::new(MSG_PORT_NEEDS_VALUE));
                }
                assert(rest.drop_first()[0] == args@[i + 1]@);
                assert(rest.drop_first().drop_first() =~= all.skip(i + 2));
                i = i + 1;
                config.port = parse_port(args[i].as_str())?;
            } else if starts_with(arg, "--interval=") {
                let value = trim_start_matches(arg, "--interval=");
                config.interval_secs = parse_interval(value)?;
            } else if starts_with(arg, "--port=") {
                let value = trim_start_matches(arg, "--port=");
                config.port = parse_port(value)?;
            } else {
                let mut message = String::from_str(MSG_UNKNOWN_ARGUMENT);
                message.append(arg);
                return Err(CliError { message });
            }
            i = i + 1;
        }
        assert(all.skip(n as int) =~= Seq::<Seq<char>>::empty());
        Ok(config)
    }
}

/// What a run of the program does, in order of precedence.
#[derive(Clone, Copy, Debug, PartialEq, Eq, Structural)]
pub enum RunMode {
    Help,
    DryRun,
    Agent(AgentCommand),
    Once,
    Controller,
}

/// The mode that `cfg` selects: help first, then a dry run, then an agent
/// command, then a single nudge, and otherwise the controller.
pub open spec fn mode_of(cfg: Config) -> RunMode {
    if cfg.help {
        RunMode::Help
    } else if cfg.dry_run {
        RunMode::DryRun
    } else if cfg.agent_command is Some {
        RunMode::Agent(cfg.agent_command->0)
    } else if cfg.once {
        RunMode::Once
    } else {
        RunMode::Controller
    }
}

/// Chooses what a run with `config` does.
pub fn run_mode(config: &Config) -> (r: RunMode)
    ensures
        r == mode_of(*config),
{
    if config.help {
        RunMode::Help
    } else if config.dry_run {
        RunMode::DryRun
    } else if let Some(command) = config.agent_command {
        RunMode::Agent(command)
    } else if config.once {
        RunMode::Once
    } else {
        RunMode::Controller
    }
}

/// Reading arguments never leaves a zero interval: starting from a
/// configuration whose interval is at least one second, whatever is read
/// keeps it so.
pub proof fn parsed_interval_is_positive_from(cfg: Config, args: Seq<Seq<char>>)
    requires
        cfg.interval_secs >= 1,
    ensures
        parse_args_from(cfg, args) matches Ok(c) ==> c.interval_secs >= 1,
    decreases args.len(),
{
    if args.len() > 0 {
        let a = args[0];
        let rest = args.drop_first();
        parsed_interval_is_positive_from(Config { help: true, ..cfg }, rest);
        parsed_interval_is_positive_from(Config { once: true, ..cfg }, rest);
        parsed_interval_is_positive_from(Config { dry_run: true, ..cfg }, rest);
        parsed_interval_is_positive_from(Config { start_enabled: true, ..cfg }, rest);
        if agent_flag(a) is Some {
            if let Ok(c) = with_agent_command(cfg, agent_flag(a)->0) {
                parsed_interval_is_positive_from(c, rest);
            }
        }
        if rest.len() > 0 {
            if let Ok(v) = interval_value(rest[0]) {
                parsed_interval_is_positive_from(Config { interval_secs: v, ..cfg }, rest.drop_first());
            }
            if let Ok(v) = port_value(rest[0]) {
                parsed_interval_is_positive_from(Config { port: v, ..cfg }, rest.drop_first());
            }
        }
        if let Ok(v) = interval_value(trim_leading(a, "--interval="@)) {
            parsed_interval_is_positive_from(Config { interval_secs: v, ..cfg }, rest);
        }
        if let Ok(v) = port_value(trim_leading(a, "--port="@)) {
            parsed_interval_is_positive_from(Config { port: v, ..cfg }, rest);
        }
    }
}

/// Whatever the command line, a configuration that is read has an interval
/// of at least one second.
pub proof fn parsed_interval_is_positive(args: Seq<Seq<char>>)
    ensures
        parse_args_from(default_config(), args) matches Ok(c) ==> c.interval_secs >= 1,
{
    parsed_interval_is_positive_from(default_config(), args);
}

/// With no arguments the program runs the controller with the simulation
/// off, every 30 seconds, on port 7878: nothing moves until Start is pressed.
pub proof fn no_arguments_start_off()
    ensures
        parse_args_from(default_config(), Seq::empty()) == Ok::<Config, Seq<char>>(default_config()),
        !default_config().start_enabled,
        mode_of(default_config()) == RunMode::Controller,
        default_config().interval_secs == 30,
        default_config().port == 7878,
{
}

/// The characters of every option the command line knows.
pub proof fn option_texts()
    ensures
        "-h"@ == seq!['-', 'h'],
        "--help"@ == seq!['-', '-', 'h', 'e', 'l', 'p'],
        "--once"@ == seq!['-', '-', 'o', 'n', 'c', 'e'],
        "--dry-run"@ == seq!['-', '-', 'd', 'r', 'y', '-', 'r', 'u', 'n'],
        "--start-enabled"@ == seq!['-', '-', 's', 't', 'a', 'r', 't', '-', 'e', 'n', 'a', 'b', 'l', 'e', 'd'],
        "--install-agent"@ == seq!['-', '-', 'i', 'n', 's', 't', 'a', 'l', 'l', '-', 'a', 'g', 'e', 'n', 't'],
        "--uninstall-agent"@ == seq!['-', '-', 'u', 'n', 'i', 'n', 's', 't', 'a', 'l', 'l', '-', 'a', 'g', 'e', 'n', 't'],
        "--start-agent"@ == seq!['-', '-', 's', 't', 'a', 'r', 't', '-', 'a', 'g', 'e', 'n', 't'],
        "--stop-agent"@ == seq!['-', '-', 's', 't', 'o', 'p', '-', 'a', 'g', 'e', 'n', 't'],
        "--agent-status"@ == seq!['-', '-', 'a', 'g', 'e', 'n', 't', '-', 's', 't', 'a', 't', 'u', 's'],
        "-i"@ == seq!['-', 'i'],
        "--interval"@ == seq!['-', '-', 'i', 'n', 't', 'e', 'r', 'v', 'a', 'l'],
        "-p"@ == seq!['-', 'p'],
        "--port"@ == seq!['-', '-', 'p', 'o', 'r', 't'],
        "--interval="@ == seq!['-', '-', 'i', 'n', 't', 'e', 'r', 'v', 'a', 'l', '='],
        "--port="@ == seq!['-', '-', 'p', 'o', 'r', 't', '='],
{
    reveal_strlit("-h");
    assert("-h"@ =~= seq!['-', 'h']);
    reveal_strlit("--help");
    assert("--help"@ =~= seq!['-', '-', 'h', 'e', 'l', 'p']);
    reveal_strlit("--once");
    assert("--once"@ =~= seq!['-', '-', 'o', 'n', 'c', 'e']);
    reveal_strlit("--dry-run");
    assert("--dry-run"@ =~= seq!['-', '-', 'd', 'r', 'y', '-', 'r', 'u', 'n']);
    reveal_strlit("--start-enabled");
    assert("--start-enabled"@ =~= seq!['-', '-', 's', 't', 'a', 'r', 't', '-', 'e', 'n', 'a', 'b', 'l', 'e', 'd']);
    reveal_strlit("--install-agent");
    assert("--install-agent"@ =~= seq!['-', '-', 'i', 'n', 's', 't', 'a', 'l', 'l', '-', 'a', 'g', 'e', 'n', 't']);
    reveal_strlit("--uninstall-agent");
    assert("--uninstall-agent"@ =~= seq!['-', '-', 'u', 'n', 'i', 'n', 's', 't', 'a', 'l', 'l', '-', 'a', 'g', 'e', 'n', 't']);
    reveal_strlit("--start-agent");
    assert("--start-agent"@ =~= seq!['-', '-', 's', 't', 'a', 'r', 't', '-', 'a', 'g', 'e', 'n', 't']);
    reveal_strlit("--stop-agent");
    assert("--stop-agent"@ =~= seq!['-', '-', 's', 't', 'o', 'p', '-', 'a', 'g', 'e', 'n', 't']);
    reveal_strlit("--agent-status");
    assert("--agent-status"@ =~= seq!['-', '-', 'a', 'g', 'e', 'n', 't', '-', 's', 't', 'a', 't', 'u', 's']);
    reveal_strlit("-i");
    assert("-i"@ =~= seq!['-', 'i']);
    reveal_strlit("--interval");
    assert("--interval"@ =~= seq!['-', '-', 'i', 'n', 't', 'e', 'r', 'v', 'a', 'l']);
    reveal_strlit("-p");
    assert("-p"@ =~= seq!['-', 'p']);
    reveal_strlit("--port");
    assert("--port"@ =~= seq!['-', '-', 'p', 'o', 'r', 't']);
    reveal_strlit("--interval=");
    assert("--interval="@ =~= seq!['-', '-', 'i', 'n', 't', 'e', 'r', 'v', 'a', 'l', '=']);
    reveal_strlit("--port=");
    assert("--port="@ =~= seq!['-', '-', 'p', 'o', 'r', 't', '=']);
}

/// Help comes before everything: whatever else is set, a configuration that
/// asks for help runs help, and nothing but help does.
pub proof fn help_wins(cfg: Config)
    ensures
        cfg.help ==> mode_of(cfg) == RunMode::Help,
        mode_of(cfg) == RunMode::Help ==> cfg.help,
{
}

/// Without help, a dry run comes before an agent command, an agent command
/// before a single nudge, and the controller runs only when none is asked.
pub proof fn modes_in_order(cfg: Config)
    ensures
        !cfg.help && cfg.dry_run ==> mode_of(cfg) == RunMode::DryRun,
        !cfg.help && !cfg.dry_run && cfg.agent_command is Some ==> mode_of(cfg) == RunMode::Agent(
            cfg.agent_command->0,
        ),
        !cfg.help && !cfg.dry_run && cfg.agent_command is None && cfg.once ==> mode_of(cfg)
            == RunMode::Once,
        mode_of(cfg) == RunMode::Controller <==> (!cfg.help && !cfg.dry_run
            && cfg.agent_command is None && !cfg.once),
{
}

/// `--help` on its own gives the default configuration with help set, and
/// that runs help.
pub proof fn help_flag_runs_help()
    ensures
        parse_args_from(default_config(), seq!["--help"@]) == Ok::<Config, Seq<char>>(
            Config { help: true, ..default_config() },
        ),
        mode_of(Config { help: true, ..default_config() }) == RunMode::Help,
{
    flag_sets_only_its_field(default_config(), Seq::empty());
    assert(seq!["--help"@] + Seq::<Seq<char>>::empty() =~= seq!["--help"@]);
}

/// `--once` on its own gives the default configuration with only `once`
/// set: no dry run, no agent command, and it runs a single nudge.
pub proof fn once_flag_runs_once()
    ensures
        parse_args_from(default_config(), seq!["--once"@]) == Ok::<Config, Seq<char>>(
            Config { once: true, ..default_config() },
        ),
        mode_of(Config { once: true, ..default_config() }) == RunMode::Once,
{
    flag_sets_only_its_field(default_config(), Seq::empty());
    assert(seq!["--once"@] + Seq::<Seq<char>>::empty() =~= seq!["--once"@]);
}

proof fn lemma_front(a: Seq<char>, rest: Seq<Seq<char>>)
    ensures
        (seq![a] + rest)[0] == a,
        (seq![a] + rest).drop_first() == rest,
        (seq![a] + rest).len() == rest.len() + 1,
{
    assert((seq![a] + rest).drop_first() =~= rest);
}

/// A flag sets its own field and no other; the rest of the command line is
/// read on from there.
pub proof fn flag_sets_only_its_field(cfg: Config, rest: Seq<Seq<char>>)
    ensures
        parse_args_from(cfg, seq!["-h"@] + rest) == parse_args_from(Config { help: true, ..cfg }, rest),
        parse_args_from(cfg, seq!["--help"@] + rest) == parse_args_from(
            Config { help: true, ..cfg },
            rest,
        ),
        parse_args_from(cfg, seq!["--once"@] + rest) == parse_args_from(
            Config { once: true, ..cfg },
            rest,
        ),
        parse_args_from(cfg, seq!["--dry-run"@] + rest) == parse_args_from(
            Config { dry_run: true, ..cfg },
            rest,
        ),
        parse_args_from(cfg, seq!["--start-enabled"@] + rest) == parse_args_from(
            Config { start_enabled: true, ..cfg },
            rest,
        ),
{
    option_texts();
    lemma_front("-h"@, rest);
    lemma_front("--help"@, rest);
    lemma_front("--once"@, rest);
    lemma_front("--dry-run"@, rest);
    lemma_front("--start-enabled"@, rest);
    assert("--once"@[2] != "--help"@[2]);
    assert("--start-enabled"@ != "--install-agent"@) by {
        assert("--start-enabled"@[4] != "--install-agent"@[4]);
    }
}

/// The result of an agent flag: the command is recorded, unless one already
/// is, which is refused.
pub open spec fn agent_flag_result(cfg: Config, command: AgentCommand, rest: Seq<Seq<char>>) -> Result<
    Config,
    Seq<char>,
> {
    if cfg.agent_command is Some {
        Err(MSG_ONE_AGENT_COMMAND@)
    } else {
        parse_args_from(Config { agent_command: Some(command), ..cfg }, rest)
    }
}

/// An agent flag records its command and changes nothing else; a second
/// agent command is refused with its message.
pub proof fn agent_flag_sets_only_the_command(cfg: Config, rest: Seq<Seq<char>>)
    ensures
        parse_args_from(cfg, seq!["--install-agent"@] + rest) == agent_flag_result(
            cfg,
            AgentCommand::Install,
            rest,
        ),
        parse_args_from(cfg, seq!["--uninstall-agent"@] + rest) == agent_flag_result(
            cfg,
            AgentCommand::Uninstall,
            rest,
        ),
        parse_args_from(cfg, seq!["--start-agent"@] + rest) == agent_flag_result(
            cfg,
            AgentCommand::Start,
            rest,
        ),
        parse_args_from(cfg, seq!["--stop-agent"@] + rest) == agent_flag_result(
            cfg,
            AgentCommand::Stop,
            rest,
        ),
        parse_args_from(cfg, seq!["--agent-status"@] + rest) == agent_flag_result(
            cfg,
            AgentCommand::Status,
            rest,
        ),
{
    option_texts();
    lemma_front("--install-agent"@, rest);
    lemma_front("--uninstall-agent"@, rest);
    lemma_front("--start-agent"@, rest);
    lemma_front("--stop-agent"@, rest);
    lemma_front("--agent-status"@, rest);
    assert("--start-enabled"@ != "--install-agent"@) by {
        assert("--start-enabled"@[4] != "--install-agent"@[4]);
    }
}

/// An interval value: a whole number of seconds, at least one, read as an
/// unsigned number is read.
pub proof fn interval_values(v: Seq<char>)
    ensures
        parse_unsigned(v, u64::MAX as nat) matches Some(n) ==> (n >= 1 ==> interval_value(v)
            == Ok::<u64, Seq<char>>(n as u64)),
        parse_unsigned(v, u64::MAX as nat) == Some(0nat) ==> interval_value(v) == Err::<
            u64,
            Seq<char>,
        >(MSG_INTERVAL_ZERO@),
        parse_unsigned(v, u64::MAX as nat) is None ==> interval_value(v) == Err::<u64, Seq<char>>(
            MSG_INTERVAL_NOT_NUMBER@,
        ),
        interval_value(v) matches Ok(n) ==> n >= 1,
{
}

/// A port value: a number from 0 to 65535, read as an unsigned number is read.
pub proof fn port_values(v: Seq<char>)
    ensures
        parse_unsigned(v, u16::MAX as nat) matches Some(n) ==> port_value(v) == Ok::<u16, Seq<char>>(
            n as u16,
        ),
        parse_unsigned(v, u16::MAX as nat) is None ==> port_value(v) == Err::<u16, Seq<char>>(
            MSG_PORT_NOT_NUMBER@,
        ),
{
}

/// The result of an option that takes a value: the value's error, or the
/// field set and the rest read on.
pub open spec fn with_interval(cfg: Config, v: Seq<char>, rest: Seq<Seq<char>>) -> Result<
    Config,
    Seq<char>,
> {
    match interval_value(v) {
        Ok(n) => parse_args_from(Config { interval_secs: n, ..cfg }, rest),
        Err(m) => Err(m),
    }
}

pub open spec fn with_port(cfg: Config, v: Seq<char>, rest: Seq<Seq<char>>) -> Result<
    Config,
    Seq<char>,
> {
    match port_value(v) {
        Ok(n) => parse_args_from(Config { port: n, ..cfg }, rest),
        Err(m) => Err(m),
    }
}

proof fn lemma_front2(f: Seq<char>, v: Seq<char>, rest: Seq<Seq<char>>)
    ensures
        (seq![f, v] + rest)[0] == f,
        (seq![f, v] + rest).drop_first() == seq![v] + rest,
        (seq![f, v] + rest).len() > 1,
        (seq![v] + rest)[0] == v,
        (seq![v] + rest).drop_first() == rest,
        seq![f].drop_first() == Seq::<Seq<char>>::empty(),
        seq![f][0] == f,
        seq![f].len() == 1,
{
    assert((seq![f, v] + rest).drop_first() =~= seq![v] + rest);
    assert((seq![v] + rest).drop_first() =~= rest);
    assert(seq![f].drop_first() =~= Seq::<Seq<char>>::empty());
}

/// `-i` and `--interval` take the next argument as the interval and set no
/// other field; with no value left they are refused.
pub proof fn interval_option_sets_only_the_interval(cfg: Config, v: Seq<char>, rest: Seq<Seq<char>>)
    ensures
        parse_args_from(cfg, seq!["-i"@, v] + rest) == with_interval(cfg, v, rest),
        parse_args_from(cfg, seq!["--interval"@, v] + rest) == with_interval(cfg, v, rest),
        parse_args_from(cfg, seq!["-i"@]) == Err::<Config, Seq<char>>(MSG_INTERVAL_NEEDS_VALUE@),
        parse_args_from(cfg, seq!["--interval"@]) == Err::<Config, Seq<char>>(
            MSG_INTERVAL_NEEDS_VALUE@,
        ),
{
    option_texts();
    lemma_front2("-i"@, v, rest);
    lemma_front2("--interval"@, v, rest);
    assert("-i"@ != "-h"@) by {
        assert("-i"@[1] != "-h"@[1]);
    }
}

/// `-p` and `--port` take the next argument as the port and set no other
/// field; with no value left they are refused.
pub proof fn port_option_sets_only_the_port(cfg: Config, v: Seq<char>, rest: Seq<Seq<char>>)
    ensures
        parse_args_from(cfg, seq!["-p"@, v] + rest) == with_port(cfg, v, rest),
        parse_args_from(cfg, seq!["--port"@, v] + rest) == with_port(cfg, v, rest),
        parse_args_from(cfg, seq!["-p"@]) == Err::<Config, Seq<char>>(MSG_PORT_NEEDS_VALUE@),
        parse_args_from(cfg, seq!["--port"@]) == Err::<Config, Seq<char>>(MSG_PORT_NEEDS_VALUE@),
{
    option_texts();
    lemma_front2("-p"@, v, rest);
    lemma_front2("--port"@, v, rest);
    assert("-p"@ != "-h"@) by {
        assert("-p"@[1] != "-h"@[1]);
    }
    assert("-p"@ != "-i"@) by {
        assert("-p"@[1] != "-i"@[1]);
    }
    assert("--port"@ != "--help"@) by {
        assert("--port"@[2] != "--help"@[2]);
    }
    assert("--port"@ != "--once"@) by {
        assert("--port"@[2] != "--once"@[2]);
    }
}

/// `--interval=<v>` and `--port=<v>` set only their own field, from the
/// value with every further copy of the prefix removed.
pub proof fn inline_values_set_only_their_field(cfg: Config, v: Seq<char>, rest: Seq<Seq<char>>)
    ensures
        parse_args_from(cfg, seq!["--interval="@ + v] + rest) == with_interval(
            cfg,
            trim_leading(v, "--interval="@),
            rest,
        ),
        parse_args_from(cfg, seq!["--port="@ + v] + rest) == with_port(
            cfg,
            trim_leading(v, "--port="@),
            rest,
        ),
{
    option_texts();
    let a = "--interval="@ + v;
    let b = "--port="@ + v;
    lemma_front(a, rest);
    lemma_front(b, rest);
    assert(a.subrange(0, 11) =~= "--interval="@);
    assert(a.subrange(11, a.len() as int) =~= v);
    assert(b.subrange(0, 7) =~= "--port="@);
    assert(b.subrange(7, b.len() as int) =~= v);
    assert(a[2] == 'i' && a[3] == 'n' && a[4] == 't' && a[10] == '=');
    assert(b[2] == 'p' && b[6] == '=');
    assert(a != "--start-enabled"@) by {
        assert(a[2] != "--start-enabled"@[2]);
    }
    assert(a != "--install-agent"@) by {
        assert(a[4] != "--install-agent"@[4]);
    }
    assert(a != "--uninstall-agent"@) by {
        assert(a[2] != "--uninstall-agent"@[2]);
    }
    assert(a != "--start-agent"@) by {
        assert(a[2] != "--start-agent"@[2]);
    }
    assert(a != "--stop-agent"@) by {
        assert(a[2] != "--stop-agent"@[2]);
    }
    assert(a != "--agent-status"@) by {
        assert(a[2] != "--agent-status"@[2]);
    }
    assert(b != "--start-enabled"@) by {
        assert(b[2] != "--start-enabled"@[2]);
    }
    assert(b != "--install-agent"@) by {
        assert(b[2] != "--install-agent"@[2]);
    }
    assert(b != "--uninstall-agent"@) by {
        assert(b[2] != "--uninstall-agent"@[2]);
    }
    assert(b != "--start-agent"@) by {
        assert(b[2] != "--start-agent"@[2]);
    }
    assert(b != "--stop-agent"@) by {
        assert(b[2] != "--stop-agent"@[2]);
    }
    assert(b != "--agent-status"@) by {
        assert(b[2] != "--agent-status"@[2]);
    }
    assert(b != "--interval"@) by {
        assert(b[2] != "--interval"@[2]);
    }
    assert(b != "--dry-run"@) by {
        assert(b[2] != "--dry-run"@[2]);
    }
    assert(!has_prefix(b, "--interval="@)) by {
        if has_prefix(b, "--interval="@) {
            assert(b.subrange(0, 11)[2] == b[2]);
        }
    }
    assert(trim_leading(a, "--interval="@) == trim_leading(v, "--interval="@));
    assert(trim_leading(b, "--port="@) == trim_leading(v, "--port="@));
}

/// An argument that is none of the options is refused, naming it.
pub proof fn unknown_arguments_are_refused(cfg: Config, a: Seq<char>, rest: Seq<Seq<char>>)
    requires
        a != "-h"@ && a != "--help"@ && a != "--once"@ && a != "--dry-run"@ && a
            != "--start-enabled"@,
        agent_flag(a) is None,
        a != "-i"@ && a != "--interval"@ && a != "-p"@ && a != "--port"@,
        !has_prefix(a, "--interval="@),
        !has_prefix(a, "--port="@),
    ensures
        parse_args_from(cfg, seq![a] + rest) == Err::<Config, Seq<char>>(MSG_UNKNOWN_ARGUMENT@ + a),
{
    lemma_front(a, rest);
}

} // verus!
