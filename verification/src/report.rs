//! The lines the program prints about itself.
use vstd::prelude::*;
use crate::cli::{Config, DEFAULT_INTERVAL_SECS, DEFAULT_PORT};
use crate::text::{decimal, decimal_string};

verus! {

pub const HELP_HEAD: &'static str = "wake-nudge\n\nRuns a local Start/Stop button that controls tiny cursor nudges.\n\nUsage:\n  wake-nudge [options]\n\nOptions:\n  -i, --interval <seconds>  Seconds between nudges (default: ";
pub const HELP_MIDDLE: &'static str = ")\n  -p, --port <port>         Local web control port (default: ";
pub const HELP_TAIL: &'static str = ")\n      --once                Nudge once and exit\n      --start-enabled       Start with simulation already on\n      --dry-run             Print what would happen without moving the cursor\n      --install-agent       Install and start a macOS LaunchAgent\n      --uninstall-agent     Stop and remove the macOS LaunchAgent\n      --start-agent         Start the installed macOS LaunchAgent\n      --stop-agent          Stop the installed macOS LaunchAgent\n      --agent-status        Print macOS LaunchAgent status\n  -h, --help                Show this help\n";

/// The usage text, naming the default interval and port.
pub open spec fn help_text_of() -> Seq<char> {
    HELP_HEAD@ + decimal(DEFAULT_INTERVAL_SECS as nat) + HELP_MIDDLE@ + decimal(DEFAULT_PORT as nat)
        + HELP_TAIL@
}

/// The usage text.
pub fn help_text() -> (r: String)
    ensures
        r@ == help_text_of(),
{
    let interval = decimal_string(DEFAULT_INTERVAL_SECS);
    let port = decimal_string(DEFAULT_PORT as u64);
    let mut r = String::from_str(HELP_HEAD);
    r.append(interval.as_str());
    r.append(HELP_MIDDLE);
    r.append(port.as_str());
    r.append(HELP_TAIL);
    r
}

/// The address the control page is served on: `127.0.0.1:<port>`.
pub open spec fn control_address_of(port: u16) -> Seq<char> {
    "127.0.0.1:"@ + decimal(port as nat)
}

/// The address the control page is served on.
pub fn control_address(port: u16) -> (r: String)
    ensures
        r@ == control_address_of(port),
{
    let port_text = decimal_string(port as u64);
    let mut r = String::from_str("127.0.0.1:");
    r.append(port_text.as_str());
    r
}

/// What a dry run reports: where the page would be and how often the
/// cursor would move, and whether the simulation would start on.
pub open spec fn dry_run_lines(config: Config) -> Seq<Seq<char>> {
    seq![
        "dry run: would run the control button on http://"@ + control_address_of(config.port)
            + " and nudge once every "@ + decimal(config.interval_secs as nat)
            + " seconds when enabled"@,
    ] + (if config.start_enabled {
        seq!["dry run: simulation would start enabled"@]
    } else {
        Seq::empty()
    })
}

/// The lines a dry run prints.
pub fn dry_run_report(config: &Config) -> (r: Vec<String>)
    ensures
        r@.map_values(|s: String| s@) == dry_run_lines(*config),
{
    let address = control_address(config.port);
    let interval = decimal_string(config.interval_secs);
    let mut first = String::from_str("dry run: would run the control button on http://");
    first.append(address.as_str());
    first.append(" and nudge once every ");
    first.append(interval.as_str());
    first.append(" seconds when enabled");
    let mut r: Vec<String> = Vec::new();
    r.push(first);
    if config.start_enabled {
        r.push(String::from_str("dry run: simulation would start enabled"));
    }
    assert(r@.map_values(|s: String| s@) =~= dry_run_lines(*config));
    r
}

/// The line announcing the control page at `address`.
pub fn control_banner(address: &str) -> (r: String)
    ensures
        r@ == "wake-nudge control button: http://"@ + address@,
{
    let mut r = String::from_str("wake-nudge control button: http://");
    r.append(address);
    r
}

/// The usage text names the default interval, 30 seconds, and the default
/// port, 7878, and lists each option once, in this order.
pub proof fn help_text_is_the_usage()
    ensures
        help_text_of() == HELP_HEAD@ + "30"@ + HELP_MIDDLE@ + "7878"@ + HELP_TAIL@,
        help_text_of() == "wake-nudge\n\nRuns a local Start/Stop button that controls tiny cursor nudges.\n\nUsage:\n  wake-nudge [options]\n\nOptions:\n  -i, --interval <seconds>  Seconds between nudges (default: 30)\n  -p, --port <port>         Local web control port (default: 7878)\n      --once                Nudge once and exit\n      --start-enabled       Start with simulation already on\n      --dry-run             Print what would happen without moving the cursor\n      --install-agent       Install and start a macOS LaunchAgent\n      --uninstall-agent     Stop and remove the macOS LaunchAgent\n      --start-agent         Start the installed macOS LaunchAgent\n      --stop-agent          Stop the installed macOS LaunchAgent\n      --agent-status        Print macOS LaunchAgent status\n  -h, --help                Show this help\n"@,
{
    reveal_strlit("30");
    reveal_strlit("7878");
    reveal_with_fuel(decimal, 5);
    assert(decimal(30) =~= "30"@);
    assert(decimal(7878) =~= "7878"@);
    reveal_strlit("wake-nudge\n\nRuns a local Start/Stop button that controls tiny cursor nudges.\n\nUsage:\n  wake-nudge [options]\n\nOptions:\n  -i, --interval <seconds>  Seconds between nudges (default: ");
    reveal_strlit(")\n  -p, --port <port>         Local web control port (default: ");
    reveal_strlit(")\n      --once                Nudge once and exit\n      --start-enabled       Start with simulation already on\n      --dry-run             Print what would happen without moving the cursor\n      --install-agent       Install and start a macOS LaunchAgent\n      --uninstall-agent     Stop and remove the macOS LaunchAgent\n      --start-agent         Start the installed macOS LaunchAgent\n      --stop-agent          Stop the installed macOS LaunchAgent\n      --agent-status        Print macOS LaunchAgent status\n  -h, --help                Show this help\n");
    reveal_strlit("wake-nudge\n\nRuns a local Start/Stop button that controls tiny cursor nudges.\n\nUsage:\n  wake-nudge [options]\n\nOptions:\n  -i, --interval <seconds>  Seconds between nudges (default: 30)\n  -p, --port <port>         Local web control port (default: 7878)\n      --once                Nudge once and exit\n      --start-enabled       Start with simulation already on\n      --dry-run             Print what would happen without moving the cursor\n      --install-agent       Install and start a macOS LaunchAgent\n      --uninstall-agent     Stop and remove the macOS LaunchAgent\n      --start-agent         Start the installed macOS LaunchAgent\n      --stop-agent          Stop the installed macOS LaunchAgent\n      --agent-status        Print macOS LaunchAgent status\n  -h, --help                Show this help\n");
    assert(HELP_HEAD@ + "30"@ + HELP_MIDDLE@ + "7878"@ + HELP_TAIL@ =~= "wake-nudge\n\nRuns a local Start/Stop button that controls tiny cursor nudges.\n\nUsage:\n  wake-nudge [options]\n\nOptions:\n  -i, --interval <seconds>  Seconds between nudges (default: 30)\n  -p, --port <port>         Local web control port (default: 7878)\n      --once                Nudge once and exit\n      --start-enabled       Start with simulation already on\n      --dry-run             Print what would happen without moving the cursor\n      --install-agent       Install and start a macOS LaunchAgent\n      --uninstall-agent     Stop and remove the macOS LaunchAgent\n      --start-agent         Start the installed macOS LaunchAgent\n      --stop-agent          Stop the installed macOS LaunchAgent\n      --agent-status        Print macOS LaunchAgent status\n  -h, --help                Show this help\n"@);
}

/// A dry run reports the configured port and interval, whatever else is
/// set, and adds a second line exactly when the simulation would start on.
pub proof fn dry_run_names_the_settings(config: Config)
    ensures
        dry_run_lines(config).len() == (if config.start_enabled {
            2int
        } else {
            1int
        }),
        dry_run_lines(config)[0] == "dry run: would run the control button on http://127.0.0.1:"@
            + decimal(config.port as nat) + " and nudge once every "@ + decimal(
            config.interval_secs as nat,
        ) + " seconds when enabled"@,
        config.start_enabled ==> dry_run_lines(config)[1]
            == "dry run: simulation would start enabled"@,
        dry_run_lines(Config { start_enabled: !config.start_enabled, ..config })[0]
            == dry_run_lines(config)[0],
        control_address_of(config.port) == "127.0.0.1:"@ + decimal(config.port as nat),
{
    reveal_strlit("dry run: would run the control button on http://127.0.0.1:");
    reveal_strlit("dry run: would run the control button on http://");
    reveal_strlit("127.0.0.1:");
    assert("dry run: would run the control button on http://"@ + "127.0.0.1:"@
        =~= "dry run: would run the control button on http://127.0.0.1:"@);
    let other = Config { start_enabled: !config.start_enabled, ..config };
    assert(dry_run_lines(config)[0] =~= "dry run: would run the control button on http://127.0.0.1:"@
        + decimal(config.port as nat) + " and nudge once every "@ + decimal(
        config.interval_secs as nat,
    ) + " seconds when enabled"@);
    assert(dry_run_lines(other)[0] == dry_run_lines(config)[0]);
}

} // verus!
