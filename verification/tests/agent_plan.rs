use std::path::PathBuf;
use wake_nudge::agent::{
    agent_log_dir, escape_xml, gui_domain, handle_agent_command, install_agent, join,
    launch_agent_plist, launch_agent_plist_path, launch_agents_dir, launchctl_failure,
    service_target, start_agent, status_agent, stop_agent, uninstall_agent, AgentStep,
    LAUNCH_AGENT_LABEL,
};
use wake_nudge::cli::{AgentCommand, Config};

fn expected_plist(
    executable: &str,
    interval_secs: u64,
    port: u16,
    start_enabled: bool,
    stdout_log: &str,
    stderr_log: &str,
) -> String {
    let esc = |v: &str| {
        v.replace('&', "&amp;")
            .replace('<', "&lt;")
            .replace('>', "&gt;")
            .replace('"', "&quot;")
            .replace('\'', "&apos;")
    };
    let executable = esc(executable);
    let stdout_log = esc(stdout_log);
    let stderr_log = esc(stderr_log);
    let start_enabled_args = if start_enabled {
        "    <string>--start-enabled</string>\n"
    } else {
        ""
    };
    format!(
        r#"<?xml version="1.0" encoding="UTF-8"?>
<!DOCTYPE plist PUBLIC "-//Apple//DTD PLIST 1.0//EN" "http://www.apple.com/DTDs/PropertyList-1.0.dtd">
<plist version="1.0">
<dict>
  <key>Label</key>
  <string>dev.local.wake-nudge</string>
  <key>ProgramArguments</key>
  <array>
    <string>{executable}</string>
    <string>--interval</string>
    <string>{interval_secs}</string>
    <string>--port</string>
    <string>{port}</string>
{start_enabled_args}
  </array>
  <key>RunAtLoad</key>
  <true/>
  <key>KeepAlive</key>
  <true/>
  <key>StandardOutPath</key>
  <string>{stdout_log}</string>
  <key>StandardErrorPath</key>
  <string>{stderr_log}</string>
</dict>
</plist>
"#
    )
}

fn launchctl(step: &AgentStep) -> (Vec<String>, bool) {
    match step {
        AgentStep::Launchctl { args, must_succeed } => (args.clone(), *must_succeed),
        other => panic!("expected a launchctl step, got {other:?}"),
    }
}

fn printed(step: &AgentStep) -> String {
    match step {
        AgentStep::Print(line) => line.clone(),
        other => panic!("expected a print step, got {other:?}"),
    }
}

fn strs(v: &[&str]) -> Vec<String> {
    v.iter().map(|s| s.to_string()).collect()
}

#[test]
fn escape_xml_replaces_all_five() {
    assert_eq!(escape_xml("a&b<c>\"d'e"), "a&amp;b&lt;c&gt;&quot;d&apos;e");
    assert_eq!(escape_xml("&amp;"), "&amp;amp;");
    assert_eq!(escape_xml("plain/path é"), "plain/path é");
    assert_eq!(escape_xml(""), "");
}

#[test]
fn escaped_text_has_no_markup() {
    let out = escape_xml("<tag attr='x' other=\"y\">&</tag>");
    assert!(!out.contains('<') && !out.contains('>') && !out.contains('"') && !out.contains('\''));
}

#[test]
fn join_behaves_like_path_join() {
    for (base, name) in [("/Users/me", "Library"), ("/Users/me/", "Library"), ("", "Library"), ("/", "x")] {
        let expected = PathBuf::from(base).join(name).display().to_string();
        assert_eq!(join(base, name), expected, "join({base:?}, {name:?})");
    }
}

#[test]
fn agent_paths() {
    assert_eq!(
        launch_agent_plist_path("/Users/me"),
        "/Users/me/Library/LaunchAgents/dev.local.wake-nudge.plist"
    );
    assert_eq!(launch_agents_dir("/Users/me/"), "/Users/me/Library/LaunchAgents");
    assert_eq!(agent_log_dir("/Users/me"), "/Users/me/Library/Logs/wake-nudge");
    let home = PathBuf::from("/Users/me");
    let expected = home
        .join("Library")
        .join("LaunchAgents")
        .join(format!("{LAUNCH_AGENT_LABEL}.plist"));
    assert_eq!(launch_agent_plist_path("/Users/me"), expected.display().to_string());
}

#[test]
fn plist_matches_template() {
    for start_enabled in [false, true] {
        let got = launch_agent_plist("/opt/wake nudge/bin", 45, 8080, start_enabled, "/Users/me/Library/Logs/wake-nudge");
        let expected = expected_plist(
            "/opt/wake nudge/bin",
            45,
            8080,
            start_enabled,
            "/Users/me/Library/Logs/wake-nudge/stdout.log",
            "/Users/me/Library/Logs/wake-nudge/stderr.log",
        );
        assert_eq!(got, expected);
    }
}

#[test]
fn plist_escapes_paths() {
    let got = launch_agent_plist("/tmp/a&b<c>", 1, 0, false, "/logs/\"q\"");
    let expected = expected_plist("/tmp/a&b<c>", 1, 0, false, "/logs/\"q\"/stdout.log", "/logs/\"q\"/stderr.log");
    assert_eq!(got, expected);
    assert!(got.contains("<string>/tmp/a&amp;b&lt;c&gt;</string>"));
}

#[test]
fn installed_agent_arguments_read_back() {
    for (interval, port, start) in [(30u64, 7878u16, false), (1, 0, true), (u64::MAX, 65535, true)] {
        let plist = launch_agent_plist("/bin/wake-nudge", interval, port, start, "/logs");
        let start_idx = plist.find("<array>").unwrap();
        let end_idx = plist.find("</array>").unwrap();
        let args: Vec<String> = plist[start_idx..end_idx]
            .lines()
            .filter_map(|l| l.trim().strip_prefix("<string>").and_then(|r| r.strip_suffix("</string>")))
            .map(|s| s.to_string())
            .skip(1)
            .collect();
        let config = Config::parse(&args).unwrap();
        assert_eq!(config.interval_secs, interval);
        assert_eq!(config.port, port);
        assert_eq!(config.start_enabled, start);
    }
}

#[test]
fn domain_and_target() {
    assert_eq!(gui_domain("501"), "gui/501");
    assert_eq!(service_target("gui/501"), "gui/501/dev.local.wake-nudge");
}

#[test]
fn install_steps() {
    let steps = install_agent("gui/501", "/p/agent.plist", 7878);
    assert_eq!(steps.len(), 6);
    assert_eq!(launchctl(&steps[0]), (strs(&["bootout", "gui/501", "/p/agent.plist"]), false));
    assert_eq!(launchctl(&steps[1]), (strs(&["bootstrap", "gui/501", "/p/agent.plist"]), true));
    assert_eq!(launchctl(&steps[2]), (strs(&["enable", "gui/501/dev.local.wake-nudge"]), true));
    assert_eq!(
        launchctl(&steps[3]),
        (strs(&["kickstart", "-k", "gui/501/dev.local.wake-nudge"]), true)
    );
    assert_eq!(printed(&steps[4]), "installed LaunchAgent: /p/agent.plist");
    assert_eq!(printed(&steps[5]), "control button: http://127.0.0.1:7878");
}

#[test]
fn uninstall_steps() {
    let steps = uninstall_agent("gui/501", "/p/agent.plist");
    assert_eq!(steps.len(), 3);
    assert_eq!(launchctl(&steps[0]), (strs(&["bootout", "gui/501", "/p/agent.plist"]), false));
    match &steps[1] {
        AgentStep::RemoveFile(p) => assert_eq!(p, "/p/agent.plist"),
        other => panic!("unexpected {other:?}"),
    }
    assert_eq!(printed(&steps[2]), "removed LaunchAgent: /p/agent.plist");
}

#[test]
fn start_stop_status_steps() {
    let steps = start_agent("gui/7");
    assert_eq!(launchctl(&steps[0]), (strs(&["kickstart", "-k", "gui/7/dev.local.wake-nudge"]), true));
    assert_eq!(printed(&steps[1]), "started LaunchAgent: dev.local.wake-nudge");
    let steps = stop_agent("gui/7");
    assert_eq!(launchctl(&steps[0]), (strs(&["kill", "TERM", "gui/7/dev.local.wake-nudge"]), true));
    assert_eq!(printed(&steps[1]), "stopped LaunchAgent: dev.local.wake-nudge");
    let steps = status_agent("gui/7");
    assert_eq!(steps.len(), 1);
    assert_eq!(launchctl(&steps[0]), (strs(&["print", "gui/7/dev.local.wake-nudge"]), true));
}

#[test]
fn dispatch_by_command() {
    let steps = handle_agent_command(AgentCommand::Stop, "gui/1", "/p", 1);
    assert_eq!(launchctl(&steps[0]).0[0], "kill");
    let steps = handle_agent_command(AgentCommand::Install, "gui/1", "/p", 1);
    assert_eq!(steps.len(), 6);
    let steps = handle_agent_command(AgentCommand::Uninstall, "gui/1", "/p", 1);
    assert_eq!(steps.len(), 3);
    let steps = handle_agent_command(AgentCommand::Start, "gui/1", "/p", 1);
    assert_eq!(launchctl(&steps[0]).0[0], "kickstart");
    let steps = handle_agent_command(AgentCommand::Status, "gui/1", "/p", 1);
    assert_eq!(launchctl(&steps[0]).0[0], "print");
}

#[test]
fn launchctl_failure_message() {
    assert_eq!(
        launchctl_failure(&strs(&["kickstart", "-k", "gui/501/dev.local.wake-nudge"])),
        "launchctl kickstart -k gui/501/dev.local.wake-nudge failed"
    );
    assert_eq!(launchctl_failure(&strs(&[])), "launchctl  failed");
    assert_eq!(launchctl_failure(&strs(&["print"])), "launchctl print failed");
}

fn unescape(s: &str) -> String {
    s.replace("&lt;", "<")
        .replace("&gt;", ">")
        .replace("&quot;", "\"")
        .replace("&apos;", "'")
        .replace("&amp;", "&")
}

#[test]
fn unescaping_reads_escaped_text_back() {
    for s in ["", "plain", "a&b<c>\"d'e", "&amp;lt;", "&&&", "<<>>", "&lt;", "x'\"&<>y é"] {
        assert_eq!(unescape(&escape_xml(s)), s, "input {s:?}");
    }
}

#[test]
fn escaping_plain_text_changes_nothing() {
    for s in ["", "/Users/me/Library/Logs/wake-nudge", "a b c é 123"] {
        assert_eq!(escape_xml(s), s);
    }
}

#[test]
fn start_enabled_is_one_line_after_the_port() {
    for port in [0u16, 7878, 65535] {
        let off = launch_agent_plist("/bin/w", 30, port, false, "/logs");
        let on = launch_agent_plist("/bin/w", 30, port, true, "/logs");
        let x = format!("<string>--port</string>\n    <string>{port}</string>\n");
        let with_flag = format!("{x}    <string>--start-enabled</string>\n");
        assert_eq!(on, off.replacen(&x, &with_flag, 1));
    }
}

#[test]
fn launchctl_outcomes() {
    let args = strs(&["kill", "TERM", "gui/1/dev.local.wake-nudge"]);
    assert_eq!(wake_nudge::agent::launchctl_outcome(&args, false, Ok(false)), Ok(()));
    assert_eq!(wake_nudge::agent::launchctl_outcome(&args, false, Err("no launchctl".to_string())), Ok(()));
    assert_eq!(wake_nudge::agent::launchctl_outcome(&args, true, Ok(true)), Ok(()));
    assert_eq!(
        wake_nudge::agent::launchctl_outcome(&args, true, Ok(false)),
        Err("launchctl kill TERM gui/1/dev.local.wake-nudge failed".to_string())
    );
    assert_eq!(
        wake_nudge::agent::launchctl_outcome(&args, true, Err("No such file or directory (os error 2)".to_string())),
        Err("No such file or directory (os error 2)".to_string())
    );
}
