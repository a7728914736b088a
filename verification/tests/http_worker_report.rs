use wake_nudge::http::{
    begin_toggle, finish_toggle, handle_route, page_html, render_response, route_request,
    status_json, Handling, Response, Route,
};
use wake_nudge::report::{control_address, control_banner, dry_run_report, help_text};
use wake_nudge::worker::{worker_tick, Tick};
use wake_nudge::cli::Config;

fn expected_page(enabled: bool) -> String {
    let initial_status = if enabled { "On" } else { "Off" };
    let initial_button = if enabled { "Stop" } else { "Start" };
    let initial_class = if enabled { "is-on" } else { "is-off" };

    format!(
        r##"<!doctype html>
<html lang="en">
<head>
  <meta charset="utf-8">
  <meta name="viewport" content="width=device-width, initial-scale=1">
  <title>wake-nudge</title>
  <style>
    :root {{
      color-scheme: light dark;
      font-family: ui-sans-serif, system-ui, -apple-system, BlinkMacSystemFont, "Segoe UI", sans-serif;
      background: #f6f4ef;
      color: #1e2421;
    }}
    body {{
      min-height: 100vh;
      margin: 0;
      display: grid;
      place-items: center;
    }}
    main {{
      width: min(420px, calc(100vw - 32px));
      display: grid;
      gap: 18px;
      text-align: center;
    }}
    h1 {{
      margin: 0;
      font-size: 2rem;
      font-weight: 720;
    }}
    p {{
      margin: 0;
      color: #58615c;
      line-height: 1.5;
    }}
    .status {{
      font-size: 1.1rem;
      font-weight: 700;
    }}
    .status.is-on {{
      color: #11694f;
    }}
    .status.is-off {{
      color: #8a3434;
    }}
    button {{
      min-height: 56px;
      border: 0;
      border-radius: 8px;
      background: #174f43;
      color: white;
      cursor: pointer;
      font-size: 1rem;
      font-weight: 750;
    }}
    button:hover {{
      background: #0f3f35;
    }}
    button:focus-visible {{
      outline: 3px solid #5aa892;
      outline-offset: 3px;
    }}
    @media (prefers-color-scheme: dark) {{
      :root {{
        background: #171917;
        color: #f1f0eb;
      }}
      p {{
        color: #b8bdb7;
      }}
      .status.is-on {{
        color: #75d6b4;
      }}
      .status.is-off {{
        color: #ef9b9b;
      }}
      button {{
        background: #3f8e78;
        color: #08110e;
      }}
      button:hover {{
        background: #55a78f;
      }}
    }}
  </style>
</head>
<body>
  <main>
    <h1>wake-nudge</h1>
    <p>Minimal local activity simulation is controlled from this button.</p>
    <div id="status" class="status {initial_class}">Simulation: {initial_status}</div>
    <button id="toggle" type="button">{initial_button}</button>
  </main>
  <script>
    const statusEl = document.querySelector("#status");
    const toggle = document.querySelector("#toggle");

    function render(enabled) {{
      statusEl.textContent = `Simulation: ${{enabled ? "On" : "Off"}}`;
      statusEl.className = `status ${{enabled ? "is-on" : "is-off"}}`;
      toggle.textContent = enabled ? "Stop" : "Start";
    }}

    async function refresh() {{
      const response = await fetch("/status");
      render((await response.json()).enabled);
    }}

    toggle.addEventListener("click", async () => {{
      toggle.disabled = true;
      try {{
        const response = await fetch("/toggle", {{ method: "POST" }});
        render((await response.json()).enabled);
      }} finally {{
        toggle.disabled = false;
      }}
    }});

    setInterval(refresh, 5000);
  </script>
</body>
</html>"##
    )
}

fn reply(h: Handling) -> Response {
    match h {
        Handling::Reply(r) => r,
        Handling::Toggle => panic!("expected a reply"),
    }
}

#[test]
fn routes_by_request_line() {
    assert_eq!(route_request(b"GET / HTTP/1.1\r\nHost: x\r\n\r\n"), Route::Page);
    assert_eq!(route_request(b"GET / HTTP/1.0\n"), Route::Page);
    assert_eq!(route_request(b"GET / HTTP/1.1"), Route::Page);
    assert_eq!(route_request(b"GET /status HTTP/1.1\r\n"), Route::Status);
    assert_eq!(route_request(b"GET /status HTTP/1.0\r\n"), Route::Status);
    assert_eq!(route_request(b"POST /toggle HTTP/1.1\r\nContent-Length: 0\r\n\r\n"), Route::Toggle);
    assert_eq!(route_request(b"POST /toggle HTTP/1.0"), Route::Toggle);
    assert_eq!(route_request(b"GET /toggle HTTP/1.1\r\n"), Route::NotFound);
    assert_eq!(route_request(b"GET / HTTP/2\r\n"), Route::NotFound);
    assert_eq!(route_request(b""), Route::NotFound);
    assert_eq!(route_request(b"\r\nGET / HTTP/1.1"), Route::NotFound);
    assert_eq!(route_request(b"GET / HTTP/1.1\r"), Route::NotFound);
    assert_eq!(route_request(b"GET / HTTP/1.1\r\r\n"), Route::NotFound);
    assert_eq!(route_request(b"\xffGET / HTTP/1.1\r\n"), Route::NotFound);
    assert_eq!(route_request(b"GET / HTTP/1.1\r\n\xff\xfe"), Route::Page);
}

#[test]
fn routes_like_lossy_lines() {
    let cases: [&[u8]; 6] = [
        b"GET / HTTP/1.1\r\n",
        b"GET /status HTTP/1.0\n",
        b"POST /toggle HTTP/1.1\r",
        b"\xe2\nGET / HTTP/1.1",
        b"GET / HTTP/1.1\xe2\r\n",
        b"",
    ];
    for bytes in cases {
        let text = String::from_utf8_lossy(bytes);
        let line = text.lines().next().unwrap_or_default();
        let expected = match line {
            "GET / HTTP/1.1" | "GET / HTTP/1.0" => Route::Page,
            "GET /status HTTP/1.1" | "GET /status HTTP/1.0" => Route::Status,
            "POST /toggle HTTP/1.1" | "POST /toggle HTTP/1.0" => Route::Toggle,
            _ => Route::NotFound,
        };
        assert_eq!(route_request(bytes), expected, "bytes {bytes:?}");
    }
}

#[test]
fn page_matches_template() {
    assert_eq!(page_html(true), expected_page(true));
    assert_eq!(page_html(false), expected_page(false));
    assert!(page_html(true).contains("class=\"status is-on\">Simulation: On</div>"));
    assert!(page_html(false).contains("type=\"button\">Start</button>"));
}

#[test]
fn status_json_reports_state() {
    assert_eq!(status_json(true), r#"{"enabled":true}"#);
    assert_eq!(status_json(false), r#"{"enabled":false}"#);
}

#[test]
fn replies_for_each_route() {
    let r = reply(handle_route(Route::Page, true));
    assert_eq!((r.status.as_str(), r.content_type.as_str()), ("200 OK", "text/html; charset=utf-8"));
    assert_eq!(r.body, expected_page(true));
    let r = reply(handle_route(Route::Status, false));
    assert_eq!((r.status.as_str(), r.content_type.as_str(), r.body.as_str()), ("200 OK", "application/json", r#"{"enabled":false}"#));
    let r = reply(handle_route(Route::NotFound, true));
    assert_eq!(
        (r.status.as_str(), r.content_type.as_str(), r.body.as_str()),
        ("404 Not Found", "text/plain; charset=utf-8", "not found")
    );
    assert!(matches!(handle_route(Route::Toggle, true), Handling::Toggle));
}

#[test]
fn toggle_on_then_off() {
    let start = begin_toggle(false);
    assert!(start.enabled && start.nudge);
    let out = finish_toggle(start.enabled, None);
    assert!(out.enabled);
    assert_eq!(out.response.status, "200 OK");
    assert_eq!(out.response.body, r#"{"enabled":true}"#);
    let start = begin_toggle(out.enabled);
    assert!(!start.enabled && !start.nudge);
    let out = finish_toggle(start.enabled, None);
    assert!(!out.enabled);
    assert_eq!(out.response.body, r#"{"enabled":false}"#);
}

#[test]
fn failed_nudge_turns_back_off() {
    let out = finish_toggle(true, Some("cursor nudging is currently implemented only for macOS".to_string()));
    assert!(!out.enabled);
    assert_eq!(out.response.status, "500 Internal Server Error");
    assert_eq!(out.response.content_type, "application/json");
    assert_eq!(
        out.response.body,
        r#"{"enabled":false,"error":"cursor nudging is currently implemented only for macOS"}"#
    );
    let out = finish_toggle(false, Some("ignored".to_string()));
    assert!(!out.enabled);
    assert_eq!(out.response.status, "200 OK");
}

#[test]
fn rendered_response_counts_bytes() {
    let r = Response {
        status: "200 OK".to_string(),
        content_type: "application/json".to_string(),
        body: "{\"e\":\"é\"}".to_string(),
    };
    let body = &r.body;
    let expected = format!(
        "HTTP/1.1 {}\r\nContent-Type: {}\r\nContent-Length: {}\r\nConnection: close\r\n\r\n{body}",
        r.status,
        r.content_type,
        body.len()
    );
    assert_eq!(render_response(&r), expected);
    assert!(render_response(&r).contains("Content-Length: 10\r\n"));
}

#[test]
fn worker_ticks() {
    assert_eq!(worker_tick(false, true, None, 30), Tick { acquire_guard: true, reset: false, nudge: true });
    assert_eq!(worker_tick(true, true, Some(29), 30), Tick { acquire_guard: false, reset: false, nudge: false });
    assert_eq!(worker_tick(true, true, Some(30), 30), Tick { acquire_guard: false, reset: false, nudge: true });
    assert_eq!(worker_tick(true, false, Some(100), 30), Tick { acquire_guard: false, reset: true, nudge: false });
    assert_eq!(worker_tick(false, false, None, 30), Tick { acquire_guard: false, reset: true, nudge: false });
}

#[test]
fn worker_run_spaces_nudges() {
    let interval = 3u64;
    let mut holds = false;
    let mut last: Option<u64> = None;
    let mut nudges = Vec::new();
    for now in 0u64..12 {
        let enabled = !(5..7).contains(&now);
        let tick = worker_tick(holds, enabled, last.map(|t| now - t), interval);
        if tick.acquire_guard {
            holds = true;
        }
        if tick.reset {
            holds = false;
            last = None;
        }
        if tick.nudge {
            last = Some(now);
            nudges.push(now);
        }
    }
    assert_eq!(nudges, vec![0, 3, 7, 10]);
}

#[test]
fn help_and_reports() {
    let help = help_text();
    assert!(help.starts_with("wake-nudge\n\nRuns a local Start/Stop button"));
    assert!(help.contains("Seconds between nudges (default: 30)\n"));
    assert!(help.contains("Local web control port (default: 7878)\n"));
    assert!(help.ends_with("  -h, --help                Show this help\n"));
    assert_eq!(control_address(7878), "127.0.0.1:7878");
    assert_eq!(control_banner("127.0.0.1:80"), "wake-nudge control button: http://127.0.0.1:80");
    let mut config = Config::new();
    assert_eq!(
        dry_run_report(&config),
        vec!["dry run: would run the control button on http://127.0.0.1:7878 and nudge once every 30 seconds when enabled".to_string()]
    );
    config.start_enabled = true;
    config.port = 1;
    config.interval_secs = 2;
    assert_eq!(
        dry_run_report(&config),
        vec![
            "dry run: would run the control button on http://127.0.0.1:1 and nudge once every 2 seconds when enabled".to_string(),
            "dry run: simulation would start enabled".to_string(),
        ]
    );
}

#[test]
fn worker_keeps_nudging_while_on() {
    for interval in [1u64, 2, 5, 30] {
        let mut holds = false;
        let mut last: Option<u64> = None;
        let mut nudges = Vec::new();
        for now in 100u64..200 {
            let tick = worker_tick(holds, true, last.map(|t| now - t), interval);
            if tick.acquire_guard {
                holds = true;
            }
            if tick.nudge {
                last = Some(now);
                nudges.push(now);
            }
        }
        assert_eq!(nudges[0], 100);
        for pair in nudges.windows(2) {
            assert!(pair[1] - pair[0] <= interval && pair[1] - pair[0] >= interval);
        }
        assert!(199 - nudges.last().unwrap() < interval);
    }
}
