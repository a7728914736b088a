//! The local control page: how a request is routed and what is answered.
use vstd::prelude::*;
use vstd::string::StringSliceAdditionalSpecFns;
use crate::text::{decimal, decimal_string};

verus! {

/// What a request asks for, by its request line.
#[derive(Clone, Copy, Debug, PartialEq, Eq, Structural)]
pub enum Route {
    /// `GET /`: the control page.
    Page,
    /// `GET /status`: the current state as JSON.
    Status,
    /// `POST /toggle`: switch the simulation on or off.
    Toggle,
    /// Anything else.
    NotFound,
}

/// The index of the first line feed at or after `i`, or the length.
pub open spec fn line_end(b: Seq<u8>, i: int) -> int
    decreases b.len() - i,
{
    if i < 0 || i >= b.len() {
        b.len() as int
    } else if b[i] == 10 {
        i
    } else {
        line_end(b, i + 1)
    }
}

/// The first line of a request as `str::lines` gives it: the bytes before
/// the first line feed, without the carriage return before that line feed.
pub open spec fn request_line(b: Seq<u8>) -> Seq<u8> {
    let k = line_end(b, 0);
    let line = b.subrange(0, k);
    if k < b.len() && k > 0 && b[k - 1] == 13 {
        line.drop_last()
    } else {
        line
    }
}

/// The route of a request line; HTTP/1.0 and HTTP/1.1 are treated alike.
pub open spec fn route_of_line(line: Seq<u8>) -> Route {
    if line == "GET / HTTP/1.1".spec_bytes() || line == "GET / HTTP/1.0".spec_bytes() {
        Route::Page
    } else if line == "GET /status HTTP/1.1".spec_bytes() || line
        == "GET /status HTTP/1.0".spec_bytes() {
        Route::Status
    } else if line == "POST /toggle HTTP/1.1".spec_bytes() || line
        == "POST /toggle HTTP/1.0".spec_bytes() {
        Route::Toggle
    } else {
        Route::NotFound
    }
}

/// Whether `b[start..end]` holds exactly the bytes of `expected`.
fn bytes_match(b: &[u8], end: usize, expected: &[u8]) -> (r: bool)
    requires
        end <= b@.len(),
    ensures
        r == (b@.subrange(0, end as int) == expected@),
{
    if end != expected.len() {
        return false;
    }
    let mut i: usize = 0;
    while i < end
        invariant
            end <= b@.len(),
            end == expected@.len(),
            i <= end,
            forall|j: int| 0 <= j < i ==> b@[j] == expected@[j],
        decreases end - i,
    {
        if b[i] != expected[i] {
            assert(b@.subrange(0, end as int)[i as int] != expected@[i as int]);
            return false;
        }
        i = i + 1;
    }
    assert(b@.subrange(0, end as int) =~= expected@);
    true
}

/// Routes a request by its first line. The bytes are read as text with
/// invalid UTF-8 replaced, as the server reads them; since a replacement
/// character never equals an ASCII byte, a line is one of the known ones
/// exactly when its bytes are.
pub fn route_request(request: &[u8]) -> (r: Route)
    ensures
        r == route_of_line(request_line(request@)),
{
    let n = request.len();
    let mut k: usize = 0;
    while k < n && request[k] != 10
        invariant
            n == request@.len(),
            k <= n,
            line_end(request@, k as int) == line_end(request@, 0),
        decreases n - k,
    {
        k = k + 1;
    }
    let mut end = k;
    if k < n && k > 0 && request[k - 1] == 13 {
        end = k - 1;
    }
    assert(request_line(request@) =~= request@.subrange(0, end as int));
    if bytes_match(request, end, "GET / HTTP/1.1".as_bytes()) || bytes_match(
        request,
        end,
        "GET / HTTP/1.0".as_bytes(),
    ) {
        Route::Page
    } else if bytes_match(request, end, "GET /status HTTP/1.1".as_bytes()) || bytes_match(
        request,
        end,
        "GET /status HTTP/1.0".as_bytes(),
    ) {
        Route::Status
    } else if bytes_match(request, end, "POST /toggle HTTP/1.1".as_bytes()) || bytes_match(
        request,
        end,
        "POST /toggle HTTP/1.0".as_bytes(),
    ) {
        Route::Toggle
    } else {
        Route::NotFound
    }
}

/// An HTTP response before it is written out.
#[derive(Debug)]
pub struct Response {
    pub status: String,
    pub content_type: String,
    pub body: String,
}

/// A response as plain text.
pub struct ResponseModel {
    pub status: Seq<char>,
    pub content_type: Seq<char>,
    pub body: Seq<char>,
}

pub open spec fn response_model(r: Response) -> ResponseModel {
    ResponseModel { status: r.status@, content_type: r.content_type@, body: r.body@ }
}

/// The JSON that reports the state: `{"enabled":true}` or `{"enabled":false}`.
pub open spec fn status_json_text(enabled: bool) -> Seq<char> {
    "{\"enabled\":"@ + (if enabled {
        "true"@
    } else {
        "false"@
    }) + "}"@
}

/// The state as JSON.
pub fn status_json(enabled: bool) -> (r: String)
    ensures
        r@ == status_json_text(enabled),
{
    let mut r = String::from_str("{\"enabled\":");
    if enabled {
        r.append("true");
    } else {
        r.append("false");
    }
    r.append("}");
    r
}

pub const PAGE_HEAD: &'static str = "<!doctype html>\n<html lang=\"en\">\n<head>\n  <meta charset=\"utf-8\">\n  <meta name=\"viewport\" content=\"width=device-width, initial-scale=1\">\n  <title>wake-nudge</title>\n  <style>\n    :root {\n      color-scheme: light dark;\n      font-family: ui-sans-serif, system-ui, -apple-system, BlinkMacSystemFont, \"Segoe UI\", sans-serif;\n      background: #f6f4ef;\n      color: #1e2421;\n    }\n    body {\n      min-height: 100vh;\n      margin: 0;\n      display: grid;\n      place-items: center;\n    }\n    main {\n      width: min(420px, calc(100vw - 32px));\n      display: grid;\n      gap: 18px;\n      text-align: center;\n    }\n    h1 {\n      margin: 0;\n      font-size: 2rem;\n      font-weight: 720;\n    }\n    p {\n      margin: 0;\n      color: #58615c;\n      line-height: 1.5;\n    }\n    .status {\n      font-size: 1.1rem;\n      font-weight: 700;\n    }\n    .status.is-on {\n      color: #11694f;\n    }\n    .status.is-off {\n      color: #8a3434;\n    }\n    button {\n      min-height: 56px;\n      border: 0;\n      border-radius: 8px;\n      background: #174f43;\n      color: white;\n      cursor: pointer;\n      font-size: 1rem;\n      font-weight: 750;\n    }\n    button:hover {\n      background: #0f3f35;\n    }\n    button:focus-visible {\n      outline: 3px solid #5aa892;\n      outline-offset: 3px;\n    }\n    @media (prefers-color-scheme: dark) {\n      :root {\n        background: #171917;\n        color: #f1f0eb;\n      }\n      p {\n        color: #b8bdb7;\n      }\n      .status.is-on {\n        color: #75d6b4;\n      }\n      .status.is-off {\n        color: #ef9b9b;\n      }\n      button {\n        background: #3f8e78;\n        color: #08110e;\n      }\n      button:hover {\n        background: #55a78f;\n      }\n    }\n  </style>\n</head>\n<body>\n  <main>\n    <h1>wake-nudge</h1>\n    <p>Minimal local activity simulation is controlled from this button.</p>\n    <div id=\"status\" class=\"status ";
pub const PAGE_STATUS: &'static str = "\">Simulation: ";
pub const PAGE_BUTTON: &'static str = "</div>\n    <button id=\"toggle\" type=\"button\">";
pub const PAGE_TAIL: &'static str = "</button>\n  </main>\n  <script>\n    const statusEl = document.querySelector(\"#status\");\n    const toggle = document.querySelector(\"#toggle\");\n\n    function render(enabled) {\n      statusEl.textContent = `Simulation: ${enabled ? \"On\" : \"Off\"}`;\n      statusEl.className = `status ${enabled ? \"is-on\" : \"is-off\"}`;\n      toggle.textContent = enabled ? \"Stop\" : \"Start\";\n    }\n\n    async function refresh() {\n      const response = await fetch(\"/status\");\n      render((await response.json()).enabled);\n    }\n\n    toggle.addEventListener(\"click\", async () => {\n      toggle.disabled = true;\n      try {\n        const response = await fetch(\"/toggle\", { method: \"POST\" });\n        render((await response.json()).enabled);\n      } finally {\n        toggle.disabled = false;\n      }\n    });\n\n    setInterval(refresh, 5000);\n  </script>\n</body>\n</html>";

/// The control page, showing the state it was served in: the status reads
/// `On` or `Off`, the button `Stop` or `Start`, styled `is-on` or `is-off`.
pub open spec fn page_text(enabled: bool) -> Seq<char> {
    PAGE_HEAD@ + (if enabled {
        "is-on"@
    } else {
        "is-off"@
    }) + PAGE_STATUS@ + (if enabled {
        "On"@
    } else {
        "Off"@
    }) + PAGE_BUTTON@ + (if enabled {
        "Stop"@
    } else {
        "Start"@
    }) + PAGE_TAIL@
}

/// The control page.
pub fn page_html(enabled: bool) -> (r: String)
    ensures
        r@ == page_text(enabled),
{
    let initial_status = if enabled {
        "On"
    } else {
        "Off"
    };
    let initial_button = if enabled {
        "Stop"
    } else {
        "Start"
    };
    let initial_class = if enabled {
        "is-on"
    } else {
        "is-off"
    };
    let mut r = String::from_str(PAGE_HEAD);
    r.append(initial_class);
    r.append(PAGE_STATUS);
    r.append(initial_status);
    r.append(PAGE_BUTTON);
    r.append(initial_button);
    r.append(PAGE_TAIL);
    r
}

pub const STATUS_OK: &'static str = "200 OK";
pub const STATUS_NOT_FOUND: &'static str = "404 Not Found";
pub const STATUS_SERVER_ERROR: &'static str = "500 Internal Server Error";
pub const CONTENT_HTML: &'static str = "text/html; charset=utf-8";
pub const CONTENT_JSON: &'static str = "application/json";
pub const CONTENT_TEXT: &'static str = "text/plain; charset=utf-8";

pub open spec fn model(status: Seq<char>, content_type: Seq<char>, body: Seq<char>) -> ResponseModel {
    ResponseModel { status, content_type, body }
}

fn make_response(status: &str, content_type: &str, body: String) -> (r: Response)
    ensures
        response_model(r) == model(status@, content_type@, body@),
{
    Response {
        status: String::from_str(status),
        content_type: String::from_str(content_type),
        body,
    }
}

/// What the server does with a request.
#[derive(Debug)]
pub enum Handling {
    /// Send this response.
    Reply(Response),
    /// Flip the state, then finish with `begin_toggle` and `finish_toggle`.
    Toggle,
}

/// The answer to a route in state `enabled`: the page, the state as JSON, a
/// toggle, or `404 Not Found`.
pub open spec fn handling_of(route: Route, enabled: bool) -> Option<ResponseModel> {
    match route {
        Route::Page => Some(model(STATUS_OK@, CONTENT_HTML@, page_text(enabled))),
        Route::Status => Some(model(STATUS_OK@, CONTENT_JSON@, status_json_text(enabled))),
        Route::Toggle => None,
        Route::NotFound => Some(model(STATUS_NOT_FOUND@, CONTENT_TEXT@, "not found"@)),
    }
}

/// Decides how to answer `route` while the simulation is `enabled`.
pub fn handle_route(route: Route, enabled: bool) -> (r: Handling)
    ensures
        match handling_of(route, enabled) {
            Some(m) => r matches Handling::Reply(resp) && response_model(resp) == m,
            None => r is Toggle,
        },
{
    match route {
        Route::Page => Handling::Reply(make_response(STATUS_OK, CONTENT_HTML, page_html(enabled))),
        Route::Status => Handling::Reply(
            make_response(STATUS_OK, CONTENT_JSON, status_json(enabled)),
        ),
        Route::Toggle => Handling::Toggle,
        Route::NotFound => Handling::Reply(
            make_response(STATUS_NOT_FOUND, CONTENT_TEXT, String::from_str("not found")),
        ),
    }
}

/// The first half of a toggle: the new state, and whether the cursor must be
/// nudged now (it must when the simulation turns on).
#[derive(Clone, Copy, Debug, PartialEq, Eq, Structural)]
pub struct ToggleStart {
    pub enabled: bool,
    pub nudge: bool,
}

/// Starts a toggle from the state `previous` that the flip replaced.
pub fn begin_toggle(previous: bool) -> (r: ToggleStart)
    ensures
        r.enabled == !previous,
        r.nudge == !previous,
{
    ToggleStart { enabled: !previous, nudge: !previous }
}

/// The end of a toggle: the state to keep and the response.
#[derive(Debug)]
pub struct ToggleOutcome {
    pub enabled: bool,
    pub response: Response,
}

/// The JSON that reports a nudge that failed: the simulation is off.
pub open spec fn failure_json_text(error: Seq<char>) -> Seq<char> {
    "{\"enabled\":false,\"error\":\""@ + error + "\"}"@
}

/// The outcome of a toggle to `enabled`, given the error of the nudge when
/// one was made and failed: a failed nudge switches the simulation back off
/// and answers `500` with the error; otherwise the new state is kept and
/// reported. When the simulation turned off no nudge was made, and
/// `nudge_error` is not read.
pub open spec fn toggle_outcome(enabled: bool, nudge_error: Option<Seq<char>>) -> (bool, ResponseModel) {
    if enabled && nudge_error is Some {
        (false, model(STATUS_SERVER_ERROR@, CONTENT_JSON@, failure_json_text(nudge_error->0)))
    } else {
        (enabled, model(STATUS_OK@, CONTENT_JSON@, status_json_text(enabled)))
    }
}

/// Finishes a toggle to `enabled`.
pub fn finish_toggle(enabled: bool, nudge_error: Option<String>) -> (r: ToggleOutcome)
    ensures
        (r.enabled, response_model(r.response)) == toggle_outcome(
            enabled,
            match nudge_error {
                Some(e) => Some(e@),
                None => None,
            },
        ),
{
    match nudge_error {
        Some(err) => {
            if enabled {
                let mut body = String::from_str("{\"enabled\":false,\"error\":\"");
                body.append(err.as_str());
                body.append("\"}");
                return ToggleOutcome {
                    enabled: false,
                    response: make_response(STATUS_SERVER_ERROR, CONTENT_JSON, body),
                };
            }
        },
        None => {},
    }
    ToggleOutcome {
        enabled,
        response: make_response(STATUS_OK, CONTENT_JSON, status_json(enabled)),
    }
}

/// The bytes that a text takes in UTF-8.
pub open spec fn utf8_len(s: Seq<char>) -> nat {
    vstd::utf8::encode_utf8(s).len()
}

/// A response as written on the connection: status line, content type, a
/// length that counts the body's UTF-8 bytes, `Connection: close`, the body.
pub open spec fn response_text(m: ResponseModel) -> Seq<char> {
    "HTTP/1.1 "@ + m.status + "\r\nContent-Type: "@ + m.content_type + "\r\nContent-Length: "@
        + decimal(utf8_len(m.body)) + "\r\nConnection: close\r\n\r\n"@ + m.body
}

/// Writes a response out as text.
pub fn render_response(response: &Response) -> (r: String)
    requires
        utf8_len(response.body@) <= usize::MAX,
    ensures
        r@ == response_text(response_model(*response)),
{
    let body = response.body.as_str();
    let length = decimal_string(body.len() as u64);
    let mut r = String::from_str("HTTP/1.1 ");
    r.append(response.status.as_str());
    r.append("\r\nContent-Type: ");
    r.append(response.content_type.as_str());
    r.append("\r\nContent-Length: ");
    r.append(length.as_str());
    r.append("\r\nConnection: close\r\n\r\n");
    r.append(body);
    r
}

/// A toggle whose nudge succeeds flips the state and reports the new one;
/// two such toggles give back the state they started from.
pub proof fn toggle_flips_state(previous: bool)
    ensures
        toggle_outcome(!previous, None).0 == !previous,
        toggle_outcome(!previous, None).1 == model(
            STATUS_OK@,
            CONTENT_JSON@,
            status_json_text(!previous),
        ),
        toggle_outcome(!toggle_outcome(!previous, None).0, None).0 == previous,
{
}

/// A toggle that turns the simulation on but cannot nudge leaves it off and
/// says so, with the error.
pub proof fn failed_nudge_leaves_off(error: Seq<char>)
    ensures
        toggle_outcome(true, Some(error)).0 == false,
        toggle_outcome(true, Some(error)).1 == model(
            STATUS_SERVER_ERROR@,
            CONTENT_JSON@,
            failure_json_text(error),
        ),
{
}

/// Turning the simulation off never fails and needs no nudge.
pub proof fn turning_off_always_succeeds(error: Option<Seq<char>>)
    ensures
        toggle_outcome(false, error).0 == false,
        toggle_outcome(false, error).1 == model(STATUS_OK@, CONTENT_JSON@, status_json_text(false)),
{
}

proof fn lemma_line_end_past(l: Seq<u8>, rest: Seq<u8>, i: int)
    requires
        0 <= i <= l.len(),
        forall|j: int| 0 <= j < l.len() ==> l[j] != 10,
        rest.len() > 0,
        rest[0] == 10,
    ensures
        line_end(l + rest, i) == l.len(),
    decreases l.len() - i,
{
    if i < l.len() {
        lemma_line_end_past(l, rest, i + 1);
        assert((l + rest)[i] == l[i]);
    } else {
        assert((l + rest)[i] == rest[0]);
    }
}

/// A request line ends at its line feed, with or without a carriage return
/// before it: both endings give the same line, and so the same route.
pub proof fn line_endings_agree(line: Seq<u8>, rest: Seq<u8>)
    requires
        forall|j: int| 0 <= j < line.len() ==> line[j] != 10,
        line.len() == 0 || line.last() != 13,
    ensures
        request_line(line + seq![10u8] + rest) == line,
        request_line(line + seq![13u8, 10u8] + rest) == line,
{
    let a = line + seq![10u8] + rest;
    assert(a =~= line + (seq![10u8] + rest));
    lemma_line_end_past(line, seq![10u8] + rest, 0);
    assert(a.subrange(0, line.len() as int) =~= line);
    let lc = line.push(13u8);
    let b = line + seq![13u8, 10u8] + rest;
    assert(b =~= lc + (seq![10u8] + rest));
    assert forall|j: int| 0 <= j < lc.len() implies lc[j] != 10 by {
        if j < line.len() {
            assert(lc[j] == line[j]);
        }
    }
    lemma_line_end_past(lc, seq![10u8] + rest, 0);
    assert(b.subrange(0, lc.len() as int) =~= lc);
    assert(b[lc.len() - 1] == 13u8);
    assert(lc.drop_last() =~= line);
}

/// The page and the status route report the state they are given: the
/// status body is `{"enabled":true}` exactly when the simulation is on and
/// `{"enabled":false}` exactly when it is off, so the two replies differ;
/// the page differs between the two states too; anything unknown is `404`.
pub proof fn replies_report_the_state(enabled: bool)
    ensures
        handling_of(Route::Status, enabled) == Some(
            model(STATUS_OK@, CONTENT_JSON@, status_json_text(enabled)),
        ),
        status_json_text(true) == "{\"enabled\":true}"@,
        status_json_text(false) == "{\"enabled\":false}"@,
        handling_of(Route::Status, true) != handling_of(Route::Status, false),
        handling_of(Route::Page, enabled) == Some(model(STATUS_OK@, CONTENT_HTML@, page_text(enabled))),
        page_text(true) != page_text(false),
        handling_of(Route::Page, true) != handling_of(Route::Page, false),
        handling_of(Route::NotFound, enabled) == Some(
            model(STATUS_NOT_FOUND@, CONTENT_TEXT@, "not found"@),
        ),
        handling_of(Route::Toggle, enabled) is None,
{
    reveal_strlit("{\"enabled\":");
    reveal_strlit("true");
    reveal_strlit("false");
    reveal_strlit("}");
    reveal_strlit("{\"enabled\":true}");
    reveal_strlit("{\"enabled\":false}");
    assert(status_json_text(true) =~= "{\"enabled\":true}"@);
    assert(status_json_text(false) =~= "{\"enabled\":false}"@);
    assert(status_json_text(true).len() != status_json_text(false).len());
    reveal_strlit("is-on");
    reveal_strlit("is-off");
    reveal_strlit("On");
    reveal_strlit("Off");
    reveal_strlit("Stop");
    reveal_strlit("Start");
    assert(page_text(true).len() != page_text(false).len());
    let on = handling_of(Route::Status, true);
    let off = handling_of(Route::Status, false);
    assert(on->0.body != off->0.body);
    let pon = handling_of(Route::Page, true);
    let poff = handling_of(Route::Page, false);
    assert(pon->0.body != poff->0.body);
}

proof fn lemma_route_lines()
    ensures
        "GET / HTTP/1.1".spec_bytes().len() == 14,
        "GET / HTTP/1.0".spec_bytes().len() == 14,
        "GET /status HTTP/1.1".spec_bytes().len() == 20,
        "GET /status HTTP/1.0".spec_bytes().len() == 20,
        "POST /toggle HTTP/1.1".spec_bytes().len() == 21,
        "POST /toggle HTTP/1.0".spec_bytes().len() == 21,
{
    broadcast use vstd::string::is_ascii_spec_bytes;

    reveal_strlit("GET / HTTP/1.1");
    reveal_strlit("GET / HTTP/1.0");
    reveal_strlit("GET /status HTTP/1.1");
    reveal_strlit("GET /status HTTP/1.0");
    reveal_strlit("POST /toggle HTTP/1.1");
    reveal_strlit("POST /toggle HTTP/1.0");
    assert(vstd::string::is_ascii("GET / HTTP/1.1"));
    assert(vstd::string::is_ascii("GET / HTTP/1.0"));
    assert(vstd::string::is_ascii("GET /status HTTP/1.1"));
    assert(vstd::string::is_ascii("GET /status HTTP/1.0"));
    assert(vstd::string::is_ascii("POST /toggle HTTP/1.1"));
    assert(vstd::string::is_ascii("POST /toggle HTTP/1.0"));
}

/// A request goes to the page, the status or the toggle exactly when its
/// line is `GET /`, `GET /status` or `POST /toggle` in HTTP/1.1 or 1.0, and
/// every other line is not found.
pub proof fn routes_by_exact_line(line: Seq<u8>)
    ensures
        route_of_line(line) == Route::Page <==> (line == "GET / HTTP/1.1".spec_bytes() || line
            == "GET / HTTP/1.0".spec_bytes()),
        route_of_line(line) == Route::Status <==> (line == "GET /status HTTP/1.1".spec_bytes()
            || line == "GET /status HTTP/1.0".spec_bytes()),
        route_of_line(line) == Route::Toggle <==> (line == "POST /toggle HTTP/1.1".spec_bytes()
            || line == "POST /toggle HTTP/1.0".spec_bytes()),
        route_of_line(line) == Route::NotFound <==> !(line == "GET / HTTP/1.1".spec_bytes() || line
            == "GET / HTTP/1.0".spec_bytes() || line == "GET /status HTTP/1.1".spec_bytes() || line
            == "GET /status HTTP/1.0".spec_bytes() || line == "POST /toggle HTTP/1.1".spec_bytes()
            || line == "POST /toggle HTTP/1.0".spec_bytes()),
{
    lemma_route_lines();
}

/// The page shows the state it is served in: `is-on`, `Simulation: On` and
/// a `Stop` button when on; `is-off`, `Simulation: Off` and a `Start` button
/// when off.
pub proof fn page_shows_the_state()
    ensures
        page_text(true) == PAGE_HEAD@ + "is-on"@ + PAGE_STATUS@ + "On"@ + PAGE_BUTTON@ + "Stop"@
            + PAGE_TAIL@,
        page_text(false) == PAGE_HEAD@ + "is-off"@ + PAGE_STATUS@ + "Off"@ + PAGE_BUTTON@
            + "Start"@ + PAGE_TAIL@,
{
}

/// A written response is the status line, the content type, a length that
/// counts the body's UTF-8 bytes, `Connection: close`, a blank line and the
/// body.
pub proof fn response_layout(m: ResponseModel)
    ensures
        response_text(m) == "HTTP/1.1 "@ + m.status + "\r\nContent-Type: "@ + m.content_type
            + "\r\nContent-Length: "@ + decimal(vstd::utf8::encode_utf8(m.body).len())
            + "\r\nConnection: close\r\n\r\n"@ + m.body,
{
}

} // verus!
