# wake-nudge

A local Start/Stop button that periodically nudges the mouse cursor to keep
a desktop session active, with its decisions and texts verified by Verus.

- `src/` is the verified library:
  - `text.rs`: decimal rendering and parsing of unsigned numbers, string
    comparison, prefixes;
  - `cli.rs`: the command-line options, the configuration they build, and
    the run mode it selects;
  - `agent.rs`: the macOS LaunchAgent property list, its paths, XML escaping,
    and the `launchctl` steps of each agent command;
  - `http.rs`: routing of requests to the control page, the page itself, the
    status JSON, the toggle, and the written-out response;
  - `worker.rs`: the once-a-second decision of the nudging worker;
  - `report.rs`: the help text and the lines the program prints.
- `app/main.rs` is the program around it: the command line, the sockets and
  threads, the file system, `launchctl`, and the CoreGraphics and IOKit calls
  that move the cursor and keep the display awake.
- `tests/` runs the library on concrete inputs.
