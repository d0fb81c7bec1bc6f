# eadai

Serial telemetry tools for embedded boards: a reader that reconnects,
decodes BMI088 IMU frames and text measurement lines, analyses the
measurements and fires trigger rules; a BMI088 handshake probe; and a
read-only MCP server that exposes the live telemetry to AI clients.

## Layout

- `src/` — the library, verified with Verus: BMI088 framing, CRC, stream
  decoding and session handshake; the line parsers; command-line argument
  parsing; the reader loop's decisions (when to publish, open, read,
  retry or stop, and what each chunk of bytes yields); trigger-rule
  firing, sample windows and IMU axis gathering; the AI context's
  per-channel summaries and bounded histories and its selection rules;
  the MCP tool and resource tables;
  the logic-analyzer helpers (sigrok scan and CSV parsing).
- `app/` — the programs around it: serial-port I/O, the loop that performs
  what the library's reader-loop machine decides, the message bus, the
  floating-point statistics, the simulated telemetry session and the MCP
  server. The binary acts as `eadai` by default, as the
  handshake probe when started as `bmi088-handshake-diag`, and as the MCP
  server when started as `eadai-mcp`.
- `tests/` — tests of the library.

## Not carried

- The desktop shell (a Tauri window that embeds the runtime and serves the
  MCP endpoint over HTTP) is not part of this crate.
- The MAVLink, CRTP and self-describing decoders and session are not
  carried either: under those parsers a received chunk is handled as a text
  line, and automatic detection looks for BMI088 framing only.
