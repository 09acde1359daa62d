# mail_box

A permissive SMTP receiver for local testing. The library in `src/` holds the
logic, verified with Verus; `app/main.rs` is the program around it (sockets,
TLS, files, HTTP, MongoDB, command-line options).

- `text` — character classes, trimming, and conversions between `String` and `Vec<char>`.
- `address` — `parse_address` and `sanitize_file_part`, with their laws.
- `time` — UTC instants, reading the system clock, RFC 3339 text and parsing, cutoff arithmetic.
- `session` — the conversation state and the accepted email.
- `protocol` — the SMTP conversation as a state machine: each client line gives
  the next state and the action to perform (reply, start TLS, deliver, close).
- `storage` — which storage modes run, and transcript file names.
- `firebase` — the database layout: record URLs, the summary, cleanup entry and
  group update written per email, and which cleanup entries have expired.
- `cleanup` — when cleanup runs (at start, then every interval), the retention
  cutoff, which files expire.
- `config` — the webhook configuration check.
- `tls` — the self-signed certificate for `localhost` offered for `STARTTLS`.
