# Ullage

Ullage shows how much of a subscription is left. A daemon of the user probes the
providers and keeps snapshots; the `ullage` command asks it over a private
socket and prints what it says.

`src/` is the verified library: every decision the command takes, from the
arguments to the text it prints, with contracts that Verus proves.

| Module | What it decides |
| --- | --- |
| `cli`, `validate`, `dispatch` | which step an invocation takes, what is sent, which answer is trusted |
| `protocol`, `provider`, `usage`, `error` | what client, daemon and providers say to each other; the provider registry |
| `summary`, `summary::filter` | the readable rows of a usage report, and metric filters |
| `identity`, `inspect`, `redact` | unsafe characters, and what is hidden without `--reveal` and `--diagnose` |
| `render`, `document`, `reading`, `table`, `errors`, `clock`, `version` | what is printed, and the exit code |
| `transport` | endpoints, replies, waiting for a daemon, starting one, managing its service |
| `service`, `service::steps` | unit files, property lists, task markers, and the steps of each service manager |
| `tui`, `cards`, `width` | the full-screen view: cards, columns, scrolling, the status line |
| `text` | characters, trimming, order and decimal digits |

What holds of several functions together stands in public proof functions, for
the most part in the `laws` modules.

The numbers of readings are floating-point. The library keeps them as their bits,
decides by exact tests on those bits, and leaves the arithmetic and the digits to
the program.

`app/` is the program around the library: the argument parser, the JSON of the
control channel, sockets and pipes, processes, the service managers and the terminal.

`tests/` runs the library with the outside crates it calls.
