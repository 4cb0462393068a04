# anyn2n

A desktop client for n2n v3 edges, with its core verified in Verus.

`src/` is the verified library:

- `text` — the string operations the parsers use (trim, split, lines,
  words, search, unsigned parsing, decimal output), each specified over
  `Seq<char>`.
- `addr` — IPv4/MAC checks, VPN ranges, subnet prefixes, and ARP table
  lines as Windows, Linux and macOS print them.
- `management` — the edge's `r` and `edges` management replies read into an
  `EdgeStatus`; the ARP entries of the VPN subnet.
- `edge` — the edge's command line, and the state read from its console
  output (TUN device, supernode link, VPN address, capped log).
- `connection` — a connect attempt as a step function (start, settle, up to
  five queries, give up or cancel), and how a status report is completed.
- `discovery` — answers to discovery datagrams on the VPN subnet, and the
  schedule of broadcasts and keep-alive pings.
- `servers` — the saved servers: save, delete, list, newest first.
- `commands` — error classification, status replies, traffic counters,
  firewall reports, ping times, window rules, the close-behaviour setting.
- `tap` — the TAP driver installation's error texts and the PowerShell
  message box command, its quotes doubled.
- `strmap`, `logs` — a text map with distinct keys; the capped application log.
- `trusted` — the calls into std, chrono, uuid, serde_json and image, with
  the contracts taken on trust.

`app/` is the Tauri application around it: windows and tray, the edge child
process, the UDP sockets, the files, and the system tools it runs.
