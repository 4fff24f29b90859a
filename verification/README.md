# aether-wire

A native Linux end-to-end network benchmarking tool, as a verified library and a thin program
around it.

- `src/` is the library, written in Verus: Netlink request building and reply parsing, network
  interface records (sysfs and rtnetlink), command-line and panel input parsing, server name
  resolution, UDP benchmark request checks, kernel configuration and module lookups, payload
  seeds, the results reports, log lines, and the terminal UI's forms, keys and panel states.
  Every function carries a contract that Verus proves, except five small trusted wrappers
  whose contracts are assumed: `String::push`, `char::is_alphabetic`, `str::to_uppercase`,
  `humantime::parse_duration`, and the ChaCha8 generator of `rand_chacha`/`rand_core`.
- `app/` is the program (`aw` starts the terminal UI, `aw udp <interface> <server> ...` checks a
  UDP benchmark request): terminal setup and drawing (ratatui, crossterm), sockets and files,
  the clock, and the decimal formatting of rates, all calling into the library.
- `tests/` exercises the library on concrete values.
