# claudial

A small instrument that shows how much of a subscription is used, and the
daemon on a host that feeds it over the air.

`src/` is the library, verified with Verus. It holds what the two programs
decide, except where floating point is rounded; nothing in it touches hardware,
the network or the clock.

- `icd`, `history`, `pace`, `settings`, `clawdmeter`: what crosses the wire, the
  record of spending, the projected pace, and the stored settings.
- `calendar`, `rtc`: civil time, and a real-time clock that is either known to
  be synchronized or not trusted.
- `panel`, `co5300`: the panel's commands and the tile driver.
- `touch`, `pmic`, `ble`, `events`, `ui`, `animation`, `frame_stats`,
  `settings_store`, `text`, `board`: the instrument's tasks and pages.
- `bringup`: the program that brings a new board up.
- `host`: credentials, usage sources, the radio link, and a session.

Tasks are state machines: `step` takes what happened and says what to do next.

`app/` performs those actions: the daemon in `main.rs`, and in `device/` what
the instrument's board program calls, generic over its radio and its drivers.
It also rounds percentages and times that arrive as floating point. `tests/`
runs the library.

`dbus` stands in Cargo.toml for its vendored C library, which the radio crate
links against on Linux; no code here calls it.

The daemon is told by arguments, or by variables of the same names, where its
source keeps what it needs. Probing the API takes `CLAUDIAL_PROBE_MODEL`,
`CLAUDIAL_CREDENTIAL_DIRECTORY`, `CLAUDIAL_CREDENTIAL_PROGRAM` and
`CLAUDIAL_LOGIN_COMMAND`. The proxy takes `CLAUDIAL_PROXY_URL`,
`CLAUDIAL_PROXY_USERNAME` and `CLAUDIAL_PROXY_PASSWORD`, or, with none of them
set, `CLAUDIAL_WALLET_FOLDER`. It stops at startup where one is missing.
