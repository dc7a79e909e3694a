# btkick

Kicks flaky Bluetooth into connecting: a command line tool and a terminal manager
for Linux with BlueZ. Asked to connect a device, it climbs a ladder of ever
heavier interventions, from a nudge to a software replug of the USB dongle, while
a background connector keeps asking for the connection, and stops as soon as the
device is up.

## Layout

- `src/` is the verified library. It decides; it does no input or output.
  - `bt`, `sysfs`, `order`: what `bluetoothctl` is asked, what its answers and
    sysfs mean, and the order in which devices are shown.
  - `tiers`, `engine`, `spammer`: the interventions as scripts, the engine and the
    background connector as state machines. Each takes what the last action
    brought and says what to do next.
  - `ladder`: what every attempt keeps to, from its start to its end.
  - `config`, `cli`: the default device and the command line.
  - `tui`, `view`, `layout`, `screen`: the state of the manager and what it shows.
  - `manager`: what the manager keeps to, whatever is pressed or clicked.
  - `text`, `number`: small operations on text, stated over its characters.
- `app/` is the program: processes, files, threads and the terminal.
- `tests/` runs the library on concrete values.

Three outside functions are called from the library and trusted:
`str::to_lowercase` (in `order`), ratatui's `Layout::split` (in `layout`), and the
rendering of its `List`, for the rows that are in view (in `view`).
