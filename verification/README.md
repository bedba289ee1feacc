# tt-toplike

Real-time monitoring of Tenstorrent hardware (Grayskull, Wormhole, Blackhole),
with a core that is verified by [Verus](https://github.com/verus-lang/verus).

## Layout

- `src/` is the library. Every public function states what it returns or
  changes, and Verus proves it; the methods that all backends share state it
  once, in the trait `TelemetryBackend`.
  - `document`, `text` and `maps` hold what the rest is built of: JSON trees,
    character sequences, and maps.
  - `models` holds devices and their telemetry.
  - `backend` holds the state of each source of telemetry: `json` (`tt-smi`),
    `sysfs` with `hwmon` and `pcie_counters` (the kernel's sensors), `hybrid`
    (both, joined by PCI bus id, with `smbus_smooth`), `luwen` (the chips
    themselves), `host` (the processor of this machine, with `gpu` and `ane` on
    a Mac), `ws` (a remote box, with `discovery` and `remote_ext`), `mock`
    (simulated devices), `serve` (the publisher), and `factory` (which of them
    to start).
  - `cli`, `config`, `logging` and `error` hold the decisions of the command
    line, the animation settings, the log buffer and the error texts.
  - `terminal`, `screen` and `keyboard` hold the terminal that the window draws.
- `tests/` runs the library.
- `app/` is the program around it: files, subprocesses, sockets, threads, and
  whatever is computed in floating point.

## Numbers

The library holds no floating-point numbers. A measured quantity is the decimal
text of its value; memory temperatures are whole millidegrees; a rate is a
number of bytes over a number of nanoseconds; an animation factor is a number
of millionths.

## What is trusted

`serde_json` parses and writes JSON, `chrono` tells the time, and
`str::to_lowercase` and `String::push` of the standard library are called as
their documentation describes them. The doc comment of each of these wrappers
says what is claimed. Properties whose name starts with `law_` are proved of the
library as a whole.
