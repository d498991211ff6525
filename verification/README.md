# fw-helper

Firmware control and system monitoring for the Framework Laptop 13: fan, power limit, charge
limit and profiles, with a daemon, a command line, a desktop window and a rescue program for
the fan.

Manual fan control can harm the machine: once userspace takes over, the embedded controller
(EC) holds the last duty it was given. So everything that decides is a library whose contracts
are proved with [Verus](https://github.com/verus-lang/verus), and everything that touches the
world is a thin program around it.

## Layout

- `src/` is the library. It does no I/O: work on files is a function from the answers so far
  to the next thing to do (`sysfs::Step`), which the program performs and answers. Work on
  the EC is the same with commands (`transport::EcStep`).
  - Rules for the fan: `board`, `floor`, `ceiling`, `battery`, `curve`, `fan`, `ecfan`,
    `lease`, `watchdog`, `restore`.
  - The other knobs: `charge`, `power`, `ec`, `transport`, `ppd`, `profile`, `profiles`.
  - What is read: `sysfs`, `caps`, `energy`, `telemetry`, `procs`.
  - The daemon's decisions and memory: `daemon`, `govern`, `polkit`, `state`, `wire`.
  - What people see: `client`, `panel`, `editor`, `report`.
  - Texts and numbers: `text`, `number`, `order`.
- `tests/` run the library against trees of files and an EC in memory.
- `app/` is the program: `daemon`, `ctl`, `restore-fan` and `gui`.

Quantities are whole numbers: thousandths of a degree, microwatts, milliseconds or
nanoseconds. Only `app/` uses floating point, where D-Bus and widgets want it.
