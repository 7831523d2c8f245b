# plrd

The decisions of a power-loss recovery daemon for Klipper printers, written in
Verus: what the log of an interrupted print leads to, whether the machine may be
recovered automatically, which commands a recovery plan sends and when it stops,
and which parts of the log are kept.

## Layout

- `src/` is the verified library.
  - `text`, `number`, `json`, `order`, `checksum`: values and the operations on
    them, stated over mathematical sequences and integers.
  - `plrcfg`, `calibration`, `machine`, `source`: the printer's configuration, the
    validity of its calibration, and where the machine snapshot of a run comes
    from.
  - `pipeline`, `narration`, `passage`: from a log to a plan, what is said on the
    way, and what holds of every run.
  - `plan`, `executor`, `preview`, `execution`, `prompts`, `transcript`: a plan,
    its execution as a state machine, the questions it puts and the record it
    keeps. `guarantees`, `clearance` and `chronicle` hold what is true of every
    execution and of its record.
  - `recover`, `recovery_file`, `gates`, `launch`: the subcommand, from consent to
    the exit code.
  - `moonraker`, `powerfail`, `hostclock`, `retention`: the web server's protocol,
    the power-fail watcher, the clocks, and the pruning of the log.
- `tests/` runs the library on concrete values, against a fake printer and a
  directory held in memory.
- `app/` is the program around it: files, sockets, the terminal and the GPIO
  line. What the analysis crates compute on floating-point geometry comes in
  through the `Engine` trait.

Files, sockets and waits are never the library's. Each longer procedure is a state
machine: `app/` does what the state asks for and hands the result back as an
event, so a contract speaks of every order in which the world can answer.

Doubles are carried by their bit patterns; the library compares and orders them,
and leaves arithmetic on them to its callers.
