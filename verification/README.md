# c2s-setup

Decides what a headless installer does to the workstations of an EDA teaching lab:
preparing a machine, installing tool suites from their media, managing lab accounts and
granting VNC sessions. The decisions are verified with Verus; everything that touches a
machine stands around them.

## How it works

A *procedure* is a state machine. Each turn takes the reply to the last request and gives
lines for the log, then either the next request or the result. `exchange` holds the
requests and replies. A request either goes to the machine or calls another procedure,
whose result is the reply; `session` keeps the procedures that wait for one another and
proves that whoever waits is handed a reply of the shape it waits for.

The contract of every procedure is its model's function `after`, which gives the turn and
the next state for each reply. What holds over several turns, or of several procedures
together, stands in public proof functions whose names begin with `law_`.

## Layout

- `src/text.rs`, `number.rs`, `order.rs`, `path.rs`: texts, decimals, sorting, paths
- `src/exchange.rs`, `session.rs`, `shell.rs`: requests, replies, procedures, commands
- `src/cli.rs`, `tool_names.rs`, `run.rs`: the command line, its plan, the headless run
- `src/preinstall.rs`: preparing a machine
- `src/install.rs`, `suites.rs`: one tool and its parts; Xilinx, Silvaco, CADRE
- `src/archives.rs`, `cadence.rs`, `bundles.rs`, `strip.rs`, `gtar.rs`, `unwrap.rs`,
  `cadence_laws.rs`, `second_run.rs`: the Cadence tools
- `src/users.rs`, `user_list.rs`, `user_setup.rs`: accounts
- `src/vnc.rs`, `vnc_grant.rs`, `password.rs`, `vnc_laws.rs`, `vnc_grant_laws.rs`: VNC
  sessions
- `app/`: the command-line parser, the machine that performs requests, the entry points
- `tests/`: the library on concrete values, and whole sessions on a machine in memory

The one thing that is trusted is `str::to_lowercase`, for text that is not ASCII.
