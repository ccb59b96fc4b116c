# moraebox

The rules of a daemonless sandbox runtime, written in Verus: each run of a command has its own
microVM, its own budget, its own network policy, and leaves nothing behind.

The library in `src/` decides; the program in `app/` acts.  Whatever reads a clock, a file or a
socket stands in `app/` and hands plain values to the library; whatever is decided from them is
proved in `src/`.

| Module | What it is about |
| --- | --- |
| `budget`, `trace` | Stages of a run that share one deadline, and what is recorded of them |
| `lifecycle`, `session`, `output` | The states of a session, its driver, its input, and its output under positions |
| `supervisor`, `sdk` | One command from start to report; sessions that a connection owns |
| `backend`, `process`, `libkrun` | What a run may ask of a backend, and how a machine is prepared, started and cleaned up |
| `policy` | Which Ethernet frames pass between a guest and the network |
| `pool`, `table` | Prepared units that are used once, and tables whose entries expire |
| `doctor` | Where native tools are, and what is missing on a host |
| `helper` | The process that becomes a machine: its plan, its agent, and files on their way in and out |
| `net`, `bytes`, `text`, `paths`, `time` | Addresses, numbers, texts, paths and spans |

A state machine of the library has a view, a specification of each step, and an executable `step`
that is proved to take it.  What holds of several steps is stated by the proof functions whose names
begin with `law_`.

Results of the crates `tar` and `sha2`, and of some functions of the standard library, are taken on
trust: each such call stands in a function of its own whose comment says what is believed of it.
