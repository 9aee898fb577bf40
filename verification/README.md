# crossterm_input

Terminal input for Unix, with the decisions verified by [Verus](https://github.com/verus-lang/verus).

Reading a terminal is mostly deciding: which bytes form an event, which event answers which
caller, whether a deadline has passed, what a probe of the terminal asks next. The library under
`src/` makes these decisions. It performs no input or output of its own. A function that needs
something from outside returns a step that says what has to be done, and the request inside the
step takes the outcome and returns the next step. Each reply states in its contract which step
follows. The `law_` functions state what holds beyond that: some of one step, such as that a found
event is read at once, and some of whole runs, such as that a probe leaves the input of the user
in the queue or that a read leaves the status flags of the terminal as they were.

| Module | What it decides |
| --- | --- |
| `event::parser`, `event::osc` | how bytes are cut into sequences, and when an oversized command is thrown away |
| `event::read`, `event::read_laws`, `event::filter` | which queued event goes to which caller, and that no other is lost |
| `event::source::mio`, `event::source::tty` | what one read of the terminal does next, with edge-triggered readiness or with polled descriptors, and with which status flags |
| `event::timeout`, `time` | how much of a wait is left |
| `terminal::probe` | what the replies to a startup probe amount to |
| `terminal::startup`, `terminal::startup_laws`, `terminal::startup_results` | what a startup probe does next, that it keeps its deadline and the input of the user, and what its result is made of |
| `terminal::query` | where a query goes and how it is written before a deadline without waiting in a write, and that the standard output is left as it was |
| `terminal::file_descriptor` | which descriptor is read, who closes it, and which flags it has meanwhile |

`app/` runs the library on a Unix system: it holds the loops that perform each step with system
calls. The decoder of escape sequences, the size of the terminal and its modes come from the
program around it, through the traits in `app/host.rs`.
