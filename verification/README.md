# dekit

A task runner: it starts, stops and watches the tasks of a directory, shows
their screens in a console, and answers clients over connections.

- `src/` is the library, written in Verus. Every function states what it returns
  or changes, and Verus proves it. The public proof functions whose names begin
  with `law_` state what holds of several functions together.
- `tests/` runs the library on concrete values.
- `app/` is ordinary Rust around the library: files, processes, the terminal and
  connections.

Modules of the library:

- `target`, `command`, `wire`: which tasks are meant, what is to be done with
  them, and how both are written down.
- `kernel`: task spaces, paths, keys and the namespace that finds tasks.
- `config`, `mprocs`: configuration documents and what they make of the defaults.
- `console`: the console as a machine from messages to effects, and what it
  draws.
- `term`, `term_driver`: keys, cells, grids, escape sequences, and how a terminal
  is taken over and given back.
- `protocol`, `dekit`, `attach_client`: requests and answers, connections,
  attachments, and the start of the runner.
- `runner`: killing exactly the processes that are meant.

Calls into `indexmap`, `serde_yaml`, `tui-input`, `unicode-segmentation` and one
function of the standard library stand behind declarations that Verus believes; each says in
its comment what it claims.
