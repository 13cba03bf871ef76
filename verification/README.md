# taskr

A small command-line task manager. The library (`src/`) holds the rules of each
command, verified with Verus:

- `task` — the task type, its view (`TaskView`) and how a task is shown;
- `parser` — the commands as plain values;
- `taskr` — adding, listing, toggling, editing and removing tasks, and
  `process_command`, which applies one command to a list of tasks;
- `text` — decimal rendering and word joining used by the above;
- `laws` — properties across operations (toggling twice restores the list,
  listings partition the tasks, what a removal keeps, ...).

`app/` is the program: it parses the command line with clap, loads and stores
the tasks as JSON in the file `storage`, and prints what the library returns.
