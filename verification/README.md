# turm

A terminal interface over Slurm's job queue. The library in `src/` holds
everything the interface decides, each function with a contract that Verus
proves:

- `sacct`, `resources`, `squeue_args`: turning what `sacct`, `sinfo` and
  `squeue` print into jobs and partition counts, and building their
  arguments.
- `job_list`, `sorting`, `filter`, `resource_list`, `output_panel`, `app`,
  `keymap`, `mouse`: the state of the interface and how keys, clicks, the mouse wheel
  and new data change it.
- `screen_layout`, `layout_text`, `output_text`, `details_view`,
  `screen_text`, `selection`: where each panel goes and what it shows.
- `laws`: properties that hold across calls, stated and proved.

`app/` is the program around it: command-line options, the terminal, the
threads that run Slurm's commands and read files, and the drawing with
ratatui. `tests/` runs the library on concrete values.
