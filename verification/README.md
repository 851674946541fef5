# kazi

Kazi keeps a project's tasks next to its code, in a `.tasks` directory.

- `src/` is the library, verified with Verus: task slugs (`slug`), the task file
  format and its front matter (`md_repo`), task numbering and the steps of
  loading and initialising a project (`project`), the tasks file of the JSON
  store (`json_repo`), repository errors (`repo`), paths (`paths`), the task
  table's rows and keys (`tasks_table`), and the string helpers they share
  (`text`).
- `app/` is the command-line program: argument parsing, the file system, the
  clock, JSON and YAML through serde, and the terminal table.
- `tests/` runs the library on concrete values.
