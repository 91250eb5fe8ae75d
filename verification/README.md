# moltis_work

The durable work graph of goals, tasks, templates, runs, approvals, costs,
budgets, recurring work and tracker links, as a verified library.

- `src/` holds the work graph (`store`, `goals`, `templates`, `planning`,
  `activity`, `tracker`, `budget`, `recurring`, `overview`), work packages
  (`portability`, `package_import`), parent links between templates (`lineage`), the task
  list tool's requests (`task_list`), browser
  session history (`browser`), the code-index switch (`code_index`) and the
  Langfuse trace settings (`telemetry`).  Every operation has a contract over
  the store's tables; the operations that create records take their ids
  as arguments, `stamped` runs them with fresh ids and the current time,
  and `laws` states what holds across operations.
- `app/` keeps the graph in SQLite, serves the task list tool and the work
  API as JSON, reads and writes packages on disk, and installs the tracer.
- `tests/` runs the library on concrete scenarios.
