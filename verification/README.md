# Life-Tracking

A task manager for the terminal: task lists with priorities and colors, tasks with due dates and
hours, a search, and one TOML file per list on disk.

The library in `src/` is written in Verus. It holds everything that the program decides, as plain
functions on plain values, each with a contract that Verus proves:

- `text`, `date`, `color`, `sorting`, `numbers`, `seqs`: characters, calendar dates, colors, stable
  sorting, and numbers of their own for lists and tasks.
- `task`, `data`, `items`: the lists and tasks, the edits, and the rows that are shown.
- `directory`, `store`: where the data are kept, which files are read, what they make of the data,
  which are written and removed.
- `state`, `input`, `keys`, `editing`, `effects`, `program`: the state of the program and what each
  key does to it. A key may ask for work outside (a save, an editor); the answer is handed back.
- `labels`, `preview`, `rows`, `screen`, `panels`, `scratchpad`: the texts on the screen.
- `data_laws`, `store_laws`, `item_laws`, `key_laws`, `task_laws`, `soundness`: what holds of several
  of these functions together, such as that what was saved is loaded again, that every edit is
  saved, that a key names one task, and that without a yes no list is deleted, and no task but
  completed ones more than a week past their due date.

What is believed without proof stands in `text` and `date`: a few functions of the standard library
and the calendar of `chrono`, each with a comment that says what is claimed of it.

`app/` is the program around the library: the terminal, the files, and the clock. `tests/` runs the
library on concrete values.
