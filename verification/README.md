# taarof

A terminal for the desktop whose tabs belong to workspaces, with a command palette, tasks
from mise, worktrees, saved sessions and a file viewer.

- `src/` is the library: the decisions of the program, with contracts that Verus proves.
- `app/` is the program around it: the window, the files, and the commands that it runs.
- `tests/` runs the library on concrete values.

In `src/`:

- `text`, `paths`, `ordering`, `json`: text, paths, stable sorting, and parsed JSON.
- `pane`, `workspace`, `identity`, `navigation`: the panes of a tab, the workspaces, the ids
  that tell them apart, and going from one to another.
- `keybindings`, `dashboard`, `git`, `tmux`: the actions, and what is known of sessions and
  checkouts.
- `probe`: the last known result of a repeated probe.
- `mise`: where tasks are looked for, how they are run here and over SSH, the tool versions
  that are shown, and the caches of what was found.
- `task_launch`: how a task is run in a tab of its own.
- `loop_runner`: the command lines of loop runners and what their results say.
- `palette`: the entries of the palette, its lists, and what choosing an entry does.
- `window`: the window's actions, chords, search, layout, restored sessions, registered
  projects and startup.
- `peek`: what the file viewer shows.
- `private_atomic_file`: the steps of replacing a file.
- `performance`: checksums over what probes and sessions contain, and data to measure with.

A contract speaks of text as a sequence of characters, and of a value with text in it by its
deep view. The proof functions whose names begin with `law_` state what holds across
functions.
