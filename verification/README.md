# Rho

A file manager with two panes, driven by the keyboard.

`src/` is the library: everything that the program decides. It is written in
Verus, and each function states what it returns in its contract.

- `text`, `path`, `sorting`, `filtering`, `name_filter`, `quoting`: text, paths,
  stable sorting, filtering and shell quoting.
- `entry`, `location`, `pane`, `listing`, `actions`, `palette`, `config`: entries,
  places, the state of a pane, remote listings, file actions and settings.
- `prompt`, `message`, `app`, `app_panes`, `app_dialogs`, `app_update`,
  `app_queries`, `app_laws`: the state of the program and how it answers events.
  Each event yields a list of effects.
- `transfer`, `command`, `launch`, `dropbox`, `git_status`, `watch`: what an effect
  consists of, as steps, command lines and the reading of their outcomes.
- `docker`, `process`, `git`, `ssh`, `apps`, `ftp`: the lists in the dialogs.
- `keymap`, `display`, `dialog`, `clock`: keys, and what is shown.

`app/` is the window around it: drawing, files, processes and timers.

The program name of the coding assistant is set by `assistant` in `~/.rho.yaml`;
unset, it is `assistant`.
