# term-ssh-manager

A terminal (TUI) manager for SSH connections: a list of saved servers that
can be added, edited, deleted and connected to, kept in a JSON file.

The library under `src/` holds the logic, proved against its contracts:

- `text`: Unicode whitespace trimming, decimal rendering and port parsing.
- `server`: the saved server, its `user@host:port` text and `ssh` arguments.
- `form`: the add/edit form, its focus cycle and the server it describes.
- `app`: the application state and its transitions, each given by a spec
  function, together with the outside work (saving, sending bytes to a
  session) that a transition asks for.
- `input`: what each key does on each screen, and the bytes a key sends to
  a terminal.
- `display`: the computed parts of the screen (popup geometry, list and
  status texts, styled runs of a session's terminal rows, cursor positions).

The program under `app/` reads keys and the configuration file, draws with
ratatui, runs `ssh` and performs the work that the library's transitions ask
for.
