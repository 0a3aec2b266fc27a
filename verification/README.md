# zellij-spotlight

A keyboard-driven explorer for the tabs and panes of a Zellij session,
with its logic written and proved in Verus.

- `src/` is the verified library: `filter` (search modes, matching and the
  result list), `input` (keys to actions), `action` (host commands for a
  selected row), `render` (the text of a frame), `state` (the explorer's
  state machine: events in, new state and commands out), `session` (tabs
  and panes) and `text` (string helpers).
- `app/` is the Zellij plugin around it: it converts Zellij's events and
  types, sends the commands the library returns and prints its frames.
- `tests/` exercises the library on concrete sessions.
