# goto_picker

The goto picker of a terminal workspace manager, written in Verus: a list of
every workspace, tab and agent pane the user can jump to, narrowed by a
category and by a fuzzy filter, with a cursor and a jump to the chosen row.

- `src/model.rs`: the application state the picker reads (workspaces, tabs,
  panes, terminals) and its mathematical view.
- `src/goto.rs`: building the rows, narrowing and ranking them, and the key
  handling state machine, each against a specification.
- `src/keys.rs`: keys and the action each asks for.
- `src/overlay.rs`: the arithmetic of drawing the popup.
- `src/text.rs`: the trusted calls into std and into `nucleo-matcher`.
- `src/laws.rs`: properties proved for every input.
- `app/lib.rs`: crossterm key conversion and ratatui drawing.
